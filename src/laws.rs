//! Properties that relate several operations of a table.
use vstd::multiset::Multiset;
use vstd::prelude::*;
use crate::element::{decode_func, encode_func, valid_func_addr, GcRef, TableElement};
use crate::gc::{counted, GcStore};
use crate::slots::{overwrite, repeat};
use crate::table::{ref_occurrences, surplus};

verus! {

/// Copying `n` elements within one sequence from `src` to `dst`, as
/// `copy_within` does (its result is `overwrite(e, dst, e[src..src + n])`),
/// gives what copying them first into a temporary buffer and then from that
/// buffer gives, whichever way the two ranges overlap.
pub proof fn lemma_copy_within_is_buffered<A>(e: Seq<A>, dst: int, src: int, n: int, scratch: A)
    requires
        0 <= n,
        0 <= dst,
        0 <= src,
        dst + n <= e.len(),
        src + n <= e.len(),
    ensures
        ({
            let buffer = overwrite(repeat(scratch, n as nat), 0, e.subrange(src, src + n));
            overwrite(e, dst, buffer.subrange(0, n)) == overwrite(e, dst, e.subrange(src, src + n))
        }),
{
    let buffer = overwrite(repeat(scratch, n as nat), 0, e.subrange(src, src + n));
    assert(buffer.subrange(0, n) =~= e.subrange(src, src + n));
}

/// A function reference written into a lazily initialised slot reads back
/// as exactly that reference, with the tag bit stripped, while a slot
/// never written reads as the uninitialised marker.
pub proof fn lemma_lazy_init_round_trip(ptr: Option<usize>)
    requires
        ptr matches Some(a) ==> valid_func_addr(a),
    ensures
        decode_func(0, true) == TableElement::UninitFunc,
        decode_func(encode_func(ptr, true), true) == TableElement::FuncRef(ptr),
{
    crate::element::lemma_func_round_trip(ptr, true);
}

/// The store's retains on every heap object are exactly the table's
/// references to it plus the references in `held` that the caller owns.
pub open spec fn retains_match(store: GcStore, elements: Seq<TableElement>, held: Multiset<GcRef>) -> bool {
    forall|h: GcRef|
        !h.spec_is_i31() ==> #[trigger] store.rc(h) == ref_occurrences(elements, h) + held.count(h)
}

/// The caller's references once it has handed `consumed` over.
pub open spec fn held_after(held: Multiset<GcRef>, consumed: Option<GcRef>) -> Multiset<GcRef> {
    match consumed {
        Some(x) => if x.spec_is_i31() {
            held
        } else {
            held.remove(x)
        },
        None => held,
    }
}

/// Retains keep matching references across any step that keeps each
/// object's retains beyond the table's references, less the one reference
/// the caller handed over: `fill` and `grow` (handing over their value),
/// `copy` and `copy_within` (handing over nothing), and
/// `GcStore::drop_gc_ref`. With `lemma_retains_match_after_read` for `get`,
/// after any sequence of them with no references held elsewhere, the
/// store's retains are exactly the references the table holds.
pub proof fn lemma_retains_match_kept(
    s0: GcStore,
    e0: Seq<TableElement>,
    s1: GcStore,
    e1: Seq<TableElement>,
    held: Multiset<GcRef>,
    consumed: Option<GcRef>,
)
    requires
        retains_match(s0, e0, held),
        consumed matches Some(x) ==> x.spec_is_i31() || held.count(x) > 0,
        forall|h: GcRef|
            #[trigger] surplus(Some(s1), e1, h) == surplus(Some(s0), e0, h) - counted(consumed, h),
    ensures
        retains_match(s1, e1, held_after(held, consumed)),
{
    assert forall|h: GcRef| !h.spec_is_i31() implies #[trigger] s1.rc(h) == ref_occurrences(e1, h)
        + held_after(held, consumed).count(h) by {
        assert(surplus(Some(s1), e1, h) == surplus(Some(s0), e0, h) - counted(consumed, h));
        assert(s0.rc(h) == ref_occurrences(e0, h) + held.count(h));
    }
}

/// A read that hands out a new reference adds it to the caller's own.
pub proof fn lemma_retains_match_after_read(
    s0: GcStore,
    s1: GcStore,
    elements: Seq<TableElement>,
    held: Multiset<GcRef>,
    returned: Option<GcRef>,
)
    requires
        retains_match(s0, elements, held),
        forall|h: GcRef|
            #[trigger] surplus(Some(s1), elements, h) == surplus(Some(s0), elements, h) + counted(
                returned,
                h,
            ),
    ensures
        retains_match(
            s1,
            elements,
            match returned {
                Some(x) => if x.spec_is_i31() {
                    held
                } else {
                    held.insert(x)
                },
                None => held,
            },
        ),
{
    let after = match returned {
        Some(x) => if x.spec_is_i31() {
            held
        } else {
            held.insert(x)
        },
        None => held,
    };
    assert forall|h: GcRef| !h.spec_is_i31() implies #[trigger] s1.rc(h) == ref_occurrences(
        elements,
        h,
    ) + after.count(h) by {
        assert(surplus(Some(s1), elements, h) == surplus(Some(s0), elements, h) + counted(
            returned,
            h,
        ));
        assert(s0.rc(h) == ref_occurrences(elements, h) + held.count(h));
    }
}

} // verus!
