//! The table itself: six storage layouts (static or dynamic storage, times
//! three element kinds) behind one set of operations.
use core::ops::Range;
use vstd::prelude::*;
use crate::element::{
    element_align, spec_element_size, spec_table_type, wasm_to_table_type, decode_func, encode_func, valid_func_addr, kind_accepts, lemma_func_round_trip, valid_element,
    FuncTableElem, GcTableElem, GcRef, ContObj, gc_from_word, gc_to_word, cont_from_slot, cont_to_slot, MaybeTaggedFuncRef, TableElement, TableElementType,
};
use crate::limits::{
    creation_limits, creation_request, spec_creation_limits, spec_grow_step, GrowFailure,
    grow_step, index_to_usize, spec_to_usize, GrowStep, HostError, Limiter, TableError, TableMemory, TableType,
    Trap, Tunables,
};
use crate::gc::{counted, GcStore};
use crate::slots::{copy_slots, copy_slots_within, fill_slots, overwrite, repeat};

verus! {

/// What a table holds, as its operations see it.
pub struct TableView {
    /// The kind of its elements.
    pub kind: TableElementType,
    /// Whether unwritten function slots read as `UninitFunc` (false for
    /// tables of other kinds).
    pub lazy_init: bool,
    /// The address of the pool region a static table was made for, which
    /// `vmtable` reports as its base; `None` for a dynamic table, whose
    /// buffer may move when it grows.
    pub base: Option<usize>,
    /// The most elements the table may hold, when bounded.
    pub maximum: Option<usize>,
    /// The elements, as reads return them; its length is the table's size.
    pub elements: Seq<TableElement>,
}

/// What an element reads back as once stored in a table.
pub open spec fn stored(e: TableElement, lazy_init: bool) -> TableElement {
    match e {
        TableElement::UninitFunc => if lazy_init {
            TableElement::UninitFunc
        } else {
            TableElement::FuncRef(None)
        },
        _ => e,
    }
}

/// The element a fresh slot reads as.
pub open spec fn empty_element(kind: TableElementType, lazy_init: bool) -> TableElement {
    match kind {
        TableElementType::Func => if lazy_init {
            TableElement::UninitFunc
        } else {
            TableElement::FuncRef(None)
        },
        TableElementType::GcRef => TableElement::GcRef(None),
        TableElementType::Cont => TableElement::ContRef(None),
    }
}

/// How many slots of kind `k` a region of `bytes` bytes holds.
pub open spec fn region_capacity(bytes: usize, k: TableElementType) -> int {
    if spec_element_size(k) == 0 {
        0
    } else {
        bytes as int / spec_element_size(k) as int
    }
}

/// The size `len + delta` as a machine word, or `None` when it overflows.
pub open spec fn grown_size(len: nat, delta: u64) -> Option<usize> {
    if len + delta <= usize::MAX {
        Some((len + delta) as usize)
    } else {
        None
    }
}

/// The two views describe tables of one kind, storage and bound.
pub open spec fn same_shape(a: TableView, b: TableView) -> bool {
    &&& a.kind == b.kind
    &&& a.lazy_init == b.lazy_init
    &&& a.base == b.base
    &&& a.maximum == b.maximum
}

/// What filling with `val` needs of the collaborator (nothing unless `val`
/// is a GC reference).
pub open spec fn gc_ready_for(
    store: Option<GcStore>,
    elements: Seq<TableElement>,
    dst: int,
    len: int,
    val: TableElement,
) -> bool {
    match val {
        TableElement::GcRef(x) => gc_fill_ready(store, elements, dst, len, x),
        _ => true,
    }
}

/// What reading index `index` needs of the collaborator: room to retain a
/// GC reference found there, or, without a store, that it is unboxed.
pub open spec fn gc_get_ready(store: Option<GcStore>, elements: Seq<TableElement>, index: int) -> bool {
    0 <= index < elements.len() ==> match elements[index] {
        TableElement::GcRef(Some(x)) => match store {
            Some(s) => x.spec_is_i31() || s.rc(x) < u64::MAX,
            None => x.spec_is_i31(),
        },
        _ => true,
    }
}

/// How many references to `h` a read handed out.
pub open spec fn returned_count(r: Option<TableElement>, h: GcRef) -> int {
    match r {
        Some(e) => elem_counted(e, h),
        None => 0,
    }
}

/// How many references to heap object `h` an element holds.
pub open spec fn elem_counted(e: TableElement, h: GcRef) -> int {
    match e {
        TableElement::GcRef(r) => counted(r, h),
        _ => 0,
    }
}

/// How many references to heap object `h` the elements `s` hold.
pub open spec fn ref_occurrences(s: Seq<TableElement>, h: GcRef) -> int
    decreases s.len(),
{
    if s.len() == 0 {
        0
    } else {
        ref_occurrences(s.drop_last(), h) + elem_counted(s.last(), h)
    }
}

/// The retains `store` holds on `h` beyond those that the table's own
/// references account for.
pub open spec fn surplus(store: Option<GcStore>, elements: Seq<TableElement>, h: GcRef) -> int {
    match store {
        Some(s) => s.rc(h) - ref_occurrences(elements, h),
        None => 0,
    }
}

pub proof fn lemma_occurrences_nonneg(s: Seq<TableElement>, h: GcRef)
    ensures
        ref_occurrences(s, h) >= 0,
    decreases s.len(),
{
    if s.len() > 0 {
        lemma_occurrences_nonneg(s.drop_last(), h);
    }
}

pub proof fn lemma_occurrences_update(s: Seq<TableElement>, i: int, e: TableElement, h: GcRef)
    requires
        0 <= i < s.len(),
    ensures
        ref_occurrences(s.update(i, e), h) == ref_occurrences(s, h) - elem_counted(s[i], h)
            + elem_counted(e, h),
    decreases s.len(),
{
    let t = s.update(i, e);
    if i == s.len() - 1 {
        assert(t.drop_last() =~= s.drop_last());
    } else {
        assert(t.drop_last() =~= s.drop_last().update(i, e));
        lemma_occurrences_update(s.drop_last(), i, e, h);
    }
}

pub proof fn lemma_occurrences_append(s: Seq<TableElement>, t: Seq<TableElement>, h: GcRef)
    ensures
        ref_occurrences(s + t, h) == ref_occurrences(s, h) + ref_occurrences(t, h),
    decreases t.len(),
{
    if t.len() > 0 {
        assert((s + t).drop_last() =~= s + t.drop_last());
        lemma_occurrences_append(s, t.drop_last(), h);
    } else {
        assert(s + t =~= s);
    }
}

/// Elements that each hold no reference to `h` hold none together.
pub proof fn lemma_occurrences_zero(s: Seq<TableElement>, h: GcRef)
    requires
        forall|i: int| 0 <= i < s.len() ==> elem_counted(#[trigger] s[i], h) == 0,
    ensures
        ref_occurrences(s, h) == 0,
    decreases s.len(),
{
    if s.len() > 0 {
        assert(elem_counted(s[s.len() - 1], h) == 0);
        lemma_occurrences_zero(s.drop_last(), h);
    }
}

/// Elements that are not GC references hold no references.
pub proof fn lemma_occurrences_none(s: Seq<TableElement>, h: GcRef)
    requires
        forall|i: int| 0 <= i < s.len() ==> !(#[trigger] s[i] is GcRef),
    ensures
        ref_occurrences(s, h) == 0,
    decreases s.len(),
{
    if s.len() > 0 {
        assert(!(s[s.len() - 1] is GcRef));
        lemma_occurrences_none(s.drop_last(), h);
    }
}

pub proof fn lemma_occurrences_held(s: Seq<TableElement>, i: int, h: GcRef)
    requires
        0 <= i < s.len(),
    ensures
        ref_occurrences(s, h) >= elem_counted(s[i], h),
{
    lemma_occurrences_update(s, i, TableElement::GcRef(None), h);
    lemma_occurrences_nonneg(s.update(i, TableElement::GcRef(None)), h);
}

/// Slots of a table of GC references, as elements.
pub open spec fn gc_elements(s: Seq<GcTableElem>, n: nat) -> Seq<TableElement> {
    Seq::new(n, |i: int| TableElement::GcRef(gc_from_word(s[i])))
}

/// The reference needs no retain or release.
pub open spec fn unboxed(r: Option<GcRef>) -> bool {
    r matches Some(x) ==> x.spec_is_i31()
}

/// What filling `len` slots from `dst` with `r` needs of the collaborator:
/// with a store, its retains cover the table's references and the caller's
/// own on `r`, and `len` more retains of `r` fit in its count; without one,
/// `r` and every overwritten reference are unboxed integers.
pub open spec fn gc_fill_ready(
    store: Option<GcStore>,
    elements: Seq<TableElement>,
    dst: int,
    len: int,
    r: Option<GcRef>,
) -> bool {
    match store {
        Some(s) => (forall|h: GcRef| #[trigger] s.rc(h) >= ref_occurrences(elements, h) + counted(r, h))
            && (r matches Some(x) ==> x.spec_is_i31() || s.rc(x) + len <= u64::MAX),
        None => unboxed(r) && forall|i: int|
            dst <= i < dst + len && i < elements.len() ==> (#[trigger] elements[i] matches TableElement::GcRef(y) && unboxed(y)),
    }
}

/// What copying `len` references into a table needs of the collaborator:
/// a store whose retains cover the table's references and have room for
/// `len` more retains of any object.
pub open spec fn gc_copy_ready(store: Option<GcStore>, elements: Seq<TableElement>, len: int) -> bool {
    &&& store is Some
    &&& forall|h: GcRef| #[trigger] store->Some_0.rc(h) >= ref_occurrences(elements, h)
    &&& forall|h: GcRef| #![trigger store->Some_0.rc(h)] store->Some_0.rc(h) + len <= u64::MAX
}

proof fn lemma_gc_elements_update(s: Seq<GcTableElem>, n: nat, i: int, x: GcTableElem)
    requires
        0 <= i < n <= s.len(),
    ensures
        gc_elements(s.update(i, x), n) == gc_elements(s, n).update(
            i,
            TableElement::GcRef(gc_from_word(x)),
        ),
{
    assert(gc_elements(s.update(i, x), n) =~= gc_elements(s, n).update(
        i,
        TableElement::GcRef(gc_from_word(x)),
    ));
}

/// Writes `r` into slots `start..end` of the first `size`, through the
/// store's write barrier when there is one.
fn fill_gc_slots(
    slots: &mut Vec<GcTableElem>,
    gc_store: &mut Option<GcStore>,
    size: usize,
    start: usize,
    end: usize,
    r: Option<GcRef>,
)
    requires
        start <= end <= size <= old(slots)@.len(),
        r matches Some(x) ==> x.raw != 0,
        gc_fill_ready(
            *old(gc_store),
            gc_elements(old(slots)@, size as nat),
            start as int,
            end - start,
            r,
        ),
    ensures
        final(slots)@ == overwrite(old(slots)@, start as int, repeat(gc_to_word(r), (end - start) as nat)),
        *final(gc_store) is Some == *old(gc_store) is Some,
        forall|h: GcRef|
            #![trigger surplus(*final(gc_store), gc_elements(final(slots)@, size as nat), h)]
            surplus(*final(gc_store), gc_elements(final(slots)@, size as nat), h) == surplus(
                *old(gc_store),
                gc_elements(old(slots)@, size as nat),
                h,
            ),
{
    let ghost s0 = slots@;
    let ghost g0 = *gc_store;
    proof {
        if g0 is None {
            assert forall|j: int| start <= j < end implies unboxed(gc_from_word(#[trigger] s0[j])) by {
                assert(gc_elements(s0, size as nat)[j] == TableElement::GcRef(gc_from_word(s0[j])));
            }
        } else {
            assert forall|h: GcRef| #[trigger]
                surplus(g0, gc_elements(s0, size as nat), h) >= counted(r, h) by {
                assert(g0->Some_0.rc(h) >= ref_occurrences(gc_elements(s0, size as nat), h)
                    + counted(r, h));
            }
        }
    }
    let mut i: usize = start;
    while i < end
        invariant
            start <= i <= end <= size <= s0.len(),
            slots@.len() == s0.len(),
            slots@ =~= overwrite(s0, start as int, repeat(gc_to_word(r), (i - start) as nat)),
            r matches Some(x) ==> x.raw != 0,
            *gc_store is Some == g0 is Some,
            forall|h: GcRef|
                #![trigger surplus(*gc_store, gc_elements(slots@, size as nat), h)]
                surplus(*gc_store, gc_elements(slots@, size as nat), h) == surplus(
                    g0,
                    gc_elements(s0, size as nat),
                    h,
                ),
            g0 matches Some(s) ==> forall|h: GcRef| #[trigger]
                surplus(g0, gc_elements(s0, size as nat), h) >= counted(r, h),
            *gc_store matches Some(s) ==> (r matches Some(x) ==> x.spec_is_i31() || s.rc(x) + (end - i)
                <= u64::MAX),
            g0 is None ==> unboxed(r) && forall|j: int|
                i <= j < end ==> unboxed(gc_from_word(#[trigger] slots@[j])),
        decreases end - i,
    {
        let ghost cur = slots@;
        let old_slot = GcRef::from_word(slots[i]);
        match gc_store {
            Some(s) => {
                let mut slot = old_slot;
                let ghost before = *s;
                proof {
                    if let Some(d) = old_slot {
                        lemma_occurrences_held(gc_elements(cur, size as nat), i as int, d);
                        assert(surplus(Some(*s), gc_elements(cur, size as nat), d) >= 0);
                    }
                }
                s.write_gc_ref(&mut slot, r.as_ref());
                slots.set(i, GcRef::to_word(slot));
                proof {
                    assert forall|h: GcRef|
                        surplus(Some(*s), gc_elements(slots@, size as nat), h) == surplus(
                            g0,
                            gc_elements(s0, size as nat),
                            h,
                        ) by {
                        assert(surplus(Some(before), gc_elements(cur, size as nat), h) == surplus(
                            g0,
                            gc_elements(s0, size as nat),
                            h,
                        ));
                        assert(gc_from_word(gc_to_word(r)) == r);
                        lemma_gc_elements_update(cur, size as nat, i as int, gc_to_word(r));
                        lemma_occurrences_update(
                            gc_elements(cur, size as nat),
                            i as int,
                            TableElement::GcRef(r),
                            h,
                        );
                    }
                }
            },
            None => {
                let copied = match r {
                    Some(x) => Some(x.copy_i31()),
                    None => None,
                };
                slots.set(i, GcRef::to_word(copied));
            },
        }
        i = i + 1;
    }
}


/// Copies `len` references of `src` from `src_start` into the first
/// `size` slots of `dst` from `dst_start`, through the write barrier.
fn copy_gc_slots(
    dst: &mut Vec<GcTableElem>,
    src: &Vec<GcTableElem>,
    store: &mut GcStore,
    size: usize,
    dst_start: usize,
    src_start: usize,
    len: usize,
)
    requires
        dst_start + len <= size <= old(dst)@.len(),
        src_start + len <= src@.len(),
        forall|h: GcRef| #[trigger]
            old(store).rc(h) >= ref_occurrences(gc_elements(old(dst)@, size as nat), h),
        forall|h: GcRef| #![trigger old(store).rc(h)] old(store).rc(h) + len <= u64::MAX,
    ensures
        final(dst)@ == overwrite(
            old(dst)@,
            dst_start as int,
            src@.subrange(src_start as int, src_start + len),
        ),
        forall|h: GcRef|
            #![trigger surplus(Some(*final(store)), gc_elements(final(dst)@, size as nat), h)]
            surplus(Some(*final(store)), gc_elements(final(dst)@, size as nat), h) == surplus(
                Some(*old(store)),
                gc_elements(old(dst)@, size as nat),
                h,
            ),
{
    let ghost d0 = dst@;
    let ghost g0 = *store;
    proof {
        assert(dst@.len() == dst.len());
        assert(src@.len() == src.len());
    }
    let mut k: usize = 0;
    while k < len
        invariant
            k <= len,
            dst_start + len <= size <= d0.len(),
            src_start + len <= src@.len(),
            dst@.len() == d0.len(),
            d0.len() <= usize::MAX,
            src@.len() <= usize::MAX,
            dst@ =~= overwrite(d0, dst_start as int, src@.subrange(src_start as int, src_start + k)),
            forall|h: GcRef|
                #![trigger surplus(Some(*store), gc_elements(dst@, size as nat), h)]
                surplus(Some(*store), gc_elements(dst@, size as nat), h) == surplus(
                    Some(g0),
                    gc_elements(d0, size as nat),
                    h,
                ),
            forall|h: GcRef| #[trigger] surplus(Some(g0), gc_elements(d0, size as nat), h) >= 0,
            forall|h: GcRef| #![trigger store.rc(h)] store.rc(h) <= g0.rc(h) + k,
            forall|h: GcRef| #![trigger g0.rc(h)] g0.rc(h) + len <= u64::MAX,
        decreases len - k,
    {
        let ghost cur = dst@;
        let ghost before = *store;
        let w = src[src_start + k];
        let x = GcRef::from_word(w);
        let mut slot = GcRef::from_word(dst[dst_start + k]);
        proof {
            if let Some(d) = slot {
                lemma_occurrences_held(gc_elements(cur, size as nat), dst_start + k, d);
                assert(surplus(Some(before), gc_elements(cur, size as nat), d) >= 0);
            }
            if let Some(y) = x {
                assert(g0.rc(y) + len <= u64::MAX);
            }
        }
        store.write_gc_ref(&mut slot, x.as_ref());
        dst.set(dst_start + k, GcRef::to_word(slot));
        proof {
            assert forall|h: GcRef|
                surplus(Some(*store), gc_elements(dst@, size as nat), h) == surplus(
                    Some(g0),
                    gc_elements(d0, size as nat),
                    h,
                ) by {
                assert(surplus(Some(before), gc_elements(cur, size as nat), h) == surplus(
                    Some(g0),
                    gc_elements(d0, size as nat),
                    h,
                ));
                lemma_gc_elements_update(cur, size as nat, dst_start + k, w);
                lemma_occurrences_update(
                    gc_elements(cur, size as nat),
                    dst_start + k,
                    TableElement::GcRef(x),
                    h,
                );
            }
            assert forall|h: GcRef| #![trigger store.rc(h)] store.rc(h) <= g0.rc(h) + k + 1 by {
                assert(before.rc(h) <= g0.rc(h) + k);
            }
        }
        k = k + 1;
    }
}

/// Copies `len` references within the first `size` slots, through the
/// write barrier, with the result of copying through a temporary buffer.
fn copy_gc_slots_within(
    slots: &mut Vec<GcTableElem>,
    store: &mut GcStore,
    size: usize,
    dst: usize,
    src: usize,
    len: usize,
)
    requires
        dst + len <= size <= old(slots)@.len(),
        src + len <= size,
        forall|h: GcRef| #[trigger]
            old(store).rc(h) >= ref_occurrences(gc_elements(old(slots)@, size as nat), h),
        forall|h: GcRef| #![trigger old(store).rc(h)] old(store).rc(h) + len <= u64::MAX,
    ensures
        final(slots)@ == overwrite(
            old(slots)@,
            dst as int,
            old(slots)@.subrange(src as int, src + len),
        ),
        forall|h: GcRef|
            #![trigger surplus(Some(*final(store)), gc_elements(final(slots)@, size as nat), h)]
            surplus(Some(*final(store)), gc_elements(final(slots)@, size as nat), h) == surplus(
                Some(*old(store)),
                gc_elements(old(slots)@, size as nat),
                h,
            ),
{
    let ghost s0 = slots@;
    let ghost g0 = *store;
    proof {
        assert(slots@.len() == slots.len());
    }
    let mut k: usize = 0;
    while k < len
        invariant
            k <= len,
            dst + len <= size <= s0.len(),
            src + len <= size,
            slots@.len() == s0.len(),
            s0.len() <= usize::MAX,
            slots@ =~= Seq::new(
                s0.len(),
                |i: int|
                    if dst <= src && dst <= i < dst + k {
                        s0[i - dst + src]
                    } else if src < dst && dst + len - k <= i < dst + len {
                        s0[i - dst + src]
                    } else {
                        s0[i]
                    },
            ),
            forall|h: GcRef|
                #![trigger surplus(Some(*store), gc_elements(slots@, size as nat), h)]
                surplus(Some(*store), gc_elements(slots@, size as nat), h) == surplus(
                    Some(g0),
                    gc_elements(s0, size as nat),
                    h,
                ),
            forall|h: GcRef| #[trigger] surplus(Some(g0), gc_elements(s0, size as nat), h) >= 0,
            forall|h: GcRef| #![trigger store.rc(h)] store.rc(h) <= g0.rc(h) + k,
            forall|h: GcRef| #![trigger g0.rc(h)] g0.rc(h) + len <= u64::MAX,
        decreases len - k,
    {
        let ghost cur = slots@;
        let ghost before = *store;
        let (d, s) = if dst <= src {
            (dst + k, src + k)
        } else {
            (dst + len - k - 1, src + len - k - 1)
        };
        let w = slots[s];
        let x = GcRef::from_word(w);
        let mut slot = GcRef::from_word(slots[d]);
        proof {
            assert(w == s0[s as int]);
            if let Some(o) = slot {
                lemma_occurrences_held(gc_elements(cur, size as nat), d as int, o);
                assert(surplus(Some(before), gc_elements(cur, size as nat), o) >= 0);
            }
            if let Some(y) = x {
                assert(g0.rc(y) + len <= u64::MAX);
            }
        }
        store.write_gc_ref(&mut slot, x.as_ref());
        slots.set(d, GcRef::to_word(slot));
        proof {
            assert forall|h: GcRef|
                surplus(Some(*store), gc_elements(slots@, size as nat), h) == surplus(
                    Some(g0),
                    gc_elements(s0, size as nat),
                    h,
                ) by {
                assert(surplus(Some(before), gc_elements(cur, size as nat), h) == surplus(
                    Some(g0),
                    gc_elements(s0, size as nat),
                    h,
                ));
                lemma_gc_elements_update(cur, size as nat, d as int, w);
                lemma_occurrences_update(
                    gc_elements(cur, size as nat),
                    d as int,
                    TableElement::GcRef(x),
                    h,
                );
            }
            assert forall|h: GcRef| #![trigger store.rc(h)] store.rc(h) <= g0.rc(h) + k + 1 by {
                assert(before.rc(h) <= g0.rc(h) + k);
            }
        }
        k = k + 1;
    }
    assert(slots@ =~= overwrite(s0, dst as int, s0.subrange(src as int, src + len)));
}

/// The storage of a static function table made for a pool's pre-reserved
/// region: the region's address, recorded for compiled code, and a slot
/// buffer of the table's own, sized once and never resized.
pub struct StaticFuncTable {
    /// The base address of the pool's region.
    base: usize,
    /// Every slot the table may ever use; it uses the first `size`.
    data: Vec<FuncTableElem>,
    /// The current size of the table.
    size: usize,
    /// Whether elements of this table are initialized lazily.
    lazy_init: bool,
}

/// The storage of a static table of GC references.
pub struct StaticGcRefTable {
    base: usize,
    data: Vec<GcTableElem>,
    size: usize,
}

/// The storage of a static table of continuation references.
pub struct StaticContTable {
    base: usize,
    data: Vec<ContObj>,
    size: usize,
}

/// A table made for a fixed region from a pool: its base address and slot
/// count never change.
pub enum StaticTable {
    Func(StaticFuncTable),
    GcRef(StaticGcRefTable),
    Cont(StaticContTable),
}

/// The storage of a dynamic function table: a buffer whose length is the
/// table's size.
pub struct DynamicFuncTable {
    elements: Vec<FuncTableElem>,
    /// Maximum size that `elements` can grow to.
    maximum: Option<usize>,
    /// Whether elements of this table are initialized lazily.
    lazy_init: bool,
}

/// The storage of a dynamic table of GC references.
pub struct DynamicGcRefTable {
    elements: Vec<GcTableElem>,
    maximum: Option<usize>,
}

/// The storage of a dynamic table of continuation references.
pub struct DynamicContTable {
    elements: Vec<ContObj>,
    maximum: Option<usize>,
}

/// A table whose storage is a growable buffer of its own.
pub enum DynamicTable {
    Func(DynamicFuncTable),
    GcRef(DynamicGcRefTable),
    Cont(DynamicContTable),
}

/// An instance's table.
pub enum Table {
    /// A table for a region of a pool, whose slot count never changes.
    Static(StaticTable),
    /// Storage the table allocates and grows itself.
    Dynamic(DynamicTable),
}

impl From<StaticFuncTable> for StaticTable {
    fn from(value: StaticFuncTable) -> (r: StaticTable)
        ensures
            r == StaticTable::Func(value),
    {
        StaticTable::Func(value)
    }
}

impl vstd::std_specs::convert::FromSpecImpl<StaticFuncTable> for StaticTable {
    open spec fn obeys_from_spec() -> bool {
        true
    }

    open spec fn from_spec(value: StaticFuncTable) -> StaticTable {
        StaticTable::Func(value)
    }
}

impl From<StaticGcRefTable> for StaticTable {
    fn from(value: StaticGcRefTable) -> (r: StaticTable)
        ensures
            r == StaticTable::GcRef(value),
    {
        StaticTable::GcRef(value)
    }
}

impl vstd::std_specs::convert::FromSpecImpl<StaticGcRefTable> for StaticTable {
    open spec fn obeys_from_spec() -> bool {
        true
    }

    open spec fn from_spec(value: StaticGcRefTable) -> StaticTable {
        StaticTable::GcRef(value)
    }
}

impl From<StaticContTable> for StaticTable {
    fn from(value: StaticContTable) -> (r: StaticTable)
        ensures
            r == StaticTable::Cont(value),
    {
        StaticTable::Cont(value)
    }
}

impl vstd::std_specs::convert::FromSpecImpl<StaticContTable> for StaticTable {
    open spec fn obeys_from_spec() -> bool {
        true
    }

    open spec fn from_spec(value: StaticContTable) -> StaticTable {
        StaticTable::Cont(value)
    }
}

impl From<DynamicFuncTable> for DynamicTable {
    fn from(value: DynamicFuncTable) -> (r: DynamicTable)
        ensures
            r == DynamicTable::Func(value),
    {
        DynamicTable::Func(value)
    }
}

impl vstd::std_specs::convert::FromSpecImpl<DynamicFuncTable> for DynamicTable {
    open spec fn obeys_from_spec() -> bool {
        true
    }

    open spec fn from_spec(value: DynamicFuncTable) -> DynamicTable {
        DynamicTable::Func(value)
    }
}

impl From<DynamicGcRefTable> for DynamicTable {
    fn from(value: DynamicGcRefTable) -> (r: DynamicTable)
        ensures
            r == DynamicTable::GcRef(value),
    {
        DynamicTable::GcRef(value)
    }
}

impl vstd::std_specs::convert::FromSpecImpl<DynamicGcRefTable> for DynamicTable {
    open spec fn obeys_from_spec() -> bool {
        true
    }

    open spec fn from_spec(value: DynamicGcRefTable) -> DynamicTable {
        DynamicTable::GcRef(value)
    }
}

impl From<DynamicContTable> for DynamicTable {
    fn from(value: DynamicContTable) -> (r: DynamicTable)
        ensures
            r == DynamicTable::Cont(value),
    {
        DynamicTable::Cont(value)
    }
}

impl vstd::std_specs::convert::FromSpecImpl<DynamicContTable> for DynamicTable {
    open spec fn obeys_from_spec() -> bool {
        true
    }

    open spec fn from_spec(value: DynamicContTable) -> DynamicTable {
        DynamicTable::Cont(value)
    }
}

impl From<StaticTable> for Table {
    fn from(value: StaticTable) -> (r: Table)
        ensures
            r == Table::Static(value),
    {
        Table::Static(value)
    }
}

impl vstd::std_specs::convert::FromSpecImpl<StaticTable> for Table {
    open spec fn obeys_from_spec() -> bool {
        true
    }

    open spec fn from_spec(value: StaticTable) -> Table {
        Table::Static(value)
    }
}

impl From<StaticFuncTable> for Table {
    fn from(value: StaticFuncTable) -> (r: Table)
        ensures
            r == Table::Static(StaticTable::Func(value)),
    {
        let t: StaticTable = value.into();
        t.into()
    }
}

impl vstd::std_specs::convert::FromSpecImpl<StaticFuncTable> for Table {
    open spec fn obeys_from_spec() -> bool {
        true
    }

    open spec fn from_spec(value: StaticFuncTable) -> Table {
        Table::Static(StaticTable::Func(value))
    }
}

impl From<StaticGcRefTable> for Table {
    fn from(value: StaticGcRefTable) -> (r: Table)
        ensures
            r == Table::Static(StaticTable::GcRef(value)),
    {
        let t: StaticTable = value.into();
        t.into()
    }
}

impl vstd::std_specs::convert::FromSpecImpl<StaticGcRefTable> for Table {
    open spec fn obeys_from_spec() -> bool {
        true
    }

    open spec fn from_spec(value: StaticGcRefTable) -> Table {
        Table::Static(StaticTable::GcRef(value))
    }
}

impl From<StaticContTable> for Table {
    fn from(value: StaticContTable) -> (r: Table)
        ensures
            r == Table::Static(StaticTable::Cont(value)),
    {
        let t: StaticTable = value.into();
        t.into()
    }
}

impl vstd::std_specs::convert::FromSpecImpl<StaticContTable> for Table {
    open spec fn obeys_from_spec() -> bool {
        true
    }

    open spec fn from_spec(value: StaticContTable) -> Table {
        Table::Static(StaticTable::Cont(value))
    }
}

impl From<DynamicTable> for Table {
    fn from(value: DynamicTable) -> (r: Table)
        ensures
            r == Table::Dynamic(value),
    {
        Table::Dynamic(value)
    }
}

impl vstd::std_specs::convert::FromSpecImpl<DynamicTable> for Table {
    open spec fn obeys_from_spec() -> bool {
        true
    }

    open spec fn from_spec(value: DynamicTable) -> Table {
        Table::Dynamic(value)
    }
}

impl From<DynamicFuncTable> for Table {
    fn from(value: DynamicFuncTable) -> (r: Table)
        ensures
            r == Table::Dynamic(DynamicTable::Func(value)),
    {
        let t: DynamicTable = value.into();
        t.into()
    }
}

impl vstd::std_specs::convert::FromSpecImpl<DynamicFuncTable> for Table {
    open spec fn obeys_from_spec() -> bool {
        true
    }

    open spec fn from_spec(value: DynamicFuncTable) -> Table {
        Table::Dynamic(DynamicTable::Func(value))
    }
}

impl From<DynamicGcRefTable> for Table {
    fn from(value: DynamicGcRefTable) -> (r: Table)
        ensures
            r == Table::Dynamic(DynamicTable::GcRef(value)),
    {
        let t: DynamicTable = value.into();
        t.into()
    }
}

impl vstd::std_specs::convert::FromSpecImpl<DynamicGcRefTable> for Table {
    open spec fn obeys_from_spec() -> bool {
        true
    }

    open spec fn from_spec(value: DynamicGcRefTable) -> Table {
        Table::Dynamic(DynamicTable::GcRef(value))
    }
}

impl From<DynamicContTable> for Table {
    fn from(value: DynamicContTable) -> (r: Table)
        ensures
            r == Table::Dynamic(DynamicTable::Cont(value)),
    {
        let t: DynamicTable = value.into();
        t.into()
    }
}

impl vstd::std_specs::convert::FromSpecImpl<DynamicContTable> for Table {
    open spec fn obeys_from_spec() -> bool {
        true
    }

    open spec fn from_spec(value: DynamicContTable) -> Table {
        Table::Dynamic(DynamicTable::Cont(value))
    }
}

/// The record compiled code reads a table through: its base address and
/// current element count, slots lying `TableElementType::element_size`
/// bytes apart from the base.
///
/// For a dynamic table the base is the address of its slot buffer, whose
/// slots are exactly the at-rest words (`FuncTableElem`, `GcTableElem`,
/// `ContObj`). For a static table it is the address of the pool region the
/// table was made for; the table keeps its slots in a buffer of its own and
/// never reads or writes that region, so code that reads slots through this
/// base sees the region, not the table's contents.
#[derive(Clone, Copy, PartialEq, Eq, Structural, Debug)]
pub struct VMTableDefinition {
    pub base: usize,
    pub current_elements: usize,
}

/// Relies on `Vec::as_ptr`: the address of the buffer's first slot. It
/// depends on the allocator, so nothing is stated of it.
#[verifier::external_body]
fn buffer_addr<T>(v: &Vec<T>) -> usize {
    v.as_ptr() as usize
}

impl Table {
    spec fn kind_of(&self) -> TableElementType {
        match self {
            Table::Static(StaticTable::Func(_)) | Table::Dynamic(DynamicTable::Func(_)) => {
                TableElementType::Func
            },
            Table::Static(StaticTable::GcRef(_)) | Table::Dynamic(DynamicTable::GcRef(_)) => {
                TableElementType::GcRef
            },
            _ => TableElementType::Cont,
        }
    }

    spec fn len_of(&self) -> nat {
        match self {
            Table::Static(StaticTable::Func(t)) => t.size as nat,
            Table::Static(StaticTable::GcRef(t)) => t.size as nat,
            Table::Static(StaticTable::Cont(t)) => t.size as nat,
            Table::Dynamic(DynamicTable::Func(t)) => t.elements@.len(),
            Table::Dynamic(DynamicTable::GcRef(t)) => t.elements@.len(),
            Table::Dynamic(DynamicTable::Cont(t)) => t.elements@.len(),
        }
    }

    spec fn lazy_of(&self) -> bool {
        match self {
            Table::Static(StaticTable::Func(t)) => t.lazy_init,
            Table::Dynamic(DynamicTable::Func(t)) => t.lazy_init,
            _ => false,
        }
    }

    spec fn max_of(&self) -> Option<usize> {
        match self {
            Table::Static(StaticTable::Func(t)) => Some(t.data.len() as usize),
            Table::Static(StaticTable::GcRef(t)) => Some(t.data.len() as usize),
            Table::Static(StaticTable::Cont(t)) => Some(t.data.len() as usize),
            Table::Dynamic(DynamicTable::Func(t)) => t.maximum,
            Table::Dynamic(DynamicTable::GcRef(t)) => t.maximum,
            Table::Dynamic(DynamicTable::Cont(t)) => t.maximum,
        }
    }

    spec fn base_of(&self) -> Option<usize> {
        match self {
            Table::Static(StaticTable::Func(t)) => Some(t.base),
            Table::Static(StaticTable::GcRef(t)) => Some(t.base),
            Table::Static(StaticTable::Cont(t)) => Some(t.base),
            _ => None,
        }
    }

    /// Every function slot of the storage, used or not.
    spec fn func_words(&self) -> Seq<FuncTableElem> {
        match self {
            Table::Static(StaticTable::Func(t)) => t.data@,
            Table::Dynamic(DynamicTable::Func(t)) => t.elements@,
            _ => Seq::empty(),
        }
    }

    spec fn gc_words(&self) -> Seq<GcTableElem> {
        match self {
            Table::Static(StaticTable::GcRef(t)) => t.data@,
            Table::Dynamic(DynamicTable::GcRef(t)) => t.elements@,
            _ => Seq::empty(),
        }
    }

    spec fn cont_words(&self) -> Seq<ContObj> {
        match self {
            Table::Static(StaticTable::Cont(t)) => t.data@,
            Table::Dynamic(DynamicTable::Cont(t)) => t.elements@,
            _ => Seq::empty(),
        }
    }

    spec fn with_func_words(self, v: Vec<FuncTableElem>) -> Table {
        match self {
            Table::Static(StaticTable::Func(t)) => Table::Static(
                StaticTable::Func(
                    StaticFuncTable { base: t.base, data: v, size: t.size, lazy_init: t.lazy_init },
                ),
            ),
            Table::Dynamic(DynamicTable::Func(t)) => Table::Dynamic(
                DynamicTable::Func(
                    DynamicFuncTable { elements: v, maximum: t.maximum, lazy_init: t.lazy_init },
                ),
            ),
            _ => self,
        }
    }

    spec fn with_gc_words(self, v: Vec<GcTableElem>) -> Table {
        match self {
            Table::Static(StaticTable::GcRef(t)) => Table::Static(
                StaticTable::GcRef(StaticGcRefTable { base: t.base, data: v, size: t.size }),
            ),
            Table::Dynamic(DynamicTable::GcRef(t)) => Table::Dynamic(
                DynamicTable::GcRef(DynamicGcRefTable { elements: v, maximum: t.maximum }),
            ),
            _ => self,
        }
    }

    spec fn with_cont_words(self, v: Vec<ContObj>) -> Table {
        match self {
            Table::Static(StaticTable::Cont(t)) => Table::Static(
                StaticTable::Cont(StaticContTable { base: t.base, data: v, size: t.size }),
            ),
            Table::Dynamic(DynamicTable::Cont(t)) => Table::Dynamic(
                DynamicTable::Cont(DynamicContTable { elements: v, maximum: t.maximum }),
            ),
            _ => self,
        }
    }

    /// The internal invariant: a static table's unused slots are zero and
    /// its size is within its slots; a dynamic table is within its maximum.
    pub closed spec fn wf(&self) -> bool {
        match self {
            Table::Static(StaticTable::Func(t)) => t.size <= t.data.len() && forall|i: int|
                t.size <= i < t.data.len() ==> #[trigger] t.data@[i] == 0usize,
            Table::Static(StaticTable::GcRef(t)) => t.size <= t.data.len() && forall|i: int|
                t.size <= i < t.data.len() ==> #[trigger] t.data@[i] == 0u32,
            Table::Static(StaticTable::Cont(t)) => t.size <= t.data.len() && forall|i: int|
                t.size <= i < t.data.len() ==> #[trigger] t.data@[i].contref == 0,
            Table::Dynamic(DynamicTable::Func(t)) => t.maximum matches Some(m) ==> t.elements.len()
                <= m,
            Table::Dynamic(DynamicTable::GcRef(t)) => t.maximum matches Some(m)
                ==> t.elements.len() <= m,
            Table::Dynamic(DynamicTable::Cont(t)) => t.maximum matches Some(m)
                ==> t.elements.len() <= m,
        }
    }

    spec fn element_at(&self, i: int) -> TableElement {
        match self.kind_of() {
            TableElementType::Func => decode_func(self.func_words()[i], self.lazy_of()),
            TableElementType::GcRef => TableElement::GcRef(gc_from_word(self.gc_words()[i])),
            TableElementType::Cont => TableElement::ContRef(cont_from_slot(self.cont_words()[i])),
        }
    }
}

impl View for Table {
    type V = TableView;

    closed spec fn view(&self) -> TableView {
        TableView {
            kind: self.kind_of(),
            lazy_init: self.lazy_of(),
            base: self.base_of(),
            maximum: self.max_of(),
            elements: Seq::new(self.len_of(), |i: int| self.element_at(i)),
        }
    }
}

impl Table {
    /// The table's storage and metadata agree with what its view says of
    /// the size.
    proof fn lemma_storage_len(&self)
        requires
            self.wf(),
        ensures
            self.kind_of() == TableElementType::Func ==> self.len_of() <= self.func_words().len(),
            self.kind_of() == TableElementType::GcRef ==> self.len_of() <= self.gc_words().len(),
            self.kind_of() == TableElementType::Cont ==> self.len_of() <= self.cont_words().len(),
            self.max_of() matches Some(m) ==> self.len_of() <= m,
    {
    }

    /// Returns the type of the elements in this table.
    pub fn element_type(&self) -> (r: TableElementType)
        ensures
            r == self@.kind,
    {
        match self {
            Table::Static(StaticTable::Func(_)) | Table::Dynamic(DynamicTable::Func(_)) => {
                TableElementType::Func
            },
            Table::Static(StaticTable::GcRef(_)) | Table::Dynamic(DynamicTable::GcRef(_)) => {
                TableElementType::GcRef
            },
            Table::Static(StaticTable::Cont(_)) | Table::Dynamic(DynamicTable::Cont(_)) => {
                TableElementType::Cont
            },
        }
    }

    /// Returns whether the table was made for a pool region.
    pub fn is_static(&self) -> (r: bool)
        ensures
            r == (self@.base is Some),
    {
        match self {
            Table::Static(_) => true,
            Table::Dynamic(_) => false,
        }
    }

    /// Returns the number of elements.
    pub fn size(&self) -> (r: usize)
        ensures
            r == self@.elements.len(),
    {
        match self {
            Table::Static(StaticTable::Func(t)) => t.size,
            Table::Static(StaticTable::GcRef(t)) => t.size,
            Table::Static(StaticTable::Cont(t)) => t.size,
            Table::Dynamic(DynamicTable::Func(t)) => t.elements.len(),
            Table::Dynamic(DynamicTable::GcRef(t)) => t.elements.len(),
            Table::Dynamic(DynamicTable::Cont(t)) => t.elements.len(),
        }
    }

    /// Returns the maximum number of elements, or `None` if the table is
    /// unbounded. A static table's maximum is its fixed slot count.
    pub fn maximum(&self) -> (r: Option<usize>)
        ensures
            r == self@.maximum,
    {
        match self {
            Table::Static(StaticTable::Func(t)) => Some(t.data.len()),
            Table::Static(StaticTable::GcRef(t)) => Some(t.data.len()),
            Table::Static(StaticTable::Cont(t)) => Some(t.data.len()),
            Table::Dynamic(DynamicTable::Func(t)) => t.maximum,
            Table::Dynamic(DynamicTable::GcRef(t)) => t.maximum,
            Table::Dynamic(DynamicTable::Cont(t)) => t.maximum,
        }
    }

    /// Whether `val` is a value of this table's kind.
    pub fn type_matches(&self, val: &TableElement) -> (r: bool)
        ensures
            r == match (*val, self@.kind) {
                (TableElement::FuncRef(_), TableElementType::Func) => true,
                (TableElement::GcRef(_), TableElementType::GcRef) => true,
                (TableElement::ContRef(_), TableElementType::Cont) => true,
                _ => false,
            },
    {
        self.element_type().matches(val)
    }

    fn funcrefs(&self) -> (r: (&Vec<FuncTableElem>, bool))
        requires
            self.kind_of() == TableElementType::Func,
        ensures
            r.0@ == self.func_words(),
            r.1 == self.lazy_of(),
    {
        match self {
            Table::Static(StaticTable::Func(t)) => (&t.data, t.lazy_init),
            Table::Dynamic(DynamicTable::Func(t)) => (&t.elements, t.lazy_init),
            _ => vstd::pervasive::unreached(),
        }
    }

    fn funcrefs_mut(&mut self) -> (r: (&mut Vec<FuncTableElem>, bool))
        requires
            old(self).kind_of() == TableElementType::Func,
        ensures
            r.0@ == old(self).func_words(),
            r.1 == old(self).lazy_of(),
            *final(self) == old(self).with_func_words(*final(r.0)),
    {
        match self {
            Table::Static(StaticTable::Func(t)) => (&mut t.data, t.lazy_init),
            Table::Dynamic(DynamicTable::Func(t)) => (&mut t.elements, t.lazy_init),
            _ => vstd::pervasive::unreached(),
        }
    }
    fn gc_refs(&self) -> (r: &Vec<GcTableElem>)
        requires
            self.kind_of() == TableElementType::GcRef,
        ensures
            r@ == self.gc_words(),
    {
        match self {
            Table::Static(StaticTable::GcRef(t)) => &t.data,
            Table::Dynamic(DynamicTable::GcRef(t)) => &t.elements,
            _ => vstd::pervasive::unreached(),
        }
    }

    /// The table's GC reference slots (all of a static table's slots).
    fn gc_refs_mut(&mut self) -> (r: &mut Vec<GcTableElem>)
        requires
            old(self).kind_of() == TableElementType::GcRef,
        ensures
            r@ == old(self).gc_words(),
            *final(self) == old(self).with_gc_words(*final(r)),
    {
        match self {
            Table::Static(StaticTable::GcRef(t)) => &mut t.data,
            Table::Dynamic(DynamicTable::GcRef(t)) => &mut t.elements,
            _ => vstd::pervasive::unreached(),
        }
    }

    fn contrefs(&self) -> (r: &Vec<ContObj>)
        requires
            self.kind_of() == TableElementType::Cont,
        ensures
            r@ == self.cont_words(),
    {
        match self {
            Table::Static(StaticTable::Cont(t)) => &t.data,
            Table::Dynamic(DynamicTable::Cont(t)) => &t.elements,
            _ => vstd::pervasive::unreached(),
        }
    }

    fn contrefs_mut(&mut self) -> (r: &mut Vec<ContObj>)
        requires
            old(self).kind_of() == TableElementType::Cont,
        ensures
            r@ == old(self).cont_words(),
            *final(self) == old(self).with_cont_words(*final(r)),
    {
        match self {
            Table::Static(StaticTable::Cont(t)) => &mut t.data,
            Table::Dynamic(DynamicTable::Cont(t)) => &mut t.elements,
            _ => vstd::pervasive::unreached(),
        }
    }
}

impl Table {
    proof fn lemma_with_func_words(self, v: Vec<FuncTableElem>)
        requires
            self.wf(),
            self.kind_of() == TableElementType::Func,
            v@.len() == self.func_words().len(),
            forall|i: int| self.len_of() <= i < v@.len() ==> v@[i] == self.func_words()[i],
        ensures
            self.with_func_words(v).wf(),
            same_shape(self.with_func_words(v)@, self@),
            self.with_func_words(v)@.elements == Seq::new(
                self.len_of(),
                |i: int| decode_func(v@[i], self.lazy_of()),
            ),
    {
        let t = self.with_func_words(v);
        assert(t@.elements =~= Seq::new(self.len_of(), |i: int| decode_func(v@[i], self.lazy_of())));
    }

    proof fn lemma_with_gc_words(self, v: Vec<GcTableElem>)
        requires
            self.wf(),
            self.kind_of() == TableElementType::GcRef,
            v@.len() == self.gc_words().len(),
            forall|i: int| self.len_of() <= i < v@.len() ==> v@[i] == self.gc_words()[i],
        ensures
            self.with_gc_words(v).wf(),
            same_shape(self.with_gc_words(v)@, self@),
            self.with_gc_words(v)@.elements == gc_elements(v@, self.len_of()),
            self@.elements == gc_elements(self.gc_words(), self.len_of()),
    {
        let t = self.with_gc_words(v);
        assert(t@.elements =~= gc_elements(v@, self.len_of()));
        assert(self@.elements =~= gc_elements(self.gc_words(), self.len_of()));
    }

    proof fn lemma_with_cont_words(self, v: Vec<ContObj>)
        requires
            self.wf(),
            self.kind_of() == TableElementType::Cont,
            v@.len() == self.cont_words().len(),
            forall|i: int| self.len_of() <= i < v@.len() ==> v@[i] == self.cont_words()[i],
        ensures
            self.with_cont_words(v).wf(),
            same_shape(self.with_cont_words(v)@, self@),
            self.with_cont_words(v)@.elements == Seq::new(
                self.len_of(),
                |i: int| TableElement::ContRef(cont_from_slot(v@[i])),
            ),
    {
        let t = self.with_cont_words(v);
        assert(t@.elements =~= Seq::new(self.len_of(), |i: int| TableElement::ContRef(cont_from_slot(v@[i]))));
    }

    /// Fill `table[dst..dst + len]` with `val`, trapping when the range
    /// leaves the table. A GC reference is written through the store's
    /// write barrier, and the caller's own reference `val` is released once.
    pub fn fill(&mut self, gc_store: &mut Option<GcStore>, dst: u64, val: TableElement, len: u64) -> (r:
        Result<(), Trap>)
        requires
            old(self).wf(),
            kind_accepts(old(self)@.kind, val),
            valid_element(val),
            gc_ready_for(*old(gc_store), old(self)@.elements, dst as int, len as int, val),
        ensures
            final(self).wf(),
            same_shape(final(self)@, old(self)@),
            r is Ok <==> dst + len <= old(self)@.elements.len(),
            r is Ok ==> final(self)@.elements == overwrite(
                old(self)@.elements,
                dst as int,
                repeat(stored(val, old(self)@.lazy_init), len as nat),
            ),
            r is Err ==> final(self)@ == old(self)@ && *final(gc_store) == *old(gc_store),
            *final(gc_store) is Some == *old(gc_store) is Some,
            !(val is GcRef) ==> *final(gc_store) == *old(gc_store),
            r is Ok ==> forall|h: GcRef|
                #![trigger surplus(*final(gc_store), final(self)@.elements, h)]
                surplus(*final(gc_store), final(self)@.elements, h) == surplus(
                    *old(gc_store),
                    old(self)@.elements,
                    h,
                ) - elem_counted(val, h),
    {
        let size = self.size();
        let start = match index_to_usize(dst) {
            Some(x) => x,
            None => return Err(Trap::TableOutOfBounds),
        };
        let len = match index_to_usize(len) {
            Some(x) => x,
            None => return Err(Trap::TableOutOfBounds),
        };
        let end = match start.checked_add(len) {
            Some(e) => e,
            None => return Err(Trap::TableOutOfBounds),
        };
        if end > size {
            return Err(Trap::TableOutOfBounds);
        }
        proof {
            self.lemma_storage_len();
        }
        let ghost t0 = *self;
        let ghost g0 = *gc_store;
        match val {
            TableElement::FuncRef(f) => {
                let (funcrefs, lazy_init) = self.funcrefs_mut();
                let word = MaybeTaggedFuncRef::from(f, lazy_init);
                fill_slots(funcrefs, start, end, word.0);
                proof {
                    lemma_func_round_trip(f, lazy_init);
                    t0.lemma_with_func_words(*funcrefs);
                    assert(self@.elements =~= overwrite(
                        t0@.elements,
                        dst as int,
                        repeat(stored(val, t0@.lazy_init), len as nat),
                    ));
                }
            },
            TableElement::GcRef(r) => {
                let slots = self.gc_refs_mut();
                proof {
                    t0.lemma_with_gc_words(*slots);
                }
                fill_gc_slots(slots, gc_store, size, start, end, r);
                proof {
                    t0.lemma_with_gc_words(*slots);
                    assert(self@.elements =~= overwrite(
                        t0@.elements,
                        dst as int,
                        repeat(stored(val, t0@.lazy_init), len as nat),
                    ));
                }
                let ghost g1 = *gc_store;
                // The table now holds its own references; release the
                // caller's.
                if let Some(x) = r {
                    match gc_store {
                        Some(s) => {
                            proof {
                                assert(surplus(g1, self@.elements, x) == surplus(
                                    g0,
                                    t0@.elements,
                                    x,
                                ));
                                assert(g0->Some_0.rc(x) >= ref_occurrences(t0@.elements, x)
                                    + counted(r, x));
                                lemma_occurrences_nonneg(self@.elements, x);
                            }
                            s.drop_gc_ref(x);
                        },
                        None => {},
                    }
                }
                proof {
                    assert forall|h: GcRef|
                        #![trigger surplus(*gc_store, self@.elements, h)]
                        surplus(*gc_store, self@.elements, h) == surplus(g0, t0@.elements, h)
                            - elem_counted(val, h) by {
                        assert(surplus(g1, self@.elements, h) == surplus(g0, t0@.elements, h));
                    }
                }
            },
            TableElement::UninitFunc => {
                let (funcrefs, _lazy_init) = self.funcrefs_mut();
                fill_slots(funcrefs, start, end, MaybeTaggedFuncRef::uninit().0);
                proof {
                    t0.lemma_with_func_words(*funcrefs);
                    assert(self@.elements =~= overwrite(
                        t0@.elements,
                        dst as int,
                        repeat(stored(val, t0@.lazy_init), len as nat),
                    ));
                }
            },
            TableElement::ContRef(c) => {
                let contrefs = self.contrefs_mut();
                fill_slots(contrefs, start, end, ContObj::to_slot(c));
                proof {
                    t0.lemma_with_cont_words(*contrefs);
                    assert(self@.elements =~= overwrite(
                        t0@.elements,
                        dst as int,
                        repeat(stored(val, t0@.lazy_init), len as nat),
                    ));
                }
            },
        }
        proof {
            if !(val is GcRef) {
                assert forall|h: GcRef|
                    #![trigger surplus(*gc_store, self@.elements, h)]
                    surplus(*gc_store, self@.elements, h) == surplus(g0, t0@.elements, h)
                        - elem_counted(val, h) by {
                    assert forall|i: int| 0 <= i < self@.elements.len() implies !(
                    #[trigger] self@.elements[i] is GcRef) by {
                        if val is ContRef {
                            assert(self@.elements[i] is ContRef);
                        } else {
                            assert(self@.elements[i] is FuncRef || self@.elements[i] is UninitFunc);
                        }
                    }
                    assert forall|i: int| 0 <= i < t0@.elements.len() implies !(
                    #[trigger] t0@.elements[i] is GcRef) by {
                        assert(t0@.elements[i] == t0.element_at(i));
                    }
                    lemma_occurrences_none(self@.elements, h);
                    lemma_occurrences_none(t0@.elements, h);
                }
            }
        }
        Ok(())
    }
}

/// Writes the tagged words of `items` into `words` from `dst`.
fn write_func_words(words: &mut Vec<FuncTableElem>, dst: usize, items: &[Option<usize>], lazy_init: bool)
    requires
        dst + items@.len() <= old(words)@.len(),
    ensures
        final(words)@ == overwrite(
            old(words)@,
            dst as int,
            Seq::new(items@.len(), |j: int| encode_func(items@[j], lazy_init)),
        ),
{
    let ghost w0 = words@;
    let n = items.len();
    proof {
        assert(words@.len() == words.len());
    }
    let mut k: usize = 0;
    while k < n
        invariant
            k <= n == items@.len(),
            dst + n <= w0.len() <= usize::MAX,
            words@.len() == w0.len(),
            words@ =~= overwrite(
                w0,
                dst as int,
                Seq::new(k as nat, |j: int| encode_func(items@[j], lazy_init)),
            ),
        decreases n - k,
    {
        let word = MaybeTaggedFuncRef::from(items[k], lazy_init);
        words.set(dst + k, word.0);
        k = k + 1;
    }
    assert(words@ =~= overwrite(
        w0,
        dst as int,
        Seq::new(n as nat, |j: int| encode_func(items@[j], lazy_init)),
    ));
}

/// Writes the words of the GC references `items` into `words` from `dst`.
fn write_gc_words(words: &mut Vec<GcTableElem>, dst: usize, items: &[Option<GcRef>])
    requires
        dst + items@.len() <= old(words)@.len(),
    ensures
        final(words)@ == overwrite(
            old(words)@,
            dst as int,
            Seq::new(items@.len(), |j: int| gc_to_word(items@[j])),
        ),
{
    let ghost w0 = words@;
    let n = items.len();
    proof {
        assert(words@.len() == words.len());
    }
    let mut k: usize = 0;
    while k < n
        invariant
            k <= n == items@.len(),
            dst + n <= w0.len() <= usize::MAX,
            words@.len() == w0.len(),
            words@ =~= overwrite(w0, dst as int, Seq::new(k as nat, |j: int| gc_to_word(items@[j]))),
        decreases n - k,
    {
        words.set(dst + k, GcRef::to_word(items[k]));
        k = k + 1;
    }
    assert(words@ =~= overwrite(w0, dst as int, Seq::new(n as nat, |j: int| gc_to_word(items@[j]))));
}

impl Table {
    /// A table of another kind than GC references holds no references.
    proof fn lemma_no_gc_refs(&self, h: GcRef)
        requires
            self.kind_of() != TableElementType::GcRef,
        ensures
            ref_occurrences(self@.elements, h) == 0,
    {
        assert forall|i: int| 0 <= i < self@.elements.len() implies !(
        #[trigger] self@.elements[i] is GcRef) by {
            assert(self@.elements[i] == self.element_at(i));
        }
        lemma_occurrences_none(self@.elements, h);
    }

    /// A table never holds more elements than its maximum.
    pub proof fn lemma_size_within_maximum(&self)
        requires
            self.wf(),
        ensures
            self@.maximum matches Some(m) ==> self@.elements.len() <= m,
    {
        self.lemma_storage_len();
    }

    /// Every element of a table is of its kind, the uninitialised marker
    /// appears only in a lazily initialised table, and only function tables
    /// initialise lazily.
    pub proof fn lemma_elements_of_kind(&self)
        ensures
            forall|i: int|
                0 <= i < self@.elements.len() ==> kind_accepts(
                    self@.kind,
                    #[trigger] self@.elements[i],
                ) && (self@.elements[i] is UninitFunc ==> self@.lazy_init),
            self@.lazy_init ==> self@.kind == TableElementType::Func,
    {
        assert forall|i: int| 0 <= i < self@.elements.len() implies kind_accepts(
            self@.kind,
            #[trigger] self@.elements[i],
        ) && (self@.elements[i] is UninitFunc ==> self@.lazy_init) by {
            assert(self@.elements[i] == self.element_at(i));
        }
    }

    /// Get the element at `index`, or `None` if it is out of bounds. A GC
    /// reference is handed out as a new reference, retained by the store.
    pub fn get(&self, gc_store: &mut Option<GcStore>, index: u64) -> (r: Option<TableElement>)
        requires
            self.wf(),
            self@.kind == TableElementType::GcRef ==> gc_get_ready(
                *old(gc_store),
                self@.elements,
                index as int,
            ),
        ensures
            r == (if index < self@.elements.len() {
                Some(self@.elements[index as int])
            } else {
                None
            }),
            r matches Some(e) ==> kind_accepts(self@.kind, e) && (e is UninitFunc
                ==> self@.lazy_init),
            *final(gc_store) is Some == *old(gc_store) is Some,
            forall|h: GcRef|
                #![trigger surplus(*final(gc_store), self@.elements, h)]
                surplus(*final(gc_store), self@.elements, h) == surplus(
                    *old(gc_store),
                    self@.elements,
                    h,
                ) + returned_count(r, h),
    {
        let size = self.size();
        let index = match index_to_usize(index) {
            Some(i) => i,
            None => return None,
        };
        if index >= size {
            return None;
        }
        proof {
            self.lemma_storage_len();
            self.lemma_elements_of_kind();
            assert(self@.elements[index as int] == self.element_at(index as int));
        }
        match self.element_type() {
            TableElementType::Func => {
                let (funcrefs, lazy_init) = self.funcrefs();
                let word = MaybeTaggedFuncRef(funcrefs[index]);
                proof {
                    assert forall|h: GcRef| true implies ref_occurrences(self@.elements, h) == 0 by {
                        self.lemma_no_gc_refs(h);
                    }
                }
                Some(word.into_table_element(lazy_init))
            },
            TableElementType::GcRef => {
                let slot = self.gc_refs()[index];
                let r = match GcRef::from_word(slot) {
                    Some(x) => Some(
                        match gc_store {
                            Some(s) => s.clone_gc_ref(&x),
                            None => x.copy_i31(),
                        },
                    ),
                    None => None,
                };
                Some(TableElement::GcRef(r))
            },
            TableElementType::Cont => {
                let c = self.contrefs()[index];
                proof {
                    assert forall|h: GcRef| true implies ref_occurrences(self@.elements, h) == 0 by {
                        self.lemma_no_gc_refs(h);
                    }
                }
                Some(TableElement::ContRef(ContObj::from_slot(c)))
            },
        }
    }

    /// Set the element at `index`, or return `Err(())` if it is out of
    /// bounds. A GC reference is stored as given, with no write barrier.
    pub fn set(&mut self, index: u64, elem: TableElement) -> (r: Result<(), ()>)
        requires
            old(self).wf(),
            kind_accepts(old(self)@.kind, elem),
            valid_element(elem),
        ensures
            final(self).wf(),
            same_shape(final(self)@, old(self)@),
            r is Ok <==> index < old(self)@.elements.len(),
            r is Ok ==> final(self)@.elements == old(self)@.elements.update(
                index as int,
                stored(elem, old(self)@.lazy_init),
            ),
            r is Err ==> final(self)@ == old(self)@,
    {
        let size = self.size();
        let index = match index_to_usize(index) {
            Some(i) => i,
            None => return Err(()),
        };
        if index >= size {
            return Err(());
        }
        proof {
            self.lemma_storage_len();
        }
        let ghost t0 = *self;
        match elem {
            TableElement::FuncRef(f) => {
                let (funcrefs, lazy_init) = self.funcrefs_mut();
                let word = MaybeTaggedFuncRef::from(f, lazy_init);
                funcrefs.set(index, word.0);
                proof {
                    lemma_func_round_trip(f, lazy_init);
                    t0.lemma_with_func_words(*funcrefs);
                }
            },
            TableElement::UninitFunc => {
                let (funcrefs, _lazy_init) = self.funcrefs_mut();
                funcrefs.set(index, MaybeTaggedFuncRef::uninit().0);
                proof {
                    t0.lemma_with_func_words(*funcrefs);
                }
            },
            TableElement::GcRef(e) => {
                let slots = self.gc_refs_mut();
                slots.set(index, GcRef::to_word(e));
                proof {
                    t0.lemma_with_gc_words(*slots);
                }
            },
            TableElement::ContRef(c) => {
                let contrefs = self.contrefs_mut();
                contrefs.set(index, ContObj::to_slot(c));
                proof {
                    t0.lemma_with_cont_words(*contrefs);
                }
            },
        }
        assert(self@.elements =~= t0@.elements.update(index as int, stored(elem, t0@.lazy_init)));
        Ok(())
    }

    /// Initializes `table[dst..]` with the function references `items`,
    /// trapping when they do not fit.
    pub fn init_func(&mut self, dst: u64, items: &[Option<usize>]) -> (r: Result<(), Trap>)
        requires
            old(self).wf(),
            old(self)@.kind == TableElementType::Func,
            forall|i: int|
                0 <= i < items@.len() ==> (#[trigger] items@[i] matches Some(a) ==> valid_func_addr(a)),
        ensures
            final(self).wf(),
            same_shape(final(self)@, old(self)@),
            r is Ok <==> dst + items@.len() <= old(self)@.elements.len(),
            r is Ok ==> final(self)@.elements == overwrite(
                old(self)@.elements,
                dst as int,
                Seq::new(items@.len(), |j: int| TableElement::FuncRef(items@[j])),
            ),
            r is Err ==> final(self)@ == old(self)@,
    {
        let size = self.size();
        let dst = match index_to_usize(dst) {
            Some(d) => d,
            None => return Err(Trap::TableOutOfBounds),
        };
        let n = items.len();
        if dst > size || n > size - dst {
            return Err(Trap::TableOutOfBounds);
        }
        proof {
            self.lemma_storage_len();
        }
        let ghost t0 = *self;
        let (funcrefs, lazy_init) = self.funcrefs_mut();
        write_func_words(funcrefs, dst, items, lazy_init);
        proof {
            t0.lemma_with_func_words(*funcrefs);
            assert forall|j: int| 0 <= j < items@.len() implies decode_func(
                encode_func(#[trigger] items@[j], lazy_init),
                lazy_init,
            ) == TableElement::FuncRef(items@[j]) by {
                lemma_func_round_trip(items@[j], lazy_init);
            }
            assert(self@.elements =~= overwrite(
                t0@.elements,
                dst as int,
                Seq::new(items@.len(), |j: int| TableElement::FuncRef(items@[j])),
            ));
        }
        Ok(())
    }

    /// Initializes `table[dst..]` with the GC references `items`, as given
    /// and with no write barrier, trapping when they do not fit.
    pub fn init_gc_refs(&mut self, dst: u64, items: &[Option<GcRef>]) -> (r: Result<(), Trap>)
        requires
            old(self).wf(),
            old(self)@.kind == TableElementType::GcRef,
            forall|i: int|
                0 <= i < items@.len() ==> (#[trigger] items@[i] matches Some(x) ==> x.raw != 0),
        ensures
            final(self).wf(),
            same_shape(final(self)@, old(self)@),
            r is Ok <==> dst + items@.len() <= old(self)@.elements.len(),
            r is Ok ==> final(self)@.elements == overwrite(
                old(self)@.elements,
                dst as int,
                Seq::new(items@.len(), |j: int| TableElement::GcRef(items@[j])),
            ),
            r is Err ==> final(self)@ == old(self)@,
    {
        let size = self.size();
        let dst = match index_to_usize(dst) {
            Some(d) => d,
            None => return Err(Trap::TableOutOfBounds),
        };
        let n = items.len();
        if dst > size || n > size - dst {
            return Err(Trap::TableOutOfBounds);
        }
        proof {
            self.lemma_storage_len();
        }
        let ghost t0 = *self;
        let slots = self.gc_refs_mut();
        write_gc_words(slots, dst, items);
        proof {
            t0.lemma_with_gc_words(*slots);
            assert(self@.elements =~= overwrite(
                t0@.elements,
                dst as int,
                Seq::new(items@.len(), |j: int| TableElement::GcRef(items@[j])),
            ));
        }
        Ok(())
    }
}

impl Table {
    /// Copies between two distinct tables of one kind.
    fn copy_elements(
        gc_store: &mut Option<GcStore>,
        dst_table: &mut Table,
        src_table: &Table,
        dst_range: Range<usize>,
        src_range: Range<usize>,
    )
        requires
            old(dst_table).wf(),
            src_table.wf(),
            old(dst_table)@.kind == src_table@.kind,
            old(dst_table)@.lazy_init == src_table@.lazy_init,
            dst_range.start <= dst_range.end <= old(dst_table)@.elements.len(),
            src_range.start <= src_range.end <= src_table@.elements.len(),
            dst_range.end - dst_range.start == src_range.end - src_range.start,
            old(dst_table)@.kind == TableElementType::GcRef ==> gc_copy_ready(
                *old(gc_store),
                old(dst_table)@.elements,
                dst_range.end - dst_range.start,
            ),
        ensures
            final(dst_table).wf(),
            same_shape(final(dst_table)@, old(dst_table)@),
            final(dst_table)@.elements == overwrite(
                old(dst_table)@.elements,
                dst_range.start as int,
                src_table@.elements.subrange(src_range.start as int, src_range.end as int),
            ),
            *final(gc_store) is Some == *old(gc_store) is Some,
            old(dst_table)@.kind != TableElementType::GcRef ==> *final(gc_store) == *old(gc_store),
            forall|h: GcRef|
                #![trigger surplus(*final(gc_store), final(dst_table)@.elements, h)]
                surplus(*final(gc_store), final(dst_table)@.elements, h) == surplus(
                    *old(gc_store),
                    old(dst_table)@.elements,
                    h,
                ),
    {
        let ghost t0 = *dst_table;
        let len = dst_range.end - dst_range.start;
        proof {
            dst_table.lemma_storage_len();
            src_table.lemma_storage_len();
            assert(src_table@.elements.subrange(src_range.start as int, src_range.end as int)
                =~= Seq::new(len as nat, |j: int| src_table.element_at(src_range.start + j)));
        }
        match dst_table.element_type() {
            TableElementType::Func => {
                let (src_funcrefs, _lazy_init) = src_table.funcrefs();
                let (dst_funcrefs, _lazy_init) = dst_table.funcrefs_mut();
                copy_slots(dst_funcrefs, src_funcrefs.as_slice(), dst_range.start, src_range.start, len);
                proof {
                    t0.lemma_with_func_words(*dst_funcrefs);
                    assert(dst_table@.elements =~= overwrite(
                        t0@.elements,
                        dst_range.start as int,
                        src_table@.elements.subrange(src_range.start as int, src_range.end as int),
                    ));
                    assert forall|h: GcRef| true implies ref_occurrences(dst_table@.elements, h) == 0
                        && ref_occurrences(t0@.elements, h) == 0 by {
                        dst_table.lemma_no_gc_refs(h);
                        t0.lemma_no_gc_refs(h);
                    }
                }
            },
            TableElementType::GcRef => {
                let size = dst_table.size();
                let src_refs = src_table.gc_refs();
                let dst_refs = dst_table.gc_refs_mut();
                proof {
                    t0.lemma_with_gc_words(*dst_refs);
                }
                match gc_store {
                    Some(store) => {
                        copy_gc_slots(dst_refs, src_refs, store, size, dst_range.start, src_range.start, len);
                    },
                    None => {
                        proof {
                            assert(false);
                        }
                    },
                }
                proof {
                    t0.lemma_with_gc_words(*dst_refs);
                    assert(dst_table@.elements =~= overwrite(
                        t0@.elements,
                        dst_range.start as int,
                        src_table@.elements.subrange(src_range.start as int, src_range.end as int),
                    ));
                }
            },
            TableElementType::Cont => {
                let src_contrefs = src_table.contrefs();
                let dst_contrefs = dst_table.contrefs_mut();
                copy_slots(dst_contrefs, src_contrefs.as_slice(), dst_range.start, src_range.start, len);
                proof {
                    t0.lemma_with_cont_words(*dst_contrefs);
                    assert(dst_table@.elements =~= overwrite(
                        t0@.elements,
                        dst_range.start as int,
                        src_table@.elements.subrange(src_range.start as int, src_range.end as int),
                    ));
                    assert forall|h: GcRef| true implies ref_occurrences(dst_table@.elements, h) == 0
                        && ref_occurrences(t0@.elements, h) == 0 by {
                        dst_table.lemma_no_gc_refs(h);
                        t0.lemma_no_gc_refs(h);
                    }
                }
            },
        }
    }

    /// Copies within this table, with the result of copying through a
    /// temporary buffer.
    fn copy_elements_within(
        &mut self,
        gc_store: &mut Option<GcStore>,
        dst_range: Range<usize>,
        src_range: Range<usize>,
    )
        requires
            old(self).wf(),
            dst_range.start <= dst_range.end <= old(self)@.elements.len(),
            src_range.start <= src_range.end <= old(self)@.elements.len(),
            dst_range.end - dst_range.start == src_range.end - src_range.start,
            old(self)@.kind == TableElementType::GcRef && dst_range.start != src_range.start
                ==> gc_copy_ready(*old(gc_store), old(self)@.elements, dst_range.end - dst_range.start),
        ensures
            dst_range.start == src_range.start ==> *final(gc_store) == *old(gc_store),
            final(self).wf(),
            same_shape(final(self)@, old(self)@),
            final(self)@.elements == overwrite(
                old(self)@.elements,
                dst_range.start as int,
                old(self)@.elements.subrange(src_range.start as int, src_range.end as int),
            ),
            *final(gc_store) is Some == *old(gc_store) is Some,
            old(self)@.kind != TableElementType::GcRef ==> *final(gc_store) == *old(gc_store),
            forall|h: GcRef|
                #![trigger surplus(*final(gc_store), final(self)@.elements, h)]
                surplus(*final(gc_store), final(self)@.elements, h) == surplus(
                    *old(gc_store),
                    old(self)@.elements,
                    h,
                ),
    {
        let ghost t0 = *self;
        let len = dst_range.end - dst_range.start;
        proof {
            self.lemma_storage_len();
        }
        if src_range.start == dst_range.start {
            assert(self@.elements =~= overwrite(
                t0@.elements,
                dst_range.start as int,
                t0@.elements.subrange(src_range.start as int, src_range.end as int),
            ));
            return;
        }
        match self.element_type() {
            TableElementType::Func => {
                let (funcrefs, _lazy_init) = self.funcrefs_mut();
                copy_slots_within(funcrefs, dst_range.start, src_range.start, len);
                proof {
                    t0.lemma_with_func_words(*funcrefs);
                    assert(self@.elements =~= overwrite(
                        t0@.elements,
                        dst_range.start as int,
                        t0@.elements.subrange(src_range.start as int, src_range.end as int),
                    ));
                    assert forall|h: GcRef| true implies ref_occurrences(self@.elements, h) == 0
                        && ref_occurrences(t0@.elements, h) == 0 by {
                        self.lemma_no_gc_refs(h);
                        t0.lemma_no_gc_refs(h);
                    }
                }
            },
            TableElementType::GcRef => {
                let size = self.size();
                let refs = self.gc_refs_mut();
                proof {
                    t0.lemma_with_gc_words(*refs);
                }
                match gc_store {
                    Some(store) => {
                        copy_gc_slots_within(refs, store, size, dst_range.start, src_range.start, len);
                    },
                    None => {
                        proof {
                            assert(false);
                        }
                    },
                }
                proof {
                    t0.lemma_with_gc_words(*refs);
                    assert(self@.elements =~= overwrite(
                        t0@.elements,
                        dst_range.start as int,
                        t0@.elements.subrange(src_range.start as int, src_range.end as int),
                    ));
                }
            },
            TableElementType::Cont => {
                let contrefs = self.contrefs_mut();
                copy_slots_within(contrefs, dst_range.start, src_range.start, len);
                proof {
                    t0.lemma_with_cont_words(*contrefs);
                    assert(self@.elements =~= overwrite(
                        t0@.elements,
                        dst_range.start as int,
                        t0@.elements.subrange(src_range.start as int, src_range.end as int),
                    ));
                    assert forall|h: GcRef| true implies ref_occurrences(self@.elements, h) == 0
                        && ref_occurrences(t0@.elements, h) == 0 by {
                        self.lemma_no_gc_refs(h);
                        t0.lemma_no_gc_refs(h);
                    }
                }
            },
        }
    }
}

/// A buffer of `len` slots holding the empty slot `zero`.
fn alloc_dynamic_table_elements<T: Copy>(len: usize, zero: T) -> (r: Vec<T>)
    ensures
        r@ == repeat(zero, len as nat),
{
    let mut v: Vec<T> = Vec::with_capacity(len);
    let mut i: usize = 0;
    while i < len
        invariant
            i <= len,
            v@ =~= repeat(zero, i as nat),
        decreases len - i,
    {
        v.push(zero);
        i = i + 1;
    }
    v
}

/// Appends empty slots `zero` to `v` until it holds `new_len`.
fn push_empty<T: Copy>(v: &mut Vec<T>, new_len: usize, zero: T)
    requires
        old(v)@.len() <= new_len,
    ensures
        final(v)@ == old(v)@ + repeat(zero, (new_len - old(v)@.len()) as nat),
{
    let ghost v0 = v@;
    let mut i: usize = v.len();
    while i < new_len
        invariant
            v0.len() <= i <= new_len,
            v@ =~= v0 + repeat(zero, (i - v0.len()) as nat),
        decreases new_len - i,
    {
        v.push(zero);
        i = i + 1;
    }
}

impl Table {
    /// Copy `len` elements from `src_table[src_index..]` into
    /// `dst_table[dst_index..]`, two distinct tables of one kind, trapping
    /// when either range leaves its table.
    ///
    /// Function slots are copied as their stored words, so the two tables
    /// must agree on lazy initialisation; tables of one engine always do,
    /// since the setting is engine-wide.
    pub fn copy(
        gc_store: &mut Option<GcStore>,
        dst_table: &mut Table,
        src_table: &Table,
        dst_index: u64,
        src_index: u64,
        len: u64,
    ) -> (r: Result<(), Trap>)
        requires
            old(dst_table).wf(),
            src_table.wf(),
            old(dst_table)@.kind == src_table@.kind,
            old(dst_table)@.lazy_init == src_table@.lazy_init,
            old(dst_table)@.kind == TableElementType::GcRef && src_index + len
                <= src_table@.elements.len() && dst_index + len <= old(dst_table)@.elements.len()
                ==> gc_copy_ready(*old(gc_store), old(dst_table)@.elements, len as int),
        ensures
            final(dst_table).wf(),
            same_shape(final(dst_table)@, old(dst_table)@),
            r is Ok <==> src_index + len <= src_table@.elements.len() && dst_index + len
                <= old(dst_table)@.elements.len(),
            r is Ok ==> final(dst_table)@.elements == overwrite(
                old(dst_table)@.elements,
                dst_index as int,
                src_table@.elements.subrange(src_index as int, src_index + len),
            ),
            r is Err ==> final(dst_table)@ == old(dst_table)@ && *final(gc_store) == *old(gc_store),
            *final(gc_store) is Some == *old(gc_store) is Some,
            old(dst_table)@.kind != TableElementType::GcRef ==> *final(gc_store) == *old(gc_store),
            forall|h: GcRef|
                #![trigger surplus(*final(gc_store), final(dst_table)@.elements, h)]
                surplus(*final(gc_store), final(dst_table)@.elements, h) == surplus(
                    *old(gc_store),
                    old(dst_table)@.elements,
                    h,
                ),
    {
        let src_size = src_table.size();
        let dst_size = dst_table.size();
        let src_index = match index_to_usize(src_index) {
            Some(i) => i,
            None => return Err(Trap::TableOutOfBounds),
        };
        let dst_index = match index_to_usize(dst_index) {
            Some(i) => i,
            None => return Err(Trap::TableOutOfBounds),
        };
        let len = match index_to_usize(len) {
            Some(l) => l,
            None => return Err(Trap::TableOutOfBounds),
        };
        if src_index > src_size || len > src_size - src_index || dst_index > dst_size || len
            > dst_size - dst_index {
            return Err(Trap::TableOutOfBounds);
        }
        Self::copy_elements(
            gc_store,
            dst_table,
            src_table,
            dst_index..dst_index + len,
            src_index..src_index + len,
        );
        Ok(())
    }

    /// Copy `len` elements from `table[src_index..]` into `table[dst_index..]`
    /// within this one table, trapping when either range leaves it. The
    /// ranges may overlap: the result is that of copying through a
    /// temporary buffer.
    pub fn copy_within(
        &mut self,
        gc_store: &mut Option<GcStore>,
        dst_index: u64,
        src_index: u64,
        len: u64,
    ) -> (r: Result<(), Trap>)
        requires
            old(self).wf(),
            old(self)@.kind == TableElementType::GcRef && src_index + len
                <= old(self)@.elements.len() && dst_index + len <= old(self)@.elements.len()
                && dst_index != src_index ==> gc_copy_ready(
                *old(gc_store),
                old(self)@.elements,
                len as int,
            ),
        ensures
            dst_index == src_index ==> *final(gc_store) == *old(gc_store),
            final(self).wf(),
            same_shape(final(self)@, old(self)@),
            r is Ok <==> src_index + len <= old(self)@.elements.len() && dst_index + len
                <= old(self)@.elements.len(),
            r is Ok ==> final(self)@.elements == overwrite(
                old(self)@.elements,
                dst_index as int,
                old(self)@.elements.subrange(src_index as int, src_index + len),
            ),
            r is Err ==> final(self)@ == old(self)@ && *final(gc_store) == *old(gc_store),
            *final(gc_store) is Some == *old(gc_store) is Some,
            old(self)@.kind != TableElementType::GcRef ==> *final(gc_store) == *old(gc_store),
            forall|h: GcRef|
                #![trigger surplus(*final(gc_store), final(self)@.elements, h)]
                surplus(*final(gc_store), final(self)@.elements, h) == surplus(
                    *old(gc_store),
                    old(self)@.elements,
                    h,
                ),
    {
        let size = self.size();
        let src_index = match index_to_usize(src_index) {
            Some(i) => i,
            None => return Err(Trap::TableOutOfBounds),
        };
        let dst_index = match index_to_usize(dst_index) {
            Some(i) => i,
            None => return Err(Trap::TableOutOfBounds),
        };
        let len = match index_to_usize(len) {
            Some(l) => l,
            None => return Err(Trap::TableOutOfBounds),
        };
        if src_index > size || len > size - src_index || dst_index > size || len > size - dst_index {
            return Err(Trap::TableOutOfBounds);
        }
        self.copy_elements_within(gc_store, dst_index..dst_index + len, src_index..src_index + len);
        Ok(())
    }

    spec fn with_size(self, n: usize) -> Table {
        match self {
            Table::Static(StaticTable::Func(t)) => Table::Static(
                StaticTable::Func(
                    StaticFuncTable { base: t.base, data: t.data, size: n, lazy_init: t.lazy_init },
                ),
            ),
            Table::Static(StaticTable::GcRef(t)) => Table::Static(
                StaticTable::GcRef(StaticGcRefTable { base: t.base, data: t.data, size: n }),
            ),
            Table::Static(StaticTable::Cont(t)) => Table::Static(
                StaticTable::Cont(StaticContTable { base: t.base, data: t.data, size: n }),
            ),
            _ => self,
        }
    }

    fn set_static_size(&mut self, n: usize)
        ensures
            *final(self) == old(self).with_size(n),
    {
        match self {
            Table::Static(StaticTable::Func(t)) => {
                t.size = n;
            },
            Table::Static(StaticTable::GcRef(t)) => {
                t.size = n;
            },
            Table::Static(StaticTable::Cont(t)) => {
                t.size = n;
            },
            Table::Dynamic(_) => {},
        }
    }

    /// Extends the storage to `new_size` slots: a static table just takes
    /// more of its already-empty slots, a dynamic one resizes its
    /// buffer, which may move it.
    fn resize_storage(&mut self, new_size: usize)
        requires
            old(self).wf(),
            old(self)@.elements.len() <= new_size,
            old(self)@.maximum matches Some(m) ==> new_size <= m,
        ensures
            final(self).wf(),
            same_shape(final(self)@, old(self)@),
            final(self)@.elements == old(self)@.elements + repeat(
                empty_element(old(self)@.kind, old(self)@.lazy_init),
                (new_size - old(self)@.elements.len()) as nat,
            ),
    {
        let ghost t0 = *self;
        let ghost added = repeat(
            empty_element(t0@.kind, t0@.lazy_init),
            (new_size - t0@.elements.len()) as nat,
        );
        if self.is_static() {
            self.set_static_size(new_size);
            proof {
                assert(self@.elements =~= t0@.elements + added) by {
                    assert forall|i: int| t0@.elements.len() <= i < new_size implies #[trigger]
                        self@.elements[i] == added[i - t0@.elements.len()] by {
                        assert(self@.elements[i] == self.element_at(i));
                    }
                }
            }
        } else {
            match self.element_type() {
                TableElementType::Func => {
                    let (funcrefs, _lazy_init) = self.funcrefs_mut();
                    push_empty(funcrefs, new_size, 0);
                    proof {
                        assert(self@.elements =~= t0@.elements + added) by {
                            assert forall|i: int| 0 <= i < new_size implies #[trigger]
                                self@.elements[i] == self.element_at(i) by {}
                        }
                    }
                },
                TableElementType::GcRef => {
                    let refs = self.gc_refs_mut();
                    push_empty(refs, new_size, 0);
                    proof {
                        assert(self@.elements =~= t0@.elements + added) by {
                            assert forall|i: int| 0 <= i < new_size implies #[trigger]
                                self@.elements[i] == self.element_at(i) by {}
                        }
                    }
                },
                TableElementType::Cont => {
                    let contrefs = self.contrefs_mut();
                    push_empty(contrefs, new_size, ContObj::to_slot(None));
                    proof {
                        assert(self@.elements =~= t0@.elements + added) by {
                            assert forall|i: int| 0 <= i < new_size implies #[trigger]
                                self@.elements[i] == self.element_at(i) by {}
                        }
                    }
                },
            }
        }
    }
}

impl Table {
    /// Carries out a growth request by `delta` elements, each set to
    /// `init_value`, once the new size (`None`: it overflowed) and the
    /// limiter's answer are known. As `grow_step` decides, it returns the
    /// previous size when the table grew, `Ok(None)` when the limiter
    /// refused, and the failure to report when the size overflowed or
    /// exceeds the maximum; in the last two cases nothing changes.
    pub fn grow_with(
        &mut self,
        delta: u64,
        init_value: TableElement,
        gc_store: &mut Option<GcStore>,
        new_size: Option<usize>,
        authorized: bool,
    ) -> (r: Result<Option<usize>, GrowFailure>)
        requires
            old(self).wf(),
            kind_accepts(old(self)@.kind, init_value),
            valid_element(init_value),
            gc_ready_for(
                *old(gc_store),
                old(self)@.elements,
                old(self)@.elements.len() as int,
                delta as int,
                init_value,
            ),
            new_size == grown_size(old(self)@.elements.len(), delta),
        ensures
            final(self).wf(),
            same_shape(final(self)@, old(self)@),
            *final(gc_store) is Some == *old(gc_store) is Some,
            match spec_grow_step(new_size, old(self)@.maximum, authorized) {
                GrowStep::Refused => r == Ok::<Option<usize>, GrowFailure>(None),
                GrowStep::Fail(f) => r == Err::<Option<usize>, GrowFailure>(f),
                GrowStep::Commit(_) => r == Ok::<Option<usize>, GrowFailure>(
                    Some(old(self)@.elements.len() as usize),
                ),
            },
            !(r matches Ok(Some(_))) ==> final(self)@ == old(self)@ && *final(gc_store) == *old(
                gc_store),
            r matches Ok(Some(_)) ==> final(self)@.elements == old(self)@.elements + repeat(
                stored(init_value, old(self)@.lazy_init),
                delta as nat,
            ),
            r matches Ok(Some(_)) ==> forall|h: GcRef|
                #![trigger surplus(*final(gc_store), final(self)@.elements, h)]
                surplus(*final(gc_store), final(self)@.elements, h) == surplus(
                    *old(gc_store),
                    old(self)@.elements,
                    h,
                ) - elem_counted(init_value, h),
            !(init_value is GcRef) ==> *final(gc_store) == *old(gc_store),
    {
        let old_size = self.size();
        let new_size = match grow_step(new_size, self.maximum(), authorized) {
            GrowStep::Refused => return Ok(None),
            GrowStep::Fail(failure) => return Err(failure),
            GrowStep::Commit(n) => n,
        };
        let ghost t0 = *self;
        self.resize_storage(new_size);
        let ghost t1 = *self;
        proof {
            let empties = repeat(empty_element(t0@.kind, t0@.lazy_init), delta as nat);
            assert(t1@.elements == t0@.elements + empties);
            if init_value is GcRef {
                assert forall|h: GcRef| #![auto]
                    ref_occurrences(t1@.elements, h) == ref_occurrences(t0@.elements, h) by {
                    lemma_occurrences_append(t0@.elements, empties, h);
                    lemma_occurrences_zero(empties, h);
                }
                if *gc_store is None {
                    assert forall|i: int|
                        old_size <= i < old_size + delta && i < t1@.elements.len() implies (
                    #[trigger] t1@.elements[i] matches TableElement::GcRef(y) && unboxed(y)) by {
                        assert(t1@.elements[i] == empties[i - old_size]);
                    }
                }
            }
        }
        match self.fill(gc_store, old_size as u64, init_value, delta) {
            Ok(()) => {},
            Err(_) => {
                proof {
                    assert(false);
                }
            },
        }
        proof {
            assert(self@.elements =~= t0@.elements + repeat(
                stored(init_value, t0@.lazy_init),
                delta as nat,
            ));
            let empties = repeat(empty_element(t0@.kind, t0@.lazy_init), delta as nat);
            assert forall|h: GcRef|
                #![trigger surplus(*gc_store, self@.elements, h)]
                surplus(*gc_store, self@.elements, h) == surplus(*old(gc_store), t0@.elements, h)
                    - elem_counted(init_value, h) by {
                lemma_occurrences_append(t0@.elements, empties, h);
                lemma_occurrences_zero(empties, h);
            }
        }
        Ok(Some(old_size))
    }

    /// Grow the table by `delta` elements, each set to `init_value`.
    ///
    /// Growing by zero succeeds at once. A `delta` that fits no machine word
    /// traps. Otherwise, when the new size fits a machine word, the limiter
    /// is asked `(old size, new size, maximum)`, and `grow_with` carries the
    /// request out from its answer: the previous size when the table grew,
    /// `Ok(None)` when the limiter refused, and, when the size overflowed
    /// or exceeds the maximum, `Ok(None)` once that has been reported to the
    /// limiter (whose error is passed on). A dynamic table's buffer may
    /// move, so any base address cached from `vmtable` must be refreshed; a
    /// static table's base never changes.
    pub fn grow<L: Limiter>(
        &mut self,
        delta: u64,
        init_value: TableElement,
        gc_store: &mut Option<GcStore>,
        limiter: &mut L,
    ) -> (r: Result<Option<usize>, TableError>)
        requires
            old(self).wf(),
            kind_accepts(old(self)@.kind, init_value),
            valid_element(init_value),
            gc_ready_for(
                *old(gc_store),
                old(self)@.elements,
                old(self)@.elements.len() as int,
                delta as int,
                init_value,
            ),
        ensures
            final(self).wf(),
            same_shape(final(self)@, old(self)@),
            delta == 0 ==> r == Ok::<Option<usize>, TableError>(
                Some(old(self)@.elements.len() as usize),
            ),
            delta != 0 ==> (r matches Err(TableError::Trap(_)) <==> delta > usize::MAX),
            delta != 0 && delta <= usize::MAX && !(r matches Err(TableError::Host(_))) ==> exists|
                authorized: bool,
            |
                match #[trigger] spec_grow_step(
                    grown_size(old(self)@.elements.len(), delta),
                    old(self)@.maximum,
                    authorized,
                ) {
                    GrowStep::Commit(_) => r == Ok::<Option<usize>, TableError>(
                        Some(old(self)@.elements.len() as usize),
                    ),
                    _ => r == Ok::<Option<usize>, TableError>(None),
                },
            r matches Ok(Some(p)) ==> {
                &&& p == old(self)@.elements.len()
                &&& old(self)@.elements.len() + delta <= usize::MAX
                &&& old(self)@.maximum matches Some(m) ==> old(self)@.elements.len() + delta <= m
                &&& final(self)@.elements == old(self)@.elements + repeat(
                    stored(init_value, old(self)@.lazy_init),
                    delta as nat,
                )
            },
            !(r matches Ok(Some(_))) || delta == 0 ==> final(self)@ == old(self)@
                && *final(gc_store) == *old(gc_store),
            r matches Ok(Some(_)) && delta > 0 ==> forall|h: GcRef|
                #![trigger surplus(*final(gc_store), final(self)@.elements, h)]
                surplus(*final(gc_store), final(self)@.elements, h) == surplus(
                    *old(gc_store),
                    old(self)@.elements,
                    h,
                ) - elem_counted(init_value, h),
            *final(gc_store) is Some == *old(gc_store) is Some,
            !(init_value is GcRef) ==> *final(gc_store) == *old(gc_store),
            r matches Err(e) ==> e is Host || e is Trap,
    {
        let old_size = self.size();
        if delta == 0 {
            return Ok(Some(old_size));
        }
        let delta_size = match index_to_usize(delta) {
            Some(d) => d,
            None => return Err(TableError::Trap(Trap::TableOutOfBounds)),
        };
        let new_size = old_size.checked_add(delta_size);
        let authorized = match new_size {
            Some(n) => match limiter.table_growing(old_size, n, self.maximum()) {
                Ok(answer) => answer,
                Err(e) => return Err(TableError::Host(e)),
            },
            None => false,
        };
        let ghost max = self@.maximum;
        let r = match self.grow_with(delta, init_value, gc_store, new_size, authorized) {
            Ok(grown) => Ok(grown),
            Err(failure) => match limiter.table_grow_failed(failure) {
                Ok(()) => Ok(None),
                Err(e) => Err(TableError::Host(e)),
            },
        };
        proof {
            if !(r matches Err(TableError::Host(_))) {
                assert(match spec_grow_step(new_size, max, authorized) {
                    GrowStep::Commit(_) => r == Ok::<Option<usize>, TableError>(Some(old_size)),
                    _ => r == Ok::<Option<usize>, TableError>(None),
                });
            }
        }
        r
    }
}

impl Table {
    // Asks the limiter whether a table of the type may be created, and
    // returns its minimum and maximum size as machine words.
    fn limit_new<L: Limiter>(ty: &TableType, limiter: &mut L) -> (r: Result<
        (usize, Option<usize>),
        TableError,
    >)
        ensures
            exists|answer: Result<bool, HostError>| r == spec_creation_limits(*ty, answer),
    {
        let (desired, maximum) = creation_request(ty);
        let answer = limiter.table_growing(0, desired, maximum);
        let r = creation_limits(ty, answer);
        proof {
            assert(r == spec_creation_limits(*ty, answer));
        }
        r
    }

    /// Builds a dynamic (movable) table of the given type, with `ty.min`
    /// empty elements, once the limiter has allowed the limits `minimum`
    /// and `maximum`.
    pub fn new_dynamic_in(
        ty: &TableType,
        tunables: &Tunables,
        minimum: usize,
        maximum: Option<usize>,
    ) -> (t: Table)
        requires
            ty.wf(),
            minimum == ty.min,
            maximum == ty.spec_maximum(),
        ensures
            t.wf(),
            t@.kind == spec_table_type(ty.ref_top),
            t@.lazy_init == (t@.kind == TableElementType::Func && tunables.table_lazy_init),
            t@.base is None,
            t@.maximum == ty.spec_maximum(),
            t@.elements == repeat(empty_element(t@.kind, t@.lazy_init), ty.min as nat),
    {
        let t = match wasm_to_table_type(ty.ref_top) {
            TableElementType::Func => Self::from(
                DynamicFuncTable {
                    elements: alloc_dynamic_table_elements(minimum, 0),
                    maximum,
                    lazy_init: tunables.table_lazy_init,
                },
            ),
            TableElementType::GcRef => Self::from(
                DynamicGcRefTable { elements: alloc_dynamic_table_elements(minimum, 0), maximum },
            ),
            TableElementType::Cont => Self::from(
                DynamicContTable {
                    elements: alloc_dynamic_table_elements(minimum, ContObj::to_slot(None)),
                    maximum,
                },
            ),
        };
        proof {
            assert(t@.elements =~= repeat(empty_element(t@.kind, t@.lazy_init), ty.min as nat));
        }
        t
    }

    /// Create a new dynamic (movable) table of the given type, with
    /// `ty.min` empty elements, if the limiter allows it.
    ///
    /// The limiter is asked `(0, m, maximum)` with `(m, maximum)` the
    /// `creation_request` of the type; `creation_limits` decides from its
    /// answer, and `new_dynamic_in` builds the table.
    pub fn new_dynamic<L: Limiter>(ty: &TableType, tunables: &Tunables, limiter: &mut L) -> (r:
        Result<Table, TableError>)
        requires
            ty.wf(),
        ensures
            exists|answer: Result<bool, HostError>|
                match #[trigger] spec_creation_limits(*ty, answer) {
                    Ok(_) => r is Ok,
                    Err(e) => r == Err::<Table, TableError>(e),
                },
            r matches Ok(t) ==> {
                &&& t.wf()
                &&& t@.kind == spec_table_type(ty.ref_top)
                &&& t@.lazy_init == (t@.kind == TableElementType::Func && tunables.table_lazy_init)
                &&& t@.base is None
                &&& t@.maximum == ty.spec_maximum()
                &&& t@.elements == repeat(empty_element(t@.kind, t@.lazy_init), ty.min as nat)
            },
            r matches Err(e) ==> e is MinimumExceedsLimits || e is Host,
            spec_to_usize(ty.min) is None ==> r is Err,
    {
        let limits = Self::limit_new(ty, limiter);
        let ghost answer = choose|answer: Result<bool, HostError>|
            limits == spec_creation_limits(*ty, answer);
        let r = match limits {
            Ok((minimum, maximum)) => Ok(Self::new_dynamic_in(ty, tunables, minimum, maximum)),
            Err(e) => Err(e),
        };
        proof {
            assert(match spec_creation_limits(*ty, answer) {
                Ok(_) => r is Ok,
                Err(e) => r == Err::<Table, TableError>(e),
            });
        }
        r
    }

    /// Builds a static (immovable) table of the given type, with `ty.min`
    /// empty elements, for the region `data`, once the limiter has allowed
    /// the limits `minimum` and `maximum`. It fails exactly when the region
    /// has room for fewer than `ty.min` elements.
    ///
    /// The table records the region's address, which is what `vmtable`
    /// reports as its base; the slots themselves are kept in a buffer of the
    /// table's own, as many as the region and the maximum allow, which is
    /// never resized.
    pub fn new_static_in(
        ty: &TableType,
        tunables: &Tunables,
        data: TableMemory,
        minimum: usize,
        maximum: Option<usize>,
    ) -> (r: Result<Table, TableError>)
        requires
            ty.wf(),
            minimum == ty.min,
            maximum == ty.spec_maximum(),
            data.len as int % spec_element_size(spec_table_type(ty.ref_top)) as int == 0,
        ensures
            r is Ok <==> ty.min <= region_capacity(data.len, spec_table_type(ty.ref_top)),
            r matches Err(e) ==> e is MinimumExceedsCapacity,
            r matches Ok(t) ==> {
                let capacity = region_capacity(data.len, t@.kind);
                &&& t.wf()
                &&& t@.kind == spec_table_type(ty.ref_top)
                &&& t@.lazy_init == (t@.kind == TableElementType::Func && tunables.table_lazy_init)
                &&& t@.base == Some(data.base)
                &&& t@.maximum == Some(
                    (match ty.spec_maximum() {
                        Some(m) => if m < capacity {
                            m as int
                        } else {
                            capacity as int
                        },
                        None => capacity as int,
                    }) as usize,
                )
                &&& t@.elements == repeat(empty_element(t@.kind, t@.lazy_init), ty.min as nat)
            },
    {
        let size = minimum;
        let max = match maximum {
            Some(m) => m,
            None => usize::MAX,
        };
        let kind = wasm_to_table_type(ty.ref_top);
        let element_size = kind.element_size();
        let len = if element_size == 0 {
            0
        } else {
            data.len / element_size
        };
        if minimum > len {
            return Err(TableError::MinimumExceedsCapacity);
        }
        let slots = if len < max {
            len
        } else {
            max
        };
        let t = match kind {
            TableElementType::Func => Self::from(
                StaticFuncTable {
                    base: data.base,
                    data: alloc_dynamic_table_elements(slots, 0),
                    size,
                    lazy_init: tunables.table_lazy_init,
                },
            ),
            TableElementType::GcRef => Self::from(
                StaticGcRefTable {
                    base: data.base,
                    data: alloc_dynamic_table_elements(slots, 0),
                    size,
                },
            ),
            TableElementType::Cont => Self::from(
                StaticContTable {
                    base: data.base,
                    data: alloc_dynamic_table_elements(slots, ContObj::to_slot(None)),
                    size,
                },
            ),
        };
        proof {
            assert(t@.elements =~= repeat(empty_element(t@.kind, t@.lazy_init), ty.min as nat));
        }
        Ok(t)
    }

    /// Create a new static (immovable) table of the given type for a region
    /// that a pool reserved for it, with `ty.min` empty elements, if the
    /// limiter allows it and the region has room for them.
    ///
    /// The limiter is asked as by `new_dynamic`; `creation_limits` decides
    /// from its answer, and `new_static_in` builds the table.
    pub fn new_static<L: Limiter>(
        ty: &TableType,
        tunables: &Tunables,
        data: TableMemory,
        limiter: &mut L,
    ) -> (r: Result<Table, TableError>)
        requires
            ty.wf(),
            data.base as int % element_align(spec_table_type(ty.ref_top)) as int == 0,
            data.len as int % spec_element_size(spec_table_type(ty.ref_top)) as int == 0,
        ensures
            exists|answer: Result<bool, HostError>|
                match #[trigger] spec_creation_limits(*ty, answer) {
                    Ok(_) => (r is Ok <==> ty.min <= region_capacity(
                        data.len,
                        spec_table_type(ty.ref_top),
                    )) && (r matches Err(e) ==> e is MinimumExceedsCapacity),
                    Err(e) => r == Err::<Table, TableError>(e),
                },
            r matches Ok(t) ==> {
                let capacity = region_capacity(data.len, t@.kind);
                &&& t.wf()
                &&& t@.kind == spec_table_type(ty.ref_top)
                &&& t@.lazy_init == (t@.kind == TableElementType::Func && tunables.table_lazy_init)
                &&& t@.base == Some(data.base)
                &&& ty.min <= capacity
                &&& t@.maximum == Some(
                    (match ty.spec_maximum() {
                        Some(m) => if m < capacity {
                            m as int
                        } else {
                            capacity as int
                        },
                        None => capacity as int,
                    }) as usize,
                )
                &&& t@.elements == repeat(empty_element(t@.kind, t@.lazy_init), ty.min as nat)
            },
            r matches Err(e) ==> e is MinimumExceedsLimits || e is MinimumExceedsCapacity
                || e is Host,
            spec_to_usize(ty.min) is None ==> r is Err,
    {
        let limits = Self::limit_new(ty, limiter);
        let ghost answer = choose|answer: Result<bool, HostError>|
            limits == spec_creation_limits(*ty, answer);
        let r = match limits {
            Ok((minimum, maximum)) => Self::new_static_in(ty, tunables, data, minimum, maximum),
            Err(e) => Err(e),
        };
        proof {
            assert(match spec_creation_limits(*ty, answer) {
                Ok(_) => (r is Ok <==> ty.min <= region_capacity(
                        data.len,
                        spec_table_type(ty.ref_top),
                    )) && (r matches Err(e) ==> e is MinimumExceedsCapacity),
                Err(e) => r == Err::<Table, TableError>(e),
            });
        }
        r
    }

    /// Return the record that exposes the table to compiled code: its base
    /// address and current size. A dynamic table's base is its slot buffer,
    /// valid until the table next grows; a static table's base is the pool
    /// region's address it records, which does not hold its slots (see
    /// `VMTableDefinition`).
    pub fn vmtable(&mut self) -> (r: VMTableDefinition)
        ensures
            *final(self) == *old(self),
            r.current_elements == old(self)@.elements.len(),
            old(self)@.base matches Some(b) ==> r.base == b,
    {
        match self {
            Table::Static(StaticTable::Func(t)) => VMTableDefinition {
                base: t.base,
                current_elements: t.size,
            },
            Table::Static(StaticTable::GcRef(t)) => VMTableDefinition {
                base: t.base,
                current_elements: t.size,
            },
            Table::Static(StaticTable::Cont(t)) => VMTableDefinition {
                base: t.base,
                current_elements: t.size,
            },
            Table::Dynamic(DynamicTable::Func(t)) => VMTableDefinition {
                base: buffer_addr(&t.elements),
                current_elements: t.elements.len(),
            },
            Table::Dynamic(DynamicTable::GcRef(t)) => VMTableDefinition {
                base: buffer_addr(&t.elements),
                current_elements: t.elements.len(),
            },
            Table::Dynamic(DynamicTable::Cont(t)) => VMTableDefinition {
                base: buffer_addr(&t.elements),
                current_elements: t.elements.len(),
            },
        }
    }
}

/// The default table is an empty function table that cannot grow.
impl Default for Table {
    fn default() -> (r: Table)
        ensures
            r.wf(),
            r@.kind == TableElementType::Func,
            r@.lazy_init == false,
            r@.base == Some(0usize),
            r@.maximum == Some(0usize),
            r@.elements.len() == 0,
    {
        Self::from(StaticFuncTable { base: 0, data: Vec::new(), size: 0, lazy_init: false })
    }
}

} // verus!
