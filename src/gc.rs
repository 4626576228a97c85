//! The garbage collector's side of a table of GC references: how many
//! retains each heap object has outstanding.
use std::collections::HashMap;
use vstd::prelude::*;
use crate::element::GcRef;

verus! {

broadcast use vstd::std_specs::hash::group_hash_axioms;

/// How many times `r` stands for heap object `h`: once when `r` is `h` and
/// `h` is a heap object, never for an unboxed integer.
pub open spec fn counted(r: Option<GcRef>, h: GcRef) -> int {
    if r == Some(h) && !h.spec_is_i31() {
        1
    } else {
        0
    }
}

/// A reference-counting view of a GC heap: the number of live references
/// to each heap object, keyed by the object's raw reference bits.
pub struct GcStore {
    counts: HashMap<u32, u64>,
}

impl GcStore {
    /// The number of retains outstanding on `h`.
    pub closed spec fn rc(&self, h: GcRef) -> nat {
        if self.counts@.contains_key(h.raw) {
            self.counts@[h.raw] as nat
        } else {
            0
        }
    }

    /// Releasing `r` cannot drop a count below zero.
    pub open spec fn can_release(&self, r: Option<GcRef>) -> bool {
        match r {
            Some(d) => d.spec_is_i31() || self.rc(d) > 0,
            None => true,
        }
    }

    /// Retaining `r` cannot overflow its count.
    pub open spec fn can_retain(&self, r: Option<GcRef>) -> bool {
        match r {
            Some(d) => d.spec_is_i31() || self.rc(d) < u64::MAX,
            None => true,
        }
    }

    /// A store with no retains outstanding.
    pub fn new() -> (r: GcStore)
        ensures
            forall|h: GcRef| r.rc(h) == 0,
    {
        GcStore { counts: HashMap::new() }
    }

    /// The number of retains outstanding on `h`.
    pub fn ref_count(&self, h: &GcRef) -> (r: u64)
        ensures
            r == self.rc(*h),
    {
        match self.counts.get(&h.raw) {
            Some(n) => *n,
            None => 0,
        }
    }

    fn set_count(&mut self, h: &GcRef, n: u64)
        ensures
            forall|g: GcRef| #[trigger]
                final(self).rc(g) == if g.raw == h.raw {
                    n as nat
                } else {
                    old(self).rc(g)
                },
    {
        self.counts.insert(h.raw, n);
    }

    /// Retains a new reference to what `r` refers to, and returns it.
    pub fn clone_gc_ref(&mut self, r: &GcRef) -> (c: GcRef)
        requires
            !r.spec_is_i31() ==> old(self).rc(*r) < u64::MAX,
        ensures
            c == *r,
            forall|h: GcRef| #[trigger] final(self).rc(h) == old(self).rc(h) + counted(Some(*r), h),
    {
        if !r.is_i31() {
            let n = self.ref_count(r);
            self.set_count(r, n + 1);
        }
        GcRef { raw: r.raw }
    }

    /// Releases the reference `r`, which the caller owned.
    pub fn drop_gc_ref(&mut self, r: GcRef)
        requires
            !r.spec_is_i31() ==> old(self).rc(r) > 0,
        ensures
            forall|h: GcRef| #[trigger] final(self).rc(h) == old(self).rc(h) - counted(Some(r), h),
    {
        if !r.is_i31() {
            let n = self.ref_count(&r);
            self.set_count(&r, n - 1);
        }
    }

    /// Overwrites the slot `dest` with a new reference to `source`, retaining
    /// the new occupant and releasing the old one.
    pub fn write_gc_ref(&mut self, dest: &mut Option<GcRef>, source: Option<&GcRef>)
        requires
            old(self).can_release(*old(dest)),
            old(self).can_retain(match source {
                Some(s) => Some(*s),
                None => None,
            }),
        ensures
            *final(dest) == (match source {
                Some(s) => Some(*s),
                None => None,
            }),
            forall|h: GcRef| #[trigger]
                final(self).rc(h) == old(self).rc(h) + (match source {
                    Some(s) => counted(Some(*s), h),
                    None => 0,
                }) - counted(*old(dest), h),
    {
        let new = match source {
            Some(s) => Some(self.clone_gc_ref(s)),
            None => None,
        };
        let old_ref = *dest;
        *dest = new;
        match old_ref {
            Some(d) => self.drop_gc_ref(d),
            None => {},
        }
    }
}

} // verus!
