use wasm_table::element::{
    wasm_to_table_type, ContObj, GcRef, HeapTopType, MaybeTaggedFuncRef, TableElement,
    TableElementType,
};
use wasm_table::gc::GcStore;
use wasm_table::limits::{
    creation_limits, creation_request, grow_step, index_to_usize, GrowFailure, GrowStep, HostError, Limiter, TableError, TableMemory,
    TableType, Trap, Tunables,
};
use wasm_table::table::Table;

/// A limiter that allows everything and records what it was told.
#[derive(Default)]
struct Recorder {
    asked: Vec<(usize, usize, Option<usize>)>,
    failures: Vec<GrowFailure>,
}

impl Limiter for Recorder {
    fn table_growing(
        &mut self,
        current: usize,
        desired: usize,
        maximum: Option<usize>,
    ) -> Result<bool, HostError> {
        self.asked.push((current, desired, maximum));
        Ok(true)
    }

    fn table_grow_failed(&mut self, failure: GrowFailure) -> Result<(), HostError> {
        self.failures.push(failure);
        Ok(())
    }
}

/// A limiter that refuses every growth.
struct Refuser;

impl Limiter for Refuser {
    fn table_growing(&mut self, _: usize, _: usize, _: Option<usize>) -> Result<bool, HostError> {
        Ok(false)
    }

    fn table_grow_failed(&mut self, _: GrowFailure) -> Result<(), HostError> {
        Ok(())
    }
}

/// A limiter whose host fails whenever it is consulted.
struct Failing;

impl Limiter for Failing {
    fn table_growing(&mut self, _: usize, _: usize, _: Option<usize>) -> Result<bool, HostError> {
        Err(HostError { code: 7 })
    }

    fn table_grow_failed(&mut self, _: GrowFailure) -> Result<(), HostError> {
        Err(HostError { code: 9 })
    }
}

fn ty(top: HeapTopType, min: u64, max: Option<u64>) -> TableType {
    TableType { ref_top: top, min, max, idx64: false }
}

fn dynamic(top: HeapTopType, min: u64, max: Option<u64>, lazy: bool) -> Table {
    let mut limiter = Recorder::default();
    Table::new_dynamic(&ty(top, min, max), &Tunables { table_lazy_init: lazy }, &mut limiter)
        .unwrap()
}

fn func(t: &Table, i: u64) -> Option<TableElement> {
    t.get(&mut None, i)
}

fn gc(raw: u32) -> GcRef {
    GcRef::from_raw(raw).unwrap()
}

fn count_in(t: &Table, r: GcRef, store: &mut Option<GcStore>) -> u64 {
    // Reads through the store's clone and releases the clone again.
    let mut n = 0;
    for i in 0..t.size() as u64 {
        if let Some(TableElement::GcRef(Some(x))) = t.get(store, i) {
            if x == r {
                n += 1;
            }
            store.as_mut().unwrap().drop_gc_ref(x);
        }
    }
    n
}

#[test]
fn dynamic_func_table_grows_within_its_maximum() {
    let mut t = dynamic(HeapTopType::Func, 2, Some(5), false);
    assert_eq!(t.size(), 2);
    assert_eq!(t.maximum(), Some(5));
    assert_eq!(func(&t, 0), Some(TableElement::FuncRef(None)));
    assert_eq!(func(&t, 1), Some(TableElement::FuncRef(None)));

    let mut limiter = Recorder::default();
    let r = t.grow(2, TableElement::FuncRef(None), &mut None, &mut limiter);
    assert_eq!(r, Ok(Some(2)));
    assert_eq!(t.size(), 4);
    assert_eq!(func(&t, 2), Some(TableElement::FuncRef(None)));
    assert_eq!(func(&t, 3), Some(TableElement::FuncRef(None)));

    let r = t.grow(10, TableElement::FuncRef(None), &mut None, &mut limiter);
    assert_eq!(r, Ok(None));
    assert_eq!(t.size(), 4);
    assert_eq!(limiter.failures, vec![GrowFailure::MaximumExceeded]);
    assert_eq!(limiter.asked, vec![(2, 4, Some(5)), (4, 14, Some(5))]);
}

#[test]
fn static_gc_fill_writes_through_the_barrier_once() {
    let mut limiter = Recorder::default();
    let region = TableMemory { base: 0x1000, len: 16 };
    let mut t = Table::new_static(
        &ty(HeapTopType::Any, 1, None),
        &Tunables { table_lazy_init: false },
        region,
        &mut limiter,
    )
    .unwrap();
    assert_eq!(t.maximum(), Some(4));
    let mut store = Some(GcStore::new());
    let r = gc(2);
    let held = store.as_mut().unwrap().clone_gc_ref(&r);
    assert_eq!(store.as_ref().unwrap().ref_count(&r), 1);

    assert_eq!(t.fill(&mut store, 0, TableElement::GcRef(Some(held)), 1), Ok(()));
    assert_eq!(t.size(), 1);
    // One retain for the slot, the caller's own released.
    assert_eq!(store.as_ref().unwrap().ref_count(&r), 1);
    assert_eq!(t.get(&mut store, 0), Some(TableElement::GcRef(Some(r))));
    assert_eq!(store.as_ref().unwrap().ref_count(&r), 2);
}

#[test]
fn func_copy_within_forward() {
    let mut t = dynamic(HeapTopType::Func, 5, None, false);
    for i in 0..5u64 {
        t.set(i, TableElement::FuncRef(Some(0x100 * (i as usize + 1)))).unwrap();
    }
    assert_eq!(t.copy_within(&mut None, 0, 2, 3), Ok(()));
    let got: Vec<_> = (0..5).map(|i| func(&t, i).unwrap()).collect();
    let want: Vec<_> = [0x300, 0x400, 0x500, 0x400, 0x500]
        .iter()
        .map(|a| TableElement::FuncRef(Some(*a)))
        .collect();
    assert_eq!(got, want);
}

#[test]
fn func_copy_within_backward() {
    let mut t = dynamic(HeapTopType::Func, 5, None, true);
    for i in 0..5u64 {
        t.set(i, TableElement::FuncRef(Some(0x100 * (i as usize + 1)))).unwrap();
    }
    assert_eq!(t.copy_within(&mut None, 2, 0, 3), Ok(()));
    let got: Vec<_> = (0..5).map(|i| func(&t, i).unwrap()).collect();
    let want: Vec<_> = [0x100, 0x200, 0x100, 0x200, 0x300]
        .iter()
        .map(|a| TableElement::FuncRef(Some(*a)))
        .collect();
    assert_eq!(got, want);
}

#[test]
fn lazy_init_reads_uninit_then_the_exact_pointer() {
    let mut t = dynamic(HeapTopType::Func, 2, None, true);
    assert_eq!(func(&t, 0), Some(TableElement::UninitFunc));
    assert!(func(&t, 0).unwrap().is_uninit());
    assert_eq!(t.init_func(0, &[Some(0x4000)]), Ok(()));
    assert_eq!(func(&t, 0), Some(TableElement::FuncRef(Some(0x4000))));
    assert_eq!(func(&t, 1), Some(TableElement::UninitFunc));
    t.set(1, TableElement::FuncRef(None)).unwrap();
    assert_eq!(func(&t, 1), Some(TableElement::FuncRef(None)));
}

#[test]
fn uninit_in_an_eager_table_reads_null() {
    let mut t = dynamic(HeapTopType::Func, 1, None, false);
    t.set(0, TableElement::UninitFunc).unwrap();
    assert_eq!(func(&t, 0), Some(TableElement::FuncRef(None)));
}

#[test]
fn tagged_words() {
    assert_eq!(MaybeTaggedFuncRef::from(Some(8), true).0, 9);
    assert_eq!(MaybeTaggedFuncRef::from(None, true).0, 1);
    assert_eq!(MaybeTaggedFuncRef::from(Some(8), false).0, 8);
    assert_eq!(MaybeTaggedFuncRef::from(None, false).0, 0);
    assert_eq!(MaybeTaggedFuncRef(9).into_table_element(true), TableElement::FuncRef(Some(8)));
    assert_eq!(MaybeTaggedFuncRef(1).into_table_element(true), TableElement::FuncRef(None));
    assert_eq!(MaybeTaggedFuncRef(0).into_table_element(true), TableElement::UninitFunc);
    assert_eq!(MaybeTaggedFuncRef(0).into_table_element(false), TableElement::FuncRef(None));
    assert_eq!(MaybeTaggedFuncRef(8).into_table_element(false), TableElement::FuncRef(Some(8)));
    assert_eq!(MaybeTaggedFuncRef::uninit().0, 0);
}

#[test]
fn slot_words() {
    assert_eq!(GcRef::from_word(0), None);
    assert_eq!(GcRef::from_word(6), Some(gc(6)));
    assert_eq!(GcRef::to_word(Some(gc(6))), 6);
    assert_eq!(GcRef::to_word(None), 0);
    let c = ContObj { contref: 0x900, revision: 2 };
    assert_eq!(ContObj::from_slot(c), Some(c));
    assert_eq!(ContObj::from_slot(ContObj { contref: 0, revision: 5 }), None);
    assert_eq!(ContObj::to_slot(None).contref, 0);
    assert_eq!(ContObj::to_slot(Some(c)), c);
}

#[test]
fn ranges_may_end_at_the_size_but_not_past_it() {
    let mut t = dynamic(HeapTopType::Func, 4, None, false);
    let null = TableElement::FuncRef(None);
    assert_eq!(t.fill(&mut None, 1, null, 3), Ok(()));
    assert_eq!(t.fill(&mut None, 1, null, 4), Err(Trap::TableOutOfBounds));
    assert_eq!(t.fill(&mut None, u64::MAX, null, 2), Err(Trap::TableOutOfBounds));
    assert_eq!(t.copy_within(&mut None, 0, 1, 3), Ok(()));
    assert_eq!(t.copy_within(&mut None, 0, 1, 4), Err(Trap::TableOutOfBounds));
    assert_eq!(t.copy_within(&mut None, 1, 0, 4), Err(Trap::TableOutOfBounds));
    assert_eq!(t.init_func(2, &[Some(16), Some(32)]), Ok(()));
    assert_eq!(t.init_func(3, &[Some(16), Some(32)]), Err(Trap::TableOutOfBounds));
    let mut g = dynamic(HeapTopType::Extern, 3, None, false);
    assert_eq!(g.init_gc_refs(1, &[None, Some(gc(5))]), Ok(()));
    assert_eq!(g.init_gc_refs(2, &[None, Some(gc(5))]), Err(Trap::TableOutOfBounds));
    assert_eq!(g.get(&mut None, 2), Some(TableElement::GcRef(Some(gc(5)))));
}

#[test]
fn get_and_set_out_of_bounds() {
    let mut t = dynamic(HeapTopType::Func, 2, None, false);
    assert_eq!(func(&t, 2), None);
    assert_eq!(func(&t, u64::MAX), None);
    assert_eq!(t.set(2, TableElement::FuncRef(Some(8))), Err(()));
    assert_eq!(t.set(1, TableElement::FuncRef(Some(8))), Ok(()));
    assert_eq!(func(&t, 1), Some(TableElement::FuncRef(Some(8))));
}

#[test]
fn grow_by_zero_asks_nobody() {
    let mut t = dynamic(HeapTopType::Func, 3, Some(3), false);
    let mut limiter = Recorder::default();
    assert_eq!(t.grow(0, TableElement::FuncRef(None), &mut None, &mut limiter), Ok(Some(3)));
    assert!(limiter.asked.is_empty());
    assert_eq!(t.size(), 3);
}

#[test]
fn grow_overflow_is_rejected_and_reported() {
    let mut t = dynamic(HeapTopType::Func, 3, None, false);
    t.set(0, TableElement::FuncRef(Some(0x40))).unwrap();
    let mut limiter = Recorder::default();
    let r = t.grow(u64::MAX, TableElement::FuncRef(None), &mut None, &mut limiter);
    assert_eq!(r, Ok(None));
    assert_eq!(limiter.failures, vec![GrowFailure::SizeOverflow]);
    assert!(limiter.asked.is_empty());
    assert_eq!(t.size(), 3);
    assert_eq!(func(&t, 0), Some(TableElement::FuncRef(Some(0x40))));
}

#[test]
fn grow_refused_or_failing_limiter() {
    let mut t = dynamic(HeapTopType::Func, 1, None, false);
    assert_eq!(t.grow(1, TableElement::FuncRef(None), &mut None, &mut Refuser), Ok(None));
    assert_eq!(t.size(), 1);
    assert_eq!(
        t.grow(1, TableElement::FuncRef(None), &mut None, &mut Failing),
        Err(TableError::Host(HostError { code: 7 }))
    );
    assert_eq!(t.size(), 1);
    let mut bounded = dynamic(HeapTopType::Func, 1, Some(1), false);
    // The limiter allows, the maximum does not, and reporting that fails.
    struct AllowThenFail;
    impl Limiter for AllowThenFail {
        fn table_growing(&mut self, _: usize, _: usize, _: Option<usize>) -> Result<bool, HostError> {
            Ok(true)
        }
        fn table_grow_failed(&mut self, _: GrowFailure) -> Result<(), HostError> {
            Err(HostError { code: 3 })
        }
    }
    assert_eq!(
        bounded.grow(1, TableElement::FuncRef(None), &mut None, &mut AllowThenFail),
        Err(TableError::Host(HostError { code: 3 }))
    );
}

#[test]
fn static_base_is_kept_and_dynamic_contents_survive_growth() {
    let mut limiter = Recorder::default();
    let region = TableMemory { base: 0x8000, len: 8 * 10 };
    let mut s = Table::new_static(
        &ty(HeapTopType::Func, 1, Some(6)),
        &Tunables { table_lazy_init: true },
        region,
        &mut limiter,
    )
    .unwrap();
    assert!(s.is_static());
    assert_eq!(s.maximum(), Some(6));
    let before = s.vmtable();
    assert_eq!(before.base, 0x8000);
    assert_eq!(before.current_elements, 1);
    assert_eq!(s.grow(2, TableElement::FuncRef(Some(0x20)), &mut None, &mut limiter), Ok(Some(1)));
    assert_eq!(s.grow(3, TableElement::UninitFunc, &mut None, &mut limiter), Ok(Some(3)));
    let after = s.vmtable();
    assert_eq!(after.base, 0x8000);
    assert_eq!(after.current_elements, 6);
    assert_eq!(func(&s, 1), Some(TableElement::FuncRef(Some(0x20))));
    assert_eq!(func(&s, 5), Some(TableElement::UninitFunc));
    assert_eq!(s.grow(1, TableElement::FuncRef(None), &mut None, &mut limiter), Ok(None));

    let mut d = dynamic(HeapTopType::Func, 3, None, false);
    assert!(!d.is_static());
    for i in 0..3u64 {
        d.set(i, TableElement::FuncRef(Some(0x10 * (i as usize + 1)))).unwrap();
    }
    assert_eq!(d.grow(100, TableElement::FuncRef(Some(0x80)), &mut None, &mut limiter), Ok(Some(3)));
    assert_eq!(d.vmtable().current_elements, 103);
    for i in 0..3u64 {
        assert_eq!(func(&d, i), Some(TableElement::FuncRef(Some(0x10 * (i as usize + 1)))));
    }
    assert_eq!(func(&d, 102), Some(TableElement::FuncRef(Some(0x80))));
}

#[test]
fn fresh_tables_hold_no_values() {
    let f = dynamic(HeapTopType::Func, 3, None, false);
    let l = dynamic(HeapTopType::Func, 3, None, true);
    let g = dynamic(HeapTopType::Any, 3, None, false);
    let c = dynamic(HeapTopType::Cont, 3, None, true);
    for i in 0..3u64 {
        assert_eq!(func(&f, i), Some(TableElement::FuncRef(None)));
        assert_eq!(func(&l, i), Some(TableElement::UninitFunc));
        assert_eq!(g.get(&mut None, i), Some(TableElement::GcRef(None)));
        assert_eq!(c.get(&mut None, i), Some(TableElement::ContRef(None)));
    }
    assert_eq!(f.element_type(), TableElementType::Func);
    assert_eq!(g.element_type(), TableElementType::GcRef);
    assert_eq!(c.element_type(), TableElementType::Cont);
    let e = dynamic(HeapTopType::Exn, 0, None, false);
    assert_eq!(e.size(), 0);
    assert_eq!(e.element_type(), TableElementType::GcRef);
}

#[test]
fn maximum_follows_the_index_type() {
    let t32 = dynamic(HeapTopType::Func, 0, None, false);
    assert_eq!(t32.maximum(), Some(u32::MAX as usize));
    let mut limiter = Recorder::default();
    let t64 = Table::new_dynamic(
        &TableType { ref_top: HeapTopType::Func, min: 0, max: None, idx64: true },
        &Tunables { table_lazy_init: false },
        &mut limiter,
    )
    .unwrap();
    assert_eq!(t64.maximum(), index_to_usize(u64::MAX));
    assert_eq!(limiter.asked, vec![(0, 0, index_to_usize(u64::MAX))]);
}

#[test]
fn construction_errors() {
    let tunables = Tunables { table_lazy_init: false };
    let r = Table::new_dynamic(&ty(HeapTopType::Func, 1, None), &tunables, &mut Refuser);
    assert!(matches!(r, Err(TableError::MinimumExceedsLimits)));
    let r = Table::new_dynamic(&ty(HeapTopType::Func, 1, None), &tunables, &mut Failing);
    assert!(matches!(r, Err(TableError::Host(HostError { code: 7 }))));
    let mut limiter = Recorder::default();
    let r = Table::new_static(
        &ty(HeapTopType::Any, 5, None),
        &tunables,
        TableMemory { base: 0x100, len: 16 },
        &mut limiter,
    );
    assert!(matches!(r, Err(TableError::MinimumExceedsCapacity)));
    let r = Table::new_static(
        &ty(HeapTopType::Any, 4, None),
        &tunables,
        TableMemory { base: 0x100, len: 16 },
        &mut limiter,
    );
    assert_eq!(r.unwrap().size(), 4);
}

#[test]
fn gc_retains_match_table_references() {
    let mut t = dynamic(HeapTopType::Extern, 4, None, false);
    let mut u = dynamic(HeapTopType::Extern, 4, None, false);
    let mut store = Some(GcStore::new());
    let a = gc(2);
    let b = gc(4);
    let ra = store.as_mut().unwrap().clone_gc_ref(&a);
    assert_eq!(t.fill(&mut store, 0, TableElement::GcRef(Some(ra)), 3), Ok(()));
    assert_eq!(store.as_ref().unwrap().ref_count(&a), 3);
    let rb = store.as_mut().unwrap().clone_gc_ref(&b);
    assert_eq!(t.fill(&mut store, 1, TableElement::GcRef(Some(rb)), 3), Ok(()));
    assert_eq!(store.as_ref().unwrap().ref_count(&a), 1);
    assert_eq!(store.as_ref().unwrap().ref_count(&b), 3);
    assert_eq!(count_in(&t, a, &mut store), 1);
    assert_eq!(count_in(&t, b, &mut store), 3);

    // [a, b, b, b] -> [b, b, b, b]
    assert_eq!(t.copy_within(&mut store, 0, 1, 3), Ok(()));
    assert_eq!(store.as_ref().unwrap().ref_count(&a), 0);
    assert_eq!(store.as_ref().unwrap().ref_count(&b), 4);

    assert_eq!(Table::copy(&mut store, &mut u, &t, 1, 0, 2), Ok(()));
    assert_eq!(store.as_ref().unwrap().ref_count(&b), 6);
    assert_eq!(Table::copy(&mut store, &mut u, &t, 3, 0, 2), Err(Trap::TableOutOfBounds));

    let ra = store.as_mut().unwrap().clone_gc_ref(&a);
    let mut limiter = Recorder::default();
    assert_eq!(t.grow(2, TableElement::GcRef(Some(ra)), &mut store, &mut limiter), Ok(Some(4)));
    assert_eq!(store.as_ref().unwrap().ref_count(&a), 2);
    assert_eq!(count_in(&t, a, &mut store), 2);
    assert_eq!(count_in(&t, b, &mut store) + count_in(&u, b, &mut store), 6);

    // A clone handed out by a read is one more retain until it is dropped.
    let got = t.get(&mut store, 4).unwrap();
    assert_eq!(store.as_ref().unwrap().ref_count(&a), 3);
    if let TableElement::GcRef(Some(x)) = got {
        store.as_mut().unwrap().drop_gc_ref(x);
    }
    assert_eq!(store.as_ref().unwrap().ref_count(&a), 2);
}

#[test]
fn gc_overwrite_with_null_releases() {
    let mut t = dynamic(HeapTopType::Any, 2, None, false);
    let mut store = Some(GcStore::new());
    let a = gc(6);
    let ra = store.as_mut().unwrap().clone_gc_ref(&a);
    t.fill(&mut store, 0, TableElement::GcRef(Some(ra)), 2).unwrap();
    assert_eq!(store.as_ref().unwrap().ref_count(&a), 2);
    t.fill(&mut store, 0, TableElement::GcRef(None), 1).unwrap();
    assert_eq!(store.as_ref().unwrap().ref_count(&a), 1);
    assert_eq!(t.get(&mut None, 0), Some(TableElement::GcRef(None)));
}

#[test]
fn unboxed_integers_need_no_store() {
    let mut t = dynamic(HeapTopType::Any, 3, None, false);
    let i = gc(7);
    assert!(i.is_i31());
    assert!(!gc(8).is_i31());
    assert_eq!(i.copy_i31(), i);
    assert_eq!(t.fill(&mut None, 0, TableElement::GcRef(Some(i)), 3), Ok(()));
    assert_eq!(t.get(&mut None, 2), Some(TableElement::GcRef(Some(i))));
    let mut store = Some(GcStore::new());
    assert_eq!(t.get(&mut store, 1), Some(TableElement::GcRef(Some(i))));
    assert_eq!(store.as_ref().unwrap().ref_count(&i), 0);
}

#[test]
fn continuation_tables() {
    let mut t = dynamic(HeapTopType::Cont, 3, None, false);
    let c = ContObj { contref: 0x900, revision: 4 };
    assert_eq!(t.fill(&mut None, 1, TableElement::ContRef(Some(c)), 2), Ok(()));
    assert_eq!(t.get(&mut None, 2), Some(TableElement::ContRef(Some(c))));
    assert_eq!(t.copy_within(&mut None, 0, 1, 1), Ok(()));
    assert_eq!(t.get(&mut None, 0), Some(TableElement::ContRef(Some(c))));
    let mut u = dynamic(HeapTopType::Cont, 2, None, false);
    assert_eq!(Table::copy(&mut None, &mut u, &t, 0, 1, 2), Ok(()));
    assert_eq!(u.get(&mut None, 1), Some(TableElement::ContRef(Some(c))));
    assert_eq!(u.set(0, TableElement::ContRef(None)), Ok(()));
    assert_eq!(u.get(&mut None, 0), Some(TableElement::ContRef(None)));
}

#[test]
fn func_copy_between_tables() {
    let mut a = dynamic(HeapTopType::Func, 3, None, true);
    let mut b = dynamic(HeapTopType::Func, 3, None, true);
    a.init_func(0, &[Some(0x10), None, Some(0x30)]).unwrap();
    assert_eq!(Table::copy(&mut None, &mut b, &a, 1, 1, 2), Ok(()));
    assert_eq!(func(&b, 0), Some(TableElement::UninitFunc));
    assert_eq!(func(&b, 1), Some(TableElement::FuncRef(None)));
    assert_eq!(func(&b, 2), Some(TableElement::FuncRef(Some(0x30))));
}

#[test]
fn element_kinds_and_sizes() {
    let word = std::mem::size_of::<usize>();
    assert_eq!(TableElementType::Func.element_size(), word);
    assert_eq!(TableElementType::GcRef.element_size(), 4);
    assert_eq!(TableElementType::Cont.element_size(), std::mem::size_of::<ContObj>());
    assert_eq!(TableElementType::Cont.element_size(), 16);
    assert_eq!(TableElementType::GcRef.element_align(), 4);
    assert_eq!(TableElementType::Func.element_align(), std::mem::align_of::<usize>());
    assert!(TableElementType::Func.matches(&TableElement::FuncRef(None)));
    assert!(!TableElementType::Func.matches(&TableElement::UninitFunc));
    assert!(!TableElementType::Cont.matches(&TableElement::GcRef(None)));
    assert_eq!(wasm_to_table_type(HeapTopType::Func), TableElementType::Func);
    assert_eq!(wasm_to_table_type(HeapTopType::Extern), TableElementType::GcRef);
    assert_eq!(wasm_to_table_type(HeapTopType::Cont), TableElementType::Cont);
    assert_eq!(TableElement::FuncRef(Some(8)).into_func_ref_asserting_initialized(), Some(8));
    assert_eq!(TableElement::from(Some(gc(3))), TableElement::GcRef(Some(gc(3))));
    assert_eq!(TableElement::from(gc(3)), TableElement::GcRef(Some(gc(3))));
    assert_eq!(TableElement::from(Some(16usize)), TableElement::FuncRef(Some(16)));
    assert_eq!(GcRef::from_raw(0), None);
    let t = dynamic(HeapTopType::Func, 1, None, false);
    assert!(t.type_matches(&TableElement::FuncRef(None)));
    assert!(!t.type_matches(&TableElement::GcRef(None)));
}

#[test]
fn grow_step_decisions() {
    assert_eq!(grow_step(None, None, true), GrowStep::Fail(GrowFailure::SizeOverflow));
    assert_eq!(grow_step(Some(4), Some(5), false), GrowStep::Refused);
    assert_eq!(grow_step(Some(6), Some(5), true), GrowStep::Fail(GrowFailure::MaximumExceeded));
    assert_eq!(grow_step(Some(5), Some(5), true), GrowStep::Commit(5));
    assert_eq!(grow_step(Some(9), None, true), GrowStep::Commit(9));
    assert_eq!(index_to_usize(7), Some(7));
}

#[test]
fn default_table_is_empty_and_fixed() {
    let mut t = Table::default();
    assert_eq!(t.size(), 0);
    assert_eq!(t.maximum(), Some(0));
    assert_eq!(t.element_type(), TableElementType::Func);
    let mut limiter = Recorder::default();
    assert_eq!(t.grow(1, TableElement::FuncRef(None), &mut None, &mut limiter), Ok(None));
}

#[test]
fn nominal_slot_size_is_the_larger_of_func_and_gc() {
    let word = std::mem::size_of::<usize>();
    assert_eq!(wasm_table::element::nominal_max_table_elem_size(), word.max(4));
}

#[test]
fn creation_request_and_answer() {
    let t = ty(HeapTopType::Func, 2, Some(5));
    assert_eq!(creation_request(&t), (2, Some(5)));
    let t64 = TableType { ref_top: HeapTopType::Any, min: 1, max: None, idx64: true };
    assert_eq!(creation_request(&t64), (1, index_to_usize(u64::MAX)));
    assert_eq!(creation_request(&ty(HeapTopType::Any, 0, None)), (0, Some(u32::MAX as usize)));
    assert_eq!(creation_limits(&t, Ok(true)), Ok((2, Some(5))));
    assert_eq!(creation_limits(&t, Ok(false)), Err(TableError::MinimumExceedsLimits));
    assert_eq!(
        creation_limits(&t, Err(HostError { code: 4 })),
        Err(TableError::Host(HostError { code: 4 }))
    );
}

#[test]
fn building_after_the_limiter_agreed() {
    let t = ty(HeapTopType::Func, 2, Some(5));
    let lazy = Tunables { table_lazy_init: true };
    let d = Table::new_dynamic_in(&t, &lazy, 2, Some(5));
    assert_eq!(d.size(), 2);
    assert_eq!(d.maximum(), Some(5));
    assert_eq!(func(&d, 1), Some(TableElement::UninitFunc));
    let g = ty(HeapTopType::Any, 4, None);
    let eager = Tunables { table_lazy_init: false };
    let region = TableMemory { base: 0x40, len: 16 };
    let s = Table::new_static_in(&g, &eager, region, 4, Some(u32::MAX as usize)).unwrap();
    assert_eq!(s.size(), 4);
    assert_eq!(s.maximum(), Some(4));
    let g5 = ty(HeapTopType::Any, 5, None);
    assert!(matches!(
        Table::new_static_in(&g5, &eager, region, 5, Some(u32::MAX as usize)),
        Err(TableError::MinimumExceedsCapacity)
    ));
}

#[test]
fn grow_with_follows_the_decision() {
    let mut t = dynamic(HeapTopType::Func, 2, Some(5), false);
    let null = TableElement::FuncRef(None);
    assert_eq!(t.grow_with(2, null, &mut None, Some(4), false), Ok(None));
    assert_eq!(t.size(), 2);
    assert_eq!(t.grow_with(4, null, &mut None, Some(6), true), Err(GrowFailure::MaximumExceeded));
    assert_eq!(t.size(), 2);
    assert_eq!(t.grow_with(3, TableElement::FuncRef(Some(0x10)), &mut None, Some(5), true), Ok(Some(2)));
    assert_eq!(t.size(), 5);
    assert_eq!(func(&t, 4), Some(TableElement::FuncRef(Some(0x10))));
}

#[test]
fn gc_copy_onto_itself_needs_no_store() {
    let mut t = dynamic(HeapTopType::Any, 3, None, false);
    let mut store = Some(GcStore::new());
    let a = gc(8);
    let ra = store.as_mut().unwrap().clone_gc_ref(&a);
    t.fill(&mut store, 1, TableElement::GcRef(Some(ra)), 1).unwrap();
    assert_eq!(t.copy_within(&mut None, 1, 1, 2), Ok(()));
    assert_eq!(store.as_ref().unwrap().ref_count(&a), 1);
    assert_eq!(t.get(&mut store, 1), Some(TableElement::GcRef(Some(a))));
}
