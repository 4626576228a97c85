//! What goes into and comes out of a table slot, and the tagged encoding of
//! function references at rest.
use vstd::prelude::*;

verus! {

/// Relies on `wasmtime_environ::FUNCREF_INIT_BIT`, the low bit that marks an
/// explicitly written slot of a lazily initialised function table: it is 1.
#[verifier::external_body]
fn funcref_init_bit() -> (r: usize)
    ensures
        r == 1,
{
    wasmtime_environ::FUNCREF_INIT_BIT
}

/// Relies on `wasmtime_environ::FUNCREF_MASK`, the mask applied to every
/// function reference read from a table: every bit but the lowest.
#[verifier::external_body]
fn funcref_mask() -> (r: usize)
    ensures
        r == !1usize,
{
    wasmtime_environ::FUNCREF_MASK
}

/// A reference to a garbage-collected object, or an unboxed 31-bit integer
/// (low bit set) that needs no reference counting. Its raw bits are never
/// zero: a slot stores no reference as zero.
#[derive(Clone, Copy, PartialEq, Eq, Structural, Debug)]
pub struct GcRef {
    pub raw: u32,
}

impl GcRef {
    pub open spec fn spec_is_i31(&self) -> bool {
        self.raw % 2 == 1
    }

    /// Makes a reference from its raw bits; zero is no reference.
    pub fn from_raw(raw: u32) -> (r: Option<GcRef>)
        ensures
            r == (if raw == 0 { None } else { Some(GcRef { raw }) }),
    {
        if raw == 0 {
            None
        } else {
            Some(GcRef { raw })
        }
    }

    /// Whether this is an unboxed integer rather than a heap object.
    #[verifier::when_used_as_spec(spec_is_i31)]
    pub fn is_i31(&self) -> (r: bool)
        ensures
            r == self.spec_is_i31(),
    {
        self.raw % 2 == 1
    }

    /// Copies an unboxed integer reference, which needs no retain.
    pub fn copy_i31(&self) -> (r: GcRef)
        requires
            self.spec_is_i31(),
        ensures
            r == *self,
    {
        GcRef { raw: self.raw }
    }
}

/// A reference to a suspended continuation: the address of its record,
/// never zero, and the revision that the reference was taken at. A slot of
/// a continuation table holds one of these, with a zero address for none.
#[derive(Clone, Copy, PartialEq, Eq, Structural, Debug)]
pub struct ContObj {
    pub contref: usize,
    pub revision: u64,
}

/// An element going into or coming out of a table.
///
/// A function reference is the address of its function record, which is
/// nonzero and at least 2-aligned.
#[derive(Clone, Copy, PartialEq, Eq, Structural, Debug)]
pub enum TableElement {
    /// A `funcref`.
    FuncRef(Option<usize>),
    /// A GC reference.
    GcRef(Option<GcRef>),
    /// A function slot of a lazily initialised table that was never written;
    /// it never leaves the table layer that resolves it.
    UninitFunc,
    /// A `contref`.
    ContRef(Option<ContObj>),
}

/// The kind of elements a table holds, fixed for its lifetime.
#[derive(Clone, Copy, PartialEq, Eq, Structural, Debug)]
pub enum TableElementType {
    Func,
    GcRef,
    Cont,
}

/// An address that may stand in a function slot: nonzero, with its low bit
/// free for the tag.
pub open spec fn valid_func_addr(a: usize) -> bool {
    a != 0 && a % 2 == 0
}

/// An element that a table may be handed.
pub open spec fn valid_element(e: TableElement) -> bool {
    match e {
        TableElement::FuncRef(Some(a)) => valid_func_addr(a),
        TableElement::GcRef(Some(x)) => x.raw != 0,
        TableElement::ContRef(Some(c)) => c.contref != 0,
        _ => true,
    }
}

pub open spec fn kind_accepts(k: TableElementType, e: TableElement) -> bool {
    match k {
        TableElementType::Func => e is FuncRef || e is UninitFunc,
        TableElementType::GcRef => e is GcRef,
        TableElementType::Cont => e is ContRef,
    }
}

/// The byte size of one slot of each kind, which is the stride of a
/// table's slot buffer: a machine word (`FuncTableElem`), a 32-bit handle
/// (`GcTableElem`), a `ContObj`.
pub open spec fn spec_element_size(k: TableElementType) -> nat {
    match k {
        TableElementType::Func => vstd::layout::size_of::<FuncTableElem>(),
        TableElementType::GcRef => vstd::layout::size_of::<GcTableElem>(),
        TableElementType::Cont => vstd::layout::size_of::<ContObj>(),
    }
}

impl TableElementType {
    /// Whether `val` is a value of this kind (the lazy-init marker is not).
    pub fn matches(&self, val: &TableElement) -> (r: bool)
        ensures
            r == match (*val, *self) {
                (TableElement::FuncRef(_), TableElementType::Func) => true,
                (TableElement::GcRef(_), TableElementType::GcRef) => true,
                (TableElement::ContRef(_), TableElementType::Cont) => true,
                _ => false,
            },
    {
        match (val, self) {
            (TableElement::FuncRef(_), TableElementType::Func) => true,
            (TableElement::GcRef(_), TableElementType::GcRef) => true,
            (TableElement::ContRef(_), TableElementType::Cont) => true,
            _ => false,
        }
    }

    /// Returns the alignment a region needs to hold elements of this type.
    pub fn element_align(&self) -> (r: usize)
        ensures
            r == element_align(*self),
    {
        match self {
            TableElementType::Func => core::mem::align_of::<FuncTableElem>(),
            TableElementType::GcRef => core::mem::align_of::<GcTableElem>(),
            TableElementType::Cont => core::mem::align_of::<ContObj>(),
        }
    }

    /// Returns the size required to store one element of this type: the
    /// stride of the slot buffer whose address `Table::vmtable` reports for
    /// a dynamic table.
    pub fn element_size(&self) -> (r: usize)
        ensures
            r == spec_element_size(*self),
    {
        match self {
            TableElementType::Func => core::mem::size_of::<FuncTableElem>(),
            TableElementType::GcRef => core::mem::size_of::<GcTableElem>(),
            TableElementType::Cont => core::mem::size_of::<ContObj>(),
        }
    }
}

impl TableElement {
    /// The function reference this element carries, as it exists outside
    /// the table.
    pub fn into_func_ref_asserting_initialized(self) -> (r: Option<usize>)
        requires
            self is FuncRef,
        ensures
            r == self->FuncRef_0,
    {
        match self {
            TableElement::FuncRef(e) => e,
            _ => vstd::pervasive::unreached(),
        }
    }

    /// Whether this is the "uninitialised element" marker.
    pub fn is_uninit(&self) -> (r: bool)
        ensures
            r == (*self is UninitFunc),
    {
        match self {
            TableElement::UninitFunc => true,
            _ => false,
        }
    }
}

impl From<Option<usize>> for TableElement {
    fn from(f: Option<usize>) -> (r: TableElement)
        ensures
            r == TableElement::FuncRef(f),
    {
        TableElement::FuncRef(f)
    }
}

impl vstd::std_specs::convert::FromSpecImpl<Option<usize>> for TableElement {
    open spec fn obeys_from_spec() -> bool {
        true
    }

    open spec fn from_spec(f: Option<usize>) -> TableElement {
        TableElement::FuncRef(f)
    }
}

impl From<Option<GcRef>> for TableElement {
    fn from(x: Option<GcRef>) -> (r: TableElement)
        ensures
            r == TableElement::GcRef(x),
    {
        TableElement::GcRef(x)
    }
}

impl vstd::std_specs::convert::FromSpecImpl<Option<GcRef>> for TableElement {
    open spec fn obeys_from_spec() -> bool {
        true
    }

    open spec fn from_spec(x: Option<GcRef>) -> TableElement {
        TableElement::GcRef(x)
    }
}

impl From<GcRef> for TableElement {
    fn from(x: GcRef) -> (r: TableElement)
        ensures
            r == TableElement::GcRef(Some(x)),
    {
        TableElement::GcRef(Some(x))
    }
}

impl vstd::std_specs::convert::FromSpecImpl<GcRef> for TableElement {
    open spec fn obeys_from_spec() -> bool {
        true
    }

    open spec fn from_spec(x: GcRef) -> TableElement {
        TableElement::GcRef(Some(x))
    }
}

impl From<Option<ContObj>> for TableElement {
    fn from(c: Option<ContObj>) -> (r: TableElement)
        ensures
            r == TableElement::ContRef(c),
    {
        TableElement::ContRef(c)
    }
}

impl vstd::std_specs::convert::FromSpecImpl<Option<ContObj>> for TableElement {
    open spec fn obeys_from_spec() -> bool {
        true
    }

    open spec fn from_spec(c: Option<ContObj>) -> TableElement {
        TableElement::ContRef(c)
    }
}

impl From<ContObj> for TableElement {
    fn from(c: ContObj) -> (r: TableElement)
        ensures
            r == TableElement::ContRef(Some(c)),
    {
        TableElement::ContRef(Some(c))
    }
}

impl vstd::std_specs::convert::FromSpecImpl<ContObj> for TableElement {
    open spec fn obeys_from_spec() -> bool {
        true
    }

    open spec fn from_spec(c: ContObj) -> TableElement {
        TableElement::ContRef(Some(c))
    }
}

/// The at-rest word of a function slot; zero is no value.
pub type FuncTableElem = usize;

/// The at-rest word of a GC reference slot: the reference's raw bits, zero
/// for none.
pub type GcTableElem = u32;

/// The at-rest word a function reference is stored as.
///
/// Without lazy initialisation the word is the reference's address, zero
/// for null. With it, zero means "never written", an explicit null is the
/// bare tag bit, and a reference carries the tag bit in its low bit.
pub open spec fn encode_func(ptr: Option<usize>, lazy_init: bool) -> FuncTableElem {
    match ptr {
        Some(a) => if lazy_init {
            a | 1usize
        } else {
            a
        },
        None => if lazy_init {
            1usize
        } else {
            0usize
        },
    }
}

/// The element a function slot's word reads back as.
pub open spec fn decode_func(word: FuncTableElem, lazy_init: bool) -> TableElement {
    if word == 0 {
        if lazy_init {
            TableElement::UninitFunc
        } else {
            TableElement::FuncRef(None)
        }
    } else if word & !1usize == 0 {
        TableElement::FuncRef(None)
    } else {
        TableElement::FuncRef(Some(word & !1usize))
    }
}

/// The reference a GC slot's word holds.
pub open spec fn gc_from_word(w: GcTableElem) -> Option<GcRef> {
    if w == 0 {
        None
    } else {
        Some(GcRef { raw: w })
    }
}

/// The word a GC reference is stored as.
pub open spec fn gc_to_word(r: Option<GcRef>) -> GcTableElem {
    match r {
        Some(x) => x.raw,
        None => 0,
    }
}

/// The continuation a continuation slot holds: none when its record
/// address is zero.
pub open spec fn cont_from_slot(c: ContObj) -> Option<ContObj> {
    if c.contref == 0 {
        None
    } else {
        Some(c)
    }
}

/// The slot a continuation reference is stored as.
pub open spec fn cont_to_slot(c: Option<ContObj>) -> ContObj {
    match c {
        Some(x) => x,
        None => ContObj { contref: 0, revision: 0 },
    }
}

impl GcRef {
    /// The reference a GC slot's word holds.
    pub fn from_word(w: GcTableElem) -> (r: Option<GcRef>)
        ensures
            r == gc_from_word(w),
    {
        if w == 0 {
            None
        } else {
            Some(GcRef { raw: w })
        }
    }

    /// The word a GC reference is stored as.
    pub fn to_word(r: Option<GcRef>) -> (w: GcTableElem)
        ensures
            w == gc_to_word(r),
    {
        match r {
            Some(x) => x.raw,
            None => 0,
        }
    }
}

impl ContObj {
    /// The continuation a continuation slot holds.
    pub fn from_slot(c: ContObj) -> (r: Option<ContObj>)
        ensures
            r == cont_from_slot(c),
    {
        if c.contref == 0 {
            None
        } else {
            Some(c)
        }
    }

    /// The slot a continuation reference is stored as.
    pub fn to_slot(c: Option<ContObj>) -> (r: ContObj)
        ensures
            r == cont_to_slot(c),
    {
        match c {
            Some(x) => x,
            None => ContObj { contref: 0, revision: 0 },
        }
    }
}

/// A tagged (or, without lazy initialisation, plain) function slot word.
/// Only `from` makes one and only `into_table_element` reads one.
#[derive(Clone, Copy)]
pub struct MaybeTaggedFuncRef(pub FuncTableElem);

impl MaybeTaggedFuncRef {
    /// The word of a slot that was never written.
    pub fn uninit() -> (r: MaybeTaggedFuncRef)
        ensures
            r.0 == 0,
    {
        MaybeTaggedFuncRef(0)
    }

    /// Tags `ptr` for a table with or without lazy initialisation.
    pub fn from(ptr: Option<usize>, lazy_init: bool) -> (r: MaybeTaggedFuncRef)
        ensures
            r.0 == encode_func(ptr, lazy_init),
    {
        let word = if lazy_init {
            let bit = funcref_init_bit();
            match ptr {
                Some(a) => a | bit,
                None => bit,
            }
        } else {
            match ptr {
                Some(a) => a,
                None => 0,
            }
        };
        MaybeTaggedFuncRef(word)
    }

    /// Reads the word back as a table element, stripping the tag bit.
    pub fn into_table_element(self, lazy_init: bool) -> (r: TableElement)
        ensures
            r == decode_func(self.0, lazy_init),
    {
        let w = self.0;
        if w == 0 {
            if lazy_init {
                TableElement::UninitFunc
            } else {
                TableElement::FuncRef(None)
            }
        } else {
            let a = w & funcref_mask();
            if a == 0 {
                TableElement::FuncRef(None)
            } else {
                TableElement::FuncRef(Some(a))
            }
        }
    }
}

/// Writing a valid reference and reading it back gives the same reference,
/// with no tag bit; an explicit null reads back as null.
pub proof fn lemma_func_round_trip(ptr: Option<usize>, lazy_init: bool)
    requires
        ptr matches Some(a) ==> valid_func_addr(a),
    ensures
        decode_func(encode_func(ptr, lazy_init), lazy_init) == TableElement::FuncRef(ptr),
{
    match ptr {
        Some(a) => {
            assert((a | 1usize) & !1usize == a && a & !1usize == a && (a | 1usize) != 0)
                by (bit_vector)
                requires
                    a % 2 == 0,
            ;
        },
        None => {
            assert(1usize & !1usize == 0) by (bit_vector);
        },
    }
}

/// The largest slot size among function and GC reference tables, which a
/// pool sizes its table regions by (continuation tables are left out).
pub fn nominal_max_table_elem_size() -> (r: usize)
    ensures
        r == if spec_element_size(TableElementType::Func) >= spec_element_size(
            TableElementType::GcRef,
        ) {
            spec_element_size(TableElementType::Func)
        } else {
            spec_element_size(TableElementType::GcRef)
        },
{
    let func = TableElementType::Func.element_size();
    let gc = TableElementType::GcRef.element_size();
    if func >= gc {
        func
    } else {
        gc
    }
}

/// The top of a reference type's heap-type hierarchy.
#[derive(Clone, Copy, PartialEq, Eq, Structural, Debug)]
pub enum HeapTopType {
    Extern,
    Any,
    Func,
    Exn,
    Cont,
}

/// Function references go in function tables, continuations in
/// continuation tables, and every other reference in GC tables.
pub open spec fn spec_table_type(top: HeapTopType) -> TableElementType {
    match top {
        HeapTopType::Func => TableElementType::Func,
        HeapTopType::Cont => TableElementType::Cont,
        _ => TableElementType::GcRef,
    }
}

/// The alignment a region needs to hold slots of each kind.
pub open spec fn element_align(k: TableElementType) -> nat {
    match k {
        TableElementType::Func => vstd::layout::align_of::<FuncTableElem>(),
        TableElementType::GcRef => vstd::layout::align_of::<GcTableElem>(),
        TableElementType::Cont => vstd::layout::align_of::<ContObj>(),
    }
}

/// The element kind of a table whose elements have the given top type.
pub fn wasm_to_table_type(top: HeapTopType) -> (r: TableElementType)
    ensures
        r == spec_table_type(top),
{
    match top {
        HeapTopType::Func => TableElementType::Func,
        HeapTopType::Any | HeapTopType::Extern | HeapTopType::Exn => TableElementType::GcRef,
        HeapTopType::Cont => TableElementType::Cont,
    }
}

} // verus!
