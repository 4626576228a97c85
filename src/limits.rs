//! A table's declared type, the host's growth limiter, and the outcomes of
//! table operations that do not succeed.
use vstd::prelude::*;
use crate::element::HeapTopType;

verus! {

/// The declared type of a table: what its elements are, its limits in
/// elements, and whether it is indexed by 64-bit values.
#[derive(Clone, Copy, PartialEq, Eq, Structural, Debug)]
pub struct TableType {
    pub ref_top: HeapTopType,
    pub min: u64,
    pub max: Option<u64>,
    pub idx64: bool,
}

impl TableType {
    /// The limits of a validated type: the minimum is within the maximum.
    pub open spec fn wf(&self) -> bool {
        &&& self.max matches Some(m) ==> self.min <= m
        &&& !self.idx64 ==> self.min <= u32::MAX
    }

    /// The most elements a table of this type may hold: its declared
    /// maximum, else the largest index its index type can express, as long
    /// as that fits in a machine word.
    pub open spec fn spec_maximum(&self) -> Option<usize> {
        match self.max {
            Some(m) => spec_to_usize(m),
            None => if self.idx64 {
                spec_to_usize(u64::MAX)
            } else {
                spec_to_usize(u32::MAX as u64)
            },
        }
    }
}

/// A region of memory that a pool reserved for one table: its base address
/// and its length in bytes.
#[derive(Clone, Copy, PartialEq, Eq, Structural, Debug)]
pub struct TableMemory {
    pub base: usize,
    pub len: usize,
}

/// What a growth request comes to once the limiter has answered.
#[derive(Clone, Copy, PartialEq, Eq, Structural, Debug)]
pub enum GrowStep {
    /// The limiter refused; nothing is reported.
    Refused,
    /// The request fails, and the limiter is told why.
    Fail(GrowFailure),
    /// The table grows to this size.
    Commit(usize),
}

/// What a growth request to `new_size` (`None`: the size overflowed)
/// comes to, given whether the limiter authorized it.
pub open spec fn spec_grow_step(new_size: Option<usize>, maximum: Option<usize>, authorized: bool) -> GrowStep {
    match new_size {
        None => GrowStep::Fail(GrowFailure::SizeOverflow),
        Some(n) => if !authorized {
            GrowStep::Refused
        } else if maximum matches Some(m) && n > m {
            GrowStep::Fail(GrowFailure::MaximumExceeded)
        } else {
            GrowStep::Commit(n)
        },
    }
}

/// Decides a growth request to `new_size` (`None`: the size overflowed)
/// given whether the limiter authorized it.
pub fn grow_step(new_size: Option<usize>, maximum: Option<usize>, authorized: bool) -> (r: GrowStep)
    ensures
        r == spec_grow_step(new_size, maximum, authorized),
{
    match new_size {
        None => GrowStep::Fail(GrowFailure::SizeOverflow),
        Some(n) => {
            if !authorized {
                GrowStep::Refused
            } else {
                match maximum {
                    Some(m) => if n > m {
                        GrowStep::Fail(GrowFailure::MaximumExceeded)
                    } else {
                        GrowStep::Commit(n)
                    },
                    None => GrowStep::Commit(n),
                }
            }
        },
    }
}

/// What the limiter is asked before a table of type `ty` is created: its
/// minimum (the largest machine word when the minimum does not fit one)
/// and its maximum.
pub open spec fn spec_creation_request(ty: TableType) -> (usize, Option<usize>) {
    (
        match spec_to_usize(ty.min) {
            Some(m) => m,
            None => usize::MAX,
        },
        ty.spec_maximum(),
    )
}

/// Builds the request put to the limiter before a table of type `ty` is
/// created.
pub fn creation_request(ty: &TableType) -> (r: (usize, Option<usize>))
    ensures
        r == spec_creation_request(*ty),
{
    let minimum = match index_to_usize(ty.min) {
        Some(m) => m,
        // Whatever the declared limits, a table is bounded by the host's
        // address width.
        None => usize::MAX,
    };
    let maximum = match ty.max {
        Some(max) => index_to_usize(max),
        None => if ty.idx64 {
            index_to_usize(u64::MAX)
        } else {
            index_to_usize(u32::MAX as u64)
        },
    };
    (minimum, maximum)
}

/// The limits a table of type `ty` is created with, given the limiter's
/// answer to the creation request: a refusal or a host error fails, and so,
/// once the limiter has been told, does a minimum that fits no machine word.
pub open spec fn spec_creation_limits(ty: TableType, answer: Result<bool, HostError>) -> Result<
    (usize, Option<usize>),
    TableError,
> {
    match answer {
        Err(e) => Err(TableError::Host(e)),
        Ok(false) => Err(TableError::MinimumExceedsLimits),
        Ok(true) => match spec_to_usize(ty.min) {
            Some(m) => Ok((m, ty.spec_maximum())),
            None => Err(TableError::MinimumExceedsLimits),
        },
    }
}

/// Decides the limits of a new table of type `ty` from the limiter's answer.
pub fn creation_limits(ty: &TableType, answer: Result<bool, HostError>) -> (r: Result<
    (usize, Option<usize>),
    TableError,
>)
    ensures
        r == spec_creation_limits(*ty, answer),
{
    match answer {
        Err(e) => Err(TableError::Host(e)),
        Ok(false) => Err(TableError::MinimumExceedsLimits),
        Ok(true) => {
            let (_, maximum) = creation_request(ty);
            match index_to_usize(ty.min) {
                Some(m) => Ok((m, maximum)),
                None => Err(TableError::MinimumExceedsLimits),
            }
        },
    }
}

/// The engine settings a table reads.
#[derive(Clone, Copy, PartialEq, Eq, Structural, Debug)]
pub struct Tunables {
    /// Whether function tables are filled lazily on first read.
    pub table_lazy_init: bool,
}

/// A trap mandated by WebAssembly.
#[derive(Clone, Copy, PartialEq, Eq, Structural, Debug)]
pub enum Trap {
    /// An index or a range lies outside the table.
    TableOutOfBounds,
}

/// An error the host's limiter raised; it carries the host's own code.
#[derive(Clone, Copy, PartialEq, Eq, Structural, Debug)]
pub struct HostError {
    pub code: u64,
}

/// Why a growth request failed, as reported to the limiter.
#[derive(Clone, Copy, PartialEq, Eq, Structural, Debug)]
pub enum GrowFailure {
    /// The new size does not fit in a machine word.
    SizeOverflow,
    /// The new size exceeds the table's maximum.
    MaximumExceeded,
}

/// Why a table could not be created or grown.
#[derive(Clone, Copy, PartialEq, Eq, Structural, Debug)]
pub enum TableError {
    /// The limiter refused the minimum, or the minimum does not fit in a
    /// machine word.
    MinimumExceedsLimits,
    /// The minimum exceeds the slots the pool's region has room for.
    MinimumExceedsCapacity,
    /// A delta or index does not fit in a machine word.
    Trap(Trap),
    /// The limiter itself failed.
    Host(HostError),
}

/// The host's authority over table sizes.
pub trait Limiter {
    /// Asked before a table is created (`current` is 0) or grown; `false`
    /// refuses quietly.
    fn table_growing(&mut self, current: usize, desired: usize, maximum: Option<usize>) -> Result<
        bool,
        HostError,
    >;

    /// Told that a growth request failed; an error makes the failure fatal.
    fn table_grow_failed(&mut self, failure: GrowFailure) -> Result<(), HostError>;
}

/// `x` as a machine word, when it fits.
pub open spec fn spec_to_usize(x: u64) -> Option<usize> {
    if x <= usize::MAX {
        Some(x as usize)
    } else {
        None
    }
}

/// Normalises a 32- or 64-bit table index to a machine word, when it fits.
pub fn index_to_usize(x: u64) -> (r: Option<usize>)
    ensures
        r == spec_to_usize(x),
{
    if x <= usize::MAX as u64 {
        Some(x as usize)
    } else {
        None
    }
}

} // verus!
