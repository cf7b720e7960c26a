use vstd::prelude::*;

verus! {

/// Why a construction step failed.
#[derive(Clone, Copy, Debug, PartialEq, Eq, Structural)]
pub enum Cause {
    /// The system call failed with this `errno`.
    Os(i32),
    /// The kernel's answer does not describe a usable ring.
    Layout,
}

/// The errors of ring construction.
#[derive(Clone, Copy, Debug, PartialEq, Eq, Structural)]
pub enum RingError {
    /// The kernel resource could not be created or is unusable.
    Resource(Cause),
    /// A region could not be mapped, or its layout does not fit the mapping.
    Mapping(Cause),
}

} // verus!
