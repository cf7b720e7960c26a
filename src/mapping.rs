use vstd::prelude::*;
use linux_io_uring_sys as sys;

verus! {

/// The three regions of a ring that the kernel lets a process map.
#[derive(Clone, Copy, Debug, PartialEq, Eq, Structural)]
pub enum Region {
    /// Head, tail, mask, size, flags and dropped count of the submission ring,
    /// followed by its indirection array.
    SqRing,
    /// The submission entries.
    Sqes,
    /// The completion ring's words followed by its entries.
    CqRing,
}

/// Relies on `linux_io_uring_sys::IORING_OFF_SQ_RING`, the mmap offset of the SQ ring (0).
#[verifier::external_body]
fn off_sq_ring() -> (r: u64)
    ensures
        r == 0,
{
    sys::IORING_OFF_SQ_RING as u64
}

/// Relies on `linux_io_uring_sys::IORING_OFF_CQ_RING`, the mmap offset of the CQ ring (0x8000000).
#[verifier::external_body]
fn off_cq_ring() -> (r: u64)
    ensures
        r == 0x8000000,
{
    sys::IORING_OFF_CQ_RING as u64
}

/// Relies on `linux_io_uring_sys::IORING_OFF_SQES`, the mmap offset of the entries (0x10000000).
#[verifier::external_body]
fn off_sqes() -> (r: u64)
    ensures
        r == 0x10000000,
{
    sys::IORING_OFF_SQES as u64
}

impl Region {
    /// The fixed file offset at which the kernel exposes this region.
    pub open spec fn offset_spec(self) -> u64 {
        match self {
            Region::SqRing => 0,
            Region::CqRing => 0x8000000,
            Region::Sqes => 0x10000000,
        }
    }

    /// The offset to hand to `mmap` to map this region.
    pub fn offset(&self) -> (r: u64)
        ensures
            r == self.offset_spec(),
    {
        match self {
            Region::SqRing => off_sq_ring(),
            Region::CqRing => off_cq_ring(),
            Region::Sqes => off_sqes(),
        }
    }
}

/// A mapped region: its start address and its length in bytes.
#[derive(Clone, Copy, Debug, PartialEq, Eq, Structural)]
pub struct Mapping {
    pub region: Region,
    pub base: usize,
    pub len: usize,
}

impl Mapping {
    /// The mapping ends inside the address space.
    pub open spec fn wf(self) -> bool {
        self.base + self.len <= usize::MAX
    }

    /// `width` bytes at `addr` lie wholly inside the mapping.
    pub open spec fn holds(self, addr: int, width: int) -> bool {
        self.base <= addr && addr + width <= self.base + self.len
    }

    /// Whether the mapping ends inside the address space.
    pub fn check_wf(&self) -> (r: bool)
        ensures
            r == self.wf(),
    {
        self.len <= usize::MAX - self.base
    }
}

} // verus!
