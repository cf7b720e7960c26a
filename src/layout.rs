use vstd::prelude::*;
use vstd::arithmetic::power2::{lemma2_to64, lemma_pow2_strictly_increases, lemma_pow2_unfold, pow2};
use linux_io_uring_sys as sys;
use crate::error::{Cause, RingError};

verus! {

/// Width in bytes of every shared ring word (head, tail, mask, ...).
pub const WORD_SIZE: usize = 4;

/// Byte offsets of the submission ring's fields inside the SQ-ring region.
#[derive(Clone, Copy, Debug, PartialEq, Eq, Structural)]
pub struct SqOffsets {
    pub head: u32,
    pub tail: u32,
    pub ring_mask: u32,
    pub ring_entries: u32,
    pub flags: u32,
    pub dropped: u32,
    pub array: u32,
}

/// Byte offsets of the completion ring's fields inside the CQ region.
#[derive(Clone, Copy, Debug, PartialEq, Eq, Structural)]
pub struct CqOffsets {
    pub head: u32,
    pub tail: u32,
    pub ring_mask: u32,
    pub ring_entries: u32,
    pub overflow: u32,
    pub cqes: u32,
}

/// What the kernel reports when it creates a ring: the real entry counts and
/// where each field lies in the shared regions.
#[derive(Clone, Copy, Debug, PartialEq, Eq, Structural)]
pub struct Params {
    pub sq_entries: u32,
    pub cq_entries: u32,
    pub sq_off: SqOffsets,
    pub cq_off: CqOffsets,
}

/// Size in bytes of one submission entry.
pub open spec fn sqe_size_spec() -> nat {
    64
}

/// Size in bytes of one completion entry.
pub open spec fn cqe_size_spec() -> nat {
    16
}

/// Relies on `linux_io_uring_sys::io_uring_sqe`: its layout test states a size of 64 bytes.
#[verifier::external_body]
pub(crate) fn sqe_size() -> (r: usize)
    ensures
        r == sqe_size_spec(),
{
    core::mem::size_of::<sys::io_uring_sqe>()
}

/// Relies on `linux_io_uring_sys::io_uring_cqe`: its layout test states a size of 16 bytes.
#[verifier::external_body]
pub(crate) fn cqe_size() -> (r: usize)
    ensures
        r == cqe_size_spec(),
{
    core::mem::size_of::<sys::io_uring_cqe>()
}

/// `n` is a power of two that a `u32` holds.
pub open spec fn is_pow2(n: int) -> bool {
    exists|k: nat| k < 32 && pow2(k) == n
}

/// Length of the SQ-ring region: the indirection array is its last field.
pub open spec fn sq_ring_len_spec(p: Params) -> int {
    p.sq_off.array + p.sq_entries * WORD_SIZE
}

/// Length of the region that holds the submission entries.
pub open spec fn sqes_len_spec(p: Params) -> int {
    p.sq_entries * sqe_size_spec()
}

/// Length of the CQ region: the completion entries come last.
pub open spec fn cq_ring_len_spec(p: Params) -> int {
    p.cq_off.cqes + p.cq_entries * cqe_size_spec()
}

/// A word at byte offset `off` lies wholly inside a region of `len` bytes.
pub open spec fn word_fits(off: int, len: int) -> bool {
    off + WORD_SIZE <= len
}

/// Every word of the submission ring lies inside its region.
pub open spec fn sq_fields_fit(o: SqOffsets, len: int) -> bool {
    &&& word_fits(o.head as int, len)
    &&& word_fits(o.tail as int, len)
    &&& word_fits(o.ring_mask as int, len)
    &&& word_fits(o.ring_entries as int, len)
    &&& word_fits(o.flags as int, len)
    &&& word_fits(o.dropped as int, len)
}

/// Every word of the completion ring lies inside its region.
pub open spec fn cq_fields_fit(o: CqOffsets, len: int) -> bool {
    &&& word_fits(o.head as int, len)
    &&& word_fits(o.tail as int, len)
    &&& word_fits(o.ring_mask as int, len)
    &&& word_fits(o.ring_entries as int, len)
    &&& word_fits(o.overflow as int, len)
}

/// Both rings hold at least `entries` slots, and their sizes are powers of two.
pub open spec fn entries_valid(p: Params, entries: u32) -> bool {
    &&& is_pow2(p.sq_entries as int)
    &&& is_pow2(p.cq_entries as int)
    &&& p.sq_entries >= entries
    &&& p.cq_entries >= entries
}

/// The three regions fit in the address space and every field lies inside
/// the region it belongs to.
pub open spec fn layout_valid(p: Params) -> bool {
    &&& sq_ring_len_spec(p) <= usize::MAX
    &&& sqes_len_spec(p) <= usize::MAX
    &&& cq_ring_len_spec(p) <= usize::MAX
    &&& sq_fields_fit(p.sq_off, sq_ring_len_spec(p))
    &&& cq_fields_fit(p.cq_off, cq_ring_len_spec(p))
}

/// Whether `n` is a power of two.
pub fn check_pow2(n: u32) -> (r: bool)
    ensures
        r == is_pow2(n as int),
{
    let mut p: u32 = 1;
    let mut k: u32 = 0;
    proof {
        lemma2_to64();
    }
    while p < n && k < 31
        invariant
            k <= 31,
            p as nat == pow2(k as nat),
            forall|j: nat| j < k ==> pow2(j) < n,
        decreases 31 - k,
    {
        proof {
            lemma_pow2_unfold((k + 1) as nat);
            lemma_pow2_strictly_increases(k as nat, 31);
            lemma2_to64();
        }
        p = p * 2;
        k = k + 1;
    }
    if p == n {
        true
    } else {
        proof {
            if p > n {
                assert forall|j: nat| j < 32 implies pow2(j) != n by {
                    if j > k {
                        lemma_pow2_strictly_increases(k as nat, j);
                    }
                }
            } else {
                lemma2_to64();
                assert forall|j: nat| j < 32 implies pow2(j) != n by {}
            }
        }
        false
    }
}

/// The lengths of the three regions that a ring maps.
#[derive(Clone, Copy, Debug, PartialEq, Eq, Structural)]
pub struct RegionLens {
    pub sq_ring: usize,
    pub sqes: usize,
    pub cq_ring: usize,
}

impl RegionLens {
    /// The lengths that the kernel's answer `p` asks for.
    pub open spec fn of(self, p: Params) -> bool {
        &&& self.sq_ring == sq_ring_len_spec(p)
        &&& self.sqes == sqes_len_spec(p)
        &&& self.cq_ring == cq_ring_len_spec(p)
    }
}

/// `off + WORD_SIZE <= len`, computed without overflow.
fn word_fits_exec(off: u32, len: usize) -> (r: bool)
    ensures
        r == word_fits(off as int, len as int),
{
    off as usize <= len && WORD_SIZE <= len - off as usize
}

/// `base + count * size`, or `None` where it exceeds `usize::MAX`.
fn region_len(base: u32, count: u32, size: usize) -> (r: Option<usize>)
    ensures
        match r {
            Some(n) => n == base + count * size,
            None => base + count * size > usize::MAX,
        },
{
    match (count as usize).checked_mul(size) {
        Some(m) => (base as usize).checked_add(m),
        None => {
            proof {
                assert(count * size <= base + count * size) by (nonlinear_arith);
            }
            None
        },
    }
}

impl Params {
    /// Checks the kernel's answer to a request for `entries` slots, and
    /// returns the lengths of the regions to map.
    ///
    /// A ring smaller than asked for, or whose size is no power of two, is a
    /// resource error; a region that does not fit the address space, or a
    /// field outside its region, is a mapping error.
    pub fn check(&self, entries: u32) -> (r: Result<RegionLens, RingError>)
        ensures
            !entries_valid(*self, entries) ==> r == Err::<RegionLens, RingError>(
                RingError::Resource(Cause::Layout),
            ),
            entries_valid(*self, entries) && !layout_valid(*self) ==> r == Err::<
                RegionLens,
                RingError,
            >(RingError::Mapping(Cause::Layout)),
            entries_valid(*self, entries) && layout_valid(*self) ==> (r matches Ok(l) && l.of(
                *self,
            )),
    {
        if !(check_pow2(self.sq_entries) && check_pow2(self.cq_entries)
            && self.sq_entries >= entries && self.cq_entries >= entries) {
            return Err(RingError::Resource(Cause::Layout));
        }
        let mapping_err = RingError::Mapping(Cause::Layout);
        let sq_ring = match region_len(self.sq_off.array, self.sq_entries, WORD_SIZE) {
            Some(n) => n,
            None => return Err(mapping_err),
        };
        let sqes = match region_len(0, self.sq_entries, sqe_size()) {
            Some(n) => n,
            None => return Err(mapping_err),
        };
        let cq_ring = match region_len(self.cq_off.cqes, self.cq_entries, cqe_size()) {
            Some(n) => n,
            None => return Err(mapping_err),
        };
        let o = self.sq_off;
        if !(word_fits_exec(o.head, sq_ring) && word_fits_exec(o.tail, sq_ring)
            && word_fits_exec(o.ring_mask, sq_ring) && word_fits_exec(o.ring_entries, sq_ring)
            && word_fits_exec(o.flags, sq_ring) && word_fits_exec(o.dropped, sq_ring)) {
            return Err(mapping_err);
        }
        let c = self.cq_off;
        if !(word_fits_exec(c.head, cq_ring) && word_fits_exec(c.tail, cq_ring)
            && word_fits_exec(c.ring_mask, cq_ring) && word_fits_exec(c.ring_entries, cq_ring)
            && word_fits_exec(c.overflow, cq_ring)) {
            return Err(mapping_err);
        }
        Ok(RegionLens { sq_ring, sqes, cq_ring })
    }
}

} // verus!
