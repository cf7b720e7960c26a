use vstd::prelude::*;
use vstd::arithmetic::power2::{pow2, lemma_pow2_pos};
use vstd::bits::{low_bits_mask, lemma_u32_low_bits_mask_is_mod};
use crate::error::{Cause, RingError};
use crate::layout::{
    check_pow2, cqe_size, cqe_size_spec, is_pow2, sqe_size, sqe_size_spec, CqOffsets, Params,
    SqOffsets, WORD_SIZE,
};
use crate::mapping::{Mapping, Region};

verus! {

/// `index & (entries - 1)` is `index % entries` for a power of two.
pub(crate) proof fn lemma_mask_is_mod(index: u32, entries: u32)
    requires
        is_pow2(entries as int),
    ensures
        index & ((entries - 1) as u32) == index % entries,
{
    let k = choose|k: nat| k < 32 && pow2(k) == entries;
    lemma_pow2_pos(k);
    lemma_u32_low_bits_mask_is_mod(index, k);
    assert(low_bits_mask(k) == entries - 1);
}

/// A power of two is at least one.
pub(crate) proof fn lemma_pow2_nonzero(n: int)
    requires
        is_pow2(n),
    ensures
        n >= 1,
{
    let k = choose|k: nat| k < 32 && pow2(k) == n;
    lemma_pow2_pos(k);
}

/// The mappings of a submission queue match what the kernel's answer `p`
/// describes: right regions, long enough, inside the address space, and every
/// field of the ring inside its mapping.
pub open spec fn sq_layout_ok(p: Params, ring: Mapping, sqes: Mapping) -> bool {
    let o = p.sq_off;
    let n = ring.len as int;
    &&& is_pow2(p.sq_entries as int)
    &&& ring.region == Region::SqRing
    &&& sqes.region == Region::Sqes
    &&& ring.wf()
    &&& sqes.wf()
    &&& o.head + WORD_SIZE <= n
    &&& o.tail + WORD_SIZE <= n
    &&& o.ring_mask + WORD_SIZE <= n
    &&& o.ring_entries + WORD_SIZE <= n
    &&& o.flags + WORD_SIZE <= n
    &&& o.dropped + WORD_SIZE <= n
    &&& o.array + p.sq_entries * WORD_SIZE <= n
    &&& p.sq_entries * sqe_size_spec() <= sqes.len
}

/// The mapping of a completion queue matches what `p` describes.
pub open spec fn cq_layout_ok(p: Params, ring: Mapping) -> bool {
    let o = p.cq_off;
    let n = ring.len as int;
    &&& is_pow2(p.cq_entries as int)
    &&& ring.region == Region::CqRing
    &&& ring.wf()
    &&& o.head + WORD_SIZE <= n
    &&& o.tail + WORD_SIZE <= n
    &&& o.ring_mask + WORD_SIZE <= n
    &&& o.ring_entries + WORD_SIZE <= n
    &&& o.overflow + WORD_SIZE <= n
    &&& o.cqes + p.cq_entries * cqe_size_spec() <= n
}

/// `off + width <= len`, computed without overflow.
fn fits(off: u32, width: usize, len: usize) -> (r: bool)
    ensures
        r == (off + width <= len),
{
    off as usize <= len && width <= len - off as usize
}

/// `count * size`, or `None` where it exceeds `usize::MAX`.
fn mul_checked(count: u32, size: usize) -> (r: Option<usize>)
    ensures
        match r {
            Some(n) => n == count * size,
            None => count * size > usize::MAX,
        },
{
    (count as usize).checked_mul(size)
}

/// The fields of a submission queue that have an address in shared memory.
#[derive(Clone, Copy, Debug, PartialEq, Eq, Structural)]
pub enum SqField {
    Head,
    Tail,
    RingMask,
    RingEntries,
    Flags,
    Dropped,
    Array,
    Sqes,
}

impl SqField {
    /// The field is one 32-bit word of the SQ-ring region.
    pub open spec fn is_word(self) -> bool {
        !(self is Array || self is Sqes)
    }
}

/// The producer side of a ring: where each of its shared words lies.
///
/// Every address is the base of a mapping plus an offset that the kernel
/// reported, and lies inside that mapping.
#[derive(Debug)]
pub struct SubmissionQueue {
    sq_mmap: Mapping,
    sqe_mmap: Mapping,
    head: usize,
    tail: usize,
    ring_mask: usize,
    ring_entries: usize,
    flags: usize,
    dropped: usize,
    array: usize,
    sqentries: usize,
    entries: u32,
}

impl SubmissionQueue {
    pub closed spec fn sq_mmap_spec(&self) -> Mapping {
        self.sq_mmap
    }

    pub closed spec fn sqe_mmap_spec(&self) -> Mapping {
        self.sqe_mmap
    }

    pub closed spec fn entries_spec(&self) -> u32 {
        self.entries
    }

    /// Address of one field of the queue.
    pub closed spec fn addr(&self, f: SqField) -> usize {
        match f {
            SqField::Head => self.head,
            SqField::Tail => self.tail,
            SqField::RingMask => self.ring_mask,
            SqField::RingEntries => self.ring_entries,
            SqField::Flags => self.flags,
            SqField::Dropped => self.dropped,
            SqField::Array => self.array,
            SqField::Sqes => self.sqentries,
        }
    }

    /// The addresses that the kernel's answer `p` gives for this queue.
    pub open spec fn derived_from(&self, p: Params) -> bool {
        let o = p.sq_off;
        let b = self.sq_mmap_spec().base;
        &&& self.entries_spec() == p.sq_entries
        &&& self.addr(SqField::Head) == b + o.head
        &&& self.addr(SqField::Tail) == b + o.tail
        &&& self.addr(SqField::RingMask) == b + o.ring_mask
        &&& self.addr(SqField::RingEntries) == b + o.ring_entries
        &&& self.addr(SqField::Flags) == b + o.flags
        &&& self.addr(SqField::Dropped) == b + o.dropped
        &&& self.addr(SqField::Array) == b + o.array
        &&& self.addr(SqField::Sqes) == self.sqe_mmap_spec().base
    }

    /// Each word lies inside the SQ-ring mapping, the indirection array and
    /// the entries fit their mappings, and the size is a power of two.
    pub open spec fn wf(&self) -> bool {
        let m = self.sq_mmap_spec();
        let e = self.sqe_mmap_spec();
        let w = WORD_SIZE as int;
        &&& is_pow2(self.entries_spec() as int)
        &&& m.region == Region::SqRing
        &&& e.region == Region::Sqes
        &&& m.wf()
        &&& e.wf()
        &&& forall|f: SqField| #[trigger] f.is_word() ==> m.holds(self.addr(f) as int, w)
        &&& m.holds(self.addr(SqField::Array) as int, self.entries_spec() * w)
        &&& self.addr(SqField::Sqes) == e.base
        &&& e.holds(self.addr(SqField::Sqes) as int, self.entries_spec() * sqe_size_spec())
    }

    /// Derives the addresses of the submission ring's fields from the two
    /// mappings and the offsets that the kernel reported.
    ///
    /// Fails with a mapping error where a mapping is not the region it should
    /// be, is too short for what `p` places in it, or where the size that `p`
    /// reports is no power of two.
    pub fn new(p: &Params, sq_mmap: Mapping, sqe_mmap: Mapping) -> (r: Result<
        SubmissionQueue,
        RingError,
    >)
        ensures
            sq_layout_ok(*p, sq_mmap, sqe_mmap) <==> r is Ok,
            !sq_layout_ok(*p, sq_mmap, sqe_mmap) ==> r == Err::<SubmissionQueue, RingError>(
                RingError::Mapping(Cause::Layout),
            ),
            r matches Ok(q) ==> {
                &&& q.wf()
                &&& q.derived_from(*p)
                &&& q.sq_mmap_spec() == sq_mmap
                &&& q.sqe_mmap_spec() == sqe_mmap
            },
    {
        let err = Err(RingError::Mapping(Cause::Layout));
        if !(check_pow2(p.sq_entries) && sq_mmap.region == Region::SqRing
            && sqe_mmap.region == Region::Sqes && sq_mmap.check_wf() && sqe_mmap.check_wf()) {
            return err;
        }
        let o: SqOffsets = p.sq_off;
        let n = sq_mmap.len;
        if !(fits(o.head, WORD_SIZE, n) && fits(o.tail, WORD_SIZE, n) && fits(
            o.ring_mask,
            WORD_SIZE,
            n,
        ) && fits(o.ring_entries, WORD_SIZE, n) && fits(o.flags, WORD_SIZE, n) && fits(
            o.dropped,
            WORD_SIZE,
            n,
        )) {
            return err;
        }
        let array_len = match mul_checked(p.sq_entries, WORD_SIZE) {
            Some(l) => l,
            None => return err,
        };
        if !fits(o.array, array_len, n) {
            return err;
        }
        match mul_checked(p.sq_entries, sqe_size()) {
            Some(l) => {
                if l > sqe_mmap.len {
                    return err;
                }
            },
            None => return err,
        }
        let b = sq_mmap.base;
        Ok(SubmissionQueue {
            sq_mmap,
            sqe_mmap,
            head: b + o.head as usize,
            tail: b + o.tail as usize,
            ring_mask: b + o.ring_mask as usize,
            ring_entries: b + o.ring_entries as usize,
            flags: b + o.flags as usize,
            dropped: b + o.dropped as usize,
            array: b + o.array as usize,
            sqentries: sqe_mmap.base,
            entries: p.sq_entries,
        })
    }

    /// Number of slots of the ring, as the kernel reported it.
    pub fn ring_entries(&self) -> (r: u32)
        ensures
            r == self.entries_spec(),
    {
        self.entries
    }

    /// Mask that wraps a ring position onto a slot.
    pub fn ring_mask(&self) -> (r: u32)
        requires
            self.wf(),
        ensures
            r == self.entries_spec() - 1,
    {
        proof {
            lemma_pow2_nonzero(self.entries as int);
        }
        self.entries - 1
    }

    /// The slot that the ever-growing ring position `index` falls on.
    pub fn slot_index(&self, index: u32) -> (r: u32)
        requires
            self.wf(),
        ensures
            r == index % self.entries_spec(),
            r < self.entries_spec(),
    {
        proof {
            lemma_pow2_nonzero(self.entries as int);
            lemma_mask_is_mod(index, self.entries);
        }
        index & self.ring_mask()
    }

    /// The SQ-ring mapping.
    pub fn sq_mmap(&self) -> (r: Mapping)
        ensures
            r == self.sq_mmap_spec(),
    {
        self.sq_mmap
    }

    /// The mapping of the submission entries.
    pub fn sqe_mmap(&self) -> (r: Mapping)
        ensures
            r == self.sqe_mmap_spec(),
    {
        self.sqe_mmap
    }

    /// Address of the head word, which the kernel advances.
    pub fn head_addr(&self) -> (r: usize)
        ensures
            r == self.addr(SqField::Head),
    {
        self.head
    }

    /// Address of the tail word, which the process advances.
    pub fn tail_addr(&self) -> (r: usize)
        ensures
            r == self.addr(SqField::Tail),
    {
        self.tail
    }

    /// Address of the shared ring-mask word.
    pub fn ring_mask_addr(&self) -> (r: usize)
        ensures
            r == self.addr(SqField::RingMask),
    {
        self.ring_mask
    }

    /// Address of the shared ring-size word.
    pub fn ring_entries_addr(&self) -> (r: usize)
        ensures
            r == self.addr(SqField::RingEntries),
    {
        self.ring_entries
    }

    /// Address of the flags word.
    pub fn flags_addr(&self) -> (r: usize)
        ensures
            r == self.addr(SqField::Flags),
    {
        self.flags
    }

    /// Address of the dropped-submissions counter.
    pub fn dropped_addr(&self) -> (r: usize)
        ensures
            r == self.addr(SqField::Dropped),
    {
        self.dropped
    }

    /// Address of the indirection array.
    pub fn array_addr(&self) -> (r: usize)
        ensures
            r == self.addr(SqField::Array),
    {
        self.array
    }

    /// Address of the first submission entry.
    pub fn sqes_addr(&self) -> (r: usize)
        ensures
            r == self.addr(SqField::Sqes),
    {
        self.sqentries
    }
}

/// The fields of a completion queue that have an address in shared memory.
#[derive(Clone, Copy, Debug, PartialEq, Eq, Structural)]
pub enum CqField {
    Head,
    Tail,
    RingMask,
    RingEntries,
    Overflow,
    Cqes,
}

impl CqField {
    /// The field is one 32-bit word of the CQ region.
    pub open spec fn is_word(self) -> bool {
        !(self is Cqes)
    }
}

/// The consumer side of a ring: where each of its shared words lies.
///
/// Ring words and entries share one mapping.
#[derive(Debug)]
pub struct CompletionQueue {
    cq_mmap: Mapping,
    head: usize,
    tail: usize,
    ring_mask: usize,
    ring_entries: usize,
    overflow: usize,
    cqentries: usize,
    entries: u32,
}

impl CompletionQueue {
    pub closed spec fn cq_mmap_spec(&self) -> Mapping {
        self.cq_mmap
    }

    pub closed spec fn entries_spec(&self) -> u32 {
        self.entries
    }

    /// Address of one field of the queue.
    pub closed spec fn addr(&self, f: CqField) -> usize {
        match f {
            CqField::Head => self.head,
            CqField::Tail => self.tail,
            CqField::RingMask => self.ring_mask,
            CqField::RingEntries => self.ring_entries,
            CqField::Overflow => self.overflow,
            CqField::Cqes => self.cqentries,
        }
    }

    /// The addresses that the kernel's answer `p` gives for this queue.
    pub open spec fn derived_from(&self, p: Params) -> bool {
        let o = p.cq_off;
        let b = self.cq_mmap_spec().base;
        &&& self.entries_spec() == p.cq_entries
        &&& self.addr(CqField::Head) == b + o.head
        &&& self.addr(CqField::Tail) == b + o.tail
        &&& self.addr(CqField::RingMask) == b + o.ring_mask
        &&& self.addr(CqField::RingEntries) == b + o.ring_entries
        &&& self.addr(CqField::Overflow) == b + o.overflow
        &&& self.addr(CqField::Cqes) == b + o.cqes
    }

    /// Each word and the entries lie inside the mapping, and the size is a
    /// power of two.
    pub open spec fn wf(&self) -> bool {
        let m = self.cq_mmap_spec();
        &&& is_pow2(self.entries_spec() as int)
        &&& m.region == Region::CqRing
        &&& m.wf()
        &&& forall|f: CqField| #[trigger] f.is_word() ==> m.holds(self.addr(f) as int, WORD_SIZE as int)
        &&& m.holds(self.addr(CqField::Cqes) as int, self.entries_spec() * cqe_size_spec())
    }

    /// Derives the addresses of the completion ring's fields from its mapping
    /// and the offsets that the kernel reported.
    ///
    /// Fails with a mapping error where the mapping is not the CQ region, is
    /// too short for what `p` places in it, or where the size that `p`
    /// reports is no power of two.
    pub fn new(p: &Params, cq_mmap: Mapping) -> (r: Result<CompletionQueue, RingError>)
        ensures
            cq_layout_ok(*p, cq_mmap) <==> r is Ok,
            !cq_layout_ok(*p, cq_mmap) ==> r == Err::<CompletionQueue, RingError>(
                RingError::Mapping(Cause::Layout),
            ),
            r matches Ok(q) ==> {
                &&& q.wf()
                &&& q.derived_from(*p)
                &&& q.cq_mmap_spec() == cq_mmap
            },
    {
        let err = Err(RingError::Mapping(Cause::Layout));
        if !(check_pow2(p.cq_entries) && cq_mmap.region == Region::CqRing && cq_mmap.check_wf()) {
            return err;
        }
        let o: CqOffsets = p.cq_off;
        let n = cq_mmap.len;
        if !(fits(o.head, WORD_SIZE, n) && fits(o.tail, WORD_SIZE, n) && fits(
            o.ring_mask,
            WORD_SIZE,
            n,
        ) && fits(o.ring_entries, WORD_SIZE, n) && fits(o.overflow, WORD_SIZE, n)) {
            return err;
        }
        let cqes_len = match mul_checked(p.cq_entries, cqe_size()) {
            Some(l) => l,
            None => return err,
        };
        if !fits(o.cqes, cqes_len, n) {
            return err;
        }
        let b = cq_mmap.base;
        let q = CompletionQueue {
            cq_mmap,
            head: b + o.head as usize,
            tail: b + o.tail as usize,
            ring_mask: b + o.ring_mask as usize,
            ring_entries: b + o.ring_entries as usize,
            overflow: b + o.overflow as usize,
            cqentries: b + o.cqes as usize,
            entries: p.cq_entries,
        };
        assert forall|f: CqField| #[trigger] f.is_word() implies q.cq_mmap.holds(
            q.addr(f) as int,
            WORD_SIZE as int,
        ) by {}
        Ok(q)
    }

    /// Number of slots of the ring, as the kernel reported it.
    pub fn ring_entries(&self) -> (r: u32)
        ensures
            r == self.entries_spec(),
    {
        self.entries
    }

    /// Mask that wraps a ring position onto a slot.
    pub fn ring_mask(&self) -> (r: u32)
        requires
            self.wf(),
        ensures
            r == self.entries_spec() - 1,
    {
        proof {
            lemma_pow2_nonzero(self.entries as int);
        }
        self.entries - 1
    }

    /// The slot that the ever-growing ring position `index` falls on.
    pub fn slot_index(&self, index: u32) -> (r: u32)
        requires
            self.wf(),
        ensures
            r == index % self.entries_spec(),
            r < self.entries_spec(),
    {
        proof {
            lemma_pow2_nonzero(self.entries as int);
            lemma_mask_is_mod(index, self.entries);
        }
        index & self.ring_mask()
    }

    /// The CQ mapping.
    pub fn cq_mmap(&self) -> (r: Mapping)
        ensures
            r == self.cq_mmap_spec(),
    {
        self.cq_mmap
    }

    /// Address of the head word, which the process advances.
    pub fn head_addr(&self) -> (r: usize)
        ensures
            r == self.addr(CqField::Head),
    {
        self.head
    }

    /// Address of the tail word, which the kernel advances.
    pub fn tail_addr(&self) -> (r: usize)
        ensures
            r == self.addr(CqField::Tail),
    {
        self.tail
    }

    /// Address of the shared ring-mask word.
    pub fn ring_mask_addr(&self) -> (r: usize)
        ensures
            r == self.addr(CqField::RingMask),
    {
        self.ring_mask
    }

    /// Address of the shared ring-size word.
    pub fn ring_entries_addr(&self) -> (r: usize)
        ensures
            r == self.addr(CqField::RingEntries),
    {
        self.ring_entries
    }

    /// Address of the overflow counter.
    pub fn overflow_addr(&self) -> (r: usize)
        ensures
            r == self.addr(CqField::Overflow),
    {
        self.overflow
    }

    /// Address of the first completion entry.
    pub fn cqes_addr(&self) -> (r: usize)
        ensures
            r == self.addr(CqField::Cqes),
    {
        self.cqentries
    }
}

} // verus!
