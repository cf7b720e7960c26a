use vstd::prelude::*;
use crate::error::{Cause, RingError};
use crate::mapping::Mapping;
use crate::queue::{
    cq_layout_ok, lemma_mask_is_mod, lemma_pow2_nonzero, sq_layout_ok, CompletionQueue, CqField,
    SqField, SubmissionQueue,
};
use crate::layout::{cqe_size_spec, sqe_size_spec, Params, WORD_SIZE};

verus! {

/// Something acquired from the kernel that must be released exactly once.
#[derive(Clone, Copy, Debug, PartialEq, Eq, Structural)]
pub enum Resource {
    /// The ring's file descriptor; released by closing it.
    Handle(i32),
    /// A mapped region; released by unmapping it.
    Mapped(Mapping),
}

/// A ring: the kernel resource and the two queues mapped from it.
#[derive(Debug)]
pub struct IoUring {
    fd: i32,
    sq: SubmissionQueue,
    cq: CompletionQueue,
}

impl IoUring {
    pub closed spec fn fd_spec(&self) -> i32 {
        self.fd
    }

    pub closed spec fn sq_spec(&self) -> SubmissionQueue {
        self.sq
    }

    pub closed spec fn cq_spec(&self) -> CompletionQueue {
        self.cq
    }

    /// Both queues are well formed.
    pub open spec fn wf(&self) -> bool {
        self.sq_spec().wf() && self.cq_spec().wf()
    }

    /// What the ring owns, in the order it is released: the three mappings,
    /// then the resource they were mapped from.
    pub open spec fn resources(&self) -> Seq<Resource> {
        seq![
            Resource::Mapped(self.sq_spec().sq_mmap_spec()),
            Resource::Mapped(self.sq_spec().sqe_mmap_spec()),
            Resource::Mapped(self.cq_spec().cq_mmap_spec()),
            Resource::Handle(self.fd_spec()),
        ]
    }

    /// Assembles a ring from its resource `fd`, the kernel's answer `p` and
    /// the three mapped regions.
    ///
    /// Fails with a mapping error where the mappings do not hold the layout
    /// that `p` describes.
    pub fn new(fd: i32, p: &Params, sq_mmap: Mapping, sqe_mmap: Mapping, cq_mmap: Mapping) -> (r:
        Result<IoUring, RingError>)
        ensures
            (sq_layout_ok(*p, sq_mmap, sqe_mmap) && cq_layout_ok(*p, cq_mmap)) <==> r is Ok,
            r is Err ==> r == Err::<IoUring, RingError>(RingError::Mapping(Cause::Layout)),
            r matches Ok(ring) ==> {
                &&& ring.wf()
                &&& ring.fd_spec() == fd
                &&& ring.sq_spec().derived_from(*p)
                &&& ring.cq_spec().derived_from(*p)
                &&& ring.resources() == seq![
                    Resource::Mapped(sq_mmap),
                    Resource::Mapped(sqe_mmap),
                    Resource::Mapped(cq_mmap),
                    Resource::Handle(fd),
                ]
            },
    {
        let sq = match SubmissionQueue::new(p, sq_mmap, sqe_mmap) {
            Ok(q) => q,
            Err(e) => return Err(e),
        };
        let cq = match CompletionQueue::new(p, cq_mmap) {
            Ok(q) => q,
            Err(e) => return Err(e),
        };
        Ok(IoUring { fd, sq, cq })
    }

    /// The ring's file descriptor.
    pub fn fd(&self) -> (r: i32)
        ensures
            r == self.fd_spec(),
    {
        self.fd
    }

    /// The submission queue.
    pub fn sq(&self) -> (r: &SubmissionQueue)
        ensures
            *r == self.sq_spec(),
    {
        &self.sq
    }

    /// The completion queue.
    pub fn cq(&self) -> (r: &CompletionQueue)
        ensures
            *r == self.cq_spec(),
    {
        &self.cq
    }

    /// The resources to release when the ring goes away, in order.
    pub fn teardown(&self) -> (r: Vec<Resource>)
        ensures
            r@ == self.resources(),
    {
        let mut v: Vec<Resource> = Vec::new();
        v.push(Resource::Mapped(self.sq.sq_mmap()));
        v.push(Resource::Mapped(self.sq.sqe_mmap()));
        v.push(Resource::Mapped(self.cq.cq_mmap()));
        v.push(Resource::Handle(self.fd));
        v
    }
}

/// In a well-formed ring each queue's mask is its size minus one, and masking
/// a ring position with it gives the position modulo the size.
pub proof fn lemma_mask_wraps(ring: &IoUring, index: u32)
    requires
        ring.wf(),
    ensures
        ({
            let n = ring.sq_spec().entries_spec();
            n >= 1 && index & ((n - 1) as u32) == index % n
        }),
        ({
            let n = ring.cq_spec().entries_spec();
            n >= 1 && index & ((n - 1) as u32) == index % n
        }),
{
    lemma_pow2_nonzero(ring.sq_spec().entries_spec() as int);
    lemma_mask_is_mod(index, ring.sq_spec().entries_spec());
    lemma_pow2_nonzero(ring.cq_spec().entries_spec() as int);
    lemma_mask_is_mod(index, ring.cq_spec().entries_spec());
}

/// In a well-formed ring every derived address lies inside the mapping it
/// was derived from, together with the whole field it points at.
pub proof fn lemma_fields_in_mappings(ring: &IoUring)
    requires
        ring.wf(),
    ensures
        forall|f: SqField| #[trigger]
            f.is_word() ==> ring.sq_spec().sq_mmap_spec().holds(
                ring.sq_spec().addr(f) as int,
                WORD_SIZE as int,
            ),
        ring.sq_spec().sq_mmap_spec().holds(
            ring.sq_spec().addr(SqField::Array) as int,
            ring.sq_spec().entries_spec() * WORD_SIZE,
        ),
        ring.sq_spec().sqe_mmap_spec().holds(
            ring.sq_spec().addr(SqField::Sqes) as int,
            ring.sq_spec().entries_spec() * sqe_size_spec(),
        ),
        forall|f: CqField| #[trigger]
            f.is_word() ==> ring.cq_spec().cq_mmap_spec().holds(
                ring.cq_spec().addr(f) as int,
                WORD_SIZE as int,
            ),
        ring.cq_spec().cq_mmap_spec().holds(
            ring.cq_spec().addr(CqField::Cqes) as int,
            ring.cq_spec().entries_spec() * cqe_size_spec(),
        ),
{
}

/// A well-formed ring releases four distinct resources, each once: the
/// SQ-ring, submission-entry and CQ mappings, and last the handle they were
/// mapped from.
pub proof fn lemma_teardown_once(ring: &IoUring)
    requires
        ring.wf(),
    ensures
        ring.resources().len() == 4,
        ring.resources().no_duplicates(),
        ring.resources()[3] == Resource::Handle(ring.fd_spec()),
        forall|i: int| 0 <= i < 3 ==> #[trigger] ring.resources()[i] is Mapped,
{
    let r = ring.resources();
    assert forall|i: int, j: int| 0 <= i < r.len() && 0 <= j < r.len() && i != j implies r[i]
        != r[j] by {}
}

} // verus!
