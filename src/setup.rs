use vstd::prelude::*;
use crate::error::{Cause, RingError};
use crate::layout::{
    cq_ring_len_spec, entries_valid, is_pow2, layout_valid, sq_ring_len_spec, sqes_len_spec,
    Params, RegionLens,
};
use crate::mapping::{Mapping, Region};
use crate::ring::{IoUring, Resource};

verus! {

/// Where ring construction stands.
#[derive(Clone, Copy, Debug, PartialEq, Eq, Structural)]
pub enum Stage {
    /// Waiting for the kernel resource.
    Opening,
    /// Waiting for the SQ-ring region.
    MappingSqRing,
    /// Waiting for the region of submission entries.
    MappingSqes,
    /// Waiting for the CQ region.
    MappingCq,
    /// Construction is over: the ring was handed out or everything released.
    Finished,
}

/// What the caller reports after performing an action.
#[derive(Clone, Copy, Debug, PartialEq, Eq, Structural)]
pub enum Event {
    /// The resource was created; the kernel filled in `params`.
    Opened { fd: i32, params: Params },
    /// Creating the resource failed with this `errno`.
    OpenFailed(i32),
    /// The requested region was mapped at `base`.
    Mapped { base: usize },
    /// Mapping the requested region failed with this `errno`.
    MapFailed(i32),
}

/// What the caller is to do next.
#[derive(Debug)]
pub enum Action {
    /// Create the kernel resource, asking for `entries` slots.
    Open { entries: u32 },
    /// Map `len` bytes of `region` from the resource.
    MapRegion { region: Region, len: usize },
    /// Construction succeeded: the ring now owns every resource.
    Ready(IoUring),
    /// Construction failed: release `release` in order, then report `error`.
    Abort { release: Vec<Resource>, error: RingError },
}

impl Resource {
    /// A mapping ends inside the address space; a handle always qualifies.
    pub open spec fn wf(self) -> bool {
        match self {
            Resource::Handle(_) => true,
            Resource::Mapped(m) => m.wf(),
        }
    }
}

/// The resources that one optional handle stands for.
pub open spec fn handle_seq(fd: Option<i32>) -> Seq<Resource> {
    match fd {
        Some(f) => seq![Resource::Handle(f)],
        None => Seq::empty(),
    }
}

/// The resources that one optional mapping stands for.
pub open spec fn mapping_seq(m: Option<Mapping>) -> Seq<Resource> {
    match m {
        Some(m) => seq![Resource::Mapped(m)],
        None => Seq::empty(),
    }
}

/// The decisions of ring construction: open the resource, map the three
/// regions, assemble the ring; on any failure, release what was acquired.
///
/// The caller performs each action and reports the outcome as an event.
#[derive(Debug)]
pub struct RingBuilder {
    entries: u32,
    stage: Stage,
    fd: Option<i32>,
    params: Option<(Params, RegionLens)>,
    sq_ring: Option<Mapping>,
    sqes: Option<Mapping>,
}

impl RingBuilder {
    pub closed spec fn stage_spec(&self) -> Stage {
        self.stage
    }

    pub closed spec fn entries_spec(&self) -> u32 {
        self.entries
    }

    /// The kernel's answer, once the resource exists.
    pub closed spec fn params_spec(&self) -> Params {
        self.params.unwrap().0
    }

    /// Everything acquired so far and not yet handed on, in acquisition order.
    pub closed spec fn held(&self) -> Seq<Resource> {
        handle_seq(self.fd) + mapping_seq(self.sq_ring) + mapping_seq(self.sqes)
    }

    /// What each stage has acquired, and that the kernel's answer was checked.
    pub closed spec fn wf(&self) -> bool {
        let opened = self.fd is Some && self.params is Some;
        &&& opened ==> {
            let (p, l) = self.params.unwrap();
            entries_valid(p, self.entries) && layout_valid(p) && l.of(p)
        }
        &&& match self.stage {
            Stage::Opening => self.fd is None && self.sq_ring is None && self.sqes is None,
            Stage::MappingSqRing => opened && self.sq_ring is None && self.sqes is None,
            Stage::MappingSqes => opened && self.sq_ring is Some && self.sqes is None,
            Stage::MappingCq => opened && self.sq_ring is Some && self.sqes is Some,
            Stage::Finished => self.fd is None && self.sq_ring is None && self.sqes is None,
        }
        &&& self.sq_ring matches Some(m) ==> m.region == Region::SqRing && m.len
            == sq_ring_len_spec(self.params.unwrap().0)
        &&& self.sqes matches Some(m) ==> m.region == Region::Sqes && m.len == sqes_len_spec(
            self.params.unwrap().0,
        )
    }

    /// The region that the current stage waits for, and its length.
    pub open spec fn pending(&self) -> (Region, int) {
        let p = self.params_spec();
        match self.stage_spec() {
            Stage::MappingSqRing => (Region::SqRing, sq_ring_len_spec(p)),
            Stage::MappingSqes => (Region::Sqes, sqes_len_spec(p)),
            _ => (Region::CqRing, cq_ring_len_spec(p)),
        }
    }

    /// `ev` answers the action that the current stage asked for.
    pub open spec fn expects(&self, ev: Event) -> bool {
        match self.stage_spec() {
            Stage::Opening => ev is Opened || ev is OpenFailed,
            Stage::Finished => false,
            _ => ev is Mapped || ev is MapFailed,
        }
    }

    /// What `ev` hands over to construction.
    pub open spec fn acquired(&self, ev: Event) -> Seq<Resource> {
        match ev {
            Event::Opened { fd, .. } => seq![Resource::Handle(fd)],
            Event::Mapped { base } => seq![
                Resource::Mapped(
                    Mapping { region: self.pending().0, base, len: self.pending().1 as usize },
                ),
            ],
            _ => Seq::empty(),
        }
    }

    /// Starts the construction of a ring of at least `entries` slots.
    pub fn new(entries: u32) -> (r: (RingBuilder, Action))
        ensures
            r.0.wf(),
            r.0.stage_spec() == Stage::Opening,
            r.0.entries_spec() == entries,
            r.0.held() == Seq::<Resource>::empty(),
            r.1 matches Action::Open { entries: e } && e == entries,
    {
        let b = RingBuilder {
            entries,
            stage: Stage::Opening,
            fd: None,
            params: None,
            sq_ring: None,
            sqes: None,
        };
        proof {
            assert(b.held() =~= Seq::<Resource>::empty());
        }
        (b, Action::Open { entries })
    }

    /// Where construction stands.
    pub fn stage(&self) -> (r: Stage)
        ensures
            r == self.stage_spec(),
    {
        self.stage
    }

    /// Whether `ev` answers the action that the current stage asked for.
    pub fn check_expects(&self, ev: &Event) -> (r: bool)
        ensures
            r == self.expects(*ev),
    {
        match self.stage {
            Stage::Opening => matches!(ev, Event::Opened { .. } | Event::OpenFailed(_)),
            Stage::Finished => false,
            _ => matches!(ev, Event::Mapped { .. } | Event::MapFailed(_)),
        }
    }

    /// Releases everything held and ends construction.
    fn abort(&mut self, error: RingError) -> (r: Action)
        ensures
            final(self).wf(),
            final(self).stage_spec() == Stage::Finished,
            final(self).held() == Seq::<Resource>::empty(),
            final(self).entries_spec() == old(self).entries_spec(),
            r matches Action::Abort { release, error: e } && e == error && release@ == old(
                self,
            ).held(),
    {
        let mut release: Vec<Resource> = Vec::new();
        if let Some(fd) = self.fd {
            release.push(Resource::Handle(fd));
        }
        if let Some(m) = self.sq_ring {
            release.push(Resource::Mapped(m));
        }
        if let Some(m) = self.sqes {
            release.push(Resource::Mapped(m));
        }
        proof {
            assert(release@ =~= old(self).held());
        }
        self.fd = None;
        self.sq_ring = None;
        self.sqes = None;
        self.stage = Stage::Finished;
        proof {
            assert(self.held() =~= Seq::<Resource>::empty());
        }
        Action::Abort { release, error }
    }

    /// Decides what follows from `ev`, the outcome of the last action.
    ///
    /// Every resource acquired so far ends in exactly one place: still held by
    /// the builder, listed once in an `Abort` for release, or owned by the
    /// ring that `Ready` hands out (which releases the resource handle after
    /// the mappings made from it).
    pub fn step(&mut self, ev: Event) -> (r: Action)
        requires
            old(self).wf(),
            old(self).expects(ev),
        ensures
            final(self).wf(),
            final(self).entries_spec() == old(self).entries_spec(),
            match r {
                Action::Open { .. } => false,
                Action::MapRegion { .. } => final(self).held() == old(self).held() + old(
                    self,
                ).acquired(ev),
                Action::Ready(ring) => {
                    let all = old(self).held() + old(self).acquired(ev);
                    ring.resources() == all.drop_first().push(all[0]) && final(self).held()
                        == Seq::<Resource>::empty()
                },
                Action::Abort { release, .. } => release@ == old(self).held() + old(
                    self,
                ).acquired(ev) && final(self).held() == Seq::<Resource>::empty(),
            },
            (final(self).stage_spec() == Stage::Finished) <==> (r is Ready || r is Abort),
            ev matches Event::OpenFailed(e) ==> (r matches Action::Abort { error, .. } && error
                == RingError::Resource(Cause::Os(e))),
            ev matches Event::MapFailed(e) ==> (r matches Action::Abort { error, .. } && error
                == RingError::Mapping(Cause::Os(e))),
            ev matches Event::Opened { params, .. } ==> {
                let n = old(self).entries_spec();
                if !entries_valid(params, n) {
                    r matches Action::Abort { error, .. } && error == RingError::Resource(
                        Cause::Layout,
                    )
                } else if !layout_valid(params) {
                    r matches Action::Abort { error, .. } && error == RingError::Mapping(
                        Cause::Layout,
                    )
                } else {
                    &&& r matches Action::MapRegion { region, len } && region == Region::SqRing
                        && len == sq_ring_len_spec(params)
                    &&& final(self).stage_spec() == Stage::MappingSqRing
                    &&& final(self).params_spec() == params
                }
            },
            ev is Mapped && old(self).stage_spec() == Stage::MappingSqRing ==> {
                &&& r matches Action::MapRegion { region, len } && region == Region::Sqes && len
                    == sqes_len_spec(old(self).params_spec())
                &&& final(self).stage_spec() == Stage::MappingSqes
                &&& final(self).params_spec() == old(self).params_spec()
            },
            ev is Mapped && old(self).stage_spec() == Stage::MappingSqes ==> {
                &&& r matches Action::MapRegion { region, len } && region == Region::CqRing
                    && len == cq_ring_len_spec(old(self).params_spec())
                &&& final(self).stage_spec() == Stage::MappingCq
                &&& final(self).params_spec() == old(self).params_spec()
            },
            ev is Mapped && old(self).stage_spec() == Stage::MappingCq ==> {
                let all = old(self).held() + old(self).acquired(ev);
                &&& (r is Ready) <==> (forall|i: int| 0 <= i < all.len() ==> (#[trigger] all[i]).wf())
                &&& !(r is Ready) ==> (r matches Action::Abort { error, .. } && error
                    == RingError::Mapping(Cause::Layout))
            },
            r matches Action::Ready(ring) ==> {
                let p = old(self).params_spec();
                &&& ring.wf()
                &&& ring.sq_spec().derived_from(p)
                &&& ring.cq_spec().derived_from(p)
                &&& is_pow2(ring.sq_spec().entries_spec() as int)
                &&& is_pow2(ring.cq_spec().entries_spec() as int)
                &&& ring.sq_spec().entries_spec() >= old(self).entries_spec()
                &&& ring.cq_spec().entries_spec() >= old(self).entries_spec()
            },
    {
        match ev {
            Event::OpenFailed(e) => self.abort(RingError::Resource(Cause::Os(e))),
            Event::MapFailed(e) => {
                let r = self.abort(RingError::Mapping(Cause::Os(e)));
                proof {
                    assert(old(self).held() + old(self).acquired(ev) =~= old(self).held());
                }
                r
            },
            Event::Opened { fd, params } => {
                self.fd = Some(fd);
                match params.check(self.entries) {
                    Ok(lens) => {
                        self.params = Some((params, lens));
                        self.stage = Stage::MappingSqRing;
                        proof {
                            assert(self.held() =~= old(self).held() + old(self).acquired(ev));
                        }
                        Action::MapRegion { region: Region::SqRing, len: lens.sq_ring }
                    },
                    Err(e) => {
                        proof {
                            assert(self.held() =~= old(self).held() + old(self).acquired(ev));
                        }
                        self.abort(e)
                    },
                }
            },
            Event::Mapped { base } => {
                let (p, lens) = self.params.unwrap();
                match self.stage {
                    Stage::MappingSqRing => {
                        self.sq_ring = Some(Mapping { region: Region::SqRing, base, len: lens.sq_ring });
                        self.stage = Stage::MappingSqes;
                        proof {
                            assert(self.held() =~= old(self).held() + old(self).acquired(ev));
                        }
                        Action::MapRegion { region: Region::Sqes, len: lens.sqes }
                    },
                    Stage::MappingSqes => {
                        self.sqes = Some(Mapping { region: Region::Sqes, base, len: lens.sqes });
                        self.stage = Stage::MappingCq;
                        proof {
                            assert(self.held() =~= old(self).held() + old(self).acquired(ev));
                        }
                        Action::MapRegion { region: Region::CqRing, len: lens.cq_ring }
                    },
                    _ => {
                        let cq_mmap = Mapping { region: Region::CqRing, base, len: lens.cq_ring };
                        let fd = self.fd.unwrap();
                        let sq_mmap = self.sq_ring.unwrap();
                        let sqe_mmap = self.sqes.unwrap();
                        let all = Ghost(old(self).held() + old(self).acquired(ev));
                        proof {
                            assert(all@ =~= seq![
                                Resource::Handle(fd),
                                Resource::Mapped(sq_mmap),
                                Resource::Mapped(sqe_mmap),
                                Resource::Mapped(cq_mmap),
                            ]);
                            assert(all@[1].wf() && all@[2].wf() && all@[3].wf() ==> (forall|
                                i: int,
                            | 0 <= i < all@.len() ==> (#[trigger] all@[i]).wf()));
                        }
                        match IoUring::new(fd, &p, sq_mmap, sqe_mmap, cq_mmap) {
                            Ok(ring) => {
                                self.fd = None;
                                self.sq_ring = None;
                                self.sqes = None;
                                self.stage = Stage::Finished;
                                proof {
                                    assert(self.held() =~= Seq::<Resource>::empty());
                                    assert(ring.resources() =~= all@.drop_first().push(all@[0]));
                                }
                                Action::Ready(ring)
                            },
                            Err(e) => {
                                proof {
                                    assert(!(all@[1].wf() && all@[2].wf() && all@[3].wf()));
                                }
                                match self.abort(e) {
                                    Action::Abort { mut release, error } => {
                                        release.push(Resource::Mapped(cq_mmap));
                                        proof {
                                            assert(release@ =~= all@);
                                        }
                                        Action::Abort { release, error }
                                    },
                                    other => other,
                                }
                            },
                        }
                    },
                }
            },
        }
    }
}

} // verus!
