use linux_io_uring::{
    check_pow2, Action, Cause, CqOffsets, Event, IoUring, Mapping, Params, Region, Resource,
    RingBuilder, RingError, SqOffsets, Stage, SubmissionQueue, CompletionQueue,
};

/// Offsets in the shape a kernel reports them, for the given ring sizes.
fn params(sq_entries: u32, cq_entries: u32) -> Params {
    let cqes = 320;
    Params {
        sq_entries,
        cq_entries,
        sq_off: SqOffsets {
            head: 0,
            tail: 64,
            ring_mask: 256,
            ring_entries: 264,
            flags: 276,
            dropped: 272,
            array: cqes + cq_entries * 16,
        },
        cq_off: CqOffsets {
            head: 128,
            tail: 192,
            ring_mask: 260,
            ring_entries: 268,
            overflow: 284,
            cqes,
        },
    }
}

fn expect_map(a: Action) -> (Region, usize) {
    match a {
        Action::MapRegion { region, len } => (region, len),
        other => panic!("expected a mapping request, got {:?}", other),
    }
}

fn expect_abort(a: Action) -> (Vec<Resource>, RingError) {
    match a {
        Action::Abort { release, error } => (release, error),
        other => panic!("expected an abort, got {:?}", other),
    }
}

const SQ_BASE: usize = 0x7000_0000;
const SQE_BASE: usize = 0x7100_0000;
const CQ_BASE: usize = 0x7200_0000;

/// Runs construction to the end with every system call succeeding.
fn build(entries: u32, p: Params) -> IoUring {
    let (mut b, a) = RingBuilder::new(entries);
    assert!(matches!(a, Action::Open { entries: e } if e == entries));
    let a = b.step(Event::Opened { fd: 5, params: p });
    assert_eq!(expect_map(a).0, Region::SqRing);
    let a = b.step(Event::Mapped { base: SQ_BASE });
    assert_eq!(expect_map(a).0, Region::Sqes);
    let a = b.step(Event::Mapped { base: SQE_BASE });
    assert_eq!(expect_map(a).0, Region::CqRing);
    match b.step(Event::Mapped { base: CQ_BASE }) {
        Action::Ready(ring) => ring,
        other => panic!("expected a ring, got {:?}", other),
    }
}

#[test]
fn one_entry_ring_reports_one_slot_each() {
    let ring = build(1, params(1, 1));
    assert_eq!(ring.sq().ring_entries(), 1);
    assert_eq!(ring.cq().ring_entries(), 1);
    assert_eq!(ring.sq().ring_mask(), 0);
    assert_eq!(ring.cq().ring_mask(), 0);
}

#[test]
fn zero_entries_rejected_by_kernel_is_resource_error() {
    let (mut b, a) = RingBuilder::new(0);
    assert!(matches!(a, Action::Open { entries: 0 }));
    let (release, error) = expect_abort(b.step(Event::OpenFailed(22)));
    assert!(release.is_empty());
    assert_eq!(error, RingError::Resource(Cause::Os(22)));
    assert!(!b.check_expects(&Event::Mapped { base: SQ_BASE }));
}

#[test]
fn entries_over_ceiling_is_resource_error() {
    let (mut b, _) = RingBuilder::new(65536);
    let (release, error) = expect_abort(b.step(Event::OpenFailed(22)));
    assert!(release.is_empty());
    assert_eq!(error, RingError::Resource(Cause::Os(22)));
}

#[test]
fn kernel_ring_smaller_than_asked_is_resource_error() {
    let (mut b, _) = RingBuilder::new(8);
    let (release, error) = expect_abort(b.step(Event::Opened { fd: 9, params: params(4, 8) }));
    assert_eq!(release, vec![Resource::Handle(9)]);
    assert_eq!(error, RingError::Resource(Cause::Layout));
}

#[test]
fn ring_size_not_power_of_two_is_resource_error() {
    let (mut b, _) = RingBuilder::new(3);
    let (release, error) = expect_abort(b.step(Event::Opened { fd: 9, params: params(3, 6) }));
    assert_eq!(release, vec![Resource::Handle(9)]);
    assert_eq!(error, RingError::Resource(Cause::Layout));
}

#[test]
fn field_outside_region_is_mapping_error() {
    let mut p = params(4, 8);
    p.sq_off.dropped = p.sq_off.array + 4 * 4;
    let (mut b, _) = RingBuilder::new(4);
    let (release, error) = expect_abort(b.step(Event::Opened { fd: 9, params: p }));
    assert_eq!(release, vec![Resource::Handle(9)]);
    assert_eq!(error, RingError::Mapping(Cause::Layout));
}

#[test]
fn second_map_failure_releases_handle_and_first_mapping() {
    let p = params(4, 8);
    let (mut b, _) = RingBuilder::new(4);
    let (_, sq_len) = expect_map(b.step(Event::Opened { fd: 7, params: p }));
    assert_eq!(sq_len, 320 + 8 * 16 + 4 * 4);
    let (_, sqe_len) = expect_map(b.step(Event::Mapped { base: SQ_BASE }));
    assert_eq!(sqe_len, 4 * 64);
    let (release, error) = expect_abort(b.step(Event::MapFailed(12)));
    assert_eq!(
        release,
        vec![
            Resource::Handle(7),
            Resource::Mapped(Mapping { region: Region::SqRing, base: SQ_BASE, len: sq_len }),
        ]
    );
    assert_eq!(error, RingError::Mapping(Cause::Os(12)));
    assert!(!b.check_expects(&Event::Mapped { base: SQE_BASE }));
}

#[test]
fn third_map_failure_releases_everything_acquired() {
    let (mut b, _) = RingBuilder::new(2);
    b.step(Event::Opened { fd: 7, params: params(2, 4) });
    b.step(Event::Mapped { base: SQ_BASE });
    b.step(Event::Mapped { base: SQE_BASE });
    let (release, error) = expect_abort(b.step(Event::MapFailed(12)));
    assert_eq!(release.len(), 3);
    assert_eq!(release[0], Resource::Handle(7));
    assert!(matches!(release[1], Resource::Mapped(Mapping { region: Region::SqRing, .. })));
    assert!(matches!(release[2], Resource::Mapped(Mapping { region: Region::Sqes, .. })));
    assert_eq!(error, RingError::Mapping(Cause::Os(12)));
}

#[test]
fn mapping_past_address_space_end_is_released_too() {
    let p = params(2, 4);
    let (mut b, _) = RingBuilder::new(2);
    b.step(Event::Opened { fd: 7, params: p });
    b.step(Event::Mapped { base: SQ_BASE });
    b.step(Event::Mapped { base: SQE_BASE });
    let (release, error) = expect_abort(b.step(Event::Mapped { base: usize::MAX - 8 }));
    assert_eq!(release.len(), 4);
    assert_eq!(release[0], Resource::Handle(7));
    assert_eq!(
        release[3],
        Resource::Mapped(Mapping { region: Region::CqRing, base: usize::MAX - 8, len: 320 + 4 * 16 })
    );
    assert_eq!(error, RingError::Mapping(Cause::Layout));
}

#[test]
fn teardown_releases_mappings_then_handle() {
    let ring = build(4, params(4, 8));
    let t = ring.teardown();
    assert_eq!(t.len(), 4);
    assert_eq!(t[0], Resource::Mapped(ring.sq().sq_mmap()));
    assert_eq!(t[1], Resource::Mapped(ring.sq().sqe_mmap()));
    assert_eq!(t[2], Resource::Mapped(ring.cq().cq_mmap()));
    assert_eq!(t[3], Resource::Handle(5));
    assert_eq!(ring.fd(), 5);
}

#[test]
fn ready_ring_sizes_are_powers_of_two_at_least_requested() {
    let ring = build(3, params(4, 8));
    assert_eq!(ring.sq().ring_entries(), 4);
    assert_eq!(ring.cq().ring_entries(), 8);
    assert_eq!(ring.sq().ring_mask(), 3);
    assert_eq!(ring.cq().ring_mask(), 7);
}

#[test]
fn masked_index_wraps_onto_slots() {
    let ring = build(4, params(4, 8));
    assert_eq!(ring.sq().slot_index(5), 1);
    assert_eq!(ring.sq().slot_index(u32::MAX), 3);
    assert_eq!(ring.cq().slot_index(13), 5);
    assert_eq!(ring.cq().slot_index(8), 0);
}

#[test]
fn derived_addresses_are_base_plus_offset() {
    let p = params(4, 8);
    let ring = build(4, p);
    let sq = ring.sq();
    assert_eq!(sq.head_addr(), SQ_BASE);
    assert_eq!(sq.tail_addr(), SQ_BASE + 64);
    assert_eq!(sq.ring_mask_addr(), SQ_BASE + 256);
    assert_eq!(sq.ring_entries_addr(), SQ_BASE + 264);
    assert_eq!(sq.flags_addr(), SQ_BASE + 276);
    assert_eq!(sq.dropped_addr(), SQ_BASE + 272);
    assert_eq!(sq.array_addr(), SQ_BASE + 448);
    assert_eq!(sq.sqes_addr(), SQE_BASE);
    let cq = ring.cq();
    assert_eq!(cq.head_addr(), CQ_BASE + 128);
    assert_eq!(cq.tail_addr(), CQ_BASE + 192);
    assert_eq!(cq.ring_mask_addr(), CQ_BASE + 260);
    assert_eq!(cq.ring_entries_addr(), CQ_BASE + 268);
    assert_eq!(cq.overflow_addr(), CQ_BASE + 284);
    assert_eq!(cq.cqes_addr(), CQ_BASE + 320);
    for a in [sq.head_addr(), sq.tail_addr(), sq.flags_addr(), sq.dropped_addr()] {
        assert!(a >= SQ_BASE && a + 4 <= SQ_BASE + sq.sq_mmap().len);
    }
    assert!(cq.cqes_addr() + 8 * 16 <= CQ_BASE + cq.cq_mmap().len);
}

#[test]
fn region_lengths_follow_kernel_sizes() {
    let p = params(4, 8);
    let lens = p.check(4).unwrap();
    assert_eq!(lens.sq_ring, 448 + 4 * 4);
    assert_eq!(lens.sqes, 4 * 64);
    assert_eq!(lens.cq_ring, 320 + 8 * 16);
}

#[test]
fn check_reports_layout_errors() {
    assert_eq!(params(4, 8).check(5), Err(RingError::Resource(Cause::Layout)));
    assert_eq!(params(4, 6).check(4), Err(RingError::Resource(Cause::Layout)));
    let mut p = params(4, 8);
    p.cq_off.overflow = 1000;
    assert_eq!(p.check(4), Err(RingError::Mapping(Cause::Layout)));
    let mut p = params(4, 8);
    p.cq_off.head = u32::MAX;
    assert_eq!(p.check(4), Err(RingError::Mapping(Cause::Layout)));
}

#[test]
fn region_offsets_are_the_kernel_constants() {
    assert_eq!(Region::SqRing.offset(), 0);
    assert_eq!(Region::CqRing.offset(), 0x800_0000);
    assert_eq!(Region::Sqes.offset(), 0x1000_0000);
}

#[test]
fn powers_of_two_are_recognised() {
    assert!(!check_pow2(0));
    assert!(check_pow2(1));
    assert!(check_pow2(2));
    assert!(!check_pow2(3));
    assert!(check_pow2(4096));
    assert!(!check_pow2(4097));
    assert!(check_pow2(1 << 31));
    assert!(!check_pow2(u32::MAX));
}

#[test]
fn queue_rejects_wrong_or_short_mappings() {
    let p = params(4, 8);
    let ring = Mapping { region: Region::SqRing, base: SQ_BASE, len: 464 };
    let sqes = Mapping { region: Region::Sqes, base: SQE_BASE, len: 256 };
    assert!(SubmissionQueue::new(&p, ring, sqes).is_ok());
    let short = Mapping { region: Region::Sqes, base: SQE_BASE, len: 255 };
    assert_eq!(
        SubmissionQueue::new(&p, ring, short).err(),
        Some(RingError::Mapping(Cause::Layout))
    );
    assert_eq!(
        SubmissionQueue::new(&p, sqes, ring).err(),
        Some(RingError::Mapping(Cause::Layout))
    );
    let cq = Mapping { region: Region::CqRing, base: CQ_BASE, len: 448 };
    assert!(CompletionQueue::new(&p, cq).is_ok());
    let cq_short = Mapping { region: Region::CqRing, base: CQ_BASE, len: 447 };
    assert_eq!(
        CompletionQueue::new(&p, cq_short).err(),
        Some(RingError::Mapping(Cause::Layout))
    );
}

#[test]
fn ring_assembles_from_three_mappings() {
    let p = params(2, 4);
    let sq = Mapping { region: Region::SqRing, base: SQ_BASE, len: 384 + 8 };
    let sqes = Mapping { region: Region::Sqes, base: SQE_BASE, len: 128 };
    let cq = Mapping { region: Region::CqRing, base: CQ_BASE, len: 384 };
    let ring = IoUring::new(3, &p, sq, sqes, cq).unwrap();
    assert_eq!(ring.fd(), 3);
    assert_eq!(ring.sq().ring_entries(), 2);
    assert_eq!(IoUring::new(3, &p, sq, sqes, sq).err(), Some(RingError::Mapping(Cause::Layout)));
}

#[test]
fn stage_follows_events() {
    let (mut b, _) = RingBuilder::new(2);
    assert_eq!(b.stage(), Stage::Opening);
    b.step(Event::Opened { fd: 4, params: params(2, 4) });
    assert_eq!(b.stage(), Stage::MappingSqRing);
    assert!(b.check_expects(&Event::MapFailed(1)));
    assert!(!b.check_expects(&Event::OpenFailed(1)));
}
