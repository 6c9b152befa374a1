use propolis_server::codec::Message;
use propolis_server::dirty::{fetch_requests, is_clear, RamQuery};
use propolis_server::migrate::{
    check_mem_query, check_mem_xfer, check_paused, check_preamble_vcpus, device_import_step,
    expect_okay, expect_page, expect_serialized, export_plan, from_peer, offer_message,
    next_phase, offer_ranges, on_push_message, Phase,
    DeviceStateError, HttpErrorKind, ImportStep, MigrateError, MigrateRole, Migrator, PauseOutcome,
    PushStep, TransitionError, OFFER_SPAN,
};

#[test]
fn http_kinds_of_errors() {
    assert_eq!(MigrateError::MigrationAlreadyInProgress.http_kind(), HttpErrorKind::BadRequest);
    assert_eq!(MigrateError::NoMigrationInProgress.http_kind(), HttpErrorKind::BadRequest);
    assert_eq!(MigrateError::UuidMismatch.http_kind(), HttpErrorKind::BadRequest);
    assert_eq!(MigrateError::UpgradeExpected.http_kind(), HttpErrorKind::BadRequest);
    assert_eq!(MigrateError::UnknownDevice("com1".to_string()).http_kind(), HttpErrorKind::BadRequest);
    assert_eq!(MigrateError::Initiate.http_kind(), HttpErrorKind::Internal);
    assert_eq!(MigrateError::Phase.http_kind(), HttpErrorKind::Internal);
    assert_eq!(MigrateError::Http("refused".to_string()).http_kind(), HttpErrorKind::Internal);
    assert_eq!(
        MigrateError::RemoteError(MigrateRole::Source, "x".to_string()).http_kind(),
        HttpErrorKind::Internal
    );
    assert_eq!(
        MigrateError::DeviceState(DeviceStateError::NonMigratable).http_kind(),
        HttpErrorKind::Internal
    );
}

#[test]
fn transition_refusals() {
    assert_eq!(
        MigrateError::from_transition(TransitionError::MigrationAlreadyInProgress),
        MigrateError::MigrationAlreadyInProgress
    );
    assert_eq!(MigrateError::from_transition(TransitionError::Terminal), MigrateError::InvalidInstanceState);
    assert_eq!(
        MigrateError::from_transition(TransitionError::ResetWhileHalted),
        MigrateError::InvalidInstanceState
    );
    assert_eq!(MigrateError::from_transition(TransitionError::InvalidTarget), MigrateError::InvalidInstanceState);
}

#[test]
fn incompatible_names_both_protocols() {
    assert_eq!(
        MigrateError::incompatible("a/0", "b/1"),
        MigrateError::Incompatible("a/0".to_string(), "b/1".to_string())
    );
}

#[test]
fn expected_messages() {
    assert_eq!(expect_okay(&Message::Okay), Ok(()));
    assert_eq!(expect_okay(&Message::MemDone), Err(MigrateError::UnexpectedMessage));
    assert_eq!(expect_page(Message::Page(vec![7; 4])), Ok(vec![7; 4]));
    assert_eq!(expect_page(Message::Okay), Err(MigrateError::UnexpectedMessage));
    assert_eq!(expect_serialized(Message::Serialized("()".to_string())), Ok("()".to_string()));
    assert_eq!(expect_serialized(Message::Blob(vec![])), Err(MigrateError::UnexpectedMessage));
}

#[test]
fn preamble_vcpus() {
    assert_eq!(check_preamble_vcpus(&vec![0, 1, 2, 3]), Ok(()));
    assert_eq!(check_preamble_vcpus(&vec![0, 1, 2]), Err(MigrateError::InvalidInstanceState));
    assert_eq!(check_preamble_vcpus(&vec![0, 1, 3, 2]), Err(MigrateError::InvalidInstanceState));
    assert_eq!(check_preamble_vcpus(&vec![]), Err(MigrateError::InvalidInstanceState));
}

#[test]
fn memory_queries() {
    assert_eq!(check_mem_query(&Message::MemQuery(0, u64::MAX)), Ok((0, u64::MAX)));
    assert_eq!(check_mem_query(&Message::MemQuery(0x1000, 0x3000)), Ok((0x1000, 0x3000)));
    assert_eq!(check_mem_query(&Message::MemQuery(0x1001, 0x3000)), Err(MigrateError::Phase));
    assert_eq!(check_mem_query(&Message::MemQuery(0x1000, 0x3001)), Err(MigrateError::Phase));
    assert_eq!(check_mem_query(&Message::Okay), Err(MigrateError::UnexpectedMessage));
}

#[test]
fn push_messages() {
    assert!(matches!(on_push_message(Message::MemDone), Ok(PushStep::Done)));
    match on_push_message(Message::MemFetch(0, 0x8000, vec![0b1000_0001])) {
        Ok(PushStep::Fetch(s, e, b)) => {
            assert_eq!((s, e), (0, 0x8000));
            assert_eq!(b, vec![0b1000_0001]);
        }
        other => panic!("unexpected {:?}", other),
    }
    // Nine pages need two bytes of bitmap.
    assert!(matches!(on_push_message(Message::MemFetch(0, 0x9000, vec![0xff])), Err(MigrateError::Phase)));
    // Bits past the last page must be clear.
    assert!(matches!(
        on_push_message(Message::MemFetch(0, 0x7000, vec![0b1000_0000])),
        Err(MigrateError::Phase)
    ));
    assert!(matches!(on_push_message(Message::Okay), Err(MigrateError::UnexpectedMessage)));
}

#[test]
fn transfer_announcements() {
    assert_eq!(check_mem_xfer(Message::MemXfer(0x1000, 0x3000, vec![3])), Ok((0x1000, 0x3000, vec![3])));
    assert_eq!(check_mem_xfer(Message::MemXfer(0x1000, 0x1000, vec![])), Err(MigrateError::Phase));
    assert_eq!(check_mem_xfer(Message::MemDone), Err(MigrateError::UnexpectedMessage));
}

#[test]
fn offers_cover_the_overlap_span_by_span() {
    // The overlap of [0, 3 spans + 5 pages) with RAM [1 page, 2 spans + 1 page).
    let r = offer_ranges(0x1000, 2 * OFFER_SPAN + 0x1000, 0, 3 * OFFER_SPAN + 0x5000);
    assert_eq!(
        r,
        vec![
            (0x1000, OFFER_SPAN + 0x1000),
            (OFFER_SPAN + 0x1000, 2 * OFFER_SPAN + 0x1000),
        ]
    );
    let r = offer_ranges(0, 0x4000, 0x2000, u64::MAX);
    assert_eq!(r, vec![(0x2000, 0x4000)]);
    assert!(offer_ranges(0x10000, 0x20000, 0x30000, 0x40000).is_empty());
}

#[test]
fn offers_skip_clean_ranges() {
    assert!(offer_message(0, 0x8000, &[0]).is_none());
    match offer_message(0, 0x8000, &[0b10]) {
        Some(Message::MemOffer(s, e, b)) => assert_eq!((s, e, b), (0, 0x8000, vec![0b10])),
        other => panic!("unexpected {:?}", other),
    }
}

#[test]
fn pause_needs_every_device() {
    assert_eq!(check_paused(&vec![]), Ok(()));
    assert_eq!(check_paused(&vec![PauseOutcome::Paused, PauseOutcome::Paused]), Ok(()));
    assert_eq!(
        check_paused(&vec![PauseOutcome::Paused, PauseOutcome::TimedOut]),
        Err(MigrateError::SourcePause)
    );
    assert_eq!(check_paused(&vec![PauseOutcome::Failed]), Err(MigrateError::SourcePause));
}

#[test]
fn device_imports() {
    assert_eq!(
        device_import_step("com9", None),
        Err(MigrateError::UnknownDevice("com9".to_string()))
    );
    assert_eq!(
        device_import_step("com1", Some(Migrator::NonMigratable)),
        Err(MigrateError::DeviceState(DeviceStateError::NonMigratable))
    );
    assert_eq!(device_import_step("com1", Some(Migrator::Simple)), Ok(ImportStep::Skip));
    assert_eq!(device_import_step("block0", Some(Migrator::Custom)), Ok(ImportStep::Import));
}

#[test]
fn ram_query_gathers_offers() {
    let mut q = RamQuery::new();
    assert_eq!(q.on_message(&Message::MemOffer(0x2000, 0xa000, vec![0b0000_0101])), Ok(false));
    assert_eq!(q.highest(), 0xa000);
    // Two clear bits pad up to page 2, then the offer's eight bits.
    assert_eq!(q.dirty_bytes(), &[0b0001_0100, 0]);
    assert_eq!(q.on_message(&Message::MemOffer(0x2000, 0x3000, vec![0b1000_0000])), Err(MigrateError::Phase));
    assert_eq!(q.on_message(&Message::MemEnd(0, 5)), Err(MigrateError::Phase));
    assert_eq!(q.on_message(&Message::Okay), Err(MigrateError::UnexpectedMessage));
    assert_eq!(q.on_message(&Message::MemEnd(0, u64::MAX)), Ok(true));
    assert_eq!(q.highest(), 0xa000);
}

#[test]
fn fetches_cover_the_marked_chunks() {
    let mut raw = vec![0u8; 4096 * 2 + 10];
    raw[4096 + 3] = 1;
    raw[2 * 4096 + 9] = 0x80;
    let reqs = fetch_requests(&raw, u64::MAX);
    assert_eq!(reqs.len(), 2);
    let span = 4096u64 * 8 * 4096;
    assert_eq!((reqs[0].start, reqs[0].end), (span, 2 * span));
    assert_eq!(reqs[0].bitmap.len(), 4096);
    assert_eq!((reqs[1].start, reqs[1].end), (2 * span, 2 * span + 10 * 8 * 4096));
    assert_eq!(reqs[1].bitmap, raw[2 * 4096..].to_vec());
    // The highest address offered caps the last request.
    let reqs = fetch_requests(&raw, 2 * span + 0x1000);
    assert_eq!(reqs[1].end, 2 * span + 0x1000);
    assert!(fetch_requests(&[0, 0, 0], 100).is_empty());
    assert!(is_clear(&[0, 0]));
    assert!(!is_clear(&[0, 4]));
}

#[test]
fn error_messages() {
    assert_eq!(MigrateError::Phase.describe(), "received out-of-phase message");
    assert_eq!(MigrateError::Http("refused".to_string()).describe(), "HTTP error: refused");
    assert_eq!(
        MigrateError::Incompatible("a/0".to_string(), "b/1".to_string()).describe(),
        "the source (a/0) and destination (b/1) instances are incompatible for migration"
    );
    assert_eq!(
        MigrateError::UnknownDevice("com9".to_string()).describe(),
        "received device state for unknown device (com9)"
    );
    assert_eq!(
        MigrateError::RemoteError(MigrateRole::Destination, "x".to_string()).describe(),
        "Destination migration instance encountered error: x"
    );
}

#[test]
fn messages_from_the_peer() {
    assert!(matches!(from_peer(MigrateRole::Source, Message::Okay, None), Ok(Message::Okay)));
    assert_eq!(
        from_peer(MigrateRole::Destination, Message::Error("Phase".to_string()), Some(MigrateError::Phase))
            .err(),
        Some(MigrateError::RemoteError(
            MigrateRole::Destination,
            "received out-of-phase message".to_string()
        ))
    );
}

#[test]
fn device_exports() {
    assert_eq!(export_plan(&vec![]), Ok(vec![]));
    assert_eq!(
        export_plan(&vec![Migrator::Simple, Migrator::Custom, Migrator::Custom]),
        Ok(vec![1, 2])
    );
    assert_eq!(
        export_plan(&vec![Migrator::Custom, Migrator::NonMigratable]),
        Err(MigrateError::DeviceState(DeviceStateError::NonMigratable))
    );
}

#[test]
fn phases_in_order() {
    let mut order = vec![Phase::Sync];
    while *order.last().unwrap() != Phase::Done {
        order.push(next_phase(MigrateRole::Source, *order.last().unwrap()));
    }
    assert_eq!(
        order,
        vec![
            Phase::Sync,
            Phase::RamPush,
            Phase::Pause,
            Phase::Device,
            Phase::Arch,
            Phase::RamPull,
            Phase::Finish,
            Phase::Done
        ]
    );
    assert_eq!(next_phase(MigrateRole::Destination, Phase::RamPush), Phase::Device);
    assert_eq!(next_phase(MigrateRole::Destination, Phase::Done), Phase::Done);
}
