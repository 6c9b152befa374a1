use propolis_server::headers::{
    contains_token, eq_ignore_ascii_case, eq_ignore_ascii_case_at, is_header_text,
};
use propolis_server::migrate::{MigrateError, MigrateRole};
use propolis_server::server::{
    api_to_propolis_state, check_ensure, cloud_init_disk, cloud_init_disk_from, Base64Error,
    EnsureError, EnsureOutcome, check_dest_initiate, check_dest_response, check_migrate_status,
    check_serial_upgrade, check_source_start, encoding_str, memory_split, migration_protocol_str,
    monitor_ready, propolis_to_api_state, slot_to_bdf, InstanceState, InstanceStateRequested,
    MigratePhase, MigrationRequest, PciBdf, ProtocolEncoding, ReqState, SerialUpgradeError,
    SlotError, SlotType, State,
};

#[test]
fn requested_states() {
    assert_eq!(api_to_propolis_state(InstanceStateRequested::Run), ReqState::Run);
    assert_eq!(api_to_propolis_state(InstanceStateRequested::Stop), ReqState::Halt);
    assert_eq!(api_to_propolis_state(InstanceStateRequested::Reboot), ReqState::Reset);
    assert_eq!(api_to_propolis_state(InstanceStateRequested::MigrateStart), ReqState::StartMigrate);
}

#[test]
fn reported_states() {
    assert_eq!(propolis_to_api_state(State::Initialize), InstanceState::Creating);
    assert_eq!(propolis_to_api_state(State::Boot), InstanceState::Starting);
    assert_eq!(propolis_to_api_state(State::Run), InstanceState::Running);
    assert_eq!(propolis_to_api_state(State::Quiesce), InstanceState::Stopping);
    assert_eq!(
        propolis_to_api_state(State::Migrate(MigrateRole::Destination, MigratePhase::Underway)),
        InstanceState::Migrating
    );
    assert_eq!(propolis_to_api_state(State::Halt), InstanceState::Stopped);
    assert_eq!(propolis_to_api_state(State::Reset), InstanceState::Rebooting);
    assert_eq!(propolis_to_api_state(State::Destroy), InstanceState::Destroyed);
}

#[test]
fn monitor_waits_for_generation() {
    assert!(monitor_ready(3, 3));
    assert!(monitor_ready(2, 3));
    assert!(!monitor_ready(4, 3));
}

#[test]
fn slots_on_the_pci_bus() {
    assert_eq!(slot_to_bdf(0, SlotType::NIC), Ok(PciBdf { bus: 0, device: 8, function: 0 }));
    assert_eq!(slot_to_bdf(7, SlotType::NIC), Ok(PciBdf { bus: 0, device: 15, function: 0 }));
    assert_eq!(slot_to_bdf(8, SlotType::NIC), Err(SlotError { slot: 8, ty: SlotType::NIC }));
    assert_eq!(slot_to_bdf(3, SlotType::Disk), Ok(PciBdf { bus: 0, device: 19, function: 0 }));
    assert_eq!(slot_to_bdf(9, SlotType::Disk), Err(SlotError { slot: 9, ty: SlotType::Disk }));
    assert_eq!(slot_to_bdf(0, SlotType::CloudInit), Ok(PciBdf { bus: 0, device: 24, function: 0 }));
    assert_eq!(slot_to_bdf(1, SlotType::CloudInit), Err(SlotError { slot: 1, ty: SlotType::CloudInit }));
}

#[test]
fn memory_is_split_around_the_hole() {
    assert_eq!(memory_split(1024), (1024 << 20, 0));
    assert_eq!(memory_split(3072), (3 << 30, 0));
    assert_eq!(memory_split(4096), (3 << 30, 1 << 30));
    assert_eq!(memory_split(0), (0, 0));
}

#[test]
fn protocol_names() {
    assert_eq!(encoding_str(ProtocolEncoding::Ron), "ron");
    assert_eq!(migration_protocol_str(), "propolis-migrate-ron/0");
}

fn ready_source() -> MigrationRequest {
    MigrationRequest {
        initialized: true,
        instance_id: 7,
        current_id: 7,
        state: State::Migrate(MigrateRole::Source, MigratePhase::Start),
        task_running: false,
    }
}

#[test]
fn source_start_checks_in_order() {
    let up = Some(&b"Upgrade"[..]);
    let proto = Some(&b"propolis-migrate-RON/0"[..]);
    assert_eq!(check_source_start(&ready_source(), up, proto), Ok(()));

    let mut req = ready_source();
    req.initialized = false;
    assert_eq!(check_source_start(&req, up, proto), Err(MigrateError::InstanceNotInitialized));
    let mut req = ready_source();
    req.current_id = 8;
    assert_eq!(check_source_start(&req, up, proto), Err(MigrateError::UuidMismatch));
    let mut req = ready_source();
    req.state = State::Run;
    assert_eq!(check_source_start(&req, up, proto), Err(MigrateError::InvalidInstanceState));
    let mut req = ready_source();
    req.task_running = true;
    assert_eq!(check_source_start(&req, up, proto), Err(MigrateError::MigrationAlreadyInProgress));

    assert_eq!(check_source_start(&ready_source(), None, proto), Err(MigrateError::UpgradeExpected));
    assert_eq!(
        check_source_start(&ready_source(), Some(&b"keep-alive"[..]), proto),
        Err(MigrateError::UpgradeExpected)
    );
    assert_eq!(check_source_start(&ready_source(), up, None), Err(MigrateError::UpgradeExpected));
    assert_eq!(
        check_source_start(&ready_source(), up, Some(&b"propolis-migrate-ron/1"[..])),
        Err(MigrateError::Incompatible(
            "propolis-migrate-ron/0".to_string(),
            "propolis-migrate-ron/1".to_string()
        ))
    );
    assert_eq!(
        check_source_start(&ready_source(), up, Some(&[0xff, 0x00][..])),
        Err(MigrateError::Incompatible("propolis-migrate-ron/0".to_string(), "<unknown>".to_string()))
    );
}

#[test]
fn destination_checks() {
    assert_eq!(check_dest_response(true, Some(&b"propolis-migrate-ron/0"[..])), Ok(()));
    assert_eq!(check_dest_response(false, Some(&b"propolis-migrate-ron/0"[..])), Err(MigrateError::Initiate));
    assert_eq!(check_dest_response(true, None), Err(MigrateError::UpgradeExpected));
    assert_eq!(
        check_dest_response(true, Some(&b"other/2"[..])),
        Err(MigrateError::Incompatible("other/2".to_string(), "propolis-migrate-ron/0".to_string()))
    );
    assert_eq!(
        check_dest_response(true, Some(&[0x80][..])),
        Err(MigrateError::Incompatible("<unknown>".to_string(), "propolis-migrate-ron/0".to_string()))
    );
    assert_eq!(check_dest_initiate(true, 1, 1), Ok(()));
    assert_eq!(check_dest_initiate(false, 1, 1), Err(MigrateError::InstanceNotInitialized));
    assert_eq!(check_dest_initiate(true, 1, 2), Err(MigrateError::UuidMismatch));
}

#[test]
fn migration_status_checks() {
    assert_eq!(check_migrate_status(None, 5), Err(MigrateError::NoMigrationInProgress));
    assert_eq!(check_migrate_status(Some(4), 5), Err(MigrateError::UuidMismatch));
    assert_eq!(check_migrate_status(Some(5), 5), Ok(()));
}

#[test]
fn serial_upgrade_accepts_a_websocket_request() {
    let r = check_serial_upgrade(
        false,
        true,
        Some(&b"keep-alive, Upgrade"[..]),
        Some(&b"WebSocket"[..]),
        Some(&b"13"[..]),
        Some(&b"dGhlIHNhbXBsZSBub25jZQ=="[..]),
    );
    assert_eq!(r, Ok("s3pPLMBiTxaQ9kYGzzhZRbK+xOo=".to_string()));
}

#[test]
fn serial_upgrade_refusals() {
    let c = Some(&b"upgrade"[..]);
    let u = Some(&b"websocket"[..]);
    let v = Some(&b"13"[..]);
    let k = Some(&b"x"[..]);
    assert_eq!(check_serial_upgrade(true, true, c, u, v, k), Err(SerialUpgradeError::AlreadyAttached));
    assert_eq!(check_serial_upgrade(false, false, c, u, v, k), Err(SerialUpgradeError::SerialMissing));
    assert_eq!(
        check_serial_upgrade(false, true, Some(&b"upgrades"[..]), u, v, k),
        Err(SerialUpgradeError::ExpectedUpgrade)
    );
    assert_eq!(check_serial_upgrade(false, true, None, u, v, k), Err(SerialUpgradeError::ExpectedUpgrade));
    assert_eq!(
        check_serial_upgrade(false, true, c, Some(&b"h2c"[..]), v, k),
        Err(SerialUpgradeError::UnexpectedProtocol)
    );
    assert_eq!(
        check_serial_upgrade(false, true, c, u, Some(&b"8"[..]), k),
        Err(SerialUpgradeError::BadVersion)
    );
    assert_eq!(check_serial_upgrade(false, true, c, u, None, k), Err(SerialUpgradeError::BadVersion));
    assert_eq!(check_serial_upgrade(false, true, c, u, v, None), Err(SerialUpgradeError::MissingKey));
}

#[test]
fn header_text_and_case() {
    assert!(is_header_text(b"Upgrade\tx"));
    assert!(!is_header_text(&[b'a', 0x7f]));
    assert!(!is_header_text(&[0xc3, 0xa9]));
    assert!(eq_ignore_ascii_case(b"UpGrAdE", b"upgrade"));
    assert!(!eq_ignore_ascii_case(b"upgrade", b"upgrades"));
    assert!(eq_ignore_ascii_case_at(b"x, WebSocket", 3, 12, b"websocket"));
    assert!(contains_token(b"keep-alive, Upgrade", b"upgrade"));
    assert!(contains_token(b"upgrade", b"UPGRADE"));
    assert!(!contains_token(b"upgraded", b"upgrade"));
    assert!(!contains_token(b"", b"upgrade"));
}

#[test]
fn ensure_decisions() {
    assert_eq!(check_ensure(1, 2, None), Err(EnsureError::UuidMismatch));
    assert_eq!(check_ensure(1, 1, None), Ok(EnsureOutcome::Create));
    assert_eq!(check_ensure(1, 1, Some((1, true))), Ok(EnsureOutcome::Exists));
    assert_eq!(check_ensure(1, 1, Some((1, false))), Err(EnsureError::CannotUpdate));
    assert_eq!(check_ensure(1, 1, Some((9, true))), Err(EnsureError::AlreadyInitialized(9)));
}

#[test]
fn cloud_init_disks() {
    let d = cloud_init_disk("aGVsbG8gd29ybGQ=").unwrap();
    assert_eq!(d.bytes, b"hello world".to_vec());
    assert!(d.read_only);
    assert_eq!(d.bdf, PciBdf { bus: 0, device: 24, function: 0 });
    assert_eq!(cloud_init_disk("@@@@").err(), Some(Base64Error::InvalidByte(0, b'@')));
    let d = cloud_init_disk_from(Ok(vec![1, 2])).unwrap();
    assert_eq!(d.bytes, vec![1, 2]);
    assert_eq!(cloud_init_disk_from(Err(Base64Error::InvalidLength)).err(), Some(Base64Error::InvalidLength));
}
