//! Decisions of the server's HTTP endpoints: how requested and reported
//! instance states map, where devices sit on the PCI bus, how guest memory
//! is split, and which upgrade requests the migration and serial-console
//! endpoints accept.

use crate::headers::{
    contains_token, eq_ignore_ascii_case, eq_ignore_case, has_token, header_text, is_header_text,
};
use crate::migrate::{MigrateError, MigrateRole};
use vstd::prelude::*;
use vstd::string::StringSliceAdditionalSpecFns;

verus! {

/// States a client may ask the instance to enter.
#[derive(Debug, PartialEq, Eq, Structural, Clone, Copy)]
pub enum InstanceStateRequested {
    Run,
    Stop,
    Reboot,
    MigrateStart,
}

/// States the instance may be asked to reach.
#[derive(Debug, PartialEq, Eq, Structural, Clone, Copy)]
pub enum ReqState {
    Run,
    Halt,
    Reset,
    StartMigrate,
}

/// Where a migrating instance is in the migration.
#[derive(Debug, PartialEq, Eq, Structural, Clone, Copy)]
pub enum MigratePhase {
    /// The migration was asked for and has not begun.
    Start,
    /// Any later phase.
    Underway,
}

/// States of the instance.
#[derive(Debug, PartialEq, Eq, Structural, Clone, Copy)]
pub enum State {
    Initialize,
    Boot,
    Run,
    Quiesce,
    Migrate(MigrateRole, MigratePhase),
    Halt,
    Reset,
    Destroy,
}

/// States of the instance as reported to clients.
#[derive(Debug, PartialEq, Eq, Structural, Clone, Copy)]
pub enum InstanceState {
    Creating,
    Starting,
    Running,
    Stopping,
    Migrating,
    Stopped,
    Rebooting,
    Destroyed,
}

/// The instance state that a client's request asks for.
pub fn api_to_propolis_state(state: InstanceStateRequested) -> (r: ReqState)
    ensures
        r == match state {
            InstanceStateRequested::Run => ReqState::Run,
            InstanceStateRequested::Stop => ReqState::Halt,
            InstanceStateRequested::Reboot => ReqState::Reset,
            InstanceStateRequested::MigrateStart => ReqState::StartMigrate,
        },
{
    match state {
        InstanceStateRequested::Run => ReqState::Run,
        InstanceStateRequested::Stop => ReqState::Halt,
        InstanceStateRequested::Reboot => ReqState::Reset,
        InstanceStateRequested::MigrateStart => ReqState::StartMigrate,
    }
}

/// The state reported to clients for an instance state.
pub fn propolis_to_api_state(state: State) -> (r: InstanceState)
    ensures
        r == match state {
            State::Initialize => InstanceState::Creating,
            State::Boot => InstanceState::Starting,
            State::Run => InstanceState::Running,
            State::Quiesce => InstanceState::Stopping,
            State::Migrate(_, _) => InstanceState::Migrating,
            State::Halt => InstanceState::Stopped,
            State::Reset => InstanceState::Rebooting,
            State::Destroy => InstanceState::Destroyed,
        },
{
    match state {
        State::Initialize => InstanceState::Creating,
        State::Boot => InstanceState::Starting,
        State::Run => InstanceState::Running,
        State::Quiesce => InstanceState::Stopping,
        State::Migrate(_, _) => InstanceState::Migrating,
        State::Halt => InstanceState::Stopped,
        State::Reset => InstanceState::Rebooting,
        State::Destroy => InstanceState::Destroyed,
    }
}

/// Whether a state monitor asking for generation `gen` is answered now,
/// given the latest generation `last`: once the latter has reached the former.
pub fn monitor_ready(gen: u64, last: u64) -> (r: bool)
    ensures
        r == (gen <= last),
{
    gen <= last
}

/// Kinds of devices placed in PCI slots.
#[derive(Debug, PartialEq, Eq, Structural, Clone, Copy)]
pub enum SlotType {
    NIC,
    Disk,
    CloudInit,
}

/// A PCI bus/device/function triple.
#[derive(Debug, PartialEq, Eq, Structural, Clone, Copy)]
pub struct PciBdf {
    pub bus: u8,
    pub device: u8,
    pub function: u8,
}

/// A slot that has no place on the PCI bus for its kind of device.
#[derive(Debug, PartialEq, Eq, Structural, Clone, Copy)]
pub struct SlotError {
    pub slot: u8,
    pub ty: SlotType,
}

/// Where a slot sits on bus 0: NICs in slots 0 to 7 at devices 8 to 15,
/// disks in slots 0 to 7 at devices 16 to 23, and the cloud-init disk in
/// slot 0 at device 24.
pub open spec fn spec_slot_to_bdf(slot: u8, ty: SlotType) -> Option<PciBdf> {
    match ty {
        SlotType::NIC => if slot <= 7 {
            Some(PciBdf { bus: 0, device: (slot + 8) as u8, function: 0 })
        } else {
            None
        },
        SlotType::Disk => if slot <= 7 {
            Some(PciBdf { bus: 0, device: (slot + 16) as u8, function: 0 })
        } else {
            None
        },
        SlotType::CloudInit => if slot == 0 {
            Some(PciBdf { bus: 0, device: 24, function: 0 })
        } else {
            None
        },
    }
}

/// The PCI address of a slot (see [`spec_slot_to_bdf`]).
pub fn slot_to_bdf(slot: u8, ty: SlotType) -> (r: Result<PciBdf, SlotError>)
    ensures
        match spec_slot_to_bdf(slot, ty) {
            Some(b) => r == Ok::<PciBdf, SlotError>(b),
            None => r == Err::<PciBdf, SlotError>(SlotError { slot, ty }),
        },
{
    match ty {
        SlotType::NIC if slot <= 7 => Ok(PciBdf { bus: 0, device: slot + 0x8, function: 0 }),
        SlotType::Disk if slot <= 7 => Ok(PciBdf { bus: 0, device: slot + 0x10, function: 0 }),
        SlotType::CloudInit if slot == 0 => Ok(PciBdf { bus: 0, device: slot + 0x18, function: 0 }),
        _ => Err(SlotError { slot, ty }),
    }
}

/// Bytes in a MiB.
pub const MB: usize = 1024 * 1024;

/// Guest memory below the 32-bit PCI hole: at most 3 GiB.
pub const LOWMEM_MAX: usize = 3 * 1024 * 1024 * 1024;

/// Splits `memory_mib` MiB of guest memory into the part below 3 GiB and
/// the part above 4 GiB.
pub fn memory_split(memory_mib: u64) -> (r: (usize, usize))
    requires
        memory_mib * 1024 * 1024 <= usize::MAX,
    ensures
        r.0 + r.1 == memory_mib * 1024 * 1024,
        r.0 == if memory_mib * 1024 * 1024 < LOWMEM_MAX {
            memory_mib * 1024 * 1024
        } else {
            LOWMEM_MAX as int
        },
{
    let memsize = memory_mib as usize * MB;
    let lowmem = if memsize < LOWMEM_MAX {
        memsize
    } else {
        LOWMEM_MAX
    };
    let highmem = memsize.saturating_sub(LOWMEM_MAX);
    (lowmem, highmem)
}

/// The name of the migration protocol: its encoding and version.
pub open spec fn spec_protocol_str() -> Seq<char> {
    "propolis-migrate-"@ + "ron"@ + "/"@ + "0"@
}

/// Encodings of the migration protocol.
#[derive(Debug, PartialEq, Eq, Structural, Clone, Copy)]
pub enum ProtocolEncoding {
    Ron,
}

/// The name of an encoding.
pub fn encoding_str(e: ProtocolEncoding) -> (s: &'static str)
    ensures
        s@ == "ron"@,
{
    match e {
        ProtocolEncoding::Ron => "ron",
    }
}

/// The name of the migration protocol, as offered in upgrade requests.
pub fn migration_protocol_str() -> (s: &'static str)
    ensures
        s@ == spec_protocol_str(),
{
    let s = "propolis-migrate-ron/0";
    proof {
        reveal_strlit("propolis-migrate-ron/0");
        reveal_strlit("propolis-migrate-");
        reveal_strlit("ron");
        reveal_strlit("/");
        reveal_strlit("0");
        assert(s@ =~= spec_protocol_str());
    }
    s
}

/// The bytes of the migration protocol's name.
pub open spec fn protocol_bytes() -> Seq<u8> {
    seq![
        0x70u8, 0x72, 0x6f, 0x70, 0x6f, 0x6c, 0x69, 0x73, 0x2d, 0x6d, 0x69, 0x67, 0x72, 0x61,
        0x74, 0x65, 0x2d, 0x72, 0x6f, 0x6e, 0x2f, 0x30,
    ]
}

fn protocol_vec() -> (v: Vec<u8>)
    ensures
        v@ == protocol_bytes(),
{
    vec![
        0x70u8, 0x72, 0x6f, 0x70, 0x6f, 0x6c, 0x69, 0x73, 0x2d, 0x6d, 0x69, 0x67, 0x72, 0x61,
        0x74, 0x65, 0x2d, 0x72, 0x6f, 0x6e, 0x2f, 0x30,
    ]
}

/// The bytes of `upgrade`.
pub open spec fn upgrade_bytes() -> Seq<u8> {
    seq![0x75u8, 0x70, 0x67, 0x72, 0x61, 0x64, 0x65]
}

fn upgrade_vec() -> (v: Vec<u8>)
    ensures
        v@ == upgrade_bytes(),
{
    vec![0x75u8, 0x70, 0x67, 0x72, 0x61, 0x64, 0x65]
}

/// What the migration endpoints know when a request arrives.
pub struct MigrationRequest {
    /// Whether the server has an instance.
    pub initialized: bool,
    /// The instance named in the request.
    pub instance_id: u128,
    /// The server's instance.
    pub current_id: u128,
    /// The instance's state.
    pub state: State,
    /// Whether a migration task exists already.
    pub task_running: bool,
}

/// Why the source refuses to start a migration, if it does: the checks in
/// order, the first that fails deciding.
pub open spec fn source_start_refusal(
    req: MigrationRequest,
    connection: Option<Seq<u8>>,
    upgrade: Option<Seq<u8>>,
) -> Option<MigrateError> {
    if !req.initialized {
        Some(MigrateError::InstanceNotInitialized)
    } else if req.instance_id != req.current_id {
        Some(MigrateError::UuidMismatch)
    } else if req.state != State::Migrate(MigrateRole::Source, MigratePhase::Start) {
        Some(MigrateError::InvalidInstanceState)
    } else if req.task_running {
        Some(MigrateError::MigrationAlreadyInProgress)
    } else if !(connection matches Some(c) && header_text(c) && eq_ignore_case(c, upgrade_bytes())) {
        Some(MigrateError::UpgradeExpected)
    } else {
        match upgrade {
            None => Some(MigrateError::UpgradeExpected),
            Some(u) => if !header_text(u) || !eq_ignore_case(u, protocol_bytes()) {
                Some(MigrateError::Phase)
            } else {
                None
            },
        }
    }
}

/// Reads a header value as text; only for values that are ASCII.
#[verifier::external_body]
fn ascii_header_string(v: &[u8]) -> (s: String)
    requires
        header_text(v@),
    ensures
        vstd::utf8::encode_utf8(s@) == v@,
{
    String::from_utf8_lossy(v).into_owned()
}

/// The source's checks before it starts a migration: `Ok` when it starts,
/// else the error of the first check that fails.  A protocol the source
/// does not speak is an incompatibility naming both protocols (`<unknown>`
/// for one that is not text).
pub fn check_source_start(
    req: &MigrationRequest,
    connection: Option<&[u8]>,
    upgrade: Option<&[u8]>,
) -> (r: Result<(), MigrateError>)
    ensures
        ({
            let c = match connection {
                Some(v) => Some(v@),
                None => None,
            };
            let u = match upgrade {
                Some(v) => Some(v@),
                None => None,
            };
            match source_start_refusal(*req, c, u) {
                None => r is Ok,
                Some(MigrateError::Phase) => r matches Err(MigrateError::Incompatible(s, d)) && s@
                    == spec_protocol_str() && (header_text(u->0) ==> vstd::utf8::encode_utf8(d@)
                    == u->0) && (!header_text(u->0) ==> d@ == "<unknown>"@),
                Some(e) => r == Err::<(), MigrateError>(e),
            }
        }),
{
    if !req.initialized {
        return Err(MigrateError::InstanceNotInitialized);
    }
    if req.instance_id != req.current_id {
        return Err(MigrateError::UuidMismatch);
    }
    match req.state {
        State::Migrate(MigrateRole::Source, MigratePhase::Start) => {},
        _ => {
            return Err(MigrateError::InvalidInstanceState);
        },
    }
    if req.task_running {
        return Err(MigrateError::MigrationAlreadyInProgress);
    }
    let upgrade_word = upgrade_vec();
    let connection_ok = match connection {
        Some(c) => is_header_text(c) && eq_ignore_ascii_case(c, upgrade_word.as_slice()),
        None => false,
    };
    if !connection_ok {
        return Err(MigrateError::UpgradeExpected);
    }
    let src_protocol = migration_protocol_str();
    let dst = match upgrade {
        Some(u) => u,
        None => {
            return Err(MigrateError::UpgradeExpected);
        },
    };
    if !is_header_text(dst) {
        return Err(MigrateError::incompatible(src_protocol, "<unknown>"));
    }
    let protocol = protocol_vec();
    if !eq_ignore_ascii_case(dst, protocol.as_slice()) {
        let dst_protocol = ascii_header_string(dst);
        return Err(MigrateError::incompatible(src_protocol, dst_protocol.as_str()));
    }
    Ok(())
}

/// The destination's checks on the source's answer to its upgrade request:
/// `Ok` when the source switched to the migration protocol.
pub fn check_dest_response(switching_protocols: bool, upgrade: Option<&[u8]>) -> (r: Result<
    (),
    MigrateError,
>)
    ensures
        !switching_protocols ==> r == Err::<(), MigrateError>(MigrateError::Initiate),
        switching_protocols && upgrade is None ==> r == Err::<(), MigrateError>(
            MigrateError::UpgradeExpected,
        ),
        switching_protocols && upgrade is Some ==> ({
            let u = upgrade->0@;
            if header_text(u) && eq_ignore_case(u, protocol_bytes()) {
                r is Ok
            } else {
                r matches Err(MigrateError::Incompatible(s, d)) && d@ == spec_protocol_str() && (
                header_text(u) ==> vstd::utf8::encode_utf8(s@) == u) && (!header_text(u) ==> s@
                    == "<unknown>"@)
            }
        }),
{
    if !switching_protocols {
        return Err(MigrateError::Initiate);
    }
    let dst_protocol = migration_protocol_str();
    let src = match upgrade {
        Some(u) => u,
        None => {
            return Err(MigrateError::UpgradeExpected);
        },
    };
    if !is_header_text(src) {
        return Err(MigrateError::incompatible("<unknown>", dst_protocol));
    }
    let protocol = protocol_vec();
    if !eq_ignore_ascii_case(src, protocol.as_slice()) {
        let src_protocol = ascii_header_string(src);
        return Err(MigrateError::incompatible(src_protocol.as_str(), dst_protocol));
    }
    Ok(())
}

/// The destination's checks before it initiates a migration.
pub fn check_dest_initiate(initialized: bool, instance_id: u128, current_id: u128) -> (r: Result<
    (),
    MigrateError,
>)
    ensures
        !initialized ==> r == Err::<(), MigrateError>(MigrateError::InstanceNotInitialized),
        initialized && instance_id != current_id ==> r == Err::<(), MigrateError>(
            MigrateError::UuidMismatch,
        ),
        initialized && instance_id == current_id ==> r is Ok,
{
    if !initialized {
        return Err(MigrateError::InstanceNotInitialized);
    }
    if instance_id != current_id {
        return Err(MigrateError::UuidMismatch);
    }
    Ok(())
}

/// The checks of a migration status request: a migration must run, and
/// with the given id.
pub fn check_migrate_status(running: Option<u128>, migration_id: u128) -> (r: Result<
    (),
    MigrateError,
>)
    ensures
        running is None ==> r == Err::<(), MigrateError>(MigrateError::NoMigrationInProgress),
        running matches Some(id) && id != migration_id ==> r == Err::<(), MigrateError>(
            MigrateError::UuidMismatch,
        ),
        running == Some(migration_id) ==> r is Ok,
{
    match running {
        None => Err(MigrateError::NoMigrationInProgress),
        Some(id) => if id != migration_id {
            Err(MigrateError::UuidMismatch)
        } else {
            Ok(())
        },
    }
}

/// What a request to ensure an instance leads to.
#[derive(Debug, PartialEq, Eq, Structural, Clone, Copy)]
pub enum EnsureOutcome {
    /// No instance exists: it is created.
    Create,
    /// The same instance exists already: nothing changes.
    Exists,
}

/// Why a request to ensure an instance is refused.
#[derive(Debug, PartialEq, Eq, Structural, Clone, Copy)]
pub enum EnsureError {
    /// The request's path names another instance than its body.
    UuidMismatch,
    /// The server runs another instance (its id).
    AlreadyInitialized(u128),
    /// The server runs this instance with other properties.
    CannotUpdate,
}

/// The decision on a request to ensure an instance (see [`check_ensure`]).
pub open spec fn spec_check_ensure(path_id: u128, props_id: u128, existing: Option<(u128, bool)>) -> Result<
    EnsureOutcome,
    EnsureError,
> {
    if path_id != props_id {
        Err(EnsureError::UuidMismatch)
    } else {
        match existing {
            None => Ok(EnsureOutcome::Create),
            Some((id, same)) => if id != props_id {
                Err(EnsureError::AlreadyInitialized(id))
            } else if !same {
                Err(EnsureError::CannotUpdate)
            } else {
                Ok(EnsureOutcome::Exists)
            },
        }
    }
}

/// Ensuring an instance is idempotent: once a request has created the
/// instance `id`, a second request for it with the same properties leaves
/// it as it is, and one with other properties is refused, as is one for
/// another instance.
pub proof fn lemma_ensure_twice(id: u128, other: u128)
    requires
        other != id,
    ensures
        spec_check_ensure(id, id, None) == Ok::<EnsureOutcome, EnsureError>(EnsureOutcome::Create),
        spec_check_ensure(id, id, Some((id, true))) == Ok::<EnsureOutcome, EnsureError>(
            EnsureOutcome::Exists,
        ),
        spec_check_ensure(id, id, Some((id, false))) == Err::<EnsureOutcome, EnsureError>(
            EnsureError::CannotUpdate,
        ),
        spec_check_ensure(other, other, Some((id, true))) == Err::<EnsureOutcome, EnsureError>(
            EnsureError::AlreadyInitialized(id),
        ),
{
}

/// The decision on a request to ensure the instance `props_id` at the path
/// of `path_id`, given the instance the server runs, if any, with whether
/// its properties equal the request's.
pub fn check_ensure(path_id: u128, props_id: u128, existing: Option<(u128, bool)>) -> (r: Result<
    EnsureOutcome,
    EnsureError,
>)
    ensures
        r == spec_check_ensure(path_id, props_id, existing),
{
    if path_id != props_id {
        return Err(EnsureError::UuidMismatch);
    }
    match existing {
        None => Ok(EnsureOutcome::Create),
        Some((id, same)) => {
            if id != props_id {
                Err(EnsureError::AlreadyInitialized(id))
            } else if !same {
                Err(EnsureError::CannotUpdate)
            } else {
                Ok(EnsureOutcome::Exists)
            }
        },
    }
}

/// Why base64 text does not decode.
#[derive(Debug, PartialEq, Eq, Structural, Clone, Copy)]
pub enum Base64Error {
    /// A byte outside the alphabet (its offset and value).
    InvalidByte(usize, u8),
    /// A length no encoding has.
    InvalidLength,
    /// A last symbol with bits that would be dropped (its offset and value).
    InvalidLastSymbol(usize, u8),
}

/// What standard base64 decoding gives for some bytes.
pub uninterp spec fn base64_decoded(input: Seq<u8>) -> Result<Seq<u8>, Base64Error>;

/// `base64::decode` (standard alphabet, with padding).
#[verifier::external_body]
fn base64_decode(input: &[u8]) -> (r: Result<Vec<u8>, Base64Error>)
    ensures
        match base64_decoded(input@) {
            Ok(b) => r matches Ok(v) && v@ == b,
            Err(e) => r == Err::<Vec<u8>, Base64Error>(e),
        },
{
    match base64::decode(input) {
        Ok(v) => Ok(v),
        Err(base64::DecodeError::InvalidByte(at, b)) => Err(Base64Error::InvalidByte(at, b)),
        Err(base64::DecodeError::InvalidLength) => Err(Base64Error::InvalidLength),
        Err(base64::DecodeError::InvalidLastSymbol(at, b)) => Err(
            Base64Error::InvalidLastSymbol(at, b),
        ),
    }
}

/// The cloud-init disk: where it sits, what it holds, and that the guest
/// may only read it.
#[derive(Debug)]
pub struct CloudInitDisk {
    pub bdf: PciBdf,
    pub bytes: Vec<u8>,
    pub read_only: bool,
}

/// The cloud-init disk for its decoded contents: read-only, at slot 0 of
/// the cloud-init kind.
pub fn cloud_init_disk_from(decoded: Result<Vec<u8>, Base64Error>) -> (r: Result<
    CloudInitDisk,
    Base64Error,
>)
    ensures
        match decoded {
            Ok(b) => r matches Ok(d) && d.bytes@ == b@ && d.read_only && spec_slot_to_bdf(
                0,
                SlotType::CloudInit,
            ) == Some(d.bdf),
            Err(e) => r == Err::<CloudInitDisk, Base64Error>(e),
        },
{
    let bdf = slot_to_bdf(0, SlotType::CloudInit).unwrap();
    match decoded {
        Ok(bytes) => Ok(CloudInitDisk { bdf, bytes, read_only: true }),
        Err(e) => Err(e),
    }
}

/// The cloud-init disk for the base64 text a request carries.
pub fn cloud_init_disk(encoded: &str) -> (r: Result<CloudInitDisk, Base64Error>)
    ensures
        match base64_decoded(encoded.spec_bytes()) {
            Ok(b) => r matches Ok(d) && d.bytes@ == b && d.read_only && spec_slot_to_bdf(
                0,
                SlotType::CloudInit,
            ) == Some(d.bdf),
            Err(e) => r == Err::<CloudInitDisk, Base64Error>(e),
        },
{
    cloud_init_disk_from(base64_decode(encoded.as_bytes()))
}

/// Why the serial console endpoint refuses a WebSocket upgrade.
#[derive(Debug, PartialEq, Eq, Structural, Clone, Copy)]
pub enum SerialUpgradeError {
    /// A client is attached already.
    AlreadyAttached,
    /// The instance has no serial port set up.
    SerialMissing,
    /// The request is no connection upgrade.
    ExpectedUpgrade,
    /// The upgrade is not to WebSocket.
    UnexpectedProtocol,
    /// The WebSocket version is missing or not 13.
    BadVersion,
    /// The WebSocket key is missing.
    MissingKey,
}

/// The WebSocket accept key that answers a request key (RFC 6455: the
/// Base64 of the SHA-1 of the key and a fixed GUID).
pub uninterp spec fn accept_key(request_key: Seq<u8>) -> Seq<char>;

/// `tungstenite::handshake::derive_accept_key`.
#[verifier::external_body]
fn derive_accept_key(request_key: &[u8]) -> (k: String)
    ensures
        k@ == accept_key(request_key@),
{
    tokio_tungstenite::tungstenite::handshake::derive_accept_key(request_key)
}

/// The bytes of `websocket`.
pub open spec fn websocket_bytes() -> Seq<u8> {
    seq![0x77u8, 0x65, 0x62, 0x73, 0x6f, 0x63, 0x6b, 0x65, 0x74]
}

/// A header value that reads as text and has `token` among its pieces.
pub open spec fn header_has_token(h: Option<Seq<u8>>, token: Seq<u8>) -> bool {
    h matches Some(v) && header_text(v) && has_token(v, token)
}

/// Why the serial endpoint refuses an upgrade, if it does: the checks in
/// order, the first that fails deciding.
pub open spec fn serial_refusal(
    attached: bool,
    has_serial: bool,
    connection: Option<Seq<u8>>,
    upgrade: Option<Seq<u8>>,
    version: Option<Seq<u8>>,
    key: Option<Seq<u8>>,
) -> Option<SerialUpgradeError> {
    if attached {
        Some(SerialUpgradeError::AlreadyAttached)
    } else if !has_serial {
        Some(SerialUpgradeError::SerialMissing)
    } else if !header_has_token(connection, upgrade_bytes()) {
        Some(SerialUpgradeError::ExpectedUpgrade)
    } else if !header_has_token(upgrade, websocket_bytes()) {
        Some(SerialUpgradeError::UnexpectedProtocol)
    } else if version != Some(seq![0x31u8, 0x33]) {
        Some(SerialUpgradeError::BadVersion)
    } else if key is None {
        Some(SerialUpgradeError::MissingKey)
    } else {
        None
    }
}

/// An optional header value, as bytes.
pub open spec fn opt_bytes(h: Option<&[u8]>) -> Option<Seq<u8>> {
    match h {
        Some(v) => Some(v@),
        None => None,
    }
}

fn header_token(h: Option<&[u8]>, token: &[u8]) -> (r: bool)
    ensures
        r == header_has_token(opt_bytes(h), token@),
{
    match h {
        Some(v) => is_header_text(v) && contains_token(v, token),
        None => false,
    }
}

/// The serial endpoint's checks on a WebSocket upgrade request: the accept
/// key for the request's key when it goes ahead, else the first check that
/// fails.
pub fn check_serial_upgrade(
    attached: bool,
    has_serial: bool,
    connection: Option<&[u8]>,
    upgrade: Option<&[u8]>,
    version: Option<&[u8]>,
    key: Option<&[u8]>,
) -> (r: Result<String, SerialUpgradeError>)
    ensures
        match serial_refusal(
            attached,
            has_serial,
            opt_bytes(connection),
            opt_bytes(upgrade),
            opt_bytes(version),
            opt_bytes(key),
        ) {
            None => r matches Ok(k) && k@ == accept_key(key->0@),
            Some(e) => r == Err::<String, SerialUpgradeError>(e),
        },
{
    if attached {
        return Err(SerialUpgradeError::AlreadyAttached);
    }
    if !has_serial {
        return Err(SerialUpgradeError::SerialMissing);
    }
    let upgrade_word = upgrade_vec();
    if !header_token(connection, upgrade_word.as_slice()) {
        return Err(SerialUpgradeError::ExpectedUpgrade);
    }
    let websocket = vec![0x77u8, 0x65, 0x62, 0x73, 0x6f, 0x63, 0x6b, 0x65, 0x74];
    proof {
        assert(websocket@ == websocket_bytes());
    }
    if !header_token(upgrade, websocket.as_slice()) {
        return Err(SerialUpgradeError::UnexpectedProtocol);
    }
    let version_ok = match version {
        Some(v) => v.len() == 2 && v[0] == 0x31 && v[1] == 0x33,
        None => false,
    };
    proof {
        if let Some(v) = version {
            if v@.len() == 2 && v@[0] == 0x31 && v@[1] == 0x33 {
                assert(v@ =~= seq![0x31u8, 0x33]);
            }
        }
    }
    if !version_ok {
        return Err(SerialUpgradeError::BadVersion);
    }
    match key {
        Some(k) => Ok(derive_accept_key(k)),
        None => Err(SerialUpgradeError::MissingKey),
    }
}

} // verus!
