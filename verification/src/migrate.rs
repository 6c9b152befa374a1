//! Live migration: its errors, its states, and the decisions the source and
//! the destination take on each protocol message.  The transport, the
//! guest's memory and devices, and the serialisation of structured values
//! stay with the caller.

use crate::codec::{Message, MessageView};
use crate::dirty::{all_zero, is_clear};
use crate::memx::{bitmap_valid, make_mem_offer, validate_bitmap};
use vstd::prelude::*;
use vstd::string::StringExecFns;

verus! {

/// The two ends of a migration.
#[derive(Debug, PartialEq, Eq, Structural, Clone, Copy)]
pub enum MigrateRole {
    Source,
    Destination,
}

/// The phases a migration goes through, as reported to clients.
#[derive(Debug, PartialEq, Eq, Structural, Clone, Copy)]
pub enum MigrationState {
    Sync,
    RamPush,
    Pause,
    RamPushDirty,
    Device,
    Arch,
    RamPull,
    Finish,
    Error,
}

/// Errors which may occur during the course of a migration.
#[derive(Debug, PartialEq, Eq, Clone)]
pub enum MigrateError {
    /// An HTTP operation failed (e.g. establishing the connection between
    /// the source and the destination).
    Http(String),
    /// The migration protocol could not be initiated.
    Initiate,
    /// The source and destination are not compatible (their protocols).
    Incompatible(String, String),
    /// The request was not a connection upgrade.
    UpgradeExpected,
    /// The instance is not initialized.
    InstanceNotInitialized,
    /// The given UUID does not match the instance's or the migration's.
    UuidMismatch,
    /// Another migration is already in progress.
    MigrationAlreadyInProgress,
    /// No migration is in progress.
    NoMigrationInProgress,
    /// Encoding or decoding a migration message failed.
    Codec(String),
    /// The instance is in an invalid state for the operation.
    InvalidInstanceState,
    /// A message arrived out of order.
    UnexpectedMessage,
    /// The source instance's devices or tasks could not be paused.
    SourcePause,
    /// A message arrived that belongs to another phase, or is malformed.
    Phase,
    /// Exporting or importing device state failed.
    DeviceState(DeviceStateError),
    /// The destination does not know the device whose state it received.
    UnknownDevice(String),
    /// The other end ran into an error.
    RemoteError(MigrateRole, String),
}

/// Why a device's state could not be moved.
#[derive(Debug, PartialEq, Eq, Clone)]
pub enum DeviceStateError {
    /// The device cannot be migrated.
    NonMigratable,
    /// Exporting or importing its state failed (the device's message).
    Failed(String),
}

/// How an HTTP client is told of a migration error.
#[derive(Debug, PartialEq, Eq, Structural, Clone, Copy)]
pub enum HttpErrorKind {
    /// 500: the server failed.
    Internal,
    /// 400: the request was wrong.
    BadRequest,
}

/// The HTTP answer for each migration error.
pub open spec fn spec_http_kind(e: MigrateError) -> HttpErrorKind {
    match e {
        MigrateError::MigrationAlreadyInProgress => HttpErrorKind::BadRequest,
        MigrateError::NoMigrationInProgress => HttpErrorKind::BadRequest,
        MigrateError::UuidMismatch => HttpErrorKind::BadRequest,
        MigrateError::UpgradeExpected => HttpErrorKind::BadRequest,
        MigrateError::UnknownDevice(_) => HttpErrorKind::BadRequest,
        _ => HttpErrorKind::Internal,
    }
}

/// Why an instance refused a state transition.
#[derive(Debug, PartialEq, Eq, Structural, Clone, Copy)]
pub enum TransitionError {
    ResetWhileHalted,
    InvalidTarget,
    Terminal,
    MigrationAlreadyInProgress,
}

impl MigrateError {
    /// An incompatibility between the source's and the destination's
    /// protocols.
    pub fn incompatible(src: &str, dst: &str) -> (e: MigrateError)
        ensures
            e matches MigrateError::Incompatible(s, d) && s@ == src@ && d@ == dst@,
    {
        MigrateError::Incompatible(src.to_owned(), dst.to_owned())
    }

    /// The HTTP answer for this error (see [`spec_http_kind`]).
    pub fn http_kind(&self) -> (k: HttpErrorKind)
        ensures
            k == spec_http_kind(*self),
    {
        match self {
            MigrateError::Http(_)
            | MigrateError::Initiate
            | MigrateError::Incompatible(_, _)
            | MigrateError::InstanceNotInitialized
            | MigrateError::InvalidInstanceState
            | MigrateError::Codec(_)
            | MigrateError::UnexpectedMessage
            | MigrateError::SourcePause
            | MigrateError::Phase
            | MigrateError::DeviceState(_)
            | MigrateError::RemoteError(_, _) => HttpErrorKind::Internal,
            MigrateError::MigrationAlreadyInProgress
            | MigrateError::NoMigrationInProgress
            | MigrateError::UuidMismatch
            | MigrateError::UpgradeExpected
            | MigrateError::UnknownDevice(_) => HttpErrorKind::BadRequest,
        }
    }

    /// The migration error for a refused state transition: a migration in
    /// progress stays one, any other refusal is an invalid instance state.
    pub fn from_transition(err: TransitionError) -> (e: MigrateError)
        ensures
            err == TransitionError::MigrationAlreadyInProgress ==> e
                == MigrateError::MigrationAlreadyInProgress,
            err != TransitionError::MigrationAlreadyInProgress ==> e
                == MigrateError::InvalidInstanceState,
    {
        match err {
            TransitionError::ResetWhileHalted
            | TransitionError::InvalidTarget
            | TransitionError::Terminal => MigrateError::InvalidInstanceState,
            TransitionError::MigrationAlreadyInProgress => MigrateError::MigrationAlreadyInProgress,
        }
    }
}

/// Expects an `Okay` message.
pub fn expect_okay(m: &Message) -> (r: Result<(), MigrateError>)
    ensures
        m@ is Okay ==> r == Ok::<(), MigrateError>(()),
        !(m@ is Okay) ==> r == Err::<(), MigrateError>(MigrateError::UnexpectedMessage),
{
    match m {
        Message::Okay => Ok(()),
        _ => Err(MigrateError::UnexpectedMessage),
    }
}

/// Expects a page of guest memory.
pub fn expect_page(m: Message) -> (r: Result<Vec<u8>, MigrateError>)
    ensures
        m@ matches MessageView::Page(p) ==> (r matches Ok(v) && v@ == p),
        !(m@ is Page) ==> r == Err::<Vec<u8>, MigrateError>(MigrateError::UnexpectedMessage),
{
    match m {
        Message::Page(bytes) => Ok(bytes),
        _ => Err(MigrateError::UnexpectedMessage),
    }
}

/// Expects structured data as text.
pub fn expect_serialized(m: Message) -> (r: Result<String, MigrateError>)
    ensures
        m@ matches MessageView::Serialized(t) ==> (r matches Ok(s) && s@ == t),
        !(m@ is Serialized) ==> r == Err::<String, MigrateError>(
            MigrateError::UnexpectedMessage,
        ),
{
    match m {
        Message::Serialized(s) => Ok(s),
        _ => Err(MigrateError::UnexpectedMessage),
    }
}

/// The vCPUs every migrating instance has: 0 to 3.
pub open spec fn expected_vcpus() -> Seq<u32> {
    seq![0u32, 1, 2, 3]
}

/// The destination accepts the source's description only for the vCPUs
/// 0 to 3, in that order.
pub fn check_preamble_vcpus(vcpus: &Vec<u32>) -> (r: Result<(), MigrateError>)
    ensures
        vcpus@ == expected_vcpus() ==> r == Ok::<(), MigrateError>(()),
        vcpus@ != expected_vcpus() ==> r == Err::<(), MigrateError>(
            MigrateError::InvalidInstanceState,
        ),
{
    if vcpus.len() != 4 {
        return Err(MigrateError::InvalidInstanceState);
    }
    let mut i: usize = 0;
    while i < 4
        invariant
            i <= 4,
            vcpus@.len() == 4,
            forall|j: int| 0 <= j < i ==> vcpus@[j] == j,
        decreases 4 - i,
    {
        if vcpus[i] != i as u32 {
            return Err(MigrateError::InvalidInstanceState);
        }
        i += 1;
    }
    assert(vcpus@ =~= expected_vcpus());
    Ok(())
}

/// A guest address range the destination asks about: page aligned, or
/// unbounded at the top (all ones).
pub open spec fn query_range_ok(start: u64, end: u64) -> bool {
    start % 4096 == 0 && (end % 4096 == 0 || end == u64::MAX)
}

/// The source expects a memory query, for an acceptable range.
pub fn check_mem_query(m: &Message) -> (r: Result<(u64, u64), MigrateError>)
    ensures
        match m@ {
            MessageView::MemQuery(s, e) => if query_range_ok(s, e) {
                r == Ok::<(u64, u64), MigrateError>((s, e))
            } else {
                r == Err::<(u64, u64), MigrateError>(MigrateError::Phase)
            },
            _ => r == Err::<(u64, u64), MigrateError>(MigrateError::UnexpectedMessage),
        },
{
    match m {
        Message::MemQuery(start, end) => {
            if *start % 4096 != 0 || (*end % 4096 != 0 && *end != u64::MAX) {
                return Err(MigrateError::Phase);
            }
            Ok((*start, *end))
        },
        _ => Err(MigrateError::UnexpectedMessage),
    }
}

/// What the source does next while the destination pulls memory.
#[derive(Debug)]
pub enum PushStep {
    /// The destination has all it asked for.
    Done,
    /// The destination asks for the pages of a range marked in a bitmap.
    Fetch(u64, u64, Vec<u8>),
}

/// The source's reading of a message during the memory push: the end of
/// it, or a fetch request with a valid bitmap.
pub fn on_push_message(m: Message) -> (r: Result<PushStep, MigrateError>)
    requires
        m@ matches MessageView::MemFetch(_, _, b) ==> b.len() * 8 <= usize::MAX,
    ensures
        match m@ {
            MessageView::MemDone => r matches Ok(PushStep::Done),
            MessageView::MemFetch(s, e, b) => if bitmap_valid(s, e, b) {
                r matches Ok(PushStep::Fetch(s2, e2, b2)) && s2 == s && e2 == e && b2@ == b
            } else {
                r == Err::<PushStep, MigrateError>(MigrateError::Phase)
            },
            _ => r == Err::<PushStep, MigrateError>(MigrateError::UnexpectedMessage),
        },
{
    match m {
        Message::MemDone => Ok(PushStep::Done),
        Message::MemFetch(start, end, bits) => {
            if !validate_bitmap(start, end, bits.as_slice()) {
                return Err(MigrateError::Phase);
            }
            Ok(PushStep::Fetch(start, end, bits))
        },
        _ => Err(MigrateError::UnexpectedMessage),
    }
}

/// The destination expects a transfer announcement with a valid bitmap.
pub fn check_mem_xfer(m: Message) -> (r: Result<(u64, u64, Vec<u8>), MigrateError>)
    requires
        m@ matches MessageView::MemXfer(_, _, b) ==> b.len() * 8 <= usize::MAX,
    ensures
        match m@ {
            MessageView::MemXfer(s, e, b) => if bitmap_valid(s, e, b) {
                r matches Ok((s2, e2, b2)) && s2 == s && e2 == e && b2@ == b
            } else {
                r == Err::<(u64, u64, Vec<u8>), MigrateError>(MigrateError::Phase)
            },
            _ => r == Err::<(u64, u64, Vec<u8>), MigrateError>(MigrateError::UnexpectedMessage),
        },
{
    match m {
        Message::MemXfer(start, end, bits) => {
            if !validate_bitmap(start, end, bits.as_slice()) {
                return Err(MigrateError::Phase);
            }
            Ok((start, end, bits))
        },
        _ => Err(MigrateError::UnexpectedMessage),
    }
}

/// Guest bytes covered by one offer: a 4096-byte bitmap of 4 KiB pages.
pub const OFFER_SPAN: u64 = 4096 * 8 * 4096;

/// The part of the requested range `[req_start, req_end)` that lies in the
/// guest's RAM `[vmm_start, vmm_end)`.
pub open spec fn offer_bounds(vmm_start: u64, vmm_end: u64, req_start: u64, req_end: u64) -> (u64, u64) {
    (
        if req_start > vmm_start {
            req_start
        } else {
            vmm_start
        },
        if req_end < vmm_end {
            req_end
        } else {
            vmm_end
        },
    )
}

/// The `i`-th range the source offers within `[start, end)`: one offer span,
/// cut at `end`.
pub open spec fn offer_range(start: u64, end: u64, i: int) -> (u64, u64) {
    let a = start + i * OFFER_SPAN;
    let b = a + OFFER_SPAN;
    (a as u64, if (end as int) < b {
        end
    } else {
        b as u64
    })
}

/// The number of offer spans that `[start, end)` starts.
pub open spec fn offer_count(start: u64, end: u64) -> int {
    if end <= start {
        0
    } else {
        (end - start + OFFER_SPAN - 1) / (OFFER_SPAN as int)
    }
}

proof fn lemma_offer_count(start: u64, end: u64, n: int)
    requires
        0 <= n,
    ensures
        (start + n * OFFER_SPAN < end) <==> n < offer_count(start, end),
{
    if end > start {
        assert((start + n * OFFER_SPAN < end) <==> n < (end - start + OFFER_SPAN - 1) / (
        OFFER_SPAN as int)) by (nonlinear_arith)
            requires
                end > start,
                0 <= n,
        ;
    } else {
        assert(start + n * OFFER_SPAN >= end) by (nonlinear_arith)
            requires
                end <= start,
                0 <= n,
        ;
    }
}

/// The offers tile the part of RAM that was asked about: the first starts
/// where it starts, each ends where the next begins, the last ends where it
/// ends, and none is empty or longer than one offer span.
pub proof fn lemma_offers_tile(start: u64, end: u64)
    requires
        start < end,
        end + OFFER_SPAN <= u64::MAX + 1,
    ensures
        offer_count(start, end) >= 1,
        offer_range(start, end, 0).0 == start,
        forall|i: int|
            0 <= i < offer_count(start, end) - 1 ==> #[trigger] offer_range(start, end, i).1
                == offer_range(start, end, i + 1).0,
        offer_range(start, end, offer_count(start, end) - 1).1 == end,
        forall|i: int|
            0 <= i < offer_count(start, end) ==> offer_range(start, end, i).0 < #[trigger] offer_range(
                start,
                end,
                i,
            ).1 && offer_range(start, end, i).1 - offer_range(start, end, i).0 <= OFFER_SPAN,
{
    lemma_offer_count(start, end, 0);
    let n = offer_count(start, end);
    assert forall|i: int| 0 <= i < n - 1 implies #[trigger] offer_range(start, end, i).1
        == offer_range(start, end, i + 1).0 by {
        lemma_offer_count(start, end, i + 1);
        assert(start + (i + 1) * OFFER_SPAN == start + i * OFFER_SPAN + OFFER_SPAN) by (nonlinear_arith);
    }
    lemma_offer_count(start, end, n);
    assert(start + n * OFFER_SPAN == start + (n - 1) * OFFER_SPAN + OFFER_SPAN) by (nonlinear_arith);
    assert forall|i: int| 0 <= i < n implies offer_range(start, end, i).0 < #[trigger] offer_range(
        start,
        end,
        i,
    ).1 && offer_range(start, end, i).1 - offer_range(start, end, i).0 <= OFFER_SPAN by {
        lemma_offer_count(start, end, i);
    }
}

/// The source answers a memory query with exactly the overlap of the
/// requested range and guest RAM.  Every offered range lies within both
/// `[req_start, req_end)` and `[vmm_start, vmm_end)` and is not empty; when
/// the two overlap, the first range starts at the larger of the two starts,
/// the last ends at the smaller of the two ends, and each range ends where
/// the next begins; when they do not, nothing is offered.
pub proof fn lemma_offers_cover_overlap(vmm_start: u64, vmm_end: u64, req_start: u64, req_end: u64)
    requires
        (if req_end < vmm_end {
            req_end
        } else {
            vmm_end
        }) + OFFER_SPAN <= u64::MAX + 1,
    ensures
        ({
            let lo = if req_start > vmm_start {
                req_start
            } else {
                vmm_start
            };
            let hi = if req_end < vmm_end {
                req_end
            } else {
                vmm_end
            };
            let (start, end) = offer_bounds(vmm_start, vmm_end, req_start, req_end);
            let n = offer_count(start, end);
            &&& forall|i: int|
                0 <= i < n ==> {
                    let r = #[trigger] offer_range(start, end, i);
                    &&& req_start <= r.0
                    &&& r.1 <= req_end
                    &&& vmm_start <= r.0
                    &&& r.1 <= vmm_end
                    &&& r.0 < r.1
                }
            &&& lo < hi ==> {
                &&& n >= 1
                &&& offer_range(start, end, 0).0 == lo
                &&& offer_range(start, end, n - 1).1 == hi
                &&& forall|i: int|
                    0 <= i < n - 1 ==> #[trigger] offer_range(start, end, i).1 == offer_range(
                        start,
                        end,
                        i + 1,
                    ).0
            }
            &&& hi <= lo ==> n == 0
        }),
{
    let (start, end) = offer_bounds(vmm_start, vmm_end, req_start, req_end);
    let n = offer_count(start, end);
    if start < end {
        lemma_offers_tile(start, end);
    }
    assert forall|i: int| 0 <= i < n implies {
        let r = #[trigger] offer_range(start, end, i);
        &&& start <= r.0
        &&& r.1 <= end
        &&& r.0 < r.1
    } by {
        lemma_offer_count(start, end, i);
        lemma_offers_tile(start, end);
    }
}

/// The ranges the source offers for a query of `[req_start, req_end)`
/// against RAM `[vmm_start, vmm_end)`: the overlap, one offer span at a
/// time.
pub fn offer_ranges(vmm_start: u64, vmm_end: u64, req_start: u64, req_end: u64) -> (r: Vec<(u64, u64)>)
    requires
        offer_bounds(vmm_start, vmm_end, req_start, req_end).1 + OFFER_SPAN <= u64::MAX + 1,
    ensures
        ({
            let (start, end) = offer_bounds(vmm_start, vmm_end, req_start, req_end);
            &&& r@.len() == offer_count(start, end)
            &&& forall|i: int| 0 <= i < r@.len() ==> r@[i] == offer_range(start, end, i)
        }),
{
    let start_gpa = if req_start > vmm_start {
        req_start
    } else {
        vmm_start
    };
    let end_gpa = if req_end < vmm_end {
        req_end
    } else {
        vmm_end
    };
    let mut out: Vec<(u64, u64)> = Vec::new();
    let mut gpa = start_gpa;
    proof {
        lemma_offer_count(start_gpa, end_gpa, 0);
    }
    while gpa < end_gpa
        invariant
            start_gpa <= gpa,
            end_gpa + OFFER_SPAN <= u64::MAX + 1,
            gpa == start_gpa + out@.len() * OFFER_SPAN,
            out@.len() <= offer_count(start_gpa, end_gpa),
            gpa < end_gpa <==> out@.len() < offer_count(start_gpa, end_gpa),
            forall|i: int| 0 <= i < out@.len() ==> out@[i] == offer_range(start_gpa, end_gpa, i),
        decreases offer_count(start_gpa, end_gpa) - out@.len(),
    {
        let next = gpa + OFFER_SPAN;
        let end = if end_gpa < next {
            end_gpa
        } else {
            next
        };
        let ghost n = out@.len();
        out.push((gpa, end));
        proof {
            assert(start_gpa + (n + 1) * OFFER_SPAN == start_gpa + n * OFFER_SPAN + OFFER_SPAN)
                by (nonlinear_arith);
            lemma_offer_count(start_gpa, end_gpa, out@.len() as int);
        }
        gpa = next;
    }
    out
}

/// The offer for the range `[start, end)` with the dirty bitmap `bits`:
/// none when no page is dirty.
pub fn offer_message(start: u64, end: u64, bits: &[u8]) -> (r: Option<Message>)
    requires
        !all_zero(bits@) ==> bitmap_valid(start, end, bits@),
    ensures
        all_zero(bits@) ==> r is None,
        !all_zero(bits@) ==> (r matches Some(m) && m@ == MessageView::MemOffer(start, end, bits@)),
{
    if is_clear(bits) {
        return None;
    }
    Some(make_mem_offer(start, end, bits))
}

/// How a device came out of the source's pause.
#[derive(Debug, PartialEq, Eq, Structural, Clone, Copy)]
pub enum PauseOutcome {
    /// It paused in time.
    Paused,
    /// It did not pause in time.
    TimedOut,
    /// The task waiting for it failed.
    Failed,
}

/// The source's pause succeeds only if every device paused in time.
pub fn check_paused(outcomes: &Vec<PauseOutcome>) -> (r: Result<(), MigrateError>)
    ensures
        (forall|i: int| 0 <= i < outcomes@.len() ==> outcomes@[i] == PauseOutcome::Paused) ==> r
            == Ok::<(), MigrateError>(()),
        !(forall|i: int| 0 <= i < outcomes@.len() ==> outcomes@[i] == PauseOutcome::Paused) ==> r
            == Err::<(), MigrateError>(MigrateError::SourcePause),
{
    let mut i: usize = 0;
    while i < outcomes.len()
        invariant
            i <= outcomes@.len(),
            forall|j: int| 0 <= j < i ==> outcomes@[j] == PauseOutcome::Paused,
        decreases outcomes@.len() - i,
    {
        if outcomes[i] != PauseOutcome::Paused {
            return Err(MigrateError::SourcePause);
        }
        i += 1;
    }
    Ok(())
}

/// How a device's state moves between instances.
#[derive(Debug, PartialEq, Eq, Structural, Clone, Copy)]
pub enum Migrator {
    /// It cannot be moved.
    NonMigratable,
    /// It needs nothing moved.
    Simple,
    /// Its state is exported and imported.
    Custom,
}

/// What the destination does with a device state it received.
#[derive(Debug, PartialEq, Eq, Structural, Clone, Copy)]
pub enum ImportStep {
    /// Nothing: the device needs no state.
    Skip,
    /// Import the state into the device.
    Import,
}

/// The destination's step for the state of the device `name`, given how
/// the device of that name migrates, if the instance has one.
pub fn device_import_step(name: &str, migrator: Option<Migrator>) -> (r: Result<
    ImportStep,
    MigrateError,
>)
    ensures
        match migrator {
            None => r matches Err(MigrateError::UnknownDevice(n)) && n@ == name@,
            Some(Migrator::NonMigratable) => r == Err::<ImportStep, MigrateError>(
                MigrateError::DeviceState(DeviceStateError::NonMigratable),
            ),
            Some(Migrator::Simple) => r == Ok::<ImportStep, MigrateError>(ImportStep::Skip),
            Some(Migrator::Custom) => r == Ok::<ImportStep, MigrateError>(ImportStep::Import),
        },
{
    match migrator {
        None => Err(MigrateError::UnknownDevice(name.to_owned())),
        Some(Migrator::NonMigratable) => Err(
            MigrateError::DeviceState(DeviceStateError::NonMigratable),
        ),
        Some(Migrator::Simple) => Ok(ImportStep::Skip),
        Some(Migrator::Custom) => Ok(ImportStep::Import),
    }
}

/// The name of a migration end in messages.
pub open spec fn spec_role_name(role: MigrateRole) -> Seq<char> {
    match role {
        MigrateRole::Source => "Source"@,
        MigrateRole::Destination => "Destination"@,
    }
}

/// The message of a migration error.
pub open spec fn spec_describe(e: MigrateError) -> Seq<char> {
    match e {
        MigrateError::Http(s) => "HTTP error: "@ + s@,
        MigrateError::Initiate => "couldn't establish migration connection to source instance"@,
        MigrateError::Incompatible(a, b) => "the source ("@ + a@ + ") and destination ("@ + b@
            + ") instances are incompatible for migration"@,
        MigrateError::UpgradeExpected => "expected connection upgrade"@,
        MigrateError::InstanceNotInitialized => "instance is not initialized"@,
        MigrateError::UuidMismatch => "unexpected Uuid"@,
        MigrateError::MigrationAlreadyInProgress => "a migration from the current instance is already in progress"@,
        MigrateError::NoMigrationInProgress => "no migration is currently in progress"@,
        MigrateError::Codec(s) => "codec error: "@ + s@,
        MigrateError::InvalidInstanceState => "encountered invalid instance state"@,
        MigrateError::UnexpectedMessage => "received unexpected migration message"@,
        MigrateError::SourcePause => "failed to pause source instance"@,
        MigrateError::Phase => "received out-of-phase message"@,
        MigrateError::DeviceState(DeviceStateError::NonMigratable) => "failed to migrate device state: "@
            + "device is not migratable"@,
        MigrateError::DeviceState(DeviceStateError::Failed(s)) => "failed to migrate device state: "@
            + s@,
        MigrateError::UnknownDevice(s) => "received device state for unknown device ("@ + s@
            + ")"@,
        MigrateError::RemoteError(role, s) => spec_role_name(role)
            + " migration instance encountered error: "@ + s@,
    }
}

impl MigrateError {
    /// The message of this error (see [`spec_describe`]).
    pub fn describe(&self) -> (s: String)
        ensures
            s@ == spec_describe(*self),
    {
        match self {
            MigrateError::Http(m) => String::from_str("HTTP error: ").concat(m.as_str()),
            MigrateError::Initiate => String::from_str(
                "couldn't establish migration connection to source instance",
            ),
            MigrateError::Incompatible(a, b) => String::from_str("the source (").concat(
                a.as_str(),
            ).concat(") and destination (").concat(b.as_str()).concat(
                ") instances are incompatible for migration",
            ),
            MigrateError::UpgradeExpected => String::from_str("expected connection upgrade"),
            MigrateError::InstanceNotInitialized => String::from_str("instance is not initialized"),
            MigrateError::UuidMismatch => String::from_str("unexpected Uuid"),
            MigrateError::MigrationAlreadyInProgress => String::from_str(
                "a migration from the current instance is already in progress",
            ),
            MigrateError::NoMigrationInProgress => String::from_str(
                "no migration is currently in progress",
            ),
            MigrateError::Codec(m) => String::from_str("codec error: ").concat(m.as_str()),
            MigrateError::InvalidInstanceState => String::from_str(
                "encountered invalid instance state",
            ),
            MigrateError::UnexpectedMessage => String::from_str(
                "received unexpected migration message",
            ),
            MigrateError::SourcePause => String::from_str("failed to pause source instance"),
            MigrateError::Phase => String::from_str("received out-of-phase message"),
            MigrateError::DeviceState(DeviceStateError::NonMigratable) => String::from_str(
                "failed to migrate device state: ",
            ).concat("device is not migratable"),
            MigrateError::DeviceState(DeviceStateError::Failed(m)) => String::from_str(
                "failed to migrate device state: ",
            ).concat(m.as_str()),
            MigrateError::UnknownDevice(m) => String::from_str(
                "received device state for unknown device (",
            ).concat(m.as_str()).concat(")"),
            MigrateError::RemoteError(role, m) => {
                let name = match role {
                    MigrateRole::Source => String::from_str("Source"),
                    MigrateRole::Destination => String::from_str("Destination"),
                };
                name.concat(" migration instance encountered error: ").concat(m.as_str())
            },
        }
    }
}

/// What the protocol takes from a message read from the end `peer`: the
/// message itself, or, when the message is an `Error` frame whose error is
/// `remote`, that error as the peer's failure.
pub fn from_peer(peer: MigrateRole, m: Message, remote: Option<MigrateError>) -> (r: Result<
    Message,
    MigrateError,
>)
    ensures
        match remote {
            Some(e) => r matches Err(MigrateError::RemoteError(p, t)) && p == peer && t@
                == spec_describe(e),
            None => r matches Ok(m2) && m2@ == m@,
        },
{
    match remote {
        Some(e) => Err(MigrateError::RemoteError(peer, e.describe())),
        None => Ok(m),
    }
}

/// What the source does with a device's state.
#[derive(Debug, PartialEq, Eq, Structural, Clone, Copy)]
pub enum ExportStep {
    /// Nothing: the device needs no state moved.
    Skip,
    /// Export its state and send it.
    Export,
}

/// The indices of the devices whose state is exported, in order.
pub open spec fn custom_indices(ms: Seq<Migrator>) -> Seq<usize>
    decreases ms.len(),
{
    if ms.len() == 0 {
        Seq::empty()
    } else if ms.last() == Migrator::Custom {
        custom_indices(ms.drop_last()).push((ms.len() - 1) as usize)
    } else {
        custom_indices(ms.drop_last())
    }
}

/// The source's plan for the devices' state, the devices in the
/// inventory's order: a device that cannot migrate refuses the migration;
/// otherwise the devices with state to export, in order.
pub fn export_plan(migrators: &Vec<Migrator>) -> (r: Result<Vec<usize>, MigrateError>)
    ensures
        (exists|i: int| 0 <= i < migrators@.len() && migrators@[i] == Migrator::NonMigratable)
            ==> r == Err::<Vec<usize>, MigrateError>(
            MigrateError::DeviceState(DeviceStateError::NonMigratable),
        ),
        !(exists|i: int| 0 <= i < migrators@.len() && migrators@[i] == Migrator::NonMigratable)
            ==> (r matches Ok(v) && v@ == custom_indices(migrators@)),
{
    let mut out: Vec<usize> = Vec::new();
    let mut i: usize = 0;
    while i < migrators.len()
        invariant
            i <= migrators@.len(),
            forall|j: int| 0 <= j < i ==> migrators@[j] != Migrator::NonMigratable,
            out@ == custom_indices(migrators@.take(i as int)),
        decreases migrators@.len() - i,
    {
        let m = migrators[i];
        assert(migrators@.take(i + 1).drop_last() =~= migrators@.take(i as int));
        match m {
            Migrator::NonMigratable => {
                return Err(MigrateError::DeviceState(DeviceStateError::NonMigratable));
            },
            Migrator::Simple => {},
            Migrator::Custom => {
                out.push(i);
            },
        }
        i += 1;
    }
    assert(migrators@.take(i as int) =~= migrators@);
    Ok(out)
}

/// The phases of a migration, as each end runs them.
#[derive(Debug, PartialEq, Eq, Structural, Clone, Copy)]
pub enum Phase {
    /// The source describes its machine; the destination checks it.
    Sync,
    /// Guest memory moves while the guest runs.
    RamPush,
    /// The source pauses its devices.
    Pause,
    /// Device state moves.
    Device,
    /// Architectural state moves.
    Arch,
    /// What memory is left moves.
    RamPull,
    /// The two ends agree that the migration is over.
    Finish,
    /// Nothing is left to run.
    Done,
}

/// The phase that follows `p` at the end `role`: the source pauses its
/// devices after pushing memory; the destination goes on to the devices.
pub open spec fn spec_next_phase(role: MigrateRole, p: Phase) -> Phase {
    match p {
        Phase::Sync => Phase::RamPush,
        Phase::RamPush => match role {
            MigrateRole::Source => Phase::Pause,
            MigrateRole::Destination => Phase::Device,
        },
        Phase::Pause => Phase::Device,
        Phase::Device => Phase::Arch,
        Phase::Arch => Phase::RamPull,
        Phase::RamPull => Phase::Finish,
        Phase::Finish => Phase::Done,
        Phase::Done => Phase::Done,
    }
}

/// The phase that follows `p` at the end `role` (see [`spec_next_phase`]).
pub fn next_phase(role: MigrateRole, p: Phase) -> (n: Phase)
    ensures
        n == spec_next_phase(role, p),
{
    match p {
        Phase::Sync => Phase::RamPush,
        Phase::RamPush => match role {
            MigrateRole::Source => Phase::Pause,
            MigrateRole::Destination => Phase::Device,
        },
        Phase::Pause => Phase::Device,
        Phase::Device => Phase::Arch,
        Phase::Arch => Phase::RamPull,
        Phase::RamPull => Phase::Finish,
        Phase::Finish => Phase::Done,
        Phase::Done => Phase::Done,
    }
}

/// The phases an end runs, in order, from the first to `Done`.
pub open spec fn phase_order(role: MigrateRole) -> Seq<Phase> {
    match role {
        MigrateRole::Source => seq![
            Phase::Sync,
            Phase::RamPush,
            Phase::Pause,
            Phase::Device,
            Phase::Arch,
            Phase::RamPull,
            Phase::Finish,
            Phase::Done,
        ],
        MigrateRole::Destination => seq![
            Phase::Sync,
            Phase::RamPush,
            Phase::Device,
            Phase::Arch,
            Phase::RamPull,
            Phase::Finish,
            Phase::Done,
        ],
    }
}

/// An end that starts at `Sync` and steps with [`next_phase`] runs its
/// phases in order, each once, and then stays `Done`.
pub proof fn lemma_phase_order(role: MigrateRole)
    ensures
        phase_order(role)[0] == Phase::Sync,
        phase_order(role).last() == Phase::Done,
        forall|i: int|
            0 <= i < phase_order(role).len() - 1 ==> spec_next_phase(role, #[trigger] phase_order(role)[i])
                == phase_order(role)[i + 1],
        forall|i: int, j: int|
            0 <= i < j < phase_order(role).len() ==> #[trigger] phase_order(role)[i]
                != #[trigger] phase_order(role)[j],
        spec_next_phase(role, Phase::Done) == Phase::Done,
{
}

} // verus!
