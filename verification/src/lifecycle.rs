//! The start/stop lifecycle protocol.
//!
//! Each operation is an explicit state machine: a phase names the next
//! outside action to perform (probe the record, send a signal, spawn the
//! child, delete the file), and an event carries that action's outcome
//! back. `spec_start_step` and `spec_stop_step` are the protocol's
//! definition; the executable step functions implement them exactly, and
//! the driving program owns nothing but the I/O. An event that does not
//! answer the current phase leaves the phase unchanged, and a finished
//! phase absorbs every event.

use vstd::prelude::*;

use crate::record::PidInfo;

verus! {

/// What loading the identity record found.
#[derive(Clone, Copy, Debug, PartialEq, Eq, Structural)]
pub enum RecordState {
    /// No record file exists: nothing is running.
    Missing,
    /// A record file exists but does not parse; it must be deleted.
    Corrupt,
    /// A record was read; it may still be stale.
    Present(PidInfo),
}

impl RecordState {
    /// A loaded record carries a well-formed identity.
    pub open spec fn wf(self) -> bool {
        match self {
            RecordState::Present(i) => i.wf(),
            _ => true,
        }
    }
}

/// Outcome of running the privileged signal command.
#[derive(Clone, Copy, Debug, PartialEq, Eq, Structural)]
pub enum Delivery {
    /// The command ran and reported success.
    Delivered,
    /// The command ran and reported failure.
    CommandFailed,
    /// The command could not be run at all.
    DeliveryError,
}

/// Terminal result of the start operation.
#[derive(Clone, Copy, Debug, PartialEq, Eq, Structural)]
pub enum StartOutcome {
    /// The child was spawned; `saved` tells whether its identity record
    /// was persisted (a failure to persist is reported, not fatal).
    Started { info: PidInfo, saved: bool },
    /// A live supervised process already exists; nothing was spawned.
    AlreadyRunning,
    /// Privilege validation failed or was refused.
    PrivilegeRefused,
    /// The invoking user or home directory could not be resolved.
    EnvUnavailable,
    /// The configuration directory could not be prepared.
    DirectoryFailed,
    /// The child could not be spawned.
    SpawnFailed,
}

/// Terminal result of the stop operation.
#[derive(Clone, Copy, Debug, PartialEq, Eq, Structural)]
pub enum StopOutcome {
    /// The process was confirmed gone; `cleaned` tells whether the
    /// record file deletion succeeded (failure is a warning only).
    Terminated { cleaned: bool },
    /// The process still answered the liveness probe; the record is
    /// cleared anyway.
    StillRunning { cleaned: bool },
    /// No usable record existed, or the recorded pid was already gone.
    NotRunning,
    /// Privilege validation failed or was refused.
    PrivilegeRefused,
    /// The home directory could not be resolved.
    EnvUnavailable,
    /// A signal command could not be run, or a live process survived
    /// the forceful signal; the record is left in place.
    SignalFailed,
}

/// Phase of the start operation; each non-terminal phase names the
/// outside action whose outcome the machine waits for.
#[derive(Clone, Copy, Debug, PartialEq, Eq, Structural)]
pub enum StartPhase {
    /// Validate elevated privileges.
    CheckPrivilege,
    /// Resolve the invoking user and home directory.
    ResolveEnv,
    /// Create the configuration directory and force owner-only mode.
    PrepareDir,
    /// Read and decode the identity record.
    LoadRecord,
    /// Probe the OS for the recorded pid.
    ProbeExisting(PidInfo),
    /// Delete the stale or corrupt record file.
    CleanupStale,
    /// Spawn the detached child.
    Spawn,
    /// Persist the new identity record.
    SaveRecord(PidInfo),
    /// The operation is over.
    Done(StartOutcome),
}

/// Outcome of one outside action during start.
#[derive(Clone, Copy, Debug, PartialEq, Eq, Structural)]
pub enum StartEvent {
    PrivilegeChecked(bool),
    EnvResolved(bool),
    DirPrepared(bool),
    RecordLoaded(RecordState),
    ProbeResult(bool),
    CleanupDone(bool),
    SpawnResult(Option<PidInfo>),
    SaveResult(bool),
}

/// Phase of the stop operation.
#[derive(Clone, Copy, Debug, PartialEq, Eq, Structural)]
pub enum StopPhase {
    /// Validate elevated privileges.
    CheckPrivilege,
    /// Resolve the home directory.
    ResolveEnv,
    /// Read and decode the identity record.
    LoadRecord,
    /// Delete the corrupt record file, then report nothing running.
    CleanupCorrupt,
    /// Send the graceful termination signal.
    SignalGraceful(PidInfo),
    /// Send the forceful kill signal (after a confirmed graceful
    /// command failure, never otherwise).
    SignalForceful(PidInfo),
    /// Wait briefly, then probe whether the pid is still alive.
    VerifyAfterSignal(PidInfo),
    /// Both signal commands reported failure: probe to tell a stale
    /// pid from a process that resisted.
    ProbeAfterFailure(PidInfo),
    /// Delete the record; `true` means the probe still saw the process.
    Cleanup(PidInfo, bool),
    /// Delete the record of a pid that no longer exists.
    CleanupGone(PidInfo),
    /// The operation is over.
    Done(StopOutcome),
}

/// Outcome of one outside action during stop.
#[derive(Clone, Copy, Debug, PartialEq, Eq, Structural)]
pub enum StopEvent {
    PrivilegeChecked(bool),
    EnvResolved(bool),
    RecordLoaded(RecordState),
    SignalSent(Delivery),
    ProbeResult(bool),
    CleanupDone(bool),
}

/// Does `ev` answer the action that phase `p` waits for?
pub open spec fn start_event_fits(p: StartPhase, ev: StartEvent) -> bool {
    match (p, ev) {
        (StartPhase::CheckPrivilege, StartEvent::PrivilegeChecked(_)) => true,
        (StartPhase::ResolveEnv, StartEvent::EnvResolved(_)) => true,
        (StartPhase::PrepareDir, StartEvent::DirPrepared(_)) => true,
        (StartPhase::LoadRecord, StartEvent::RecordLoaded(r)) => r.wf(),
        (StartPhase::ProbeExisting(_), StartEvent::ProbeResult(_)) => true,
        (StartPhase::CleanupStale, StartEvent::CleanupDone(_)) => true,
        (StartPhase::Spawn, StartEvent::SpawnResult(r)) => match r {
            Some(i) => i.wf(),
            None => true,
        },
        (StartPhase::SaveRecord(_), StartEvent::SaveResult(_)) => true,
        _ => false,
    }
}

/// The start protocol: privilege check, environment resolution,
/// directory preparation, duplicate-run check against the record,
/// spawn, and persistence of the new identity.
pub open spec fn spec_start_step(p: StartPhase, ev: StartEvent) -> StartPhase {
    match (p, ev) {
        (StartPhase::CheckPrivilege, StartEvent::PrivilegeChecked(ok)) => if ok {
            StartPhase::ResolveEnv
        } else {
            StartPhase::Done(StartOutcome::PrivilegeRefused)
        },
        (StartPhase::ResolveEnv, StartEvent::EnvResolved(ok)) => if ok {
            StartPhase::PrepareDir
        } else {
            StartPhase::Done(StartOutcome::EnvUnavailable)
        },
        (StartPhase::PrepareDir, StartEvent::DirPrepared(ok)) => if ok {
            StartPhase::LoadRecord
        } else {
            StartPhase::Done(StartOutcome::DirectoryFailed)
        },
        (StartPhase::LoadRecord, StartEvent::RecordLoaded(RecordState::Missing)) =>
            StartPhase::Spawn,
        (StartPhase::LoadRecord, StartEvent::RecordLoaded(RecordState::Corrupt)) =>
            StartPhase::CleanupStale,
        (StartPhase::LoadRecord, StartEvent::RecordLoaded(RecordState::Present(i))) =>
            StartPhase::ProbeExisting(i),
        (StartPhase::ProbeExisting(_), StartEvent::ProbeResult(alive)) => if alive {
            StartPhase::Done(StartOutcome::AlreadyRunning)
        } else {
            StartPhase::CleanupStale
        },
        (StartPhase::CleanupStale, StartEvent::CleanupDone(_)) => StartPhase::Spawn,
        (StartPhase::Spawn, StartEvent::SpawnResult(None)) => StartPhase::Done(
            StartOutcome::SpawnFailed,
        ),
        (StartPhase::Spawn, StartEvent::SpawnResult(Some(i))) => StartPhase::SaveRecord(i),
        (StartPhase::SaveRecord(i), StartEvent::SaveResult(ok)) => StartPhase::Done(
            StartOutcome::Started { info: i, saved: ok },
        ),
        (q, _) => q,
    }
}

/// Does `ev` answer the action that phase `p` waits for?
pub open spec fn stop_event_fits(p: StopPhase, ev: StopEvent) -> bool {
    match (p, ev) {
        (StopPhase::CheckPrivilege, StopEvent::PrivilegeChecked(_)) => true,
        (StopPhase::ResolveEnv, StopEvent::EnvResolved(_)) => true,
        (StopPhase::LoadRecord, StopEvent::RecordLoaded(r)) => r.wf(),
        (StopPhase::CleanupCorrupt, StopEvent::CleanupDone(_)) => true,
        (StopPhase::SignalGraceful(_), StopEvent::SignalSent(_)) => true,
        (StopPhase::SignalForceful(_), StopEvent::SignalSent(_)) => true,
        (StopPhase::VerifyAfterSignal(_), StopEvent::ProbeResult(_)) => true,
        (StopPhase::ProbeAfterFailure(_), StopEvent::ProbeResult(_)) => true,
        (StopPhase::Cleanup(_, _), StopEvent::CleanupDone(_)) => true,
        (StopPhase::CleanupGone(_), StopEvent::CleanupDone(_)) => true,
        _ => false,
    }
}

/// The stop protocol: privilege check, record lookup, graceful then —
/// only on a confirmed command failure — forceful signalling, liveness
/// verification, and unconditional record cleanup on every path that
/// confirmed delivery.
pub open spec fn spec_stop_step(p: StopPhase, ev: StopEvent) -> StopPhase {
    match (p, ev) {
        (StopPhase::CheckPrivilege, StopEvent::PrivilegeChecked(ok)) => if ok {
            StopPhase::ResolveEnv
        } else {
            StopPhase::Done(StopOutcome::PrivilegeRefused)
        },
        (StopPhase::ResolveEnv, StopEvent::EnvResolved(ok)) => if ok {
            StopPhase::LoadRecord
        } else {
            StopPhase::Done(StopOutcome::EnvUnavailable)
        },
        (StopPhase::LoadRecord, StopEvent::RecordLoaded(RecordState::Missing)) => StopPhase::Done(
            StopOutcome::NotRunning,
        ),
        (StopPhase::LoadRecord, StopEvent::RecordLoaded(RecordState::Corrupt)) =>
            StopPhase::CleanupCorrupt,
        (StopPhase::LoadRecord, StopEvent::RecordLoaded(RecordState::Present(i))) =>
            StopPhase::SignalGraceful(i),
        (StopPhase::CleanupCorrupt, StopEvent::CleanupDone(_)) => StopPhase::Done(
            StopOutcome::NotRunning,
        ),
        (StopPhase::SignalGraceful(i), StopEvent::SignalSent(Delivery::Delivered)) =>
            StopPhase::VerifyAfterSignal(i),
        (StopPhase::SignalGraceful(i), StopEvent::SignalSent(Delivery::CommandFailed)) =>
            StopPhase::SignalForceful(i),
        (StopPhase::SignalGraceful(_), StopEvent::SignalSent(Delivery::DeliveryError)) =>
            StopPhase::Done(StopOutcome::SignalFailed),
        (StopPhase::SignalForceful(i), StopEvent::SignalSent(Delivery::Delivered)) =>
            StopPhase::VerifyAfterSignal(i),
        (StopPhase::SignalForceful(i), StopEvent::SignalSent(Delivery::CommandFailed)) =>
            StopPhase::ProbeAfterFailure(i),
        (StopPhase::SignalForceful(_), StopEvent::SignalSent(Delivery::DeliveryError)) =>
            StopPhase::Done(StopOutcome::SignalFailed),
        (StopPhase::VerifyAfterSignal(i), StopEvent::ProbeResult(alive)) => StopPhase::Cleanup(
            i,
            alive,
        ),
        (StopPhase::ProbeAfterFailure(i), StopEvent::ProbeResult(alive)) => if alive {
            StopPhase::Done(StopOutcome::SignalFailed)
        } else {
            StopPhase::CleanupGone(i)
        },
        (StopPhase::Cleanup(_, alive), StopEvent::CleanupDone(ok)) => if alive {
            StopPhase::Done(StopOutcome::StillRunning { cleaned: ok })
        } else {
            StopPhase::Done(StopOutcome::Terminated { cleaned: ok })
        },
        (StopPhase::CleanupGone(_), StopEvent::CleanupDone(_)) => StopPhase::Done(
            StopOutcome::NotRunning,
        ),
        (q, _) => q,
    }
}

/// Executes one step of the start protocol.
pub fn start_step(p: StartPhase, ev: StartEvent) -> (r: StartPhase)
    ensures
        r == spec_start_step(p, ev),
{
    match (p, ev) {
        (StartPhase::CheckPrivilege, StartEvent::PrivilegeChecked(ok)) => if ok {
            StartPhase::ResolveEnv
        } else {
            StartPhase::Done(StartOutcome::PrivilegeRefused)
        },
        (StartPhase::ResolveEnv, StartEvent::EnvResolved(ok)) => if ok {
            StartPhase::PrepareDir
        } else {
            StartPhase::Done(StartOutcome::EnvUnavailable)
        },
        (StartPhase::PrepareDir, StartEvent::DirPrepared(ok)) => if ok {
            StartPhase::LoadRecord
        } else {
            StartPhase::Done(StartOutcome::DirectoryFailed)
        },
        (StartPhase::LoadRecord, StartEvent::RecordLoaded(RecordState::Missing)) =>
            StartPhase::Spawn,
        (StartPhase::LoadRecord, StartEvent::RecordLoaded(RecordState::Corrupt)) =>
            StartPhase::CleanupStale,
        (StartPhase::LoadRecord, StartEvent::RecordLoaded(RecordState::Present(i))) =>
            StartPhase::ProbeExisting(i),
        (StartPhase::ProbeExisting(_), StartEvent::ProbeResult(alive)) => if alive {
            StartPhase::Done(StartOutcome::AlreadyRunning)
        } else {
            StartPhase::CleanupStale
        },
        (StartPhase::CleanupStale, StartEvent::CleanupDone(_)) => StartPhase::Spawn,
        (StartPhase::Spawn, StartEvent::SpawnResult(None)) => StartPhase::Done(
            StartOutcome::SpawnFailed,
        ),
        (StartPhase::Spawn, StartEvent::SpawnResult(Some(i))) => StartPhase::SaveRecord(i),
        (StartPhase::SaveRecord(i), StartEvent::SaveResult(ok)) => StartPhase::Done(
            StartOutcome::Started { info: i, saved: ok },
        ),
        (q, _) => q,
    }
}

/// Executes one step of the stop protocol.
pub fn stop_step(p: StopPhase, ev: StopEvent) -> (r: StopPhase)
    ensures
        r == spec_stop_step(p, ev),
{
    match (p, ev) {
        (StopPhase::CheckPrivilege, StopEvent::PrivilegeChecked(ok)) => if ok {
            StopPhase::ResolveEnv
        } else {
            StopPhase::Done(StopOutcome::PrivilegeRefused)
        },
        (StopPhase::ResolveEnv, StopEvent::EnvResolved(ok)) => if ok {
            StopPhase::LoadRecord
        } else {
            StopPhase::Done(StopOutcome::EnvUnavailable)
        },
        (StopPhase::LoadRecord, StopEvent::RecordLoaded(RecordState::Missing)) => StopPhase::Done(
            StopOutcome::NotRunning,
        ),
        (StopPhase::LoadRecord, StopEvent::RecordLoaded(RecordState::Corrupt)) =>
            StopPhase::CleanupCorrupt,
        (StopPhase::LoadRecord, StopEvent::RecordLoaded(RecordState::Present(i))) =>
            StopPhase::SignalGraceful(i),
        (StopPhase::CleanupCorrupt, StopEvent::CleanupDone(_)) => StopPhase::Done(
            StopOutcome::NotRunning,
        ),
        (StopPhase::SignalGraceful(i), StopEvent::SignalSent(Delivery::Delivered)) =>
            StopPhase::VerifyAfterSignal(i),
        (StopPhase::SignalGraceful(i), StopEvent::SignalSent(Delivery::CommandFailed)) =>
            StopPhase::SignalForceful(i),
        (StopPhase::SignalGraceful(_), StopEvent::SignalSent(Delivery::DeliveryError)) =>
            StopPhase::Done(StopOutcome::SignalFailed),
        (StopPhase::SignalForceful(i), StopEvent::SignalSent(Delivery::Delivered)) =>
            StopPhase::VerifyAfterSignal(i),
        (StopPhase::SignalForceful(i), StopEvent::SignalSent(Delivery::CommandFailed)) =>
            StopPhase::ProbeAfterFailure(i),
        (StopPhase::SignalForceful(_), StopEvent::SignalSent(Delivery::DeliveryError)) =>
            StopPhase::Done(StopOutcome::SignalFailed),
        (StopPhase::VerifyAfterSignal(i), StopEvent::ProbeResult(alive)) => StopPhase::Cleanup(
            i,
            alive,
        ),
        (StopPhase::ProbeAfterFailure(i), StopEvent::ProbeResult(alive)) => if alive {
            StopPhase::Done(StopOutcome::SignalFailed)
        } else {
            StopPhase::CleanupGone(i)
        },
        (StopPhase::Cleanup(_, alive), StopEvent::CleanupDone(ok)) => if alive {
            StopPhase::Done(StopOutcome::StillRunning { cleaned: ok })
        } else {
            StopPhase::Done(StopOutcome::Terminated { cleaned: ok })
        },
        (StopPhase::CleanupGone(_), StopEvent::CleanupDone(ok)) => StopPhase::Done(
            StopOutcome::NotRunning,
        ),
        (q, _) => q,
    }
}

} // verus!
