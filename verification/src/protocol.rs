//! Laws of the lifecycle protocol.
//!
//! A run of a machine is the fold of its step function over a sequence
//! of events; the lemmas here state the guarantees of the start and
//! stop operations over whole runs: a live record blocks a second
//! start, a fresh start persists the identity it spawned, a missing
//! record stops nothing, a confirmed delivery always ends in record
//! cleanup, a stale pid is recovered on both paths, and the forceful
//! signal is sent exactly once, only after a confirmed graceful
//! command failure.

use vstd::prelude::*;

use crate::lifecycle::{
    spec_start_step, spec_stop_step, start_event_fits, stop_event_fits, Delivery, RecordState,
    StartEvent, StartOutcome, StartPhase, StopEvent, StopOutcome, StopPhase,
};
use crate::record::PidInfo;

verus! {

/// The phase reached after feeding `evs` to the start machine from `p`.
pub open spec fn start_run(p: StartPhase, evs: Seq<StartEvent>) -> StartPhase
    decreases evs.len(),
{
    if evs.len() == 0 {
        p
    } else {
        start_run(spec_start_step(p, evs.first()), evs.drop_first())
    }
}

/// Every phase the start machine visits, beginning with `p`.
pub open spec fn start_phases(p: StartPhase, evs: Seq<StartEvent>) -> Seq<StartPhase>
    decreases evs.len(),
{
    if evs.len() == 0 {
        seq![p]
    } else {
        seq![p] + start_phases(spec_start_step(p, evs.first()), evs.drop_first())
    }
}

/// Each event of `evs` answers the phase the machine is in when it
/// arrives.
pub open spec fn start_events_fit(p: StartPhase, evs: Seq<StartEvent>) -> bool
    decreases evs.len(),
{
    evs.len() == 0 || (start_event_fits(p, evs.first()) && start_events_fit(
        spec_start_step(p, evs.first()),
        evs.drop_first(),
    ))
}

/// The phase reached after feeding `evs` to the stop machine from `p`.
pub open spec fn stop_run(p: StopPhase, evs: Seq<StopEvent>) -> StopPhase
    decreases evs.len(),
{
    if evs.len() == 0 {
        p
    } else {
        stop_run(spec_stop_step(p, evs.first()), evs.drop_first())
    }
}

/// Every phase the stop machine visits, beginning with `p`.
pub open spec fn stop_phases(p: StopPhase, evs: Seq<StopEvent>) -> Seq<StopPhase>
    decreases evs.len(),
{
    if evs.len() == 0 {
        seq![p]
    } else {
        seq![p] + stop_phases(spec_stop_step(p, evs.first()), evs.drop_first())
    }
}

/// Each event of `evs` answers the phase the machine is in when it
/// arrives.
pub open spec fn stop_events_fit(p: StopPhase, evs: Seq<StopEvent>) -> bool
    decreases evs.len(),
{
    evs.len() == 0 || (stop_event_fits(p, evs.first()) && stop_events_fit(
        spec_stop_step(p, evs.first()),
        evs.drop_first(),
    ))
}

/// A run of `n` events visits `n + 1` phases.
pub proof fn lemma_stop_phases_len(p: StopPhase, evs: Seq<StopEvent>)
    ensures
        stop_phases(p, evs).len() == evs.len() + 1,
        stop_phases(p, evs)[0] == p,
    decreases evs.len(),
{
    if evs.len() > 0 {
        lemma_stop_phases_len(spec_stop_step(p, evs.first()), evs.drop_first());
    }
}

/// A finished start operation stays finished, whatever arrives.
pub proof fn lemma_start_done_absorbs(o: StartOutcome, evs: Seq<StartEvent>)
    ensures
        start_run(StartPhase::Done(o), evs) == StartPhase::Done(o),
        forall|j: int|
            0 <= j < start_phases(StartPhase::Done(o), evs).len() ==> start_phases(
                StartPhase::Done(o),
                evs,
            )[j] == StartPhase::Done(o),
    decreases evs.len(),
{
    if evs.len() > 0 {
        lemma_start_done_absorbs(o, evs.drop_first());
    }
}

/// A finished stop operation stays finished, whatever arrives.
pub proof fn lemma_stop_done_absorbs(o: StopOutcome, evs: Seq<StopEvent>)
    ensures
        stop_run(StopPhase::Done(o), evs) == StopPhase::Done(o),
        forall|j: int|
            0 <= j < stop_phases(StopPhase::Done(o), evs).len() ==> stop_phases(
                StopPhase::Done(o),
                evs,
            )[j] == StopPhase::Done(o),
    decreases evs.len(),
{
    if evs.len() > 0 {
        lemma_stop_done_absorbs(o, evs.drop_first());
    }
}

/// While a live record exists, a second start is refused: the probe
/// that confirms liveness finishes the machine with `AlreadyRunning`,
/// and no later phase — in particular no `Spawn` — is ever visited.
pub proof fn lemma_second_start_rejected(i: PidInfo, evs: Seq<StartEvent>)
    ensures
        spec_start_step(StartPhase::ProbeExisting(i), StartEvent::ProbeResult(true))
            == StartPhase::Done(StartOutcome::AlreadyRunning),
        forall|j: int|
            0 <= j < start_phases(StartPhase::Done(StartOutcome::AlreadyRunning), evs).len()
                ==> start_phases(StartPhase::Done(StartOutcome::AlreadyRunning), evs)[j]
                != StartPhase::Spawn,
{
    lemma_start_done_absorbs(StartOutcome::AlreadyRunning, evs);
}

/// A start with no existing record and successful outside steps spawns
/// the child and persists exactly the spawned identity before it
/// finishes: the record saved is the record reported.
pub proof fn lemma_fresh_start_persists(info: PidInfo, saved: bool)
    ensures
        spec_start_step(StartPhase::CheckPrivilege, StartEvent::PrivilegeChecked(true))
            == StartPhase::ResolveEnv,
        spec_start_step(StartPhase::ResolveEnv, StartEvent::EnvResolved(true))
            == StartPhase::PrepareDir,
        spec_start_step(StartPhase::PrepareDir, StartEvent::DirPrepared(true))
            == StartPhase::LoadRecord,
        spec_start_step(StartPhase::LoadRecord, StartEvent::RecordLoaded(RecordState::Missing))
            == StartPhase::Spawn,
        spec_start_step(StartPhase::Spawn, StartEvent::SpawnResult(Some(info)))
            == StartPhase::SaveRecord(info),
        spec_start_step(StartPhase::SaveRecord(info), StartEvent::SaveResult(saved))
            == StartPhase::Done(StartOutcome::Started { info, saved }),
{
}

/// A stop with no record finishes at once with `NotRunning`: no signal
/// phase is ever visited afterwards.
pub proof fn lemma_stop_without_record(evs: Seq<StopEvent>)
    ensures
        spec_stop_step(StopPhase::LoadRecord, StopEvent::RecordLoaded(RecordState::Missing))
            == StopPhase::Done(StopOutcome::NotRunning),
        forall|j: int|
            0 <= j < stop_phases(StopPhase::Done(StopOutcome::NotRunning), evs).len()
                ==> !(#[trigger] stop_phases(StopPhase::Done(StopOutcome::NotRunning), evs)[j]
                matches StopPhase::SignalGraceful(_)) && !(stop_phases(
                StopPhase::Done(StopOutcome::NotRunning),
                evs,
            )[j] matches StopPhase::SignalForceful(_)),
{
    lemma_stop_done_absorbs(StopOutcome::NotRunning, evs);
}

/// Once a signal command has confirmed delivery, every fitting
/// completion of the stop operation passes through a record-cleanup
/// phase and finishes with `Terminated` or `StillRunning` — the record
/// is cleared whether or not the process could be confirmed dead.
pub proof fn lemma_delivered_signal_clears_record(i: PidInfo, evs: Seq<StopEvent>)
    requires
        stop_events_fit(StopPhase::VerifyAfterSignal(i), evs),
        stop_run(StopPhase::VerifyAfterSignal(i), evs) matches StopPhase::Done(_),
    ensures
        spec_stop_step(StopPhase::SignalGraceful(i), StopEvent::SignalSent(Delivery::Delivered))
            == StopPhase::VerifyAfterSignal(i),
        spec_stop_step(StopPhase::SignalForceful(i), StopEvent::SignalSent(Delivery::Delivered))
            == StopPhase::VerifyAfterSignal(i),
        exists|j: int|
            0 <= j < stop_phases(StopPhase::VerifyAfterSignal(i), evs).len()
                && (#[trigger] stop_phases(StopPhase::VerifyAfterSignal(i), evs)[j] matches
                StopPhase::Cleanup(_, _)),
        ({
            let fin = stop_run(StopPhase::VerifyAfterSignal(i), evs);
            fin matches StopPhase::Done(o) ==> (o matches StopOutcome::Terminated { .. }
                || o matches StopOutcome::StillRunning { .. })
        }),
{
    let p0 = StopPhase::VerifyAfterSignal(i);
    if evs.len() == 0 {
        assert(stop_run(p0, evs) == p0);
        assert(false);
    }
    let ev0 = evs.first();
    let p1 = spec_stop_step(p0, ev0);
    let rest = evs.drop_first();
    assert(p1 matches StopPhase::Cleanup(_, _));
    assert(stop_run(p0, evs) == stop_run(p1, rest));
    if rest.len() == 0 {
        assert(stop_run(p1, rest) == p1);
        assert(false);
    }
    lemma_stop_phases_len(p0, evs);
    lemma_stop_phases_len(p1, rest);
    assert(stop_phases(p0, evs)[1] == stop_phases(p1, rest)[0]);
    assert(stop_event_fits(p0, ev0) && stop_events_fit(p1, rest));
    let ev1 = rest.first();
    let p2 = spec_stop_step(p1, ev1);
    let rest2 = rest.drop_first();
    assert(stop_event_fits(p1, ev1) && stop_events_fit(p2, rest2));
    assert(ev1 matches StopEvent::CleanupDone(_));
    assert(stop_run(p1, rest) == stop_run(p2, rest2));
    assert(p2 matches StopPhase::Done(o) && (o matches StopOutcome::Terminated { .. }
        || o matches StopOutcome::StillRunning { .. }));
    match p2 {
        StopPhase::Done(o) => {
            lemma_stop_done_absorbs(o, rest2);
        },
        _ => {
            assert(false);
        },
    }
}

/// Corrupt-record recovery: on either operation a record that fails to
/// parse is deleted, and the operation proceeds as if no record had
/// existed — start goes on to spawn, stop reports nothing running.
pub proof fn lemma_corrupt_record_recovered(cleanup_ok: bool)
    ensures
        spec_start_step(StartPhase::LoadRecord, StartEvent::RecordLoaded(RecordState::Corrupt))
            == StartPhase::CleanupStale,
        spec_start_step(StartPhase::CleanupStale, StartEvent::CleanupDone(cleanup_ok))
            == StartPhase::Spawn,
        spec_stop_step(StopPhase::LoadRecord, StopEvent::RecordLoaded(RecordState::Corrupt))
            == StopPhase::CleanupCorrupt,
        spec_stop_step(StopPhase::CleanupCorrupt, StopEvent::CleanupDone(cleanup_ok))
            == StopPhase::Done(StopOutcome::NotRunning),
{
}

/// Stale-pid recovery. A record whose pid no longer answers the probe
/// does not block a start: the stale record is deleted and the machine
/// goes on to spawn. On stop, signal commands that report failure lead
/// to a probe; a pid found gone is treated as already terminated — the
/// record is deleted and the result is `NotRunning`, not a signalling
/// failure.
pub proof fn lemma_stale_pid_recovered(i: PidInfo, cleanup_ok: bool)
    ensures
        spec_start_step(StartPhase::ProbeExisting(i), StartEvent::ProbeResult(false))
            == StartPhase::CleanupStale,
        spec_start_step(StartPhase::CleanupStale, StartEvent::CleanupDone(cleanup_ok))
            == StartPhase::Spawn,
        spec_stop_step(StopPhase::SignalForceful(i), StopEvent::SignalSent(Delivery::CommandFailed))
            == StopPhase::ProbeAfterFailure(i),
        spec_stop_step(StopPhase::ProbeAfterFailure(i), StopEvent::ProbeResult(false))
            == StopPhase::CleanupGone(i),
        spec_stop_step(StopPhase::CleanupGone(i), StopEvent::CleanupDone(cleanup_ok))
            == StopPhase::Done(StopOutcome::NotRunning),
{
}

/// Phases of the stop machine that lie strictly after its signalling
/// stage: no fitting event can lead from one of them back to a signal.
pub open spec fn stop_past_signaling(p: StopPhase) -> bool {
    match p {
        StopPhase::VerifyAfterSignal(_) => true,
        StopPhase::ProbeAfterFailure(_) => true,
        StopPhase::Cleanup(_, _) => true,
        StopPhase::CleanupGone(_) => true,
        StopPhase::Done(_) => true,
        _ => false,
    }
}

proof fn lemma_stop_past_signaling_stays(p: StopPhase, evs: Seq<StopEvent>)
    requires
        stop_past_signaling(p),
        stop_events_fit(p, evs),
    ensures
        forall|j: int|
            0 <= j < stop_phases(p, evs).len() ==> stop_past_signaling(
                #[trigger] stop_phases(p, evs)[j],
            ),
    decreases evs.len(),
{
    if evs.len() == 0 {
        assert(stop_phases(p, evs) =~= seq![p]);
    } else {
        let p1 = spec_stop_step(p, evs.first());
        let rest = evs.drop_first();
        assert(stop_past_signaling(p1));
        lemma_stop_past_signaling_stays(p1, rest);
        lemma_stop_phases_len(p, evs);
        lemma_stop_phases_len(p1, rest);
        assert forall|j: int|
            0 <= j < stop_phases(p, evs).len() implies stop_past_signaling(
            #[trigger] stop_phases(p, evs)[j],
        ) by {
            if j == 0 {
                assert(stop_phases(p, evs)[0] == p);
            } else {
                assert(stop_phases(p, evs)[j] == stop_phases(p1, rest)[j - 1]);
            }
        }
    }
}

/// The escalation policy, in both directions. The forceful signal is
/// reached exactly by a confirmed command failure of the graceful one;
/// and once the machine has left its signalling stage, no fitting run
/// ever signals again — there is no further escalation level.
pub proof fn lemma_escalation_exactly_once(
    p: StopPhase,
    ev: StopEvent,
    i: PidInfo,
    evs: Seq<StopEvent>,
)
    requires
        stop_events_fit(StopPhase::SignalForceful(i), evs),
    ensures
        spec_stop_step(StopPhase::SignalGraceful(i), StopEvent::SignalSent(Delivery::CommandFailed))
            == StopPhase::SignalForceful(i),
        (stop_event_fits(p, ev) && spec_stop_step(p, ev) matches StopPhase::SignalForceful(_))
            ==> (p matches StopPhase::SignalGraceful(_) && ev == StopEvent::SignalSent(
            Delivery::CommandFailed,
        )),
        forall|j: int|
            1 <= j < stop_phases(StopPhase::SignalForceful(i), evs).len()
                ==> !(#[trigger] stop_phases(StopPhase::SignalForceful(i), evs)[j] matches
                StopPhase::SignalGraceful(_)) && !(stop_phases(StopPhase::SignalForceful(i), evs)[j]
                matches StopPhase::SignalForceful(_)),
{
    let p0 = StopPhase::SignalForceful(i);
    if evs.len() > 0 {
        let p1 = spec_stop_step(p0, evs.first());
        assert(stop_past_signaling(p1));
        lemma_stop_past_signaling_stays(p1, evs.drop_first());
        assert forall|j: int|
            1 <= j < stop_phases(p0, evs).len() implies stop_past_signaling(
            stop_phases(p0, evs)[j],
        ) by {
            assert(stop_phases(p0, evs)[j] == stop_phases(p1, evs.drop_first())[j - 1]);
        }
    }
}

} // verus!
