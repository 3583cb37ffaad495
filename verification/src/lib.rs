//! Supervisor for a single long-running privileged child process.
//!
//! The library owns the logic of the start/stop lifecycle: the persisted
//! process-identity record (its canonical byte format, with a verified
//! encoder and decoder), and the decision rules of the two operations,
//! stated as explicit state machines. All input and output — files,
//! signals, privilege checks — is left to the surrounding program, which
//! feeds the machines with the outcomes of each outside step.

mod codec;
mod digits;
mod lifecycle;
mod protocol;
mod record;

pub use codec::{decode_record, encode_record, lemma_encode_injective, spec_encode};
pub use lifecycle::{
    spec_start_step, spec_stop_step, start_event_fits, start_step, stop_event_fits, stop_step,
    Delivery, RecordState, StartEvent, StartOutcome, StartPhase, StopEvent, StopOutcome, StopPhase,
};
pub use protocol::{
    lemma_corrupt_record_recovered, lemma_delivered_signal_clears_record,
    lemma_escalation_exactly_once, lemma_fresh_start_persists, lemma_second_start_rejected,
    lemma_stale_pid_recovered, lemma_stop_without_record, start_events_fit as start_trace_fits,
    start_phases, start_run, stop_events_fit as stop_trace_fits, stop_phases, stop_run,
};
pub use record::PidInfo;
