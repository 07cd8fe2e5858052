//! Graph handoff and lifetime reclamation between a control context, which
//! builds and tears down a flat collection of processing nodes, and render
//! contexts, which tick published generations of those nodes.

mod graph;
mod handle;
mod laws;
mod token;
mod unit;

pub use graph::{
    after_retry, counted, decide_poll, record_ids, records_after_poll, requested, retry_verdict,
    spec_decide_poll, spec_min, spec_retry_verdict, with_state, Graph, NodeId, PollStep,
    RecordView, ReleaseState, ReleaseTicket, MAX_BACKOFF_MS,
};
pub use handle::{
    advance_all, phase_after, render_units, samples_of, spec_tick_step, tick_outcome, tick_step, Phase,
    RenderHandle, TickOutput, TickStep,
};
pub use laws::{
    advanced_times, clear_flags, lemma_no_render_after_release, lemma_reclaim_only_at_zero,
    lemma_release_at_most_once, lemma_ticks_render_in_order, lemma_wait_reclaims_by_deadline,
    tick_run, tick_steps, wait_outcome,
};
pub use unit::{mix, ProcessingUnit, Ramp};
