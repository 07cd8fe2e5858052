use crate::graph::{spec_decide_poll, PollStep};
use crate::handle::{
    advance_all, phase_after, samples_of, spec_tick_step, tick_outcome, Phase, TickOutput, TickStep,
};
use crate::unit::{mix, ProcessingUnit};
use vstd::prelude::*;

verus! {

/// The steps a handle starting in `phase` takes over a run of ticks, where
/// `flags[k]` is the release flag read at the start of tick `k`.
pub open spec fn tick_steps(phase: Phase, flags: Seq<bool>) -> Seq<TickStep>
    decreases flags.len(),
{
    if flags.len() == 0 {
        Seq::empty()
    } else {
        let step = spec_tick_step(phase, flags[0]);
        seq![step].add(tick_steps(phase_after(phase, step), flags.drop_first()))
    }
}

proof fn lemma_tick_steps(phase: Phase, flags: Seq<bool>)
    ensures
        tick_steps(phase, flags).len() == flags.len(),
        phase == Phase::Acknowledged ==> forall|k: int|
            0 <= k < flags.len() ==> tick_steps(phase, flags)[k] == TickStep::Idle,
        forall|i: int, j: int|
            0 <= i < j < flags.len() && tick_steps(phase, flags)[i] == TickStep::Release
                ==> tick_steps(phase, flags)[j] == TickStep::Idle,
        forall|k: int|
            0 <= k < flags.len() && flags[k] ==> tick_steps(phase, flags)[k] != TickStep::Render,
    decreases flags.len(),
{
    if flags.len() > 0 {
        let step = spec_tick_step(phase, flags[0]);
        let next = phase_after(phase, step);
        let rest = flags.drop_first();
        lemma_tick_steps(next, rest);
        let steps = tick_steps(phase, flags);
        assert forall|k: int| 1 <= k < flags.len() implies steps[k] == tick_steps(next, rest)[k - 1]
            && flags[k] == rest[k - 1] by {}
    }
}

/// A handle touches its nodes only while it is still counted as a holder:
/// no tick that reads the release flag set renders, an acknowledged handle
/// never renders again, and after the tick that gives up the count every
/// later tick does nothing.
pub proof fn lemma_no_render_after_release(phase: Phase, flags: Seq<bool>)
    ensures
        forall|k: int|
            0 <= k < flags.len() && flags[k] ==> tick_steps(phase, flags)[k] != TickStep::Render,
        phase == Phase::Acknowledged ==> forall|k: int|
            0 <= k < flags.len() ==> tick_steps(phase, flags)[k] != TickStep::Render,
        forall|i: int, j: int|
            0 <= i < j < flags.len() && tick_steps(phase, flags)[i] == TickStep::Release
                ==> tick_steps(phase, flags)[j] != TickStep::Render,
{
    lemma_tick_steps(phase, flags);
}

/// A handle gives up its holder count at most once in its lifetime, and
/// never once it is acknowledged: the count is never decremented twice for
/// one increment.
pub proof fn lemma_release_at_most_once(phase: Phase, flags: Seq<bool>)
    ensures
        forall|i: int, j: int|
            0 <= i < j < flags.len() ==> !(tick_steps(phase, flags)[i] == TickStep::Release
                && tick_steps(phase, flags)[j] == TickStep::Release),
        phase == Phase::Acknowledged ==> forall|k: int|
            0 <= k < flags.len() ==> tick_steps(phase, flags)[k] != TickStep::Release,
{
    lemma_tick_steps(phase, flags);
}

/// The outcome of a whole wait that starts polling at `elapsed_ms`, with the
/// holder count nonzero before `zero_at_ms` and zero from then on.
pub open spec fn wait_outcome(zero_at_ms: u64, elapsed_ms: u64, timeout_ms: u64, delay_ms: u64) -> PollStep
    decreases timeout_ms - elapsed_ms,
{
    let holders: u64 = if elapsed_ms >= zero_at_ms { 0 } else { 1 };
    match spec_decide_poll(holders, elapsed_ms, timeout_ms, delay_ms) {
        PollStep::Wait { sleep_ms, next_delay_ms } => if elapsed_ms < timeout_ms && sleep_ms > 0
            && sleep_ms <= timeout_ms - elapsed_ms {
            wait_outcome(zero_at_ms, (elapsed_ms + sleep_ms) as u64, timeout_ms, next_delay_ms)
        } else {
            PollStep::Wait { sleep_ms, next_delay_ms }
        },
        step => step,
    }
}

/// A wait never times out early and never misses the release: it ends
/// `Reclaimed` exactly when the holder count reaches zero by the deadline,
/// as it does when the render context ticks within the timeout, and
/// `TimedOut` otherwise. Every sleep is at least one millisecond and never
/// passes the deadline, so a poll falls on the deadline itself.
pub proof fn lemma_wait_reclaims_by_deadline(
    zero_at_ms: u64,
    elapsed_ms: u64,
    timeout_ms: u64,
    delay_ms: u64,
)
    requires
        elapsed_ms <= timeout_ms,
    ensures
        zero_at_ms <= timeout_ms ==> wait_outcome(zero_at_ms, elapsed_ms, timeout_ms, delay_ms)
            == PollStep::Reclaimed,
        zero_at_ms > timeout_ms ==> wait_outcome(zero_at_ms, elapsed_ms, timeout_ms, delay_ms)
            == PollStep::TimedOut,
    decreases timeout_ms - elapsed_ms,
{
    let holders: u64 = if elapsed_ms >= zero_at_ms { 0 } else { 1 };
    match spec_decide_poll(holders, elapsed_ms, timeout_ms, delay_ms) {
        PollStep::Wait { sleep_ms, next_delay_ms } => {
            lemma_wait_reclaims_by_deadline(
                zero_at_ms,
                (elapsed_ms + sleep_ms) as u64,
                timeout_ms,
                next_delay_ms,
            );
        },
        _ => {},
    }
}

/// A poll drops a generation only on reading zero holders, and parks it only
/// on reading some: a generation with a holder left is never reclaimed, and
/// one whose holders are gone is never reported as timed out.
pub proof fn lemma_reclaim_only_at_zero(holders: u64, elapsed_ms: u64, timeout_ms: u64, delay_ms: u64)
    ensures
        (spec_decide_poll(holders, elapsed_ms, timeout_ms, delay_ms) == PollStep::Reclaimed) <==> (
        holders == 0),
        spec_decide_poll(holders, elapsed_ms, timeout_ms, delay_ms) == PollStep::TimedOut ==> holders
            > 0 && elapsed_ms >= timeout_ms,
{
}

/// The units after `k` render passes.
pub open spec fn advanced_times<U: ProcessingUnit>(units: Seq<U>, k: nat) -> Seq<U>
    decreases k,
{
    if k == 0 {
        units
    } else {
        advance_all(advanced_times(units, (k - 1) as nat))
    }
}

/// The outputs of a run of ticks of a handle with `units` in `phase`, where
/// `flags[k]` is the release flag read at the start of tick `k`.
pub open spec fn tick_run<U: ProcessingUnit>(units: Seq<U>, phase: Phase, flags: Seq<bool>) -> Seq<
    TickOutput,
>
    decreases flags.len(),
{
    if flags.len() == 0 {
        Seq::empty()
    } else {
        let o = tick_outcome(units, phase, flags[0]);
        seq![o.0].add(tick_run(o.1, o.2, flags.drop_first()))
    }
}

/// `n` reads of the release flag that all find it clear.
pub open spec fn clear_flags(n: nat) -> Seq<bool> {
    Seq::new(n, |_i: int| false)
}

proof fn lemma_advanced_times_shift<U: ProcessingUnit>(units: Seq<U>, k: nat)
    ensures
        advanced_times(advance_all(units), k) == advanced_times(units, k + 1),
    decreases k,
{
    if k > 0 {
        lemma_advanced_times_shift(units, (k - 1) as nat);
        assert(advanced_times(units, k + 1) == advance_all(advanced_times(units, k)));
    } else {
        assert(advanced_times(units, 0) == units);
        assert(advanced_times(units, 1) == advance_all(advanced_times(units, 0)));
    }
}

/// Rendering is deterministic and keeps its order: while the flag reads
/// clear, tick `k` of an active handle yields exactly the combined sample of
/// its units after `k` render passes, whatever ran before, with no
/// reordering of nodes across ticks.
pub proof fn lemma_ticks_render_in_order<U: ProcessingUnit>(units: Seq<U>, n: nat)
    ensures
        tick_run(units, Phase::Active, clear_flags(n)).len() == n,
        forall|k: int|
            0 <= k < n ==> #[trigger] tick_run(units, Phase::Active, clear_flags(n))[k]
                == TickOutput::Sample(mix(samples_of(advanced_times(units, k as nat)))),
    decreases n,
{
    if n > 0 {
        let flags = clear_flags(n);
        let rest = clear_flags((n - 1) as nat);
        assert(flags.drop_first() =~= rest);
        lemma_ticks_render_in_order(advance_all(units), (n - 1) as nat);
        let run = tick_run(units, Phase::Active, flags);
        let tail = tick_run(advance_all(units), Phase::Active, rest);
        assert forall|k: int| 0 <= k < n implies run[k] == TickOutput::Sample(
            mix(samples_of(advanced_times(units, k as nat))),
        ) by {
            if k > 0 {
                assert(run[k] == tail[k - 1]);
                lemma_advanced_times_shift(units, (k - 1) as nat);
            }
        }
    }
}

} // verus!
