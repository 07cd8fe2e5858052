use crate::token::EpochToken;
use crate::unit::{mix, ProcessingUnit};
use std::sync::Arc;
use vstd::prelude::*;

verus! {

/// Where a render handle stands in its lifetime.
///
/// `Active` renders its nodes on each tick. On the tick that first sees the
/// release flag it passes through "release seen" within that one tick, gives
/// up its holder count and ends `Acknowledged`, where it never touches a node
/// or the count again.
#[derive(PartialEq, Eq, Structural, Clone, Copy, Debug)]
pub enum Phase {
    Active,
    Acknowledged,
}

/// What one tick does, decided before any node is touched.
#[derive(PartialEq, Eq, Structural, Clone, Copy, Debug)]
pub enum TickStep {
    /// Advance every node in snapshot order and combine their samples.
    Render,
    /// Touch no node, give up the holder count, become `Acknowledged`.
    Release,
    /// Touch nothing: the handle has already released.
    Idle,
}

/// What one tick hands to the render driver.
#[derive(PartialEq, Eq, Structural, Clone, Copy, Debug)]
pub enum TickOutput {
    /// The combined sample of the generation's nodes.
    Sample(i64),
    /// The release flag was seen: no sample, and the driver stops ticking this handle.
    Released,
    /// The handle had already released; nothing was done.
    Stopped,
}

pub open spec fn spec_tick_step(phase: Phase, release_seen: bool) -> TickStep {
    match phase {
        Phase::Active => if release_seen {
            TickStep::Release
        } else {
            TickStep::Render
        },
        Phase::Acknowledged => TickStep::Idle,
    }
}

/// The phase a handle is in after a tick that took `step`.
pub open spec fn phase_after(phase: Phase, step: TickStep) -> Phase {
    match step {
        TickStep::Release => Phase::Acknowledged,
        _ => phase,
    }
}

/// The samples that one render pass over `units` produces, in order.
pub open spec fn samples_of<U: ProcessingUnit>(units: Seq<U>) -> Seq<i64> {
    units.map_values(|u: U| u.next_sample())
}

/// The units after one render pass.
pub open spec fn advance_all<U: ProcessingUnit>(units: Seq<U>) -> Seq<U> {
    units.map_values(|u: U| u.advanced())
}

/// What a tick does to a handle with `units` in `phase` when the flag read
/// at its start is `release_seen`: the output, the units after it, and the
/// phase after it.
pub open spec fn tick_outcome<U: ProcessingUnit>(units: Seq<U>, phase: Phase, release_seen: bool) -> (
    TickOutput,
    Seq<U>,
    Phase,
) {
    match spec_tick_step(phase, release_seen) {
        TickStep::Render => (TickOutput::Sample(mix(samples_of(units))), advance_all(units), phase),
        TickStep::Release => (TickOutput::Released, units, Phase::Acknowledged),
        TickStep::Idle => (TickOutput::Stopped, units, phase),
    }
}

/// Decides a tick from the handle's phase and the flag read at its start.
pub fn tick_step(phase: Phase, release_seen: bool) -> (r: TickStep)
    ensures
        r == spec_tick_step(phase, release_seen),
{
    match phase {
        Phase::Active => if release_seen {
            TickStep::Release
        } else {
            TickStep::Render
        },
        Phase::Acknowledged => TickStep::Idle,
    }
}

/// Advances every unit once, in order, and returns their combined sample.
pub fn render_units<U: ProcessingUnit>(units: &mut Vec<U>) -> (r: i64)
    ensures
        final(units)@ == advance_all(old(units)@),
        r == mix(samples_of(old(units)@)),
{
    let ghost start = units@;
    let n = units.len();
    let mut acc: i64 = 0;
    let mut i: usize = 0;
    while i < n
        invariant
            n == start.len(),
            units@.len() == n,
            0 <= i <= n,
            forall|k: int| 0 <= k < i ==> units@[k] == start[k].advanced(),
            forall|k: int| i <= k < n ==> units@[k] == start[k],
            acc == mix(samples_of(start).take(i as int)),
        decreases n - i,
    {
        let s = units[i].advance();
        proof {
            let prefix = samples_of(start).take(i as int + 1);
            assert(prefix.drop_last() =~= samples_of(start).take(i as int));
        }
        acc = acc.wrapping_add(s);
        i = i + 1;
    }
    proof {
        assert(samples_of(start).take(n as int) =~= samples_of(start));
        assert(units@ =~= advance_all(start));
    }
    acc
}

/// The render-side view of one generation: its units in snapshot order, the
/// generation's shared token, and the handle's phase.
///
/// The handle carries the units it renders, so no tick can reach memory that
/// the control context has reclaimed; the token tells the control context when
/// the handle has stopped rendering that generation.
pub struct RenderHandle<U> {
    generation: u64,
    units: Vec<U>,
    token: Arc<EpochToken>,
    phase: Phase,
}

impl<U: ProcessingUnit> RenderHandle<U> {
    pub closed spec fn spec_generation(&self) -> u64 {
        self.generation
    }

    pub closed spec fn spec_units(&self) -> Seq<U> {
        self.units@
    }

    pub closed spec fn spec_phase(&self) -> Phase {
        self.phase
    }

    /// A new active handle; the caller has already counted it as a holder.
    pub(crate) fn issue(generation: u64, units: Vec<U>, token: Arc<EpochToken>) -> (r: Self)
        ensures
            r.spec_generation() == generation,
            r.spec_units() == units@,
            r.spec_phase() == Phase::Active,
    {
        RenderHandle { generation, units, token, phase: Phase::Active }
    }

    pub fn generation(&self) -> (r: u64)
        ensures
            r == self.spec_generation(),
    {
        self.generation
    }

    pub fn phase(&self) -> (r: Phase)
        ensures
            r == self.spec_phase(),
    {
        self.phase
    }

    pub fn node_count(&self) -> (r: usize)
        ensures
            r == self.spec_units().len(),
    {
        self.units.len()
    }

    /// The rest of a tick once the release flag has been read as
    /// `release_seen`. An active handle that saw the flag clear advances
    /// every unit in snapshot order and returns the combined sample; one that
    /// saw it set touches no unit, gives up its holder count (release) and
    /// becomes `Acknowledged`. An acknowledged handle does nothing, so the
    /// count is given up at most once per handle.
    pub fn tick_seen(&mut self, release_seen: bool) -> (r: TickOutput)
        ensures
            final(self).spec_generation() == old(self).spec_generation(),
            (r, final(self).spec_units(), final(self).spec_phase()) == tick_outcome(
                old(self).spec_units(),
                old(self).spec_phase(),
                release_seen,
            ),
    {
        match tick_step(self.phase, release_seen) {
            TickStep::Render => {
                let s = render_units(&mut self.units);
                TickOutput::Sample(s)
            },
            TickStep::Release => {
                self.token.acknowledge();
                self.phase = Phase::Acknowledged;
                TickOutput::Released
            },
            TickStep::Idle => TickOutput::Stopped,
        }
    }

    /// One tick of the render context.
    ///
    /// An acknowledged handle does nothing and reads nothing. An active one
    /// first reads its generation's release flag (acquire), before touching
    /// any node, and goes on as `tick_seen` does for the value read.
    pub fn tick(&mut self) -> (r: TickOutput)
        ensures
            final(self).spec_generation() == old(self).spec_generation(),
            old(self).spec_phase() == Phase::Acknowledged ==> r == TickOutput::Stopped
                && final(self).spec_units() == old(self).spec_units()
                && final(self).spec_phase() == Phase::Acknowledged,
            exists|release_seen: bool|
                (r, final(self).spec_units(), final(self).spec_phase()) == tick_outcome(
                    old(self).spec_units(),
                    old(self).spec_phase(),
                    release_seen,
                ),
    {
        if self.phase == Phase::Acknowledged {
            proof {
                assert(tick_outcome(self.spec_units(), self.spec_phase(), false) == (
                    TickOutput::Stopped,
                    self.spec_units(),
                    self.spec_phase(),
                ));
            }
            return TickOutput::Stopped;
        }
        let seen = self.token.release_requested();
        self.tick_seen(seen)
    }
}

} // verus!
