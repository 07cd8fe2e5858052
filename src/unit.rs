use vstd::prelude::*;

verus! {

/// Combines the samples of one tick: their wrapping sum, in node order.
pub open spec fn mix(samples: Seq<i64>) -> i64
    decreases samples.len(),
{
    if samples.len() == 0 {
        0
    } else {
        mix(samples.drop_last()).wrapping_add(samples.last())
    }
}

/// A generator that produces one sample per call from its internal state.
///
/// A sample is a fixed-point value; the library gives it no unit. `advance`
/// must complete in bounded time without blocking, and never fails.
pub trait ProcessingUnit: Sized {
    /// The sample that the next call of `advance` returns.
    spec fn next_sample(&self) -> i64;

    /// The state that the next call of `advance` leaves behind.
    spec fn advanced(&self) -> Self;

    fn advance(&mut self) -> (r: i64)
        ensures
            r == old(self).next_sample(),
            *final(self) == old(self).advanced(),
    ;

    /// An independent copy of this unit, in the same state. A snapshot gives
    /// each render handle such copies, so the two contexts share no unit.
    fn duplicate(&self) -> (r: Self)
        ensures
            r == *self,
    ;
}

/// A ramp: each call adds `step` to `level` (wrapping) and returns the new level.
pub struct Ramp {
    pub level: i64,
    pub step: i64,
}

impl Ramp {
    pub fn new(level: i64, step: i64) -> (r: Ramp)
        ensures
            r.level == level,
            r.step == step,
    {
        Ramp { level, step }
    }
}

impl ProcessingUnit for Ramp {
    open spec fn next_sample(&self) -> i64 {
        self.level.wrapping_add(self.step)
    }

    open spec fn advanced(&self) -> Ramp {
        Ramp { level: self.level.wrapping_add(self.step), step: self.step }
    }

    fn advance(&mut self) -> (r: i64) {
        self.level = self.level.wrapping_add(self.step);
        self.level
    }

    fn duplicate(&self) -> (r: Ramp) {
        Ramp { level: self.level, step: self.step }
    }
}

} // verus!
