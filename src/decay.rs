use vstd::prelude::*;

verus! {

/// Fixed-point scale of a `Decay`: `MAX` ticks stand for the value 1.0.
pub const DECAY_MAX: i32 = 1_000_000_000;

/// A value in [0, 1] held as an integer number of ticks (`DECAY_MAX` ticks = 1.0),
/// which falls towards zero as time passes.
pub struct Decay {
    t: i32,
}

/// The tick count `t` brought into `[0, DECAY_MAX]`.
pub open spec fn clamp_ticks(t: int) -> int {
    if t < 0 {
        0
    } else if t > DECAY_MAX as int {
        DECAY_MAX as int
    } else {
        t
    }
}

impl Decay {
    /// The tick count, in `[0, DECAY_MAX]` once well formed.
    pub closed spec fn spec_ticks(&self) -> int {
        self.t as int
    }

    pub open spec fn wf(&self) -> bool {
        0 <= self.spec_ticks() <= DECAY_MAX
    }

    /// A decay at zero.
    pub fn new() -> (r: Self)
        ensures
            r.wf(),
            r.spec_ticks() == 0,
    {
        Decay { t: 0 }
    }

    fn clamp(&mut self)
        ensures
            final(self).wf(),
            final(self).spec_ticks() == clamp_ticks(old(self).spec_ticks()),
    {
        let lo: i32 = if self.t < DECAY_MAX { self.t } else { DECAY_MAX };
        self.t = if lo > 0 { lo } else { 0 };
    }

    /// The current tick count.
    pub fn ticks(&self) -> (r: i32)
        ensures
            r as int == self.spec_ticks(),
    {
        self.t
    }

    /// Sets the value to `ticks`, clamped into `[0, DECAY_MAX]`.
    pub fn set_ticks(&mut self, ticks: i64)
        ensures
            final(self).wf(),
            final(self).spec_ticks() == clamp_ticks(ticks as int),
    {
        self.t = if ticks > i32::MAX as i64 {
            i32::MAX
        } else if ticks < i32::MIN as i64 {
            i32::MIN
        } else {
            ticks as i32
        };
        self.clamp();
    }

    /// Lowers the value by `step` ticks, with `step` capped at one whole unit
    /// (a negative step raises it), and clamps the result into `[0, DECAY_MAX]`.
    pub fn decrease(&mut self, step: i64)
        requires
            old(self).wf(),
        ensures
            final(self).wf(),
            final(self).spec_ticks() == clamp_ticks(
                old(self).spec_ticks() - (if step > DECAY_MAX as int { DECAY_MAX as int } else { step as int }),
            ),
    {
        let capped: i64 = if step > DECAY_MAX as i64 {
            DECAY_MAX as i64
        } else if step < -(DECAY_MAX as i64) {
            -(DECAY_MAX as i64)
        } else {
            step
        };
        let next: i64 = self.t as i64 - capped;
        self.set_ticks(next);
    }

    /// Raises the value to its maximum, 1.0.
    pub fn set_max(&mut self)
        ensures
            final(self).wf(),
            final(self).spec_ticks() == DECAY_MAX as int,
    {
        self.t = DECAY_MAX;
    }

    /// Whether the value has fallen to zero.
    pub fn is_zero(&self) -> (r: bool)
        ensures
            r == (self.spec_ticks() == 0),
    {
        self.t == 0
    }
}

} // verus!
