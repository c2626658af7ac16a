//! Linear parameter smoothing: a control value ramps to its target in equal
//! steps over a fixed number of samples, and never overshoots.
use vstd::prelude::*;
use crate::mixer::ONE;

verus! {

/// Length of a ramp, in milliseconds.
pub const RAMP_MILLIS: u32 = 10;

/// A control value in `[0, ONE]` that moves linearly towards its target.
#[derive(Clone, Copy)]
pub struct Smoother {
    /// The value read by the last advance.
    pub current: i64,
    /// Where the ramp ends.
    pub target: i64,
    /// Change per sample while the ramp runs.
    pub step: i64,
    /// Samples left in the ramp; the last one lands on the target.
    pub steps_left: u32,
}

/// The per-sample step of a ramp covering `d` in `n` samples, rounded
/// towards zero so that `n` steps never pass the target.
pub open spec fn ramp_step(d: int, n: int) -> int {
    if d >= 0 { d / n } else { -((-d) / n) }
}

impl Smoother {
    /// Both ends lie in `[0, ONE]`, a finished ramp sits on its target, and
    /// the steps left of a running one never carry it past the target.
    pub open spec fn wf(self) -> bool {
        let d = self.target - self.current;
        &&& 0 <= self.current <= ONE
        &&& 0 <= self.target <= ONE
        &&& self.steps_left == 0 ==> d == 0
        &&& self.steps_left > 0 ==> {
            ||| 0 <= self.step * self.steps_left <= d
            ||| d <= self.step * self.steps_left <= 0
        }
    }

    /// The value after `k` more advances.
    pub open spec fn value_after(self, k: nat) -> int {
        if k < self.steps_left { self.current + k * self.step } else { self.target as int }
    }

    /// The smoother after `k` more advances.
    pub open spec fn after(self, k: nat) -> Smoother {
        Smoother {
            current: self.value_after(k) as i64,
            steps_left: if k < self.steps_left { (self.steps_left - k) as u32 } else { 0 },
            ..self
        }
    }

    /// The smoother after [`Self::set_target`]`(target, steps)`.
    pub open spec fn retargeted(self, target: i64, steps: u32) -> Smoother {
        if target == self.target {
            self
        } else if steps == 0 {
            Smoother { current: target, target, step: 0, steps_left: 0 }
        } else {
            Smoother {
                current: self.current,
                target,
                step: ramp_step(target - self.current, steps as int) as i64,
                steps_left: steps,
            }
        }
    }

    /// A smoother resting at `value`.
    pub fn new(value: i64) -> (r: Smoother)
        requires
            0 <= value <= ONE,
        ensures
            r.wf(),
            r.current == value,
            r.target == value,
            r.steps_left == 0,
    {
        Smoother { current: value, target: value, step: 0, steps_left: 0 }
    }

    /// Starts a ramp from the current value to `target` over `steps`
    /// samples; with `steps == 0` the value jumps to `target` at once. A
    /// target equal to the present one changes nothing, so a running ramp
    /// runs on undisturbed.
    pub fn set_target(&mut self, target: i64, steps: u32)
        requires
            old(self).wf(),
            0 <= target <= ONE,
        ensures
            final(self).wf(),
            final(self).target == target,
            *final(self) == old(self).retargeted(target, steps),
            target == old(self).target ==> *final(self) == *old(self),
            target != old(self).target && steps == 0 ==> final(self).current == target
                && final(self).steps_left == 0,
            target != old(self).target && steps > 0 ==> final(self).current == old(self).current
                && final(self).steps_left == steps && final(self).step == ramp_step(
                target - old(self).current,
                steps as int,
            ),
    {
        if target == self.target {
        } else if steps == 0 {
            self.current = target;
            self.target = target;
            self.step = 0;
            self.steps_left = 0;
        } else {
            let d: i64 = target - self.current;
            let n: i64 = steps as i64;
            let step: i64 = if d >= 0 { d / n } else { -((-d) / n) };
            proof {
                let m: int = if d >= 0 { d as int } else { -d };
                vstd::arithmetic::div_mod::lemma_fundamental_div_mod(m, n as int);
                let q = m / (n as int);
                assert(0 <= q * n <= m) by (nonlinear_arith)
                    requires
                        m == n * q + m % (n as int),
                        0 <= m % (n as int),
                        0 <= m,
                        n > 0,
                        q == m / (n as int),
                {
                    vstd::arithmetic::div_mod::lemma_div_pos_is_pos(m, n as int);
                }
                if d < 0 {
                    assert(step * n == -(q * n)) by (nonlinear_arith)
                        requires
                            step == -q,
                    ;
                }
            }
            self.target = target;
            self.step = step;
            self.steps_left = steps;
        }
    }

    /// Moves one sample along the ramp and returns the new value: one step,
    /// or the target itself on the ramp's last sample or once it is done.
    pub fn advance(&mut self) -> (r: i64)
        requires
            old(self).wf(),
        ensures
            final(self).wf(),
            *final(self) == old(self).after(1),
            r == final(self).current,
            old(self).steps_left > 1 ==> r == old(self).current + old(self).step,
            old(self).current <= r <= old(self).target || old(self).target <= r
                <= old(self).current,
    {
        proof {
            lemma_after_step(*self, 1);
        }
        if self.steps_left > 1 {
            self.current = self.current + self.step;
            self.steps_left = self.steps_left - 1;
        } else {
            self.current = self.target;
            self.steps_left = 0;
        }
        self.current
    }
}

/// Samples in a ramp at `sample_rate` Hz: [`RAMP_MILLIS`] milliseconds,
/// rounded to the nearest sample.
pub fn ramp_steps(sample_rate: u32) -> (r: u32)
    ensures
        r == (sample_rate * RAMP_MILLIS + 500) / 1000,
{
    let millis: u64 = RAMP_MILLIS as u64;
    assert(millis == 10);
    let total: u64 = (sample_rate as u64) * millis + 500;
    (total / 1000) as u32
}

/// Advancing `k` times and then once more is advancing `k + 1` times, and
/// every state on the way is well formed and lies between the starting value
/// and the target.
pub proof fn lemma_after_step(s: Smoother, k: nat)
    requires
        s.wf(),
    ensures
        s.after(k).wf(),
        s.after(k).after(1) == s.after(k + 1),
        s.current <= s.value_after(k) <= s.target || s.target <= s.value_after(k) <= s.current,
{
    let n = s.steps_left as int;
    let d = s.target - s.current;
    if k < n {
        let t = s.step * n;
        assert(s.step * (n - k) == t - k * s.step) by (nonlinear_arith)
            requires
                t == s.step * n,
        ;
        assert(s.step * (n - (k + 1)) == t - (k + 1) * s.step) by (nonlinear_arith)
            requires
                t == s.step * n,
        ;
        if 0 <= t <= d {
            assert(0 <= k * s.step <= t) by (nonlinear_arith)
                requires
                    0 <= t,
                    t == s.step * n,
                    0 <= k < n,
            ;
        } else {
            assert(t <= k * s.step <= 0) by (nonlinear_arith)
                requires
                    t <= 0,
                    t == s.step * n,
                    0 <= k < n,
            ;
        }
        assert(s.current + (k + 1) * s.step == s.current + k * s.step + s.step) by (nonlinear_arith);
    }
}

} // verus!
