//! The eleven smoothed controls: one mix amount and one gain per tone.
use vstd::prelude::*;
use crate::mixer::ONE;
use crate::smoother::{Smoother, lemma_after_step};

verus! {

/// Number of tones, and of gain controls.
pub const TONE_COUNT: usize = 10;

/// Mix amount on start-up (`0.15`).
pub const DEFAULT_MIX: i64 = 150_000;

/// The mix amount and the per-tone gains, each behind its own smoother.
pub struct SolfeggioParams {
    pub mix: Smoother,
    /// One gain per tone, in the order of the frequency table.
    pub gains: Vec<Smoother>,
}

impl SolfeggioParams {
    pub open spec fn wf(self) -> bool {
        &&& self.mix.wf()
        &&& self.gains@.len() == TONE_COUNT
        &&& forall|i: int| 0 <= i < TONE_COUNT ==> #[trigger] self.gains@[i].wf()
    }

    /// Every smoother of `self` is that of `prev` advanced `k` times.
    pub open spec fn advanced_from(self, prev: SolfeggioParams, k: nat) -> bool {
        &&& self.mix == prev.mix.after(k)
        &&& self.gains@.len() == prev.gains@.len()
        &&& forall|i: int| 0 <= i < self.gains@.len() ==> #[trigger] self.gains@[i] == prev.gains@[i].after(k)
    }

    /// Mix at [`DEFAULT_MIX`], every gain at zero, all at rest.
    pub fn new() -> (r: SolfeggioParams)
        ensures
            r.wf(),
            r.mix.current == DEFAULT_MIX && r.mix.target == DEFAULT_MIX && r.mix.steps_left == 0,
            forall|i: int| #![trigger r.gains@[i]] 0 <= i < TONE_COUNT ==> r.gains@[i].current == 0
                && r.gains@[i].target == 0 && r.gains@[i].steps_left == 0,
    {
        let mut gains: Vec<Smoother> = Vec::new();
        let mut i: usize = 0;
        while i < TONE_COUNT
            invariant
                i <= TONE_COUNT,
                gains@.len() == i,
                forall|j: int| #![trigger gains@[j]] 0 <= j < i ==> gains@[j].wf() && gains@[j].current == 0
                    && gains@[j].target == 0 && gains@[j].steps_left == 0,
            decreases TONE_COUNT - i,
        {
            gains.push(Smoother::new(0));
            i = i + 1;
        }
        SolfeggioParams { mix: Smoother::new(DEFAULT_MIX), gains }
    }

    /// Advances the mix smoother by one sample and returns its new value.
    pub fn next_mix(&mut self) -> (r: i64)
        requires
            old(self).wf(),
        ensures
            final(self).wf(),
            final(self).mix == old(self).mix.after(1),
            final(self).gains == old(self).gains,
            r == final(self).mix.current,
            0 <= r <= ONE,
    {
        self.mix.advance()
    }

    /// Advances the gain smoother of tone `index` by one sample and returns
    /// its new value.
    pub fn freq_gain(&mut self, index: usize) -> (r: i64)
        requires
            old(self).wf(),
            index < TONE_COUNT,
        ensures
            final(self).wf(),
            final(self).mix == old(self).mix,
            final(self).gains@ == old(self).gains@.update(index as int, old(self).gains@[index as int].after(1)),
            r == final(self).gains@[index as int].current,
            r == old(self).gains@[index as int].value_after(1),
            0 <= r <= ONE,
    {
        let mut g: Smoother = self.gains[index];
        let r: i64 = g.advance();
        self.gains.set(index, g);
        r
    }

    /// Ramps the mix amount to `target` over `steps` samples, as
    /// [`Smoother::set_target`] does.
    pub fn set_mix(&mut self, target: i64, steps: u32)
        requires
            old(self).wf(),
            0 <= target <= ONE,
        ensures
            final(self).wf(),
            final(self).gains == old(self).gains,
            final(self).mix == old(self).mix.retargeted(target, steps),
    {
        self.mix.set_target(target, steps);
    }

    /// Ramps the gain of tone `index` to `target` over `steps` samples, as
    /// [`Smoother::set_target`] does.
    pub fn set_gain(&mut self, index: usize, target: i64, steps: u32)
        requires
            old(self).wf(),
            index < TONE_COUNT,
            0 <= target <= ONE,
        ensures
            final(self).wf(),
            final(self).mix == old(self).mix,
            final(self).gains@.len() == TONE_COUNT,
            forall|i: int| 0 <= i < TONE_COUNT && i != index ==> #[trigger] final(self).gains@[i]
                == old(self).gains@[i],
            final(self).gains@ == old(self).gains@.update(
                index as int,
                old(self).gains@[index as int].retargeted(target, steps),
            ),
            target != old(self).gains@[index as int].target && steps > 0 ==> final(self).gains@[index as int].step
                == crate::smoother::ramp_step(target - old(self).gains@[index as int].current, steps as int),
    {
        let mut g: Smoother = self.gains[index];
        g.set_target(target, steps);
        self.gains.set(index, g);
    }
}

impl Default for SolfeggioParams {
    /// Same as [`SolfeggioParams::new`].
    fn default() -> (r: SolfeggioParams)
        ensures
            r.wf(),
            r.mix.current == DEFAULT_MIX && r.mix.target == DEFAULT_MIX && r.mix.steps_left == 0,
            forall|i: int| #![trigger r.gains@[i]] 0 <= i < TONE_COUNT ==> r.gains@[i].current == 0
                && r.gains@[i].target == 0 && r.gains@[i].steps_left == 0,
    {
        SolfeggioParams::new()
    }
}

} // verus!
