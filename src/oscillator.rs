//! A phase-accumulating tone generator with an exact integer phase.
//!
//! The phase is counted in `1 / sample_rate` turns: a phase `p` stands for
//! the angle `2π * p / sample_rate`, and a tone of `f` Hz advances it by `f`
//! every sample. The wrap back into one turn subtracts exactly one turn.
use vstd::prelude::*;

verus! {

/// One running tone generator.
#[derive(Clone, Copy)]
pub struct SineOscillator {
    /// Current phase, in `1 / period` turns.
    pub phase: u64,
    /// Phase advance per sample (the tone's frequency in Hz).
    pub increment: u64,
    /// Phase units in one full turn (the sample rate in Hz).
    pub period: u64,
}

impl SineOscillator {
    /// The phase stays inside one turn, `[0, period)`, and one advance never
    /// moves it by more than a turn.
    pub open spec fn wf(self) -> bool {
        &&& 0 < self.period <= u32::MAX
        &&& self.increment <= self.period
        &&& self.phase < self.period
    }

    /// The phase after `k` more samples.
    pub open spec fn phase_after(self, k: nat) -> nat {
        ((self.phase + k * self.increment) % (self.period as int)) as nat
    }

    /// The oscillator after `k` more samples.
    pub open spec fn after(self, k: nat) -> SineOscillator {
        SineOscillator { phase: self.phase_after(k) as u64, ..self }
    }

    /// A generator for a tone of `frequency` Hz at `sample_rate` Hz, at
    /// phase zero.
    pub fn new(frequency: u32, sample_rate: u32) -> (r: SineOscillator)
        requires
            0 < sample_rate,
            frequency <= sample_rate,
        ensures
            r.wf(),
            r.phase == 0,
            r.increment == frequency,
            r.period == sample_rate,
    {
        SineOscillator { phase: 0, increment: frequency as u64, period: sample_rate as u64 }
    }

    /// Returns the current phase, then advances it by one sample, wrapping
    /// it back into one turn by subtracting a full turn.
    pub fn advance(&mut self) -> (r: u64)
        requires
            old(self).wf(),
        ensures
            r == old(self).phase,
            final(self).wf(),
            *final(self) == old(self).after(1),
    {
        let current: u64 = self.phase;
        let mut next: u64 = current + self.increment;
        if next >= self.period {
            next = next - self.period;
        }
        proof {
            let p = self.period as int;
            let s = current + self.increment;
            if s >= p {
                vstd::arithmetic::div_mod::lemma_fundamental_div_mod_converse(s, p, 1, s - p);
            } else {
                vstd::arithmetic::div_mod::lemma_fundamental_div_mod_converse(s, p, 0, s);
            }
        }
        self.phase = next;
        current
    }

    /// Returns the tone's level at the current phase, read from `table`,
    /// then advances one sample. Entry `p` of the table is meant to hold
    /// `sin(2π p / period)`; its values are the caller's and go unchecked.
    pub fn next(&mut self, table: &Vec<i64>) -> (r: i64)
        requires
            old(self).wf(),
            table@.len() == old(self).period,
        ensures
            r == table@[old(self).phase as int],
            final(self).wf(),
            *final(self) == old(self).after(1),
    {
        let phase: u64 = self.advance();
        table[phase as usize]
    }
}

/// Advancing `k` samples and then one more is advancing `k + 1` samples,
/// and after any number of samples the phase is still inside one turn.
pub proof fn lemma_after_step(o: SineOscillator, k: nat)
    requires
        o.wf(),
    ensures
        o.after(k).wf(),
        o.after(k).after(1) == o.after(k + 1),
{
    let p = o.period as int;
    let f = o.increment as int;
    let s = o.phase + k * f;
    let r = s % p;
    let t = r + f;
    vstd::arithmetic::div_mod::lemma_fundamental_div_mod(s, p);
    vstd::arithmetic::div_mod::lemma_fundamental_div_mod(t, p);
    let q = s / p;
    let q2 = t / p;
    vstd::arithmetic::div_mod::lemma_mod_bound(t, p);
    assert(s + f == (q + q2) * p + t % p) by (nonlinear_arith)
        requires
            s == p * q + r,
            t == p * q2 + t % p,
            t == r + f,
    ;
    vstd::arithmetic::div_mod::lemma_fundamental_div_mod_converse(s + f, p, q + q2, t % p);
    assert(s + f == o.phase + (k + 1) * f) by (nonlinear_arith)
        requires
            s == o.phase + k * f,
    ;
    vstd::arithmetic::div_mod::lemma_mod_bound(s, p);
}

/// A generator started at phase zero is, after `k` samples, at phase
/// `k * f mod sample_rate`, the angle `2π * f * k / sample_rate` of the ideal
/// sine `sin(2π f t)` at `t = k / sample_rate`; and after `sample_rate` more
/// samples it is back at the same phase, so its output repeats exactly.
pub proof fn lemma_phase_tracks_time(o: SineOscillator, k: nat)
    requires
        o.wf(),
        o.phase == 0,
    ensures
        o.phase_after(k) == (k * o.increment) % (o.period as int),
        o.phase_after((k + o.period) as nat) == o.phase_after(k),
{
    let p = o.period as int;
    let f = o.increment as int;
    assert((k + p) * f == p * f + k * f) by (nonlinear_arith);
    vstd::arithmetic::div_mod::lemma_mod_multiples_vanish(f, k * f, p);
    assert(o.phase + (k + p) * f == p * f + k * f);
}

} // verus!
