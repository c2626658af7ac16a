//! The processing core: ten oscillators, their gains and the mix amount,
//! applied to an interleaved block of host samples.
use vstd::prelude::*;
use crate::mixer::{
    ONE, MAX_LEVEL, TONES, GATE, DUCK_LIMIT, abs, gated, mixed, mix_denominator, sidechain_of,
    gated_tone, mix_sample, lemma_zero_mix_identity, lemma_ducking_monotonic,
    lemma_ducked_term_monotonic,
};
use crate::oscillator::SineOscillator;
use crate::params::{SolfeggioParams, TONE_COUNT, DEFAULT_MIX};
use crate::smoother::{ramp_steps, ramp_step, Smoother};

verus! {

/// The tone frequencies, in Hz, in the order of the gain controls.
pub const SOLFEGGIO_FREQS: [u32; TONE_COUNT] = [174, 285, 396, 417, 432, 528, 639, 741, 852, 963];

/// The highest tone frequency; no sample rate below it is supported.
pub const HIGHEST_FREQ: u32 = 963;

/// Sample rate assumed before the first initialization.
pub const DEFAULT_SAMPLE_RATE: u32 = 44100;

/// The frequency of tone `i`, in Hz.
pub open spec fn frequency_of(i: int) -> int {
    SOLFEGGIO_FREQS@[i] as int
}

/// A sine table for `sample_rate`: one entry per phase unit, each a level
/// in `[-ONE, ONE]`. Entry `p` is meant to hold `sin(2π p / sample_rate)`;
/// the values are the caller's and only their count and range are checked.
pub open spec fn sine_table_wf(table: Seq<i64>, sample_rate: int) -> bool {
    &&& table.len() == sample_rate
    &&& forall|p: int| 0 <= p < table.len() ==> -ONE <= #[trigger] table[p] <= ONE
}

/// The tone injector: a bank of oscillators bound to one sample rate, the
/// smoothed controls, and the sine table that turns a phase into a level.
pub struct SolfeggioPlugin {
    pub params: SolfeggioParams,
    /// One oscillator per tone, in the order of [`SOLFEGGIO_FREQS`].
    pub oscillators: Vec<SineOscillator>,
    pub sample_rate: u32,
    pub sine_table: Vec<i64>,
    /// Samples in one control ramp at this sample rate.
    pub ramp: u32,
}

impl SolfeggioPlugin {
    /// Ready to process: initialized for `sample_rate`.
    pub open spec fn wf(self) -> bool {
        &&& self.params.wf()
        &&& HIGHEST_FREQ <= self.sample_rate
        &&& sine_table_wf(self.sine_table@, self.sample_rate as int)
        &&& self.oscillators@.len() == TONE_COUNT
        &&& forall|i: int| #![trigger self.oscillators@[i]] 0 <= i < TONE_COUNT ==> {
            &&& self.oscillators@[i].wf()
            &&& self.oscillators@[i].period == self.sample_rate
        }
    }

    /// `self` is `prev` after `k` sample positions: every oscillator and
    /// every smoother moved `k` samples, nothing else changed.
    pub open spec fn advanced_from(self, prev: SolfeggioPlugin, k: nat) -> bool {
        &&& self.params.advanced_from(prev.params, k)
        &&& self.sample_rate == prev.sample_rate
        &&& self.sine_table@ == prev.sine_table@
        &&& self.ramp == prev.ramp
        &&& self.oscillators@.len() == prev.oscillators@.len()
        &&& forall|i: int| 0 <= i < self.oscillators@.len() ==> #[trigger] self.oscillators@[i]
            == prev.oscillators@[i].after(k)
    }

    /// The weighted sum of the first `n` tones at sample position `p`
    /// (counted from now): each tone read at its phase before the position's
    /// advance, each gain after its smoother's advance, gated as in
    /// [`gated`].
    pub open spec fn voice_sum(self, p: nat, n: int) -> int
        decreases n,
    {
        if n <= 0 {
            0
        } else {
            self.voice_sum(p, n - 1) + gated(
                self.sine_table@[self.oscillators@[n - 1].phase_after(p) as int] as int,
                self.params.gains@[n - 1].value_after(p + 1),
            )
        }
    }

    /// The weighted tone sum at sample position `p`.
    pub open spec fn tone_sum_at(self, p: nat) -> int {
        self.voice_sum(p, TONE_COUNT as int)
    }

    /// The mix amount at sample position `p`.
    pub open spec fn mix_at(self, p: nat) -> int {
        self.params.mix.value_after(p + 1)
    }

    /// A plugin at [`DEFAULT_SAMPLE_RATE`] with default controls and no
    /// oscillators yet: [`Self::initialize`] comes before any processing.
    pub fn new() -> (r: SolfeggioPlugin)
        ensures
            r.params.wf(),
            r.params.mix.current == DEFAULT_MIX && r.params.mix.target == DEFAULT_MIX
                && r.params.mix.steps_left == 0,
            forall|i: int| #![trigger r.params.gains@[i]] 0 <= i < TONE_COUNT ==> r.params.gains@[i].current
                == 0 && r.params.gains@[i].target == 0 && r.params.gains@[i].steps_left == 0,
            r.sample_rate == DEFAULT_SAMPLE_RATE,
            r.ramp == (DEFAULT_SAMPLE_RATE * 10 + 500) / 1000,
            r.ramp == 441,
            r.sine_table@.len() == 0,
            r.oscillators@.len() == 0,
    {
        SolfeggioPlugin {
            params: SolfeggioParams::new(),
            oscillators: Vec::new(),
            sample_rate: DEFAULT_SAMPLE_RATE,
            sine_table: Vec::new(),
            ramp: ramp_steps(DEFAULT_SAMPLE_RATE),
        }
    }

    /// Binds the plugin to `sample_rate`: one oscillator per tone at phase
    /// zero, the given sine table, and control ramps re-derived from the
    /// rate. The controls keep their values.
    pub fn initialize(&mut self, sample_rate: u32, sine_table: Vec<i64>)
        requires
            old(self).params.wf(),
            HIGHEST_FREQ <= sample_rate,
            sine_table_wf(sine_table@, sample_rate as int),
        ensures
            final(self).wf(),
            final(self).params == old(self).params,
            final(self).sample_rate == sample_rate,
            final(self).sine_table@ == sine_table@,
            final(self).ramp == (sample_rate * 10 + 500) / 1000,
            forall|i: int| #![trigger final(self).oscillators@[i]] 0 <= i < TONE_COUNT ==> {
                &&& final(self).oscillators@[i].phase == 0
                &&& final(self).oscillators@[i].increment == frequency_of(i)
            },
    {
        let mut oscillators: Vec<SineOscillator> = Vec::new();
        let mut i: usize = 0;
        assert(forall|j: int| 0 <= j < TONE_COUNT ==> SOLFEGGIO_FREQS@[j] <= HIGHEST_FREQ);
        while i < TONE_COUNT
            invariant
                i <= TONE_COUNT,
                HIGHEST_FREQ <= sample_rate,
                oscillators@.len() == i,
                forall|j: int| 0 <= j < TONE_COUNT ==> SOLFEGGIO_FREQS@[j] <= HIGHEST_FREQ,
                forall|j: int| #![trigger oscillators@[j]] 0 <= j < i ==> {
                    &&& oscillators@[j].wf()
                    &&& oscillators@[j].period == sample_rate
                    &&& oscillators@[j].phase == 0
                    &&& oscillators@[j].increment == frequency_of(j)
                },
            decreases TONE_COUNT - i,
        {
            oscillators.push(SineOscillator::new(SOLFEGGIO_FREQS[i], sample_rate));
            i = i + 1;
        }
        self.oscillators = oscillators;
        self.sample_rate = sample_rate;
        self.sine_table = sine_table;
        self.ramp = ramp_steps(sample_rate);
    }

    /// Ramps the mix amount to `target` over one control ramp of
    /// [`Self::ramp`] samples; an unchanged target leaves a running ramp be.
    pub fn set_mix(&mut self, target: i64)
        requires
            old(self).wf(),
            0 <= target <= ONE,
        ensures
            final(self).wf(),
            final(self).oscillators@ == old(self).oscillators@,
            final(self).ramp == old(self).ramp,
            final(self).params.mix == old(self).params.mix.retargeted(target, old(self).ramp),
            final(self).params.gains == old(self).params.gains,
            target != old(self).params.mix.target && old(self).ramp > 0 ==> {
                &&& final(self).params.mix.current == old(self).params.mix.current
                &&& final(self).params.mix.steps_left == old(self).ramp
                &&& final(self).params.mix.step == ramp_step(
                    target - old(self).params.mix.current,
                    old(self).ramp as int,
                )
            },
    {
        let steps: u32 = self.ramp;
        self.params.set_mix(target, steps);
    }

    /// Ramps the gain of tone `index` to `target` over one control ramp of
    /// [`Self::ramp`] samples; an unchanged target leaves a running ramp be.
    pub fn set_gain(&mut self, index: usize, target: i64)
        requires
            old(self).wf(),
            index < TONE_COUNT,
            0 <= target <= ONE,
        ensures
            final(self).wf(),
            final(self).oscillators@ == old(self).oscillators@,
            final(self).ramp == old(self).ramp,
            final(self).params.mix == old(self).params.mix,
            final(self).params.gains@ == old(self).params.gains@.update(
                index as int,
                old(self).params.gains@[index as int].retargeted(target, old(self).ramp),
            ),
            target != old(self).params.gains@[index as int].target && old(self).ramp > 0 ==> {
                &&& final(self).params.gains@[index as int].current == old(self).params.gains@[index as int].current
                &&& final(self).params.gains@[index as int].steps_left == old(self).ramp
                &&& final(self).params.gains@[index as int].step == ramp_step(
                    target - old(self).params.gains@[index as int].current,
                    old(self).ramp as int,
                )
            },
    {
        let steps: u32 = self.ramp;
        self.params.set_gain(index, target, steps);
    }

    /// Processes one sample position: the mix smoother, every oscillator and
    /// every gain smoother advance exactly once, and each of the `channels`
    /// samples from `start` on is blended with the one shared tone sum, its
    /// own sidechain taken from its own value.
    pub fn process_frame(&mut self, samples: &mut Vec<i64>, start: usize, channels: usize)
        requires
            old(self).wf(),
            start + channels <= old(samples)@.len(),
            forall|j: int| start <= j < start + channels ==> -MAX_LEVEL <= #[trigger] old(samples)@[j] <= MAX_LEVEL,
        ensures
            final(self).wf(),
            final(self).advanced_from(*old(self), 1),
            final(samples)@.len() == old(samples)@.len(),
            forall|j: int| #![trigger final(samples)@[j]] start <= j < start + channels ==> final(samples)@[j] == mixed(old(samples)@[j] as int, old(self).tone_sum_at(0), old(self).mix_at(0)),
            forall|j: int| #![trigger final(samples)@[j]] 0 <= j < old(samples)@.len() && !(start
                <= j < start + channels) ==> final(samples)@[j] == old(samples)@[j],
    {
        let ghost prev = *self;
        let mix: i64 = self.params.next_mix();
        proof {
            crate::smoother::lemma_after_step(prev.params.mix, 1);
        }
        let mut sum: i64 = 0;
        let mut i: usize = 0;
        while i < TONE_COUNT
            invariant
                prev.wf(),
                i <= TONE_COUNT,
                self.sample_rate == prev.sample_rate,
                self.sine_table@ == prev.sine_table@,
                self.ramp == prev.ramp,
                self.params.wf(),
                self.params.mix == prev.params.mix.after(1),
                self.params.gains@.len() == TONE_COUNT,
                self.oscillators@.len() == TONE_COUNT,
                forall|k: int| #![trigger self.oscillators@[k]] 0 <= k < TONE_COUNT ==> {
                    &&& self.oscillators@[k].wf()
                    &&& self.oscillators@[k].period == self.sample_rate
                    &&& k < i ==> self.oscillators@[k] == prev.oscillators@[k].after(1)
                    &&& k >= i ==> self.oscillators@[k] == prev.oscillators@[k]
                },
                forall|k: int| #![trigger self.params.gains@[k]] 0 <= k < TONE_COUNT ==> {
                    &&& k < i ==> self.params.gains@[k] == prev.params.gains@[k].after(1)
                    &&& k >= i ==> self.params.gains@[k] == prev.params.gains@[k]
                },
                sum == prev.voice_sum(0, i as int),
                -(i as int) * ONE * ONE <= sum <= (i as int) * ONE * ONE,
            decreases TONE_COUNT - i,
        {
            let mut osc: SineOscillator = self.oscillators[i];
            let ghost before = osc;
            let tone: i64 = osc.next(&self.sine_table);
            self.oscillators.set(i, osc);
            let gain: i64 = self.params.freq_gain(i);
            proof {
                vstd::arithmetic::div_mod::lemma_small_mod(before.phase as nat, before.period as nat);
                assert(prev.oscillators@[i as int].phase_after(0) == before.phase);
            }
            let part: i64 = gated_tone(tone, gain);
            sum = sum + part;
            i = i + 1;
        }
        let len: usize = samples.len();
        let mut c: usize = 0;
        while c < channels
            invariant
                c <= channels,
                samples@.len() == len,
                start + channels <= samples@.len(),
                samples@.len() == old(samples)@.len(),
                0 <= mix <= ONE,
                mix == prev.mix_at(0),
                sum == prev.tone_sum_at(0),
                -TONES * ONE * ONE <= sum <= TONES * ONE * ONE,
                forall|j: int| start <= j < start + channels ==> -MAX_LEVEL <= #[trigger] old(samples)@[j] <= MAX_LEVEL,
                forall|j: int| #![trigger samples@[j]] 0 <= j < samples@.len() ==> {
                    &&& start <= j < start + c ==> samples@[j] == mixed(
                        old(samples)@[j] as int,
                        sum as int,
                        mix as int,
                    )
                    &&& !(start <= j < start + c) ==> samples@[j] == old(samples)@[j]
                },
            decreases channels - c,
        {
            let x: i64 = samples[start + c];
            let out: i64 = mix_sample(x, sum, mix);
            samples.set(start + c, out);
            c = c + 1;
        }
    }

    /// Processes an interleaved block of `channels` channels, one sample
    /// position after another: position `p` holds the samples
    /// `samples[p * channels .. (p + 1) * channels]`. Each sample becomes the
    /// blend of [`mixed`] with the tone sum and mix amount of its position,
    /// and the plugin ends advanced by one step per position.
    pub fn process(&mut self, samples: &mut Vec<i64>, channels: usize)
        requires
            old(self).wf(),
            0 < channels,
            (old(samples)@.len() as int) % (channels as int) == 0,
            forall|j: int| 0 <= j < old(samples)@.len() ==> -MAX_LEVEL <= #[trigger] old(samples)@[j]
                <= MAX_LEVEL,
        ensures
            final(self).wf(),
            final(self).advanced_from(*old(self), ((old(samples)@.len() as int) / (channels as int)) as nat),
            final(samples)@.len() == old(samples)@.len(),
            forall|j: int| #![trigger final(samples)@[j]] 0 <= j < old(samples)@.len() ==> final(samples)@[j]
                == mixed(
                old(samples)@[j] as int,
                old(self).tone_sum_at((j / (channels as int)) as nat),
                old(self).mix_at((j / (channels as int)) as nat),
            ),
    {
        let ghost prev = *self;
        let len: usize = samples.len();
        let mut start: usize = 0;
        let mut pos: usize = 0;
        proof {
            lemma_advanced_zero(prev);
        }
        while start < len
            invariant
                prev.wf(),
                self.wf(),
                self.advanced_from(prev, pos as nat),
                0 < channels,
                (len as int) % (channels as int) == 0,
                start == pos * channels,
                start <= len,
                samples@.len() == len,
                old(samples)@.len() == len,
                forall|j: int| 0 <= j < len ==> -MAX_LEVEL <= #[trigger] old(samples)@[j] <= MAX_LEVEL,
                forall|j: int| #![trigger samples@[j]] 0 <= j < len ==> {
                    &&& j < start ==> samples@[j] == mixed(
                        old(samples)@[j] as int,
                        prev.tone_sum_at((j / (channels as int)) as nat),
                        prev.mix_at((j / (channels as int)) as nat),
                    )
                    &&& j >= start ==> samples@[j] == old(samples)@[j]
                },
            decreases len - start,
        {
            proof {
                vstd::arithmetic::div_mod::lemma_fundamental_div_mod(len as int, channels as int);
                vstd::arithmetic::div_mod::lemma_fundamental_div_mod_converse(
                    start as int,
                    channels as int,
                    pos as int,
                    0,
                );
                assert(start + channels <= len) by (nonlinear_arith)
                    requires
                        start < len,
                        start == pos * channels,
                        len == channels * ((len as int) / (channels as int)),
                        channels > 0,
                ;
                lemma_shifted_sums(*self, prev, pos as nat);
            }
            let ghost mid = *self;
            let ghost before = samples@;
            self.process_frame(samples, start, channels);
            proof {
                lemma_advance_compose(prev, mid, *self, pos as nat);
                assert forall|j: int| start <= j < start + channels implies #[trigger] (j / (channels as int))
                    == pos by {
                    vstd::arithmetic::div_mod::lemma_fundamental_div_mod_converse(
                        j,
                        channels as int,
                        pos as int,
                        j - start,
                    );
                }
                assert((pos + 1) * channels == start + channels) by (nonlinear_arith)
                    requires
                        start == pos * channels,
                ;
            }
            start = start + channels;
            pos = pos + 1;
        }
        proof {
            vstd::arithmetic::div_mod::lemma_fundamental_div_mod_converse(
                len as int,
                channels as int,
                pos as int,
                0,
            );
        }
    }
}

impl Default for SolfeggioPlugin {
    /// Same as [`SolfeggioPlugin::new`].
    fn default() -> (r: SolfeggioPlugin)
        ensures
            r.params.wf(),
            r.params.mix.current == DEFAULT_MIX && r.params.mix.target == DEFAULT_MIX
                && r.params.mix.steps_left == 0,
            forall|i: int| #![trigger r.params.gains@[i]] 0 <= i < TONE_COUNT ==> r.params.gains@[i].current
                == 0 && r.params.gains@[i].target == 0 && r.params.gains@[i].steps_left == 0,
            r.sample_rate == DEFAULT_SAMPLE_RATE,
            r.ramp == (DEFAULT_SAMPLE_RATE * 10 + 500) / 1000,
            r.ramp == 441,
            r.sine_table@.len() == 0,
            r.oscillators@.len() == 0,
    {
        SolfeggioPlugin::new()
    }
}

/// However many sample positions a ready plugin is advanced, every
/// oscillator's phase stays inside one turn, `[0, sample_rate)`.
pub proof fn lemma_phases_stay_in_turn(prev: SolfeggioPlugin, k: nat)
    requires
        prev.wf(),
    ensures
        forall|i: int| #![trigger prev.oscillators@[i]] 0 <= i < TONE_COUNT ==> {
            &&& prev.oscillators@[i].after(k).phase < prev.sample_rate
            &&& prev.oscillators@[i].after(k).wf()
        },
{
    assert forall|i: int| #![trigger prev.oscillators@[i]] 0 <= i < TONE_COUNT implies {
        &&& prev.oscillators@[i].after(k).phase < prev.sample_rate
        &&& prev.oscillators@[i].after(k).wf()
    } by {
        crate::oscillator::lemma_after_step(prev.oscillators@[i], k);
    }
}

/// At a sample position whose mix amount is zero, the blend hands every
/// host sample back unchanged, whatever the gains and tones.
pub proof fn lemma_zero_mix_position(prev: SolfeggioPlugin, p: nat, x: int)
    requires
        prev.wf(),
        prev.mix_at(p) == 0,
    ensures
        mixed(x, prev.tone_sum_at(p), prev.mix_at(p)) == x,
{
    lemma_zero_mix_identity(x, prev.tone_sum_at(p));
}

/// Two host samples at one sample position share the tone sum and the mix
/// amount; the louder one gets no more of the tones than the quieter one, its
/// sidechain gain lies in `[0.3, 1]`, and at `|b| >= 1.4` the gain is exactly
/// `0.3`.
pub proof fn lemma_ducking_at_position(prev: SolfeggioPlugin, p: nat, a: int, b: int)
    requires
        prev.wf(),
        abs(a) <= abs(b),
    ensures
        sidechain_of(b) <= sidechain_of(a),
        abs(prev.tone_sum_at(p) * prev.mix_at(p) * sidechain_of(b)) <= abs(
            prev.tone_sum_at(p) * prev.mix_at(p) * sidechain_of(a),
        ),
        ONE - DUCK_LIMIT <= sidechain_of(b) <= ONE,
        abs(b) >= 1_400_000 ==> mixed(b, prev.tone_sum_at(p), prev.mix_at(p)) == (b * (10 * ONE - 3
            * prev.mix_at(p)) * ONE * ONE + prev.tone_sum_at(p) * prev.mix_at(p) * (ONE
            - DUCK_LIMIT)) / mix_denominator(),
{
    crate::smoother::lemma_after_step(prev.params.mix, p + 1);
    lemma_ducking_monotonic(a, b);
    lemma_ducking_monotonic(b, b);
    lemma_ducked_term_monotonic(prev.tone_sum_at(p), prev.mix_at(p), a, b);
}

/// Where every gain but that of tone `i` is at or below [`GATE`] at sample
/// position `p`, the position's tone sum is tone `i`'s level times its gain
/// if that gain is above [`GATE`], and exactly zero otherwise.
pub proof fn lemma_gain_gating_at_position(prev: SolfeggioPlugin, p: nat, i: int)
    requires
        prev.wf(),
        0 <= i < TONE_COUNT,
        forall|j: int| #![trigger prev.params.gains@[j]] 0 <= j < TONE_COUNT && j != i ==> prev.params.gains@[j].value_after(p + 1) <= GATE,
    ensures
        prev.params.gains@[i].value_after(p + 1) <= GATE ==> prev.tone_sum_at(p) == 0,
        prev.params.gains@[i].value_after(p + 1) > GATE ==> prev.tone_sum_at(p)
            == prev.sine_table@[prev.oscillators@[i].phase_after(p) as int] * prev.params.gains@[i].value_after(p + 1),
{
    lemma_single_voice(prev, p, i, TONE_COUNT as int);
}

proof fn lemma_single_voice(prev: SolfeggioPlugin, p: nat, i: int, n: int)
    requires
        0 <= i < TONE_COUNT,
        0 <= n <= TONE_COUNT,
        forall|j: int| #![trigger prev.params.gains@[j]] 0 <= j < TONE_COUNT && j != i ==> prev.params.gains@[j].value_after(p + 1) <= GATE,
    ensures
        prev.voice_sum(p, n) == (if i < n {
            gated(
                prev.sine_table@[prev.oscillators@[i].phase_after(p) as int] as int,
                prev.params.gains@[i].value_after(p + 1),
            )
        } else {
            0
        }),
    decreases n,
{
    if n > 0 {
        lemma_single_voice(prev, p, i, n - 1);
        assert(prev.params.gains@[n - 1].value_after(p + 1) <= GATE || n - 1 == i);
    }
}

/// A plugin is itself advanced by zero positions.
proof fn lemma_advanced_zero(s: SolfeggioPlugin)
    requires
        s.wf(),
    ensures
        s.advanced_from(s, 0),
{
    assert forall|i: int| 0 <= i < s.oscillators@.len() implies #[trigger] s.oscillators@[i]
        == s.oscillators@[i].after(0) by {
        let o = s.oscillators@[i];
        vstd::arithmetic::div_mod::lemma_small_mod(o.phase as nat, o.period as nat);
    }
    assert forall|i: int| 0 <= i < s.params.gains@.len() implies #[trigger] s.params.gains@[i]
        == s.params.gains@[i].after(0) by {
        assert(s.params.gains@[i].wf());
    }
}

/// `k` positions and then one more make `k + 1` positions.
proof fn lemma_advance_compose(
    prev: SolfeggioPlugin,
    mid: SolfeggioPlugin,
    next: SolfeggioPlugin,
    k: nat,
)
    requires
        prev.wf(),
        mid.advanced_from(prev, k),
        next.advanced_from(mid, 1),
    ensures
        next.advanced_from(prev, k + 1),
{
    crate::smoother::lemma_after_step(prev.params.mix, k);
    assert forall|i: int| 0 <= i < next.oscillators@.len() implies #[trigger] next.oscillators@[i]
        == prev.oscillators@[i].after(k + 1) by {
        crate::oscillator::lemma_after_step(prev.oscillators@[i], k);
    }
    assert forall|i: int| 0 <= i < next.params.gains@.len() implies #[trigger] next.params.gains@[i]
        == prev.params.gains@[i].after(k + 1) by {
        crate::smoother::lemma_after_step(prev.params.gains@[i], k);
    }
}

/// A plugin `k` positions on from `prev` sees, at its own position zero,
/// the tone sum and mix amount of `prev`'s position `k`.
proof fn lemma_shifted_sums(cur: SolfeggioPlugin, prev: SolfeggioPlugin, k: nat)
    requires
        prev.wf(),
        cur.advanced_from(prev, k),
    ensures
        cur.tone_sum_at(0) == prev.tone_sum_at(k),
        cur.mix_at(0) == prev.mix_at(k),
{
    lemma_smoothed_value_shift(prev.params.mix, k);
    lemma_voice_sum_shift(cur, prev, k, TONE_COUNT as int);
}

/// Reading a smoother one step on from `k` steps on is reading it at `k + 1`.
proof fn lemma_smoothed_value_shift(s: Smoother, k: nat)
    requires
        s.wf(),
    ensures
        s.after(k).value_after(1) == s.value_after(k + 1),
{
    crate::smoother::lemma_after_step(s, k);
    crate::smoother::lemma_after_step(s, k + 1);
    crate::smoother::lemma_after_step(s.after(k), 1);
}

proof fn lemma_voice_sum_shift(cur: SolfeggioPlugin, prev: SolfeggioPlugin, k: nat, n: int)
    requires
        prev.wf(),
        cur.advanced_from(prev, k),
        n <= TONE_COUNT,
    ensures
        cur.voice_sum(0, n) == prev.voice_sum(k, n),
    decreases n,
{
    if n > 0 {
        lemma_voice_sum_shift(cur, prev, k, n - 1);
        let o = prev.oscillators@[n - 1];
        crate::oscillator::lemma_after_step(o, k);
        vstd::arithmetic::div_mod::lemma_small_mod(o.phase_after(k), o.period as nat);
        assert(cur.oscillators@[n - 1].phase_after(0) == o.phase_after(k));
        lemma_smoothed_value_shift(prev.params.gains@[n - 1], k);
    }
}

} // verus!
