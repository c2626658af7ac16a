use solfeggio::mixer::{gated_tone, mix_sample, sidechain, GATE, ONE};
use solfeggio::oscillator::SineOscillator;
use solfeggio::params::{SolfeggioParams, DEFAULT_MIX, TONE_COUNT};
use solfeggio::plugin::{SolfeggioPlugin, DEFAULT_SAMPLE_RATE, SOLFEGGIO_FREQS};
use solfeggio::smoother::{ramp_steps, Smoother};

fn sine_table(sample_rate: u32) -> Vec<i64> {
    (0..sample_rate)
        .map(|p| {
            let angle = 2.0 * std::f64::consts::PI * (p as f64) / (sample_rate as f64);
            (angle.sin() * ONE as f64).round() as i64
        })
        .collect()
}

fn ready_plugin(sample_rate: u32) -> SolfeggioPlugin {
    let mut plugin = SolfeggioPlugin::new();
    plugin.initialize(sample_rate, sine_table(sample_rate));
    plugin
}

#[test]
fn scenario_all_gains_zero_half_mix() {
    let mut plugin = ready_plugin(44100);
    plugin.params.set_mix(500_000, 0);
    let mut block = vec![200_000i64; 2 * 256];
    plugin.process(&mut block, 2);
    for s in &block {
        assert_eq!(*s, 170_000);
    }
}

#[test]
fn scenario_432_tone_full_mix_silent_input() {
    let mut plugin = ready_plugin(44100);
    plugin.params.set_mix(ONE, 0);
    plugin.params.set_gain(4, ONE, 0);
    let frames = 500usize;
    let mut block = vec![0i64; 2 * frames];
    plugin.process(&mut block, 2);
    let table = sine_table(44100);
    for n in 0..frames {
        let phase = (432 * n) % 44100;
        let expected = table[phase].div_euclid(10);
        assert_eq!(block[2 * n], expected);
        assert_eq!(block[2 * n + 1], expected);
        let ideal = (2.0 * std::f64::consts::PI * 432.0 * n as f64 / 44100.0).sin() * 0.1;
        assert!((block[2 * n] as f64 / ONE as f64 - ideal).abs() < 2e-6);
    }
}

#[test]
fn zero_mix_leaves_samples_unchanged() {
    let mut plugin = ready_plugin(48000);
    plugin.params.set_mix(0, 0);
    for i in 0..TONE_COUNT {
        plugin.params.set_gain(i, ONE, 0);
    }
    let input: Vec<i64> = (0..400).map(|j| (j as i64 * 7919) % 2_000_001 - 1_000_000).collect();
    let mut block = input.clone();
    plugin.process(&mut block, 2);
    assert_eq!(block, input);
}

#[test]
fn mix_sample_exact_values() {
    assert_eq!(mix_sample(200_000, 0, 500_000), 170_000);
    assert_eq!(mix_sample(-1_000_000, 0, ONE), -700_000);
    // sum of one full tone at full gain: 0.1 of full scale, unducked
    assert_eq!(mix_sample(0, ONE * ONE, ONE), 100_000);
    // ducked by a host sample of 1.0: 0.1 * 0.5 added to 0.7
    assert_eq!(mix_sample(ONE, ONE * ONE, ONE), 750_000);
    // rounding goes down
    assert_eq!(mix_sample(0, -1, ONE), -1);
    assert_eq!(mix_sample(7, 0, 0), 7);
}

#[test]
fn sidechain_values_and_floor() {
    assert_eq!(sidechain(0), ONE);
    assert_eq!(sidechain(500_000), 750_000);
    assert_eq!(sidechain(-500_000), 750_000);
    assert_eq!(sidechain(1_399_998), 300_001);
    assert_eq!(sidechain(1_400_000), 300_000);
    assert_eq!(sidechain(-3_000_000), 300_000);
}

#[test]
fn sidechain_never_grows_with_level() {
    let mut last = sidechain(0);
    for level in (0..3_000_000i64).step_by(997) {
        let now = sidechain(level);
        assert!(now <= last);
        assert_eq!(now, sidechain(-level));
        last = now;
    }
}

#[test]
fn gain_gating_threshold() {
    assert_eq!(gated_tone(500_000, GATE), 0);
    assert_eq!(gated_tone(500_000, 0), 0);
    assert_eq!(gated_tone(500_000, GATE + 1), 500_000 * 1_001);
    assert_eq!(gated_tone(-ONE, ONE), -ONE * ONE);
}

#[test]
fn phase_stays_within_one_turn() {
    let mut osc = SineOscillator::new(963, 8000);
    for _ in 0..100_000 {
        osc.advance();
        assert!(osc.phase < 8000);
    }
}

#[test]
fn phase_tracks_sample_count_and_repeats() {
    let mut osc = SineOscillator::new(432, 44100);
    for k in 0..44100u64 {
        assert_eq!(osc.advance(), (k * 432) % 44100);
    }
    assert_eq!(osc.phase, 0);
}

#[test]
fn oscillator_wraps_at_full_turn() {
    let mut osc = SineOscillator::new(3, 4);
    let seen: Vec<u64> = (0..5).map(|_| osc.advance()).collect();
    assert_eq!(seen, vec![0, 3, 2, 1, 0]);
}

#[test]
fn smoother_ramps_without_overshoot() {
    let steps = ramp_steps(44100);
    assert_eq!(steps, 441);
    let mut s = Smoother::new(0);
    s.set_target(ONE, steps);
    assert_eq!(s.step, 2267);
    let mut last = 0;
    for k in 1..=steps {
        let v = s.advance();
        assert!(v >= last && v <= ONE);
        if k < steps {
            assert_eq!(v, 2267 * k as i64);
        }
        last = v;
    }
    assert_eq!(last, ONE);
    assert_eq!(s.advance(), ONE);
}

#[test]
fn smoother_ramps_down() {
    let mut s = Smoother::new(ONE);
    s.set_target(0, 3);
    assert_eq!(s.advance(), 666_667);
    assert_eq!(s.advance(), 333_334);
    assert_eq!(s.advance(), 0);
    assert_eq!(s.advance(), 0);
}

#[test]
fn smoother_without_ramp_jumps() {
    let mut s = Smoother::new(100);
    s.set_target(900, 0);
    assert_eq!(s.current, 900);
    assert_eq!(s.advance(), 900);
}

#[test]
fn ramp_length_rounds_to_nearest_sample() {
    assert_eq!(ramp_steps(48000), 480);
    assert_eq!(ramp_steps(44150), 442);
    assert_eq!(ramp_steps(8000), 80);
}

#[test]
fn defaults() {
    let params = SolfeggioParams::default();
    assert_eq!(params.mix.current, DEFAULT_MIX);
    assert_eq!(params.gains.len(), TONE_COUNT);
    assert!(params.gains.iter().all(|g| g.current == 0));
    let plugin = SolfeggioPlugin::default();
    assert_eq!(plugin.sample_rate, DEFAULT_SAMPLE_RATE);
    assert!(plugin.oscillators.is_empty());
}

#[test]
fn initialize_binds_every_tone() {
    let plugin = ready_plugin(8000);
    assert_eq!(plugin.ramp, 80);
    for (i, osc) in plugin.oscillators.iter().enumerate() {
        assert_eq!(osc.increment, SOLFEGGIO_FREQS[i] as u64);
        assert_eq!(osc.period, 8000);
        assert_eq!(osc.phase, 0);
    }
}

#[test]
fn one_advance_per_position_shared_by_channels() {
    let mut mono = ready_plugin(44100);
    let mut stereo = ready_plugin(44100);
    for p in [&mut mono, &mut stereo] {
        p.params.set_mix(ONE, 0);
        p.params.set_gain(0, ONE, 0);
    }
    let mut a = vec![0i64; 64];
    let mut b = vec![0i64; 128];
    mono.process(&mut a, 1);
    stereo.process(&mut b, 2);
    for n in 0..64 {
        assert_eq!(b[2 * n], a[n]);
        assert_eq!(b[2 * n + 1], a[n]);
    }
    assert_eq!(mono.oscillators[0].phase, stereo.oscillators[0].phase);
    assert_eq!(stereo.oscillators[0].phase, (64 * 174) % 44100);
}

#[test]
fn sidechain_is_per_channel() {
    let mut plugin = ready_plugin(44100);
    plugin.params.set_mix(ONE, 0);
    plugin.params.set_gain(4, ONE, 0);
    // skip position 0, where every tone is at phase zero
    let mut warm = vec![0i64; 2];
    plugin.process(&mut warm, 2);
    let mut frame = vec![0i64, ONE];
    plugin.process(&mut frame, 2);
    let table = sine_table(44100);
    let tone = table[432];
    assert_eq!(frame[0], tone.div_euclid(10));
    // host sample 1.0: kept at 0.7, tone ducked to half
    assert_eq!(frame[1], 700_000 + (tone * 5).div_euclid(100));
}

#[test]
fn mix_ramps_per_position() {
    let mut plugin = ready_plugin(44100);
    plugin.params.set_mix(0, 0);
    plugin.set_mix(ONE);
    let mut block = vec![ONE; 2 * 441];
    plugin.process(&mut block, 2);
    // first position: mix one step up the ramp
    let m = 2267i64;
    let expected = (ONE * (10 * ONE - 3 * m)).div_euclid(10 * ONE);
    assert_eq!(block[0], expected);
    assert_eq!(block[1], expected);
    // last position: ramp complete, mix 1.0
    assert_eq!(block[2 * 440], 700_000);
    assert_eq!(plugin.params.mix.current, ONE);
}

#[test]
fn oscillator_reads_table_then_advances() {
    let table = sine_table(8000);
    let mut osc = SineOscillator::new(963, 8000);
    assert_eq!(osc.next(&table), 0);
    assert_eq!(osc.next(&table), table[963]);
    assert_eq!(osc.next(&table), table[1926]);
    assert_eq!(osc.phase, 2889);
}

#[test]
fn plugin_defaults() {
    let plugin = SolfeggioPlugin::new();
    assert_eq!(plugin.params.mix.current, DEFAULT_MIX);
    assert_eq!(plugin.params.mix.target, DEFAULT_MIX);
    assert_eq!(plugin.params.mix.steps_left, 0);
    assert!(plugin.params.gains.iter().all(|g| g.current == 0 && g.target == 0 && g.steps_left == 0));
    assert_eq!(plugin.ramp, 441);
    assert!(plugin.sine_table.is_empty());
}

#[test]
fn setters_ramp_over_the_control_ramp() {
    let mut plugin = ready_plugin(48000);
    plugin.set_mix(ONE);
    assert_eq!(plugin.params.mix.current, DEFAULT_MIX);
    assert_eq!(plugin.params.mix.steps_left, 480);
    assert_eq!(plugin.params.mix.step, (ONE - DEFAULT_MIX) / 480);
    plugin.set_gain(3, 500_000);
    assert_eq!(plugin.params.gains[3].current, 0);
    assert_eq!(plugin.params.gains[3].steps_left, 480);
    assert_eq!(plugin.params.gains[3].step, 500_000 / 480);
}

#[test]
fn unchanged_target_leaves_running_ramp() {
    let mut plugin = ready_plugin(44100);
    plugin.set_gain(0, ONE);
    let mut block = vec![0i64; 2 * 100];
    plugin.process(&mut block, 2);
    let running = plugin.params.gains[0];
    assert_eq!(running.steps_left, 341);
    plugin.set_gain(0, ONE);
    plugin.set_mix(DEFAULT_MIX);
    assert_eq!(plugin.params.gains[0].steps_left, 341);
    assert_eq!(plugin.params.gains[0].current, running.current);
    assert_eq!(plugin.params.mix.steps_left, 0);
}

#[test]
fn smoother_ramps_down_from_midway() {
    let mut s = Smoother::new(0);
    s.set_target(ONE, 4);
    s.advance();
    s.set_target(0, 2);
    assert_eq!(s.current, 250_000);
    assert_eq!(s.step, -125_000);
    assert_eq!(s.advance(), 125_000);
    assert_eq!(s.advance(), 0);
}
