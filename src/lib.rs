//! Additive tone injection for a stereo audio stream, in fixed point.
//!
//! Every level (a sample, a tone value, a gain, the mix amount) is an `i64`
//! counted in millionths: [`mixer::ONE`] stands for the real value `1.0`.
//! Phases are exact: an oscillator's phase is an integer number of
//! `1 / sample_rate` turns, so a tone of `f` Hz moves by exactly `f` of them
//! per sample.
pub mod mixer;
pub mod oscillator;
pub mod smoother;
pub mod params;
pub mod plugin;
