//! The per-sample mixing law: gain gating, sidechain ducking and the blend of
//! the tone sum into the host's sample.
use vstd::prelude::*;

verus! {

/// The fixed-point unit: a level of `ONE` is the real value `1.0`.
pub const ONE: i64 = 1_000_000;

/// Gains at or below this level (`0.001`) are treated as silent.
pub const GATE: i64 = 1_000;

/// The largest sample magnitude accepted by the mixing law (`1000.0`).
pub const MAX_LEVEL: i64 = 1_000_000_000;

/// The sidechain reduction saturates at `0.7`.
pub const DUCK_LIMIT: i64 = 700_000;

/// The number of tones that feed the mixing law.
pub const TONES: i64 = 10;

/// Absolute value of an integer.
pub open spec fn abs(x: int) -> int {
    if x < 0 { -x } else { x }
}

/// Sidechain gain for a host sample `x`: `1 - min(|x| / 2, 0.7)`.
pub open spec fn sidechain_of(x: int) -> int {
    let half = abs(x) / 2;
    ONE - (if half < DUCK_LIMIT { half } else { DUCK_LIMIT as int })
}

/// Contribution of one tone to the weighted tone sum, before the fixed
/// `0.1` headroom: `tone * gain` when the gain is above [`GATE`], else `0`.
/// The unit of the result is `1 / ONE²`.
pub open spec fn gated(tone: int, gain: int) -> int {
    if gain > GATE { tone * gain } else { 0 }
}

/// Common denominator of the mixing law: `10 * ONE³`.
pub open spec fn mix_denominator() -> int {
    10 * ONE * ONE * ONE
}

/// The blended output for host sample `x`, weighted tone sum `sum` (as
/// accumulated from [`gated`], unit `1 / ONE²`) and mix amount `mix`:
/// `x * (1 - 0.3 * mix) + (0.1 * sum) * mix * sidechain(x)` evaluated exactly
/// and rounded down to the fixed-point grid.
pub open spec fn mixed(x: int, sum: int, mix: int) -> int {
    (x * (10 * ONE - 3 * mix) * ONE * ONE + sum * mix * sidechain_of(x)) / mix_denominator()
}

/// Sidechain gain for the host sample `x`, in units of [`ONE`].
pub fn sidechain(x: i64) -> (r: i64)
    requires
        -MAX_LEVEL <= x <= MAX_LEVEL,
    ensures
        r == sidechain_of(x as int),
        ONE - DUCK_LIMIT <= r <= ONE,
{
    let magnitude: i64 = if x < 0 { -x } else { x };
    let half: i64 = magnitude / 2;
    let reduction: i64 = if half < DUCK_LIMIT { half } else { DUCK_LIMIT };
    ONE - reduction
}

/// One tone's gated contribution: the product `tone * gain` when `gain`
/// exceeds [`GATE`], and exactly `0` otherwise.
pub fn gated_tone(tone: i64, gain: i64) -> (r: i64)
    requires
        -ONE <= tone <= ONE,
        0 <= gain <= ONE,
    ensures
        r == gated(tone as int, gain as int),
        gain <= GATE ==> r == 0,
        gain > GATE ==> r == tone * gain,
        -ONE * ONE <= r <= ONE * ONE,
{
    if gain > GATE {
        proof {
            assert(-ONE * ONE <= tone * gain <= ONE * ONE) by (nonlinear_arith)
                requires
                    -ONE <= tone <= ONE,
                    0 <= gain <= ONE,
            ;
        }
        tone * gain
    } else {
        0
    }
}

/// Blends the weighted tone sum `sum` into the host sample `x` at mix
/// amount `mix`, with the ducking of [`sidechain`].
pub fn mix_sample(x: i64, sum: i64, mix: i64) -> (r: i64)
    requires
        -MAX_LEVEL <= x <= MAX_LEVEL,
        -TONES * ONE * ONE <= sum <= TONES * ONE * ONE,
        0 <= mix <= ONE,
    ensures
        r == mixed(x as int, sum as int, mix as int),
        mix == 0 ==> r == x,
        -abs(x as int) - ONE <= r <= abs(x as int) + ONE,
{
    let sc: i64 = sidechain(x);
    let keep: i128 = (10 * ONE - 3 * mix) as i128;
    let scale: i128 = (ONE as i128) * (ONE as i128);
    let d: i128 = 10 * (ONE as i128) * scale;
    let xi: i128 = x as i128;
    proof {
        assert(-MAX_LEVEL * (10 * ONE) <= xi * keep <= MAX_LEVEL * (10 * ONE)) by (nonlinear_arith)
            requires
                -MAX_LEVEL <= xi <= MAX_LEVEL,
                0 <= keep <= 10 * ONE,
        ;
    }
    let xk: i128 = xi * keep;
    proof {
        assert(-MAX_LEVEL * (10 * ONE) * (ONE * ONE) <= xk * scale <= MAX_LEVEL * (10 * ONE) * (
        ONE * ONE)) by (nonlinear_arith)
            requires
                -MAX_LEVEL * (10 * ONE) <= xk <= MAX_LEVEL * (10 * ONE),
                scale == ONE * ONE,
        ;
    }
    let host: i128 = xk * scale;
    proof {
        assert(-TONES * ONE * ONE * ONE <= sum * mix <= TONES * ONE * ONE * ONE) by (nonlinear_arith)
            requires
                -TONES * ONE * ONE <= sum <= TONES * ONE * ONE,
                0 <= mix <= ONE,
        ;
    }
    let sm: i128 = (sum as i128) * (mix as i128);
    proof {
        assert(-TONES * ONE * ONE * ONE * ONE <= sm * sc <= TONES * ONE * ONE * ONE * ONE)
            by (nonlinear_arith)
            requires
                -TONES * ONE * ONE * ONE <= sm <= TONES * ONE * ONE * ONE,
                0 <= sc <= ONE,
        ;
    }
    let tone: i128 = sm * (sc as i128);
    let n: i128 = host + tone;
    let q: i128 = floor_div(n, d);
    proof {
        let ax = abs(x as int);
        assert(-ax * d <= host <= ax * d) by (nonlinear_arith)
            requires
                host == xi * keep * scale,
                xi == x,
                ax == abs(x as int),
                0 <= keep <= 10 * ONE,
                d == 10 * ONE * scale,
                scale > 0,
        ;
        assert(-ONE * d <= tone <= ONE * d);
        assert(-(ax + ONE) * d <= n <= (ax + ONE) * d) by (nonlinear_arith)
            requires
                -ax * d <= host <= ax * d,
                -ONE * d <= tone <= ONE * d,
                n == host + tone,
        ;
        vstd::arithmetic::div_mod::lemma_fundamental_div_mod(n as int, d as int);
        assert(-(ax + ONE) <= q <= ax + ONE) by (nonlinear_arith)
            requires
                n == d * q + n % d,
                0 <= n % d < d,
                -(ax + ONE) * d <= n <= (ax + ONE) * d,
                d > 0,
        ;
        assert(mix_denominator() == d);
        assert(n == x * (10 * ONE - 3 * mix) * ONE * ONE + sum * mix * sidechain_of(x as int))
            by (nonlinear_arith)
            requires
                n == host + tone,
                host == xi * keep * scale,
                tone == sm * sc,
                sm == sum * mix,
                xi == x,
                keep == 10 * ONE - 3 * mix,
                scale == ONE * ONE,
                sc == sidechain_of(x as int),
        ;
        if mix == 0 {
            lemma_zero_mix_identity(x as int, sum as int);
        }
    }
    q as i64
}

/// With a mix amount of zero the output is the host sample, unchanged,
/// whatever the tone sum.
pub proof fn lemma_zero_mix_identity(x: int, sum: int)
    ensures
        mixed(x, sum, 0) == x,
{
    let d = mix_denominator();
    assert(d == 10_000_000_000_000_000_000);
    let sc = sidechain_of(x);
    assert(x * (10 * ONE - 3 * 0) * ONE * ONE + sum * 0 * sc == x * d) by (nonlinear_arith)
        requires
            d == 10_000_000_000_000_000_000,
    ;
    vstd::arithmetic::div_mod::lemma_div_multiples_vanish(x, d);
}

/// The sidechain gain never grows as the host sample gets louder, and it
/// rests at its floor of `0.3` once `|x| >= 1.4`.
pub proof fn lemma_ducking_monotonic(a: int, b: int)
    ensures
        abs(a) <= abs(b) ==> sidechain_of(b) <= sidechain_of(a),
        abs(b) >= 1_400_000 ==> sidechain_of(b) == ONE - DUCK_LIMIT,
        ONE - DUCK_LIMIT <= sidechain_of(a) <= ONE,
{
    if abs(a) <= abs(b) {
        vstd::arithmetic::div_mod::lemma_div_is_ordered(abs(a), abs(b), 2);
    }
    if abs(b) >= 1_400_000 {
        vstd::arithmetic::div_mod::lemma_div_is_ordered(1_400_000, abs(b), 2);
    }
}

/// For a fixed tone sum and a non-negative mix amount, the ducked tone term
/// of the output, `sum * mix * sidechain(x)`, shrinks in magnitude as `|x|`
/// grows.
pub proof fn lemma_ducked_term_monotonic(sum: int, mix: int, a: int, b: int)
    requires
        0 <= mix,
        abs(a) <= abs(b),
    ensures
        abs(sum * mix * sidechain_of(b)) <= abs(sum * mix * sidechain_of(a)),
{
    lemma_ducking_monotonic(a, b);
    let sa = sidechain_of(a);
    let sb = sidechain_of(b);
    assert(abs(sum * mix * sb) <= abs(sum * mix * sa)) by (nonlinear_arith)
        requires
            0 <= mix,
            0 <= sb <= sa,
    {
        if sum * mix >= 0 {
            assert(sum * mix * sb <= sum * mix * sa) by (nonlinear_arith)
                requires
                    sum * mix >= 0,
                    0 <= sb <= sa,
            ;
            assert(sum * mix * sb >= 0) by (nonlinear_arith)
                requires
                    sum * mix >= 0,
                    0 <= sb,
            ;
        } else {
            assert(sum * mix * sb >= sum * mix * sa) by (nonlinear_arith)
                requires
                    sum * mix < 0,
                    0 <= sb <= sa,
            ;
            assert(sum * mix * sb <= 0) by (nonlinear_arith)
                requires
                    sum * mix < 0,
                    0 <= sb,
            ;
        }
    }
}

/// `n / d` rounded towards negative infinity.
fn floor_div(n: i128, d: i128) -> (q: i128)
    requires
        0 < d,
        -i128::MAX <= n,
    ensures
        q == n / d,
{
    if n >= 0 {
        n / d
    } else {
        let a: i128 = -n;
        let t: i128 = (a - 1) / d;
        proof {
            let r: int = (a - 1) as int % (d as int);
            vstd::arithmetic::div_mod::lemma_fundamental_div_mod((a - 1) as int, d as int);
            assert(n == (-t - 1) * d + (d - 1 - r)) by (nonlinear_arith)
                requires
                    a - 1 == d * t + r,
                    n == -a,
            ;
            vstd::arithmetic::div_mod::lemma_fundamental_div_mod_converse(
                n as int,
                d as int,
                -t - 1,
                d - 1 - r,
            );
        }
        -t - 1
    }
}

} // verus!
