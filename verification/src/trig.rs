//! Fixed-point sine and cosine used by the spatial sampler.
//!
//! Angles are whole numbers of hundredths of a degree (36000 per full turn);
//! results are scaled by `TRIG_SCALE` (so `TRIG_SCALE` stands for 1.0). The
//! values come from the alternating Taylor polynomials evaluated on one
//! octant and extended by symmetry, so the cardinal angles (0, 90, 180 and
//! 270 degrees) are exact.

use vstd::prelude::*;

verus! {

/// Angle units in a full turn: hundredths of a degree.
pub const ANGLE_UNITS: u32 = 36000;

/// Fixed-point scale of the sine and cosine values.
pub const TRIG_SCALE: u64 = 1_000_000_000;

/// Pi scaled by `TRIG_SCALE`, rounded to the nearest integer.
pub const PI_NANO: u64 = 3_141_592_654;

/// An octant angle (at most 45 degrees) in radians scaled by `TRIG_SCALE`.
pub open spec fn spec_rad_nano(b: int) -> int {
    b * PI_NANO / 18000
}

/// Taylor polynomial for sine on one octant, in `TRIG_SCALE` fixed point:
/// x - x^3/3! + x^5/5! - x^7/7! + x^9/9!, each power rescaled stepwise.
pub open spec fn spec_sin_poly(x: int) -> int {
    let x2 = x * x / 1_000_000_000;
    let x3 = x2 * x / 1_000_000_000;
    let x5 = x3 * x2 / 1_000_000_000;
    let x7 = x5 * x2 / 1_000_000_000;
    let x9 = x7 * x2 / 1_000_000_000;
    x - x3 / 6 + x5 / 120 - x7 / 5040 + x9 / 362880
}

/// Taylor polynomial for cosine on one octant, in `TRIG_SCALE` fixed point:
/// 1 - x^2/2! + x^4/4! - x^6/6! + x^8/8!.
pub open spec fn spec_cos_poly(x: int) -> int {
    let x2 = x * x / 1_000_000_000;
    let x4 = x2 * x2 / 1_000_000_000;
    let x6 = x4 * x2 / 1_000_000_000;
    let x8 = x6 * x2 / 1_000_000_000;
    1_000_000_000 - x2 / 2 + x4 / 24 - x6 / 720 + x8 / 40320
}

/// Sine of a first-quadrant angle `b` (in hundredths of a degree, at most
/// 9000), reduced to an octant so the polynomial argument stays small.
pub open spec fn spec_quarter_sin(b: int) -> int {
    if b <= 4500 {
        spec_sin_poly(spec_rad_nano(b))
    } else {
        spec_cos_poly(spec_rad_nano(9000 - b))
    }
}

/// Cosine of a first-quadrant angle, reduced like `spec_quarter_sin`.
pub open spec fn spec_quarter_cos(b: int) -> int {
    if b <= 4500 {
        spec_cos_poly(spec_rad_nano(b))
    } else {
        spec_sin_poly(spec_rad_nano(9000 - b))
    }
}

/// Cosine over the full turn, by quadrant symmetry.
pub open spec fn spec_cos_nano(a: int) -> int {
    let q = a / 9000;
    let b = a % 9000;
    if q == 0 {
        spec_quarter_cos(b)
    } else if q == 1 {
        -spec_quarter_sin(b)
    } else if q == 2 {
        -spec_quarter_cos(b)
    } else {
        spec_quarter_sin(b)
    }
}

/// Sine over the full turn, by quadrant symmetry.
pub open spec fn spec_sin_nano(a: int) -> int {
    let q = a / 9000;
    let b = a % 9000;
    if q == 0 {
        spec_quarter_sin(b)
    } else if q == 1 {
        spec_quarter_cos(b)
    } else if q == 2 {
        -spec_quarter_sin(b)
    } else {
        -spec_quarter_cos(b)
    }
}

/// One rescaling step: multiply two fixed-point values and divide the
/// product back down by the scale.
fn scale_mul(a: u64, b: u64) -> (r: u64)
    requires
        a <= 1_000_000_000,
        b <= 1_000_000_000,
    ensures
        r == a * b / 1_000_000_000,
        r <= 1_000_000_000,
        r <= a,
        r <= b,
{
    proof {
        assert(a * b <= 1_000_000_000_000_000_000) by (nonlinear_arith)
            requires a <= 1_000_000_000, b <= 1_000_000_000;
    }
    let p: u64 = a * b;
    proof {
        assert(p / 1_000_000_000 <= a && p / 1_000_000_000 <= b && p / 1_000_000_000
            <= 1_000_000_000) by (nonlinear_arith)
            requires p == a * b, a <= 1_000_000_000, b <= 1_000_000_000;
    }
    p / 1_000_000_000
}

/// Octant sine: matches `spec_sin_poly` exactly and stays within the scale.
fn sin_poly(x: u64) -> (r: u64)
    requires
        x <= 790_000_000,
    ensures
        r == spec_sin_poly(x as int),
        r <= 1_000_000_000,
{
    let x2: u64 = scale_mul(x, x);
    let x3: u64 = scale_mul(x2, x);
    let x5: u64 = scale_mul(x3, x2);
    let x7: u64 = scale_mul(x5, x2);
    let x9: u64 = scale_mul(x7, x2);
    proof {
        assert(x3 / 6 <= x3 && x7 / 5040 <= x5 / 120) by (nonlinear_arith)
            requires 0 <= x7 <= x5, 0 <= x3;
    }
    x - x3 / 6 + x5 / 120 - x7 / 5040 + x9 / 362880
}

/// Octant cosine: matches `spec_cos_poly` exactly and stays within the
/// scale; on the octant it never drops below 0.6 of the scale.
fn cos_poly(x: u64) -> (r: u64)
    requires
        x <= 790_000_000,
    ensures
        r == spec_cos_poly(x as int),
        600_000_000 <= r <= 1_000_000_000,
{
    let x2: u64 = scale_mul(x, x);
    let x4: u64 = scale_mul(x2, x2);
    let x6: u64 = scale_mul(x4, x2);
    let x8: u64 = scale_mul(x6, x2);
    proof {
        assert(x6 / 720 <= x4 / 24 && x4 / 24 + x8 / 40320 <= x2 / 2) by (nonlinear_arith)
            requires 0 <= x8 <= x6 <= x4 <= x2;
    }
    1_000_000_000 - x2 / 2 + x4 / 24 - x6 / 720 + x8 / 40320
}

/// An octant angle in scaled radians, within the polynomials' input range.
fn rad_nano(b: u64) -> (x: u64)
    requires
        b <= 4500,
    ensures
        x == spec_rad_nano(b as int),
        x <= 790_000_000,
{
    b * PI_NANO / 18000
}

/// First-quadrant cosine and sine magnitudes of `b` hundredths of a
/// degree. One of the two is always at least 0.6 of the scale: within an
/// octant of a cardinal direction the dominant component stays large.
fn quarter_cos_sin(b: u64) -> (r: (u64, u64))
    requires
        b < 9000,
    ensures
        r.0 == spec_quarter_cos(b as int),
        r.1 == spec_quarter_sin(b as int),
        r.0 <= 1_000_000_000,
        r.1 <= 1_000_000_000,
        r.0 >= 600_000_000 || r.1 >= 600_000_000,
{
    if b <= 4500 {
        let x: u64 = rad_nano(b);
        (cos_poly(x), sin_poly(x))
    } else {
        let x: u64 = rad_nano(9000 - b);
        (sin_poly(x), cos_poly(x))
    }
}

/// Cosine and sine of `a` hundredths of a degree, in `TRIG_SCALE` fixed
/// point, each within `[-TRIG_SCALE, TRIG_SCALE]`; the dominant component
/// always has magnitude at least 0.6 of the scale.
pub fn cos_sin_nano(a: u32) -> (r: (i64, i64))
    requires
        a < ANGLE_UNITS,
    ensures
        r.0 == spec_cos_nano(a as int),
        r.1 == spec_sin_nano(a as int),
        -1_000_000_000 <= r.0 <= 1_000_000_000,
        -1_000_000_000 <= r.1 <= 1_000_000_000,
        r.0 >= 600_000_000 || r.0 <= -600_000_000 || r.1 >= 600_000_000 || r.1
            <= -600_000_000,
{
    let q: u32 = a / 9000;
    let b: u64 = (a % 9000) as u64;
    let (c, s) = quarter_cos_sin(b);
    let ci: i64 = c as i64;
    let si: i64 = s as i64;
    if q == 0 {
        (ci, si)
    } else if q == 1 {
        (-si, ci)
    } else if q == 2 {
        (-ci, -si)
    } else {
        (si, -ci)
    }
}

} // verus!
