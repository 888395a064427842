use vstd::prelude::*;
use vstd::arithmetic::div_mod::lemma_fundamental_div_mod_converse;

verus! {

/// One audio sample: a signed 16.16 fixed-point number.
pub type Sample = i32;

/// The fixed-point value 1.0; also the unit of gains.
pub const UNITY: i32 = 65536;

/// Saturates a mathematical integer into the sample range.
pub open spec fn clamp(x: int) -> Sample {
    if x > i32::MAX {
        i32::MAX
    } else if x < i32::MIN {
        i32::MIN
    } else {
        x as i32
    }
}

/// `s` multiplied by the fixed-point gain `g`, rounded down, saturated.
pub open spec fn scaled(s: Sample, g: i32) -> Sample {
    clamp((s * g) / (UNITY as int))
}

/// `a + b * g` in fixed point, rounded down, saturated.
pub open spec fn mixed(a: Sample, b: Sample, g: i32) -> Sample {
    clamp(a + (s_times(b, g)))
}

/// The exact product of a sample and a gain, rounded down to a sample step.
pub open spec fn s_times(b: Sample, g: i32) -> int {
    (b * g) / (UNITY as int)
}

/// Division rounded towards negative infinity.
pub fn floor_div(a: i128, d: i128) -> (r: i128)
    requires
        d > 0,
    ensures
        r == a / d,
{
    if a >= 0 {
        a / d
    } else {
        let m: i128 = -(a + 1);
        let q: i128 = m / d;
        proof {
            let r = (m as int) % (d as int);
            vstd::arithmetic::div_mod::lemma_fundamental_div_mod(m as int, d as int);
            assert(a == (-q - 1) * d + (d - r - 1)) by (nonlinear_arith)
                requires
                    m == d * q + r,
                    m == -(a + 1),
            ;
            lemma_fundamental_div_mod_converse(a as int, d as int, -q - 1, d - r - 1);
        }
        -q - 1
    }
}

fn clamp_wide(x: i128) -> (r: Sample)
    ensures
        r == clamp(x as int),
{
    if x > i32::MAX as i128 {
        i32::MAX
    } else if x < i32::MIN as i128 {
        i32::MIN
    } else {
        x as i32
    }
}

fn wide_product(a: i32, b: i32) -> (r: i128)
    ensures
        r == a * b,
        -0x4000_0000_0000_0000 <= r <= 0x4000_0000_0000_0000,
{
    proof {
        assert(-0x4000_0000_0000_0000 <= a * b <= 0x4000_0000_0000_0000) by (nonlinear_arith)
            requires
                i32::MIN <= a <= i32::MAX,
                i32::MIN <= b <= i32::MAX,
        ;
    }
    (a as i128) * (b as i128)
}

/// Multiplies a sample by a fixed-point gain.
pub fn scale_sample(s: Sample, g: i32) -> (r: Sample)
    ensures
        r == scaled(s, g),
{
    let p = wide_product(s, g);
    clamp_wide(floor_div(p, UNITY as i128))
}

/// Adds `b` scaled by the fixed-point gain `g` to `a`.
pub fn mix_sample(a: Sample, b: Sample, g: i32) -> (r: Sample)
    ensures
        r == mixed(a, b, g),
{
    let p = wide_product(b, g);
    let q = floor_div(p, UNITY as i128);
    clamp_wide(a as i128 + q)
}

} // verus!
