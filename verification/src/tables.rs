//! The two curves that the animations are built on: a sine in integer steps and
//! an exponential falloff.

use vstd::prelude::*;

verus! {

/// What `sin_approx` returns for a full-scale sine: the angle 64.
pub const SIN_ONE: i8 = 64;

/// The product `a * (128 - a)` that the sine of the half-wave angle `a` is built
/// from. It peaks at the quarter angle.
pub open spec fn half_wave_product(a: int) -> int {
    a * (128 - a)
}

/// The sine of `angle`, where 256 stands for a full turn and 64 for the value one.
///
/// The first half wave follows Bhaskara's rational formula
/// `4 a (128 - a) / (5 * 128 * 128 / 4 - a (128 - a))`, rounded down after
/// scaling by 64; the second half wave is the first one, negated.
pub open spec fn sin_value(angle: int) -> int
    recommends
        0 <= angle < 256,
{
    let a = if angle < 128 { angle } else { angle - 128 };
    let p = half_wave_product(a);
    let magnitude = (64 * (4 * p)) / (5 * 128 * 128 / 4 - p);
    if angle < 128 {
        magnitude
    } else {
        -magnitude
    }
}

pub proof fn lemma_half_wave_product_bounds(a: int)
    requires
        0 <= a < 128,
    ensures
        0 <= half_wave_product(a) <= 4096,
{
    assert(0 <= a * (128 - a)) by (nonlinear_arith)
        requires
            0 <= a < 128,
    ;
    assert(a * (128 - a) <= 4096) by (nonlinear_arith)
        requires
            0 <= a < 128,
    {
        assert((a - 64) * (a - 64) >= 0);
    }
}

/// The scaled quotient of the formula stays between zero and one.
pub proof fn lemma_quotient_bounds(p: int)
    requires
        0 <= p <= 4096,
    ensures
        0 <= (64 * (4 * p)) / (5 * 128 * 128 / 4 - p) <= 64,
{
    let n = 64 * (4 * p);
    let d = 5 * 128 * 128 / 4 - p;
    assert(0 <= n / d <= 64) by (nonlinear_arith)
        requires
            0 <= n <= 64 * d,
            d > 0,
    ;
}

/// The sine never leaves the range that stands for -1 to 1.
pub proof fn lemma_sin_value_bounds(angle: int)
    requires
        0 <= angle < 256,
    ensures
        -64 <= sin_value(angle) <= 64,
{
    let a = if angle < 128 { angle } else { angle - 128 };
    lemma_half_wave_product_bounds(a);
    lemma_quotient_bounds(half_wave_product(a));
}

/// Half a turn further the sine has the same size and the opposite sign.
pub proof fn lemma_sin_half_turn(a: u8)
    requires
        a < 128,
    ensures
        sin_value(((a + 128) as u8 & 0xff) as int) == -sin_value(a as int),
{
    let turned: u8 = (a + 128) as u8;
    assert(turned & 0xff == turned) by (bit_vector);
}

/// Returns the approximation of the sine of `angle`.
///
/// A value of 256 for the angle stands for a full turn. The result lies between
/// -64, which stands for -1, and 64, which stands for 1.
pub fn sin_approx(angle: u8) -> (s: i8)
    ensures
        s == sin_value(angle as int),
        -64 <= s <= 64,
{
    let a: i32 = if angle < 128 { angle as i32 } else { angle as i32 - 128 };
    proof {
        lemma_half_wave_product_bounds(a as int);
        lemma_quotient_bounds(half_wave_product(a as int));
    }
    let angle_times_pi_minus_angle: i32 = a * (128 - a);
    let nominator: i32 = 4 * angle_times_pi_minus_angle;
    let denominator: i32 = ((5 * 128 * 128) / 4) - angle_times_pi_minus_angle;
    let result: i32 = 64 * nominator / denominator;
    if angle < 128 {
        result as i8
    } else {
        (-result) as i8
    }
}

/// `255 * (1 - e^(-9 x / 255))`, rounded down, for `x` from 0 to 255: a curve that
/// climbs steeply from zero and then stays close to its ceiling.
pub const ONE_MINUS_EXP_MINUS_X_TABLE: [u8; 256] = [
    0, 8, 17, 25, 33, 41, 48, 55, 62, 69, 75, 82, 88, 93, 99, 104,
    110, 115, 119, 124, 129, 133, 137, 141, 145, 149, 153, 156, 160, 163, 166, 169,
    172, 175, 178, 180, 183, 185, 188, 190, 192, 195, 197, 199, 201, 202, 204, 206,
    208, 209, 211, 212, 214, 215, 217, 218, 219, 220, 222, 223, 224, 225, 226, 227,
    228, 229, 230, 231, 231, 232, 233, 234, 234, 235, 236, 236, 237, 238, 238, 239,
    239, 240, 240, 241, 241, 242, 242, 243, 243, 243, 244, 244, 245, 245, 245, 246,
    246, 246, 246, 247, 247, 247, 248, 248, 248, 248, 248, 249, 249, 249, 249, 249,
    250, 250, 250, 250, 250, 250, 251, 251, 251, 251, 251, 251, 251, 251, 252, 252,
    252, 252, 252, 252, 252, 252, 252, 252, 252, 252, 253, 253, 253, 253, 253, 253,
    253, 253, 253, 253, 253, 253, 253, 253, 253, 253, 253, 253, 253, 253, 254, 254,
    254, 254, 254, 254, 254, 254, 254, 254, 254, 254, 254, 254, 254, 254, 254, 254,
    254, 254, 254, 254, 254, 254, 254, 254, 254, 254, 254, 254, 254, 254, 254, 254,
    254, 254, 254, 254, 254, 254, 254, 254, 254, 254, 254, 254, 254, 254, 254, 254,
    254, 254, 254, 254, 254, 254, 254, 254, 254, 254, 254, 254, 254, 254, 254, 254,
    254, 254, 254, 254, 254, 254, 254, 254, 254, 254, 254, 254, 254, 254, 254, 254,
    254, 254, 254, 254, 254, 254, 254, 254, 254, 254, 254, 254, 254, 254, 254, 254,
];

/// The entry of the falloff curve at `x`.
pub open spec fn one_minus_exp(x: int) -> int
    recommends
        0 <= x < 256,
{
    ONE_MINUS_EXP_MINUS_X_TABLE[x] as int
}

/// Looks the falloff curve up at `x`.
pub fn one_minus_exp_minus_x(x: u8) -> (y: u8)
    ensures
        y == one_minus_exp(x as int),
{
    ONE_MINUS_EXP_MINUS_X_TABLE[x as usize]
}

} // verus!
