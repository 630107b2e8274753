//! Arithmetic on single colours. A colour is three 8-bit channels in the order
//! red, green, blue.

use vstd::prelude::*;

verus! {

/// The weighted average of two channel values: `b_weight` of 0 gives `a`, 255
/// gives `b`, and in between the value moves linearly.
pub open spec fn avg_value(a: u8, b: u8, b_weight: u8) -> u8 {
    ((a * (255 - b_weight) + b * b_weight) / 255) as u8
}

/// The weighted average of two colours, channel by channel.
pub open spec fn mixed(c1: [u8; 3], c2: [u8; 3], c2_weight: u8) -> [u8; 3] {
    [
        avg_value(c1[0], c2[0], c2_weight),
        avg_value(c1[1], c2[1], c2_weight),
        avg_value(c1[2], c2[2], c2_weight),
    ]
}

/// The weighted sum of two channels never exceeds the larger of them, so the
/// average is a channel value again.
pub proof fn lemma_avg_in_range(a: u8, b: u8, b_weight: u8)
    ensures
        0 <= a * (255 - b_weight) + b * b_weight <= 255 * 255,
        (a * (255 - b_weight) + b * b_weight) / 255 <= 255,
        a <= b ==> a <= avg_value(a, b, b_weight) <= b,
        b <= a ==> b <= avg_value(a, b, b_weight) <= a,
{
    let w = b_weight as int;
    let s = a * (255 - w) + b * w;
    assert(0 <= a * (255 - w) <= 255 * (255 - w)) by (nonlinear_arith)
        requires
            0 <= a <= 255,
            0 <= w <= 255,
    ;
    assert(0 <= b * w <= 255 * w) by (nonlinear_arith)
        requires
            0 <= b <= 255,
            0 <= w <= 255,
    ;
    if a <= b {
        assert(a * 255 <= s <= b * 255) by (nonlinear_arith)
            requires
                s == a * (255 - w) + b * w,
                a <= b,
                0 <= w <= 255,
        ;
    } else {
        assert(b * 255 <= s <= a * 255) by (nonlinear_arith)
            requires
                s == a * (255 - w) + b * w,
                b <= a,
                0 <= w <= 255,
        ;
    }
}

/// At weight 0 the average is its first argument, at weight 255 its second, and
/// the average of a value with itself is that value.
pub proof fn lemma_avg_ends(a: u8, b: u8, w: u8)
    ensures
        avg_value(a, b, 0) == a,
        avg_value(a, b, 255) == b,
        avg_value(a, a, w) == a,
{
    assert(a * (255 - w) + a * w == a * 255) by (nonlinear_arith);
}

/// Mixing with weight 0 keeps the first colour, with weight 255 the second.
pub proof fn lemma_mixed_ends(c1: [u8; 3], c2: [u8; 3], w: u8)
    ensures
        mixed(c1, c2, 0) == c1,
        mixed(c1, c2, 255) == c2,
        mixed(c1, c1, w) == c1,
{
    lemma_avg_ends(c1[0], c2[0], w);
    lemma_avg_ends(c1[1], c2[1], w);
    lemma_avg_ends(c1[2], c2[2], w);
    assert(mixed(c1, c2, 0) =~= c1);
    assert(mixed(c1, c2, 255) =~= c2);
    assert(mixed(c1, c1, w) =~= c1);
}

/// The weighted average of two channel values.
pub fn avg(a: u8, b: u8, b_weight: u8) -> (r: u8)
    ensures
        r == avg_value(a, b, b_weight),
{
    proof {
        lemma_avg_in_range(a, b, b_weight);
    }
    let res: u16 = a as u16 * (255 - b_weight) as u16 + b as u16 * b_weight as u16;
    (res / 255) as u8
}

/// The weighted average of two colours.
pub fn mix(c1: [u8; 3], c2: [u8; 3], c2_weight: u8) -> (c: [u8; 3])
    ensures
        c == mixed(c1, c2, c2_weight),
{
    [
        avg(c1[0], c2[0], c2_weight),
        avg(c1[1], c2[1], c2_weight),
        avg(c1[2], c2[2], c2_weight),
    ]
}

/// A sequence of `n` pixels that all show `color`.
pub open spec fn solid(n: nat, color: [u8; 3]) -> Seq<[u8; 3]> {
    Seq::new(n, |i: int| color)
}

/// `n` pixels that all show `color`.
pub fn repeat(color: [u8; 3], n: usize) -> (colors: Vec<[u8; 3]>)
    ensures
        colors@ == solid(n as nat, color),
{
    let mut colors: Vec<[u8; 3]> = Vec::new();
    let mut i: usize = 0;
    while i < n
        invariant
            i <= n,
            colors@ == solid(i as nat, color),
        decreases n - i,
    {
        colors.push(color);
        i += 1;
    }
    colors
}

} // verus!
