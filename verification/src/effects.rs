//! Layers that can be put over the colours of a strip: each takes the colours of
//! the pixels in wiring order and gives back as many.

use vstd::prelude::*;
use crate::clock::Elapsed;
use crate::leds::{pixel_count, Strip, EAST_LEDS, NORTH_LEDS, SOUTH_LEDS, TOTAL_LEDS, WEST_LEDS};
use crate::tables::{sin_approx, sin_value};

verus! {

/// Where pixel `idx` of `strip` lies along the perimeter, which is measured from
/// the south-west corner over the west, north, east and south sides. The
/// north-west strip is wired in that direction; the south-east strip is wired
/// against it, from the far end of the perimeter back to where the two meet.
pub open spec fn led_position(strip: Strip, idx: int) -> int {
    match strip {
        Strip::NorthWest => idx,
        Strip::SouthEast => (SOUTH_LEDS + EAST_LEDS - idx) + (NORTH_LEDS + WEST_LEDS),
    }
}

/// Angle, as a byte, of a wave that has `periods` periods along the perimeter and
/// is `phase` ahead, at the position `pos`.
pub open spec fn forward_angle(phase: int, periods: int, pos: int) -> int {
    (phase + periods * 256 * pos / (TOTAL_LEDS as int)) % 256
}

/// Angle, as a byte, of a wave that has `periods` periods along the perimeter and
/// is `phase` behind, at the position `pos`.
pub open spec fn backward_angle(phase: int, periods: int, pos: int) -> int {
    (periods * 256 * pos / (TOTAL_LEDS as int) - phase) % 256
}

/// Sum of the four waves of the flicker at pixel `idx` of `strip` at time `t`.
/// They differ in length and in speed, and two of them run backwards, so the sum
/// looks random.
pub open spec fn flicker_sum(t: Elapsed, strip: Strip, idx: int) -> int {
    let pos = led_position(strip, idx);
    sin_value(forward_angle(t.millis32() / 6, 5, pos)) + sin_value(
        backward_angle(t.millis32() / 30, 3, pos),
    ) + sin_value(forward_angle(t.millis32() / 21, 7, pos)) + sin_value(
        backward_angle(t.millis32() / 22, 11, pos),
    )
}

/// Half of `sum`, rounded towards zero and held between -128 and 127.
pub open spec fn flicker_level(sum: int) -> int {
    let half = if sum >= 0 { sum / 2 } else { -((-sum) / 2) };
    if half < -128 {
        -128
    } else if half > 127 {
        127
    } else {
        half
    }
}

/// Intensity of the flicker at pixel `idx` of `strip` at time `t`, between
/// `wave_min_intensity` and `wave_max_intensity`.
pub open spec fn flicker_intensity(
    t: Elapsed,
    strip: Strip,
    idx: int,
    wave_min_intensity: u8,
    wave_max_intensity: u8,
) -> u8 {
    ((flicker_level(flicker_sum(t, strip, idx)) + 128) * (wave_max_intensity - wave_min_intensity)
        / 255 + wave_min_intensity) as u8
}

/// The flicker never leaves the range that it is given.
pub proof fn lemma_flicker_in_range(
    t: Elapsed,
    strip: Strip,
    idx: int,
    wave_min_intensity: u8,
    wave_max_intensity: u8,
)
    requires
        wave_min_intensity <= wave_max_intensity,
    ensures
        wave_min_intensity <= flicker_intensity(
            t,
            strip,
            idx,
            wave_min_intensity,
            wave_max_intensity,
        ) <= wave_max_intensity,
{
    let level = flicker_level(flicker_sum(t, strip, idx)) + 128;
    let span = wave_max_intensity - wave_min_intensity;
    assert(0 <= level * span / 255 <= span) by (nonlinear_arith)
        requires
            0 <= level <= 255,
            0 <= span,
    ;
}

fn led_position_of(strip: Strip, idx: usize) -> (pos: u32)
    requires
        idx <= pixel_count(strip),
    ensures
        pos == led_position(strip, idx as int),
        pos <= TOTAL_LEDS,
{
    match strip {
        Strip::NorthWest => idx as u32,
        Strip::SouthEast => ((SOUTH_LEDS + EAST_LEDS) as u32 - idx as u32) + (NORTH_LEDS
            + WEST_LEDS) as u32,
    }
}

fn forward_sin(phase: u32, periods: u16, pos: u32) -> (s: i16)
    requires
        pos <= TOTAL_LEDS,
        phase <= 0x4000_0000,
    ensures
        s == sin_value(forward_angle(phase as int, periods as int, pos as int)),
        -64 <= s <= 64,
{
    assert(periods * 256 * pos <= 65535 * 256 * 173) by (nonlinear_arith)
        requires
            periods <= 65535,
            pos <= 173,
    ;
    let angle: u32 = phase + periods as u32 * 256 * pos / TOTAL_LEDS as u32;
    assert(angle & 0xff == angle % 256) by (bit_vector);
    sin_approx((angle & 0xff) as u8) as i16
}

fn backward_sin(phase: u32, periods: u16, pos: u32) -> (s: i16)
    requires
        pos <= TOTAL_LEDS,
    ensures
        s == sin_value(backward_angle(phase as int, periods as int, pos as int)),
        -64 <= s <= 64,
{
    assert(periods * 256 * pos <= 65535 * 256 * 173) by (nonlinear_arith)
        requires
            periods <= 65535,
            pos <= 173,
    ;
    let angle: u32 = (periods as u32 * 256 * pos / TOTAL_LEDS as u32).wrapping_sub(phase);
    assert(angle & 0xff == angle % 256) by (bit_vector);
    sin_approx((angle & 0xff) as u8) as i16
}

/// Intensity of the flicker at pixel `idx` of `strip`, between
/// `wave_min_intensity` and `wave_max_intensity`.
pub fn flicker_intensity_at(
    clock_value: Elapsed,
    strip: Strip,
    idx: usize,
    wave_min_intensity: u8,
    wave_max_intensity: u8,
) -> (intensity: u8)
    requires
        idx < pixel_count(strip),
        wave_min_intensity <= wave_max_intensity,
    ensures
        intensity == flicker_intensity(
            clock_value,
            strip,
            idx as int,
            wave_min_intensity,
            wave_max_intensity,
        ),
{
    let millis: u32 = clock_value.as_millis32();
    let led_pos: u32 = led_position_of(strip, idx);
    let sin_value1: i16 = forward_sin(millis / 6, 5, led_pos);
    let sin_value2: i16 = backward_sin(millis / 30, 3, led_pos);
    let sin_value3: i16 = forward_sin(millis / 21, 7, led_pos);
    let sin_value4: i16 = backward_sin(millis / 22, 11, led_pos);
    let half: i16 = (sin_value1 + sin_value2 + sin_value3 + sin_value4) / 2;
    let sin_value: i16 = if half < -128 {
        -128
    } else if half > 127 {
        127
    } else {
        half
    };
    let span: u16 = wave_max_intensity as u16 - wave_min_intensity as u16;
    assert((sin_value + 128) * span <= 255 * span) by (nonlinear_arith)
        requires
            0 <= sin_value + 128 <= 255,
            0 <= span,
    ;
    ((sin_value + 128) as u16 * span / 255 + wave_min_intensity as u16) as u8
}

/// Lets the pixels flicker: `map` is given each colour together with the
/// intensity of the flicker at its pixel, which lies between `wave_min_intensity`
/// and `wave_max_intensity`, and returns the colour to show.
pub fn seemingly_random_vibration<F: Fn([u8; 3], u8) -> [u8; 3]>(
    clock_value: Elapsed,
    strip: Strip,
    wave_min_intensity: u8,
    wave_max_intensity: u8,
    colors: &[[u8; 3]],
    map: F,
) -> (out: Vec<[u8; 3]>)
    requires
        colors@.len() <= pixel_count(strip),
        wave_min_intensity <= wave_max_intensity,
        forall|color: [u8; 3], intensity: u8| map.requires((color, intensity)),
    ensures
        out@.len() == colors@.len(),
        forall|idx: int|
            0 <= idx < colors@.len() ==> map.ensures(
                (
                    colors@[idx],
                    flicker_intensity(
                        clock_value,
                        strip,
                        idx,
                        wave_min_intensity,
                        wave_max_intensity,
                    ),
                ),
                #[trigger] out@[idx],
            ),
{
    let mut out: Vec<[u8; 3]> = Vec::new();
    let mut idx: usize = 0;
    while idx < colors.len()
        invariant
            idx <= colors@.len() <= pixel_count(strip),
            wave_min_intensity <= wave_max_intensity,
            forall|color: [u8; 3], intensity: u8| map.requires((color, intensity)),
            out@.len() == idx,
            forall|i: int|
                0 <= i < idx ==> map.ensures(
                    (
                        colors@[i],
                        flicker_intensity(
                            clock_value,
                            strip,
                            i,
                            wave_min_intensity,
                            wave_max_intensity,
                        ),
                    ),
                    #[trigger] out@[i],
                ),
        decreases colors@.len() - idx,
    {
        let intensity: u8 = flicker_intensity_at(
            clock_value,
            strip,
            idx,
            wave_min_intensity,
            wave_max_intensity,
        );
        out.push(map(colors[idx], intensity));
        idx += 1;
    }
    out
}

/// Brightness, out of 256, that the gradient gives pixel `n` of `strip`. It never
/// falls below the floor: the west side stays at the floor, the north side climbs
/// from there, the south side climbs along its length, and the east side is at
/// full brightness.
pub open spec fn gradient_intensity(strip: Strip, n: int) -> int {
    match strip {
        Strip::NorthWest => if n < WEST_LEDS {
            MIN_INTENSITY as int
        } else {
            MIN_INTENSITY + (256 - MIN_INTENSITY) * (n - WEST_LEDS) / (NORTH_LEDS as int)
        },
        Strip::SouthEast => if n < SOUTH_LEDS {
            MIN_INTENSITY + (256 - MIN_INTENSITY) * n / (SOUTH_LEDS as int)
        } else {
            256
        },
    }
}

/// The floor of the gradient, out of 256.
pub const MIN_INTENSITY: u16 = 4;

/// The gradient never lets a pixel of the strip fall below its floor, nor lifts
/// one above full brightness.
pub proof fn lemma_gradient_bounds(strip: Strip, n: int)
    requires
        0 <= n < pixel_count(strip),
    ensures
        0 < MIN_INTENSITY <= gradient_intensity(strip, n) <= 256,
{
}

/// `color` at the brightness `intensity` out of 256.
pub open spec fn dimmed(intensity: int, color: [u8; 3]) -> [u8; 3] {
    [
        (intensity * color[0] / 256) as u8,
        (intensity * color[1] / 256) as u8,
        (intensity * color[2] / 256) as u8,
    ]
}

fn ramp(step: u16, steps: u16) -> (intensity: u16)
    requires
        step < steps <= 256,
    ensures
        intensity == MIN_INTENSITY + (256 - MIN_INTENSITY) * step / (steps as int),
        intensity <= 256,
{
    let span: u16 = 256 - MIN_INTENSITY;
    assert(span * step / (steps as int) <= span && span * step <= 252 * 256) by (nonlinear_arith)
        requires
            span == 252,
            0 <= step < steps <= 256,
    ;
    MIN_INTENSITY + span * step / steps
}

fn dim_channel(intensity: u16, x: u8) -> (y: u8)
    requires
        intensity <= 256,
    ensures
        y == intensity * x / 256,
{
    assert(intensity * x <= 256 * 255) by (nonlinear_arith)
        requires
            intensity <= 256,
            x <= 255,
    ;
    (intensity * x as u16 / 256) as u8
}

/// Dims the pixels along the west-to-east axis of the room.
pub fn west_to_east_gradiant_modifier(strip: Strip, colors: &[[u8; 3]]) -> (out: Vec<[u8; 3]>)
    requires
        colors@.len() <= pixel_count(strip),
    ensures
        out@.len() == colors@.len(),
        forall|n: int|
            0 <= n < colors@.len() ==> out@[n] == dimmed(gradient_intensity(strip, n), colors@[n]),
{
    let mut out: Vec<[u8; 3]> = Vec::new();
    let mut n: usize = 0;
    while n < colors.len()
        invariant
            n <= colors@.len() <= pixel_count(strip),
            out@.len() == n,
            forall|i: int|
                0 <= i < n ==> out@[i] == dimmed(gradient_intensity(strip, i), colors@[i]),
        decreases colors@.len() - n,
    {
        let intensity: u16 = match strip {
            Strip::NorthWest => if n < WEST_LEDS {
                MIN_INTENSITY
            } else {
                ramp((n - WEST_LEDS) as u16, NORTH_LEDS as u16)
            },
            Strip::SouthEast => if n < SOUTH_LEDS {
                ramp(n as u16, SOUTH_LEDS as u16)
            } else {
                256
            },
        };
        let item = colors[n];
        out.push(
            [
                dim_channel(intensity, item[0]),
                dim_channel(intensity, item[1]),
                dim_channel(intensity, item[2]),
            ],
        );
        n += 1;
    }
    out
}

/// A channel in a flash: more than twice as bright, as far as the channel goes,
/// and never quite dark.
pub open spec fn flashed_channel(x: u8) -> u8 {
    if x * 9 / 4 >= 255 {
        255u8
    } else if x * 9 / 4 < 1 {
        1u8
    } else {
        (x * 9 / 4) as u8
    }
}

/// What `color` becomes in the frame with the given count: every other frame is a
/// flash.
pub open spec fn flashed(updates_wrapping_counter: u8, color: [u8; 3]) -> [u8; 3] {
    if updates_wrapping_counter % 2 == 0 {
        [flashed_channel(color[0]), flashed_channel(color[1]), flashed_channel(color[2])]
    } else {
        color
    }
}

fn flash_channel(x: u8) -> (y: u8)
    ensures
        y == flashed_channel(x),
{
    let boosted: u16 = x as u16 * 9 / 4;
    if boosted >= 255 {
        255
    } else if boosted < 1 {
        1
    } else {
        boosted as u8
    }
}

/// Lets the strip flash in every other frame.
pub fn flashing(updates_wrapping_counter: u8, colors: &[[u8; 3]]) -> (out: Vec<[u8; 3]>)
    ensures
        out@.len() == colors@.len(),
        forall|i: int|
            0 <= i < colors@.len() ==> out@[i] == flashed(updates_wrapping_counter, colors@[i]),
{
    let flash: bool = updates_wrapping_counter % 2 == 0;
    let mut out: Vec<[u8; 3]> = Vec::new();
    let mut idx: usize = 0;
    while idx < colors.len()
        invariant
            idx <= colors@.len(),
            flash == (updates_wrapping_counter % 2 == 0),
            out@.len() == idx,
            forall|i: int|
                0 <= i < idx ==> out@[i] == flashed(updates_wrapping_counter, colors@[i]),
        decreases colors@.len() - idx,
    {
        let color = colors[idx];
        if flash {
            out.push([flash_channel(color[0]), flash_channel(color[1]), flash_channel(color[2])]);
        } else {
            out.push(color);
        }
        idx += 1;
    }
    out
}

/// Time that the slow fade spends between two of its colours, in milliseconds.
pub const COLOR_DURATION: u32 = 60000;

/// The six colours of the slow fade.
pub open spec fn slow_palette(v: int) -> [u8; 3] {
    let k = v % 6;
    if k == 0 {
        [255u8, 0u8, 0u8]
    } else if k == 1 {
        [0u8, 128u8, 128u8]
    } else if k == 2 {
        [0u8, 0u8, 255u8]
    } else if k == 3 {
        [128u8, 128u8, 0u8]
    } else if k == 4 {
        [0u8, 255u8, 0u8]
    } else {
        [128u8, 0u8, 128u8]
    }
}

/// Where the slow fade stands at time `t`, in milliseconds since it last showed
/// its first colour.
pub open spec fn slow_step(t: Elapsed) -> int {
    t.millis32() % (COLOR_DURATION * 6)
}

/// How far the slow fade is between two colours, out of 65536.
pub open spec fn slow_progress(t: Elapsed) -> int {
    (slow_step(t) % (COLOR_DURATION as int)) * 65536 / (COLOR_DURATION as int)
}

/// One channel of the slow fade.
pub open spec fn slow_channel(from: u8, to: u8, progress: int) -> u8 {
    ((from * (65535 - progress) + to * progress) / 65536) as u8
}

/// The colour of the slow fade at time `t`.
pub open spec fn slow_color(t: Elapsed) -> [u8; 3] {
    let from = slow_palette(slow_step(t) / (COLOR_DURATION as int));
    let to = slow_palette(slow_step(t) / (COLOR_DURATION as int) + 1);
    [
        slow_channel(from[0], to[0], slow_progress(t)),
        slow_channel(from[1], to[1], slow_progress(t)),
        slow_channel(from[2], to[2], slow_progress(t)),
    ]
}

fn slow_palette_color(v: u32) -> (c: [u8; 3])
    ensures
        c == slow_palette(v as int),
{
    let k: u32 = v % 6;
    if k == 0 {
        [255, 0, 0]
    } else if k == 1 {
        [0, 128, 128]
    } else if k == 2 {
        [0, 0, 255]
    } else if k == 3 {
        [128, 128, 0]
    } else if k == 4 {
        [0, 255, 0]
    } else {
        [128, 0, 128]
    }
}

fn slow_channel_of(from: u8, to: u8, progress: u32) -> (y: u8)
    requires
        progress < 65536,
    ensures
        y == slow_channel(from, to, progress as int),
{
    let one_minus_progress: u32 = 65535 - progress;
    assert(from * one_minus_progress + to * progress <= 255 * 65535) by (nonlinear_arith)
        requires
            from <= 255,
            to <= 255,
            0 <= progress <= 65535,
            one_minus_progress == 65535 - progress,
    ;
    ((from as u32 * one_minus_progress + to as u32 * progress) / 65536) as u8
}

/// A colour that moves through a palette of six, one minute from each to the
/// next.
pub fn slowly_changing_color(clock_value: Elapsed) -> (color: [u8; 3])
    ensures
        color == slow_color(clock_value),
{
    let step: u32 = clock_value.as_millis32() % (COLOR_DURATION * 6);
    let color_from_idx: u32 = step / COLOR_DURATION;
    let color_from = slow_palette_color(color_from_idx);
    let color_to = slow_palette_color(color_from_idx + 1);
    let progress: u32 = (step % COLOR_DURATION) * 65536 / COLOR_DURATION;
    [
        slow_channel_of(color_from[0], color_to[0], progress),
        slow_channel_of(color_from[1], color_to[1], progress),
        slow_channel_of(color_from[2], color_to[2], progress),
    ]
}

/// The side of the room that pixel `n` of `strip` lies on, as the rotation counts
/// the sides.
pub open spec fn side_number(strip: Strip, n: int) -> int {
    match strip {
        Strip::NorthWest => if n >= WEST_LEDS { 1 } else { 0 },
        Strip::SouthEast => if n >= SOUTH_LEDS { 2 } else { 3 },
    }
}

/// How many sides the colours have moved on at time `t`: one every two seconds.
pub open spec fn side_shift(t: Elapsed) -> int {
    ((t.secs() % 0x1_0000_0000) / 2) % 256
}

/// The four colours of the sides.
pub open spec fn side_palette(v: int) -> [u8; 3] {
    let k = v % 4;
    if k == 0 {
        [255u8, 0u8, 0u8]
    } else if k == 1 {
        [128u8, 0u8, 128u8]
    } else if k == 2 {
        [0u8, 0u8, 255u8]
    } else {
        [0u8, 255u8, 0u8]
    }
}

/// Gives each side of the room one colour, and lets the colours move on from side
/// to side every two seconds.
pub fn colors_rotation_by_side(clock_value: Elapsed, strip: Strip) -> (out: Vec<[u8; 3]>)
    ensures
        out@.len() == pixel_count(strip),
        forall|n: int|
            0 <= n < out@.len() ==> out@[n] == side_palette(
                side_number(strip, n) + side_shift(clock_value),
            ),
{
    let side_add: u16 = (((clock_value.as_secs() % 0x1_0000_0000) / 2) % 256) as u16;
    let count: usize = strip.pixel_count();
    let mut out: Vec<[u8; 3]> = Vec::new();
    let mut counter: usize = 0;
    while counter < count
        invariant
            counter <= count,
            count == pixel_count(strip),
            side_add == side_shift(clock_value),
            out@.len() == counter,
            forall|n: int|
                0 <= n < counter ==> out@[n] == side_palette(
                    side_number(strip, n) + side_shift(clock_value),
                ),
        decreases count - counter,
    {
        let side_num: u16 = match strip {
            Strip::NorthWest => if counter >= WEST_LEDS { 1 } else { 0 },
            Strip::SouthEast => if counter >= SOUTH_LEDS { 2 } else { 3 },
        };
        let side_num_adjusted: u16 = (side_num + side_add) % 4;
        let color: [u8; 3] = if side_num_adjusted == 0 {
            [255, 0, 0]
        } else if side_num_adjusted == 1 {
            [128, 0, 128]
        } else if side_num_adjusted == 2 {
            [0, 0, 255]
        } else {
            [0, 255, 0]
        };
        out.push(color);
        counter += 1;
    }
    out
}

/// `color` under a wave whose sine is `sin` at this pixel: full brightness at the
/// crest, dark in the trough.
pub open spec fn waved(sin: int, color: [u8; 3]) -> [u8; 3] {
    [
        (color[0] * (sin + 64) / 128) as u8,
        (color[1] * (sin + 64) / 128) as u8,
        (color[2] * (sin + 64) / 128) as u8,
    ]
}

/// Sine of the wave of `wave_modifier_nw` and `wave_modifier_se` at pixel `idx` of
/// `strip`.
pub open spec fn wave_sin(strip: Strip, num_periods: u16, angle_add: u8, idx: int) -> int {
    sin_value(forward_angle(angle_add as int, num_periods as int, led_position(strip, idx)))
}

fn wave_channel(x: u8, sin: i16) -> (y: u8)
    requires
        -64 <= sin <= 64,
    ensures
        y == x * (sin + 64) / 128,
{
    assert(0 <= x * (sin + 64) <= 255 * 128) by (nonlinear_arith)
        requires
            0 <= x <= 255,
            0 <= sin + 64 <= 128,
    ;
    (x as i16 * (sin + 64) / 128) as u8
}

fn wave_modifier(strip: Strip, num_periods: u16, angle_add: u8, colors: &[[u8; 3]]) -> (out: Vec<
    [u8; 3],
>)
    requires
        colors@.len() <= pixel_count(strip),
    ensures
        out@.len() == colors@.len(),
        forall|idx: int|
            0 <= idx < colors@.len() ==> out@[idx] == waved(
                wave_sin(strip, num_periods, angle_add, idx),
                colors@[idx],
            ),
{
    let mut out: Vec<[u8; 3]> = Vec::new();
    let mut idx: usize = 0;
    while idx < colors.len()
        invariant
            idx <= colors@.len() <= pixel_count(strip),
            out@.len() == idx,
            forall|i: int|
                0 <= i < idx ==> out@[i] == waved(
                    wave_sin(strip, num_periods, angle_add, i),
                    colors@[i],
                ),
        decreases colors@.len() - idx,
    {
        let led_pos: u32 = led_position_of(strip, idx);
        let sin: i16 = forward_sin(angle_add as u32, num_periods, led_pos);
        let val = colors[idx];
        out.push([wave_channel(val[0], sin), wave_channel(val[1], sin), wave_channel(val[2], sin)]);
        idx += 1;
    }
    out
}

/// Lays a standing wave of `num_periods` periods along the perimeter over the
/// north-west strip, shifted by `angle_add`.
pub fn wave_modifier_nw(num_periods: u16, angle_add: u8, colors: &[[u8; 3]]) -> (out: Vec<[u8; 3]>)
    requires
        colors@.len() <= pixel_count(Strip::NorthWest),
    ensures
        out@.len() == colors@.len(),
        forall|idx: int|
            0 <= idx < colors@.len() ==> out@[idx] == waved(
                wave_sin(Strip::NorthWest, num_periods, angle_add, idx),
                colors@[idx],
            ),
{
    wave_modifier(Strip::NorthWest, num_periods, angle_add, colors)
}

/// Lays a standing wave of `num_periods` periods along the perimeter over the
/// south-east strip, shifted by `angle_add`.
pub fn wave_modifier_se(num_periods: u16, angle_add: u8, colors: &[[u8; 3]]) -> (out: Vec<[u8; 3]>)
    requires
        colors@.len() <= pixel_count(Strip::SouthEast),
    ensures
        out@.len() == colors@.len(),
        forall|idx: int|
            0 <= idx < colors@.len() ==> out@[idx] == waved(
                wave_sin(Strip::SouthEast, num_periods, angle_add, idx),
                colors@[idx],
            ),
{
    wave_modifier(Strip::SouthEast, num_periods, angle_add, colors)
}

/// Time that the cursor stays on one pixel, in milliseconds.
pub const CURSOR_PERIOD_MS: u64 = 500;

/// The pixel of the perimeter that the cursor is on at time `t`: it moves on
/// every half second and starts over after the last pixel.
pub open spec fn cursor_position(t: Elapsed) -> int {
    ((t.millis() / (CURSOR_PERIOD_MS as int)) % 0x1_0000_0000) % (TOTAL_LEDS as int)
}

/// Index, in the counting of `strip`, of the pixel that the cursor is on.
///
/// On the north-west strip the index is the position itself, at all times: it
/// lies on the strip while the cursor is on the west or north side, and beyond
/// the strip's last pixel otherwise. The south-east strip has an index only while
/// the cursor is beyond the north-west strip. It is counted back from the far
/// end of the perimeter; the first position beyond the north-west strip, which
/// that count would put one past the strip's last pixel, has the strip's first
/// pixel instead.
pub open spec fn cursor_index(t: Elapsed, strip: Strip) -> Option<int> {
    let pos = cursor_position(t);
    match strip {
        Strip::NorthWest => Some(pos),
        Strip::SouthEast => if pos > WEST_LEDS + NORTH_LEDS {
            Some((SOUTH_LEDS + EAST_LEDS) - (pos - (WEST_LEDS + NORTH_LEDS)))
        } else if pos == WEST_LEDS + NORTH_LEDS {
            Some(0)
        } else {
            None
        },
    }
}

/// Whether the cursor is on a pixel of `strip` at time `t`.
pub open spec fn cursor_is_on(t: Elapsed, strip: Strip) -> bool {
    cursor_index(t, strip) matches Some(idx) && 0 <= idx < pixel_count(strip)
}

/// At every time the cursor is on a pixel of exactly one of the two strips.
pub proof fn lemma_cursor_on_one_strip(t: Elapsed)
    ensures
        cursor_is_on(t, Strip::NorthWest) != cursor_is_on(t, Strip::SouthEast),
        cursor_is_on(t, Strip::NorthWest) <==> cursor_position(t) < pixel_count(Strip::NorthWest),
{
}

/// Every pixel of either strip has its turn: the cursor is on it at some
/// position of the perimeter.
pub proof fn lemma_cursor_reaches_every_pixel(strip: Strip, idx: int)
    requires
        0 <= idx < pixel_count(strip),
    ensures
        exists|millis: u32| #[trigger]
            cursor_index(Elapsed { micros: (millis * 1000) as u64 }, strip) == Some(idx),
{
    let pos: int = match strip {
        Strip::NorthWest => idx,
        Strip::SouthEast => if idx == 0 {
            84
        } else {
            TOTAL_LEDS - idx
        },
    };
    let millis: u32 = (pos * 500) as u32;
    let t = Elapsed { micros: (millis * 1000) as u64 };
    assert(t.millis() == pos * 500);
    assert(CURSOR_PERIOD_MS == 500 && TOTAL_LEDS == 173);
    assert(t.millis() / 500 == pos);
    assert(cursor_position(t) == pos);
    assert(cursor_index(t, strip) == Some(idx));
}

/// `colors` with the pixel under the cursor, if there is one, in `cursor_color`.
pub open spec fn with_cursor(
    t: Elapsed,
    strip: Strip,
    cursor_color: [u8; 3],
    colors: Seq<[u8; 3]>,
) -> Seq<[u8; 3]> {
    Seq::new(
        colors.len(),
        |pos: int|
            if cursor_index(t, strip) == Some(pos) {
                cursor_color
            } else {
                colors[pos]
            },
    )
}

/// On two inputs of the strips' own lengths the cursor puts its colour on one
/// pixel, of one strip, and leaves every other pixel of both strips as it was.
pub proof fn lemma_cursor_marks_one_pixel(
    t: Elapsed,
    cursor_color: [u8; 3],
    northwest: Seq<[u8; 3]>,
    southeast: Seq<[u8; 3]>,
)
    requires
        northwest.len() == pixel_count(Strip::NorthWest),
        southeast.len() == pixel_count(Strip::SouthEast),
    ensures
        cursor_is_on(t, Strip::NorthWest) ==> {
            &&& with_cursor(t, Strip::NorthWest, cursor_color, northwest) == northwest.update(
                cursor_index(t, Strip::NorthWest)->0,
                cursor_color,
            )
            &&& with_cursor(t, Strip::SouthEast, cursor_color, southeast) == southeast
        },
        cursor_is_on(t, Strip::SouthEast) ==> {
            &&& with_cursor(t, Strip::SouthEast, cursor_color, southeast) == southeast.update(
                cursor_index(t, Strip::SouthEast)->0,
                cursor_color,
            )
            &&& with_cursor(t, Strip::NorthWest, cursor_color, northwest) == northwest
        },
{
    lemma_cursor_on_one_strip(t);
    let nw = with_cursor(t, Strip::NorthWest, cursor_color, northwest);
    let se = with_cursor(t, Strip::SouthEast, cursor_color, southeast);
    if cursor_is_on(t, Strip::NorthWest) {
        assert(nw =~= northwest.update(cursor_index(t, Strip::NorthWest)->0, cursor_color));
        assert(se =~= southeast);
    } else {
        assert(se =~= southeast.update(cursor_index(t, Strip::SouthEast)->0, cursor_color));
        assert(nw =~= northwest);
    }
}

fn cursor_add(
    cursor_pos: usize,
    cursor_color: [u8; 3],
    colors: &[[u8; 3]],
    Ghost(t): Ghost<Elapsed>,
    Ghost(strip): Ghost<Strip>,
) -> (out: Vec<[u8; 3]>)
    requires
        match cursor_index(t, strip) {
            Some(idx) => cursor_pos == idx,
            None => cursor_pos >= colors@.len(),
        },
    ensures
        out@ == with_cursor(t, strip, cursor_color, colors@),
{
    let mut out: Vec<[u8; 3]> = Vec::new();
    let mut pos: usize = 0;
    while pos < colors.len()
        invariant
            pos <= colors@.len(),
            match cursor_index(t, strip) {
                Some(idx) => cursor_pos == idx,
                None => cursor_pos >= colors@.len(),
            },
            out@.len() == pos,
            forall|i: int|
                0 <= i < pos ==> out@[i] == with_cursor(t, strip, cursor_color, colors@)[i],
        decreases colors@.len() - pos,
    {
        if pos == cursor_pos {
            out.push(cursor_color);
        } else {
            out.push(colors[pos]);
        }
        pos += 1;
    }
    assert(out@ =~= with_cursor(t, strip, cursor_color, colors@));
    out
}

fn cursor_position_of(clock_value: Elapsed) -> (pos: u16)
    ensures
        pos == cursor_position(clock_value),
        pos < TOTAL_LEDS,
{
    let steps: u32 = ((clock_value.as_millis() / CURSOR_PERIOD_MS) % 0x1_0000_0000) as u32;
    (steps % (WEST_LEDS + NORTH_LEDS + EAST_LEDS + SOUTH_LEDS) as u32) as u16
}

/// Marks the pixel of the north-west strip that the cursor is on.
pub fn cursor_add_nw(clock_value: Elapsed, cursor_color: [u8; 3], colors: &[[u8; 3]]) -> (out: Vec<
    [u8; 3],
>)
    ensures
        out@ == with_cursor(clock_value, Strip::NorthWest, cursor_color, colors@),
{
    let cursor_pos: u16 = cursor_position_of(clock_value);
    cursor_add(
        cursor_pos as usize,
        cursor_color,
        colors,
        Ghost(clock_value),
        Ghost(Strip::NorthWest),
    )
}

/// Marks the pixel of the south-east strip that the cursor is on.
pub fn cursor_add_se(clock_value: Elapsed, cursor_color: [u8; 3], colors: &[[u8; 3]]) -> (out: Vec<
    [u8; 3],
>)
    ensures
        out@ == with_cursor(clock_value, Strip::SouthEast, cursor_color, colors@),
{
    let cursor_pos: u16 = cursor_position_of(clock_value);
    let first_beyond: u16 = (WEST_LEDS + NORTH_LEDS) as u16;
    let cursor_pos_adj: usize = if cursor_pos > first_beyond {
        ((SOUTH_LEDS + EAST_LEDS) as u16 - (cursor_pos - first_beyond)) as usize
    } else if cursor_pos == first_beyond {
        0
    } else {
        colors.len()
    };
    cursor_add(cursor_pos_adj, cursor_color, colors, Ghost(clock_value), Ghost(Strip::SouthEast))
}

/// Whether the strip is lit at time `t`: three seconds on, three seconds off.
pub open spec fn is_on(t: Elapsed) -> bool {
    t.secs() % 6 < 3
}

/// Switches the whole strip off for three seconds out of every six.
pub fn onoff_periodic(clock_value: Elapsed, colors: &[[u8; 3]]) -> (out: Vec<[u8; 3]>)
    ensures
        out@.len() == colors@.len(),
        forall|i: int|
            0 <= i < colors@.len() ==> out@[i] == if is_on(clock_value) {
                colors@[i]
            } else {
                [0u8, 0u8, 0u8]
            },
{
    let lit: bool = (clock_value.as_secs() % 6) < 3;
    let mut out: Vec<[u8; 3]> = Vec::new();
    let mut idx: usize = 0;
    while idx < colors.len()
        invariant
            idx <= colors@.len(),
            lit == is_on(clock_value),
            out@.len() == idx,
            forall|i: int|
                0 <= i < idx ==> out@[i] == if is_on(clock_value) {
                    colors@[i]
                } else {
                    [0u8, 0u8, 0u8]
                },
        decreases colors@.len() - idx,
    {
        if lit {
            out.push(colors[idx]);
        } else {
            out.push([0, 0, 0]);
        }
        idx += 1;
    }
    out
}

} // verus!
