//! The strips, the modes, and the colours that each mode shows on each strip at a
//! given time.

use vstd::prelude::*;
use crate::clock::Elapsed;
use crate::color::{lemma_mixed_ends, mix, mixed, repeat, solid};
use crate::effects::{
    flicker_intensity, flicker_intensity_at, led_position, seemingly_random_vibration,
};
use crate::tables::{one_minus_exp, one_minus_exp_minus_x};

verus! {

pub const WEST_LEDS: usize = 22;

pub const NORTH_LEDS: usize = 62;

/// The corner cuts the last pixel of this side in half.
pub const SOUTH_LEDS: usize = 64;

pub const EAST_LEDS: usize = 25;

pub const TOTAL_LEDS: usize = WEST_LEDS + NORTH_LEDS + SOUTH_LEDS + EAST_LEDS;

#[derive(Debug, Copy, Clone, PartialEq, Eq, Structural)]
pub enum Mode {
    Off,
    Neutral,
    Fireplace,
    SegmentLights,
    WholeStripAlternatingColor,
    /// Shows `WholeStripAlternatingColor` and `SegmentLights` in turn.
    PartyCycle,
}

/// One run of pixels on one data pin. Each covers two sides of the room; both
/// start in the south-west corner and they meet again in the north-east corner.
#[derive(Debug, Copy, Clone, PartialEq, Eq, Structural)]
pub enum Strip {
    /// The west side, then the north side.
    NorthWest,
    /// The south side, then the east side.
    SouthEast,
}

/// Number of pixels on `strip`.
pub open spec fn pixel_count(strip: Strip) -> nat {
    match strip {
        Strip::NorthWest => (NORTH_LEDS + WEST_LEDS) as nat,
        Strip::SouthEast => (SOUTH_LEDS + EAST_LEDS) as nat,
    }
}

impl Strip {
    /// Number of pixels on this strip.
    pub fn pixel_count(self) -> (n: usize)
        ensures
            n == pixel_count(self),
    {
        match self {
            Strip::NorthWest => NORTH_LEDS + WEST_LEDS,
            Strip::SouthEast => SOUTH_LEDS + EAST_LEDS,
        }
    }
}

/// The warm white of the neutral mode.
pub open spec fn neutral_color() -> [u8; 3] {
    [140u8, 50u8, 20u8]
}

/// The mode whose pixels are shown for `mode` at time `t`: `PartyCycle` stands for
/// one of two other modes, which take turns every 4.78 seconds of a 16-bit
/// millisecond counter; every other mode stands for itself.
pub open spec fn resolved_mode(mode: Mode, t: Elapsed) -> Mode {
    if mode == Mode::PartyCycle {
        if ((t.millis() % 0x1_0000) / 4780) % 2 == 0 {
            Mode::WholeStripAlternatingColor
        } else {
            Mode::SegmentLights
        }
    } else {
        mode
    }
}

/// The six colours that the whole strip goes through.
pub open spec fn strip_palette(v: int) -> [u8; 3] {
    let k = v % 6;
    if k == 0 {
        [128u8, 0u8, 0u8]
    } else if k == 1 {
        [80u8, 0u8, 32u8]
    } else if k == 2 {
        [0u8, 0u8, 128u8]
    } else if k == 3 {
        [20u8, 128u8, 50u8]
    } else if k == 4 {
        [0u8, 128u8, 0u8]
    } else {
        [64u8, 64u8, 0u8]
    }
}

/// Index into the palette of the colour that the strip is leaving at time `t`: it
/// moves on every two seconds of an 8-bit seconds counter.
pub open spec fn strip_palette_step(t: Elapsed) -> int {
    (t.secs() % 256) / 2
}

/// How far the strip has moved from one palette colour to the next at time `t`:
/// 0 at the start of each period of two seconds, 255 just before its end.
pub open spec fn strip_fade_weight(t: Elapsed) -> u8 {
    (((t.millis32() * 256) / 2000) % 256) as u8
}

/// The one colour that the whole strip shows at time `t`.
pub open spec fn alternating_color(t: Elapsed) -> [u8; 3] {
    mixed(
        strip_palette(strip_palette_step(t)),
        strip_palette(strip_palette_step(t) + 1),
        strip_fade_weight(t),
    )
}

/// The seven colours of the bands.
pub open spec fn segment_palette(v: int) -> [u8; 3] {
    let k = v % 7;
    if k == 0 {
        [128u8, 0u8, 0u8]
    } else if k == 1 {
        [100u8, 50u8, 50u8]
    } else if k == 2 {
        [0u8, 64u8, 64u8]
    } else if k == 3 {
        [64u8, 64u8, 0u8]
    } else if k == 4 {
        [0u8, 0u8, 128u8]
    } else if k == 5 {
        [0u8, 128u8, 0u8]
    } else {
        [64u8, 0u8, 64u8]
    }
}

/// Width of one band, in pixels.
pub const SEGMENT_WIDTH: u32 = 6;

/// How far the bands are shifted at time `t`: the shift climbs from 0 to 128 and
/// comes back down, one step every 35 milliseconds, so the bands swing to and fro.
pub open spec fn segment_offset(t: Elapsed) -> int {
    let base = (t.millis32() / 35) % 256;
    if base > 128 {
        256 - base
    } else {
        base
    }
}

/// The colour of the band that covers pixel `idx` of `strip` at time `t`.
pub open spec fn segment_color(t: Elapsed, strip: Strip, idx: int) -> [u8; 3] {
    segment_palette((led_position(strip, idx) + segment_offset(t)) / (SEGMENT_WIDTH as int))
}

/// How much of the bright ember colour shows at a flicker of `intensity`: the
/// falloff curve turns an even flicker into short flares over a dim glow.
pub open spec fn ember_weight(intensity: u8) -> u8 {
    (255 - one_minus_exp(255 - intensity)) as u8
}

/// The colour of an ember that flickers at `intensity`.
pub open spec fn ember(intensity: u8) -> [u8; 3] {
    mixed([9u8, 3u8, 0u8], [40u8, 5u8, 0u8], ember_weight(intensity))
}

/// The colour of pixel `idx` of `strip` in `mode` at time `t`.
pub open spec fn pixel(mode: Mode, t: Elapsed, strip: Strip, idx: int) -> [u8; 3] {
    match resolved_mode(mode, t) {
        Mode::Off => [0u8, 0u8, 0u8],
        Mode::Neutral => neutral_color(),
        Mode::Fireplace => ember(flicker_intensity(t, strip, idx, 0, 255)),
        Mode::SegmentLights => segment_color(t, strip, idx),
        Mode::WholeStripAlternatingColor | Mode::PartyCycle => alternating_color(t),
    }
}

/// The colours of all pixels of `strip` in `mode` at time `t`, in the order in
/// which they are wired.
pub open spec fn colors(mode: Mode, t: Elapsed, strip: Strip) -> Seq<[u8; 3]> {
    Seq::new(pixel_count(strip), |idx: int| pixel(mode, t, strip, idx))
}

/// Share of the new mode in the picture, `since_mode_change` after the change:
/// it climbs linearly and reaches 255, all of it, after one second.
pub open spec fn crossfade_weight(since_mode_change: Elapsed) -> u8 {
    if since_mode_change.millis() * 255 / (LERP_DURATION_MS as int) >= 255 {
        255u8
    } else {
        (since_mode_change.millis() * 255 / (LERP_DURATION_MS as int)) as u8
    }
}

/// Time that the fade from one mode to the next takes.
pub const LERP_DURATION_MS: u32 = 1000;

/// Two pictures of the same strip laid over each other, the second with the
/// given weight out of 255.
pub open spec fn crossfaded(colors1: Seq<[u8; 3]>, colors2: Seq<[u8; 3]>, weight: u8) -> Seq<
    [u8; 3],
> {
    Seq::new(colors1.len(), |idx: int| mixed(colors1[idx], colors2[idx], weight))
}

/// The colours of `strip` at time `t` while `mode1` fades into `mode2`.
pub open spec fn blended(
    mode1: Mode,
    mode2: Mode,
    since_mode_change: Elapsed,
    t: Elapsed,
    strip: Strip,
) -> Seq<[u8; 3]> {
    crossfaded(
        colors(mode1, t, strip),
        colors(mode2, t, strip),
        crossfade_weight(since_mode_change),
    )
}

/// With no weight on the second picture the first one shows, with all the weight
/// on it the second one, and a picture laid over itself shows unchanged.
pub proof fn lemma_crossfaded_ends(colors1: Seq<[u8; 3]>, colors2: Seq<[u8; 3]>, weight: u8)
    requires
        colors1.len() == colors2.len(),
    ensures
        crossfaded(colors1, colors2, 0) == colors1,
        crossfaded(colors1, colors2, 255) == colors2,
        crossfaded(colors1, colors1, weight) == colors1,
{
    assert forall|idx: int| 0 <= idx < colors1.len() implies mixed(
        colors1[idx],
        colors2[idx],
        0,
    ) == colors1[idx] && mixed(colors1[idx], colors2[idx], 255) == colors2[idx] && mixed(
        colors1[idx],
        colors1[idx],
        weight,
    ) == colors1[idx] by {
        lemma_mixed_ends(colors1[idx], colors2[idx], weight);
        lemma_mixed_ends(colors1[idx], colors1[idx], weight);
    }
    assert(crossfaded(colors1, colors2, 0) =~= colors1);
    assert(crossfaded(colors1, colors2, 255) =~= colors2);
    assert(crossfaded(colors1, colors1, weight) =~= colors1);
}

/// Every mode lights every pixel of the strip, no more and no fewer, at all
/// times.
pub proof fn lemma_colors_len(mode: Mode, t: Elapsed, strip: Strip)
    ensures
        colors(mode, t, strip).len() == pixel_count(strip),
        colors(mode, t, strip).len() == match strip {
            Strip::NorthWest => 84nat,
            Strip::SouthEast => 89nat,
        },
{
}

/// While the mode is `Off` every pixel of either strip is black, at all times.
pub proof fn lemma_off_is_black(t: Elapsed, strip: Strip)
    ensures
        colors(Mode::Off, t, strip) == solid(pixel_count(strip), [0u8, 0u8, 0u8]),
        forall|idx: int|
            0 <= idx < pixel_count(strip) ==> #[trigger] colors(Mode::Off, t, strip)[idx] == [
                0u8,
                0u8,
                0u8,
            ],
{
    assert(colors(Mode::Off, t, strip) =~= solid(pixel_count(strip), [0u8, 0u8, 0u8]));
}

/// While the mode is `Neutral` every pixel shows the same warm white, and the
/// time makes no difference.
pub proof fn lemma_neutral_is_constant(t1: Elapsed, t2: Elapsed, strip: Strip)
    ensures
        colors(Mode::Neutral, t1, strip) == solid(pixel_count(strip), neutral_color()),
        colors(Mode::Neutral, t1, strip) == colors(Mode::Neutral, t2, strip),
{
    assert(colors(Mode::Neutral, t1, strip) =~= solid(pixel_count(strip), neutral_color()));
    assert(colors(Mode::Neutral, t2, strip) =~= solid(pixel_count(strip), neutral_color()));
}

/// A fade starts at what the first mode shows and has arrived, after a second,
/// at what the second mode shows: exactly, channel for channel.
pub proof fn lemma_crossfade_ends(
    mode1: Mode,
    mode2: Mode,
    since_mode_change: Elapsed,
    t: Elapsed,
    strip: Strip,
)
    ensures
        since_mode_change.micros == 0 ==> blended(mode1, mode2, since_mode_change, t, strip)
            == colors(mode1, t, strip),
        since_mode_change.millis() >= LERP_DURATION_MS ==> blended(
            mode1,
            mode2,
            since_mode_change,
            t,
            strip,
        ) == colors(mode2, t, strip),
{
    lemma_crossfaded_ends(colors(mode1, t, strip), colors(mode2, t, strip), 0);
    if since_mode_change.millis() >= LERP_DURATION_MS {
        assert(since_mode_change.millis() * 255 / (LERP_DURATION_MS as int) >= 255);
    }
}

/// A fade from a mode to itself shows that mode throughout.
pub proof fn lemma_crossfade_same_mode(
    mode: Mode,
    since_mode_change: Elapsed,
    t: Elapsed,
    strip: Strip,
)
    ensures
        blended(mode, mode, since_mode_change, t, strip) == colors(mode, t, strip),
{
    lemma_crossfaded_ends(
        colors(mode, t, strip),
        colors(mode, t, strip),
        crossfade_weight(since_mode_change),
    );
}

/// The mode whose pixels are shown for `mode` at this time.
pub fn resolve_mode(mode: Mode, clock_value: Elapsed) -> (resolved: Mode)
    ensures
        resolved == resolved_mode(mode, clock_value),
        resolved != Mode::PartyCycle,
{
    match mode {
        Mode::PartyCycle => {
            let millis: u16 = ((clock_value.micros / 1000) % 0x1_0000) as u16;
            if (millis / 4780) % 2 == 0 {
                Mode::WholeStripAlternatingColor
            } else {
                Mode::SegmentLights
            }
        },
        _ => mode,
    }
}

fn strip_palette_color(v: u8) -> (c: [u8; 3])
    ensures
        c == strip_palette(v as int),
{
    let k: u8 = v % 6;
    if k == 0 {
        [128, 0, 0]
    } else if k == 1 {
        [80, 0, 32]
    } else if k == 2 {
        [0, 0, 128]
    } else if k == 3 {
        [20, 128, 50]
    } else if k == 4 {
        [0, 128, 0]
    } else {
        [64, 64, 0]
    }
}

fn segment_palette_color(v: u32) -> (c: [u8; 3])
    ensures
        c == segment_palette(v as int),
{
    let k: u32 = v % 7;
    if k == 0 {
        [128, 0, 0]
    } else if k == 1 {
        [100, 50, 50]
    } else if k == 2 {
        [0, 64, 64]
    } else if k == 3 {
        [64, 64, 0]
    } else if k == 4 {
        [0, 0, 128]
    } else if k == 5 {
        [0, 128, 0]
    } else {
        [64, 0, 64]
    }
}

fn whole_strip_color(clock_value: Elapsed) -> (c: [u8; 3])
    ensures
        c == alternating_color(clock_value),
{
    let step: u8 = ((clock_value.as_secs() % 256) as u8) / 2;
    let color1 = strip_palette_color(step);
    let color2 = strip_palette_color(step + 1);
    let lerp: u8 = (((clock_value.as_millis32() as u64 * 256) / 2000) % 256) as u8;
    mix(color1, color2, lerp)
}

fn ember_color(_color: [u8; 3], intensity: u8) -> (c: [u8; 3])
    ensures
        c == ember(intensity),
{
    let intensity: u8 = 255 - one_minus_exp_minus_x(255 - intensity);
    mix([9, 3, 0], [40, 5, 0], intensity)
}

fn segment_light(clock_value: Elapsed, strip: Strip, idx: usize) -> (c: [u8; 3])
    requires
        idx < pixel_count(strip),
    ensures
        c == segment_color(clock_value, strip, idx as int),
{
    let base: u32 = (clock_value.as_millis32() / 35) % 256;
    let offset: u32 = if base > 128 { 256 - base } else { base };
    let led_pos: u32 = match strip {
        Strip::NorthWest => idx as u32,
        Strip::SouthEast => ((SOUTH_LEDS + EAST_LEDS) as u32 - idx as u32) + (NORTH_LEDS
            + WEST_LEDS) as u32,
    };
    let segment_num: u32 = (led_pos + offset) / SEGMENT_WIDTH;
    segment_palette_color(segment_num)
}

fn segment_lights(clock_value: Elapsed, strip: Strip) -> (out: Vec<[u8; 3]>)
    ensures
        out@.len() == pixel_count(strip),
        forall|idx: int|
            0 <= idx < out@.len() ==> out@[idx] == segment_color(clock_value, strip, idx),
{
    let count: usize = strip.pixel_count();
    let mut out: Vec<[u8; 3]> = Vec::new();
    let mut idx: usize = 0;
    while idx < count
        invariant
            idx <= count,
            count == pixel_count(strip),
            out@.len() == idx,
            forall|i: int| 0 <= i < idx ==> out@[i] == segment_color(clock_value, strip, i),
        decreases count - idx,
    {
        out.push(segment_light(clock_value, strip, idx));
        idx += 1;
    }
    out
}

/// The colour of pixel `idx` of `strip` in `mode` at the time `clock_value`. It
/// is the entry at `idx` of what `led_colors` returns, computed by itself and
/// without any memory of its own.
pub fn led_color(mode: Mode, clock_value: Elapsed, strip: Strip, idx: usize) -> (c: [u8; 3])
    requires
        idx < pixel_count(strip),
    ensures
        c == pixel(mode, clock_value, strip, idx as int),
        c == colors(mode, clock_value, strip)[idx as int],
{
    match resolve_mode(mode, clock_value) {
        Mode::Off => [0, 0, 0],
        Mode::Neutral => [140, 50, 20],
        Mode::Fireplace => ember_color(
            [0, 0, 0],
            flicker_intensity_at(clock_value, strip, idx, 0, 255),
        ),
        Mode::WholeStripAlternatingColor => whole_strip_color(clock_value),
        Mode::SegmentLights => segment_light(clock_value, strip, idx),
        Mode::PartyCycle => unreached(),
    }
}

/// The colours of all pixels of `strip` in `mode` at the time `clock_value`, in
/// the order in which they are wired. `updates_wrapping_counter` counts the
/// frames; no mode reads it.
pub fn led_colors(
    mode: Mode,
    clock_value: Elapsed,
    updates_wrapping_counter: u8,
    strip: Strip,
) -> (out: Vec<[u8; 3]>)
    ensures
        out@ == colors(mode, clock_value, strip),
        out@.len() == pixel_count(strip),
        mode == Mode::Off ==> out@ == solid(pixel_count(strip), [0u8, 0u8, 0u8]),
        mode == Mode::Neutral ==> out@ == solid(pixel_count(strip), neutral_color()),
{
    let count: usize = strip.pixel_count();
    let out = match resolve_mode(mode, clock_value) {
        Mode::Off => repeat([0, 0, 0], count),
        Mode::Neutral => repeat([140, 50, 20], count),
        Mode::Fireplace => {
            let dark = repeat([0, 0, 0], count);
            seemingly_random_vibration(
                clock_value,
                strip,
                0,
                255,
                dark.as_slice(),
                ember_color,
            )
        },
        Mode::WholeStripAlternatingColor => repeat(whole_strip_color(clock_value), count),
        Mode::SegmentLights => segment_lights(clock_value, strip),
        Mode::PartyCycle => unreached(),
    };
    assert(out@ =~= colors(mode, clock_value, strip));
    proof {
        lemma_off_is_black(clock_value, strip);
        lemma_neutral_is_constant(clock_value, clock_value, strip);
    }
    out
}

/// Weight of the new mode, `since_mode_change` after the change.
pub fn mode2_weight(since_mode_change: Elapsed) -> (w: u8)
    ensures
        w == crossfade_weight(since_mode_change),
{
    let millis: u64 = since_mode_change.as_millis();
    if millis >= LERP_DURATION_MS as u64 {
        255
    } else {
        (millis * 255 / LERP_DURATION_MS as u64) as u8
    }
}

/// The colours of `strip` while `mode1` fades into `mode2`: each channel is the
/// average of what the two modes show, weighted by the time since the change.
pub fn led_colors_lerp(
    mode1: Mode,
    mode2: Mode,
    since_mode_change: Elapsed,
    clock_value: Elapsed,
    updates_wrapping_counter: u8,
    strip: Strip,
) -> (out: Vec<[u8; 3]>)
    ensures
        out@ == blended(mode1, mode2, since_mode_change, clock_value, strip),
        out@.len() == pixel_count(strip),
{
    let weight: u8 = mode2_weight(since_mode_change);
    let colors1 = led_colors(mode1, clock_value, updates_wrapping_counter, strip);
    let colors2 = led_colors(mode2, clock_value, updates_wrapping_counter, strip);
    let mut out: Vec<[u8; 3]> = Vec::new();
    let mut idx: usize = 0;
    while idx < colors1.len()
        invariant
            idx <= colors1@.len(),
            colors1@ == colors(mode1, clock_value, strip),
            colors2@ == colors(mode2, clock_value, strip),
            weight == crossfade_weight(since_mode_change),
            out@.len() == idx,
            forall|i: int| 0 <= i < idx ==> out@[i] == mixed(colors1@[i], colors2@[i], weight),
        decreases colors1@.len() - idx,
    {
        out.push(mix(colors1[idx], colors2[idx], weight));
        idx += 1;
    }
    assert(out@ =~= blended(mode1, mode2, since_mode_change, clock_value, strip));
    out
}

} // verus!
