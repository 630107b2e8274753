//! One frame: the bytes that go out to both strips, and the state that decides
//! which mode they show.

use vstd::prelude::*;
use crate::clock::Elapsed;
use crate::color::mix;
use crate::leds::{
    blended, colors, crossfade_weight, led_color, lemma_crossfade_ends,
    lemma_crossfade_same_mode, mode2_weight, pixel_count, Mode, Strip, TOTAL_LEDS,
};

verus! {

/// Size of the buffer that holds one frame: three bytes for each pixel of both
/// strips.
pub const FRAME_BYTES: usize = TOTAL_LEDS * 3;

/// Channel `k` of `color` in the order in which the strips take them: the strips
/// show green for blue and blue for green, so the two change places.
pub open spec fn wire_channel(color: [u8; 3], k: int) -> u8 {
    if k == 0 {
        color[0]
    } else if k == 1 {
        color[2]
    } else {
        color[1]
    }
}

/// The bytes that carry `colors` to a strip: three for each pixel, in the order of
/// the pixels.
pub open spec fn packed(colors: Seq<[u8; 3]>) -> Seq<u8> {
    Seq::new(3 * colors.len(), |i: int| wire_channel(colors[i / 3], i % 3))
}

/// Writes the bytes for `colors` into `buffer` from `offset` on and returns where
/// they end. The rest of the buffer is left as it was.
pub fn pack_colors(colors: &[[u8; 3]], buffer: &mut [u8; FRAME_BYTES], offset: usize) -> (end:
    usize)
    requires
        offset + 3 * colors@.len() <= FRAME_BYTES,
    ensures
        end == offset + 3 * colors@.len(),
        final(buffer)@.subrange(offset as int, end as int) == packed(colors@),
        forall|i: int|
            0 <= i < offset || end <= i < FRAME_BYTES ==> final(buffer)@[i] == old(buffer)@[i],
{
    let mut data_size: usize = offset;
    let mut idx: usize = 0;
    while idx < colors.len()
        invariant
            idx <= colors@.len(),
            offset + 3 * colors@.len() <= FRAME_BYTES,
            data_size == offset + 3 * idx,
            forall|i: int| 0 <= i < 3 * idx ==> buffer@[offset + i] == packed(colors@)[i],
            forall|i: int|
                0 <= i < offset || offset + 3 * colors@.len() <= i < FRAME_BYTES ==> buffer@[i]
                    == old(buffer)@[i],
        decreases colors@.len() - idx,
    {
        let c = colors[idx];
        assert((3 * idx) / 3 == idx && (3 * idx + 1) / 3 == idx && (3 * idx + 2) / 3 == idx);
        buffer[data_size] = c[0];
        buffer[data_size + 1] = c[2];
        buffer[data_size + 2] = c[1];
        data_size += 3;
        idx += 1;
    }
    assert(buffer@.subrange(offset as int, data_size as int) =~= packed(colors@));
    data_size
}

/// Time that the button has to be held down to switch the strips off, in
/// milliseconds.
pub const LONG_PRESS_MS: u64 = 2000;

/// What the render loop remembers from one frame to the next.
#[derive(Clone, Copy, Debug)]
pub struct Controller {
    /// The mode that is shown.
    pub mode: Mode,
    /// The mode that was shown before `mode`, and that still shows through for a
    /// second after the change.
    pub previous_mode: Mode,
    /// When `mode` took over.
    pub mode_changed_at: Elapsed,
    /// Since when the button has been held down, if it is down.
    pub button_pressed_since: Option<Elapsed>,
}

/// The mode that a press of the button leads to from `mode`. `SegmentLights` is
/// only ever shown as a part of `PartyCycle`; the button neither leads to it nor
/// away from it.
pub open spec fn next_mode(mode: Mode) -> Mode {
    match mode {
        Mode::Off => Mode::Neutral,
        Mode::Neutral => Mode::Fireplace,
        Mode::Fireplace => Mode::PartyCycle,
        Mode::PartyCycle => Mode::WholeStripAlternatingColor,
        Mode::WholeStripAlternatingColor => Mode::Neutral,
        Mode::SegmentLights => Mode::SegmentLights,
    }
}

impl Controller {
    /// The button cannot have selected `SegmentLights`.
    pub open spec fn well_formed(self) -> bool {
        self.mode != Mode::SegmentLights
    }

    /// This state with `mode` taking over at the time `now`, if it is not the
    /// mode shown already.
    pub open spec fn switched_to(self, mode: Mode, now: Elapsed) -> Controller {
        if mode == self.mode {
            self
        } else {
            Controller { mode, previous_mode: self.mode, mode_changed_at: now, ..self }
        }
    }

    /// The state after a frame at the time `now` in which the button was found
    /// down, or up: a press moves on to the next mode, and holding the button
    /// for two seconds switches the strips off.
    pub open spec fn stepped(self, button_down: bool, now: Elapsed) -> Controller {
        match (button_down, self.button_pressed_since) {
            (false, _) => Controller { button_pressed_since: None, ..self },
            (true, Some(since)) => if now.since(since).millis() >= LONG_PRESS_MS {
                self.switched_to(Mode::Off, now)
            } else {
                self
            },
            (true, None) => Controller { button_pressed_since: Some(now), ..self }.switched_to(
                next_mode(self.mode),
                now,
            ),
        }
    }

    /// The colours that a frame at the time `now` shows on `strip`: for a second
    /// after a change of mode the old mode fades into the new one.
    pub open spec fn shown(self, now: Elapsed, strip: Strip) -> Seq<[u8; 3]> {
        blended(
            self.previous_mode,
            self.mode,
            now.since(self.mode_changed_at),
            now,
            strip,
        )
    }

    /// The state at power-up: the neutral mode, and the button up.
    pub fn new() -> (state: Controller)
        ensures
            state.well_formed(),
            state.mode == Mode::Neutral,
            state.previous_mode == Mode::Neutral,
            state.mode_changed_at.micros == 0,
            state.button_pressed_since is None,
    {
        Controller {
            mode: Mode::Neutral,
            previous_mode: Mode::Neutral,
            mode_changed_at: Elapsed { micros: 0 },
            button_pressed_since: None,
        }
    }

    /// Whether the state is one that the button can have led to.
    pub fn is_well_formed(&self) -> (ok: bool)
        ensures
            ok == self.well_formed(),
    {
        match self.mode {
            Mode::SegmentLights => false,
            _ => true,
        }
    }

    fn switch_to(&mut self, mode: Mode, now: Elapsed)
        ensures
            *final(self) == old(self).switched_to(mode, now),
    {
        if mode != self.mode {
            self.previous_mode = self.mode;
            self.mode = mode;
            self.mode_changed_at = now;
        }
    }

    /// Takes in the state of the button in the frame at the time `now`.
    pub fn update(&mut self, button_down: bool, now: Elapsed)
        requires
            old(self).well_formed(),
        ensures
            *final(self) == old(self).stepped(button_down, now),
            final(self).well_formed(),
    {
        match (button_down, self.button_pressed_since) {
            (false, _) => {
                self.button_pressed_since = None;
            },
            (true, Some(since)) => {
                if now.saturating_sub(since).as_millis() >= LONG_PRESS_MS {
                    self.switch_to(Mode::Off, now);
                }
            },
            (true, None) => {
                self.button_pressed_since = Some(now);
                let next = match self.mode {
                    Mode::Off => Mode::Neutral,
                    Mode::Neutral => Mode::Fireplace,
                    Mode::Fireplace => Mode::PartyCycle,
                    Mode::PartyCycle => Mode::WholeStripAlternatingColor,
                    Mode::WholeStripAlternatingColor => Mode::Neutral,
                    Mode::SegmentLights => unreached(),
                };
                self.switch_to(next, now);
            },
        }
    }
}

/// Where the mode before the last change is the mode shown, as it is from
/// power-up until the button is first pressed, the frame shows that mode alone.
pub proof fn lemma_shown_before_first_change(state: Controller, now: Elapsed, strip: Strip)
    requires
        state.previous_mode == state.mode,
    ensures
        state.shown(now, strip) == colors(state.mode, now, strip),
{
    lemma_crossfade_same_mode(state.mode, now.since(state.mode_changed_at), now, strip);
}

/// A second after the last change of mode the frame shows the mode alone.
pub proof fn lemma_shown_after_fade(state: Controller, now: Elapsed, strip: Strip)
    requires
        now.since(state.mode_changed_at).millis() >= 1000,
    ensures
        state.shown(now, strip) == colors(state.mode, now, strip),
{
    lemma_crossfade_ends(
        state.previous_mode,
        state.mode,
        now.since(state.mode_changed_at),
        now,
        strip,
    );
}

/// Writes the bytes of `strip` for the frame at the time `clock_value` into
/// `buffer` from `offset` on, pixel by pixel, and returns where they end.
fn render_strip(
    state: &Controller,
    clock_value: Elapsed,
    weight: u8,
    strip: Strip,
    buffer: &mut [u8; FRAME_BYTES],
    offset: usize,
) -> (end: usize)
    requires
        offset + 3 * pixel_count(strip) <= FRAME_BYTES,
        weight == crossfade_weight(clock_value.since(state.mode_changed_at)),
    ensures
        end == offset + 3 * pixel_count(strip),
        final(buffer)@.subrange(offset as int, end as int) == packed(
            state.shown(clock_value, strip),
        ),
        forall|i: int|
            0 <= i < offset || end <= i < FRAME_BYTES ==> final(buffer)@[i] == old(buffer)@[i],
{
    let ghost shown = state.shown(clock_value, strip);
    let count: usize = strip.pixel_count();
    let mut data_size: usize = offset;
    let mut idx: usize = 0;
    while idx < count
        invariant
            idx <= count,
            count == pixel_count(strip),
            offset + 3 * count <= FRAME_BYTES,
            data_size == offset + 3 * idx,
            weight == crossfade_weight(clock_value.since(state.mode_changed_at)),
            shown == state.shown(clock_value, strip),
            forall|i: int| 0 <= i < 3 * idx ==> buffer@[offset + i] == packed(shown)[i],
            forall|i: int|
                0 <= i < offset || offset + 3 * count <= i < FRAME_BYTES ==> buffer@[i] == old(
                    buffer,
                )@[i],
        decreases count - idx,
    {
        let c = mix(
            led_color(state.previous_mode, clock_value, strip, idx),
            led_color(state.mode, clock_value, strip, idx),
            weight,
        );
        assert(c == shown[idx as int]);
        assert((3 * idx) / 3 == idx && (3 * idx + 1) / 3 == idx && (3 * idx + 2) / 3 == idx);
        buffer[data_size] = c[0];
        buffer[data_size + 1] = c[2];
        buffer[data_size + 2] = c[1];
        data_size += 3;
        idx += 1;
    }
    assert(buffer@.subrange(offset as int, data_size as int) =~= packed(shown));
    data_size
}

/// Fills `buffer` with the frame for the time `clock_value`: the bytes of the
/// north-west strip, then those of the south-east strip. Returns where the
/// first strip's bytes end and the second strip's begin.
///
/// Each pixel is computed by itself and written straight into the buffer:
/// nothing is allocated. `updates_wrapping_counter` counts the frames; no mode
/// reads it.
pub fn render_frame(
    state: &Controller,
    clock_value: Elapsed,
    updates_wrapping_counter: u8,
    buffer: &mut [u8; FRAME_BYTES],
) -> (northwest_data_end: usize)
    ensures
        northwest_data_end == 3 * pixel_count(Strip::NorthWest),
        final(buffer)@ == packed(state.shown(clock_value, Strip::NorthWest)) + packed(
            state.shown(clock_value, Strip::SouthEast),
        ),
{
    let weight: u8 = mode2_weight(clock_value.saturating_sub(state.mode_changed_at));
    let northwest_data_end: usize = render_strip(
        state,
        clock_value,
        weight,
        Strip::NorthWest,
        buffer,
        0,
    );
    let data_size: usize = render_strip(
        state,
        clock_value,
        weight,
        Strip::SouthEast,
        buffer,
        northwest_data_end,
    );
    assert(buffer@ =~= packed(state.shown(clock_value, Strip::NorthWest)) + packed(
        state.shown(clock_value, Strip::SouthEast),
    )) by {
        let nw = packed(state.shown(clock_value, Strip::NorthWest));
        let se = packed(state.shown(clock_value, Strip::SouthEast));
        assert forall|i: int| 0 <= i < FRAME_BYTES implies buffer@[i] == (nw + se)[i] by {
            if i < northwest_data_end {
                assert(buffer@[i] == buffer@.subrange(0, northwest_data_end as int)[i]);
            } else {
                assert(buffer@[i] == buffer@.subrange(
                    northwest_data_end as int,
                    data_size as int,
                )[i - northwest_data_end]);
            }
        }
    }
    northwest_data_end
}

} // verus!
