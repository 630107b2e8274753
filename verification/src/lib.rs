//! Colour generation and wire framing for two runs of addressable LED pixels that
//! light the perimeter of a room.
//!
//! Everything here is a pure function of plain values: the elapsed time, the
//! selected mode, the strip. Reading the timer and the push button, toggling the
//! data pins and waiting between frames are left to the program that links this
//! library.

pub mod clock;
pub mod color;
pub mod tables;
pub mod wire;
pub mod effects;
pub mod frame;
pub mod leds;
