//! Elapsed time since power-up, as counted by an 8-bit hardware timer.

use vstd::prelude::*;

verus! {

/// Microseconds between two overflows of the timer.
pub const TICK_MICROS: u64 = 1024;

/// Microseconds that one step of the timer's own register stands for.
pub const SUBTICK_MICROS: u64 = TICK_MICROS / 256;

/// Time since power-up, in whole microseconds.
#[derive(Clone, Copy, Debug, PartialEq, Eq, Structural)]
pub struct Elapsed {
    pub micros: u64,
}

impl Elapsed {
    /// Whole milliseconds.
    pub open spec fn millis(self) -> int {
        self.micros as int / 1000
    }

    /// Whole seconds.
    pub open spec fn secs(self) -> int {
        self.micros as int / 1_000_000
    }

    /// The milliseconds as a 32-bit counter sees them: the animations run on this
    /// counter, which starts over after about 49 days.
    pub open spec fn millis32(self) -> int {
        self.millis() % 0x1_0000_0000
    }

    /// Time that went by since `earlier`; zero if `earlier` is not in the past.
    pub open spec fn since(self, earlier: Elapsed) -> Elapsed {
        if earlier.micros <= self.micros {
            Elapsed { micros: (self.micros - earlier.micros) as u64 }
        } else {
            Elapsed { micros: 0 }
        }
    }

    pub fn from_micros(micros: u64) -> (t: Elapsed)
        ensures
            t.micros == micros,
    {
        Elapsed { micros }
    }

    /// Saturates at the largest time that can be held.
    pub fn from_millis(millis: u64) -> (t: Elapsed)
        ensures
            t.micros == if millis * 1000 <= u64::MAX { millis * 1000 } else { u64::MAX as int },
    {
        if millis <= u64::MAX / 1000 {
            Elapsed { micros: millis * 1000 }
        } else {
            Elapsed { micros: u64::MAX }
        }
    }

    /// Saturates at the largest time that can be held.
    pub fn from_secs(secs: u64) -> (t: Elapsed)
        ensures
            t.micros == if secs * 1_000_000 <= u64::MAX {
                secs * 1_000_000
            } else {
                u64::MAX as int
            },
    {
        if secs <= u64::MAX / 1_000_000 {
            Elapsed { micros: secs * 1_000_000 }
        } else {
            Elapsed { micros: u64::MAX }
        }
    }

    pub fn as_micros(self) -> (n: u64)
        ensures
            n == self.micros,
    {
        self.micros
    }

    pub fn as_millis(self) -> (n: u64)
        ensures
            n == self.millis(),
    {
        self.micros / 1000
    }

    pub fn as_secs(self) -> (n: u64)
        ensures
            n == self.secs(),
    {
        self.micros / 1_000_000
    }

    /// The 32-bit millisecond counter.
    pub fn as_millis32(self) -> (n: u32)
        ensures
            n == self.millis32(),
    {
        ((self.micros / 1000) % 0x1_0000_0000) as u32
    }

    /// Time that went by since `earlier`; zero if `earlier` is not in the past.
    pub fn saturating_sub(self, earlier: Elapsed) -> (d: Elapsed)
        ensures
            d == self.since(earlier),
    {
        if earlier.micros <= self.micros {
            Elapsed { micros: self.micros - earlier.micros }
        } else {
            Elapsed { micros: 0 }
        }
    }
}

/// The clock's value, put together from the number of timer overflows counted so
/// far and the timer register read in the same instant.
pub fn clock_value(overflows: u32, subtimer: u8) -> (t: Elapsed)
    ensures
        t.micros == overflows * TICK_MICROS + subtimer * SUBTICK_MICROS,
{
    Elapsed { micros: overflows as u64 * TICK_MICROS + subtimer as u64 * SUBTICK_MICROS }
}

/// The clock never runs backwards between two readings, as long as each reading
/// takes the overflow count and the register together.
pub proof fn lemma_clock_monotonic(o1: u32, s1: u8, o2: u32, s2: u8)
    requires
        o1 < o2 || (o1 == o2 && s1 <= s2),
    ensures
        o1 * TICK_MICROS + s1 * SUBTICK_MICROS <= o2 * TICK_MICROS + s2 * SUBTICK_MICROS,
{
    assert(TICK_MICROS == 1024 && SUBTICK_MICROS == 4);
}

} // verus!
