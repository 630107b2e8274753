//! The data line of a strip: one wire that carries each bit as one pulse, the
//! most significant bit of each byte first. A long pulse is a one, a short pulse
//! is a zero. The program that drives the pin has to keep these times to the
//! cycle, with interrupts off, and must leave the line low for the latch time
//! before it sends again.

use vstd::prelude::*;

verus! {

/// Clock cycles in a microsecond.
pub const CYCLES_PER_MICRO: u32 = 16;

/// Cycles that the line is high for a zero: 250 ns.
pub const ZERO_HIGH_CYCLES: u8 = 4;

/// Cycles that the line is high for a one: 625 ns.
pub const ONE_HIGH_CYCLES: u8 = 10;

/// Cycles from the start of one pulse to the start of the next.
pub const BIT_CYCLES: u8 = 14;

/// A receiver takes a pulse for a one if the line was high for at least this many
/// cycles.
pub const THRESHOLD_CYCLES: u8 = 7;

/// Time that the line has to stay low after the last byte before the pixels take
/// over what they received, in microseconds.
pub const LATCH_MICROS: u32 = 300;

/// The most bytes that one transmission can carry: what two 8-bit counters can
/// count, the high one starting at 255 at most.
pub const MAX_TRANSMIT_BYTES: usize = 256 * 255;

/// One bit on the line: high for some cycles, then low for some cycles.
#[derive(Clone, Copy, Debug, PartialEq, Eq, Structural)]
pub struct Pulse {
    pub high_cycles: u8,
    pub low_cycles: u8,
}

/// The pulse that carries `bit`.
pub open spec fn pulse_of(bit: bool) -> Pulse {
    if bit {
        Pulse { high_cycles: ONE_HIGH_CYCLES, low_cycles: (BIT_CYCLES - ONE_HIGH_CYCLES) as u8 }
    } else {
        Pulse { high_cycles: ZERO_HIGH_CYCLES, low_cycles: (BIT_CYCLES - ZERO_HIGH_CYCLES) as u8 }
    }
}

/// The bit that a receiver reads from `pulse`.
pub open spec fn bit_of(pulse: Pulse) -> bool {
    pulse.high_cycles >= THRESHOLD_CYCLES
}

/// Bit `j` of `byte`, counted from the most significant bit.
pub open spec fn bit_at(byte: u8, j: u8) -> bool {
    byte & (0x80u8 >> j) != 0
}

/// The byte whose bits are `bits`, most significant bit first.
pub open spec fn byte_of(bits: Seq<bool>) -> u8
    recommends
        bits.len() == 8,
{
    (if bits[0] { 0x80u8 } else { 0u8 }) | (if bits[1] { 0x40u8 } else { 0u8 }) | (if bits[2] {
        0x20u8
    } else {
        0u8
    }) | (if bits[3] { 0x10u8 } else { 0u8 }) | (if bits[4] { 0x08u8 } else { 0u8 }) | (if bits[5] {
        0x04u8
    } else {
        0u8
    }) | (if bits[6] { 0x02u8 } else { 0u8 }) | (if bits[7] { 0x01u8 } else { 0u8 })
}

/// The pulses that carry `bytes`: eight for each byte, in the order of the bytes.
pub open spec fn waveform(bytes: Seq<u8>) -> Seq<Pulse> {
    Seq::new(8 * bytes.len(), |i: int| pulse_of(bit_at(bytes[i / 8], (i % 8) as u8)))
}

/// The bytes that a receiver reads from `pulses`: one for every eight pulses.
/// Pulses after the last full eight are not read.
pub open spec fn received(pulses: Seq<Pulse>) -> Seq<u8> {
    Seq::new(
        (pulses.len() / 8) as nat,
        |k: int| byte_of(Seq::new(8, |j: int| bit_of(pulses[8 * k + j]))),
    )
}

/// A one is high for most of its pulse and a zero is low for most of it; both
/// take the same time; and the threshold lies between the two high times.
pub proof fn lemma_pulse_shape(bit: bool)
    ensures
        pulse_of(bit).high_cycles + pulse_of(bit).low_cycles == BIT_CYCLES,
        pulse_of(true).high_cycles == pulse_of(false).low_cycles,
        pulse_of(true).low_cycles == pulse_of(false).high_cycles,
        2 * pulse_of(true).low_cycles < pulse_of(true).high_cycles,
        pulse_of(false).high_cycles < THRESHOLD_CYCLES <= pulse_of(true).high_cycles,
        bit_of(pulse_of(bit)) == bit,
{
}

/// A byte is the sum of its eight bits.
pub proof fn lemma_byte_of_its_bits(byte: u8)
    ensures
        byte_of(Seq::new(8, |j: int| bit_at(byte, j as u8))) == byte,
{
    let bits = Seq::new(8, |j: int| bit_at(byte, j as u8));
    let b0 = bits[0];
    let b1 = bits[1];
    let b2 = bits[2];
    let b3 = bits[3];
    let b4 = bits[4];
    let b5 = bits[5];
    let b6 = bits[6];
    let b7 = bits[7];
    assert((if b0 { 0x80u8 } else { 0u8 }) | (if b1 { 0x40u8 } else { 0u8 }) | (if b2 {
        0x20u8
    } else {
        0u8
    }) | (if b3 { 0x10u8 } else { 0u8 }) | (if b4 { 0x08u8 } else { 0u8 }) | (if b5 {
        0x04u8
    } else {
        0u8
    }) | (if b6 { 0x02u8 } else { 0u8 }) | (if b7 { 0x01u8 } else { 0u8 }) == byte)
        by (bit_vector)
        requires
            b0 == (byte & (0x80u8 >> 0u8) != 0),
            b1 == (byte & (0x80u8 >> 1u8) != 0),
            b2 == (byte & (0x80u8 >> 2u8) != 0),
            b3 == (byte & (0x80u8 >> 3u8) != 0),
            b4 == (byte & (0x80u8 >> 4u8) != 0),
            b5 == (byte & (0x80u8 >> 5u8) != 0),
            b6 == (byte & (0x80u8 >> 6u8) != 0),
            b7 == (byte & (0x80u8 >> 7u8) != 0),
    ;
}

/// What goes over the line comes out at the other end: a receiver that tells
/// ones from zeros by the threshold reads exactly the bytes that were sent,
/// however many there are.
pub proof fn lemma_received_what_was_sent(bytes: Seq<u8>)
    ensures
        waveform(bytes).len() == 8 * bytes.len(),
        received(waveform(bytes)) == bytes,
{
    let pulses = waveform(bytes);
    assert forall|k: int| 0 <= k < bytes.len() implies received(pulses)[k] == bytes[k] by {
        let read = Seq::new(8, |j: int| bit_of(pulses[8 * k + j]));
        let sent = Seq::new(8, |j: int| bit_at(bytes[k], j as u8));
        assert forall|j: int| 0 <= j < 8 implies read[j] == sent[j] by {
            assert((8 * k + j) / 8 == k);
            assert((8 * k + j) % 8 == j);
            lemma_pulse_shape(bit_at(bytes[k], j as u8));
        }
        assert(read =~= sent);
        lemma_byte_of_its_bits(bytes[k]);
    }
    assert(received(pulses) =~= bytes);
}

/// The pulse that carries `bit`.
pub fn pulse_for(bit: bool) -> (pulse: Pulse)
    ensures
        pulse == pulse_of(bit),
{
    if bit {
        Pulse { high_cycles: ONE_HIGH_CYCLES, low_cycles: BIT_CYCLES - ONE_HIGH_CYCLES }
    } else {
        Pulse { high_cycles: ZERO_HIGH_CYCLES, low_cycles: BIT_CYCLES - ZERO_HIGH_CYCLES }
    }
}

/// The pulses that carry `bytes`, in the order in which they go over the line.
/// Nothing goes over the line for no bytes.
pub fn encode(bytes: &[u8]) -> (pulses: Vec<Pulse>)
    requires
        bytes@.len() <= MAX_TRANSMIT_BYTES,
    ensures
        pulses@ == waveform(bytes@),
        pulses@.len() == 8 * bytes@.len(),
{
    let mut pulses: Vec<Pulse> = Vec::new();
    let mut k: usize = 0;
    while k < bytes.len()
        invariant
            k <= bytes@.len() <= MAX_TRANSMIT_BYTES,
            pulses@.len() == 8 * k,
            forall|i: int| 0 <= i < 8 * k ==> pulses@[i] == waveform(bytes@)[i],
        decreases bytes@.len() - k,
    {
        let val: u8 = bytes[k];
        let mut nbits: u8 = 0;
        while nbits < 8
            invariant
                k < bytes@.len() <= MAX_TRANSMIT_BYTES,
                val == bytes@[k as int],
                nbits <= 8,
                pulses@.len() == 8 * k + nbits,
                forall|i: int| 0 <= i < 8 * k + nbits ==> pulses@[i] == waveform(bytes@)[i],
            decreases 8 - nbits,
        {
            assert((8 * k + nbits) / 8 == k);
            assert((8 * k + nbits) % 8 == nbits);
            pulses.push(pulse_for(val & (0x80u8 >> nbits) != 0));
            nbits += 1;
        }
        k += 1;
    }
    assert(pulses@ =~= waveform(bytes@));
    pulses
}

fn read_bit(pulse: Pulse, mask: u8) -> (bits: u8)
    ensures
        bits == if bit_of(pulse) { mask } else { 0u8 },
{
    if pulse.high_cycles >= THRESHOLD_CYCLES {
        mask
    } else {
        0
    }
}

/// The bytes that a receiver reads from `pulses`.
pub fn decode(pulses: &[Pulse]) -> (bytes: Vec<u8>)
    ensures
        bytes@ == received(pulses@),
{
    let total: usize = pulses.len();
    let count: usize = total / 8;
    let mut bytes: Vec<u8> = Vec::new();
    let mut k: usize = 0;
    while k < count
        invariant
            k <= count,
            total == pulses@.len(),
            count == total / 8,
            bytes@.len() == k,
            forall|i: int| 0 <= i < k ==> bytes@[i] == received(pulses@)[i],
        decreases count - k,
    {
        let at: usize = 8 * k;
        let byte: u8 = read_bit(pulses[at], 0x80) | read_bit(pulses[at + 1], 0x40) | read_bit(
            pulses[at + 2],
            0x20,
        ) | read_bit(pulses[at + 3], 0x10) | read_bit(pulses[at + 4], 0x08) | read_bit(
            pulses[at + 5],
            0x04,
        ) | read_bit(pulses[at + 6], 0x02) | read_bit(pulses[at + 7], 0x01);
        bytes.push(byte);
        k += 1;
    }
    assert(bytes@ =~= received(pulses@));
    bytes
}

/// The two 8-bit counters by which the transmitter knows when it is done.
#[derive(Clone, Copy, Debug, PartialEq, Eq, Structural)]
pub struct ByteCounters {
    pub low: u8,
    pub high: u8,
}

/// The counters after one more byte went out, or `None` if that was the last
/// byte. The low counter is counted down first, from 0 to 255 if it stands at 0;
/// each time it arrives at 0 the high counter is counted down in the same way, and
/// the transmission ends when that one arrives at 0.
pub open spec fn counted_down(c: ByteCounters) -> Option<ByteCounters> {
    let low = if c.low == 0 { 255u8 } else { (c.low - 1) as u8 };
    let high = if c.high == 0 { 255u8 } else { (c.high - 1) as u8 };
    if low != 0 {
        Some(ByteCounters { low, high: c.high })
    } else if high != 0 {
        Some(ByteCounters { low: 0, high })
    } else {
        None
    }
}

/// Number of steps that the counters have left after the next byte.
pub open spec fn steps_left(c: ByteCounters) -> nat {
    let low = if c.low == 0 { 255nat } else { (c.low - 1) as nat };
    let high = if c.high == 0 { 255nat } else { (c.high - 1) as nat };
    256 * high + low
}

/// Number of bytes that go out before the counters, starting at `c`, end the
/// transmission.
pub open spec fn bytes_sent(c: ByteCounters) -> nat
    decreases steps_left(c),
{
    match counted_down(c) {
        Some(next) => 1 + bytes_sent(next),
        None => 1,
    }
}

/// The counters let through one byte more than they have steps left.
pub proof fn lemma_bytes_sent(c: ByteCounters)
    ensures
        bytes_sent(c) == steps_left(c) + 1,
    decreases steps_left(c),
{
    match counted_down(c) {
        Some(next) => {
            lemma_bytes_sent(next);
        },
        None => {},
    }
}

/// The counters to start a transmission of `len` bytes with, or `None` where
/// there is nothing to send and the line is left alone.
pub fn byte_counters(len: usize) -> (start: Option<ByteCounters>)
    requires
        len <= MAX_TRANSMIT_BYTES,
    ensures
        len == 0 <==> start is None,
        start matches Some(c) ==> {
            &&& bytes_sent(c) == len
            &&& c.low == len % 256
            &&& c.high == (len + 255) / 256
        },
{
    if len == 0 {
        None
    } else {
        let c = ByteCounters { low: (len % 256) as u8, high: ((len + 255) / 256) as u8 };
        proof {
            lemma_bytes_sent(c);
        }
        Some(c)
    }
}

} // verus!
