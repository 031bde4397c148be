//! The waveform that sets one light: pulses for the bits of its colour and a
//! pause that makes the light take them over.
use vstd::prelude::*;

verus! {

/// Time for which the line is high in a zero bit.
pub const T0H: u16 = 35;

/// Time for which the line is low in a zero bit.
pub const T0L: u16 = 90;

/// Time for which the line is high in a one bit.
pub const T1H: u16 = 70;

/// Time for which the line is low in a one bit.
pub const T1L: u16 = 55;

/// Time for which the line is low after the last bit.
pub const RESET: u16 = 800;

/// Number of pulses that set one light.
pub const PULSE_COUNT: usize = 25;

/// The longest time that a pulse can last.
pub const MAX_LENGTH: u16 = 0x7FFF;

/// The level of the data line.
#[derive(Clone, Copy, Debug, PartialEq, Eq, Structural)]
pub enum Level {
    Low,
    High,
}

/// A signal of two levels, one after the other, each held for a time in clock
/// cycles. A time of zero ends the transmission.
#[derive(Clone, Copy, Debug, PartialEq, Eq, Structural)]
pub struct PulseCode {
    pub level1: Level,
    pub length1: u16,
    pub level2: Level,
    pub length2: u16,
}

impl PulseCode {
    /// A pulse whose times are in the range that the transmitter takes.
    pub open spec fn valid(self) -> bool {
        self.length1 <= MAX_LENGTH && self.length2 <= MAX_LENGTH
    }

    /// Whether the transmission ends with this pulse.
    pub open spec fn ends(self) -> bool {
        self.length1 == 0 || self.length2 == 0
    }

    /// Both levels with their times.
    pub fn new(level1: Level, length1: u16, level2: Level, length2: u16) -> (pulse: PulseCode)
        requires
            length1 <= MAX_LENGTH,
            length2 <= MAX_LENGTH,
        ensures
            pulse == (PulseCode { level1, length1, level2, length2 }),
            pulse.valid(),
    {
        PulseCode { level1, length1, level2, length2 }
    }
}

/// The pulse of a bit.
pub open spec fn bit_pulse(one: bool) -> PulseCode {
    if one {
        PulseCode { level1: Level::High, length1: T1H, level2: Level::Low, length2: T1L }
    } else {
        PulseCode { level1: Level::High, length1: T0H, level2: Level::Low, length2: T0L }
    }
}

/// The pause after the bits.
pub open spec fn reset_pulse() -> PulseCode {
    PulseCode { level1: Level::Low, length1: RESET, level2: Level::Low, length2: 0 }
}

/// Bit number `bit` of `byte`, counted from the lowest.
pub open spec fn bit_of(byte: u8, bit: u8) -> bool {
    byte & (1u8 << bit) != 0
}

/// The colour channels in the order in which a light takes them.
pub open spec fn channels(r: u8, g: u8, b: u8) -> Seq<u8> {
    seq![g, r, b]
}

/// The pulse at position `i` of the waveform for a colour: green, red and blue,
/// the highest bit of each first, and then the pause.
pub open spec fn led_pulse(r: u8, g: u8, b: u8, i: int) -> PulseCode {
    if i < 24 {
        bit_pulse(bit_of(channels(r, g, b)[i / 8], (7 - i % 8) as u8))
    } else {
        reset_pulse()
    }
}

/// The waveform that makes a light shine in the given colour.
pub fn create_led_bits(r: u8, g: u8, b: u8) -> (data: [PulseCode; PULSE_COUNT])
    ensures
        forall|i: int| 0 <= i < PULSE_COUNT ==> data@[i] == led_pulse(r, g, b, i),
{
    let mut data: [PulseCode; PULSE_COUNT] = [PulseCode::new(Level::Low, 0, Level::Low, 0); PULSE_COUNT];
    let bytes: [u8; 3] = [g, r, b];
    let mut idx: usize = 0;
    while idx < 24
        invariant
            idx <= 24,
            bytes@ == channels(r, g, b),
            forall|i: int| 0 <= i < idx ==> data@[i] == led_pulse(r, g, b, i),
        decreases 24 - idx,
    {
        let byte: u8 = bytes[idx / 8];
        let bit: u8 = 7 - (idx % 8) as u8;
        data[idx] = if (byte & (1u8 << bit)) != 0 {
            PulseCode::new(Level::High, T1H, Level::Low, T1L)
        } else {
            PulseCode::new(Level::High, T0H, Level::Low, T0L)
        };
        idx += 1;
    }
    data[24] = PulseCode::new(Level::Low, RESET, Level::Low, 0);
    data
}

/// Every pulse of a waveform is in range, all bits take equally long, and the
/// transmission ends with the last pulse and not before.
pub proof fn law_waveform_is_well_timed(r: u8, g: u8, b: u8, i: int)
    requires
        0 <= i < PULSE_COUNT,
    ensures
        led_pulse(r, g, b, i).valid(),
        led_pulse(r, g, b, i).ends() <==> i == PULSE_COUNT - 1,
        i < PULSE_COUNT - 1 ==> led_pulse(r, g, b, i).length1 + led_pulse(r, g, b, i).length2
            == T0H + T0L,
{
}

/// A byte is known from its eight bits.
proof fn lemma_bits_determine_byte(a: u8, b: u8)
    requires
        forall|bit: u8| bit < 8 ==> bit_of(a, bit) == bit_of(b, bit),
    ensures
        a == b,
{
    assert(bit_of(a, 0) == bit_of(b, 0));
    assert(bit_of(a, 1) == bit_of(b, 1));
    assert(bit_of(a, 2) == bit_of(b, 2));
    assert(bit_of(a, 3) == bit_of(b, 3));
    assert(bit_of(a, 4) == bit_of(b, 4));
    assert(bit_of(a, 5) == bit_of(b, 5));
    assert(bit_of(a, 6) == bit_of(b, 6));
    assert(bit_of(a, 7) == bit_of(b, 7));
    assert(a == b) by (bit_vector)
        requires
            (a & (1u8 << 0u8) != 0) == (b & (1u8 << 0u8) != 0),
            (a & (1u8 << 1u8) != 0) == (b & (1u8 << 1u8) != 0),
            (a & (1u8 << 2u8) != 0) == (b & (1u8 << 2u8) != 0),
            (a & (1u8 << 3u8) != 0) == (b & (1u8 << 3u8) != 0),
            (a & (1u8 << 4u8) != 0) == (b & (1u8 << 4u8) != 0),
            (a & (1u8 << 5u8) != 0) == (b & (1u8 << 5u8) != 0),
            (a & (1u8 << 6u8) != 0) == (b & (1u8 << 6u8) != 0),
            (a & (1u8 << 7u8) != 0) == (b & (1u8 << 7u8) != 0),
    ;
}

/// The bits of one channel stand in the waveform, so equal waveforms agree on it.
proof fn lemma_waveform_determines_channel(c1: (u8, u8, u8), c2: (u8, u8, u8), channel: int)
    requires
        0 <= channel < 3,
        forall|i: int| 0 <= i < PULSE_COUNT ==> led_pulse(c1.0, c1.1, c1.2, i) == led_pulse(
            c2.0,
            c2.1,
            c2.2,
            i,
        ),
    ensures
        channels(c1.0, c1.1, c1.2)[channel] == channels(c2.0, c2.1, c2.2)[channel],
{
    let a = channels(c1.0, c1.1, c1.2)[channel];
    let b = channels(c2.0, c2.1, c2.2)[channel];
    assert forall|bit: u8| bit < 8 implies bit_of(a, bit) == bit_of(b, bit) by {
        let i = 8 * channel + 7 - bit;
        assert(i / 8 == channel && (7 - i % 8) as u8 == bit);
        assert(led_pulse(c1.0, c1.1, c1.2, i) == led_pulse(c2.0, c2.1, c2.2, i));
        assert(bit_pulse(true) != bit_pulse(false));
    }
    lemma_bits_determine_byte(a, b);
}

/// The waveform carries the whole colour: two colours with the same waveform are
/// the same.
pub proof fn law_waveform_determines_color(c1: (u8, u8, u8), c2: (u8, u8, u8))
    requires
        forall|i: int| 0 <= i < PULSE_COUNT ==> led_pulse(c1.0, c1.1, c1.2, i) == led_pulse(
            c2.0,
            c2.1,
            c2.2,
            i,
        ),
    ensures
        c1 == c2,
{
    lemma_waveform_determines_channel(c1, c2, 0);
    lemma_waveform_determines_channel(c1, c2, 1);
    lemma_waveform_determines_channel(c1, c2, 2);
    assert(channels(c1.0, c1.1, c1.2)[0] == c1.1);
    assert(channels(c1.0, c1.1, c1.2)[1] == c1.0);
    assert(channels(c1.0, c1.1, c1.2)[2] == c1.2);
}

/// What a light takes over is the colour. A pulse that is high for longer than it is low
/// is a one; the first eight pulses, read so from the highest bit, give green, the next
/// eight red, and the last eight blue.
pub proof fn law_light_takes_over_the_color(r: u8, g: u8, b: u8)
    ensures
        ({
            let one = |i: int|
                if led_pulse(r, g, b, i).length1 > led_pulse(r, g, b, i).length2 {
                    1int
                } else {
                    0int
                };
            let byte = |i: int|
                128 * one(i) + 64 * one(i + 1) + 32 * one(i + 2) + 16 * one(i + 3) + 8 * one(i + 4)
                    + 4 * one(i + 5) + 2 * one(i + 6) + one(i + 7);
            byte(0) == g && byte(8) == r && byte(16) == b
        }),
{
    lemma_byte_is_its_bits(g);
    lemma_byte_is_its_bits(r);
    lemma_byte_is_its_bits(b);
}

/// A byte is the sum of the values of its bits.
proof fn lemma_byte_is_its_bits(byte: u8)
    ensures
        ({
            let value = |bit: u8| if bit_of(byte, bit) { 1int } else { 0int };
            byte == 128 * value(7) + 64 * value(6) + 32 * value(5) + 16 * value(4) + 8 * value(3)
                + 4 * value(2) + 2 * value(1) + value(0)
        }),
{
    assert(byte == (if byte & (1u8 << 7u8) != 0 { 128u8 } else { 0u8 })
        + (if byte & (1u8 << 6u8) != 0 { 64u8 } else { 0u8 })
        + (if byte & (1u8 << 5u8) != 0 { 32u8 } else { 0u8 })
        + (if byte & (1u8 << 4u8) != 0 { 16u8 } else { 0u8 })
        + (if byte & (1u8 << 3u8) != 0 { 8u8 } else { 0u8 })
        + (if byte & (1u8 << 2u8) != 0 { 4u8 } else { 0u8 })
        + (if byte & (1u8 << 1u8) != 0 { 2u8 } else { 0u8 })
        + (if byte & (1u8 << 0u8) != 0 { 1u8 } else { 0u8 })) by (bit_vector);
}

/// Every bit of a channel sets its own pulse: bit `k` of green pulse 7 - `k`, of red pulse
/// 15 - `k`, and of blue pulse 23 - `k`.
pub proof fn law_bit_sets_its_pulse(r: u8, g: u8, b: u8, k: u8)
    requires
        k < 8,
    ensures
        (led_pulse(r, g, b, 7 - k).length1 == 70) <==> g & (1u8 << k) != 0,
        (led_pulse(r, g, b, 15 - k).length1 == 70) <==> r & (1u8 << k) != 0,
        (led_pulse(r, g, b, 23 - k).length1 == 70) <==> b & (1u8 << k) != 0,
{
}

/// The line is high and then low in every bit, for 70 and 55 clock cycles or for 35 and 90,
/// and low for 800 after the last.
pub proof fn law_line_goes_high_then_low(r: u8, g: u8, b: u8, i: int)
    requires
        0 <= i < 25,
    ensures
        ({
            let pulse = led_pulse(r, g, b, i);
            &&& i < 24 ==> {
                &&& pulse.level1 == Level::High && pulse.level2 == Level::Low
                &&& pulse.length1 == 70 && pulse.length2 == 55 || pulse.length1 == 35
                    && pulse.length2 == 90
            }
            &&& i == 24 ==> {
                &&& pulse.level1 == Level::Low && pulse.level2 == Level::Low
                &&& pulse.length1 == 800 && pulse.length2 == 0
            }
        }),
{
}

} // verus!
