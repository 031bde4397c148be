//! The lights, their wiring and their waveform.
use led_tetris::board::{Color, BOARD_HEIGHT, BOARD_WIDTH};
use led_tetris::leds::{board_to_led_index, color_to_rgb, BRIGHTNESS, LED_COUNT};
use led_tetris::pulse::{create_led_bits, Level, PulseCode};

const COLORS: [Color; 7] = [
    Color::Red,
    Color::Green,
    Color::Blue,
    Color::Yellow,
    Color::Cyan,
    Color::Magenta,
    Color::White,
];

#[test]
fn colors_have_their_lights() {
    assert_eq!(color_to_rgb(Color::Red), (12, 0, 0));
    assert_eq!(color_to_rgb(Color::Green), (0, 12, 0));
    assert_eq!(color_to_rgb(Color::Blue), (0, 0, 12));
    assert_eq!(color_to_rgb(Color::Yellow), (6, 6, 0));
    assert_eq!(color_to_rgb(Color::Cyan), (0, 6, 6));
    assert_eq!(color_to_rgb(Color::Magenta), (6, 0, 6));
    assert_eq!(color_to_rgb(Color::White), (4, 4, 4));
}

#[test]
fn colors_are_distinct_and_lit() {
    for a in COLORS {
        let (r, g, b) = color_to_rgb(a);
        assert_ne!((r, g, b), (0, 0, 0));
        assert!(r + g + b <= BRIGHTNESS);
        for c in COLORS {
            assert_eq!(a == c, color_to_rgb(a) == color_to_rgb(c));
        }
    }
}

#[test]
fn strip_starts_at_the_bottom_left_when_flipped() {
    assert_eq!(board_to_led_index(0, 19, true), 0);
    assert_eq!(board_to_led_index(0, 0, true), 19);
    assert_eq!(board_to_led_index(1, 0, true), 20);
    assert_eq!(board_to_led_index(1, 19, true), 39);
    assert_eq!(board_to_led_index(2, 19, true), 40);
    assert_eq!(board_to_led_index(9, 19, true), 199);
}

#[test]
fn strip_starts_at_the_top_left_when_not_flipped() {
    assert_eq!(board_to_led_index(0, 0, false), 0);
    assert_eq!(board_to_led_index(0, 19, false), 19);
    assert_eq!(board_to_led_index(1, 19, false), 20);
    assert_eq!(board_to_led_index(1, 0, false), 39);
    assert_eq!(board_to_led_index(9, 0, false), 199);
}

#[test]
fn even_column_takes_rows_beyond_the_board() {
    assert_eq!(board_to_led_index(0, 25, false), 25);
    assert_eq!(board_to_led_index(12, 3, false), 243);
}

#[test]
fn every_light_has_one_cell() {
    for flip_y in [false, true] {
        let mut cell_of = [None; LED_COUNT];
        for x in 0..BOARD_WIDTH {
            for y in 0..BOARD_HEIGHT {
                let i = board_to_led_index(x, y, flip_y);
                assert_eq!(cell_of[i], None);
                cell_of[i] = Some((x, y));
            }
        }
        for i in 0..LED_COUNT - 1 {
            let (x, y) = cell_of[i].unwrap();
            let (next_x, next_y) = cell_of[i + 1].unwrap();
            assert_eq!(x.abs_diff(next_x) + y.abs_diff(next_y), 1);
        }
    }
}

#[test]
fn flip_mirrors_rows() {
    for x in 0..BOARD_WIDTH {
        for y in 0..BOARD_HEIGHT {
            assert_eq!(board_to_led_index(x, y, true), board_to_led_index(x, 19 - y, false));
        }
    }
}

fn one() -> PulseCode {
    PulseCode { level1: Level::High, length1: 70, level2: Level::Low, length2: 55 }
}

fn zero() -> PulseCode {
    PulseCode { level1: Level::High, length1: 35, level2: Level::Low, length2: 90 }
}

#[test]
fn waveform_sends_green_red_blue_from_the_highest_bit() {
    let data = create_led_bits(0b1000_0000, 0b0000_0001, 0b1010_0101);
    let bits: [u8; 24] = [
        0, 0, 0, 0, 0, 0, 0, 1, 1, 0, 0, 0, 0, 0, 0, 0, 1, 0, 1, 0, 0, 1, 0, 1,
    ];
    for i in 0..24 {
        assert_eq!(data[i], if bits[i] == 1 { one() } else { zero() });
    }
    assert_eq!(
        data[24],
        PulseCode { level1: Level::Low, length1: 800, level2: Level::Low, length2: 0 }
    );
}

#[test]
fn waveform_is_well_timed() {
    let data = create_led_bits(12, 6, 4);
    for pulse in &data[..24] {
        assert_eq!(pulse.length1 + pulse.length2, 125);
        assert!(pulse.length1 > 0 && pulse.length2 > 0);
    }
    assert_eq!(data[24].length2, 0);
}

#[test]
fn waveform_carries_the_color() {
    for r in 0..=255u8 {
        let (g, b) = (r.wrapping_mul(7), r.wrapping_add(91));
        let data = create_led_bits(r, g, b);
        let mut bytes = [0u8; 3];
        for i in 0..24 {
            bytes[i / 8] = bytes[i / 8] * 2 + if data[i] == one() { 1 } else { 0 };
        }
        assert_eq!(bytes, [g, r, b]);
    }
}

#[test]
fn pulse_keeps_its_parts() {
    let pulse = PulseCode::new(Level::High, 0x7FFF, Level::Low, 3);
    assert_eq!(
        pulse,
        PulseCode { level1: Level::High, length1: 0x7FFF, level2: Level::Low, length2: 3 }
    );
}
