//! The strip of lights: where a cell of the board lies on it and in which
//! colour a light shines.
use crate::board::{Color, BOARD_HEIGHT, BOARD_WIDTH};
use vstd::prelude::*;

verus! {

/// The strongest that one channel of a light is driven.
pub const BRIGHTNESS: u8 = 12;

/// Number of lights on the strip, one for each cell of the board.
pub const LED_COUNT: usize = 200;

/// Red, green and blue, in this order.
pub type Rgb = (u8, u8, u8);

/// A light that is switched off.
pub const BLACK: Rgb = (0, 0, 0);

/// The light that stands for `color`.
pub open spec fn rgb(color: Color) -> Rgb {
    let full = BRIGHTNESS;
    let half = BRIGHTNESS / 2;
    let third = BRIGHTNESS / 3;
    match color {
        Color::Red => (full, 0, 0),
        Color::Green => (0, full, 0),
        Color::Blue => (0, 0, full),
        Color::Yellow => (half, half, 0),
        Color::Cyan => (0, half, half),
        Color::Magenta => (half, 0, half),
        Color::White => (third, third, third),
    }
}

/// How a light shines for `color`.
pub fn color_to_rgb(color: Color) -> (light: Rgb)
    ensures
        light == rgb(color),
{
    match color {
        Color::Red => (BRIGHTNESS, 0, 0),
        Color::Green => (0, BRIGHTNESS, 0),
        Color::Blue => (0, 0, BRIGHTNESS),
        Color::Yellow => (BRIGHTNESS / 2, BRIGHTNESS / 2, 0),
        Color::Cyan => (0, BRIGHTNESS / 2, BRIGHTNESS / 2),
        Color::Magenta => (BRIGHTNESS / 2, 0, BRIGHTNESS / 2),
        Color::White => (BRIGHTNESS / 3, BRIGHTNESS / 3, BRIGHTNESS / 3),
    }
}

/// The colours can be told apart by their lights, every one of them shines, and
/// none draws more than one channel at full brightness does.
pub proof fn law_colors_are_distinct_and_lit(a: Color, b: Color)
    ensures
        rgb(a) == rgb(b) ==> a == b,
        rgb(a) != BLACK,
        rgb(a).0 + rgb(a).1 + rgb(a).2 <= BRIGHTNESS,
{
}

/// `row`, counted from the other end of the column.
pub open spec fn mirrored(row: int) -> int {
    BOARD_HEIGHT - 1 - row
}

/// The position on the strip of the cell in column `x` and row `y`.
///
/// The strip runs along the columns one after the other: up the even ones and
/// back down the odd ones. `flip_y` says that the board counts its rows from the
/// far end of the first column.
pub open spec fn led_index(x: int, y: int, flip_y: bool) -> int {
    let along = if flip_y { mirrored(y) } else { y };
    x * BOARD_HEIGHT + if x % 2 == 0 { along } else { mirrored(along) }
}

/// The cell (column and row) that the light at position `i` of the strip shows.
pub open spec fn led_cell(i: int, flip_y: bool) -> (int, int) {
    let x = i / (BOARD_HEIGHT as int);
    let step = i % (BOARD_HEIGHT as int);
    let along = if x % 2 == 0 { step } else { mirrored(step) };
    (x, if flip_y { mirrored(along) } else { along })
}

/// The position on the strip of the cell in column `x` and row `y`.
///
/// Where a column is walked backwards `y` has to be a row of the board.
pub fn board_to_led_index(x: usize, y: usize, flip_y: bool) -> (i: usize)
    requires
        flip_y || x % 2 == 1 ==> y < BOARD_HEIGHT,
        led_index(x as int, y as int, flip_y) <= usize::MAX,
    ensures
        i == led_index(x as int, y as int, flip_y),
        x < BOARD_WIDTH && y < BOARD_HEIGHT ==> i < LED_COUNT,
{
    let y_mapped: usize = if flip_y {
        BOARD_HEIGHT - 1 - y
    } else {
        y
    };
    let col_start: usize = x * BOARD_HEIGHT;
    if x % 2 == 0 {
        col_start + y_mapped
    } else {
        col_start + (BOARD_HEIGHT - 1 - y_mapped)
    }
}

/// No two cells share a light, and every cell has one: its position is on the
/// strip and leads back to the cell.
pub proof fn law_led_leads_back_to_its_cell(x: int, y: int, flip_y: bool)
    requires
        crate::board::on_board(x, y),
    ensures
        0 <= led_index(x, y, flip_y) < LED_COUNT,
        led_cell(led_index(x, y, flip_y), flip_y) == (x, y),
{
}

/// Every light shows a cell of the board, and the cell's position is that light.
pub proof fn law_every_led_shows_a_cell(i: int, flip_y: bool)
    requires
        0 <= i < LED_COUNT,
    ensures
        crate::board::on_board(led_cell(i, flip_y).0, led_cell(i, flip_y).1),
        led_index(led_cell(i, flip_y).0, led_cell(i, flip_y).1, flip_y) == i,
{
}

/// The wiring is serpentine: lights that follow each other on the strip show
/// cells that touch along a side.
pub proof fn law_wiring_is_serpentine(i: int, flip_y: bool)
    requires
        0 <= i < LED_COUNT - 1,
    ensures
        ({
            let (x, y) = led_cell(i, flip_y);
            let (next_x, next_y) = led_cell(i + 1, flip_y);
            ||| next_x == x && (next_y == y + 1 || next_y == y - 1)
            ||| next_x == x + 1 && next_y == y
        }),
{
}

/// Flipping the rows turns the board upside down and changes nothing else.
pub proof fn law_flip_mirrors_the_rows(x: int, y: int)
    ensures
        led_index(x, y, true) == led_index(x, mirrored(y), false),
        led_index(x, y, false) == led_index(x, mirrored(y), true),
{
}

/// Red, green and blue drive their own channel alone and fully, and every other colour is
/// the even mixture of those it is made of.
pub proof fn law_colors_are_mixtures()
    ensures
        BRIGHTNESS == 12,
        rgb(Color::Red).0 == BRIGHTNESS && rgb(Color::Red).1 == 0 && rgb(Color::Red).2 == 0,
        rgb(Color::Green).0 == 0 && rgb(Color::Green).1 == BRIGHTNESS && rgb(Color::Green).2 == 0,
        rgb(Color::Blue).0 == 0 && rgb(Color::Blue).1 == 0 && rgb(Color::Blue).2 == BRIGHTNESS,
        ({
            let (red, green, blue) = (rgb(Color::Red), rgb(Color::Green), rgb(Color::Blue));
            let yellow = rgb(Color::Yellow);
            let cyan = rgb(Color::Cyan);
            let magenta = rgb(Color::Magenta);
            let white = rgb(Color::White);
            &&& 2 * yellow.0 == red.0 + green.0
            &&& 2 * yellow.1 == red.1 + green.1
            &&& 2 * yellow.2 == red.2 + green.2
            &&& 2 * cyan.0 == green.0 + blue.0
            &&& 2 * cyan.1 == green.1 + blue.1
            &&& 2 * cyan.2 == green.2 + blue.2
            &&& 2 * magenta.0 == red.0 + blue.0
            &&& 2 * magenta.1 == red.1 + blue.1
            &&& 2 * magenta.2 == red.2 + blue.2
            &&& 3 * white.0 == red.0 + green.0 + blue.0
            &&& 3 * white.1 == red.1 + green.1 + blue.1
            &&& 3 * white.2 == red.2 + green.2 + blue.2
        }),
{
}

/// The strip begins at the bottom of the first column of a flipped board, runs up the even
/// columns and down the odd ones, and goes over to the next column where one ends.
pub proof fn law_strip_runs_up_and_down(x: int, y: int)
    requires
        0 <= x,
        0 <= y < 20,
    ensures
        led_index(0, 19, true) == 0,
        x % 2 == 0 && 0 < y ==> led_index(x, y - 1, true) == led_index(x, y, true) + 1,
        x % 2 == 0 ==> led_index(x + 1, 0, true) == led_index(x, 0, true) + 1,
        x % 2 == 1 && y < 19 ==> led_index(x, y + 1, true) == led_index(x, y, true) + 1,
        x % 2 == 1 ==> led_index(x + 1, 19, true) == led_index(x, 19, true) + 1,
{
}

/// On a board that is not flipped the strip begins at the top of the first column, runs
/// down the even columns, beyond the board too, and up the odd ones.
pub proof fn law_strip_runs_down_and_up(x: int, y: int)
    requires
        0 <= x,
        0 <= y,
    ensures
        led_index(0, 0, false) == 0,
        x % 2 == 0 ==> led_index(x, y + 1, false) == led_index(x, y, false) + 1,
        x % 2 == 0 ==> led_index(x + 1, 19, false) == led_index(x, 19, false) + 1,
        x % 2 == 1 && 0 < y ==> led_index(x, y - 1, false) == led_index(x, y, false) + 1,
        x % 2 == 1 ==> led_index(x + 1, 0, false) == led_index(x, 0, false) + 1,
{
}

/// Rows are counted from the other end on a board that is flipped.
pub proof fn law_row_and_its_mirror_add_up(x: int, y: int)
    ensures
        mirrored(y) + y == 19,
        led_index(x, y, true) == led_index(x, 19 - y, false),
{
}

} // verus!
