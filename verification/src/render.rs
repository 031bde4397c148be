//! Drawing: which light shines how, and when the strip has to be written at all.
use crate::board::{BOARD_HEIGHT, BOARD_WIDTH};
use crate::leds::{board_to_led_index, color_to_rgb, Rgb, BLACK, LED_COUNT};
use crate::pulse::{create_led_bits, PulseCode, PULSE_COUNT};
use crate::state::{state_changed, GameState};
use vstd::prelude::*;

verus! {

/// The lights of the strip, from its first to its last.
pub type Frame = [Rgb; LED_COUNT];

/// Whether every light of `frame` shines as `state` asks. The strip starts at the
/// bottom of the first column, so rows are counted from the far end.
pub open spec fn shows(frame: Frame, state: GameState) -> bool {
    forall|i: int|
        0 <= i < LED_COUNT ==> #[trigger] frame@[i] == {
            let (x, y) = crate::leds::led_cell(i, true);
            state.shown(x, y)
        }
}

/// The pulse at position `i` of the waveform for light number `light` of `frame`.
pub open spec fn light_pulse(frame: Frame, light: int, i: int) -> PulseCode {
    crate::pulse::led_pulse(frame@[light].0, frame@[light].1, frame@[light].2, i)
}

/// What the strip shows once a frame, if there is one, has been written over `strip`.
pub open spec fn displayed(strip: Frame, frame: Option<Frame>) -> Frame {
    match frame {
        Some(led_colors) => led_colors,
        None => strip,
    }
}

/// Whether the light of each cell shines as `lit` says.
spec fn lit_as(frame: Seq<Rgb>, lit: spec_fn(int, int) -> Rgb) -> bool {
    forall|x: int, y: int|
        #![trigger crate::leds::led_index(x, y, true)]
        crate::board::on_board(x, y) ==> frame[crate::leds::led_index(x, y, true)] == lit(x, y)
}

/// Setting the light of one cell leaves those of all others as they are.
proof fn lemma_set_light(
    frame: Seq<Rgb>,
    lit: spec_fn(int, int) -> Rgb,
    x: int,
    y: int,
    light: Rgb,
    next: spec_fn(int, int) -> Rgb,
)
    requires
        frame.len() == LED_COUNT,
        lit_as(frame, lit),
        crate::board::on_board(x, y),
        next(x, y) == light,
        forall|u: int, v: int|
            crate::board::on_board(u, v) && (u, v) != (x, y) ==> #[trigger] next(u, v) == lit(u, v),
    ensures
        lit_as(frame.update(crate::leds::led_index(x, y, true), light), next),
{
    crate::leds::law_led_leads_back_to_its_cell(x, y, true);
    let i = crate::leds::led_index(x, y, true);
    assert forall|u: int, v: int|
        #![trigger crate::leds::led_index(u, v, true)]
        crate::board::on_board(u, v) implies frame.update(i, light)[crate::leds::led_index(
        u,
        v,
        true,
    )] == next(u, v) by {
        crate::leds::law_led_leads_back_to_its_cell(u, v, true);
    }
}

/// How the light of a cell shines once the cells before row `y` and, in that row,
/// before column `x` have been drawn.
spec fn board_lit(state: GameState, x: int, y: int) -> spec_fn(int, int) -> Rgb {
    |u: int, v: int|
        if v < y || v == y && u < x {
            crate::state::light_of(state.board@[v]@[u])
        } else {
            BLACK
        }
}

/// Whether one of the first `n` blocks of the piece lies in column `x` and row `y`.
spec fn covers_with(state: GameState, n: int, x: int, y: int) -> bool {
    exists|k: int| 0 <= k < n && #[trigger] state.block(k) == (x, y)
}

/// How the light of a cell shines once the first `n` blocks of the piece have been
/// drawn over the board.
spec fn piece_lit(state: GameState, n: int) -> spec_fn(int, int) -> Rgb {
    |u: int, v: int|
        if covers_with(state, n, u, v) {
            crate::leds::rgb(state.current_color)
        } else {
            crate::state::light_of(state.board@[v]@[u])
        }
}

/// The lights that show `state`: the locked cells, and over them the piece unless
/// the game is over.
pub fn render_board(state: &GameState) -> (led_colors: Frame)
    requires
        state.drawable(),
    ensures
        shows(led_colors, *state),
{
    let mut led_colors: Frame = [BLACK; LED_COUNT];
    proof {
        assert forall|x: int, y: int|
            #![trigger crate::leds::led_index(x, y, true)]
            crate::board::on_board(x, y) implies led_colors@[crate::leds::led_index(x, y, true)]
            == board_lit(*state, 0, 0)(x, y) by {
            crate::leds::law_led_leads_back_to_its_cell(x, y, true);
        }
    }
    let mut y: usize = 0;
    while y < BOARD_HEIGHT
        invariant
            y <= BOARD_HEIGHT,
            lit_as(led_colors@, board_lit(*state, 0, y as int)),
        decreases BOARD_HEIGHT - y,
    {
        let mut x: usize = 0;
        while x < BOARD_WIDTH
            invariant
                x <= BOARD_WIDTH,
                y < BOARD_HEIGHT,
                lit_as(led_colors@, board_lit(*state, x as int, y as int)),
            decreases BOARD_WIDTH - x,
        {
            let ghost drawn = led_colors@;
            let ghost lit = board_lit(*state, x as int, y as int);
            let ghost next = board_lit(*state, x as int + 1, y as int);
            proof {
                crate::leds::law_led_leads_back_to_its_cell(x as int, y as int, true);
                lemma_set_light(drawn, lit, x as int, y as int, next(x as int, y as int), next);
            }
            if let Some(color) = state.board[y][x] {
                let led_idx: usize = board_to_led_index(x, y, true);
                led_colors[led_idx] = color_to_rgb(color);
            } else {
                proof {
                    let i = crate::leds::led_index(x as int, y as int, true);
                    assert(drawn.update(i, BLACK) =~= drawn);
                }
            }
            x += 1;
        }
        proof {
            assert forall|u: int, v: int|
                #![trigger crate::leds::led_index(u, v, true)]
                crate::board::on_board(u, v) implies led_colors@[crate::leds::led_index(
                u,
                v,
                true,
            )] == board_lit(*state, 0, y as int + 1)(u, v) by {}
        }
        y += 1;
    }
    proof {
        assert forall|u: int, v: int|
            #![trigger crate::leds::led_index(u, v, true)]
            crate::board::on_board(u, v) implies led_colors@[crate::leds::led_index(u, v, true)]
            == piece_lit(*state, 0)(u, v) by {}
    }
    let mut drawn_blocks: usize = 0;
    if !state.game_over {
        while drawn_blocks < 4
            invariant
                drawn_blocks <= 4,
                !state.game_over,
                state.drawable(),
                lit_as(led_colors@, piece_lit(*state, drawn_blocks as int)),
            decreases 4 - drawn_blocks,
        {
            let (dx, dy) = state.current_piece[drawn_blocks];
            let ghost k = drawn_blocks as int;
            assert(state.block(k) == (state.piece_x + dx, state.piece_y + dy));
            let x: i8 = state.piece_x + dx;
            let y: i8 = state.piece_y + dy;
            let ghost lit = piece_lit(*state, k);
            let ghost next = piece_lit(*state, k + 1);
            proof {
                assert forall|u: int, v: int|
                    crate::board::on_board(u, v) && (u, v) != (x as int, y as int) implies
                    #[trigger] next(u, v) == lit(u, v) by {
                    if covers_with(*state, k + 1, u, v) {
                        let j = choose|j: int|
                            0 <= j < k + 1 && #[trigger] state.block(j) == (u, v);
                        assert(j != k);
                    }
                    if covers_with(*state, k, u, v) {
                        let j = choose|j: int| 0 <= j < k && #[trigger] state.block(j) == (u, v);
                        assert(0 <= j < k + 1);
                    }
                }
                assert(covers_with(*state, k + 1, x as int, y as int));
            }
            if 0 <= x && (x as usize) < BOARD_WIDTH && 0 <= y && (y as usize) < BOARD_HEIGHT {
                let ghost drawn = led_colors@;
                proof {
                    crate::leds::law_led_leads_back_to_its_cell(x as int, y as int, true);
                    lemma_set_light(
                        drawn,
                        lit,
                        x as int,
                        y as int,
                        crate::leds::rgb(state.current_color),
                        next,
                    );
                }
                let led_idx: usize = board_to_led_index(x as usize, y as usize, true);
                led_colors[led_idx] = color_to_rgb(state.current_color);
            } else {
                proof {
                    assert(lit_as(led_colors@, next)) by {
                        assert forall|u: int, v: int|
                            #![trigger crate::leds::led_index(u, v, true)]
                            crate::board::on_board(u, v) implies led_colors@[crate::leds::led_index(
                            u,
                            v,
                            true,
                        )] == next(u, v) by {
                            assert(next(u, v) == lit(u, v));
                        }
                    }
                }
            }
            drawn_blocks += 1;
        }
    }
    proof {
        assert forall|i: int| 0 <= i < LED_COUNT implies #[trigger] led_colors@[i] == {
            let (x, y) = crate::leds::led_cell(i, true);
            state.shown(x, y)
        } by {
            crate::leds::law_every_led_shows_a_cell(i, true);
            let (x, y) = crate::leds::led_cell(i, true);
            let n = drawn_blocks as int;
            assert(led_colors@[crate::leds::led_index(x, y, true)] == piece_lit(*state, n)(x, y));
            if covers_with(*state, n, x, y) {
                let k = choose|k: int| 0 <= k < n && #[trigger] state.block(k) == (x, y);
                assert(0 <= k < 4);
            }
        }
    }
    led_colors
}

/// The waveform to send when those of the first `sent` lights have been sent and the last
/// of them was taken: that of the next light of the strip. There is none once all lights
/// have theirs, nor after one that could not be sent.
pub fn next_transmission(frame: &Frame, sent: usize, last_ok: bool) -> (data: Option<
    [PulseCode; PULSE_COUNT],
>)
    ensures
        data is Some <==> last_ok && sent < LED_COUNT,
        data matches Some(pulses) ==> forall|i: int|
            0 <= i < PULSE_COUNT ==> pulses@[i] == light_pulse(*frame, sent as int, i),
        data matches Some(pulses) ==> forall|i: int|
            0 <= i < PULSE_COUNT ==> #[trigger] pulses@[i] == crate::pulse::led_pulse(
                frame@[sent as int].0,
                frame@[sent as int].1,
                frame@[sent as int].2,
                i,
            ),
{
    if last_ok && sent < LED_COUNT {
        let (r, g, b) = frame[sent];
        Some(create_led_bits(r, g, b))
    } else {
        None
    }
}

/// Keeps what the strip shows and draws only what is new, so that the lights do not
/// flicker.
#[derive(Clone, Copy, Debug, PartialEq, Eq)]
pub struct Renderer {
    /// The state that was drawn last.
    pub last_state: GameState,
}

impl Renderer {
    /// A renderer that has drawn nothing yet.
    pub fn new() -> (renderer: Renderer)
        ensures
            renderer.last_state.is_initial(),
    {
        Renderer { last_state: GameState::default() }
    }

    /// Takes the next state; returns the lights to write if it has to be drawn.
    pub fn receive(&mut self, state: GameState) -> (frame: Option<Frame>)
        requires
            !old(self).last_state.same_look(state) ==> state.drawable(),
        ensures
            frame is None <==> old(self).last_state.same_look(state),
            frame is None ==> *final(self) == *old(self),
            frame matches Some(led_colors) ==> shows(led_colors, state) && final(self).last_state
                == state,
            final(self).last_state.same_look(state),
            forall|strip: Frame| #[trigger]
                shows(strip, old(self).last_state) ==> shows(displayed(strip, frame), state)
                    && shows(displayed(strip, frame), final(self).last_state),
    {
        proof {
            assert forall|strip: Frame|
                #[trigger] shows(strip, self.last_state) && self.last_state.same_look(state) implies
                shows(strip, state) by {
                law_unchanged_state_is_shown_already(strip, self.last_state, state);
            }
        }
        if state_changed(&self.last_state, &state) {
            let led_colors: Frame = render_board(&state);
            self.last_state = state;
            Some(led_colors)
        } else {
            None
        }
    }
}

/// A strip that shows one state also shows every state that looks the same.
pub proof fn law_unchanged_state_is_shown_already(frame: Frame, drawn: GameState, state: GameState)
    requires
        shows(frame, drawn),
        drawn.same_look(state),
    ensures
        shows(frame, state),
{
    assert forall|i: int| 0 <= i < LED_COUNT implies #[trigger] frame@[i] == {
        let (x, y) = crate::leds::led_cell(i, true);
        state.shown(x, y)
    } by {
        crate::leds::law_every_led_shows_a_cell(i, true);
        let (x, y) = crate::leds::led_cell(i, true);
        crate::state::law_unchanged_picture_shines_the_same(drawn, state, x, y);
    }
}

/// No drawing that is needed is left out: states that look the same have the same frame.
pub proof fn law_unchanged_states_have_one_frame(
    drawn: GameState,
    state: GameState,
    drawn_frame: Frame,
    state_frame: Frame,
)
    requires
        drawn.same_look(state),
        shows(drawn_frame, drawn),
        shows(state_frame, state),
    ensures
        drawn_frame == state_frame,
{
    law_unchanged_state_is_shown_already(drawn_frame, drawn, state);
    law_state_determines_frame(drawn_frame, state_frame, state);
}

/// A dark strip shows the picture before there is any game.
pub proof fn law_dark_strip_shows_the_initial_picture(strip: Frame, state: GameState)
    requires
        state.is_initial(),
        forall|i: int| 0 <= i < LED_COUNT ==> strip@[i] == BLACK,
    ensures
        shows(strip, state),
{
    assert forall|i: int| 0 <= i < LED_COUNT implies #[trigger] strip@[i] == {
        let (x, y) = crate::leds::led_cell(i, true);
        state.shown(x, y)
    } by {
        crate::leds::law_every_led_shows_a_cell(i, true);
        let (x, y) = crate::leds::led_cell(i, true);
        assert(crate::board::grid(state.board)[y][x] == crate::board::blank_grid()[y][x]);
    }
}

/// What is sent carries the whole frame: two frames with the same waveforms are the same.
pub proof fn law_transmission_determines_frame(a: Frame, b: Frame)
    requires
        forall|light: int, i: int|
            0 <= light < LED_COUNT && 0 <= i < PULSE_COUNT ==> light_pulse(a, light, i)
                == light_pulse(b, light, i),
    ensures
        a == b,
{
    assert forall|light: int| 0 <= light < LED_COUNT implies a@[light] == b@[light] by {
        assert forall|i: int| 0 <= i < PULSE_COUNT implies crate::pulse::led_pulse(
            a@[light].0,
            a@[light].1,
            a@[light].2,
            i,
        ) == crate::pulse::led_pulse(b@[light].0, b@[light].1, b@[light].2, i) by {
            assert(light_pulse(a, light, i) == light_pulse(b, light, i));
        }
        crate::pulse::law_waveform_determines_color(a@[light], b@[light]);
    }
    assert(a@ =~= b@);
}

/// The lights are known from the state: two frames that show one state are equal.
pub proof fn law_state_determines_frame(a: Frame, b: Frame, state: GameState)
    requires
        shows(a, state),
        shows(b, state),
    ensures
        a == b,
{
    assert forall|i: int| 0 <= i < LED_COUNT implies a@[i] == b@[i] by {}
    assert(a@ =~= b@);
}

/// The first picture of a running game is always drawn: it never looks like the
/// picture before there is any game.
pub proof fn law_first_picture_is_drawn(before: GameState, state: GameState)
    requires
        before.is_initial(),
        !state.game_over,
    ensures
        !before.same_look(state),
{
}

/// A frame shows a state exactly if the light of every cell, counted up the even columns and
/// down the odd ones, shines in the colour of the piece where one of its blocks lies while
/// the game is not over, in that of the locked cell elsewhere, and not at all where neither is.
pub proof fn law_frame_shows_every_cell(frame: Frame, state: GameState)
    ensures
        shows(frame, state) <==> forall|x: int, y: int|
            0 <= x < 10 && 0 <= y < 20 ==> {
                let light = frame@[20 * x + if x % 2 == 0 {
                    19 - y
                } else {
                    y
                }];
                let on_piece = exists|k: int|
                    0 <= k < 4 && state.piece_x + (#[trigger] state.current_piece@[k]).0 == x
                        && state.piece_y + state.current_piece@[k].1 == y;
                if !state.game_over && on_piece {
                    light == crate::leds::rgb(state.current_color)
                } else {
                    match #[trigger] state.board@[y]@[x] {
                        Some(color) => light == crate::leds::rgb(color),
                        None => light == (0u8, 0u8, 0u8),
                    }
                }
            },
{
    assert forall|x: int, y: int| 0 <= x < 10 && 0 <= y < 20 implies ({
        let light = frame@[20 * x + if x % 2 == 0 {
            19 - y
        } else {
            y
        }];
        let on_piece = exists|k: int|
            0 <= k < 4 && state.piece_x + (#[trigger] state.current_piece@[k]).0 == x
                && state.piece_y + state.current_piece@[k].1 == y;
        let asked = if !state.game_over && on_piece {
            light == crate::leds::rgb(state.current_color)
        } else {
            match #[trigger] state.board@[y]@[x] {
                Some(color) => light == crate::leds::rgb(color),
                None => light == (0u8, 0u8, 0u8),
            }
        };
        asked <==> frame@[crate::leds::led_index(x, y, true)] == state.shown(x, y)
    }) by {
        crate::state::law_piece_hides_the_board(state, x, y);
    }
    if shows(frame, state) {
        assert forall|x: int, y: int|
            0 <= x < 10 && 0 <= y < 20 implies frame@[#[trigger] crate::leds::led_index(
            x,
            y,
            true,
        )] == state.shown(x, y) by {
            crate::leds::law_led_leads_back_to_its_cell(x, y, true);
        }
        assert forall|x: int, y: int| 0 <= x < 10 && 0 <= y < 20 implies ({
            let light = frame@[20 * x + if x % 2 == 0 {
                19 - y
            } else {
                y
            }];
            let on_piece = exists|k: int|
                0 <= k < 4 && state.piece_x + (#[trigger] state.current_piece@[k]).0 == x
                    && state.piece_y + state.current_piece@[k].1 == y;
            if !state.game_over && on_piece {
                light == crate::leds::rgb(state.current_color)
            } else {
                match #[trigger] state.board@[y]@[x] {
                    Some(color) => light == crate::leds::rgb(color),
                    None => light == (0u8, 0u8, 0u8),
                }
            }
        }) by {
            assert(frame@[crate::leds::led_index(x, y, true)] == state.shown(x, y));
        }
    } else {
        let i = choose|i: int|
            0 <= i < LED_COUNT && #[trigger] frame@[i] != {
                let (x, y) = crate::leds::led_cell(i, true);
                state.shown(x, y)
            };
        crate::leds::law_every_led_shows_a_cell(i, true);
        let (x, y) = crate::leds::led_cell(i, true);
        let cell = state.board@[y]@[x];
        assert(frame@[crate::leds::led_index(x, y, true)] != state.shown(x, y));
    }
}

/// Every light is sent in its turn: the waveform number `light` holds green, red and blue of
/// light number `light` of the frame, each read from its highest bit, where a pulse that is
/// high for longer than it is low is a one.
pub proof fn law_light_is_sent_in_its_turn(frame: Frame, light: int)
    requires
        0 <= light < LED_COUNT,
    ensures
        ({
            let one = |i: int|
                if light_pulse(frame, light, i).length1 > light_pulse(frame, light, i).length2 {
                    1int
                } else {
                    0int
                };
            let byte = |i: int|
                128 * one(i) + 64 * one(i + 1) + 32 * one(i + 2) + 16 * one(i + 3) + 8 * one(i + 4)
                    + 4 * one(i + 5) + 2 * one(i + 6) + one(i + 7);
            let (r, g, b) = frame@[light];
            byte(0) == g && byte(8) == r && byte(16) == b
        }),
        forall|i: int|
            light_pulse(frame, light, i) == #[trigger] crate::pulse::led_pulse(
                frame@[light].0,
                frame@[light].1,
                frame@[light].2,
                i,
            ),
{
    crate::pulse::law_light_takes_over_the_color(
        frame@[light].0,
        frame@[light].1,
        frame@[light].2,
    );
}

/// A waveform belongs to one light alone: frames that agree on a light agree on its waveform,
/// and frames that do not, do not.
pub proof fn law_waveform_belongs_to_its_light(a: Frame, b: Frame, light: int)
    requires
        0 <= light < LED_COUNT,
    ensures
        a@[light] == b@[light] <==> forall|i: int|
            0 <= i < PULSE_COUNT ==> #[trigger] light_pulse(a, light, i) == light_pulse(
                b,
                light,
                i,
            ),
{
    if forall|i: int|
        0 <= i < PULSE_COUNT ==> #[trigger] light_pulse(a, light, i) == light_pulse(b, light, i) {
        assert forall|i: int| 0 <= i < PULSE_COUNT implies crate::pulse::led_pulse(
            a@[light].0,
            a@[light].1,
            a@[light].2,
            i,
        ) == crate::pulse::led_pulse(b@[light].0, b@[light].1, b@[light].2, i) by {
            assert(light_pulse(a, light, i) == light_pulse(b, light, i));
        }
        crate::pulse::law_waveform_determines_color(a@[light], b@[light]);
    }
}

/// A strip shows the frame that was written last, and what it showed before if none was.
pub proof fn law_strip_keeps_what_was_written(strip: Frame, frame: Frame)
    ensures
        displayed(strip, Some(frame)) == frame,
        displayed(strip, None) == strip,
{
}

} // verus!
