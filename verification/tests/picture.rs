//! The picture of a game and the lights that show it.
use led_tetris::board::{blank_board, Color};
use led_tetris::game::Game;
use led_tetris::leds::{board_to_led_index, LED_COUNT};
use led_tetris::pulse::create_led_bits;
use led_tetris::render::{next_transmission, render_board, Renderer};
use led_tetris::rng::TetrisRng;
use led_tetris::state::{extract_game_state, state_changed, GameState};

fn running() -> GameState {
    GameState { game_over: false, ..GameState::default() }
}

#[test]
fn initial_picture() {
    let state = GameState::default();
    assert_eq!(state.board, blank_board());
    assert_eq!(state.current_color, Color::Red);
    assert_eq!(state.current_piece, [(0, 0), (1, 0), (0, 1), (1, 1)]);
    assert_eq!((state.piece_x, state.piece_y), (4, 0));
    assert_eq!(state.score, 0);
    assert!(state.game_over);
}

#[test]
fn picture_is_taken_from_the_game() {
    let mut game = Game::new(TetrisRng::new());
    game.board[7][2] = Some(Color::White);
    game.score = 1200;
    game.move_left();
    game.move_down();
    let state = extract_game_state(&game);
    assert_eq!(state.board, game.board);
    assert_eq!(state.current_color, Color::Cyan);
    assert_eq!(state.current_piece, [(0, 1), (1, 1), (2, 1), (3, 1)]);
    assert_eq!((state.piece_x, state.piece_y), (2, 1));
    assert_eq!(state.score, 1200);
    assert!(!state.game_over);
    assert!(state.is_drawable());
}

#[test]
fn block_offsets_are_reinterpreted() {
    let mut game = Game::new(TetrisRng::new());
    game.current_piece.shape[2] = (200, 255);
    assert_eq!(extract_game_state(&game).current_piece[2], (-56, -1));
}

#[test]
fn changes_that_are_drawn() {
    let state = running();
    assert!(state_changed(&state, &GameState { game_over: true, ..state }));
    assert!(state_changed(&state, &GameState { current_color: Color::Blue, ..state }));
    assert!(state_changed(&state, &GameState { piece_x: 5, ..state }));
    assert!(state_changed(&state, &GameState { piece_y: 1, ..state }));
    for k in 0..4 {
        let mut other = state;
        other.current_piece[k].0 += 1;
        assert!(state_changed(&state, &other));
        other = state;
        other.current_piece[k].1 += 1;
        assert!(state_changed(&state, &other));
    }
    for (x, y) in [(0, 0), (9, 0), (4, 11), (0, 19), (9, 19)] {
        let mut other = state;
        other.board[y][x] = Some(Color::Red);
        assert!(state_changed(&state, &other));
        assert!(state_changed(&other, &state));
    }
}

#[test]
fn changes_that_are_not_drawn() {
    let mut state = running();
    state.board[3][3] = Some(Color::Red);
    assert!(!state_changed(&state, &state));
    assert!(!state_changed(&state, &GameState { score: 100, ..state }));
}

#[test]
fn recolored_cell_is_drawn() {
    let mut red = GameState::default();
    red.board[19][0] = Some(Color::Red);
    let mut blue = GameState::default();
    blue.board[19][0] = Some(Color::Blue);
    assert!(state_changed(&red, &blue));
    assert!(state_changed(&blue, &red));
    let mut renderer = Renderer::new();
    assert_eq!(renderer.receive(red).unwrap()[0], (12, 0, 0));
    assert_eq!(renderer.receive(blue).unwrap()[0], (0, 0, 12));
    assert_eq!(renderer.receive(blue), None);
}

#[test]
fn strip_always_shows_the_last_state() {
    let mut renderer = Renderer::new();
    let mut strip = [(0, 0, 0); LED_COUNT];
    assert_eq!(strip, render_board(&renderer.last_state));
    let mut state = extract_game_state(&Game::new(TetrisRng::new()));
    for step in 0..60u8 {
        match step % 4 {
            0 => state.piece_y = (step / 4) as i8,
            1 => state.score += 100,
            2 => state.board[18][(step % 10) as usize] = Some(Color::Magenta),
            _ => state.board[18][2] = Some(if step % 8 == 3 { Color::Red } else { Color::White }),
        }
        if let Some(frame) = renderer.receive(state) {
            strip = frame;
        }
        assert_eq!(strip, render_board(&state));
    }
}

#[test]
fn board_and_piece_are_drawn() {
    let mut state = running();
    state.board[19][0] = Some(Color::Blue);
    state.board[0][4] = Some(Color::Green);
    let frame = render_board(&state);
    let mut expected = [(0, 0, 0); LED_COUNT];
    expected[0] = (0, 0, 12);
    for (x, y) in [(4, 0), (5, 0), (4, 1), (5, 1)] {
        expected[board_to_led_index(x, y, true)] = (12, 0, 0);
    }
    assert_eq!(frame, expected);
    assert_eq!(frame[99], (12, 0, 0));
    assert_eq!(frame[100], (12, 0, 0));
}

#[test]
fn piece_is_not_drawn_when_the_game_is_over() {
    let mut state = GameState::default();
    state.board[0][4] = Some(Color::Green);
    let mut expected = [(0, 0, 0); LED_COUNT];
    expected[99] = (0, 12, 0);
    assert_eq!(render_board(&state), expected);
}

#[test]
fn blocks_off_the_board_are_not_drawn() {
    let mut state = running();
    state.piece_x = -1;
    state.piece_y = 19;
    let mut expected = [(0, 0, 0); LED_COUNT];
    expected[0] = (12, 0, 0);
    assert_eq!(render_board(&state), expected);
    state.piece_x = 100;
    state.piece_y = -100;
    assert_eq!(render_board(&state), [(0, 0, 0); LED_COUNT]);
}

#[test]
fn drawable_ends_where_counting_ends() {
    let mut state = running();
    state.piece_x = 126;
    assert!(state.is_drawable());
    state.piece_x = 127;
    assert!(!state.is_drawable());
    state.game_over = true;
    assert!(state.is_drawable());
    let mut below = running();
    below.piece_y = -128;
    assert!(below.is_drawable());
    below.current_piece[3].1 = -1;
    assert!(!below.is_drawable());
}

#[test]
fn whole_piece_of_a_game_is_seen() {
    let mut game = Game::new(TetrisRng::new());
    game.rotate();
    game.board[19][9] = Some(Color::Yellow);
    let frame = render_board(&extract_game_state(&game));
    let mut expected = [(0, 0, 0); LED_COUNT];
    expected[199] = (6, 6, 0);
    for y in 0..4 {
        expected[board_to_led_index(5, y, true)] = (0, 6, 6);
    }
    assert_eq!(frame, expected);
}

#[test]
fn renderer_draws_only_what_is_new() {
    let mut renderer = Renderer::new();
    assert_eq!(renderer.last_state, GameState::default());
    assert_eq!(renderer.receive(GameState::default()), None);
    let state = extract_game_state(&Game::new(TetrisRng::new()));
    assert_eq!(renderer.receive(state), Some(render_board(&state)));
    assert_eq!(renderer.last_state, state);
    let scored = GameState { score: 500, ..state };
    assert_eq!(renderer.receive(scored), None);
    assert_eq!(renderer.last_state, state);
    let moved = GameState { piece_y: 1, ..state };
    assert_eq!(renderer.receive(moved), Some(render_board(&moved)));
    assert_eq!(renderer.last_state, moved);
}

#[test]
fn lights_are_sent_in_order() {
    let mut state = running();
    state.board[19][0] = Some(Color::Blue);
    let frame = render_board(&state);
    assert_eq!(next_transmission(&frame, 0, true), Some(create_led_bits(0, 0, 12)));
    let mut sent = 0;
    while let Some(data) = next_transmission(&frame, sent, true) {
        let (r, g, b) = frame[sent];
        assert_eq!(data, create_led_bits(r, g, b));
        sent += 1;
    }
    assert_eq!(sent, LED_COUNT);
}

#[test]
fn sending_stops_at_the_first_failure() {
    let frame = render_board(&running());
    assert!(next_transmission(&frame, 3, true).is_some());
    assert_eq!(next_transmission(&frame, 3, false), None);
    assert_eq!(next_transmission(&frame, LED_COUNT, true), None);
    assert_eq!(next_transmission(&frame, usize::MAX, true), None);
}

#[test]
fn unchanged_states_shine_the_same() {
    let state = extract_game_state(&Game::new(TetrisRng::new()));
    let scored = GameState { score: 700, ..state };
    assert!(!state_changed(&state, &scored));
    assert_eq!(render_board(&state), render_board(&scored));
}
