//! The game, move by move, and the generator that feeds it.
use led_tetris::board::{blank_board, Board, Color};
use led_tetris::game::{Game, Tetromino};
use led_tetris::rng::{TetrisRng, SEED};

const SHAPES: [([(u8, u8); 4], Color); 7] = [
    ([(0, 1), (1, 1), (2, 1), (3, 1)], Color::Cyan),
    ([(0, 0), (0, 1), (1, 0), (1, 1)], Color::Yellow),
    ([(0, 1), (1, 1), (2, 1), (1, 0)], Color::Magenta),
    ([(0, 0), (1, 0), (2, 0), (2, 1)], Color::Green),
    ([(0, 1), (1, 1), (2, 1), (2, 0)], Color::Red),
    ([(0, 0), (1, 0), (1, 1), (2, 1)], Color::Blue),
    ([(0, 1), (1, 1), (1, 0), (2, 0)], Color::White),
];

fn blocks(game: &Game) -> Vec<(i32, i32)> {
    let (px, py) = game.piece_pos;
    let shape = game.current_piece.shape;
    shape.iter().map(|&(dx, dy)| (px as i32 + dx as i32, py as i32 + dy as i32)).collect()
}

fn fits(game: &Game) -> bool {
    blocks(game).iter().all(|&(x, y)| {
        (0..10).contains(&x)
            && y < 20
            && (y < 0 || game.board[y as usize][x as usize].is_none())
    })
}

fn expect_attempt(game: &Game, next: Game) -> Game {
    if !game.game_over && fits(&next) {
        next
    } else {
        *game
    }
}

fn expect_left(game: &Game) -> Game {
    let (x, y) = game.piece_pos;
    expect_attempt(game, Game { piece_pos: (x - 1, y), ..*game })
}

fn expect_right(game: &Game) -> Game {
    let (x, y) = game.piece_pos;
    expect_attempt(game, Game { piece_pos: (x + 1, y), ..*game })
}

fn expect_turn(game: &Game) -> Game {
    let mut next = *game;
    for k in 0..4 {
        let (dx, dy) = game.current_piece.shape[k];
        next.current_piece.shape[k] = (3 - dy, dx);
    }
    expect_attempt(game, next)
}

fn expect_down(game: &Game) -> Game {
    let (x, y) = game.piece_pos;
    let below = Game { piece_pos: (x, y + 1), ..*game };
    if game.game_over || fits(&below) {
        return expect_attempt(game, below);
    }
    let mut locked = game.board;
    for (x, y) in blocks(game) {
        locked[y as usize][x as usize] = Some(game.current_piece.color);
    }
    let kept: Vec<[Option<Color>; 10]> =
        locked.iter().filter(|row| row.iter().any(|cell| cell.is_none())).copied().collect();
    let completed = 20 - kept.len();
    let mut board: Board = blank_board();
    for (i, row) in kept.iter().enumerate() {
        board[completed + i] = *row;
    }
    let mut rng = game.rng;
    let (shape, color) = SHAPES[rng.next_random() % 7];
    let mut next = Game {
        board,
        current_piece: Tetromino { shape, color },
        piece_pos: (3, 0),
        score: game.score + 100 * completed as u32,
        game_over: false,
        rng,
    };
    next.game_over = !fits(&next);
    next
}

#[test]
fn generator_gives_its_numbers() {
    let mut rng = TetrisRng::new();
    assert_eq!(rng.state, 0x12345678);
    assert_eq!(rng.state, SEED);
    assert_eq!(rng.next_random(), 2929);
    assert_eq!(rng.state, 0x0b719151);
    assert_eq!(rng.next_random(), 28487);
    assert_eq!(rng.next_random(), 11805);
    assert_eq!(rng.next_random(), 39316);
    assert_eq!(rng.next_random(), 42476);
}

#[test]
fn different_states_have_different_successors() {
    let mut seen = std::collections::HashSet::new();
    for state in (0..=u32::MAX).step_by(65_521) {
        let mut rng = TetrisRng { state };
        rng.next_random();
        assert_ne!(rng.state, state);
        assert!(seen.insert(rng.state));
    }
}

#[test]
fn lower_half_of_the_state_runs_through_all_values() {
    let mut rng = TetrisRng::new();
    let mut seen = vec![false; 65_536];
    for _ in 0..65_536 {
        rng.next_random();
        let low = (rng.state % 65_536) as usize;
        assert!(!seen[low]);
        seen[low] = true;
    }
    assert_eq!(rng.state % 65_536, SEED % 65_536);
    assert_ne!(rng.state, SEED);
}

#[test]
fn turn_is_clockwise() {
    let mut game = Game::new(TetrisRng::new());
    game.current_piece.shape = [(0, 0), (3, 0), (3, 3), (0, 3)];
    assert!(game.rotate());
    // Upper left goes to upper right, upper right to lower right, and so on.
    assert_eq!(game.current_piece.shape, [(3, 0), (3, 3), (0, 3), (0, 0)]);
}

#[test]
fn new_game_begins_with_the_straight_piece() {
    let game = Game::new(TetrisRng { state: 77 });
    assert_eq!(game.board, blank_board());
    assert_eq!(game.current_piece.shape, SHAPES[0].0);
    assert_eq!(game.current_piece.color, Color::Cyan);
    assert_eq!(game.piece_pos, (3, 0));
    assert_eq!(game.score, 0);
    assert!(!game.is_game_over());
    assert_eq!(game.rng, TetrisRng { state: 77 });
}

#[test]
fn piece_moves_until_the_walls() {
    let mut game = Game::new(TetrisRng::new());
    for x in [2, 1, 0] {
        assert!(game.move_left());
        assert_eq!(game.piece_pos, (x, 0));
    }
    assert!(!game.move_left());
    assert_eq!(game.piece_pos, (0, 0));
    for x in 1..=6 {
        assert!(game.move_right());
        assert_eq!(game.piece_pos, (x, 0));
    }
    assert!(!game.move_right());
    assert_eq!(game.piece_pos, (6, 0));
}

#[test]
fn left_and_right_undo_each_other() {
    let start = Game::new(TetrisRng::new());
    let mut game = start;
    assert!(game.move_left() && game.move_right());
    assert_eq!(game, start);
    assert!(game.move_right() && game.move_left());
    assert_eq!(game, start);
}

#[test]
fn four_turns_bring_the_piece_back() {
    let start = Game::new(TetrisRng::new());
    let mut game = start;
    assert!(game.rotate());
    assert_eq!(game.current_piece.shape, [(2, 0), (2, 1), (2, 2), (2, 3)]);
    assert!(game.rotate());
    assert_eq!(game.current_piece.shape, [(3, 2), (2, 2), (1, 2), (0, 2)]);
    assert!(game.rotate() && game.rotate());
    assert_eq!(game, start);
}

#[test]
fn turn_is_refused_where_the_piece_does_not_fit() {
    let mut game = Game::new(TetrisRng::new());
    game.board[3][5] = Some(Color::Red);
    let before = game;
    assert!(!game.rotate());
    assert_eq!(game, before);
}

#[test]
fn first_piece_lands_and_the_next_one_comes() {
    let mut game = Game::new(TetrisRng::new());
    for y in 1..=18 {
        assert!(!game.move_down());
        assert_eq!(game.piece_pos, (3, y));
    }
    assert!(game.move_down());
    let mut board = blank_board();
    for x in 3..7 {
        board[19][x] = Some(Color::Cyan);
    }
    assert_eq!(game.board, board);
    assert_eq!(game.current_piece.shape, SHAPES[3].0);
    assert_eq!(game.current_piece.color, Color::Green);
    assert_eq!(game.piece_pos, (3, 0));
    assert_eq!(game.score, 0);
    assert_eq!(game.rng.state, 0x0b719151);
    assert!(!game.game_over);
}

#[test]
fn completed_rows_are_cleared_and_counted() {
    let mut game = Game::new(TetrisRng::new());
    game.current_piece.shape = [(0, 0), (0, 1), (0, 2), (0, 3)];
    game.piece_pos = (9, 16);
    for y in [16, 17, 19] {
        for x in 0..9 {
            game.board[y][x] = Some(Color::Blue);
        }
    }
    game.board[18][2] = Some(Color::White);
    game.board[15][0] = Some(Color::Red);
    assert!(game.has_score_room());
    assert!(game.move_down());
    let mut board = blank_board();
    board[18][0] = Some(Color::Red);
    board[19][2] = Some(Color::White);
    board[19][9] = Some(Color::Cyan);
    assert_eq!(game.board, board);
    assert_eq!(game.score, 300);
}

#[test]
fn game_is_over_when_the_next_piece_does_not_fit() {
    let mut game = Game::new(TetrisRng::new());
    for y in 1..20 {
        game.board[y][0] = Some(Color::Blue);
        game.board[y][4] = Some(Color::Blue);
    }
    game.board[1] = [None; 10];
    assert!(game.move_down());
    assert!(game.is_game_over());
    let over = game;
    assert!(!game.move_left() && !game.move_right() && !game.rotate() && !game.move_down());
    assert_eq!(game, over);
}

#[test]
fn score_room_ends_where_counting_ends() {
    let mut game = Game::new(TetrisRng::new());
    game.piece_pos = (6, 18);
    for x in 0..6 {
        game.board[19][x] = Some(Color::Blue);
    }
    game.score = u32::MAX - 100;
    assert!(game.has_score_room());
    game.score = u32::MAX - 99;
    assert!(!game.has_score_room());
    game.board[19][0] = None;
    assert!(game.has_score_room());
    assert!(game.move_down());
    assert_eq!(game.score, u32::MAX - 99);
}

#[test]
fn thousands_of_moves_follow_the_rules() {
    let mut landings = 0;
    let mut cleared = 0;
    let mut over = 0;
    for seed in 0..40u32 {
        let mut dice = TetrisRng { state: seed.wrapping_mul(2654435761) };
        let mut game = Game::new(TetrisRng { state: seed });
        if seed % 2 == 0 {
            for y in 8..20 {
                for x in 0..10 {
                    if x != (y * 3) % 10 {
                        game.board[y][x] = Some(SHAPES[(x + y) % 7].1);
                    }
                }
            }
        }
        for _ in 0..600 {
            let before = game;
            match dice.next_random() % 6 {
                0 => {
                    let moved = game.move_left();
                    assert_eq!(game, expect_left(&before));
                    assert_eq!(moved, game != before);
                }
                1 => {
                    let moved = game.move_right();
                    assert_eq!(game, expect_right(&before));
                    assert_eq!(moved, game != before);
                }
                2 => {
                    let turned = game.rotate();
                    assert_eq!(game, expect_turn(&before));
                    let next = Game { piece_pos: before.piece_pos, ..game };
                    assert!(turned || next == before);
                }
                _ => {
                    assert!(game.has_score_room());
                    let landed = game.move_down();
                    assert_eq!(game, expect_down(&before));
                    assert_eq!(landed, game.rng != before.rng);
                    landings += if landed { 1 } else { 0 };
                    cleared += (game.score - before.score) / 100;
                }
            }
            assert!(game.game_over || fits(&game));
            assert!(game.board.iter().all(|row| row.iter().any(|cell| cell.is_none())));
            over += if game.game_over && !before.game_over { 1 } else { 0 };
        }
    }
    assert!(landings > 100);
    assert!(cleared > 0);
    assert!(over > 0);
}
