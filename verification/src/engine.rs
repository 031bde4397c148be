//! The rules of the game, as the `no_std_tetris` crate plays them.
//!
//! Each function here sets up a `tetris_game::Tetris` from a `Game`, makes one
//! call on it and reads the outcome back.
use crate::board::Color;
use crate::game::{Game, GameView, Tetromino};
use crate::rng::TetrisRng;
use tetris_game::Color as Hue;
use tetris_game::Tetris;
use vstd::prelude::*;

verus! {

/// `tetris_game::Color`, the colour of a cell in the outside game. Nothing is
/// claimed of it.
#[verifier::external_type_specification]
#[verifier::external_body]
pub struct ExHue(Hue);

/// The outside game's name for a colour, variant by variant. Nothing is claimed of
/// it.
#[verifier::external_body]
fn hue_of(color: Color) -> (hue: Hue) {
    match color {
        Color::Red => Hue::Red,
        Color::Green => Hue::Green,
        Color::Blue => Hue::Blue,
        Color::Yellow => Hue::Yellow,
        Color::Cyan => Hue::Cyan,
        Color::Magenta => Hue::Magenta,
        Color::White => Hue::White,
    }
}

/// The colour that the outside game names `hue`, variant by variant. Nothing is
/// claimed of it.
#[verifier::external_body]
fn color_of(hue: Hue) -> (color: Color) {
    match hue {
        Hue::Red => Color::Red,
        Hue::Green => Color::Green,
        Hue::Blue => Color::Blue,
        Hue::Yellow => Color::Yellow,
        Hue::Cyan => Color::Cyan,
        Hue::Magenta => Color::Magenta,
        Hue::White => Color::White,
    }
}

/// `tetris_game::Tetris::new`: an empty board, no points, and the straight piece
/// at the top. No number is drawn from the generator.
#[verifier::external_body]
pub(crate) fn new_game(rng: TetrisRng) -> (game: Game)
    ensures
        game@ == GameView::fresh(rng),
{
    let mut rng = rng;
    let tetris = Tetris::new(&mut rng);
    let board = tetris.board.map(|row| row.map(|cell| cell.map(color_of)));
    let color = color_of(tetris.current_piece.color);
    let current_piece = Tetromino { shape: tetris.current_piece.shape, color };
    let (piece_pos, score, game_over) = (tetris.piece_pos, tetris.score, tetris.game_over);
    Game { board, current_piece, piece_pos, score, game_over, rng }
}

/// `tetris_game::Tetris::move_left`: the piece goes one column to the left if it
/// fits there and the game is not over, and the result says whether it went.
#[verifier::external_body]
pub(crate) fn move_left(game: &mut Game) -> (moved: bool)
    requires
        old(game)@.wf(),
    ensures
        final(game)@ == old(game)@.moved_left(),
        moved == old(game)@.may_become(old(game)@.shifted(-1, 0)),
{
    let mut tetris = Tetris::new(&mut game.rng);
    tetris.board = game.board.map(|row| row.map(|cell| cell.map(hue_of)));
    tetris.current_piece.shape = game.current_piece.shape;
    tetris.piece_pos = game.piece_pos;
    tetris.game_over = game.game_over;
    let moved = tetris.move_left();
    game.piece_pos = tetris.piece_pos;
    moved
}

/// `tetris_game::Tetris::move_right`: the piece goes one column to the right if it
/// fits there and the game is not over, and the result says whether it went.
#[verifier::external_body]
pub(crate) fn move_right(game: &mut Game) -> (moved: bool)
    requires
        old(game)@.wf(),
    ensures
        final(game)@ == old(game)@.moved_right(),
        moved == old(game)@.may_become(old(game)@.shifted(1, 0)),
{
    let mut tetris = Tetris::new(&mut game.rng);
    tetris.board = game.board.map(|row| row.map(|cell| cell.map(hue_of)));
    tetris.current_piece.shape = game.current_piece.shape;
    tetris.piece_pos = game.piece_pos;
    tetris.game_over = game.game_over;
    let moved = tetris.move_right();
    game.piece_pos = tetris.piece_pos;
    moved
}

/// `tetris_game::Tetris::rotate`: the piece turns by a quarter, anticlockwise, if it fits
/// there and the game is not over, and the result says whether it turned.
#[verifier::external_body]
pub(crate) fn rotate(game: &mut Game) -> (turned: bool)
    requires
        old(game)@.can_be_tried(),
    ensures
        final(game)@ == old(game)@.attempted(old(game)@.turned_back()),
        turned == old(game)@.may_become(old(game)@.turned_back()),
{
    let mut tetris = Tetris::new(&mut game.rng);
    tetris.board = game.board.map(|row| row.map(|cell| cell.map(hue_of)));
    tetris.current_piece.shape = game.current_piece.shape;
    tetris.piece_pos = game.piece_pos;
    tetris.game_over = game.game_over;
    let turned = tetris.rotate();
    game.current_piece.shape = tetris.current_piece.shape;
    turned
}

/// `tetris_game::Tetris::move_down`: the piece goes one row down if it fits there.
/// If it does not it is locked, the rows it completes are cleared and counted, and
/// the next piece, chosen by one number from the generator, comes in at the top; the
/// game is over if it does not fit there. Nothing happens once the game is over. The
/// result says whether the piece came to rest.
#[verifier::external_body]
pub(crate) fn move_down(game: &mut Game) -> (landed: bool)
    requires
        old(game)@.wf(),
        old(game)@.has_score_room(),
    ensures
        final(game)@ == old(game)@.moved_down(),
        landed == old(game)@.lands(),
{
    let mut tetris = Tetris::new(&mut game.rng);
    tetris.board = game.board.map(|row| row.map(|cell| cell.map(hue_of)));
    tetris.current_piece.shape = game.current_piece.shape;
    tetris.current_piece.color = hue_of(game.current_piece.color);
    tetris.piece_pos = game.piece_pos;
    tetris.score = game.score;
    tetris.game_over = game.game_over;
    let landed = tetris.move_down();
    game.board = tetris.board.map(|row| row.map(|cell| cell.map(color_of)));
    let color = color_of(tetris.current_piece.color);
    game.current_piece = Tetromino { shape: tetris.current_piece.shape, color };
    (game.piece_pos, game.score, game.game_over) = (tetris.piece_pos, tetris.score, tetris.game_over);
    landed
}

} // verus!
