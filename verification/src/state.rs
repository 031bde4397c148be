//! A picture of the game: what the lights have to know of it.
use crate::board::{blank_board, Board, Color, BOARD_HEIGHT, BOARD_WIDTH};
use crate::game::Game;
use crate::leds::{Rgb, BLACK};
use vstd::prelude::*;

verus! {

/// What is handed from the game to the renderer.
#[derive(Clone, Copy, Debug, PartialEq, Eq)]
pub struct GameState {
    /// The locked cells.
    pub board: Board,
    pub current_color: Color,
    /// The blocks of the piece, from its upper left corner.
    pub current_piece: [(i8, i8); 4],
    /// Column of the piece's upper left corner.
    pub piece_x: i8,
    /// Row of the piece's upper left corner.
    pub piece_y: i8,
    pub score: u32,
    pub game_over: bool,
}

/// How a cell shines that holds `cell`.
pub open spec fn light_of(cell: Option<Color>) -> Rgb {
    match cell {
        Some(color) => crate::leds::rgb(color),
        None => BLACK,
    }
}

impl GameState {
    /// Column and row of block `k` of the piece.
    pub open spec fn block(self, k: int) -> (int, int) {
        (self.piece_x + self.current_piece@[k].0, self.piece_y + self.current_piece@[k].1)
    }

    /// Whether a block of the piece lies in column `x` and row `y`.
    pub open spec fn covers(self, x: int, y: int) -> bool {
        exists|k: int| 0 <= k < 4 && #[trigger] self.block(k) == (x, y)
    }

    /// Where the piece is to be drawn the places of its blocks can be counted.
    pub open spec fn drawable(self) -> bool {
        !self.game_over ==> forall|k: int|
            0 <= k < 4 ==> i8::MIN <= (#[trigger] self.block(k)).0 <= i8::MAX && i8::MIN
                <= self.block(k).1 <= i8::MAX
    }

    /// What is seen in column `x` and row `y`: the piece, as long as the game is not
    /// over, and else the locked cell.
    pub open spec fn seen(self, x: int, y: int) -> Option<Color> {
        if !self.game_over && self.covers(x, y) {
            Some(self.current_color)
        } else {
            self.board@[y]@[x]
        }
    }

    /// How the light of column `x` and row `y` shines.
    pub open spec fn shown(self, x: int, y: int) -> Rgb {
        light_of(self.seen(x, y))
    }

    /// Whether `self` and `other` are the same picture: the same piece in the same place,
    /// and the same cells locked in the same colours. The score does not count.
    pub open spec fn same_look(self, other: GameState) -> bool {
        &&& self.game_over == other.game_over
        &&& self.current_color == other.current_color
        &&& self.piece_x == other.piece_x
        &&& self.piece_y == other.piece_y
        &&& self.current_piece@ == other.current_piece@
        &&& forall|x: int, y: int|
            crate::board::on_board(x, y) ==> #[trigger] self.board@[y]@[x] == other.board@[y]@[x]
    }

    /// Whether this is the picture of `game`.
    pub open spec fn depicts(self, game: Game) -> bool {
        &&& self.board == game.board
        &&& self.current_color == game.current_piece.color
        &&& forall|k: int|
            0 <= k < 4 ==> #[trigger] self.current_piece@[k] == (
                game.current_piece.shape@[k].0 as i8,
                game.current_piece.shape@[k].1 as i8,
            )
        &&& self.piece_x == game.piece_pos.0
        &&& self.piece_y == game.piece_pos.1
        &&& self.score == game.score
        &&& self.game_over == game.game_over
    }

    /// Whether this is the picture before there is any game: an empty board, and a
    /// red square that is not drawn.
    pub open spec fn is_initial(self) -> bool {
        &&& crate::board::grid(self.board) == crate::board::blank_grid()
        &&& self.current_color == Color::Red
        &&& self.current_piece@ == seq![(0i8, 0i8), (1i8, 0i8), (0i8, 1i8), (1i8, 1i8)]
        &&& self.piece_x == 4
        &&& self.piece_y == 0
        &&& self.score == 0
        &&& self.game_over
    }
}

impl Default for GameState {
    /// The picture before there is any game.
    fn default() -> (state: Self)
        ensures
            state.is_initial(),
    {
        GameState {
            board: blank_board(),
            current_color: Color::Red,
            current_piece: [(0, 0), (1, 0), (0, 1), (1, 1)],
            piece_x: 4,
            piece_y: 0,
            score: 0,
            game_over: true,
        }
    }
}

impl GameState {
    /// Whether the places of the piece's blocks can be counted, where it is drawn.
    pub fn is_drawable(&self) -> (drawable: bool)
        ensures
            drawable == self.drawable(),
    {
        if self.game_over {
            return true;
        }
        let mut i: usize = 0;
        while i < 4
            invariant
                i <= 4,
                !self.game_over,
                forall|k: int|
                    0 <= k < i ==> i8::MIN <= (#[trigger] self.block(k)).0 <= i8::MAX && i8::MIN
                        <= self.block(k).1 <= i8::MAX,
            decreases 4 - i,
        {
            let (dx, dy) = self.current_piece[i];
            assert(self.block(i as int) == (self.piece_x + dx, self.piece_y + dy));
            if self.piece_x.checked_add(dx).is_none() || self.piece_y.checked_add(dy).is_none() {
                return false;
            }
            i += 1;
        }
        true
    }
}

/// The picture of `game`.
pub fn extract_game_state(game: &Game) -> (state: GameState)
    ensures
        state.depicts(*game),
        game@.wf() ==> state.drawable(),
{
    let mut state: GameState = GameState::default();
    state.score = game.score;
    state.game_over = game.is_game_over();
    state.current_color = game.current_piece.color;
    let mut i: usize = 0;
    while i < 4
        invariant
            i <= 4,
            state.score == game.score,
            state.game_over == game.game_over,
            state.current_color == game.current_piece.color,
            forall|k: int|
                0 <= k < i ==> #[trigger] state.current_piece@[k] == (
                    game.current_piece.shape@[k].0 as i8,
                    game.current_piece.shape@[k].1 as i8,
                ),
        decreases 4 - i,
    {
        let (dx, dy) = game.current_piece.shape[i];
        state.current_piece[i] = (dx as i8, dy as i8);
        i += 1;
    }
    state.piece_x = game.piece_pos.0;
    state.piece_y = game.piece_pos.1;
    state.board = game.board;
    proof {
        if game@.wf() {
            lemma_blocks_agree(*game, state);
        }
    }
    state
}

/// Whether `after` has to be drawn when `before` is what the lights show.
pub fn state_changed(before: &GameState, after: &GameState) -> (changed: bool)
    ensures
        changed == !before.same_look(*after),
{
    if before.game_over != after.game_over {
        return true;
    }
    if before.current_color != after.current_color {
        return true;
    }
    if before.piece_x != after.piece_x || before.piece_y != after.piece_y {
        return true;
    }
    let mut i: usize = 0;
    while i < 4
        invariant
            i <= 4,
            forall|k: int| 0 <= k < i ==> before.current_piece@[k] == after.current_piece@[k],
        decreases 4 - i,
    {
        let (old_dx, old_dy) = before.current_piece[i];
        let (new_dx, new_dy) = after.current_piece[i];
        if old_dx != new_dx || old_dy != new_dy {
            assert(before.current_piece@[i as int] != after.current_piece@[i as int]);
            return true;
        }
        i += 1;
    }
    assert(before.current_piece@ =~= after.current_piece@);
    let mut y: usize = 0;
    while y < BOARD_HEIGHT
        invariant
            y <= BOARD_HEIGHT,
            forall|u: int, v: int|
                0 <= u < BOARD_WIDTH && 0 <= v < y ==> #[trigger] before.board@[v]@[u]
                    == after.board@[v]@[u],
        decreases BOARD_HEIGHT - y,
    {
        let mut x: usize = 0;
        while x < BOARD_WIDTH
            invariant
                x <= BOARD_WIDTH,
                y < BOARD_HEIGHT,
                forall|u: int|
                    0 <= u < x ==> #[trigger] before.board@[y as int]@[u]
                        == after.board@[y as int]@[u],
            decreases BOARD_WIDTH - x,
        {
            let same: bool = match (before.board[y][x], after.board[y][x]) {
                (Some(old_color), Some(new_color)) => old_color == new_color,
                (None, None) => true,
                _ => false,
            };
            if !same {
                assert(crate::board::on_board(x as int, y as int));
                return true;
            }
            x += 1;
        }
        y += 1;
    }
    false
}

/// The piece lies in the picture where it lies in the game.
proof fn lemma_blocks_agree(game: Game, state: GameState)
    requires
        game@.wf(),
        state.depicts(game),
    ensures
        state.drawable(),
        forall|k: int| 0 <= k < 4 ==> #[trigger] state.block(k) == game@.block(k),
        forall|k: int| 0 <= k < 4 ==> state.block(k) == #[trigger] game@.block(k),
{
    assert forall|k: int| 0 <= k < 4 implies #[trigger] state.block(k) == game@.block(k) by {
        assert(game@.shape[k].0 <= 3 && game@.shape[k].1 <= 3);
        assert(state.current_piece@[k] == (
            game.current_piece.shape@[k].0 as i8,
            game.current_piece.shape@[k].1 as i8,
        ));
    }
    assert forall|k: int| 0 <= k < 4 implies state.block(k) == #[trigger] game@.block(k) by {
        assert(state.block(k) == game@.block(k));
    }
}

/// The picture of a game shows the locked cells, and over them the whole piece as
/// long as the game is not over.
pub proof fn law_picture_shows_the_game(game: Game, state: GameState, x: int, y: int)
    requires
        game@.wf(),
        state.depicts(game),
        crate::board::on_board(x, y),
    ensures
        state.seen(x, y) == if game@.game_over {
            game@.grid[y][x]
        } else {
            game@.locked()[y][x]
        },
        forall|k: int|
            0 <= k < 4 && !game@.game_over ==> state.seen(
                (#[trigger] game@.block(k)).0,
                game@.block(k).1,
            ) == Some(game@.color),
{
    lemma_blocks_agree(game, state);
    assert(state.covers(x, y) == game@.covers(x, y));
}

/// To look the same is an equivalence: what counts is the picture, not the order in
/// which pictures come.
pub proof fn law_same_look_is_an_equivalence(a: GameState, b: GameState, c: GameState)
    ensures
        a.same_look(a),
        a.same_look(b) ==> b.same_look(a),
        a.same_look(b) && b.same_look(c) ==> a.same_look(c),
{
    if a.same_look(b) {
        assert forall|x: int, y: int| crate::board::on_board(x, y) implies
            #[trigger] b.board@[y]@[x] == a.board@[y]@[x] by {
            assert(a.board@[y]@[x] == b.board@[y]@[x]);
        }
        if b.same_look(c) {
            assert forall|x: int, y: int| crate::board::on_board(x, y) implies
                #[trigger] a.board@[y]@[x] == c.board@[y]@[x] by {
                assert(b.board@[y]@[x] == c.board@[y]@[x]);
            }
        }
    }
}

/// A picture that is unchanged needs no drawing: every light would shine as before.
pub proof fn law_unchanged_picture_shines_the_same(a: GameState, b: GameState, x: int, y: int)
    requires
        a.same_look(b),
        crate::board::on_board(x, y),
    ensures
        a.shown(x, y) == b.shown(x, y),
{
    assert forall|k: int| 0 <= k < 4 implies a.block(k) == #[trigger] b.block(k) by {}
    assert forall|k: int| 0 <= k < 4 implies #[trigger] a.block(k) == b.block(k) by {}
    assert(a.covers(x, y) == b.covers(x, y));
    assert(a.board@[y]@[x] == b.board@[y]@[x]);
}

/// The score alone never asks for a new drawing.
pub proof fn law_score_is_not_drawn(state: GameState, score: u32)
    ensures
        state.same_look(GameState { score, ..state }),
{
}

/// A light shines in the colour that is seen in its cell, whichever that is, and is off
/// exactly where none is seen.
pub proof fn law_lights_show_what_is_seen(state: GameState, x: int, y: int)
    ensures
        state.shown(x, y) == (0u8, 0u8, 0u8) <==> state.seen(x, y) is None,
        forall|color: Color|
            state.seen(x, y) == Some(color) ==> state.shown(x, y) == #[trigger] crate::leds::rgb(
                color,
            ),
{
    if state.seen(x, y) is Some {
        let color = state.seen(x, y)->0;
        crate::leds::law_colors_are_distinct_and_lit(color, color);
    }
}

/// A cell that is taken shines in the light of its colour and an empty one is dark.
pub proof fn law_cell_shines_in_its_color(color: Color)
    ensures
        light_of(Some(color)) == crate::leds::rgb(color),
        light_of(Some(color)) != (0u8, 0u8, 0u8),
        light_of(None) == (0u8, 0u8, 0u8),
{
    crate::leds::law_colors_are_distinct_and_lit(color, color);
}

/// What is seen in a cell: the colour of the piece where one of its blocks lies while the
/// game is not over, and otherwise what is locked there.
pub proof fn law_piece_hides_the_board(state: GameState, x: int, y: int)
    ensures
        ({
            let on_piece = exists|k: int|
                0 <= k < 4 && state.piece_x + (#[trigger] state.current_piece@[k]).0 == x
                    && state.piece_y + state.current_piece@[k].1 == y;
            &&& !state.game_over && on_piece ==> state.seen(x, y) == Some(state.current_color)
            &&& state.game_over || !on_piece ==> state.seen(x, y) == state.board@[y]@[x]
        }),
{
    assert(forall|k: int|
        #![trigger state.block(k)]
        #![trigger state.current_piece@[k]]
        state.block(k) == (
            state.piece_x + state.current_piece@[k].0,
            state.piece_y + state.current_piece@[k].1,
        ));
    if state.covers(x, y) {
        let k = choose|k: int| 0 <= k < 4 && #[trigger] state.block(k) == (x, y);
        assert(state.piece_x + state.current_piece@[k].0 == x && state.piece_y
            + state.current_piece@[k].1 == y);
    }
}

/// Two pictures look the same exactly if they differ in nothing but the score.
pub proof fn law_only_the_score_may_differ(a: GameState, b: GameState)
    ensures
        a.same_look(b) <==> a == (GameState { score: a.score, ..b }),
{
    if a.same_look(b) {
        assert forall|y: int| 0 <= y < 20 implies a.board@[y] == b.board@[y] by {
            assert forall|x: int| 0 <= x < 10 implies a.board@[y]@[x] == b.board@[y]@[x] by {
                assert(crate::board::on_board(x, y));
            }
            assert(a.board@[y]@ =~= b.board@[y]@);
        }
        assert(a.board@ =~= b.board@);
        assert(a.board =~= b.board);
        assert(a.current_piece =~= b.current_piece);
    }
}

/// A picture holds of a game its cells, its piece and where that lies, its score and whether
/// it is over, each as the game has it.
pub proof fn law_picture_holds_every_part(game: Game, state: GameState)
    requires
        forall|k: int|
            0 <= k < 4 ==> (#[trigger] game.current_piece.shape@[k]).0 < 128
                && game.current_piece.shape@[k].1 < 128,
    ensures
        state.depicts(game) <==> {
            &&& forall|x: int, y: int|
                0 <= x < 10 && 0 <= y < 20 ==> #[trigger] state.board@[y]@[x]
                    == game.board@[y]@[x]
            &&& state.current_color == game.current_piece.color
            &&& forall|k: int|
                0 <= k < 4 ==> (#[trigger] state.current_piece@[k]).0
                    == game.current_piece.shape@[k].0 && state.current_piece@[k].1
                    == game.current_piece.shape@[k].1
            &&& state.piece_x == game.piece_pos.0
            &&& state.piece_y == game.piece_pos.1
            &&& state.score == game.score
            &&& state.game_over == game.game_over
        },
{
    if forall|x: int, y: int|
        0 <= x < 10 && 0 <= y < 20 ==> #[trigger] state.board@[y]@[x] == game.board@[y]@[x] {
        assert forall|y: int| 0 <= y < 20 implies state.board@[y] == game.board@[y] by {
            assert(state.board@[y]@ =~= game.board@[y]@);
        }
        assert(state.board@ =~= game.board@);
        assert(state.board =~= game.board);
    }
    if state.depicts(game) {
        assert forall|k: int| 0 <= k < 4 implies (#[trigger] state.current_piece@[k]).0
            == game.current_piece.shape@[k].0 && state.current_piece@[k].1
            == game.current_piece.shape@[k].1 by {
            assert(game.current_piece.shape@[k].0 < 128);
        }
    }
}

/// A piece can be drawn exactly if the game is over or the column and the row of each of its
/// blocks are numbers of eight bits.
pub proof fn law_drawable_means_countable(state: GameState)
    ensures
        state.drawable() <==> state.game_over || forall|k: int|
            0 <= k < 4 ==> -128 <= state.piece_x + (#[trigger] state.current_piece@[k]).0 <= 127
                && -128 <= state.piece_y + state.current_piece@[k].1 <= 127,
{
    assert(forall|k: int|
        #![trigger state.block(k)]
        #![trigger state.current_piece@[k]]
        state.block(k) == (
            state.piece_x + state.current_piece@[k].0,
            state.piece_y + state.current_piece@[k].1,
        ));
    if state.drawable() && !state.game_over {
        assert forall|k: int| 0 <= k < 4 implies -128 <= state.piece_x + (
        #[trigger] state.current_piece@[k]).0 <= 127 && -128 <= state.piece_y
            + state.current_piece@[k].1 <= 127 by {
            assert(i8::MIN <= state.block(k).0 <= i8::MAX);
        }
    }
}

/// There is one picture before there is any game: no cell is taken, a red square stands at
/// the top in the middle, there are no points, and the game counts as over.
pub proof fn law_initial_picture_is_empty(a: GameState, b: GameState)
    requires
        a.is_initial(),
    ensures
        forall|x: int, y: int|
            0 <= x < 10 && 0 <= y < 20 ==> #[trigger] a.board@[y]@[x] is None,
        a.current_color == Color::Red,
        forall|k: int|
            0 <= k < 4 ==> (#[trigger] a.current_piece@[k]).0 == k % 2 && a.current_piece@[k].1
                == k / 2,
        a.piece_x == 4 && a.piece_y == 0 && a.score == 0 && a.game_over,
        b.is_initial() ==> a == b,
{
    assert forall|x: int, y: int| 0 <= x < 10 && 0 <= y < 20 implies
        #[trigger] a.board@[y]@[x] is None by {
        assert(crate::board::grid(a.board)[y][x] == crate::board::blank_grid()[y][x]);
    }
    assert forall|k: int| 0 <= k < 4 implies (#[trigger] a.current_piece@[k]).0 == k % 2
        && a.current_piece@[k].1 == k / 2 by {
        assert(k == 0 || k == 1 || k == 2 || k == 3);
    }
    if b.is_initial() {
        assert forall|y: int| 0 <= y < 20 implies a.board@[y] == b.board@[y] by {
            assert forall|x: int| 0 <= x < 10 implies a.board@[y]@[x] == b.board@[y]@[x] by {
                assert(crate::board::grid(a.board)[y][x] == crate::board::grid(b.board)[y][x]);
            }
            assert(a.board@[y]@ =~= b.board@[y]@);
        }
        assert(a.board@ =~= b.board@);
        assert(a.board =~= b.board);
        assert(a.current_piece@ =~= b.current_piece@);
        assert(a.current_piece =~= b.current_piece);
    }
}

} // verus!
