//! The game: what it holds and what the player's moves do to it.
use crate::board::{Board, Color, Grid, BOARD_HEIGHT, BOARD_WIDTH};
use crate::rng::TetrisRng;
use vstd::prelude::*;

verus! {

/// Points for a completed row.
pub const ROW_SCORE: u32 = 100;

/// A piece: where its four blocks lie (column and row, from its upper left
/// corner) and its colour.
#[derive(Clone, Copy, Debug, PartialEq, Eq)]
pub struct Tetromino {
    pub shape: [(u8, u8); 4],
    pub color: Color,
}

/// A game in progress, or one that is over.
#[derive(Clone, Copy, Debug, PartialEq, Eq)]
pub struct Game {
    /// The locked cells.
    pub board: Board,
    /// The piece that falls.
    pub current_piece: Tetromino,
    /// Column and row of the piece's upper left corner.
    pub piece_pos: (i8, i8),
    pub score: u32,
    pub game_over: bool,
    /// Chooses the pieces to come.
    pub rng: TetrisRng,
}

/// What a `Game` holds, in mathematical terms.
#[verifier::ext_equal]
pub struct GameView {
    pub grid: Grid,
    pub shape: Seq<(int, int)>,
    pub color: Color,
    pub pos: (int, int),
    pub score: int,
    pub game_over: bool,
    pub rng: TetrisRng,
}

impl View for Game {
    type V = GameView;

    open spec fn view(&self) -> GameView {
        GameView {
            grid: crate::board::grid(self.board),
            shape: Seq::new(
                4,
                |k: int|
                    (
                        self.current_piece.shape@[k].0 as int,
                        self.current_piece.shape@[k].1 as int,
                    ),
            ),
            color: self.current_piece.color,
            pos: (self.piece_pos.0 as int, self.piece_pos.1 as int),
            score: self.score as int,
            game_over: self.game_over,
            rng: self.rng,
        }
    }
}

/// The seven tetrominoes, each with its colour, by their number.
pub open spec fn tetromino(number: int) -> (Seq<(int, int)>, Color) {
    if number == 0 {
        (seq![(0, 1), (1, 1), (2, 1), (3, 1)], Color::Cyan)
    } else if number == 1 {
        (seq![(0, 0), (0, 1), (1, 0), (1, 1)], Color::Yellow)
    } else if number == 2 {
        (seq![(0, 1), (1, 1), (2, 1), (1, 0)], Color::Magenta)
    } else if number == 3 {
        (seq![(0, 0), (1, 0), (2, 0), (2, 1)], Color::Green)
    } else if number == 4 {
        (seq![(0, 1), (1, 1), (2, 1), (2, 0)], Color::Red)
    } else if number == 5 {
        (seq![(0, 0), (1, 0), (1, 1), (2, 1)], Color::Blue)
    } else {
        (seq![(0, 1), (1, 1), (1, 0), (2, 0)], Color::White)
    }
}

impl GameView {
    /// A game that begins: an empty board and the straight piece at the top.
    pub open spec fn fresh(rng: TetrisRng) -> GameView {
        GameView {
            grid: crate::board::blank_grid(),
            shape: tetromino(0).0,
            color: tetromino(0).1,
            pos: (3, 0),
            score: 0,
            game_over: false,
            rng,
        }
    }

    /// Column and row of block `k` of the piece.
    pub open spec fn block(self, k: int) -> (int, int) {
        (self.pos.0 + self.shape[k].0, self.pos.1 + self.shape[k].1)
    }

    /// Whether a block of the piece lies in column `x` and row `y`.
    pub open spec fn covers(self, x: int, y: int) -> bool {
        exists|k: int| 0 <= k < 4 && #[trigger] self.block(k) == (x, y)
    }

    /// Whether a block may lie in column `x` and row `y`: between the side walls,
    /// above the floor, and not on a locked cell.
    pub open spec fn is_free(self, x: int, y: int) -> bool {
        0 <= x < BOARD_WIDTH && y < BOARD_HEIGHT && (0 <= y ==> self.grid[y][x] is None)
    }

    /// Whether all blocks of the piece lie where they may.
    pub open spec fn fits(self) -> bool {
        forall|k: int|
            0 <= k < 4 ==> self.is_free((#[trigger] self.block(k)).0, self.block(k).1)
    }

    /// The game is one that can be played on: the grid has the size of the board,
    /// and the piece lies on it within a square of four by four.
    pub open spec fn wf(self) -> bool {
        &&& self.grid.len() == BOARD_HEIGHT
        &&& forall|y: int| 0 <= y < BOARD_HEIGHT ==> (#[trigger] self.grid[y]).len() == BOARD_WIDTH
        &&& self.shape.len() == 4
        &&& forall|k: int|
            0 <= k < 4 ==> 0 <= (#[trigger] self.shape[k]).0 <= 3 && 0 <= self.shape[k].1 <= 3
        &&& forall|k: int|
            0 <= k < 4 ==> crate::board::on_board((#[trigger] self.block(k)).0, self.block(k).1)
        &&& 0 <= self.pos.1
    }

    /// Until the game is over the piece lies on no locked cell.
    pub open spec fn is_apart(self) -> bool {
        !self.game_over ==> self.fits()
    }

    /// No row of the board is complete.
    pub open spec fn is_tidy(self) -> bool {
        forall|y: int|
            0 <= y < BOARD_HEIGHT ==> !crate::board::complete(#[trigger] self.grid[y])
    }

    /// The piece one step aside or below, wherever that is.
    pub open spec fn shifted(self, dx: int, dy: int) -> GameView {
        GameView { pos: (self.pos.0 + dx, self.pos.1 + dy), ..self }
    }

    /// The piece turned by a quarter, clockwise, within its square of four by four.
    pub open spec fn turned(self) -> GameView {
        GameView {
            shape: Seq::new(4, |k: int| (3 - self.shape[k].1, self.shape[k].0)),
            ..self
        }
    }

    /// The piece turned by a quarter, anticlockwise, within its square of four by four.
    pub open spec fn turned_back(self) -> GameView {
        GameView {
            shape: Seq::new(4, |k: int| (self.shape[k].1, 3 - self.shape[k].0)),
            ..self
        }
    }

    /// The piece turned by a half within its square of four by four.
    pub open spec fn turned_around(self) -> GameView {
        GameView {
            shape: Seq::new(4, |k: int| (3 - self.shape[k].0, 3 - self.shape[k].1)),
            ..self
        }
    }

    /// The piece can be tried in any direction where it is: the grid has the size of the
    /// board, and the piece's square of four by four is not far off it.
    pub open spec fn can_be_tried(self) -> bool {
        &&& self.grid.len() == BOARD_HEIGHT
        &&& forall|y: int| 0 <= y < BOARD_HEIGHT ==> (#[trigger] self.grid[y]).len() == BOARD_WIDTH
        &&& self.shape.len() == 4
        &&& forall|k: int|
            0 <= k < 4 ==> 0 <= (#[trigger] self.shape[k]).0 <= 3 && 0 <= self.shape[k].1 <= 3
        &&& -3 <= self.pos.0 < BOARD_WIDTH
        &&& 0 <= self.pos.1 < BOARD_HEIGHT
    }

    /// Whether the game takes the step to `next`.
    pub open spec fn may_become(self, next: GameView) -> bool {
        !self.game_over && next.fits()
    }

    /// The game after an attempt to step to `next`.
    pub open spec fn attempted(self, next: GameView) -> GameView {
        if self.may_become(next) {
            next
        } else {
            self
        }
    }

    /// Whether the piece comes to rest when it is moved down.
    pub open spec fn lands(self) -> bool {
        !self.game_over && !self.shifted(0, 1).fits()
    }

    /// The grid with the piece locked into it.
    pub open spec fn locked(self) -> Grid {
        Seq::new(
            BOARD_HEIGHT as nat,
            |y: int|
                Seq::new(
                    BOARD_WIDTH as nat,
                    |x: int|
                        if self.covers(x, y) {
                            Some(self.color)
                        } else {
                            self.grid[y][x]
                        },
                ),
        )
    }

    /// The rows that stay when the piece has been locked.
    pub open spec fn kept(self) -> Grid {
        self.locked().filter(|row: Seq<Option<Color>>| !crate::board::complete(row))
    }

    /// How many rows the piece completes when it is locked.
    pub open spec fn completed(self) -> int {
        BOARD_HEIGHT - self.kept().len()
    }

    /// The grid after the piece has come to rest: the completed rows are gone, the
    /// others have moved down, and empty rows have come in from above.
    pub open spec fn cleared(self) -> Grid {
        Seq::new(self.completed() as nat, |y: int| crate::board::blank_row()) + self.kept()
    }

    /// The game with the piece locked, the completed rows cleared and their points
    /// counted.
    pub open spec fn settled(self) -> GameView {
        GameView {
            grid: self.cleared(),
            score: self.score + ROW_SCORE * self.completed(),
            ..self
        }
    }

    /// The game with the next piece at the top, whether or not it fits there.
    pub open spec fn entered(self) -> GameView {
        let rng = self.rng.advanced();
        let (shape, color) = tetromino(rng.number() % 7);
        GameView { shape, color, pos: (3, 0), rng, ..self }
    }

    /// The game after the piece has come to rest: it is over if the next piece does not
    /// fit.
    pub open spec fn landed(self) -> GameView {
        let next = self.settled().entered();
        GameView { game_over: !next.fits(), ..next }
    }

    /// The game after its piece was to move left.
    pub open spec fn moved_left(self) -> GameView {
        self.attempted(self.shifted(-1, 0))
    }

    /// The game after its piece was to move right.
    pub open spec fn moved_right(self) -> GameView {
        self.attempted(self.shifted(1, 0))
    }

    /// The game after its piece was to turn.
    pub open spec fn rotated(self) -> GameView {
        self.attempted(self.turned())
    }

    /// The game after its piece was to move down.
    pub open spec fn moved_down(self) -> GameView {
        if self.lands() {
            self.landed()
        } else {
            self.attempted(self.shifted(0, 1))
        }
    }

    /// Whether the score after moving down can be counted.
    pub open spec fn has_score_room(self) -> bool {
        self.moved_down().score <= u32::MAX
    }
}

impl Game {
    /// A new game that chooses its pieces by `rng`.
    pub fn new(rng: TetrisRng) -> (game: Game)
        ensures
            game@ == GameView::fresh(rng),
            game@.wf(),
            game@.is_apart(),
    {
        proof {
            law_new_game_is_sound(rng);
        }
        crate::engine::new_game(rng)
    }

    /// Whether the game is over.
    pub fn is_game_over(&self) -> (over: bool)
        ensures
            over == self@.game_over,
    {
        self.game_over
    }

    /// Moves the piece one column to the left where it fits; tells whether it moved.
    pub fn move_left(&mut self) -> (moved: bool)
        requires
            old(self)@.wf(),
        ensures
            final(self)@ == old(self)@.moved_left(),
            moved == old(self)@.may_become(old(self)@.shifted(-1, 0)),
            final(self)@.wf(),
    {
        proof {
            law_moves_keep_the_game_playable(self@);
        }
        crate::engine::move_left(self)
    }

    /// Moves the piece one column to the right where it fits; tells whether it moved.
    pub fn move_right(&mut self) -> (moved: bool)
        requires
            old(self)@.wf(),
        ensures
            final(self)@ == old(self)@.moved_right(),
            moved == old(self)@.may_become(old(self)@.shifted(1, 0)),
            final(self)@.wf(),
    {
        proof {
            law_moves_keep_the_game_playable(self@);
        }
        crate::engine::move_right(self)
    }

    /// Turns the piece by a quarter, clockwise, where it fits; tells whether it turned.
    pub fn rotate(&mut self) -> (turned: bool)
        requires
            old(self)@.wf(),
        ensures
            final(self)@ == old(self)@.rotated(),
            turned == old(self)@.may_become(old(self)@.turned()),
            final(self)@.wf(),
    {
        // The engine turns anticlockwise, so the piece is turned around first.
        let ghost before = self@;
        proof {
            law_moves_keep_the_game_playable(before);
            lemma_clockwise_is_around_and_back(before);
        }
        let shape: [(u8, u8); 4] = self.current_piece.shape;
        assert forall|k: int| 0 <= k < 4 implies (#[trigger] shape@[k]).0 <= 3 && shape@[k].1
            <= 3 by {
            assert(before.shape[k].0 <= 3 && before.shape[k].1 <= 3);
        }
        let mut around: [(u8, u8); 4] = shape;
        let mut i: usize = 0;
        while i < 4
            invariant
                i <= 4,
                forall|k: int|
                    0 <= k < 4 ==> (#[trigger] shape@[k]).0 <= 3 && shape@[k].1 <= 3,
                forall|k: int|
                    0 <= k < i ==> #[trigger] around@[k] == (
                        (3 - shape@[k].0) as u8,
                        (3 - shape@[k].1) as u8,
                    ),
            decreases 4 - i,
        {
            let (x, y) = shape[i];
            assert(shape@[i as int].0 <= 3);
            around[i] = (3 - x, 3 - y);
            i += 1;
        }
        self.current_piece.shape = around;
        assert(self@ =~= before.turned_around());
        let turned: bool = crate::engine::rotate(self);
        if !turned {
            self.current_piece.shape = shape;
            assert(self@ =~= before);
        }
        turned
    }

    /// Moves the piece one row down, or lets it come to rest where it does not fit;
    /// tells whether it came to rest.
    pub fn move_down(&mut self) -> (landed: bool)
        requires
            old(self)@.wf(),
            old(self)@.has_score_room(),
        ensures
            final(self)@ == old(self)@.moved_down(),
            landed == old(self)@.lands(),
            final(self)@.wf(),
    {
        proof {
            law_moves_keep_the_game_playable(self@);
        }
        crate::engine::move_down(self)
    }

    /// Whether the score can take what moving the piece down may add to it.
    pub fn has_score_room(&self) -> (room: bool)
        requires
            self@.wf(),
        ensures
            room == self@.has_score_room(),
    {
        let mut probe: Game = *self;
        probe.score = 0;
        proof {
            lemma_score_counts_apart(self@);
            lemma_cleared_grid(self@);
            assert(probe@ =~= (GameView { score: 0, ..self@ }));
        }
        probe.move_down();
        probe.score <= u32::MAX - self.score
    }
}

/// The grid after a piece has come to rest has the size of the board and no
/// complete row.
proof fn lemma_cleared_grid(game: GameView)
    requires
        game.wf(),
    ensures
        0 <= game.completed() <= BOARD_HEIGHT,
        game.cleared().len() == BOARD_HEIGHT,
        forall|y: int|
            0 <= y < BOARD_HEIGHT ==> (#[trigger] game.cleared()[y]).len() == BOARD_WIDTH
                && !crate::board::complete(game.cleared()[y]),
{
    let keeps = |row: Seq<Option<Color>>| !crate::board::complete(row);
    let locked = game.locked();
    locked.lemma_filter_len(keeps);
    assert forall|y: int| 0 <= y < BOARD_HEIGHT implies (#[trigger] game.cleared()[y]).len()
        == BOARD_WIDTH && !crate::board::complete(game.cleared()[y]) by {
        if y < game.completed() {
            assert(game.cleared()[y] == crate::board::blank_row());
            assert(crate::board::blank_row()[0] is None);
        } else {
            let i = y - game.completed();
            assert(game.cleared()[y] == game.kept()[i]);
            locked.lemma_filter_pred(keeps, i);
            locked.lemma_filter_contains_rev(keeps, game.kept()[i]);
        }
    }
}

/// A new game can be played: its piece lies on the board and on no locked cell, and no
/// row is complete.
pub proof fn law_new_game_is_sound(rng: TetrisRng)
    ensures
        GameView::fresh(rng).wf(),
        GameView::fresh(rng).is_apart(),
        GameView::fresh(rng).is_tidy(),
{
    assert forall|y: int| 0 <= y < BOARD_HEIGHT implies !crate::board::complete(
        #[trigger] GameView::fresh(rng).grid[y],
    ) by {
        assert(crate::board::blank_grid()[y][0] is None);
    }
}

/// Every move keeps the game playable.
pub proof fn law_moves_keep_the_game_playable(game: GameView)
    requires
        game.wf(),
    ensures
        game.moved_left().wf(),
        game.moved_right().wf(),
        game.rotated().wf(),
        game.moved_down().wf(),
{
    lemma_cleared_grid(game);
}

/// A quarter turn is a half turn and a quarter turn back, and the piece can be tried in
/// between.
proof fn lemma_clockwise_is_around_and_back(game: GameView)
    requires
        game.wf(),
    ensures
        game.turned_around().can_be_tried(),
        game.turned_around().turned_back() == game.turned(),
{
    assert(game.turned_around().turned_back() =~= game.turned());
    assert(crate::board::on_board(game.block(0).0, game.block(0).1));
}

/// What moving down adds to the score does not depend on the score.
proof fn lemma_score_counts_apart(game: GameView)
    requires
        game.wf(),
    ensures
        (GameView { score: 0, ..game }).wf(),
        (GameView { score: 0, ..game }).moved_down().score == game.moved_down().score - game.score,
{
    let probe = GameView { score: 0, ..game };
    assert(forall|k: int| 0 <= k < 4 ==> game.block(k) == #[trigger] probe.block(k));
    assert forall|x: int, y: int| game.covers(x, y) == probe.covers(x, y) by {
        if game.covers(x, y) {
            let k = choose|k: int| 0 <= k < 4 && #[trigger] game.block(k) == (x, y);
            assert(probe.block(k) == (x, y));
        }
    }
    assert(probe.locked() =~~= game.locked());
    let (below, probe_below) = (game.shifted(0, 1), probe.shifted(0, 1));
    assert(forall|k: int|
        #![trigger below.block(k)]
        #![trigger probe_below.block(k)]
        0 <= k < 4 ==> below.block(k) == probe_below.block(k));
}

/// Until the game is over the piece never lies on a locked cell: no move changes that.
pub proof fn law_piece_never_overlaps(game: GameView)
    requires
        game.wf(),
        game.is_apart(),
    ensures
        game.moved_left().is_apart(),
        game.moved_right().is_apart(),
        game.rotated().is_apart(),
        game.moved_down().is_apart(),
{
    let (next, landed) = (game.settled().entered(), game.landed());
    assert(forall|k: int| 0 <= k < 4 ==> #[trigger] landed.block(k) == next.block(k));
}

/// No row stays complete: a landing leaves none behind, and no move makes one.
pub proof fn law_no_row_stays_complete(game: GameView)
    requires
        game.wf(),
    ensures
        game.lands() ==> game.moved_down().is_tidy(),
        game.is_tidy() ==> {
            &&& game.moved_left().is_tidy()
            &&& game.moved_right().is_tidy()
            &&& game.rotated().is_tidy()
            &&& game.moved_down().is_tidy()
        },
{
    lemma_cleared_grid(game);
}

/// A filter drops no more items than there are positions at which it may.
proof fn lemma_filter_drops_at_most(
    rows: Grid,
    keeps: spec_fn(Seq<Option<Color>>) -> bool,
    dropped: Set<int>,
)
    requires
        dropped.finite(),
        forall|y: int| 0 <= y < rows.len() && !keeps(#[trigger] rows[y]) ==> dropped.contains(y),
    ensures
        rows.len() - rows.filter(keeps).len() <= dropped.len(),
    decreases rows.len(),
{
    reveal(Seq::filter);
    if rows.len() > 0 {
        let rest = rows.drop_last();
        let last = rows.len() - 1;
        assert forall|y: int| 0 <= y < rest.len() && !keeps(#[trigger] rest[y]) implies dropped.remove(
            last,
        ).contains(y) by {
            assert(rest[y] == rows[y]);
        }
        lemma_filter_drops_at_most(rest, keeps, dropped.remove(last));
    }
}

/// A piece completes at most four rows, so one landing scores at most four times
/// the points of a row; no other move changes the score.
pub proof fn law_score_counts_completed_rows(game: GameView)
    requires
        game.wf(),
        game.is_tidy(),
    ensures
        game.moved_down().score == if game.lands() {
            game.score + ROW_SCORE * game.completed()
        } else {
            game.score
        },
        0 <= game.completed() <= 4,
        game.moved_left().score == game.score,
        game.moved_right().score == game.score,
        game.rotated().score == game.score,
{
    lemma_cleared_grid(game);
    let keeps = |row: Seq<Option<Color>>| !crate::board::complete(row);
    let touched = Set::empty().insert(game.block(0).1).insert(game.block(1).1).insert(
        game.block(2).1,
    ).insert(game.block(3).1);
    assert forall|y: int| 0 <= y < BOARD_HEIGHT && !keeps(#[trigger] game.locked()[y]) implies touched.contains(
        y,
    ) by {
        assert(!crate::board::complete(game.grid[y]));
        let x = choose|x: int| 0 <= x < game.grid[y].len() && game.grid[y][x] is None;
        assert(game.locked()[y][x] is Some);
        assert(game.covers(x, y));
        let k = choose|k: int| 0 <= k < 4 && #[trigger] game.block(k) == (x, y);
        assert(k == 0 || k == 1 || k == 2 || k == 3);
    }
    lemma_filter_drops_at_most(game.locked(), keeps, touched);
}

/// A step to one side is undone by a step to the other.
pub proof fn law_left_and_right_undo_each_other(game: GameView)
    requires
        game.wf(),
        game.is_apart(),
    ensures
        game.may_become(game.shifted(-1, 0)) ==> game.moved_left().moved_right() == game,
        game.may_become(game.shifted(1, 0)) ==> game.moved_right().moved_left() == game,
{
    assert(game.shifted(-1, 0).shifted(1, 0) =~= game);
    assert(game.shifted(1, 0).shifted(-1, 0) =~= game);
}

/// A turn is clockwise: seen from the middle of the piece's square, in half cells to the
/// right and upwards, each block goes from `(right, up)` to `(up, -right)`.
pub proof fn law_turn_is_clockwise(game: GameView, k: int)
    requires
        game.wf(),
        0 <= k < 4,
    ensures
        ({
            let (x, y) = game.shape[k];
            let (right, up) = (2 * x - 3, 3 - 2 * y);
            let (turned_x, turned_y) = game.turned().shape[k];
            (2 * turned_x - 3, 3 - 2 * turned_y) == (up, -right)
        }),
{
}

/// Four quarter turns bring a piece back to where it was.
pub proof fn law_four_turns_are_none(game: GameView)
    requires
        game.wf(),
    ensures
        game.turned().turned().turned().turned() == game,
{
    assert(game.turned().turned().turned().turned().shape =~= game.shape);
}

/// Once the game is over no move changes anything.
pub proof fn law_game_over_is_final(game: GameView)
    requires
        game.game_over,
    ensures
        game.moved_left() == game,
        game.moved_right() == game,
        game.rotated() == game,
        game.moved_down() == game,
{
}

/// What is said of a game is said of its parts: every locked cell, every block of the
/// piece, and all the rest stand in the view as they are.
pub proof fn law_view_holds_every_part(game: Game)
    ensures
        game@.grid.len() == 20,
        forall|y: int| 0 <= y < 20 ==> (#[trigger] game@.grid[y]).len() == 10,
        forall|x: int, y: int|
            0 <= x < 10 && 0 <= y < 20 ==> #[trigger] game@.grid[y][x] == game.board@[y]@[x],
        game@.shape.len() == 4,
        forall|k: int|
            0 <= k < 4 ==> (#[trigger] game@.shape[k]).0 == game.current_piece.shape@[k].0
                && game@.shape[k].1 == game.current_piece.shape@[k].1,
        game@.color == game.current_piece.color,
        game@.pos.0 == game.piece_pos.0 && game@.pos.1 == game.piece_pos.1,
        game@.score == game.score,
        game@.game_over == game.game_over,
        game@.rng == game.rng,
{
}

/// A game can be played on exactly if every block of its piece lies on the board, within
/// the piece's square of four by four, and the square does not begin above the board.
pub proof fn law_playable_means_on_the_board(game: Game)
    ensures
        game@.wf() <==> game.piece_pos.1 >= 0 && forall|k: int|
            0 <= k < 4 ==> {
                let (x, y) = #[trigger] game.current_piece.shape@[k];
                &&& x <= 3 && y <= 3
                &&& 0 <= game.piece_pos.0 + x < 10
                &&& 0 <= game.piece_pos.1 + y < 20
            },
{
    let game_view = game@;
    if game_view.wf() {
        assert forall|k: int| 0 <= k < 4 implies ({
            let (x, y) = #[trigger] game.current_piece.shape@[k];
            &&& x <= 3 && y <= 3
            &&& 0 <= game.piece_pos.0 + x < 10
            &&& 0 <= game.piece_pos.1 + y < 20
        }) by {
            assert(game_view.shape[k].0 <= 3 && game_view.shape[k].1 <= 3);
            assert(crate::board::on_board(game_view.block(k).0, game_view.block(k).1));
        }
    }
}

/// A new game has nothing on its board, the straight piece lying in the middle of the second
/// row, no points, and the generator that it was given.
pub proof fn law_new_game_starts_empty(rng: TetrisRng)
    ensures
        ({
            let game = GameView::fresh(rng);
            &&& game.grid.len() == 20
            &&& forall|y: int| 0 <= y < 20 ==> (#[trigger] game.grid[y]).len() == 10
            &&& forall|x: int, y: int|
                0 <= x < 10 && 0 <= y < 20 ==> #[trigger] game.grid[y][x] is None
            &&& game.shape.len() == 4
            &&& forall|k: int| 0 <= k < 4 ==> #[trigger] game.shape[k] == (k, 1int)
            &&& game.color == Color::Cyan
            &&& game.pos == (3int, 0int)
            &&& game.score == 0
            &&& !game.game_over
            &&& game.rng == rng
        }),
{
}

/// The seven pieces by the cells that they cover: a bar, a square, a bar of three with a
/// block above its middle, with one below its right end, with one above its right end, and
/// two bars of two, the lower to the right or to the left of the upper.
pub proof fn law_tetrominoes_have_their_cells(number: int, x: int, y: int)
    requires
        0 <= number < 7,
    ensures
        tetromino(number).0.len() == 4,
        forall|i: int, j: int|
            0 <= i < j < 4 ==> #[trigger] tetromino(number).0[i] != #[trigger] tetromino(
                number,
            ).0[j],
        tetromino(0).0.contains((x, y)) <==> y == 1 && 0 <= x <= 3,
        tetromino(1).0.contains((x, y)) <==> 0 <= x <= 1 && 0 <= y <= 1,
        tetromino(2).0.contains((x, y)) <==> y == 1 && 0 <= x <= 2 || y == 0 && x == 1,
        tetromino(3).0.contains((x, y)) <==> y == 0 && 0 <= x <= 2 || y == 1 && x == 2,
        tetromino(4).0.contains((x, y)) <==> y == 1 && 0 <= x <= 2 || y == 0 && x == 2,
        tetromino(5).0.contains((x, y)) <==> y == 0 && 0 <= x <= 1 || y == 1 && 1 <= x <= 2,
        tetromino(6).0.contains((x, y)) <==> y == 1 && 0 <= x <= 1 || y == 0 && 1 <= x <= 2,
{
    lemma_tetromino_contains(0, x, y);
    lemma_tetromino_contains(1, x, y);
    lemma_tetromino_contains(2, x, y);
    lemma_tetromino_contains(3, x, y);
    lemma_tetromino_contains(4, x, y);
    lemma_tetromino_contains(5, x, y);
    lemma_tetromino_contains(6, x, y);
}

/// A piece covers the cells of its four blocks.
proof fn lemma_tetromino_contains(number: int, x: int, y: int)
    ensures
        ({
            let shape = tetromino(number).0;
            shape.contains((x, y)) <==> shape[0] == (x, y) || shape[1] == (x, y) || shape[2] == (
                x,
                y,
            ) || shape[3] == (x, y)
        }),
{
    let shape = tetromino(number).0;
    assert(shape.len() == 4);
    if shape.contains((x, y)) {
        let k = choose|k: int| 0 <= k < shape.len() && shape[k] == (x, y);
        assert(k == 0 || k == 1 || k == 2 || k == 3);
    }
}

/// Each of the seven pieces has a colour of its own.
pub proof fn law_tetrominoes_have_their_colors(a: int, b: int)
    requires
        0 <= a < 7,
        0 <= b < 7,
    ensures
        tetromino(a).1 == tetromino(b).1 ==> a == b,
        tetromino(0).1 == Color::Cyan,
        tetromino(1).1 == Color::Yellow,
        tetromino(2).1 == Color::Magenta,
        tetromino(3).1 == Color::Green,
        tetromino(4).1 == Color::Red,
        tetromino(5).1 == Color::Blue,
        tetromino(6).1 == Color::White,
{
}

/// A step to one side changes the column of the piece by one and nothing else, and it is
/// taken exactly if the game is not over and each of the four cells to that side of the
/// blocks is on the board and empty.
pub proof fn law_step_aside_needs_empty_cells(game: GameView)
    requires
        game.wf(),
    ensures
        ({
            let free = |dx: int|
                forall|k: int|
                    0 <= k < 4 ==> {
                        let (x, y) = #[trigger] game.shape[k];
                        &&& 0 <= game.pos.0 + x + dx < 10
                        &&& game.grid[game.pos.1 + y][game.pos.0 + x + dx] is None
                    };
            &&& game.may_become(game.shifted(-1, 0)) <==> !game.game_over && free(-1)
            &&& game.may_become(game.shifted(1, 0)) <==> !game.game_over && free(1)
            &&& game.moved_left() == if !game.game_over && free(-1) {
                GameView { pos: (game.pos.0 - 1, game.pos.1), ..game }
            } else {
                game
            }
            &&& game.moved_right() == if !game.game_over && free(1) {
                GameView { pos: (game.pos.0 + 1, game.pos.1), ..game }
            } else {
                game
            }
        }),
{
    lemma_shift_fits(game, -1, 0);
    lemma_shift_fits(game, 1, 0);
}

/// A piece fits where its blocks would each lie in an empty cell of the board.
proof fn lemma_shift_fits(game: GameView, dx: int, dy: int)
    requires
        game.wf(),
        0 <= dy,
    ensures
        game.shifted(dx, dy).fits() <==> forall|k: int|
            0 <= k < 4 ==> {
                let (x, y) = #[trigger] game.shape[k];
                &&& 0 <= game.pos.0 + x + dx < 10
                &&& game.pos.1 + y + dy < 20
                &&& game.grid[game.pos.1 + y + dy][game.pos.0 + x + dx] is None
            },
        forall|k: int| 0 <= k < 4 ==> game.pos.1 + (#[trigger] game.shape[k]).1 < 20,
{
    let next = game.shifted(dx, dy);
    assert(forall|k: int|
        #![trigger next.block(k)]
        #![trigger game.shape[k]]
        0 <= k < 4 ==> next.block(k) == (
            game.pos.0 + game.shape[k].0 + dx,
            game.pos.1 + game.shape[k].1 + dy,
        ));
    assert(forall|k: int|
        #![trigger game.block(k)]
        #![trigger game.shape[k]]
        0 <= k < 4 ==> game.block(k) == (
            game.pos.0 + game.shape[k].0,
            game.pos.1 + game.shape[k].1,
        ));
    if next.fits() {
        assert forall|k: int| 0 <= k < 4 implies ({
            let (x, y) = #[trigger] game.shape[k];
            &&& 0 <= game.pos.0 + x + dx < 10
            &&& game.pos.1 + y + dy < 20
            &&& game.grid[game.pos.1 + y + dy][game.pos.0 + x + dx] is None
        }) by {
            assert(next.is_free(next.block(k).0, next.block(k).1));
        }
    }
}

/// A turn takes the block in column `x` and row `y` of the piece's square to column
/// 3 - `y` and row `x`, for every block, and changes nothing else. It is taken exactly if
/// the game is not over and the blocks come to lie on empty cells of the board.
pub proof fn law_turn_needs_empty_cells(game: GameView)
    requires
        game.wf(),
    ensures
        ({
            let free = forall|k: int|
                0 <= k < 4 ==> {
                    let (x, y) = #[trigger] game.shape[k];
                    &&& 0 <= game.pos.0 + 3 - y < 10
                    &&& game.pos.1 + x < 20
                    &&& game.grid[game.pos.1 + x][game.pos.0 + 3 - y] is None
                };
            let after = game.rotated();
            &&& game.may_become(game.turned()) <==> !game.game_over && free
            &&& !game.game_over && free ==> {
                &&& after == GameView { shape: after.shape, ..game }
                &&& after.shape.len() == 4
                &&& forall|k: int|
                    0 <= k < 4 ==> #[trigger] after.shape[k] == (
                        3 - game.shape[k].1,
                        game.shape[k].0,
                    )
            }
            &&& game.game_over || !free ==> after == game
        }),
{
    let next = game.turned();
    assert(forall|k: int|
        #![trigger next.block(k)]
        #![trigger game.shape[k]]
        0 <= k < 4 ==> next.block(k) == (
            game.pos.0 + 3 - game.shape[k].1,
            game.pos.1 + game.shape[k].0,
        ));
    if next.fits() {
        assert forall|k: int| 0 <= k < 4 implies ({
            let (x, y) = #[trigger] game.shape[k];
            &&& 0 <= game.pos.0 + 3 - y < 10
            &&& game.pos.1 + x < 20
            &&& game.grid[game.pos.1 + x][game.pos.0 + 3 - y] is None
        }) by {
            assert(next.is_free(next.block(k).0, next.block(k).1));
        }
    }
}

/// A piece moves down by one row, and nothing else changes, exactly if the game is not over
/// and the four cells below its blocks are on the board and empty; where they are not, it
/// lands, unless the game is over.
pub proof fn law_fall_needs_empty_cells(game: GameView)
    requires
        game.wf(),
    ensures
        ({
            let free = forall|k: int|
                0 <= k < 4 ==> {
                    let (x, y) = #[trigger] game.shape[k];
                    &&& game.pos.1 + y + 1 < 20
                    &&& game.grid[game.pos.1 + y + 1][game.pos.0 + x] is None
                };
            &&& game.lands() <==> !game.game_over && !free
            &&& !game.game_over && free ==> game.moved_down() == (GameView {
                pos: (game.pos.0, game.pos.1 + 1),
                ..game
            })
            &&& game.game_over ==> game.moved_down() == game
        }),
{
    lemma_shift_fits(game, 0, 1);
    assert forall|k: int| 0 <= k < 4 implies 0 <= game.pos.0 + (#[trigger] game.shape[k]).0
        < 10 by {
        assert(crate::board::on_board(game.block(k).0, game.block(k).1));
    }
    if !game.game_over && !game.lands() {
        assert(game.moved_down() =~= (GameView { pos: (game.pos.0, game.pos.1 + 1), ..game }));
    }
}

/// Where a filter puts a row that it keeps, counted from either end.
proof fn lemma_filter_position(
    rows: Grid,
    keeps: spec_fn(Seq<Option<Color>>) -> bool,
    y: int,
)
    requires
        0 <= y < rows.len(),
        keeps(rows[y]),
    ensures
        ({
            let kept = rows.filter(keeps);
            let below = rows.skip(y + 1).filter(keeps).len();
            &&& below < kept.len()
            &&& kept[kept.len() - 1 - below] == rows[y]
        }),
{
    let (above, row, below) = (rows.take(y), seq![rows[y]], rows.skip(y + 1));
    assert(rows =~= above + row + below);
    Seq::filter_distributes_over_add(above + row, below, keeps);
    Seq::filter_distributes_over_add(above, row, keeps);
    assert(row.filter(keeps) =~= row) by {
        reveal(Seq::filter);
        assert(row.drop_last().filter(keeps) =~= Seq::empty());
    }
}

/// The rows below row `y` that a filter keeps, and those that it drops, are all of them.
proof fn lemma_filter_counts_below(
    rows: Grid,
    keeps: spec_fn(Seq<Option<Color>>) -> bool,
    drop: Seq<int>,
    y: int,
)
    requires
        0 <= y < rows.len(),
        drop.len() == rows.len(),
        drop[rows.len() - 1] == 0,
        forall|v: int, w: int|
            #![trigger drop[v], drop[w]]
            0 <= v && w == v + 1 && w < rows.len() ==> drop[v] == drop[w] + if keeps(rows[w]) {
                0int
            } else {
                1int
            },
    ensures
        rows.skip(y + 1).filter(keeps).len() + drop[y] == rows.len() - 1 - y,
    decreases rows.len() - y,
{
    reveal(Seq::filter);
    let below = rows.skip(y + 1);
    if y + 1 < rows.len() {
        lemma_filter_counts_below(rows, keeps, drop, y + 1);
        let (row, rest) = (seq![rows[y + 1]], rows.skip(y + 2));
        assert(below =~= row + rest);
        Seq::filter_distributes_over_add(row, rest, keeps);
        assert(row.drop_last().filter(keeps) =~= Seq::empty());
        assert(row.filter(keeps).len() == if keeps(rows[y + 1]) {
            1int
        } else {
            0int
        });
        assert(drop[y] == drop[y + 1] + if keeps(rows[y + 1]) {
            0int
        } else {
            1int
        });
    } else {
        assert(below.len() == 0);
    }
}

/// A landing loses nothing and adds nothing but the piece. Let `locked` be the board with
/// the blocks of the piece in their cells, and `drop` tell for each row how many rows below
/// it are full in `locked`. Every row that is not full is found again, with all its cells,
/// that much further down; only as many empty rows as there were full ones have come in at
/// the top; and each full row has given 100 points.
pub proof fn law_landing_loses_nothing(game: GameView, locked: Grid, drop: Seq<int>)
    requires
        game.wf(),
        !game.game_over,
        exists|k: int|
            0 <= k < 4 && {
                let (x, y) = #[trigger] game.shape[k];
                game.pos.1 + y + 1 >= 20 || game.grid[game.pos.1 + y + 1][game.pos.0 + x] is Some
            },
        locked.len() == 20,
        forall|y: int| 0 <= y < 20 ==> (#[trigger] locked[y]).len() == 10,
        forall|x: int, y: int|
            0 <= x < 10 && 0 <= y < 20 ==> #[trigger] locked[y][x] == if exists|k: int|
                0 <= k < 4 && game.pos.0 + (#[trigger] game.shape[k]).0 == x && game.pos.1
                    + game.shape[k].1 == y {
                Some(game.color)
            } else {
                game.grid[y][x]
            },
        drop.len() == 20,
        drop[19] == 0,
        forall|v: int, w: int|
            #![trigger drop[v], drop[w]]
            0 <= v && w == v + 1 && w < 20 ==> drop[v] == drop[w] + if locked[w].contains(None) {
                0int
            } else {
                1int
            },
    ensures
        ({
            let after = game.moved_down();
            let full = drop[0] + if locked[0].contains(None) {
                0int
            } else {
                1int
            };
            &&& after.grid.len() == 20
            &&& forall|y: int|
                0 <= y < 20 && (#[trigger] locked[y]).contains(None) ==> 0 <= y + drop[y] < 20
                    && after.grid[y + drop[y]] == locked[y]
            &&& 0 <= full <= 20
            &&& forall|y: int| 0 <= y < full ==> (#[trigger] after.grid[y]).len() == 10
            &&& forall|x: int, y: int|
                0 <= x < 10 && 0 <= y < full ==> #[trigger] after.grid[y][x] is None
            &&& after.score == game.score + 100 * full
        }),
{
    law_fall_needs_empty_cells(game);
    assert(game.lands());
    assert(forall|k: int|
        #![trigger game.block(k)]
        #![trigger game.shape[k]]
        0 <= k < 4 ==> game.block(k) == (
            game.pos.0 + game.shape[k].0,
            game.pos.1 + game.shape[k].1,
        ));
    assert forall|x: int, y: int| 0 <= x < 10 && 0 <= y < 20 implies #[trigger] locked[y][x]
        == game.locked()[y][x] by {
        if game.covers(x, y) {
            let k = choose|k: int| 0 <= k < 4 && #[trigger] game.block(k) == (x, y);
            assert(game.pos.0 + game.shape[k].0 == x && game.pos.1 + game.shape[k].1 == y);
        } else {
            assert forall|k: int| 0 <= k < 4 implies !(game.pos.0 + (#[trigger] game.shape[k]).0
                == x && game.pos.1 + game.shape[k].1 == y) by {
                assert(game.block(k) != (x, y));
            }
        }
    }
    assert forall|y: int| 0 <= y < 20 implies locked[y] == game.locked()[y] by {
        assert(locked[y] =~= game.locked()[y]);
    }
    assert(locked =~= game.locked());
    let keeps = |row: Seq<Option<Color>>| !crate::board::complete(row);
    assert forall|y: int| 0 <= y < 20 implies keeps(#[trigger] locked[y]) == locked[y].contains(
        None,
    ) by {
        crate::board::law_one_empty_cell_makes_a_row_incomplete(locked[y]);
    }
    let kept = locked.filter(keeps);
    assert(game.kept() == kept);
    assert forall|y: int|
        0 <= y < 20 && (#[trigger] locked[y]).contains(None) implies 0 <= y + drop[y] < 20
        && game.moved_down().grid[y + drop[y]] == locked[y] by {
        lemma_filter_position(locked, keeps, y);
        lemma_filter_counts_below(locked, keeps, drop, y);
        let below = locked.skip(y + 1).filter(keeps).len();
        assert(y + drop[y] == 19 - below);
        assert(game.cleared()[y + drop[y]] == kept[kept.len() - 1 - below]);
    }
    lemma_cleared_grid(game);
    lemma_filter_counts_below(locked, keeps, drop, 0);
    let (top, rest) = (seq![locked[0]], locked.skip(1));
    assert(locked =~= top + rest);
    Seq::filter_distributes_over_add(top, rest, keeps);
    assert(top.filter(keeps).len() == if keeps(locked[0]) {
        1int
    } else {
        0int
    }) by {
        reveal(Seq::filter);
        assert(top.drop_last().filter(keeps) =~= Seq::empty());
    }
}

/// After a landing the next piece is the one that the generator names by the remainder of
/// its next number by seven; it stands at the top, and the game is over exactly if one of
/// its blocks lies on a cell that is taken.
pub proof fn law_next_piece_enters_at_the_top(game: GameView)
    requires
        game.wf(),
        game.lands(),
    ensures
        ({
            let after = game.moved_down();
            &&& after.rng == game.rng.advanced()
            &&& after.shape == tetromino(game.rng.advanced().number() % 7).0
            &&& after.color == tetromino(game.rng.advanced().number() % 7).1
            &&& after.pos == (3int, 0int)
            &&& after.game_over <==> exists|k: int|
                0 <= k < 4 && after.grid[(#[trigger] after.shape[k]).1][3 + after.shape[k].0]
                    is Some
        }),
{
    lemma_cleared_grid(game);
    let (next, after) = (game.settled().entered(), game.moved_down());
    assert(forall|k: int|
        #![trigger next.block(k)]
        #![trigger after.shape[k]]
        0 <= k < 4 ==> next.block(k) == (3 + after.shape[k].0, after.shape[k].1));
    assert(forall|k: int|
        0 <= k < 4 ==> 0 <= (#[trigger] after.shape[k]).0 <= 3 && 0 <= after.shape[k].1 <= 3);
    if after.game_over {
        let k = choose|k: int|
            0 <= k < 4 && !next.is_free((#[trigger] next.block(k)).0, next.block(k).1);
        assert(after.grid[after.shape[k].1][3 + after.shape[k].0] is Some);
    } else {
        assert forall|k: int| 0 <= k < 4 implies after.grid[(#[trigger] after.shape[k]).1][3
            + after.shape[k].0] is None by {
            assert(next.is_free(next.block(k).0, next.block(k).1));
        }
    }
}

/// There is room for the score exactly if it stays within 32 bits.
pub proof fn law_score_room_is_what_32_bits_hold(game: GameView)
    ensures
        game.has_score_room() <==> game.moved_down().score < 0x1_0000_0000,
{
}

/// The piece is apart from the locked cells exactly if none of its blocks lies on one, and
/// the board is tidy exactly if every row has an empty cell.
pub proof fn law_apart_and_tidy_speak_of_cells(game: GameView)
    requires
        game.wf(),
    ensures
        game.is_apart() <==> game.game_over || forall|k: int|
            0 <= k < 4 ==> game.grid[game.pos.1 + (#[trigger] game.shape[k]).1][game.pos.0
                + game.shape[k].0] is None,
        game.is_tidy() <==> forall|y: int|
            0 <= y < 20 ==> (#[trigger] game.grid[y]).contains(None),
{
    lemma_shift_fits(game, 0, 0);
    assert(game.shifted(0, 0) =~= game);
    assert forall|k: int| 0 <= k < 4 implies 0 <= game.pos.0 + (#[trigger] game.shape[k]).0
        < 10 by {
        assert(crate::board::on_board(game.block(k).0, game.block(k).1));
    }
    assert forall|y: int| 0 <= y < 20 implies crate::board::complete(#[trigger] game.grid[y])
        == !game.grid[y].contains(None) by {
        crate::board::law_one_empty_cell_makes_a_row_incomplete(game.grid[y]);
    }
}

/// The order of a piece's blocks: along a bar from left to right, column by column in the
/// square, and from left to right through the two bent pieces.
pub proof fn law_blocks_come_in_order(k: int)
    requires
        0 <= k < 4,
    ensures
        tetromino(0).0[k] == (k, 1int),
        tetromino(1).0[k] == (k / 2, k % 2),
        k < 3 ==> tetromino(2).0[k] == (k, 1int),
        k < 3 ==> tetromino(3).0[k] == (k, 0int),
        k < 3 ==> tetromino(4).0[k] == (k, 1int),
        tetromino(5).0[k] == ((k + 1) / 2, k / 2),
        tetromino(6).0[k] == ((k + 1) / 2, 1 - k / 2),
{
    assert(k == 0 || k == 1 || k == 2 || k == 3);
}

} // verus!
