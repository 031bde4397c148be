//! The playing field: its size, its colours and the grid they form.
use vstd::prelude::*;

verus! {

/// Number of columns of the board.
pub const BOARD_WIDTH: usize = 10;

/// Number of rows of the board.
pub const BOARD_HEIGHT: usize = 20;

/// A colour of a tetromino.
#[derive(Clone, Copy, Debug, PartialEq, Eq, Structural)]
pub enum Color {
    Red,
    Green,
    Blue,
    Yellow,
    Cyan,
    Magenta,
    White,
}

/// The locked cells, row by row from the top; `None` is an empty cell.
pub type Board = [[Option<Color>; BOARD_WIDTH]; BOARD_HEIGHT];

/// What `Board` holds, as a sequence of rows.
pub type Grid = Seq<Seq<Option<Color>>>;

/// The rows of `board`.
pub open spec fn grid(board: Board) -> Grid {
    Seq::new(BOARD_HEIGHT as nat, |y: int| board@[y]@)
}

/// Whether column `x` and row `y` name a cell of the board.
pub open spec fn on_board(x: int, y: int) -> bool {
    0 <= x < BOARD_WIDTH && 0 <= y < BOARD_HEIGHT
}

/// A row without any locked cell.
pub open spec fn blank_row() -> Seq<Option<Color>> {
    Seq::new(BOARD_WIDTH as nat, |x: int| None)
}

/// A board without any locked cell.
pub open spec fn blank_grid() -> Grid {
    Seq::new(BOARD_HEIGHT as nat, |y: int| blank_row())
}

/// Whether every cell of `row` is locked.
pub open spec fn complete(row: Seq<Option<Color>>) -> bool {
    forall|x: int| 0 <= x < row.len() ==> row[x] is Some
}

/// A board without any locked cell.
pub fn blank_board() -> (board: Board)
    ensures
        grid(board) == blank_grid(),
{
    let board: Board = [[None; BOARD_WIDTH]; BOARD_HEIGHT];
    proof {
        assert forall|y: int| 0 <= y < BOARD_HEIGHT implies grid(board)[y] == blank_row() by {
            assert(board@[y]@ =~= blank_row());
        }
        assert(grid(board) =~= blank_grid());
    }
    board
}

/// A grid holds the cells of its board, row by row, and nothing else.
pub proof fn law_grid_holds_the_cells(board: Board)
    ensures
        grid(board).len() == 20,
        forall|y: int| 0 <= y < 20 ==> (#[trigger] grid(board)[y]).len() == 10,
        forall|x: int, y: int|
            0 <= x < 10 && 0 <= y < 20 ==> #[trigger] grid(board)[y][x] == board@[y]@[x],
{
}

/// A blank board has all its rows and cells, every one of them empty.
pub proof fn law_blank_board_is_empty(x: int, y: int)
    ensures
        blank_grid().len() == 20,
        0 <= y < 20 ==> blank_grid()[y] == blank_row(),
        blank_row().len() == 10,
        0 <= x < 10 ==> blank_row()[x] is None,
        on_board(x, y) <==> 0 <= x < 10 && 0 <= y < 20,
{
}

/// A row is complete as long as no cell in it is empty.
pub proof fn law_one_empty_cell_makes_a_row_incomplete(row: Seq<Option<Color>>)
    ensures
        complete(row) <==> !row.contains(None),
{
    if !row.contains(None) {
        assert forall|x: int| 0 <= x < row.len() implies row[x] is Some by {
            if row[x] is None {
                assert(row.contains(row[x]));
            }
        }
    }
}

} // verus!
