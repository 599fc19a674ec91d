//! The 8x8 grid of squares and the primitives that read and change it.

use vstd::prelude::*;

pub mod movement;
pub mod piece;
pub mod position;

use self::movement::{Move, MoveError, MoveType};
use self::piece::side::Side;
use self::piece::{PieceData, PieceInstance};
use self::position::Position;

verus! {

/// The contents of a board: the occupied squares and what stands on each.
pub type Grid = Map<Position, PieceData>;

/// Why a square could not be read by raw coordinates.
#[derive(Clone, Copy, Debug, PartialEq, Eq, Structural)]
pub enum BoardError {
    OutOfBounds,
    EmptySquare,
}

/// An 8x8 grid in which every square is empty or holds one piece.
#[derive(Clone, Copy, Debug, PartialEq, Eq)]
pub struct Board {
    squares: [[Option<PieceData>; 8]; 8],
}

impl View for Board {
    type V = Grid;

    closed spec fn view(&self) -> Grid {
        Map::new(
            |p: Position| p.on_board() && self.squares[p.row as int][p.col as int] is Some,
            |p: Position| self.squares[p.row as int][p.col as int]->0,
        )
    }
}

/// What the square `p` holds at the start of a game.
pub open spec fn initial_square(p: Position) -> Option<PieceData> {
    if !p.valid() {
        None
    } else if p.row < 3 {
        Some(PieceData { owner: Side::AI, is_king: false })
    } else if p.row >= 5 {
        Some(PieceData { owner: Side::Player, is_king: false })
    } else {
        None
    }
}

/// The contents of a board at the start of a game.
pub open spec fn initial_grid() -> Grid {
    Map::new(|p: Position| initial_square(p) is Some, |p: Position| initial_square(p)->0)
}

/// Every occupied square lies on the grid and is dark.
pub open spec fn grid_wf(grid: Grid) -> bool {
    forall|p: Position| grid.contains_key(p) ==> p.valid()
}

/// The square with number `n` when the grid is read row by row, left to right.
pub open spec fn cell_position(n: int) -> Position {
    Position { row: (n / 8) as usize, col: (n % 8) as usize }
}

/// The pieces of `side` among the first `n` squares, in reading order.
pub open spec fn pieces_upto(grid: Grid, side: Side, n: nat) -> Seq<PieceInstance>
    decreases n,
{
    if n == 0 {
        Seq::empty()
    } else {
        let rest = pieces_upto(grid, side, (n - 1) as nat);
        let p = cell_position(n - 1);
        if grid.contains_key(p) && grid[p].owner == side {
            rest.push(PieceInstance { position: p, data: grid[p] })
        } else {
            rest
        }
    }
}

/// All pieces of `side`, in reading order.
pub open spec fn pieces_of_side(grid: Grid, side: Side) -> Seq<PieceInstance> {
    pieces_upto(grid, side, 64)
}

/// The piece `d` after it has landed on `to`: crowned on the far row, and a king stays a king.
pub open spec fn landed(d: PieceData, to: Position) -> PieceData {
    PieceData {
        owner: d.owner,
        is_king: d.is_king || (to.row == 0 && d.owner == Side::Player) || (to.row == 7 && d.owner
            == Side::AI),
    }
}

/// The contents after `mv` has been carried out on `grid`, where `mv.from` is occupied:
/// the piece leaves `from`, lands on `to`, and a jump then clears the midpoint.
pub open spec fn apply_spec(grid: Grid, mv: Move) -> Grid {
    let moved = grid.remove(mv.from).insert(mv.to, landed(grid[mv.from], mv.to));
    if mv.move_type == MoveType::Jump {
        moved.remove(mv.midpoint())
    } else {
        moved
    }
}

impl Board {
    /// Every piece stands on a dark square.
    pub open spec fn wf(&self) -> bool {
        grid_wf(self@)
    }

    /// The board at the start of a game: twelve plain pieces per side on the dark squares
    /// of the three rows nearest to each side's edge.
    pub fn setup() -> (board: Board)
        ensures
            board@ == initial_grid(),
            board.wf(),
            pieces_of_side(board@, Side::AI).len() == 12,
            pieces_of_side(board@, Side::Player).len() == 12,
            forall|p: Position| #[trigger]
                board@.contains_key(p) ==> {
                    &&& p.valid()
                    &&& !board@[p].is_king
                    &&& board@[p].owner == Side::AI ==> p.row <= 2
                    &&& board@[p].owner == Side::Player ==> p.row >= 5
                },
    {
        let mut board = Board { squares: [[None;8];8] };
        for row in 0..3usize
            invariant
                forall|r: int, c: int|
                    0 <= r < 8 && 0 <= c < 8 ==> #[trigger] board.squares[r][c] == (if r < row {
                        initial_square(Position { row: r as usize, col: c as usize })
                    } else {
                        None
                    }),
        {
            for col in 0..8usize
                invariant
                    row < 3,
                    forall|r: int, c: int|
                        0 <= r < 8 && 0 <= c < 8 ==> #[trigger] board.squares[r][c] == (if r < row
                            || (r == row && c < col) {
                            initial_square(Position { row: r as usize, col: c as usize })
                        } else {
                            None
                        }),
            {
                if (row + col) % 2 == 1 {
                    board.squares[row][col] = Some(PieceData { owner: Side::AI, is_king: false });
                }
            }
        }
        for row in 5..8usize
            invariant
                forall|r: int, c: int|
                    0 <= r < 8 && 0 <= c < 8 ==> #[trigger] board.squares[r][c] == (if r < 3 || (5
                        <= r < row) {
                        initial_square(Position { row: r as usize, col: c as usize })
                    } else {
                        None
                    }),
        {
            for col in 0..8usize
                invariant
                    5 <= row < 8,
                    forall|r: int, c: int|
                        0 <= r < 8 && 0 <= c < 8 ==> #[trigger] board.squares[r][c] == (if r < 3
                            || (5 <= r < row) || (r == row && c < col) {
                            initial_square(Position { row: r as usize, col: c as usize })
                        } else {
                            None
                        }),
            {
                if (row + col) % 2 == 1 {
                    board.squares[row][col] = Some(
                        PieceData { owner: Side::Player, is_king: false },
                    );
                }
            }
        }
        proof {
            assert forall|p: Position| p.on_board() implies board.squares[p.row as int][p.col as int]
                == initial_square(p) by {
                let q = Position { row: p.row as int as usize, col: p.col as int as usize };
                assert(q == p);
            }
            assert(board@ =~= initial_grid());
            lemma_initial_count();
        }
        board
    }

    /// What stands on `pos`, if anything.
    pub fn get_square(&self, pos: &Position) -> (r: Option<&PieceData>)
        requires
            pos.on_board(),
        ensures
            match r {
                Some(d) => self@.get(*pos) == Some(*d),
                None => self@.get(*pos) is None,
            },
    {
        self.squares[pos.row][pos.col].as_ref()
    }

    /// What stands on the square in `row` and `col`. Only dark squares of the grid can
    /// hold a piece: every other pair of coordinates is out of bounds.
    pub fn get_piece(&self, row: usize, col: usize) -> (r: Result<&PieceData, BoardError>)
        ensures
            match r {
                Ok(d) => (Position { row, col }).valid() && self@.get(Position { row, col })
                    == Some(*d),
                Err(BoardError::OutOfBounds) => !(Position { row, col }).valid(),
                Err(BoardError::EmptySquare) => (Position { row, col }).valid()
                    && !self@.contains_key(Position { row, col }),
            },
    {
        if row >= 8 || col >= 8 || (row + col) % 2 != 1 {
            return Err(BoardError::OutOfBounds);
        }
        match self.squares[row][col].as_ref() {
            Some(piece) => Ok(piece),
            None => Err(BoardError::EmptySquare),
        }
    }

    /// Whether the square in `row` and `col` is empty, for a dark square of the grid.
    pub fn is_empty(&self, row: usize, col: usize) -> (r: Result<bool, BoardError>)
        ensures
            r == (if (Position { row, col }).valid() {
                Ok::<bool, BoardError>(!self@.contains_key(Position { row, col }))
            } else {
                Err::<bool, BoardError>(BoardError::OutOfBounds)
            }),
    {
        match self.get_piece(row, col) {
            Ok(_) => Ok(false),
            Err(BoardError::EmptySquare) => Ok(true),
            Err(e) => Err(e),
        }
    }

    /// Whether `pos` is empty, for a dark square of the grid.
    pub fn is_empty_pos(&self, pos: &Position) -> (r: Result<bool, BoardError>)
        ensures
            r == (if pos.valid() {
                Ok::<bool, BoardError>(!self@.contains_key(*pos))
            } else {
                Err::<bool, BoardError>(BoardError::OutOfBounds)
            }),
    {
        self.is_empty(pos.row, pos.col)
    }

    /// The squares as they are stored, by row and column.
    pub fn get_squares(&self) -> (squares: &[[Option<PieceData>; 8]; 8])
        ensures
            forall|row: int, col: int|
                0 <= row < 8 && 0 <= col < 8 ==> #[trigger] squares[row][col] == self@.get(
                    Position { row: row as usize, col: col as usize },
                ),
    {
        &self.squares
    }

    /// The pieces of `side` with their squares, row by row and left to right.
    pub fn all_pieces_of_side(&self, side: Side) -> (pieces: Vec<PieceInstance>)
        ensures
            pieces@ == pieces_of_side(self@, side),
            pieces@.len() <= 64,
    {
        let mut instances: Vec<PieceInstance> = Vec::new();
        for row in 0..8usize
            invariant
                instances@ == pieces_upto(self@, side, (8 * row) as nat),
        {
            for col in 0..8usize
                invariant
                    row < 8,
                    instances@ == pieces_upto(self@, side, (8 * row + col) as nat),
            {
                assert(cell_position(8 * row + col) == Position { row, col });
                if let Some(data) = &self.squares[row][col] {
                    if data.owner == side {
                        instances.push(PieceInstance { position: Position { row, col }, data: *data });
                    }
                }
            }
        }
        proof {
            lemma_pieces_len(self@, side, 64);
        }
        instances
    }

    /// Carries out `mv` without asking whether the rules allow it: the piece on `mv.from`
    /// goes to `mv.to`, is crowned if it reaches its far row, and a jump clears the square
    /// halfway. Fails, and changes nothing, when `mv.from` is empty.
    pub fn apply_move(&mut self, mv: &Move) -> (r: Result<(), MoveError>)
        requires
            mv.on_board(),
        ensures
            old(self)@.contains_key(mv.from) ==> r is Ok && final(self)@ == apply_spec(
                old(self)@,
                *mv,
            ),
            !old(self)@.contains_key(mv.from) ==> r == Err::<(), MoveError>(
                MoveError::IncorrectStartPosition,
            ) && final(self)@ == old(self)@,
            old(self).wf() && mv.to.valid() ==> final(self).wf(),
    {
        let piece = match self.squares[mv.from.row][mv.from.col] {
            Some(p) => p,
            None => {
                return Err(MoveError::IncorrectStartPosition);
            },
        };
        self.squares[mv.from.row][mv.from.col] = None;

        let piece = PieceData {
            owner: piece.owner,
            is_king: piece.is_king || (mv.to.row == 0 && piece.owner == Side::Player) || (mv.to.row
                == 7 && piece.owner == Side::AI),
        };

        self.squares[mv.to.row][mv.to.col] = Some(piece);

        if mv.move_type == MoveType::Jump {
            let take_row = (mv.from.row + mv.to.row) / 2;
            let take_col = (mv.from.col + mv.to.col) / 2;
            self.squares[take_row][take_col] = None;
        }
        assert(self@ =~= apply_spec(old(self)@, *mv));
        Ok(())
    }

    /// Three points for each piece of `side`, less one for each piece of the other side.
    pub fn score_of_side(&self, side: Side) -> (score: i16)
        ensures
            score == 3 * pieces_of_side(self@, side).len() - pieces_of_side(
                self@,
                side.other(),
            ).len(),
    {
        (self.all_pieces_of_side(side).len() as i16 * 3) - (self.all_pieces_of_side(
            side.opposite(),
        ).len() as i16)
    }
}

/// Promotion: the piece that a move brings to `to` keeps its owner, is a king if it was
/// one before, and is crowned if it has reached its far row, row 0 for the player and
/// row 7 for the computer; it is a king for no other reason. This holds of every move but
/// a jump whose midpoint is `to` itself, which removes the piece it has just put down.
pub proof fn lemma_promotion(grid: Grid, mv: Move)
    requires
        grid.contains_key(mv.from),
        mv.move_type == MoveType::Jump ==> mv.midpoint() != mv.to,
    ensures
        apply_spec(grid, mv).contains_key(mv.to),
        apply_spec(grid, mv)[mv.to].owner == grid[mv.from].owner,
        apply_spec(grid, mv)[mv.to].is_king <==> grid[mv.from].is_king || (mv.to.row == 0
            && grid[mv.from].owner == Side::Player) || (mv.to.row == 7 && grid[mv.from].owner
            == Side::AI),
{
}

/// Capture: a jump empties the square it starts from and the square halfway, leaves the
/// jumper on `to`, and changes no other square. This holds of every jump but one whose
/// midpoint is `to` itself.
pub proof fn lemma_jump_capture(grid: Grid, mv: Move)
    requires
        grid.contains_key(mv.from),
        mv.move_type == MoveType::Jump,
        mv.midpoint() != mv.to,
    ensures
        !apply_spec(grid, mv).contains_key(mv.midpoint()),
        !apply_spec(grid, mv).contains_key(mv.from),
        apply_spec(grid, mv).get(mv.to) == Some(landed(grid[mv.from], mv.to)),
        forall|p: Position|
            p != mv.from && p != mv.to && p != mv.midpoint() ==> apply_spec(grid, mv).get(p)
                == grid.get(p),
{
    assert(mv.from != mv.to) by {
        if mv.from == mv.to {
            assert(mv.midpoint() == mv.to);
        }
    }
}

/// Among the first `n` squares there are at most `n` pieces.
pub proof fn lemma_pieces_len(grid: Grid, side: Side, n: nat)
    ensures
        pieces_upto(grid, side, n).len() <= n,
    decreases n,
{
    if n > 0 {
        lemma_pieces_len(grid, side, (n - 1) as nat);
    }
}

/// At the start of a game each side has twelve pieces.
pub proof fn lemma_initial_count()
    ensures
        pieces_of_side(initial_grid(), Side::AI).len() == 12,
        pieces_of_side(initial_grid(), Side::Player).len() == 12,
{
    let g = initial_grid();
    assert(pieces_upto(g, Side::AI, 0).len() == 0);
    assert(pieces_upto(g, Side::Player, 0).len() == 0);
    lemma_initial_row(Side::AI, 0, 0);
    lemma_initial_row(Side::AI, 1, 4);
    lemma_initial_row(Side::AI, 2, 8);
    lemma_initial_row(Side::AI, 3, 12);
    lemma_initial_row(Side::AI, 4, 12);
    lemma_initial_row(Side::AI, 5, 12);
    lemma_initial_row(Side::AI, 6, 12);
    lemma_initial_row(Side::AI, 7, 12);
    lemma_initial_row(Side::Player, 0, 0);
    lemma_initial_row(Side::Player, 1, 0);
    lemma_initial_row(Side::Player, 2, 0);
    lemma_initial_row(Side::Player, 3, 0);
    lemma_initial_row(Side::Player, 4, 0);
    lemma_initial_row(Side::Player, 5, 0);
    lemma_initial_row(Side::Player, 6, 4);
    lemma_initial_row(Side::Player, 7, 8);
}

/// Reading one more square of the initial board adds one piece exactly when the square
/// starts with a piece of `side`.
proof fn lemma_initial_cell(side: Side, row: int, col: int, before: nat)
    requires
        0 <= row < 8,
        0 <= col < 8,
        pieces_upto(initial_grid(), side, (8 * row + col) as nat).len() == before,
    ensures
        pieces_upto(initial_grid(), side, (8 * row + col + 1) as nat).len() == before + (if (row
            + col) % 2 == 1 && ((side == Side::AI && row < 3) || (side == Side::Player && row
            >= 5)) {
            1nat
        } else {
            0nat
        }),
{
    assert(cell_position(8 * row + col) == Position { row: row as usize, col: col as usize });
}

/// Reading one more row of the initial board adds four pieces of the side that owns the
/// row and none of the other.
proof fn lemma_initial_row(side: Side, row: int, before: nat)
    requires
        0 <= row < 8,
        pieces_upto(initial_grid(), side, (8 * row) as nat).len() == before,
    ensures
        pieces_upto(initial_grid(), side, (8 * row + 8) as nat).len() == before + (if (side
            == Side::AI && row < 3) || (side == Side::Player && row >= 5) {
            4nat
        } else {
            0nat
        }),
{
    let g = initial_grid();
    lemma_initial_cell(side, row, 0, before);
    let n1 = pieces_upto(g, side, (8 * row + 1) as nat).len();
    lemma_initial_cell(side, row, 1, n1);
    let n2 = pieces_upto(g, side, (8 * row + 2) as nat).len();
    lemma_initial_cell(side, row, 2, n2);
    let n3 = pieces_upto(g, side, (8 * row + 3) as nat).len();
    lemma_initial_cell(side, row, 3, n3);
    let n4 = pieces_upto(g, side, (8 * row + 4) as nat).len();
    lemma_initial_cell(side, row, 4, n4);
    let n5 = pieces_upto(g, side, (8 * row + 5) as nat).len();
    lemma_initial_cell(side, row, 5, n5);
    let n6 = pieces_upto(g, side, (8 * row + 6) as nat).len();
    lemma_initial_cell(side, row, 6, n6);
    let n7 = pieces_upto(g, side, (8 * row + 7) as nat).len();
    lemma_initial_cell(side, row, 7, n7);
}

} // verus!
