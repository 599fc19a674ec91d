//! The game as a state machine: whose turn it is, which moves are accepted, when it ends.

use vstd::prelude::*;

use crate::ai::minimax::{best_move_spec, get_best_move, MAX_DEPTH};
use crate::board::movement::{Move, MoveError, MoveType};
use crate::board::piece::side::Side;
use crate::board::piece::PieceInstance;
use crate::board::position::Position;
use crate::board::{apply_spec, initial_grid, Board, BoardError, Grid};
use crate::move_controller::{
    any_jump, generated, has_jump, is_jump, lemma_generated_shape, lemma_side_moves_complete,
    lemma_side_moves_generated, moves_per_piece, moves_per_side, piece_moves, right_up,
    side_candidates, side_moves, starts_at,
};

verus! {

/// Why a request to the game was turned down.
#[derive(Clone, Copy, Debug, PartialEq, Eq, Structural)]
pub enum GameError {
    GameOver,
    NotYourTurn,
    NotAiTurn,
    InvalidMove,
    NoMovesAvailable,
    BoardError(BoardError),
    MoveError(MoveError),
}

impl From<BoardError> for GameError {
    fn from(e: BoardError) -> (r: Self) {
        GameError::BoardError(e)
    }
}

impl vstd::std_specs::convert::FromSpecImpl<BoardError> for GameError {
    open spec fn obeys_from_spec() -> bool {
        true
    }

    open spec fn from_spec(e: BoardError) -> Self {
        GameError::BoardError(e)
    }
}

impl From<MoveError> for GameError {
    fn from(e: MoveError) -> (r: Self) {
        GameError::MoveError(e)
    }
}

impl vstd::std_specs::convert::FromSpecImpl<MoveError> for GameError {
    open spec fn obeys_from_spec() -> bool {
        true
    }

    open spec fn from_spec(e: MoveError) -> Self {
        GameError::MoveError(e)
    }
}

/// A game in progress or finished.
#[derive(Clone, Copy, Debug, PartialEq, Eq)]
pub struct GameManager {
    pub board: Board,
    pub current_turn: Side,
    pub game_over: bool,
    pub winner: Option<Side>,
}

/// The piece that stands on `pos`, where one does.
pub open spec fn piece_at(grid: Grid, pos: Position) -> PieceInstance {
    PieceInstance { position: pos, data: grid[pos] }
}

/// Why `mv` is turned down in a game with these contents, this side to move and this
/// state, or `None` where it is accepted. A finished game takes no move; the start square
/// must hold a piece; the piece must belong to the side to move; and the move must be one
/// of the piece's legal moves.
pub open spec fn refusal(grid: Grid, turn: Side, over: bool, mv: Move) -> Option<GameError> {
    if over {
        Some(GameError::GameOver)
    } else if !grid.contains_key(mv.from) {
        Some(GameError::InvalidMove)
    } else if grid[mv.from].owner != turn {
        Some(GameError::NotYourTurn)
    } else if !piece_moves(grid, piece_at(grid, mv.from)).contains(mv) {
        Some(GameError::InvalidMove)
    } else {
        None
    }
}

/// After the jump `mv` the side that made it moves again where, with the contents `after`
/// the move, any of its pieces can jump.
pub open spec fn keeps_turn(after: Grid, turn: Side, mv: Move) -> bool {
    mv.move_type == MoveType::Jump && has_jump(side_moves(after, turn))
}

/// The legal moves of the piece on `pos` where it belongs to the side to move; no moves
/// where the square is empty or the piece belongs to the other side.
pub open spec fn possible_moves(grid: Grid, turn: Side, pos: Position) -> Seq<Move> {
    if grid.contains_key(pos) && grid[pos].owner == turn {
        piece_moves(grid, piece_at(grid, pos))
    } else {
        Seq::empty()
    }
}

impl GameManager {
    /// The pieces stand on dark squares; there is a winner exactly when the game is over;
    /// and while the game is on, the side to move has a legal move.
    pub open spec fn wf(&self) -> bool {
        &&& self.board.wf()
        &&& self.winner is Some <==> self.game_over
        &&& !self.game_over ==> side_moves(self.board@, self.current_turn).len() > 0
    }

    /// The game `self` has become `post` by the accepted move `mv`: the board carries the
    /// move; the turn passes unless the mover must jump again; and where the turn has passed
    /// to a side without legal moves, the game is over and the mover has won.
    pub open spec fn moved(&self, post: GameManager, mv: Move) -> bool {
        let after = apply_spec(self.board@, mv);
        &&& post.board@ == after
        &&& if keeps_turn(after, self.current_turn, mv) {
            &&& post.current_turn == self.current_turn
            &&& post.game_over == self.game_over
            &&& post.winner == self.winner
        } else {
            &&& post.current_turn == self.current_turn.other()
            &&& if side_moves(after, self.current_turn.other()).len() == 0 {
                post.game_over && post.winner == Some(self.current_turn)
            } else {
                post.game_over == self.game_over && post.winner == self.winner
            }
        }
    }

    /// A new game: the pieces on their starting squares, the player to move.
    pub fn new() -> (game: GameManager)
        ensures
            game.board@ == initial_grid(),
            game.current_turn == Side::Player,
            !game.game_over,
            game.winner is None,
            game.wf(),
    {
        proof {
            lemma_opening_has_moves();
        }
        GameManager {
            board: Board::setup(),
            current_turn: Side::Player,
            game_over: false,
            winner: None,
        }
    }

    /// Carries out `mv` for the side to move, if the rules allow it. A refused move
    /// changes nothing.
    pub fn make_move(&mut self, mv: Move) -> (r: Result<(), GameError>)
        requires
            old(self).game_over || mv.from.on_board(),
        ensures
            match refusal(old(self).board@, old(self).current_turn, old(self).game_over, mv) {
                Some(e) => r == Err::<(), GameError>(e) && *final(self) == *old(self),
                None => r is Ok && old(self).moved(*final(self), mv),
            },
            old(self).wf() ==> final(self).wf(),
    {
        if self.game_over {
            return Err(GameError::GameOver);
        }
        let pos = mv.from;
        let data = match self.board.get_square(&pos) {
            Some(data) => *data,
            None => {
                return Err(GameError::InvalidMove);
            },
        };
        let piece = PieceInstance { position: pos, data };
        if piece.data.owner != self.current_turn {
            return Err(GameError::NotYourTurn);
        }
        let possible_moves = moves_per_piece(&self.board, &piece);
        if !contains_move(&possible_moves, &mv) {
            return Err(GameError::InvalidMove);
        }
        proof {
            lemma_legal_move(self.board@, piece, mv);
            lemma_generated_shape(self.board@, self.current_turn, mv);
        }
        if let Err(e) = self.board.apply_move(&mv) {
            return Err(GameError::from(e));
        }
        if mv.move_type == MoveType::Jump {
            let remaining_moves = moves_per_side(&self.board, self.current_turn);
            if any_jump(&remaining_moves) {
                return Ok(());
            }
        }
        self.current_turn = match self.current_turn {
            Side::Player => Side::AI,
            Side::AI => Side::Player,
        };

        let opponent_moves = moves_per_side(&self.board, self.current_turn);
        if opponent_moves.len() == 0 {
            self.game_over = true;
            self.winner = Some(
                match self.current_turn {
                    Side::Player => Side::AI,
                    Side::AI => Side::Player,
                },
            );
        }
        Ok(())
    }

    /// What the piece on `pos` may do now: its legal moves where it belongs to the side
    /// to move, nothing otherwise.
    pub fn get_possible_moves(&self, pos: Position) -> (moves: Vec<Move>)
        requires
            pos.on_board(),
        ensures
            moves@ == possible_moves(self.board@, self.current_turn, pos),
    {
        if let Some(data) = self.board.get_square(&pos) {
            let piece = PieceInstance { position: pos, data: *data };
            if piece.data.owner == self.current_turn {
                moves_per_piece(&self.board, &piece)
            } else {
                Vec::new()
            }
        } else {
            Vec::new()
        }
    }

    /// Lets the computer make its best move. Refused, with nothing changed, where the
    /// game is over, where it is not the computer's turn, and where the computer has no
    /// legal move. The last cannot happen in a well-formed game: there the game is over
    /// as soon as the side to move has no legal move.
    pub fn make_ai_move(&mut self) -> (r: Result<(), GameError>)
        ensures
            old(self).wf() && !old(self).game_over && old(self).current_turn == Side::AI ==> r is Ok,
            old(self).game_over ==> r == Err::<(), GameError>(GameError::GameOver) && *final(self)
                == *old(self),
            !old(self).game_over && old(self).current_turn != Side::AI ==> r == Err::<
                (),
                GameError,
            >(GameError::NotAiTurn) && *final(self) == *old(self),
            !old(self).game_over && old(self).current_turn == Side::AI ==> match best_move_spec(
                old(self).board@,
                Side::AI,
                MAX_DEPTH as nat,
            ) {
                Some(mv) => r is Ok && old(self).moved(*final(self), mv),
                None => r == Err::<(), GameError>(GameError::NoMovesAvailable) && *final(self)
                    == *old(self),
            },
            old(self).wf() ==> final(self).wf(),
    {
        if self.game_over {
            return Err(GameError::GameOver);
        }
        if self.current_turn != Side::AI {
            return Err(GameError::NotAiTurn);
        }
        let best_move = match get_best_move(&self.board, Side::AI) {
            Some(mv) => mv,
            None => {
                return Err(GameError::NoMovesAvailable);
            },
        };
        proof {
            lemma_side_move_accepted(self.board@, Side::AI, best_move);
        }
        self.make_move(best_move)
    }
}

/// At the start of a game the player has a legal move.
pub proof fn lemma_opening_has_moves()
    ensures
        side_moves(initial_grid(), Side::Player).len() > 0,
{
    let grid = initial_grid();
    let from = Position { row: 5, col: 0 };
    let step = Move { from, to: Position { row: 4, col: 1 }, move_type: MoveType::Move };
    assert(grid.contains_key(from));
    assert(!grid.contains_key(step.to));
    lemma_side_moves_complete(grid, Side::Player, from, right_up(), step);
    let all = side_candidates(grid, Side::Player);
    if has_jump(all) {
        let i = choose|i: int| 0 <= i < all.len() && (#[trigger] all[i]).move_type
            == MoveType::Jump;
        all.lemma_filter_contains(is_jump(), i);
    }
}

/// Whether `mv` is one of `moves`.
fn contains_move(moves: &Vec<Move>, mv: &Move) -> (found: bool)
    ensures
        found == moves@.contains(*mv),
{
    let mut i: usize = 0;
    while i < moves.len()
        invariant
            i <= moves.len(),
            forall|j: int| 0 <= j < i ==> moves@[j] != *mv,
        decreases moves.len() - i,
    {
        if moves[i] == *mv {
            return true;
        }
        i += 1;
    }
    false
}

/// A legal move of a piece that stands on the board is a generated move of its side.
pub proof fn lemma_legal_move(grid: Grid, piece: PieceInstance, mv: Move)
    requires
        piece_moves(grid, piece).contains(mv),
    ensures
        side_moves(grid, piece.data.owner).contains(mv),
        generated(grid, piece.data.owner, mv),
        mv.from == piece.position,
{
    let all = side_moves(grid, piece.data.owner);
    all.lemma_filter_contains_rev(starts_at(piece.position), mv);
    let k = all.lemma_contains_to_index(mv);
    lemma_side_moves_generated(grid, piece.data.owner);
    assert(generated(grid, piece.data.owner, all[k]));
    let own = piece_moves(grid, piece);
    let j = own.lemma_contains_to_index(mv);
    all.lemma_filter_pred(starts_at(piece.position), j);
}

/// Every move that is offered for a square starts on that square, which lies on the grid.
pub proof fn lemma_possible_moves_start(grid: Grid, turn: Side, pos: Position)
    requires
        pos.on_board(),
    ensures
        forall|i: int|
            0 <= i < possible_moves(grid, turn, pos).len() ==> (#[trigger] possible_moves(
                grid,
                turn,
                pos,
            )[i]).from == pos,
{
    let offered = possible_moves(grid, turn, pos);
    assert forall|i: int| 0 <= i < offered.len() implies (#[trigger] offered[i]).from == pos by {
        side_moves(grid, grid[pos].owner).lemma_filter_pred(starts_at(pos), i);
    }
}

/// Every legal move of the side to move is accepted while the game is on.
pub proof fn lemma_side_move_accepted(grid: Grid, turn: Side, mv: Move)
    requires
        side_moves(grid, turn).contains(mv),
    ensures
        refusal(grid, turn, false, mv) is None,
        mv.from.on_board(),
{
    let all = side_moves(grid, turn);
    let k = all.lemma_contains_to_index(mv);
    lemma_side_moves_generated(grid, turn);
    assert(generated(grid, turn, all[k]));
    all.lemma_filter_contains(starts_at(mv.from), k);
}

/// Turns alternate: a plain move passes the turn to the other side; so does a jump after
/// which the mover's side has no jump; a jump after which it has one keeps the turn.
pub proof fn lemma_turn_alternation(pre: GameManager, post: GameManager, mv: Move)
    requires
        pre.moved(post, mv),
    ensures
        mv.move_type != MoveType::Jump ==> post.current_turn == pre.current_turn.other(),
        mv.move_type == MoveType::Jump && !has_jump(side_moves(post.board@, pre.current_turn))
            ==> post.current_turn == pre.current_turn.other(),
        mv.move_type == MoveType::Jump && has_jump(side_moves(post.board@, pre.current_turn))
            ==> post.current_turn == pre.current_turn,
{
}

/// The game ends when the turn passes to a side that cannot move: the side that has
/// just moved wins.
pub proof fn lemma_termination(pre: GameManager, post: GameManager, mv: Move)
    requires
        pre.moved(post, mv),
        post.current_turn != pre.current_turn,
        side_moves(post.board@, post.current_turn).len() == 0,
    ensures
        post.game_over,
        post.winner == Some(pre.current_turn),
{
}

} // verus!
