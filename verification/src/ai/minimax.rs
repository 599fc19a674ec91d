//! Fixed-depth minimax search with alpha-beta pruning over a static evaluation.

use vstd::prelude::*;

use crate::board::movement::Move;
use crate::board::piece::side::Side;
use crate::board::piece::PieceInstance;
use crate::board::position::Position;
use crate::board::{apply_spec, lemma_pieces_len, pieces_of_side, Board, Grid};
use crate::move_controller::{
    generated, lemma_generated_shape, lemma_pieces_sound, lemma_side_moves_generated,
    moves_per_side, side_moves,
};

verus! {

/// The number of plies that `get_best_move` looks ahead.
pub const MAX_DEPTH: usize = 6;

/// The value of a position that is lost for the side the search works for.
pub open spec fn lost() -> int {
    i16::MIN + 1
}

/// The value of a position that is won for the side the search works for.
pub open spec fn won() -> int {
    i16::MAX - 1
}

/// How far a piece of `side` on `pos` has come towards its far edge.
pub open spec fn progress(side: Side, pos: Position) -> int {
    match side {
        Side::AI => pos.row as int,
        Side::Player => 7 - pos.row,
    }
}

/// What one piece of `side` counts for: ten, or thirty for a king, and its progress.
pub open spec fn worth(side: Side, piece: PieceInstance) -> int {
    (if piece.data.is_king {
        30int
    } else {
        10int
    }) + progress(side, piece.position)
}

/// The square lies in the inner four rows and columns.
pub open spec fn in_center(pos: Position) -> bool {
    2 <= pos.row < 6 && 2 <= pos.col < 6
}

/// What the first `n` of `pieces` count for together, as pieces of `side`.
pub open spec fn worth_sum(side: Side, pieces: Seq<PieceInstance>, n: nat) -> int
    decreases n,
{
    if n == 0 {
        0
    } else {
        worth_sum(side, pieces, (n - 1) as nat) + worth(side, pieces[n - 1])
    }
}

/// Two points for each of the first `n` of `pieces` that stands in the center.
pub open spec fn center_sum(pieces: Seq<PieceInstance>, n: nat) -> int
    decreases n,
{
    if n == 0 {
        0
    } else {
        center_sum(pieces, (n - 1) as nat) + (if in_center(pieces[n - 1].position) {
            2int
        } else {
            0int
        })
    }
}

/// The static value of `grid` for `ai_side`. A side without pieces has lost. Otherwise:
/// own pieces count for, the other side's against; each legal move of the own side
/// counts one for, each of the other side one against; own pieces in the center count
/// two more.
pub open spec fn evaluate_spec(grid: Grid, ai_side: Side) -> int {
    let own = pieces_of_side(grid, ai_side);
    let other = pieces_of_side(grid, ai_side.other());
    if other.len() == 0 {
        won()
    } else if own.len() == 0 {
        lost()
    } else {
        worth_sum(ai_side, own, own.len()) - worth_sum(ai_side.other(), other, other.len())
            + side_moves(grid, ai_side).len() - side_moves(grid, ai_side.other()).len()
            + center_sum(own, own.len())
    }
}

/// Pieces that stand on the grid count for between nothing and 37 each.
proof fn lemma_worth_sum_bounds(side: Side, pieces: Seq<PieceInstance>, n: nat)
    requires
        n <= pieces.len(),
        forall|i: int| 0 <= i < pieces.len() ==> (#[trigger] pieces[i]).position.on_board(),
    ensures
        0 <= worth_sum(side, pieces, n) <= 37 * n,
        0 <= center_sum(pieces, n) <= 2 * n,
    decreases n,
{
    if n > 0 {
        lemma_worth_sum_bounds(side, pieces, (n - 1) as nat);
        assert(pieces[n - 1].position.on_board());
    }
}

/// The static value never reaches the ends of the `i16` range.
pub proof fn lemma_evaluate_range(grid: Grid, ai_side: Side)
    ensures
        lost() <= evaluate_spec(grid, ai_side) <= won(),
{
    let own = pieces_of_side(grid, ai_side);
    let other = pieces_of_side(grid, ai_side.other());
    lemma_pieces_len(grid, ai_side, 64);
    lemma_pieces_len(grid, ai_side.other(), 64);
    lemma_pieces_sound(grid, ai_side, 64);
    lemma_pieces_sound(grid, ai_side.other(), 64);
    lemma_worth_sum_bounds(ai_side, own, own.len());
    lemma_worth_sum_bounds(ai_side.other(), other, other.len());
    lemma_side_moves_generated(grid, ai_side);
    lemma_side_moves_generated(grid, ai_side.other());
}

/// The static value of `board` for `ai_side`.
pub fn evaluate_board(board: &Board, ai_side: Side) -> (score: i16)
    ensures
        score == evaluate_spec(board@, ai_side),
{
    let ai_pieces = board.all_pieces_of_side(ai_side);
    let opponent_pieces = board.all_pieces_of_side(ai_side.opposite());

    if opponent_pieces.len() == 0 {
        return i16::MAX - 1;
    }
    if ai_pieces.len() == 0 {
        return i16::MIN + 1;
    }
    proof {
        lemma_pieces_sound(board@, ai_side, 64);
        lemma_pieces_sound(board@, ai_side.other(), 64);
        lemma_worth_sum_bounds(ai_side, ai_pieces@, ai_pieces@.len());
        lemma_worth_sum_bounds(ai_side.other(), opponent_pieces@, opponent_pieces@.len());
        lemma_side_moves_generated(board@, ai_side);
        lemma_side_moves_generated(board@, ai_side.other());
    }

    let mut score: i16 = 0;

    let mut i: usize = 0;
    while i < ai_pieces.len()
        invariant
            i <= ai_pieces.len() <= 64,
            forall|k: int| 0 <= k < ai_pieces.len() ==> (#[trigger] ai_pieces@[k]).position.on_board(),
            score == worth_sum(ai_side, ai_pieces@, i as nat),
            0 <= score <= 37 * i,
        decreases ai_pieces.len() - i,
    {
        let piece = &ai_pieces[i];
        assert(piece.position.on_board());
        score += if piece.data.is_king {
            30
        } else {
            10
        };
        let row_bonus = match ai_side {
            Side::AI => piece.position.row as i16,
            Side::Player => (7 - piece.position.row) as i16,
        };
        score += row_bonus;
        i += 1;
    }

    let ghost own_worth = score as int;
    let other_side = ai_side.opposite();
    let mut j: usize = 0;
    while j < opponent_pieces.len()
        invariant
            j <= opponent_pieces.len() <= 64,
            other_side == ai_side.other(),
            forall|k: int|
                0 <= k < opponent_pieces.len() ==> (#[trigger] opponent_pieces@[k]).position.on_board(),
            0 <= own_worth <= 37 * 64,
            score == own_worth - worth_sum(other_side, opponent_pieces@, j as nat),
            0 <= worth_sum(other_side, opponent_pieces@, j as nat) <= 37 * j,
        decreases opponent_pieces.len() - j,
    {
        let piece = &opponent_pieces[j];
        assert(piece.position.on_board());
        score -= if piece.data.is_king {
            30
        } else {
            10
        };
        let row_bonus = match other_side {
            Side::AI => piece.position.row as i16,
            Side::Player => (7 - piece.position.row) as i16,
        };
        score -= row_bonus;
        j += 1;
    }

    let ai_moves = moves_per_side(board, ai_side);
    let opponent_moves = moves_per_side(board, ai_side.opposite());

    score += ai_moves.len() as i16;
    score -= opponent_moves.len() as i16;

    let ghost base = score as int;
    let mut k: usize = 0;
    while k < ai_pieces.len()
        invariant
            k <= ai_pieces.len() <= 64,
            -3000 <= base <= 3000,
            score == base + center_sum(ai_pieces@, k as nat),
            0 <= center_sum(ai_pieces@, k as nat) <= 2 * k,
        decreases ai_pieces.len() - k,
    {
        let piece = &ai_pieces[k];
        if piece.position.row >= 2 && piece.position.row < 6 && piece.position.col >= 2
            && piece.position.col < 6 {
            score += 2;
        }
        k += 1;
    }

    score
}

/// The side that moves on a ply: the computer on a maximizing ply, the player on a
/// minimizing one.
pub open spec fn mover(maximizing: bool) -> Side {
    if maximizing {
        Side::AI
    } else {
        Side::Player
    }
}

/// The value of `grid` when the search looks `depth` plies ahead and every move is looked
/// at. At depth zero it is the static value. A side that has to move and cannot has lost.
/// Otherwise it is the highest value among the positions after each legal move on a
/// maximizing ply, and the lowest on a minimizing one.
pub open spec fn minimax_value(grid: Grid, depth: nat, maximizing: bool, ai_side: Side) -> int
    decreases depth, 1nat, 0nat,
{
    if depth == 0 {
        evaluate_spec(grid, ai_side)
    } else {
        let moves = side_moves(grid, mover(maximizing));
        if moves.len() == 0 {
            if maximizing {
                lost()
            } else {
                won()
            }
        } else {
            children_value(grid, moves, moves.len(), depth, maximizing, ai_side)
        }
    }
}

/// The value of the position that `mv` leads to, seen from a ply at `depth`.
pub open spec fn child_value(grid: Grid, mv: Move, depth: nat, maximizing: bool, ai_side: Side) -> int
    decreases depth, 0nat, 0nat,
{
    if depth == 0 {
        0
    } else {
        minimax_value(apply_spec(grid, mv), (depth - 1) as nat, !maximizing, ai_side)
    }
}

/// The highest (on a maximizing ply) or lowest (on a minimizing ply) value among the
/// positions after the first `n` of `moves`. Before any move it is the end of the `i16`
/// range that every value beats.
pub open spec fn children_value(
    grid: Grid,
    moves: Seq<Move>,
    n: nat,
    depth: nat,
    maximizing: bool,
    ai_side: Side,
) -> int
    decreases depth, 0nat, n,
{
    if depth == 0 || n == 0 {
        if maximizing {
            i16::MIN as int
        } else {
            i16::MAX as int
        }
    } else {
        let rest = children_value(grid, moves, (n - 1) as nat, depth, maximizing, ai_side);
        let value = child_value(grid, moves[n - 1], depth, maximizing, ai_side);
        if maximizing {
            if value > rest {
                value
            } else {
                rest
            }
        } else {
            if value < rest {
                value
            } else {
                rest
            }
        }
    }
}

/// The value of a position never reaches the ends of the `i16` range.
pub proof fn lemma_minimax_range(grid: Grid, depth: nat, maximizing: bool, ai_side: Side)
    ensures
        lost() <= minimax_value(grid, depth, maximizing, ai_side) <= won(),
    decreases depth, 1nat, 0nat,
{
    if depth == 0 {
        lemma_evaluate_range(grid, ai_side);
    } else {
        let moves = side_moves(grid, mover(maximizing));
        if moves.len() > 0 {
            lemma_children_range(grid, moves, moves.len(), depth, maximizing, ai_side);
        }
    }
}

/// Once one move has been looked at, the best value so far lies inside the range.
proof fn lemma_children_range(
    grid: Grid,
    moves: Seq<Move>,
    n: nat,
    depth: nat,
    maximizing: bool,
    ai_side: Side,
)
    requires
        depth >= 1,
        n >= 1,
    ensures
        lost() <= children_value(grid, moves, n, depth, maximizing, ai_side) <= won(),
    decreases depth, 0nat, n,
{
    lemma_minimax_range(apply_spec(grid, moves[n - 1]), (depth - 1) as nat, !maximizing, ai_side);
    assert(child_value(grid, moves[n - 1], depth, maximizing, ai_side) == minimax_value(
        apply_spec(grid, moves[n - 1]),
        (depth - 1) as nat,
        !maximizing,
        ai_side,
    ));
    if n > 1 {
        lemma_children_range(grid, moves, (n - 1) as nat, depth, maximizing, ai_side);
    } else {
        assert(children_value(grid, moves, 0, depth, maximizing, ai_side) == if maximizing {
            i16::MIN as int
        } else {
            i16::MAX as int
        });
    }
}

/// On a maximizing ply the best value is at least the value after each move, on a
/// minimizing ply at most.
proof fn lemma_children_bound(
    grid: Grid,
    moves: Seq<Move>,
    n: nat,
    k: int,
    depth: nat,
    maximizing: bool,
    ai_side: Side,
)
    requires
        depth >= 1,
        0 <= k < n,
    ensures
        maximizing ==> children_value(grid, moves, n, depth, maximizing, ai_side) >= child_value(
            grid,
            moves[k],
            depth,
            maximizing,
            ai_side,
        ),
        !maximizing ==> children_value(grid, moves, n, depth, maximizing, ai_side) <= child_value(
            grid,
            moves[k],
            depth,
            maximizing,
            ai_side,
        ),
    decreases n,
{
    if k < n - 1 {
        lemma_children_bound(grid, moves, (n - 1) as nat, k, depth, maximizing, ai_side);
    }
}

/// Searches `depth` plies ahead within the window from `alpha` to `beta`. A result
/// inside the window is the value of the position. A result at or below `alpha` is an
/// upper bound of the value, one at or above `beta` a lower bound.
fn minimax(
    board: &Board,
    depth: usize,
    alpha: i16,
    beta: i16,
    is_maximizing: bool,
    ai_side: Side,
) -> (r: i16)
    requires
        alpha < beta,
    ensures
        lost() <= r <= won(),
        r <= alpha ==> minimax_value(board@, depth as nat, is_maximizing, ai_side) <= r,
        r >= beta ==> minimax_value(board@, depth as nat, is_maximizing, ai_side) >= r,
        alpha < r < beta ==> minimax_value(board@, depth as nat, is_maximizing, ai_side) == r,
    decreases depth,
{
    if depth == 0 {
        proof {
            lemma_evaluate_range(board@, ai_side);
        }
        return evaluate_board(board, ai_side);
    }
    let current_side = if is_maximizing {
        Side::AI
    } else {
        Side::Player
    };
    let moves = moves_per_side(board, current_side);

    if moves.len() == 0 {
        if is_maximizing {
            return i16::MIN + 1;
        } else {
            return i16::MAX - 1;
        }
    }
    proof {
        lemma_side_moves_generated(board@, current_side);
    }
    let ghost value = minimax_value(board@, depth as nat, is_maximizing, ai_side);
    let mut alpha = alpha;
    let mut beta = beta;
    let ghost alpha0 = alpha;
    let ghost beta0 = beta;

    if is_maximizing {
        let mut max_eval = i16::MIN;
        let mut i: usize = 0;
        while i < moves.len()
            invariant_except_break
                alpha < beta,
                i == 0 ==> max_eval == i16::MIN,
                i > 0 ==> lost() <= max_eval <= won(),
                alpha == (if max_eval > alpha0 {
                    max_eval
                } else {
                    alpha0
                }),
                max_eval <= alpha0 ==> children_value(
                    board@,
                    moves@,
                    i as nat,
                    depth as nat,
                    true,
                    ai_side,
                ) <= max_eval,
                alpha0 < max_eval ==> children_value(
                    board@,
                    moves@,
                    i as nat,
                    depth as nat,
                    true,
                    ai_side,
                ) == max_eval,
            invariant
                is_maximizing,
                depth >= 1,
                beta == beta0,
                alpha0 < beta0,
                0 < moves.len(),
                i <= moves.len(),
                moves@ == side_moves(board@, Side::AI),
                forall|k: int|
                    0 <= k < moves@.len() ==> generated(board@, Side::AI, #[trigger] moves@[k]),
                value == children_value(
                    board@,
                    moves@,
                    moves@.len(),
                    depth as nat,
                    true,
                    ai_side,
                ),
            ensures
                lost() <= max_eval <= won(),
                max_eval <= alpha0 ==> value <= max_eval,
                max_eval >= beta0 ==> value >= max_eval,
                alpha0 < max_eval < beta0 ==> value == max_eval,
            decreases moves.len() - i,
        {
            let mv = moves[i];
            proof {
                lemma_generated_shape(board@, Side::AI, mv);
            }
            let mut board_clone = board.clone();
            if board_clone.apply_move(&mv).is_ok() {
                let eval = minimax(&board_clone, depth - 1, alpha, beta, false, ai_side);
                proof {
                    assert(board_clone@ == apply_spec(board@, mv));
                    assert(child_value(board@, moves@[i as int], depth as nat, true, ai_side)
                        == minimax_value(board_clone@, (depth - 1) as nat, false, ai_side));
                    assert(children_value(board@, moves@, 0, depth as nat, true, ai_side)
                        == i16::MIN);
                }
                if eval > max_eval {
                    max_eval = eval;
                }
                if eval > alpha {
                    alpha = eval;
                }
                if beta <= alpha {
                    proof {
                        lemma_children_bound(
                            board@,
                            moves@,
                            moves@.len(),
                            i as int,
                            depth as nat,
                            true,
                            ai_side,
                        );
                    }
                    break;
                }
            }
            i += 1;
        }
        max_eval
    } else {
        let mut min_eval = i16::MAX;
        let mut i: usize = 0;
        while i < moves.len()
            invariant_except_break
                alpha < beta,
                i == 0 ==> min_eval == i16::MAX,
                i > 0 ==> lost() <= min_eval <= won(),
                beta == (if min_eval < beta0 {
                    min_eval
                } else {
                    beta0
                }),
                min_eval >= beta0 ==> children_value(
                    board@,
                    moves@,
                    i as nat,
                    depth as nat,
                    false,
                    ai_side,
                ) >= min_eval,
                min_eval < beta0 ==> children_value(
                    board@,
                    moves@,
                    i as nat,
                    depth as nat,
                    false,
                    ai_side,
                ) == min_eval,
            invariant
                !is_maximizing,
                depth >= 1,
                alpha == alpha0,
                alpha0 < beta0,
                0 < moves.len(),
                i <= moves.len(),
                moves@ == side_moves(board@, Side::Player),
                forall|k: int|
                    0 <= k < moves@.len() ==> generated(board@, Side::Player, #[trigger] moves@[k]),
                value == children_value(
                    board@,
                    moves@,
                    moves@.len(),
                    depth as nat,
                    false,
                    ai_side,
                ),
            ensures
                lost() <= min_eval <= won(),
                min_eval <= alpha0 ==> value <= min_eval,
                min_eval >= beta0 ==> value >= min_eval,
                alpha0 < min_eval < beta0 ==> value == min_eval,
            decreases moves.len() - i,
        {
            let mv = moves[i];
            proof {
                lemma_generated_shape(board@, Side::Player, mv);
            }
            let mut board_clone = board.clone();
            if board_clone.apply_move(&mv).is_ok() {
                let eval = minimax(&board_clone, depth - 1, alpha, beta, true, ai_side);
                proof {
                    assert(board_clone@ == apply_spec(board@, mv));
                    assert(child_value(board@, moves@[i as int], depth as nat, false, ai_side)
                        == minimax_value(board_clone@, (depth - 1) as nat, true, ai_side));
                    assert(children_value(board@, moves@, 0, depth as nat, false, ai_side)
                        == i16::MAX);
                }
                if eval < min_eval {
                    min_eval = eval;
                }
                if eval < beta {
                    beta = eval;
                }
                if beta <= alpha {
                    proof {
                        lemma_children_bound(
                            board@,
                            moves@,
                            moves@.len(),
                            i as int,
                            depth as nat,
                            false,
                            ai_side,
                        );
                    }
                    break;
                }
            }
            i += 1;
        }
        min_eval
    }
}

/// What the move `mv` of `side` is worth when the search looks `depth` plies ahead: the
/// value of the position after it, where a minimizing ply comes next.
pub open spec fn move_score(grid: Grid, side: Side, depth: nat, mv: Move) -> int {
    minimax_value(apply_spec(grid, mv), (depth - 1) as nat, false, side)
}

/// The place of the best among the first `n` of `moves`: the first of those with the
/// highest score.
pub open spec fn best_index(grid: Grid, side: Side, depth: nat, moves: Seq<Move>, n: nat) -> int
    decreases n,
{
    if n <= 1 {
        0
    } else {
        let before = best_index(grid, side, depth, moves, (n - 1) as nat);
        if move_score(grid, side, depth, moves[n - 1]) > move_score(
            grid,
            side,
            depth,
            moves[before],
        ) {
            n - 1
        } else {
            before
        }
    }
}

/// The move that the search picks for `side`: none where the side has no legal move,
/// else the first of its legal moves with the highest score.
pub open spec fn best_move_spec(grid: Grid, side: Side, depth: nat) -> Option<Move> {
    let moves = side_moves(grid, side);
    if moves.len() == 0 {
        None
    } else {
        Some(moves[best_index(grid, side, depth, moves, moves.len())])
    }
}

/// The best move has the highest score of all, and every move before it has a lower one.
pub proof fn lemma_best_index(grid: Grid, side: Side, depth: nat, moves: Seq<Move>, n: nat)
    requires
        1 <= n <= moves.len(),
    ensures
        0 <= best_index(grid, side, depth, moves, n) < n,
        forall|j: int|
            0 <= j < n ==> move_score(grid, side, depth, #[trigger] moves[j]) <= move_score(
                grid,
                side,
                depth,
                moves[best_index(grid, side, depth, moves, n)],
            ),
        forall|j: int|
            0 <= j < best_index(grid, side, depth, moves, n) ==> move_score(
                grid,
                side,
                depth,
                #[trigger] moves[j],
            ) < move_score(grid, side, depth, moves[best_index(grid, side, depth, moves, n)]),
    decreases n,
{
    if n > 1 {
        lemma_best_index(grid, side, depth, moves, (n - 1) as nat);
    }
}

/// The search depends on nothing but the contents of the board, the side and the depth:
/// asked twice about the same position, it picks the same move.
pub proof fn lemma_search_deterministic(first: Board, second: Board, side: Side, depth: nat)
    requires
        first@ == second@,
    ensures
        best_move_spec(first@, side, depth) == best_move_spec(second@, side, depth),
{
}

/// The best move of `side` on `board` when the search looks `depth` plies ahead, or none
/// where the side cannot move.
pub fn decide_move(board: &Board, side: Side, depth: usize) -> (best: Option<Move>)
    requires
        depth >= 1,
    ensures
        best == best_move_spec(board@, side, depth as nat),
        best is None <==> side_moves(board@, side).len() == 0,
        best matches Some(mv) ==> side_moves(board@, side).contains(mv),
{
    let moves = moves_per_side(board, side);
    if moves.len() == 0 {
        return None;
    }
    proof {
        lemma_side_moves_generated(board@, side);
    }
    let mut best_move: Option<Move> = None;
    let mut best_score = i16::MIN;

    let mut i: usize = 0;
    while i < moves.len()
        invariant
            depth >= 1,
            0 < moves.len(),
            i <= moves.len(),
            moves@ == side_moves(board@, side),
            forall|k: int| 0 <= k < moves@.len() ==> generated(board@, side, #[trigger] moves@[k]),
            i == 0 ==> best_move is None && best_score == i16::MIN,
            i > 0 ==> best_move == Some(
                moves@[best_index(board@, side, depth as nat, moves@, i as nat)],
            ) && best_score == move_score(
                board@,
                side,
                depth as nat,
                moves@[best_index(board@, side, depth as nat, moves@, i as nat)],
            ),
        decreases moves.len() - i,
    {
        let mv = moves[i];
        proof {
            lemma_generated_shape(board@, side, mv);
            if i > 0 {
                lemma_best_index(board@, side, depth as nat, moves@, i as nat);
            }
        }
        let mut board_clone = board.clone();
        if board_clone.apply_move(&mv).is_ok() {
            let score = minimax(&board_clone, depth - 1, i16::MIN, i16::MAX, false, side);
            proof {
                lemma_minimax_range(board_clone@, (depth - 1) as nat, false, side);
                assert(score == move_score(board@, side, depth as nat, mv));
            }
            if score > best_score {
                best_score = score;
                best_move = Some(mv);
            }
        }
        i += 1;
    }
    proof {
        lemma_best_index(board@, side, depth as nat, moves@, moves@.len());
    }
    best_move
}

/// The best move of `side` on `board` at the usual depth, or none where the side cannot
/// move.
pub fn get_best_move(board: &Board, side: Side) -> (best: Option<Move>)
    ensures
        best == best_move_spec(board@, side, MAX_DEPTH as nat),
        best is None <==> side_moves(board@, side).len() == 0,
        best matches Some(mv) ==> side_moves(board@, side).contains(mv),
{
    decide_move(board, side, MAX_DEPTH)
}

} // verus!
