//! Legal moves of a single piece and of a whole side, with the forced-capture rule.

use vstd::prelude::*;

use crate::board::movement::direction::{MoveDirection, MoveHorizontal, MoveVertical};
use crate::board::movement::{Move, MoveType};
use crate::board::piece::side::Side;
use crate::board::piece::{PieceData, PieceInstance};
use crate::board::position::Position;
use crate::board::{pieces_of_side, pieces_upto, Board, Grid};

verus! {

/// The predicate that holds of jumps.
pub open spec fn is_jump() -> spec_fn(Move) -> bool {
    |m: Move| m.move_type == MoveType::Jump
}

/// The predicate that holds of the moves that start on `pos`.
pub open spec fn starts_at(pos: Position) -> spec_fn(Move) -> bool {
    |m: Move| m.from == pos
}

/// A plain piece goes only towards the far edge: the player's up, the computer's down.
/// A king goes every way.
pub open spec fn direction_allowed(data: PieceData, dir: MoveDirection) -> bool {
    data.is_king || match dir.ver {
        MoveVertical::Up => data.owner == Side::Player,
        MoveVertical::Down => data.owner == Side::AI,
    }
}

/// The move that `piece` has towards `dir`, if any: a step onto the next square when it
/// is empty, a jump over it when it holds an opponent and the square behind is empty.
pub open spec fn check_move_spec(grid: Grid, piece: PieceInstance, dir: MoveDirection) -> Option<
    Move,
> {
    if !direction_allowed(piece.data, dir) {
        None
    } else {
        match piece.position.moved_spec(dir, 1) {
            Err(_) => None,
            Ok(next) => {
                if !grid.contains_key(next) {
                    Some(Move { from: piece.position, to: next, move_type: MoveType::Move })
                } else if grid[next].owner == piece.data.owner {
                    None
                } else {
                    match piece.position.moved_spec(dir, 2) {
                        Err(_) => None,
                        Ok(landing) => {
                            if grid.contains_key(landing) {
                                None
                            } else {
                                Some(
                                    Move {
                                        from: piece.position,
                                        to: landing,
                                        move_type: MoveType::Jump,
                                    },
                                )
                            }
                        },
                    }
                }
            },
        }
    }
}

/// Towards column 0 and row 7.
pub open spec fn left_down() -> MoveDirection {
    MoveDirection { hor: MoveHorizontal::Left, ver: MoveVertical::Down }
}

/// Towards column 7 and row 7.
pub open spec fn right_down() -> MoveDirection {
    MoveDirection { hor: MoveHorizontal::Right, ver: MoveVertical::Down }
}

/// Towards column 0 and row 0.
pub open spec fn left_up() -> MoveDirection {
    MoveDirection { hor: MoveHorizontal::Left, ver: MoveVertical::Up }
}

/// Towards column 7 and row 0.
pub open spec fn right_up() -> MoveDirection {
    MoveDirection { hor: MoveHorizontal::Right, ver: MoveVertical::Up }
}

/// The directions that a piece tries, in the order in which it tries them.
pub open spec fn ways_spec(data: PieceData) -> Seq<MoveDirection> {
    let down = if data.is_king || data.owner == Side::AI {
        seq![left_down(), right_down()]
    } else {
        Seq::empty()
    };
    let up = if data.is_king || data.owner == Side::Player {
        seq![left_up(), right_up()]
    } else {
        Seq::empty()
    };
    down + up
}

/// The moves of `piece` towards the first `n` of `ways`.
pub open spec fn moves_along(grid: Grid, piece: PieceInstance, ways: Seq<MoveDirection>, n: nat) -> Seq<
    Move,
>
    decreases n,
{
    if n == 0 {
        Seq::empty()
    } else {
        let rest = moves_along(grid, piece, ways, (n - 1) as nat);
        match check_move_spec(grid, piece, ways[n - 1]) {
            Some(m) => rest.push(m),
            None => rest,
        }
    }
}

/// Every move that `piece` has by itself, before the forced-capture rule.
pub open spec fn piece_candidates(grid: Grid, piece: PieceInstance) -> Seq<Move> {
    moves_along(grid, piece, ways_spec(piece.data), ways_spec(piece.data).len())
}

/// The moves of the first `n` of `pieces`, piece after piece.
pub open spec fn candidates_upto(grid: Grid, pieces: Seq<PieceInstance>, n: nat) -> Seq<Move>
    decreases n,
{
    if n == 0 {
        Seq::empty()
    } else {
        candidates_upto(grid, pieces, (n - 1) as nat) + piece_candidates(grid, pieces[n - 1])
    }
}

/// Every move that the pieces of `side` have by themselves, before the forced-capture rule.
pub open spec fn side_candidates(grid: Grid, side: Side) -> Seq<Move> {
    candidates_upto(grid, pieces_of_side(grid, side), pieces_of_side(grid, side).len())
}

/// Some move of `moves` is a jump.
pub open spec fn has_jump(moves: Seq<Move>) -> bool {
    exists|i: int| 0 <= i < moves.len() && (#[trigger] moves[i]).move_type == MoveType::Jump
}

/// Forced capture: where some move is a jump, only the jumps remain.
pub open spec fn forced(moves: Seq<Move>) -> Seq<Move> {
    if has_jump(moves) {
        moves.filter(is_jump())
    } else {
        moves
    }
}

/// The legal moves of `side`.
pub open spec fn side_moves(grid: Grid, side: Side) -> Seq<Move> {
    forced(side_candidates(grid, side))
}

/// The legal moves of `piece`: those legal moves of its side that start on its square.
pub open spec fn piece_moves(grid: Grid, piece: PieceInstance) -> Seq<Move> {
    side_moves(grid, piece.data.owner).filter(starts_at(piece.position))
}

/// The move that `piece` has towards `move_to`, if it has one.
pub fn check_move(board: &Board, piece: &PieceInstance, move_to: MoveDirection) -> (r: Option<Move>)
    ensures
        r == check_move_spec(board@, *piece, move_to),
{
    if !piece.data.is_king && match move_to.ver {
        MoveVertical::Up => piece.data.owner != Side::Player,
        MoveVertical::Down => piece.data.owner != Side::AI,
    } {
        return None;
    }
    match piece.position.setup_moved(&move_to, 1) {
        Ok(moved_pos) => {
            match board.get_square(&moved_pos) {
                Some(moved_pos_piece) => {
                    if moved_pos_piece.owner == piece.data.owner {
                        return None;
                    } else {
                        match piece.position.setup_moved(&move_to, 2) {
                            Ok(jump_pos) => {
                                match board.get_square(&jump_pos) {
                                    Some(_) => return None,
                                    None => {
                                        return Some(
                                            Move {
                                                from: piece.position,
                                                to: jump_pos,
                                                move_type: MoveType::Jump,
                                            },
                                        );
                                    },
                                }
                            },
                            Err(_) => return None,
                        }
                    }
                },
                None => {
                    return Some(
                        Move { from: piece.position, to: moved_pos, move_type: MoveType::Move },
                    );
                },
            }
        },
        Err(_) => return None,
    }
}

/// The directions that `piece` tries: down for the computer, up for the player, both for
/// a king.
fn all_ways_per_piece(piece: &PieceInstance) -> (ways: Vec<MoveDirection>)
    ensures
        ways@ == ways_spec(piece.data),
{
    let mut ways: Vec<MoveDirection> = Vec::new();

    if piece.data.is_king || piece.data.owner == Side::AI {
        ways.push(MoveDirection { hor: MoveHorizontal::Left, ver: MoveVertical::Down });
        ways.push(MoveDirection { hor: MoveHorizontal::Right, ver: MoveVertical::Down });
    }
    if piece.data.is_king || piece.data.owner == Side::Player {
        ways.push(MoveDirection { hor: MoveHorizontal::Left, ver: MoveVertical::Up });
        ways.push(MoveDirection { hor: MoveHorizontal::Right, ver: MoveVertical::Up });
    }
    assert(ways@ =~= ways_spec(piece.data));
    ways
}

/// Every move that `piece` has by itself.
fn all_moves_per_piece(board: &Board, piece: &PieceInstance) -> (moves: Vec<Move>)
    ensures
        moves@ == piece_candidates(board@, *piece),
{
    let ways = all_ways_per_piece(piece);
    let mut moves: Vec<Move> = Vec::new();
    let mut i: usize = 0;
    while i < ways.len()
        invariant
            i <= ways.len(),
            ways@ == ways_spec(piece.data),
            moves@ == moves_along(board@, *piece, ways@, i as nat),
        decreases ways.len() - i,
    {
        if let Some(correct_move) = check_move(board, piece, ways[i]) {
            moves.push(correct_move);
        }
        i += 1;
    }
    moves
}

/// The legal moves of `side`: every move of every piece of the side and, where one of
/// them is a jump, the jumps alone.
pub fn moves_per_side(board: &Board, side: Side) -> (moves: Vec<Move>)
    ensures
        moves@ == side_moves(board@, side),
        has_jump(side_candidates(board@, side)) ==> forall|i: int|
            0 <= i < moves@.len() ==> (#[trigger] moves@[i]).move_type == MoveType::Jump,
{
    let pieces = board.all_pieces_of_side(side);
    let mut moves: Vec<Move> = Vec::new();
    let mut i: usize = 0;
    while i < pieces.len()
        invariant
            i <= pieces.len(),
            moves@ == candidates_upto(board@, pieces@, i as nat),
        decreases pieces.len() - i,
    {
        let mut found = all_moves_per_piece(board, &pieces[i]);
        moves.append(&mut found);
        i += 1;
    }
    let has_jumps = any_jump(&moves);
    if has_jumps {
        moves = keep_jumps(&moves);
    }
    proof {
        lemma_forced_capture(board@, side);
    }
    moves
}

/// Whether some move of `moves` is a jump.
pub(crate) fn any_jump(moves: &Vec<Move>) -> (r: bool)
    ensures
        r == has_jump(moves@),
{
    let mut i: usize = 0;
    while i < moves.len()
        invariant
            i <= moves.len(),
            forall|j: int| 0 <= j < i ==> (#[trigger] moves@[j]).move_type != MoveType::Jump,
        decreases moves.len() - i,
    {
        if moves[i].move_type == MoveType::Jump {
            return true;
        }
        i += 1;
    }
    false
}

/// The jumps of `moves`, in their order.
fn keep_jumps(moves: &Vec<Move>) -> (r: Vec<Move>)
    ensures
        r@ == moves@.filter(is_jump()),
{
    let mut kept: Vec<Move> = Vec::new();
    let mut i: usize = 0;
    while i < moves.len()
        invariant
            i <= moves.len(),
            kept@ == moves@.take(i as int).filter(is_jump()),
        decreases moves.len() - i,
    {
        proof {
            moves@.take(i as int).lemma_filter_push(moves@[i as int], is_jump());
            assert(moves@.take(i as int).push(moves@[i as int]) =~= moves@.take(i + 1));
        }
        if moves[i].move_type == MoveType::Jump {
            kept.push(moves[i]);
        }
        i += 1;
    }
    assert(moves@.take(moves@.len() as int) =~= moves@);
    kept
}

/// The legal moves of `piece`. Another piece's jump takes away this piece's plain steps.
pub fn moves_per_piece(board: &Board, piece: &PieceInstance) -> (moves: Vec<Move>)
    ensures
        moves@ == piece_moves(board@, *piece),
{
    let all_side_moves = moves_per_side(board, piece.data.owner);
    let mut kept: Vec<Move> = Vec::new();
    let mut i: usize = 0;
    while i < all_side_moves.len()
        invariant
            i <= all_side_moves.len(),
            kept@ == all_side_moves@.take(i as int).filter(starts_at(piece.position)),
        decreases all_side_moves.len() - i,
    {
        proof {
            all_side_moves@.take(i as int).lemma_filter_push(
                all_side_moves@[i as int],
                starts_at(piece.position),
            );
            assert(all_side_moves@.take(i as int).push(all_side_moves@[i as int])
                =~= all_side_moves@.take(i + 1));
        }
        if all_side_moves[i].from == piece.position {
            kept.push(all_side_moves[i]);
        }
        i += 1;
    }
    assert(all_side_moves@.take(all_side_moves@.len() as int) =~= all_side_moves@);
    kept
}

/// Forced capture: where some piece of `side` can jump, every legal move of the side is
/// a jump.
pub proof fn lemma_forced_capture(grid: Grid, side: Side)
    ensures
        has_jump(side_candidates(grid, side)) ==> forall|i: int|
            0 <= i < side_moves(grid, side).len() ==> (#[trigger] side_moves(
                grid,
                side,
            )[i]).move_type == MoveType::Jump,
{
    let all = side_candidates(grid, side);
    if has_jump(all) {
        assert forall|i: int| 0 <= i < all.filter(is_jump()).len() implies (#[trigger] all.filter(
            is_jump(),
        )[i]).move_type == MoveType::Jump by {
            all.lemma_filter_pred(is_jump(), i);
        }
    }
}

/// `m` is a move that a piece of `side` standing on `m.from` has towards some direction.
pub open spec fn generated(grid: Grid, side: Side, m: Move) -> bool {
    &&& m.from.on_board()
    &&& grid.contains_key(m.from)
    &&& grid[m.from].owner == side
    &&& exists|dir: MoveDirection| #[trigger]
        check_move_spec(grid, PieceInstance { position: m.from, data: grid[m.from] }, dir) == Some(
            m,
        )
}

/// What a generated move looks like: it ends on an empty dark square of the grid; a plain
/// step goes one square diagonally; a jump goes two, over a piece of the other side.
pub proof fn lemma_generated_shape(grid: Grid, side: Side, m: Move)
    requires
        generated(grid, side, m),
    ensures
        m.on_board(),
        m.to.valid(),
        !grid.contains_key(m.to),
        m.to != m.from,
        m.move_type == MoveType::Move ==> (m.to.row - m.from.row == 1 || m.from.row - m.to.row
            == 1) && (m.to.col - m.from.col == 1 || m.from.col - m.to.col == 1),
        m.move_type == MoveType::Jump ==> {
            &&& (m.to.row - m.from.row == 2 || m.from.row - m.to.row == 2)
            &&& (m.to.col - m.from.col == 2 || m.from.col - m.to.col == 2)
            &&& m.midpoint() != m.to
            &&& m.midpoint() != m.from
            &&& m.midpoint().valid()
            &&& grid.contains_key(m.midpoint())
            &&& grid[m.midpoint()].owner != side
        },
{
    let piece = PieceInstance { position: m.from, data: grid[m.from] };
    let dir = choose|dir: MoveDirection| #[trigger] check_move_spec(grid, piece, dir) == Some(m);
    assert(check_move_spec(grid, piece, dir) == Some(m));
}

/// Every piece found by reading the grid stands on the grid, on the square it is said to
/// stand on, and belongs to the side that was asked for.
pub proof fn lemma_pieces_sound(grid: Grid, side: Side, n: nat)
    requires
        n <= 64,
    ensures
        forall|i: int|
            0 <= i < pieces_upto(grid, side, n).len() ==> {
                let p = #[trigger] pieces_upto(grid, side, n)[i];
                p.position.on_board() && grid.contains_key(p.position) && grid[p.position]
                    == p.data && p.data.owner == side
            },
    decreases n,
{
    if n > 0 {
        lemma_pieces_sound(grid, side, (n - 1) as nat);
    }
}

/// Each move of a piece along some directions is the move it has towards one of them.
proof fn lemma_moves_along(grid: Grid, piece: PieceInstance, ways: Seq<MoveDirection>, n: nat)
    requires
        n <= ways.len(),
    ensures
        moves_along(grid, piece, ways, n).len() <= n,
        forall|i: int|
            0 <= i < moves_along(grid, piece, ways, n).len() ==> exists|dir: MoveDirection|
                #[trigger] check_move_spec(grid, piece, dir) == Some(
                    #[trigger] moves_along(grid, piece, ways, n)[i],
                ),
    decreases n,
{
    if n > 0 {
        lemma_moves_along(grid, piece, ways, (n - 1) as nat);
        let rest = moves_along(grid, piece, ways, (n - 1) as nat);
        let all = moves_along(grid, piece, ways, n);
        assert forall|i: int| 0 <= i < all.len() implies exists|dir: MoveDirection| #[trigger]
            check_move_spec(grid, piece, dir) == Some(#[trigger] all[i]) by {
            if i < rest.len() {
                assert(all[i] == rest[i]);
            } else {
                assert(check_move_spec(grid, piece, ways[n - 1]) == Some(all[i]));
            }
        }
    }
}

/// The moves of pieces that stand where they are said to stand are generated moves, at
/// most four for each piece.
proof fn lemma_candidates(grid: Grid, side: Side, pieces: Seq<PieceInstance>, n: nat)
    requires
        n <= pieces.len(),
        forall|i: int|
            0 <= i < pieces.len() ==> {
                let p = #[trigger] pieces[i];
                p.position.on_board() && grid.contains_key(p.position) && grid[p.position]
                    == p.data && p.data.owner == side
            },
    ensures
        candidates_upto(grid, pieces, n).len() <= 4 * n,
        forall|i: int|
            0 <= i < candidates_upto(grid, pieces, n).len() ==> generated(
                grid,
                side,
                #[trigger] candidates_upto(grid, pieces, n)[i],
            ),
    decreases n,
{
    if n > 0 {
        lemma_candidates(grid, side, pieces, (n - 1) as nat);
        let piece = pieces[n - 1];
        let ways = ways_spec(piece.data);
        lemma_moves_along(grid, piece, ways, ways.len());
        let rest = candidates_upto(grid, pieces, (n - 1) as nat);
        let own = piece_candidates(grid, piece);
        let all = candidates_upto(grid, pieces, n);
        assert forall|i: int| 0 <= i < all.len() implies generated(grid, side, #[trigger] all[i]) by {
            if i < rest.len() {
                assert(all[i] == rest[i]);
            } else {
                let m = own[i - rest.len()];
                assert(all[i] == m);
                let dir = choose|dir: MoveDirection| #[trigger]
                    check_move_spec(grid, piece, dir) == Some(m);
                assert(check_move_spec(grid, piece, dir) == Some(m));
                assert(m.from == piece.position);
                assert(piece == PieceInstance { position: m.from, data: grid[m.from] });
            }
        }
    }
}

/// Every legal move of a side is a generated move, and a side has at most 256 of them.
pub proof fn lemma_side_moves_generated(grid: Grid, side: Side)
    ensures
        side_moves(grid, side).len() <= 256,
        forall|i: int|
            0 <= i < side_moves(grid, side).len() ==> generated(
                grid,
                side,
                #[trigger] side_moves(grid, side)[i],
            ),
{
    let pieces = pieces_of_side(grid, side);
    crate::board::lemma_pieces_len(grid, side, 64);
    lemma_pieces_sound(grid, side, 64);
    lemma_candidates(grid, side, pieces, pieces.len());
    let all = side_candidates(grid, side);
    let legal = side_moves(grid, side);
    if has_jump(all) {
        all.lemma_filter_len(is_jump());
        assert forall|i: int| 0 <= i < legal.len() implies generated(grid, side, #[trigger] legal[i]) by {
            all.lemma_filter_contains_rev(is_jump(), legal[i]);
            let k = all.lemma_contains_to_index(legal[i]);
            assert(all[k] == legal[i]);
        }
    }
}

/// A piece of `side` that stands on the grid is found when the grid is read.
proof fn lemma_pieces_complete(grid: Grid, side: Side, pos: Position, n: nat)
    requires
        pos.on_board(),
        grid.contains_key(pos),
        grid[pos].owner == side,
        8 * pos.row + pos.col < n <= 64,
    ensures
        pieces_upto(grid, side, n).contains(PieceInstance { position: pos, data: grid[pos] }),
    decreases n,
{
    let piece = PieceInstance { position: pos, data: grid[pos] };
    let rest = pieces_upto(grid, side, (n - 1) as nat);
    let here = crate::board::cell_position(n - 1);
    if n - 1 == 8 * pos.row + pos.col {
        assert(here == pos);
        assert(rest.push(piece).last() == piece);
    } else {
        lemma_pieces_complete(grid, side, pos, (n - 1) as nat);
        let k = rest.lemma_contains_to_index(piece);
        assert(pieces_upto(grid, side, n)[k] == piece);
    }
}

/// The move that a piece has towards one of the directions it tries is among its moves.
proof fn lemma_moves_along_complete(
    grid: Grid,
    piece: PieceInstance,
    ways: Seq<MoveDirection>,
    n: nat,
    k: int,
    m: Move,
)
    requires
        0 <= k < n <= ways.len(),
        check_move_spec(grid, piece, ways[k]) == Some(m),
    ensures
        moves_along(grid, piece, ways, n).contains(m),
    decreases n,
{
    let rest = moves_along(grid, piece, ways, (n - 1) as nat);
    if k == n - 1 {
        assert(rest.push(m).last() == m);
    } else {
        lemma_moves_along_complete(grid, piece, ways, (n - 1) as nat, k, m);
        let j = rest.lemma_contains_to_index(m);
        assert(moves_along(grid, piece, ways, n)[j] == m);
    }
}

/// The moves of each of the pieces are among the moves of all of them.
proof fn lemma_candidates_complete(grid: Grid, pieces: Seq<PieceInstance>, n: nat, j: int, m: Move)
    requires
        0 <= j < n <= pieces.len(),
        piece_candidates(grid, pieces[j]).contains(m),
    ensures
        candidates_upto(grid, pieces, n).contains(m),
    decreases n,
{
    let rest = candidates_upto(grid, pieces, (n - 1) as nat);
    let own = piece_candidates(grid, pieces[n - 1]);
    if j == n - 1 {
        let k = own.lemma_contains_to_index(m);
        assert((rest + own)[rest.len() + k] == m);
    } else {
        lemma_candidates_complete(grid, pieces, (n - 1) as nat, j, m);
        let k = rest.lemma_contains_to_index(m);
        assert((rest + own)[k] == m);
    }
}

/// Nothing is left out: the move that a piece of `side` on the square `pos` has towards
/// `dir` is a legal move of the side if it is a jump, or if no piece of the side can jump.
pub proof fn lemma_side_moves_complete(grid: Grid, side: Side, pos: Position, dir: MoveDirection, m: Move)
    requires
        pos.on_board(),
        grid.contains_key(pos),
        grid[pos].owner == side,
        check_move_spec(grid, PieceInstance { position: pos, data: grid[pos] }, dir) == Some(m),
    ensures
        side_candidates(grid, side).contains(m),
        m.move_type == MoveType::Jump || !has_jump(side_candidates(grid, side)) ==> side_moves(
            grid,
            side,
        ).contains(m),
{
    let piece = PieceInstance { position: pos, data: grid[pos] };
    let pieces = pieces_of_side(grid, side);
    lemma_pieces_complete(grid, side, pos, 64);
    let j = pieces.lemma_contains_to_index(piece);
    let ways = ways_spec(piece.data);
    let k = choose|k: int| 0 <= k < ways.len() && ways[k] == dir;
    assert(0 <= k < ways.len() && ways[k] == dir) by {
        if dir.ver == MoveVertical::Down {
            if dir.hor == MoveHorizontal::Left {
                assert(ways[0] == dir);
            } else {
                assert(ways[1] == dir);
            }
        } else {
            let base = if piece.data.is_king {
                2int
            } else {
                0int
            };
            if dir.hor == MoveHorizontal::Left {
                assert(ways[base] == dir);
            } else {
                assert(ways[base + 1] == dir);
            }
        }
    }
    lemma_moves_along_complete(grid, piece, ways, ways.len(), k, m);
    lemma_candidates_complete(grid, pieces, pieces.len(), j, m);
    let all = side_candidates(grid, side);
    if has_jump(all) && m.move_type == MoveType::Jump {
        let i = all.lemma_contains_to_index(m);
        all.lemma_filter_contains(is_jump(), i);
    }
}

} // verus!
