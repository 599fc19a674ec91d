use checkers_core::{
    Board, BoardError, Move, MoveError, MoveType, PieceData, PieceInstance, Position, Side,
};

fn pos(row: usize, col: usize) -> Position {
    Position { row, col }
}

fn plain(owner: Side) -> PieceData {
    PieceData { owner, is_king: false }
}

fn king(owner: Side) -> PieceData {
    PieceData { owner, is_king: true }
}

fn step(from: Position, to: Position) -> Move {
    Move { from, to, move_type: MoveType::Move }
}

fn jump(from: Position, to: Position) -> Move {
    Move { from, to, move_type: MoveType::Jump }
}

#[test]
fn setup_places_twelve_plain_pieces_per_side() {
    let board = Board::setup();
    let computer = board.all_pieces_of_side(Side::AI);
    let player = board.all_pieces_of_side(Side::Player);
    assert_eq!(computer.len(), 12);
    assert_eq!(player.len(), 12);
    for piece in &computer {
        assert!(piece.position.row <= 2);
        assert_eq!((piece.position.row + piece.position.col) % 2, 1);
        assert_eq!(piece.data, plain(Side::AI));
    }
    for piece in &player {
        assert!(piece.position.row >= 5 && piece.position.row <= 7);
        assert_eq!((piece.position.row + piece.position.col) % 2, 1);
        assert_eq!(piece.data, plain(Side::Player));
    }
}

#[test]
fn setup_fills_exactly_the_dark_squares_of_the_outer_rows() {
    let board = Board::setup();
    for row in 0..8 {
        for col in 0..8 {
            let expected = if (row + col) % 2 == 0 || row == 3 || row == 4 {
                None
            } else if row < 3 {
                Some(plain(Side::AI))
            } else {
                Some(plain(Side::Player))
            };
            assert_eq!(board.get_square(&pos(row, col)).copied(), expected);
        }
    }
}

#[test]
fn all_pieces_of_side_reads_row_by_row() {
    let board = Board::setup();
    let computer: Vec<Position> =
        board.all_pieces_of_side(Side::AI).iter().map(|p| p.position).collect();
    assert_eq!(
        computer,
        vec![
            pos(0, 1),
            pos(0, 3),
            pos(0, 5),
            pos(0, 7),
            pos(1, 0),
            pos(1, 2),
            pos(1, 4),
            pos(1, 6),
            pos(2, 1),
            pos(2, 3),
            pos(2, 5),
            pos(2, 7),
        ]
    );
    let player = board.all_pieces_of_side(Side::Player);
    assert_eq!(player[0], PieceInstance { position: pos(5, 0), data: plain(Side::Player) });
    assert_eq!(player[11], PieceInstance { position: pos(7, 6), data: plain(Side::Player) });
}

#[test]
fn score_of_side_counts_three_for_one() {
    let mut board = Board::setup();
    assert_eq!(board.score_of_side(Side::Player), 24);
    assert_eq!(board.score_of_side(Side::AI), 24);
    // Take one computer piece away: eleven against twelve.
    assert_eq!(board.apply_move(&jump(pos(2, 1), pos(2, 1))), Ok(()));
    assert_eq!(board.score_of_side(Side::AI), 3 * 11 - 12);
    assert_eq!(board.score_of_side(Side::Player), 3 * 12 - 11);
}

#[test]
fn apply_move_carries_a_piece_to_its_new_square() {
    let mut board = Board::setup();
    assert_eq!(board.apply_move(&step(pos(5, 0), pos(4, 1))), Ok(()));
    assert_eq!(board.get_square(&pos(5, 0)), None);
    assert_eq!(board.get_square(&pos(4, 1)), Some(&plain(Side::Player)));
    assert_eq!(board.all_pieces_of_side(Side::Player).len(), 12);
    assert_eq!(board.all_pieces_of_side(Side::AI).len(), 12);
}

#[test]
fn apply_move_from_an_empty_square_fails_and_changes_nothing() {
    let mut board = Board::setup();
    let before = board;
    assert_eq!(
        board.apply_move(&step(pos(4, 1), pos(3, 2))),
        Err(MoveError::IncorrectStartPosition)
    );
    assert_eq!(board, before);
    assert_eq!(
        board.apply_move(&jump(pos(3, 0), pos(5, 2))),
        Err(MoveError::IncorrectStartPosition)
    );
    assert_eq!(board, before);
}

#[test]
fn apply_jump_clears_start_and_midpoint_and_nothing_else() {
    let mut board = Board::setup();
    // Bring a computer piece next to the player's front row, then jump over it.
    assert_eq!(board.apply_move(&step(pos(2, 3), pos(4, 3))), Ok(()));
    assert_eq!(board.apply_move(&step(pos(5, 2), pos(3, 2))), Ok(()));
    let before = board;
    assert_eq!(board.apply_move(&jump(pos(5, 4), pos(3, 2))), Ok(()));
    // (5,4) -> (3,2) passes over (4,3).
    assert_eq!(board.get_square(&pos(5, 4)), None);
    assert_eq!(board.get_square(&pos(4, 3)), None);
    assert_eq!(board.get_square(&pos(3, 2)), Some(&plain(Side::Player)));
    for row in 0..8 {
        for col in 0..8 {
            let here = pos(row, col);
            if here != pos(5, 4) && here != pos(4, 3) && here != pos(3, 2) {
                assert_eq!(board.get_square(&here), before.get_square(&here));
            }
        }
    }
    assert_eq!(board.all_pieces_of_side(Side::AI).len(), 11);
}

#[test]
fn apply_plain_move_leaves_the_midpoint_alone() {
    let mut board = Board::setup();
    // A plain move over two squares is carried out as it stands: nothing is captured.
    assert_eq!(board.apply_move(&step(pos(2, 3), pos(4, 3))), Ok(()));
    assert_eq!(board.apply_move(&step(pos(5, 4), pos(3, 2))), Ok(()));
    assert_eq!(board.get_square(&pos(4, 3)), Some(&plain(Side::AI)));
    assert_eq!(board.get_square(&pos(3, 2)), Some(&plain(Side::Player)));
}

#[test]
fn player_piece_is_crowned_on_row_zero() {
    let mut board = Board::setup();
    assert_eq!(board.apply_move(&step(pos(5, 0), pos(0, 1))), Ok(()));
    assert_eq!(board.get_square(&pos(0, 1)), Some(&king(Side::Player)));
}

#[test]
fn computer_piece_is_crowned_on_row_seven() {
    let mut board = Board::setup();
    assert_eq!(board.apply_move(&step(pos(2, 1), pos(7, 0))), Ok(()));
    assert_eq!(board.get_square(&pos(7, 0)), Some(&king(Side::AI)));
}

#[test]
fn pieces_are_not_crowned_on_their_own_edge_or_in_between() {
    let mut board = Board::setup();
    assert_eq!(board.apply_move(&step(pos(2, 1), pos(0, 1))), Ok(()));
    assert_eq!(board.get_square(&pos(0, 1)), Some(&plain(Side::AI)));
    assert_eq!(board.apply_move(&step(pos(5, 0), pos(7, 0))), Ok(()));
    assert_eq!(board.get_square(&pos(7, 0)), Some(&plain(Side::Player)));
    assert_eq!(board.apply_move(&step(pos(5, 2), pos(1, 2))), Ok(()));
    assert_eq!(board.get_square(&pos(1, 2)), Some(&plain(Side::Player)));
}

#[test]
fn a_king_stays_a_king() {
    let mut board = Board::setup();
    assert_eq!(board.apply_move(&step(pos(5, 0), pos(0, 1))), Ok(()));
    assert_eq!(board.apply_move(&step(pos(0, 1), pos(3, 0))), Ok(()));
    assert_eq!(board.get_square(&pos(3, 0)), Some(&king(Side::Player)));
    assert_eq!(board.apply_move(&jump(pos(3, 0), pos(4, 1))), Ok(()));
    // (3,0) -> (4,1) has its midpoint on (3,0).
    assert_eq!(board.get_square(&pos(4, 1)), Some(&king(Side::Player)));
    assert_eq!(board.get_square(&pos(3, 0)), None);
}

#[test]
fn a_jump_onto_its_own_midpoint_removes_the_piece() {
    let mut board = Board::setup();
    // (1,2) -> (0,1) as a jump: the midpoint, rounded down, is (0,1) itself.
    assert_eq!(board.apply_move(&jump(pos(1, 2), pos(0, 1))), Ok(()));
    assert_eq!(board.get_square(&pos(1, 2)), None);
    assert_eq!(board.get_square(&pos(0, 1)), None);
    assert_eq!(board.all_pieces_of_side(Side::AI).len(), 10);
}

#[test]
fn a_copied_board_is_independent_of_the_first() {
    let first = Board::setup();
    let mut copy = first.clone();
    assert_eq!(copy.apply_move(&step(pos(5, 0), pos(4, 1))), Ok(()));
    assert_eq!(first, Board::setup());
    assert_ne!(copy, first);
}

#[test]
fn get_piece_reads_dark_squares_of_the_grid() {
    let board = Board::setup();
    assert_eq!(board.get_piece(5, 0), Ok(&plain(Side::Player)));
    assert_eq!(board.get_piece(0, 1), Ok(&plain(Side::AI)));
    assert_eq!(board.get_piece(4, 1), Err(BoardError::EmptySquare));
    assert_eq!(board.get_piece(3, 6), Err(BoardError::EmptySquare));
}

#[test]
fn get_piece_is_out_of_bounds_off_the_grid_and_on_light_squares() {
    let board = Board::setup();
    assert_eq!(board.get_piece(8, 1), Err(BoardError::OutOfBounds));
    assert_eq!(board.get_piece(1, 8), Err(BoardError::OutOfBounds));
    assert_eq!(board.get_piece(usize::MAX, usize::MAX), Err(BoardError::OutOfBounds));
    assert_eq!(board.get_piece(0, 0), Err(BoardError::OutOfBounds));
    assert_eq!(board.get_piece(4, 4), Err(BoardError::OutOfBounds));
}

#[test]
fn is_empty_tells_empty_from_occupied() {
    let board = Board::setup();
    assert_eq!(board.is_empty(5, 0), Ok(false));
    assert_eq!(board.is_empty(4, 1), Ok(true));
    assert_eq!(board.is_empty(4, 4), Err(BoardError::OutOfBounds));
    assert_eq!(board.is_empty(9, 0), Err(BoardError::OutOfBounds));
    assert_eq!(board.is_empty_pos(&pos(2, 7)), Ok(false));
    assert_eq!(board.is_empty_pos(&pos(3, 0)), Ok(true));
    assert_eq!(board.is_empty_pos(&pos(3, 3)), Err(BoardError::OutOfBounds));
    assert_eq!(board.is_empty_pos(&pos(8, 8)), Err(BoardError::OutOfBounds));
}

#[test]
fn get_squares_shows_the_grid_as_get_square_does() {
    let mut board = Board::setup();
    assert_eq!(board.apply_move(&step(pos(5, 0), pos(0, 0))), Ok(()));
    let squares = *board.get_squares();
    for row in 0..8 {
        for col in 0..8 {
            assert_eq!(squares[row][col].as_ref(), board.get_square(&pos(row, col)));
        }
    }
    assert_eq!(squares[0][0], Some(king(Side::Player)));
    assert_eq!(squares[5][0], None);
}
