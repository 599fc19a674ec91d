//! What a screen has to remember between two clicks, and what each click and each
//! scheduled reply of the computer does to it. Drawing, pointers and clocks stay outside:
//! the caller reports a click by its row and column and carries out the follow-up it is
//! told.

use vstd::prelude::*;

use crate::ai::minimax::{best_move_spec, MAX_DEPTH};
use crate::board::movement::Move;
use crate::board::piece::side::Side;
use crate::board::position::Position;
use crate::game_manager::{possible_moves, refusal, GameManager};

verus! {

/// The pause before the computer answers a move of the player, in milliseconds.
pub const REPLY_DELAY_MS: u64 = 800;

/// The pause before the computer goes on with a series of jumps, in milliseconds.
pub const CONTINUE_DELAY_MS: u64 = 500;

/// What happened on the screen.
#[derive(Clone, Copy, Debug, PartialEq, Eq, Structural)]
pub enum Message {
    /// The square in this row and column was clicked.
    CellClicked(usize, usize),
    /// The time has come for the computer to move.
    AiMove,
}

/// What the caller has to do after a message has been handled.
#[derive(Clone, Copy, Debug, PartialEq, Eq, Structural)]
pub enum FollowUp {
    /// Nothing.
    Nothing,
    /// Send `Message::AiMove` after this many milliseconds.
    AiMoveAfter(u64),
}

/// A game together with the piece that is selected and the moves that are offered for it.
#[derive(Clone, Debug, PartialEq, Eq)]
pub struct CheckersUI {
    pub game: GameManager,
    pub selected_piece: Option<Position>,
    pub available_moves: Vec<Move>,
}

/// The first of `moves` that ends on `pos`, if one does.
pub open spec fn first_move_to(moves: Seq<Move>, pos: Position) -> Option<Move>
    decreases moves.len(),
{
    if moves.len() == 0 {
        None
    } else if moves[0].to == pos {
        Some(moves[0])
    } else {
        first_move_to(moves.drop_first(), pos)
    }
}

/// The follow-up once the game stands as `game`: the computer is sent for after `millis`
/// where it is its turn and the game is on.
pub open spec fn follow_up(game: GameManager, millis: u64) -> FollowUp {
    if game.current_turn == Side::AI && !game.game_over {
        FollowUp::AiMoveAfter(millis)
    } else {
        FollowUp::Nothing
    }
}

impl CheckersUI {
    /// Every move on offer starts on the grid.
    pub open spec fn wf(&self) -> bool {
        forall|i: int|
            0 <= i < self.available_moves@.len() ==> (#[trigger] self.available_moves@[i]).from.on_board()
    }

    /// Whether `message` can be handled: a click that selects must lie on the grid. A
    /// click selects when the player is to move and nothing is selected yet.
    pub open spec fn accepts(&self, message: Message) -> bool {
        message matches Message::CellClicked(row, col) ==> self.game.current_turn == Side::AI
            || self.selected_piece is Some || (row < 8 && col < 8)
    }

    /// Handles one message and says what the caller has to do next.
    ///
    /// A click while the computer is to move does nothing. A click with a piece selected
    /// plays the first offered move that ends on the clicked square, if there is one, and
    /// drops the selection either way. A click with nothing selected selects the clicked
    /// piece if it belongs to the side to move. When the computer's time has come it
    /// makes its move, provided it is its turn and the game is on.
    pub fn update(&mut self, message: Message) -> (next: FollowUp)
        requires
            old(self).wf(),
            old(self).accepts(message),
        ensures
            final(self).wf(),
            old(self).game.wf() ==> final(self).game.wf(),
            match message {
                Message::CellClicked(row, col) => {
                    let pos = Position { row, col };
                    if old(self).game.current_turn == Side::AI {
                        *final(self) == *old(self) && next == FollowUp::Nothing
                    } else if old(self).selected_piece is Some {
                        &&& final(self).selected_piece is None
                        &&& final(self).available_moves@.len() == 0
                        &&& match first_move_to(old(self).available_moves@, pos) {
                            Some(mv) => {
                                &&& match refusal(
                                    old(self).game.board@,
                                    old(self).game.current_turn,
                                    old(self).game.game_over,
                                    mv,
                                ) {
                                    Some(_) => final(self).game == old(self).game,
                                    None => old(self).game.moved(final(self).game, mv),
                                }
                                &&& next == follow_up(final(self).game, REPLY_DELAY_MS)
                            },
                            None => final(self).game == old(self).game && next
                                == FollowUp::Nothing,
                        }
                    } else {
                        &&& final(self).game == old(self).game
                        &&& next == FollowUp::Nothing
                        &&& if old(self).game.board@.contains_key(pos) && old(
                            self,
                        ).game.board@[pos].owner == old(self).game.current_turn {
                            &&& final(self).selected_piece == Some(pos)
                            &&& final(self).available_moves@ == possible_moves(
                                old(self).game.board@,
                                old(self).game.current_turn,
                                pos,
                            )
                        } else {
                            &&& final(self).selected_piece is None
                            &&& final(self).available_moves@ == old(self).available_moves@
                        }
                    }
                },
                Message::AiMove => {
                    &&& final(self).selected_piece == old(self).selected_piece
                    &&& final(self).available_moves@ == old(self).available_moves@
                    &&& if old(self).game.current_turn == Side::AI && !old(self).game.game_over {
                        &&& match best_move_spec(
                            old(self).game.board@,
                            Side::AI,
                            MAX_DEPTH as nat,
                        ) {
                            Some(mv) => old(self).game.moved(final(self).game, mv),
                            None => final(self).game == old(self).game,
                        }
                        &&& next == follow_up(final(self).game, CONTINUE_DELAY_MS)
                    } else {
                        final(self).game == old(self).game && next == FollowUp::Nothing
                    }
                },
            },
    {
        match message {
            Message::CellClicked(row, col) => {
                if self.game.current_turn == Side::AI {
                    return FollowUp::Nothing;
                }
                let pos = Position { row, col };
                if self.selected_piece.is_some() {
                    if let Some(mv) = find_move_to(&self.available_moves, pos) {
                        let _ = self.game.make_move(mv);
                        self.selected_piece = None;
                        self.available_moves.clear();

                        if self.game.current_turn == Side::AI && !self.game.game_over {
                            return FollowUp::AiMoveAfter(REPLY_DELAY_MS);
                        }
                    } else {
                        self.selected_piece = None;
                        self.available_moves.clear();
                    }
                } else {
                    if let Some(piece) = self.game.board.get_square(&pos) {
                        if piece.owner == self.game.current_turn {
                            self.selected_piece = Some(pos);
                            self.available_moves = self.game.get_possible_moves(pos);
                            proof {
                                crate::game_manager::lemma_possible_moves_start(
                                    self.game.board@,
                                    self.game.current_turn,
                                    pos,
                                );
                            }
                        }
                    }
                }
                FollowUp::Nothing
            },
            Message::AiMove => {
                if self.game.current_turn == Side::AI && !self.game.game_over {
                    let _ = self.game.make_ai_move();

                    if self.game.current_turn == Side::AI && !self.game.game_over {
                        return FollowUp::AiMoveAfter(CONTINUE_DELAY_MS);
                    }
                }
                FollowUp::Nothing
            },
        }
    }
}

impl Default for CheckersUI {
    /// A new game with nothing selected.
    fn default() -> (ui: Self)
        ensures
            ui.game.board@ == crate::board::initial_grid(),
            ui.game.current_turn == Side::Player,
            !ui.game.game_over,
            ui.game.winner is None,
            ui.selected_piece is None,
            ui.available_moves@.len() == 0,
            ui.wf(),
            ui.game.wf(),
    {
        CheckersUI { game: GameManager::new(), selected_piece: None, available_moves: Vec::new() }
    }
}

/// The first of `moves` that ends on `pos`.
fn find_move_to(moves: &Vec<Move>, pos: Position) -> (found: Option<Move>)
    ensures
        found == first_move_to(moves@, pos),
        found matches Some(mv) ==> moves@.contains(mv),
{
    let mut i: usize = 0;
    assert(moves@.skip(0) =~= moves@);
    while i < moves.len()
        invariant
            i <= moves.len(),
            first_move_to(moves@, pos) == first_move_to(moves@.skip(i as int), pos),
        decreases moves.len() - i,
    {
        assert(moves@.skip(i as int).drop_first() =~= moves@.skip(i + 1));
        if moves[i].to == pos {
            return Some(moves[i]);
        }
        i += 1;
    }
    None
}

} // verus!
