//! The referee's decisions: the setup-phase outcome combinator and the
//! turn state machine.
//!
//! The surrounding program performs the reads and writes; this module takes
//! the plain values they produced — a setup result per player, a parsed shot
//! or the absence of one — and decides what follows.

use crate::board::cells_after_shot;
use crate::board::shot_outcome;
use crate::board::GameBoard;
use crate::board::GameBoardShotResult;
use crate::cells::GameBoardCell;
use crate::cells::GameBoardCellState;
use crate::position::Position;
use vstd::prelude::*;

verus! {

/// How the game ended.
#[derive(Debug, Copy, Clone, PartialEq, Eq, Structural)]
pub enum GameResult {
    Draw,
    Player1Win,
    Player2Win,
}

impl GameResult {
    /// The setup-phase combinator: when both players fail to initialize the
    /// game is a draw, when one fails the other wins at once, and when both
    /// succeed their values are handed back and the turn loop decides.
    pub fn from_results<T, E>(player1_result: Result<T, E>, player2_result: Result<T, E>) -> (r:
        Result<GameResult, (T, T)>)
        ensures
            r is Ok <==> (player1_result is Err || player2_result is Err),
            (player1_result is Err && player2_result is Err) ==> r == Ok::<GameResult, (T, T)>(
                GameResult::Draw,
            ),
            (player1_result is Ok && player2_result is Err) ==> r == Ok::<GameResult, (T, T)>(
                GameResult::Player1Win,
            ),
            (player1_result is Err && player2_result is Ok) ==> r == Ok::<GameResult, (T, T)>(
                GameResult::Player2Win,
            ),
            player1_result matches Ok(a) ==> (player2_result matches Ok(b) ==> r == Err::<
                GameResult,
                (T, T),
            >((a, b))),
    {
        match (player1_result, player2_result) {
            (Ok(player1_value), Ok(player2_value)) => Err((player1_value, player2_value)),
            (Err(_), Err(_)) => Ok(GameResult::Draw),
            (Ok(_), Err(_)) => Ok(GameResult::Player1Win),
            (Err(_), Ok(_)) => Ok(GameResult::Player2Win),
        }
    }
}

/// The turn state machine: whose turn it is, or how the game ended.
#[derive(Debug, Copy, Clone, PartialEq, Eq, Structural)]
pub enum TurnState {
    Player1Turn,
    Player2Turn,
    GameOver(GameResult),
}

/// The player whose turn it is wins.
pub open spec fn active_wins(state: TurnState) -> GameResult {
    if state is Player1Turn {
        GameResult::Player1Win
    } else {
        GameResult::Player2Win
    }
}

/// The player whose turn it is loses.
pub open spec fn active_loses(state: TurnState) -> GameResult {
    if state is Player1Turn {
        GameResult::Player2Win
    } else {
        GameResult::Player1Win
    }
}

/// The state after a resolved shot: a miss passes the turn, eliminating the
/// opposing fleet wins at once, and any other hit grants another shot.
pub open spec fn next_turn_state(
    state: TurnState,
    result: GameBoardShotResult,
    opponent_hits_left: int,
) -> TurnState {
    if result is Miss {
        if state is Player1Turn {
            TurnState::Player2Turn
        } else {
            TurnState::Player1Turn
        }
    } else if opponent_hits_left == 0 {
        TurnState::GameOver(active_wins(state))
    } else {
        state
    }
}

/// While the active player keeps hitting, the turn never passes: after any
/// result other than a miss the state stays theirs, until the opposing fleet
/// is eliminated, which wins the game at once.
pub proof fn lemma_hits_keep_the_turn(
    state: TurnState,
    result: GameBoardShotResult,
    opponent_hits_left: int,
)
    requires
        state is Player1Turn || state is Player2Turn,
        !(result is Miss),
    ensures
        next_turn_state(state, result, opponent_hits_left) == if opponent_hits_left == 0 {
            TurnState::GameOver(active_wins(state))
        } else {
            state
        },
{
}

impl TurnState {
    /// The active player supplied no shot — their stream ended or their line
    /// was unreadable — so they forfeit and the opponent wins.
    pub fn resolve_forfeit(self) -> (next: TurnState)
        requires
            self is Player1Turn || self is Player2Turn,
        ensures
            next == TurnState::GameOver(active_loses(self)),
    {
        match self {
            TurnState::Player1Turn => TurnState::GameOver(GameResult::Player2Win),
            _ => TurnState::GameOver(GameResult::Player1Win),
        }
    }

    /// Resolves one shot of the active player against the opposing board and
    /// decides the next state: pass the turn on a miss, declare the win when
    /// the opposing fleet is eliminated, grant another shot otherwise.
    pub fn resolve_shot(self, opponent: &mut GameBoard, pos: Position) -> (r: (
        GameBoardShotResult,
        TurnState,
    ))
        requires
            self is Player1Turn || self is Player2Turn,
            old(opponent).wf(),
            pos.wf(),
        ensures
            final(opponent).wf(),
            final(opponent)@ == cells_after_shot(old(opponent)@, pos.idx()),
            final(opponent).spec_hits() == old(opponent).spec_hits() - (if old(opponent)@[pos.idx()]
                == GameBoardCell::Ship(GameBoardCellState::NonShot) {
                1int
            } else {
                0int
            }),
            r.0 == shot_outcome(old(opponent)@, pos.idx()),
            r.1 == next_turn_state(self, r.0, final(opponent).spec_hits()),
    {
        let shot_result = opponent.shoot(pos);
        let next = match shot_result {
            GameBoardShotResult::Miss => match self {
                TurnState::Player1Turn => TurnState::Player2Turn,
                _ => TurnState::Player1Turn,
            },
            _ => {
                if opponent.hits_left() == 0 {
                    match self {
                        TurnState::Player1Turn => TurnState::GameOver(GameResult::Player1Win),
                        _ => TurnState::GameOver(GameResult::Player2Win),
                    }
                } else {
                    self
                }
            },
        };
        (shot_result, next)
    }
}

} // verus!
