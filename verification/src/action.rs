//! The discrete intents that drive a session.

use vstd::prelude::*;

verus! {

/// One step of a game: a move of the player, or what follows from one.
#[derive(Clone, Copy, Debug, PartialEq, Eq, Hash, Structural)]
pub enum Action {
    MoveLeft,
    MoveRight,
    MoveDown,
    RotateClockwise,
    RotateCounterClockwise,
    SoftDrop,
    HardDrop,
    HoldPiece,
    /// Gravity: the piece falls by a row, or locks where it cannot.
    FallPiece,
    /// The piece becomes part of the field and the next one enters.
    LockPiece,
    /// The game ends.
    GameOver,
}

impl Action {
    /// An upper bound on the actions that handling this one can still bring
    /// to the front of the queue, itself included: the end of the game brings
    /// none, a lock at most the end of the game, any other at most a lock.
    pub open spec fn load(self) -> nat {
        match self {
            Action::GameOver => 1,
            Action::LockPiece => 2,
            _ => 3,
        }
    }
}

/// The sum of the loads of the actions of a queue.
pub open spec fn queue_load(actions: Seq<Action>) -> nat
    decreases actions.len(),
{
    if actions.len() == 0 {
        0
    } else {
        actions[0].load() + queue_load(actions.skip(1))
    }
}

/// An action at the front of a queue adds its load.
pub proof fn lemma_load_of_front(action: Action, actions: Seq<Action>)
    ensures
        queue_load(seq![action] + actions) == action.load() + queue_load(actions),
{
    assert((seq![action] + actions).skip(1) =~= actions);
}

} // verus!
