//! What a session tells the layers that play sound and draw effects.

use vstd::prelude::*;

verus! {

/// A sound to play.
#[derive(Clone, Copy, Debug, PartialEq, Eq, Hash, Structural)]
pub enum Sound {
    Move,
    Rotate,
    Hold,
    HoldFail,
    SoftDrop,
    HardDrop,
    /// A lock that cleared one row, without a spin.
    Erase1,
    Erase2,
    Erase3,
    Erase4,
    /// A T wedged in place that cleared no row.
    TSpin0,
    TSpin1,
    TSpin2,
    TSpin3,
    /// Any other lock.
    Lock,
    /// A tick of the countdown before the game starts.
    Countdown,
    /// The end of the countdown.
    Go,
    GameOver,
}

/// A burst to draw.
#[derive(Clone, Copy, Debug, PartialEq, Eq, Hash, Structural)]
pub enum Explosion {
    /// Four rows cleared at once.
    Tetris,
    /// Rows cleared by a T wedged in place.
    TSpin,
    /// Any other clear.
    Lines,
    /// The game ended.
    GameOver,
}

/// The sound of a lock that cleared `rows` rows; `t_spin` says whether the
/// piece was a T wedged in place.
pub open spec fn lock_sound(rows: i32, t_spin: bool) -> Sound {
    if rows == 1 && !t_spin {
        Sound::Erase1
    } else if rows == 2 && !t_spin {
        Sound::Erase2
    } else if rows == 3 && !t_spin {
        Sound::Erase3
    } else if rows == 4 && !t_spin {
        Sound::Erase4
    } else if rows == 0 && t_spin {
        Sound::TSpin0
    } else if rows == 1 && t_spin {
        Sound::TSpin1
    } else if rows == 2 && t_spin {
        Sound::TSpin2
    } else if rows == 3 && t_spin {
        Sound::TSpin3
    } else {
        Sound::Lock
    }
}

/// The burst of a lock that cleared `rows` rows.
pub open spec fn clear_burst(rows: i32, t_spin: bool) -> Explosion {
    if rows == 4 {
        Explosion::Tetris
    } else if t_spin {
        Explosion::TSpin
    } else {
        Explosion::Lines
    }
}

/// The sound of a lock that cleared `rows` rows.
pub fn sound_of_lock(rows: i32, t_spin: bool) -> (sound: Sound)
    ensures
        sound == lock_sound(rows, t_spin),
{
    if rows == 1 && !t_spin {
        Sound::Erase1
    } else if rows == 2 && !t_spin {
        Sound::Erase2
    } else if rows == 3 && !t_spin {
        Sound::Erase3
    } else if rows == 4 && !t_spin {
        Sound::Erase4
    } else if rows == 0 && t_spin {
        Sound::TSpin0
    } else if rows == 1 && t_spin {
        Sound::TSpin1
    } else if rows == 2 && t_spin {
        Sound::TSpin2
    } else if rows == 3 && t_spin {
        Sound::TSpin3
    } else {
        Sound::Lock
    }
}

/// The burst of a lock that cleared `rows` rows.
pub fn burst_of_clear(rows: i32, t_spin: bool) -> (burst: Explosion)
    ensures
        burst == clear_burst(rows, t_spin),
{
    if rows == 4 {
        Explosion::Tetris
    } else if t_spin {
        Explosion::TSpin
    } else {
        Explosion::Lines
    }
}

} // verus!
