//! Points: drops, line clears, spins, combos and back-to-back clears.
//!
//! Every sum is held at the ends of the `i32` range where it would pass them.

use vstd::prelude::*;

verus! {

/// A clear worth at least this many points is a hard clear. A hard clear that
/// follows a clear of that worth earns half as much again.
pub const HARD_CLEAR: i32 = 800;

/// Points that each link of a combo adds.
pub const COMBO_POINTS: i32 = 50;

/// The score as a mathematical value.
pub struct Tally {
    /// Points so far.
    pub score: i32,
    /// Points of the last clear, with its bonuses.
    pub last_clear: i32,
    /// Number of clears in a row after the first of the row, if the last
    /// locked piece cleared a row.
    pub combo: Option<i32>,
    /// Lines that the last clear sends to an opponent.
    pub garbage: i32,
}

/// `value` where it is an `i32`, the nearest `i32` where it is not.
pub open spec fn clamped(value: int) -> i32 {
    if value > i32::MAX {
        i32::MAX
    } else if value < i32::MIN {
        i32::MIN
    } else {
        value as i32
    }
}

/// Points of a clear of `rows` rows before bonuses; `t_spin` says whether the
/// piece was a T wedged in place. No other clear earns points.
pub open spec fn base_points(rows: i32, t_spin: bool) -> int {
    if rows == 1 && !t_spin {
        100
    } else if rows == 1 && t_spin {
        800
    } else if rows == 2 && !t_spin {
        300
    } else if rows == 2 && t_spin {
        1200
    } else if rows == 3 && !t_spin {
        500
    } else if rows == 3 && t_spin {
        1600
    } else if rows == 4 && !t_spin {
        800
    } else {
        0
    }
}

/// Lines that a clear of `rows` rows sends to an opponent, before the line
/// that a clear after a hard clear adds.
pub open spec fn base_garbage(rows: i32, t_spin: bool) -> int {
    if rows == 1 && !t_spin {
        0
    } else if rows == 1 && t_spin {
        2
    } else if rows == 2 && !t_spin {
        1
    } else if rows == 2 && t_spin {
        4
    } else if rows == 3 && !t_spin {
        3
    } else if rows == 3 && t_spin {
        6
    } else if rows == 4 && !t_spin {
        4
    } else {
        0
    }
}

impl Tally {
    /// No points, no clear, no combo.
    pub open spec fn zero() -> Tally {
        Tally { score: 0, last_clear: 0, combo: None, garbage: 0 }
    }

    /// After a soft drop of `rows` rows: one point for each.
    pub open spec fn soft_dropped(self, rows: i32) -> Tally {
        Tally { score: clamped(self.score + rows), ..self }
    }

    /// After a hard drop of `rows` rows: two points for each.
    pub open spec fn hard_dropped(self, rows: i32) -> Tally {
        Tally { score: clamped(self.score + 2 * rows), ..self }
    }

    /// After a piece locked without clearing a row.
    pub open spec fn without_combo(self) -> Tally {
        Tally { combo: None, ..self }
    }

    /// Whether the last clear was a hard one.
    pub open spec fn last_hard(self) -> bool {
        self.last_clear >= HARD_CLEAR
    }

    /// Points of the clear with the back-to-back bonus: a hard clear after a
    /// hard clear earns half as much again.
    pub open spec fn boosted(self, rows: i32, t_spin: bool) -> int {
        let base = base_points(rows, t_spin);
        if self.last_hard() && base >= HARD_CLEAR {
            base + base / 2
        } else {
            base
        }
    }

    /// The combo counter after one more clear: it starts at 0 and grows by one
    /// with each clear that follows without a clearless lock between.
    pub open spec fn next_combo(self) -> i32 {
        match self.combo {
            Some(combo) => clamped(combo + 1),
            None => 0,
        }
    }

    /// Points of the clear with all bonuses.
    pub open spec fn clear_points(self, rows: i32, t_spin: bool) -> i32 {
        clamped(self.boosted(rows, t_spin) + COMBO_POINTS * self.next_combo())
    }

    /// After a clear of `rows` rows.
    pub open spec fn locked(self, rows: i32, t_spin: bool) -> Tally {
        Tally {
            score: clamped(self.score + self.clear_points(rows, t_spin)),
            last_clear: self.clear_points(rows, t_spin),
            combo: Some(self.next_combo()),
            garbage: (base_garbage(rows, t_spin) + if self.last_hard() {
                1int
            } else {
                0int
            }) as i32,
        }
    }
}

/// `value` held inside the `i32` range.
fn clamp(value: i64) -> (clamped_value: i32)
    ensures
        clamped_value == clamped(value as int),
{
    if value > i32::MAX as i64 {
        i32::MAX
    } else if value < i32::MIN as i64 {
        i32::MIN
    } else {
        value as i32
    }
}

/// The score of a game.
#[derive(Clone, Copy, Debug)]
pub struct Score {
    score: i32,
    last_clear: i32,
    combo: Option<i32>,
    garbage: i32,
}

impl View for Score {
    type V = Tally;

    closed spec fn view(&self) -> Tally {
        Tally {
            score: self.score,
            last_clear: self.last_clear,
            combo: self.combo,
            garbage: self.garbage,
        }
    }
}

impl Default for Score {
    fn default() -> (score: Score)
        ensures
            score@ == Tally::zero(),
    {
        Score { score: 0, last_clear: 0, combo: None, garbage: 0 }
    }
}

impl Score {
    /// The points so far.
    pub fn score(&self) -> (points: i32)
        ensures
            points == self@.score,
    {
        self.score
    }

    /// The combo counter, if the last locked piece cleared a row.
    pub fn combo(&self) -> (combo: Option<i32>)
        ensures
            combo == self@.combo,
    {
        self.combo
    }

    /// Whether the last clear was a hard one, so that a hard clear that
    /// follows earns the back-to-back bonus.
    pub fn btb(&self) -> (hard: bool)
        ensures
            hard == self@.last_hard(),
    {
        self.last_clear >= HARD_CLEAR
    }

    /// Lines that the last clear sends to an opponent.
    pub fn garbage(&self) -> (lines: i32)
        ensures
            lines == self@.garbage,
    {
        self.garbage
    }

    /// Adds one point for each row of a soft drop.
    pub fn soft_drop(&mut self, rows: i32)
        ensures
            final(self)@ == old(self)@.soft_dropped(rows),
    {
        self.score = clamp(self.score as i64 + rows as i64);
    }

    /// Adds two points for each row of a hard drop.
    pub fn hard_drop(&mut self, rows: i32)
        ensures
            final(self)@ == old(self)@.hard_dropped(rows),
    {
        self.score = clamp(self.score as i64 + 2 * (rows as i64));
    }

    /// Ends the combo: a piece locked without clearing a row.
    pub fn reset_combo(&mut self)
        ensures
            final(self)@ == old(self)@.without_combo(),
    {
        self.combo = None;
    }

    /// Counts a clear of `rows` rows; `t_spin` says whether the piece was a T
    /// wedged in place. The points of the clear come from a fixed table, grow
    /// by half for a hard clear after a hard clear, and by 50 for each link of
    /// the combo.
    pub fn lock(&mut self, rows: i32, t_spin: bool)
        ensures
            final(self)@ == old(self)@.locked(rows, t_spin),
    {
        let mut score: i64 = 0;
        let mut garbage: i32 = 0;
        let last_hard: bool = self.last_clear >= HARD_CLEAR;
        if rows == 1 && !t_spin {
            score = 100;
            garbage = 0;
        } else if rows == 1 && t_spin {
            score = 800;
            garbage = 2;
        } else if rows == 2 && !t_spin {
            score = 300;
            garbage = 1;
        } else if rows == 2 && t_spin {
            score = 1200;
            garbage = 4;
        } else if rows == 3 && !t_spin {
            score = 500;
            garbage = 3;
        } else if rows == 3 && t_spin {
            score = 1600;
            garbage = 6;
        } else if rows == 4 && !t_spin {
            score = 800;
            garbage = 4;
        }
        if last_hard {
            garbage += 1;
            if score >= HARD_CLEAR as i64 {
                score += score / 2;
            }
        }
        let combo: i32 = match self.combo {
            Some(combo) => clamp(combo as i64 + 1),
            None => 0,
        };
        let points: i32 = clamp(score + COMBO_POINTS as i64 * combo as i64);
        self.combo = Some(combo);
        self.last_clear = points;
        self.garbage = garbage;
        self.score = clamp(self.score as i64 + points as i64);
    }
}

} // verus!
