//! The falling piece: a shape, its rotation, its place on the field and the
//! time it has rested.

use crate::matrix::{time_sum, Field, Matrix};
use crate::shape::{turn, turned, Shape, ShapeGrid, ShapeType, ROTATIONS};
use vstd::prelude::*;

verus! {

/// A live piece.
#[derive(Clone, Copy, Debug, PartialEq, Eq, Structural)]
pub struct Piece {
    /// The shape of the piece.
    pub shape: Shape,
    /// The rotation index, from 0 to 3.
    pub rotation: usize,
    /// Field column of the left edge of the four-by-four drawing.
    pub x: i32,
    /// Field row of the top edge of the four-by-four drawing.
    pub y: i32,
    /// Time in milliseconds that the piece has rested since it last moved or
    /// turned.
    pub locking: u64,
}

/// The column at which a shape enters a field of width `width`: its bounding
/// box is centred, rounded to the left where it cannot be exact.
pub open spec fn spawn_x(grid: ShapeGrid, width: int) -> int {
    if width >= grid.width {
        (width - grid.width) / 2 - grid.offset_x
    } else {
        -grid.offset_x
    }
}

/// The row at which a shape enters a field with `vanish` hidden rows: the
/// bottom of its bounding box stands on the last hidden row.
pub open spec fn spawn_y(grid: ShapeGrid, vanish: int) -> int {
    vanish - grid.height - grid.offset_y
}

impl Piece {
    /// The rotation index is one of the four.
    pub open spec fn wf(&self) -> bool {
        self.rotation < ROTATIONS
    }

    /// The rotation state that the piece shows.
    pub open spec fn spec_grid(&self) -> ShapeGrid {
        self.shape.shape_type.spec_grid(self.rotation as int)
    }

    /// The piece of shape `shape_type` as it enters `field`: in its first
    /// rotation state, at the top, with no time rested.
    pub open spec fn spawned(shape_type: ShapeType, field: Field) -> Piece {
        Piece {
            shape: Shape { shape_type },
            rotation: 0,
            x: spawn_x(shape_type.spec_grid(0), field.width) as i32,
            y: spawn_y(shape_type.spec_grid(0), field.vanish) as i32,
            locking: 0,
        }
    }

    /// Whether the piece, in the rotation state that it shows, can stand
    /// `dx` columns to the right and `dy` rows below where it is.
    pub open spec fn fits(&self, field: Field, dx: int, dy: int) -> bool {
        !field.collides(self.spec_grid(), self.x + dx, self.y + dy)
    }

    /// The piece after an attempt to move it by `dx` columns and `dy` rows:
    /// moved and rested no time where it can stand there, as it was where it
    /// cannot.
    pub open spec fn shifted(&self, field: Field, dx: int, dy: int) -> Piece {
        if self.fits(field, dx, dy) {
            Piece { x: (self.x + dx) as i32, y: (self.y + dy) as i32, locking: 0, ..*self }
        } else {
            *self
        }
    }

    /// Whether the piece can stand turned by a quarter and moved by candidate
    /// offset number `k` of that turn.
    pub open spec fn kick_fits(&self, field: Field, clockwise: bool, k: int) -> bool {
        let kicks = self.shape.shape_type.spec_kicks(self.rotation as int, clockwise);
        !field.collides(
            self.shape.shape_type.spec_grid(turned(self.rotation as int, clockwise)),
            self.x + kicks[k][0],
            self.y + kicks[k][1],
        )
    }

    /// The number of the first candidate offset, from number `from` on, with
    /// which the turned piece can stand; 5 where there is none.
    pub open spec fn first_kick(&self, field: Field, clockwise: bool, from: int) -> int
        decreases 5 - from,
    {
        if from >= 5 {
            5
        } else if self.kick_fits(field, clockwise, from) {
            from
        } else {
            self.first_kick(field, clockwise, from + 1)
        }
    }

    /// The piece after an attempt to turn it by a quarter: turned, moved by
    /// the first candidate offset that lets it stand and rested no time; as it
    /// was where no candidate does.
    pub open spec fn rotated(&self, field: Field, clockwise: bool) -> Piece {
        let k = self.first_kick(field, clockwise, 0);
        let kicks = self.shape.shape_type.spec_kicks(self.rotation as int, clockwise);
        if k < 5 {
            Piece {
                rotation: turned(self.rotation as int, clockwise) as usize,
                x: (self.x + kicks[k][0]) as i32,
                y: (self.y + kicks[k][1]) as i32,
                locking: 0,
                ..*self
            }
        } else {
            *self
        }
    }

    /// The number of rows that the piece can move down, counted from `from`
    /// rows that it is known to be able to.
    pub open spec fn descent(&self, field: Field, from: int) -> int
        decreases field.depth() - self.y - from,
    {
        if self.fits(field, 0, from + 1) && self.y + from < field.depth() {
            self.descent(field, from + 1)
        } else {
            from
        }
    }

    /// The piece after it fell as far as it can.
    pub open spec fn fallen(&self, field: Field) -> Piece {
        let rows = self.descent(field, 0);
        if rows > 0 {
            Piece { y: (self.y + rows) as i32, locking: 0, ..*self }
        } else {
            *self
        }
    }

    /// Whether the piece rests: it cannot move down by a row.
    pub open spec fn resting(&self, field: Field) -> bool {
        !self.fits(field, 0, 1)
    }

    /// How many of the four corners of the three-by-three square in which a T
    /// turns are occupied or outside the field.
    pub open spec fn corners_taken(&self, field: Field) -> int {
        (if field.taken(self.x as int, self.y as int) {
            1int
        } else {
            0int
        }) + (if field.taken(self.x + 2, self.y as int) {
            1int
        } else {
            0int
        }) + (if field.taken(self.x as int, self.y + 2) {
            1int
        } else {
            0int
        }) + (if field.taken(self.x + 2, self.y + 2) {
            1int
        } else {
            0int
        })
    }

    /// Whether the piece is a T wedged in: three or more of the corners around
    /// it are taken.
    pub open spec fn spun(&self, field: Field) -> bool {
        self.shape.shape_type == ShapeType::T && self.corners_taken(field) >= 3
    }

    /// The piece after `delta` milliseconds: a resting piece has rested so
    /// much longer.
    pub open spec fn aged(&self, field: Field, delta: u64) -> Piece {
        if self.resting(field) {
            Piece { locking: time_sum(self.locking, delta), ..*self }
        } else {
            *self
        }
    }

    /// A new piece of shape `shape_type` at the top of `stack`.
    pub fn new(shape_type: ShapeType, stack: &Matrix) -> (piece: Piece)
        requires
            stack.wf(),
        ensures
            piece == Piece::spawned(shape_type, stack@),
            piece.wf(),
            piece.x == spawn_x(shape_type.spec_grid(0), stack@.width),
            piece.y == spawn_y(shape_type.spec_grid(0), stack@.vanish),
    {
        let shape = Shape::new(shape_type);
        let grid = shape.grid(0);
        let width: i32 = stack.width();
        let x: i32 = if width >= grid.width {
            (width - grid.width) / 2 - grid.offset_x
        } else {
            -grid.offset_x
        };
        let y: i32 = stack.vanish() - grid.height - grid.offset_y;
        Piece { shape, rotation: 0, x, y, locking: 0 }
    }

    /// The shape of the piece.
    pub fn shape(&self) -> (shape_type: ShapeType)
        ensures
            shape_type == self.shape.shape_type,
    {
        self.shape.shape_type
    }

    /// The time, in milliseconds, that the piece has rested since it last
    /// moved or turned.
    pub fn locking(&self) -> (locking: u64)
        ensures
            locking == self.locking,
    {
        self.locking
    }

    /// The rotation state that the piece shows.
    pub fn get_grid(&self) -> (grid: ShapeGrid)
        requires
            self.wf(),
        ensures
            grid == self.spec_grid(),
            grid.wf(),
    {
        self.shape.grid(self.rotation)
    }

    /// Moves the piece by `dx` columns and `dy` rows if it can stand there,
    /// and says whether it did. A piece that moved has rested no time.
    pub fn shift(&mut self, dx: i32, dy: i32, stack: &Matrix) -> (moved: bool)
        requires
            old(self).wf(),
            stack.wf(),
        ensures
            moved == old(self).fits(stack@, dx as int, dy as int),
            *final(self) == old(self).shifted(stack@, dx as int, dy as int),
            final(self).wf(),
            moved ==> final(self).fits(stack@, 0, 0),
    {
        let grid = self.get_grid();
        let x: i64 = self.x as i64 + dx as i64;
        let y: i64 = self.y as i64 + dy as i64;
        if stack.collides(&grid, x, y) {
            return false;
        }
        self.x = x as i32;
        self.y = y as i32;
        self.locking = 0;
        true
    }

    /// Turns the piece by a quarter if it can stand so, moved by one of the
    /// candidate offsets of that turn, and says whether it did. The first
    /// candidate that lets it stand is taken. A piece that turned has rested
    /// no time; one that did not is as it was.
    pub fn rotate(&mut self, clockwise: bool, stack: &Matrix) -> (turned: bool)
        requires
            old(self).wf(),
            stack.wf(),
        ensures
            turned == (old(self).first_kick(stack@, clockwise, 0) < 5),
            *final(self) == old(self).rotated(stack@, clockwise),
            final(self).wf(),
            turned ==> final(self).fits(stack@, 0, 0),
    {
        let to: usize = turn(self.rotation, clockwise);
        let grid = self.shape.grid(to);
        let kicks = self.shape.shape_type.kicks(self.rotation, clockwise);
        let mut k: usize = 0;
        while k < 5
            invariant
                self.wf(),
                stack.wf(),
                grid.wf(),
                *self == *old(self),
                to == turned(self.rotation as int, clockwise),
                grid == self.shape.shape_type.spec_grid(to as int),
                kicks == self.shape.shape_type.spec_kicks(self.rotation as int, clockwise),
                forall|i: int| 0 <= i < 5 ==> -2 <= #[trigger] kicks[i][0] <= 2 && -2 <= kicks[i][1] <= 2,
                0 <= k <= 5,
                self.first_kick(stack@, clockwise, 0) == self.first_kick(stack@, clockwise, k as int),
            decreases 5 - k,
        {
            let offset: [i32; 2] = kicks[k];
            let x: i64 = self.x as i64 + offset[0] as i64;
            let y: i64 = self.y as i64 + offset[1] as i64;
            if !stack.collides(&grid, x, y) {
                self.rotation = to;
                self.x = x as i32;
                self.y = y as i32;
                self.locking = 0;
                return true;
            }
            k += 1;
        }
        false
    }

    /// Moves the piece down until it rests and returns the number of rows
    /// that it fell.
    pub fn fall(&mut self, stack: &Matrix) -> (rows: i32)
        requires
            old(self).wf(),
            stack.wf(),
        ensures
            rows == old(self).descent(stack@, 0),
            *final(self) == old(self).fallen(stack@),
            final(self).wf(),
            0 <= rows,
            final(self).resting(stack@),
            rows > 0 ==> final(self).fits(stack@, 0, 0),
    {
        let grid = self.get_grid();
        let mut rows: i32 = 0;
        while self.y as i64 + (rows as i64) < stack.height() as i64 + stack.vanish() as i64
            && !stack.collides(&grid, self.x as i64, self.y as i64 + rows as i64 + 1)
            invariant
                self.wf(),
                stack.wf(),
                grid.wf(),
                grid == self.spec_grid(),
                *self == *old(self),
                0 <= rows,
                rows > 0 ==> self.y + rows <= stack@.depth() && self.y + 1 + grid.offset_y >= 0
                    && self.fits(stack@, 0, rows as int),
                self.descent(stack@, 0) == self.descent(stack@, rows as int),
            decreases stack@.depth() - self.y - rows,
        {
            rows += 1;
        }
        if rows > 0 {
            self.y = self.y + rows;
            self.locking = 0;
        }
        rows
    }

    /// Whether the piece rests on the floor or on the stack: it cannot move
    /// down by a row.
    pub fn touching_floor(&self, stack: &Matrix) -> (resting: bool)
        requires
            self.wf(),
            stack.wf(),
        ensures
            resting == self.resting(stack@),
    {
        let grid = self.get_grid();
        stack.collides(&grid, self.x as i64, self.y as i64 + 1)
    }

    /// Whether the piece is a T of which three or more of the four corners
    /// around it are occupied or outside the field.
    pub fn t_spin(&self, stack: &Matrix) -> (spun: bool)
        requires
            stack.wf(),
        ensures
            spun == self.spun(stack@),
    {
        match self.shape.shape_type {
            ShapeType::T => {},
            _ => {
                return false;
            },
        }
        let x: i64 = self.x as i64;
        let y: i64 = self.y as i64;
        let mut corners: u8 = 0;
        if stack.occupied(x, y) {
            corners += 1;
        }
        if stack.occupied(x + 2, y) {
            corners += 1;
        }
        if stack.occupied(x, y + 2) {
            corners += 1;
        }
        if stack.occupied(x + 2, y + 2) {
            corners += 1;
        }
        corners >= 3
    }

    /// Lets `delta` milliseconds pass: a piece that rests has rested so much
    /// longer.
    pub fn update(&mut self, delta: u64, stack: &Matrix)
        requires
            old(self).wf(),
            stack.wf(),
        ensures
            *final(self) == old(self).aged(stack@, delta),
            final(self).wf(),
    {
        if self.touching_floor(stack) {
            self.locking = self.locking.saturating_add(delta);
        }
    }
}

/// A piece enters inside the field wherever the field is four columns wide and
/// has four hidden rows, or more.
pub proof fn lemma_spawn_in_box(shape_type: ShapeType, field: Field)
    requires
        field.wf(),
        field.width >= 4,
        field.vanish >= 4,
    ensures
        Piece::spawned(shape_type, field).wf(),
        field.holds_box(
            Piece::spawned(shape_type, field).spec_grid(),
            Piece::spawned(shape_type, field).x as int,
            Piece::spawned(shape_type, field).y as int,
        ),
        field.hidden(
            Piece::spawned(shape_type, field).spec_grid(),
            Piece::spawned(shape_type, field).y as int,
        ),
{
}

/// What `first_kick` finds: the candidate that it names lets the turned piece
/// stand, and no candidate before it does.
pub proof fn lemma_first_kick(piece: Piece, field: Field, clockwise: bool, from: int)
    requires
        0 <= from <= 5,
    ensures
        from <= piece.first_kick(field, clockwise, from) <= 5,
        piece.first_kick(field, clockwise, from) < 5 ==> piece.kick_fits(
            field,
            clockwise,
            piece.first_kick(field, clockwise, from),
        ),
        forall|k: int|
            from <= k < piece.first_kick(field, clockwise, from) ==> !piece.kick_fits(
                field,
                clockwise,
                k,
            ),
    decreases 5 - from,
{
    if from < 5 && !piece.kick_fits(field, clockwise, from) {
        lemma_first_kick(piece, field, clockwise, from + 1);
    }
}

/// A turn is all or nothing. Either no candidate offset lets the turned piece
/// stand, and the piece is exactly as it was: rotation, place and time rested.
/// Or the piece has the next rotation index, has moved by the first candidate
/// that lets it stand, and stands. Where the piece cannot turn in place, as
/// against a wall, the offset of a turn that succeeds is not zero.
pub proof fn lemma_rotation_is_all_or_nothing(piece: Piece, field: Field, clockwise: bool)
    requires
        piece.wf(),
        field.wf(),
    ensures
        ({
            let k = piece.first_kick(field, clockwise, 0);
            let kicks = piece.shape.shape_type.spec_kicks(piece.rotation as int, clockwise);
            let after = piece.rotated(field, clockwise);
            &&& 0 <= k <= 5
            &&& k == 5 ==> after == piece
            &&& k < 5 ==> {
                &&& after.wf()
                &&& after.shape == piece.shape
                &&& after.rotation == turned(piece.rotation as int, clockwise)
                &&& after.x == piece.x + kicks[k][0]
                &&& after.y == piece.y + kicks[k][1]
                &&& after.fits(field, 0, 0)
                &&& forall|j: int| 0 <= j < k ==> !piece.kick_fits(field, clockwise, j)
            }
            &&& 1 <= k < 5 ==> kicks[k][0] != 0 || kicks[k][1] != 0
        }),
{
    lemma_first_kick(piece, field, clockwise, 0);
}

/// A move is all or nothing: a piece that cannot stand at the new place stays
/// exactly as it was, and one that can has moved there and stands.
pub proof fn lemma_shift_is_all_or_nothing(piece: Piece, field: Field, dx: int, dy: int)
    requires
        piece.wf(),
        field.wf(),
    ensures
        !piece.fits(field, dx, dy) ==> piece.shifted(field, dx, dy) == piece,
        piece.fits(field, dx, dy) ==> {
            &&& piece.shifted(field, dx, dy).x == piece.x + dx
            &&& piece.shifted(field, dx, dy).y == piece.y + dy
            &&& piece.shifted(field, dx, dy).rotation == piece.rotation
            &&& piece.shifted(field, dx, dy).fits(field, 0, 0)
        },
{
}

/// How far a piece falls: it can stand on each of the rows that it passes and
/// cannot go one row further.
pub proof fn lemma_descent(piece: Piece, field: Field, from: int)
    requires
        piece.wf(),
        field.wf(),
        0 <= from,
    ensures
        from <= piece.descent(field, from),
        forall|k: int| from < k <= piece.descent(field, from) ==> piece.fits(field, 0, k),
        !piece.fits(field, 0, piece.descent(field, from) + 1),
    decreases field.depth() - piece.y - from,
{
    if piece.fits(field, 0, from + 1) {
        lemma_descent(piece, field, from + 1);
    }
}

} // verus!
