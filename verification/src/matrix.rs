//! The playing field: a grid of placed cells with collision tests, locking of
//! pieces, detection of full rows and the timed collapse that follows.
//!
//! Row 0 is the top of the vanish zone, the hidden rows above the visible
//! field. A cell holds 0 when it is empty and the block value of the shape that
//! was locked there otherwise.

use crate::piece::Piece;
use crate::shape::{lemma_cells_in_box, ShapeGrid, ShapeType};
use rand_distr::{Distribution, Uniform};
use vstd::prelude::*;

verus! {

/// Default time, in milliseconds, between the clearing of full rows and the
/// collapse of the rows above them.
pub const CLEAR_DELAY: u64 = 500;

/// Number of bricks of the practice tower.
pub const TOWER_BRICKS: usize = 108;

/// The first bricks of the practice tower, each as `[row, column]`: the wall
/// on the left with its notches and the overhang above them.
pub const TOWER_BASE: [[i32; 2]; 22] = [
    [39, 0],
    [39, 1],
    [38, 0],
    [37, 0],
    [37, 1],
    [36, 0],
    [36, 1],
    [35, 0],
    [34, 0],
    [34, 1],
    [33, 0],
    [33, 1],
    [32, 0],
    [31, 0],
    [31, 1],
    [30, 0],
    [30, 1],
    [29, 0],
    [28, 0],
    [28, 1],
    [26, 2],
    [25, 2],
];

/// Row and column of brick number `k` of the practice tower. After the first
/// 22 come 14 bricks of column 3, from row 39 upwards, and then twelve rows of
/// the columns 4 to 9, from row 39 upwards.
pub open spec fn tower_brick(k: int) -> (int, int) {
    if k < 22 {
        (TOWER_BASE[k][0] as int, TOWER_BASE[k][1] as int)
    } else if k < 36 {
        (39 - (k - 22), 3)
    } else {
        (39 - (k - 36) / 6, 4 + (k - 36) % 6)
    }
}

/// Row and column of brick number `k` of the practice tower.
pub fn brick(k: usize) -> (place: (i32, i32))
    requires
        k < TOWER_BRICKS,
    ensures
        place.0 == tower_brick(k as int).0,
        place.1 == tower_brick(k as int).1,
        25 <= place.0 < 40,
        0 <= place.1 < 10,
{
    if k < 22 {
        let base: [i32; 2] = TOWER_BASE[k];
        (base[0], base[1])
    } else if k < 36 {
        (39 - (k - 22) as i32, 3)
    } else {
        (39 - ((k - 36) / 6) as i32, 4 + ((k - 36) % 6) as i32)
    }
}

/// A number drawn by `rand_distr::Uniform::new(low, high)` with `sample` from
/// the generator of the thread, `rand::thread_rng`. It depends on chance.
///
/// Trusted: the number lies in the range from `low` up to, not including,
/// `high`. `Uniform::new` panics where the range is empty, which `requires`
/// rules out.
#[verifier::external_body]
fn sample_uniform(low: usize, high: usize) -> (value: usize)
    requires
        low < high,
    ensures
        low <= value < high,
{
    Uniform::new(low, high).sample(&mut rand::thread_rng())
}

/// How an attempt to lock a piece ended.
#[derive(Clone, Copy, Debug, PartialEq, Eq, Structural)]
pub enum Locked {
    /// The piece lies wholly in the vanish zone: the stack has grown out of
    /// the field.
    Collision,
    /// The piece is part of the field now, and so many full rows were cleared.
    Success(i32),
}

/// The field as a mathematical value.
pub struct Field {
    /// Number of columns.
    pub width: int,
    /// Number of visible rows.
    pub height: int,
    /// Number of hidden rows above the visible ones.
    pub vanish: int,
    /// The cells, by row and then by column.
    pub rows: Seq<Seq<usize>>,
    /// The rows that were cleared and wait to collapse, top first, with the
    /// time in milliseconds since they were cleared.
    pub clearing: Option<(Seq<i32>, u64)>,
    /// Time in milliseconds after which cleared rows collapse.
    pub clear_delay: u64,
    /// Whether the game on this field is over.
    pub frozen: bool,
}

/// A row of `width` empty cells.
pub open spec fn empty_row(width: int) -> Seq<usize> {
    Seq::new(width as nat, |x: int| 0usize)
}

/// The sum of two times, held at the largest value where it would pass it.
pub open spec fn time_sum(a: u64, b: u64) -> u64 {
    if a + b > u64::MAX {
        u64::MAX
    } else {
        (a + b) as u64
    }
}

impl Field {
    /// Number of rows, hidden and visible.
    pub open spec fn depth(self) -> int {
        self.height + self.vanish
    }

    /// The dimensions are not negative, the grid has them, and the rows that
    /// wait to collapse are rows of the grid.
    pub open spec fn wf(self) -> bool {
        &&& 0 <= self.width
        &&& 0 <= self.height
        &&& 0 <= self.vanish
        &&& self.width <= i32::MAX
        &&& self.depth() <= i32::MAX
        &&& self.width * self.depth() <= i32::MAX
        &&& self.rows.len() == self.depth()
        &&& forall|y: int| 0 <= y < self.depth() ==> (#[trigger] self.rows[y]).len() == self.width
        &&& self.clearing matches Some((cleared, _)) ==> forall|i: int|
            0 <= i < cleared.len() ==> 0 <= #[trigger] cleared[i] < self.depth()
    }

    /// An empty field of the given dimensions.
    pub open spec fn empty(width: int, height: int, vanish: int) -> Field {
        Field {
            width,
            height,
            vanish,
            rows: Seq::new((height + vanish) as nat, |y: int| empty_row(width)),
            clearing: None,
            clear_delay: CLEAR_DELAY,
            frozen: false,
        }
    }

    /// Whether the bounding box of `grid`, drawn with its top left corner at
    /// column `x` and row `y`, lies inside the field.
    pub open spec fn holds_box(self, grid: ShapeGrid, x: int, y: int) -> bool {
        &&& 0 <= x + grid.offset_x
        &&& x + grid.offset_x + grid.width <= self.width
        &&& 0 <= y + grid.offset_y
        &&& y + grid.offset_y + grid.height <= self.depth()
    }

    /// Whether the cell at column `cx` and row `cy` of the bounding box of
    /// `grid` is occupied and falls on an occupied cell of the field.
    pub open spec fn hits(self, grid: ShapeGrid, x: int, y: int, cx: int, cy: int) -> bool {
        grid.filled(cx, cy) && self.rows[y + grid.offset_y + cy][x + grid.offset_x + cx] != 0
    }

    /// Whether an occupied cell of `grid` falls on an occupied cell of the
    /// field.
    #[verifier::opaque]
    pub open spec fn overlaps(self, grid: ShapeGrid, x: int, y: int) -> bool {
        exists|cx: int, cy: int| self.hits(grid, x, y, cx, cy)
    }

    /// Whether `grid` cannot stand at column `x` and row `y`: its bounding box
    /// leaves the field or one of its cells falls on an occupied one.
    pub open spec fn collides(self, grid: ShapeGrid, x: int, y: int) -> bool {
        !self.holds_box(grid, x, y) || self.overlaps(grid, x, y)
    }

    /// Whether the cell at column `x` of row `y` is occupied or lies outside
    /// the field.
    pub open spec fn taken(self, x: int, y: int) -> bool {
        !(0 <= x < self.width && 0 <= y < self.depth()) || self.rows[y][x] != 0
    }

    /// Whether the bounding box of `grid` at row `y` ends above the visible
    /// rows.
    pub open spec fn hidden(self, grid: ShapeGrid, y: int) -> bool {
        y + grid.offset_y + grid.height <= self.vanish
    }

    /// The field with the cell at column `x` of row `y` set to `value`.
    pub open spec fn with_cell(self, x: int, y: int, value: usize) -> Field {
        Field { rows: self.rows.update(y, self.rows[y].update(x, value)), ..self }
    }

    /// The field with row `y` replaced by `row`.
    pub open spec fn with_row(self, y: int, row: Seq<usize>) -> Field {
        Field { rows: self.rows.update(y, row), ..self }
    }

    /// The field with all cells empty.
    pub open spec fn emptied(self) -> Field {
        Field { rows: Field::empty(self.width, self.height, self.vanish).rows, ..self }
    }

    /// The field emptied and then set with the first `k` bricks of the
    /// practice tower, brick number `i` holding `blocks[i]`.
    pub open spec fn towered(self, blocks: Seq<usize>, k: int) -> Field
        decreases k,
    {
        if k <= 0 {
            self.emptied()
        } else {
            self.towered(blocks, k - 1).with_cell(
                tower_brick(k - 1).1,
                tower_brick(k - 1).0,
                blocks[k - 1],
            )
        }
    }

    /// The field with the occupied cells of `grid`, drawn at column `x` and
    /// row `y`, written over its own.
    pub open spec fn stamped(self, grid: ShapeGrid, x: int, y: int) -> Field {
        Field {
            rows: Seq::new(
                self.rows.len(),
                |r: int|
                    Seq::new(
                        self.rows[r].len(),
                        |c: int|
                            if grid.filled(c - x - grid.offset_x, r - y - grid.offset_y) {
                                grid.at(c - x - grid.offset_x, r - y - grid.offset_y)
                            } else {
                                self.rows[r][c]
                            },
                    ),
            ),
            ..self
        }
    }

    /// Whether every cell of row `y` is occupied.
    pub open spec fn row_full(self, y: int) -> bool {
        forall|x: int| 0 <= x < self.width ==> #[trigger] self.rows[y][x] != 0
    }

    /// The full rows among the first `below` rows, top first.
    pub open spec fn full_rows(self, below: int) -> Seq<i32>
        decreases below,
    {
        if below <= 0 {
            Seq::empty()
        } else if self.row_full(below - 1) {
            self.full_rows(below - 1).push((below - 1) as i32)
        } else {
            self.full_rows(below - 1)
        }
    }

    /// The field with every row named in `cleared` emptied.
    pub open spec fn erased(self, cleared: Seq<i32>) -> Field {
        Field {
            rows: Seq::new(
                self.rows.len(),
                |y: int|
                    if cleared.contains(y as i32) {
                        empty_row(self.width)
                    } else {
                        self.rows[y]
                    },
            ),
            ..self
        }
    }

    /// The field after `grid` was locked at column `x` and row `y`, and how
    /// locking ended. A piece wholly in the vanish zone leaves the field as it
    /// is. Otherwise its cells are written, and where that fills rows they are
    /// emptied at once and wait to collapse.
    #[verifier::opaque]
    pub open spec fn locked(self, grid: ShapeGrid, x: int, y: int) -> (Field, Locked) {
        if self.hidden(grid, y) {
            (self, Locked::Collision)
        } else {
            let stamped = self.stamped(grid, x, y);
            let full = stamped.full_rows(stamped.depth());
            if full.len() == 0 {
                (stamped, Locked::Success(0))
            } else {
                (
                    Field { clearing: Some((full, 0u64)), ..stamped.erased(full) },
                    Locked::Success(full.len() as i32),
                )
            }
        }
    }

    /// The field after the rows above row `row` moved down by one, onto it.
    /// The top row stays as it is.
    pub open spec fn dropped(self, row: int) -> Field {
        Field {
            rows: Seq::new(
                self.rows.len(),
                |y: int|
                    if 1 <= y <= row {
                        self.rows[y - 1]
                    } else {
                        self.rows[y]
                    },
            ),
            ..self
        }
    }

    /// The field after the rows above each row of `cleared` moved down onto
    /// it, one cleared row after the other in the order of `cleared`.
    pub open spec fn collapsed(self, cleared: Seq<i32>) -> Field
        decreases cleared.len(),
    {
        if cleared.len() == 0 {
            self
        } else {
            self.dropped(cleared[0] as int).collapsed(cleared.skip(1))
        }
    }

    /// The field after `delta` milliseconds: cleared rows wait until their
    /// time exceeds the clear delay and collapse then.
    #[verifier::opaque]
    pub open spec fn advanced(self, delta: u64) -> Field {
        match self.clearing {
            None => self,
            Some((cleared, elapsed)) => {
                if time_sum(elapsed, delta) > self.clear_delay {
                    Field { clearing: None, ..self.collapsed(cleared) }
                } else {
                    Field { clearing: Some((cleared, time_sum(elapsed, delta))), ..self }
                }
            },
        }
    }
}

/// The full rows among the first `below` rows are rows of the field, stand in
/// rising order, and are all the full rows there are.
pub proof fn lemma_full_rows(field: Field, below: int)
    requires
        0 <= below <= i32::MAX,
    ensures
        field.full_rows(below).len() <= below,
        forall|i: int|
            0 <= i < field.full_rows(below).len() ==> 0 <= #[trigger] field.full_rows(below)[i]
                < below && field.row_full(field.full_rows(below)[i] as int),
        forall|i: int, j: int|
            0 <= i < j < field.full_rows(below).len() ==> field.full_rows(below)[i]
                < field.full_rows(below)[j],
        forall|y: int|
            0 <= y < below && field.row_full(y) ==> field.full_rows(below).contains(y as i32),
    decreases below,
{
    if below > 0 {
        lemma_full_rows(field, below - 1);
        let before = field.full_rows(below - 1);
        let now = field.full_rows(below);
        if field.row_full(below - 1) {
            assert(now[now.len() - 1] == below - 1);
        }
        assert forall|y: int| 0 <= y < below && field.row_full(y) implies now.contains(
            y as i32,
        ) by {
            if y < below - 1 {
                assert(before.contains(y as i32));
                let i = choose|i: int| 0 <= i < before.len() && before[i] == y as i32;
                assert(now[i] == y as i32);
            } else {
                assert(now[now.len() - 1] == y as i32);
            }
        }
    }
}

/// A collapse moves rows and nothing else: the dimensions, the waiting rows,
/// the clear delay and the number of rows stay, and every row keeps its width.
pub proof fn lemma_collapsed_frame(field: Field, cleared: Seq<i32>)
    requires
        field.wf(),
        forall|i: int| 0 <= i < cleared.len() ==> 0 <= #[trigger] cleared[i] < field.depth(),
    ensures
        field.collapsed(cleared) == (Field { rows: field.collapsed(cleared).rows, ..field }),
        field.collapsed(cleared).wf(),
    decreases cleared.len(),
{
    if cleared.len() > 0 {
        let next = field.dropped(cleared[0] as int);
        assert(next.wf());
        assert forall|i: int| 0 <= i < cleared.skip(1).len() implies 0 <= #[trigger] cleared.skip(
            1,
        )[i] < next.depth() by {
            assert(cleared.skip(1)[i] == cleared[i + 1]);
        }
        lemma_collapsed_frame(next, cleared.skip(1));
    }
}

/// A lock writes cells and sets rows to wait, and nothing else: the dimensions
/// and the clear delay stay, and the field stays well formed.
pub proof fn lemma_locked_frame(field: Field, grid: ShapeGrid, x: int, y: int)
    requires
        field.wf(),
    ensures
        field.locked(grid, x, y).0.wf(),
        field.locked(grid, x, y).0.width == field.width,
        field.locked(grid, x, y).0.height == field.height,
        field.locked(grid, x, y).0.vanish == field.vanish,
        field.locked(grid, x, y).0.clear_delay == field.clear_delay,
        field.locked(grid, x, y).0.frozen == field.frozen,
        field.locked(grid, x, y).1 == Locked::Collision ==> field.locked(grid, x, y).0 == field,
        field.locked(grid, x, y).1 matches Locked::Success(rows) ==> 0 <= rows <= field.depth()
            && (rows == 0 ==> field.locked(grid, x, y).0.clearing == field.clearing) && (rows > 0
            ==> field.locked(grid, x, y).0.clearing.is_some()),
{
    reveal(Field::locked);
    let stamped = field.stamped(grid, x, y);
    lemma_full_rows(stamped, stamped.depth());
}

/// Time moves rows and the wait of cleared rows, and nothing else.
pub proof fn lemma_advanced_frame(field: Field, delta: u64)
    requires
        field.wf(),
    ensures
        field.advanced(delta).wf(),
        field.advanced(delta).width == field.width,
        field.advanced(delta).height == field.height,
        field.advanced(delta).vanish == field.vanish,
        field.advanced(delta).clear_delay == field.clear_delay,
        field.advanced(delta).frozen == field.frozen,
{
    reveal(Field::advanced);
    if let Some((cleared, elapsed)) = field.clearing {
        lemma_collapsed_frame(field, cleared);
    }
}

/// The number of rows of `cleared` that lie below row `y`.
pub open spec fn cleared_below(cleared: Seq<i32>, y: int) -> nat
    decreases cleared.len(),
{
    if cleared.len() == 0 {
        0
    } else if cleared[0] > y {
        1 + cleared_below(cleared.skip(1), y)
    } else {
        cleared_below(cleared.skip(1), y)
    }
}

/// Whether `cleared` names rows of a field of `depth` rows in rising order.
pub open spec fn rising(cleared: Seq<i32>, depth: int) -> bool {
    &&& forall|i: int| 0 <= i < cleared.len() ==> 0 <= #[trigger] cleared[i] < depth
    &&& forall|i: int, j: int| 0 <= i < j < cleared.len() ==> cleared[i] < cleared[j]
}

/// Rows that all lie below row `y` count in full.
pub proof fn lemma_all_below(cleared: Seq<i32>, y: int)
    requires
        forall|i: int| 0 <= i < cleared.len() ==> #[trigger] cleared[i] > y,
    ensures
        cleared_below(cleared, y) == cleared.len(),
    decreases cleared.len(),
{
    if cleared.len() > 0 {
        assert(cleared[0] > y);
        assert forall|i: int| 0 <= i < cleared.skip(1).len() implies #[trigger] cleared.skip(1)[i]
            > y by {
            assert(cleared.skip(1)[i] == cleared[i + 1]);
        }
        lemma_all_below(cleared.skip(1), y);
    }
}

/// A piece does not fit where its bounding box leaves the field, whatever the
/// field holds.
pub proof fn lemma_outside_collides(field: Field, grid: ShapeGrid, x: int, y: int)
    requires
        !field.holds_box(grid, x, y),
    ensures
        field.collides(grid, x, y),
{
}

/// A piece of which an occupied cell lands outside the field does not fit:
/// `row` and `column` name a cell of the drawing of rotation state `rotation`
/// of `shape`, drawn at column `x` and row `y`.
pub proof fn lemma_cell_outside_collides(
    field: Field,
    shape: ShapeType,
    rotation: int,
    x: int,
    y: int,
    row: int,
    column: int,
)
    requires
        0 <= rotation < 4,
        0 <= row < 4,
        0 <= column < 4,
        shape.spec_grid(rotation).grid[row][column] != 0,
        !(0 <= x + column < field.width && 0 <= y + row < field.depth()),
    ensures
        field.collides(shape.spec_grid(rotation), x, y),
{
    lemma_cells_in_box(shape, rotation, row, column);
}

/// A piece whose bounding box lies wholly in the vanish zone is never locked:
/// the attempt reports a collision and leaves the field as it is. Any other
/// piece is locked.
pub proof fn lemma_hidden_never_locks(field: Field, grid: ShapeGrid, x: int, y: int)
    ensures
        field.hidden(grid, y) ==> field.locked(grid, x, y) == (field, Locked::Collision),
        !field.hidden(grid, y) ==> field.locked(grid, x, y).1 is Success,
{
    reveal(Field::locked);
}

/// What a lock that clears rows leaves: the rows that the piece filled, and no
/// others, are empty and wait to collapse, top first, from time zero on; their
/// number is what the lock returns; every other row is as the piece left it.
pub proof fn lemma_lock_clears_full_rows(field: Field, grid: ShapeGrid, x: int, y: int)
    requires
        field.wf(),
        !field.hidden(grid, y),
    ensures
        ({
            let stamped = field.stamped(grid, x, y);
            let full = stamped.full_rows(stamped.depth());
            let (after, locked) = field.locked(grid, x, y);
            &&& locked == Locked::Success(full.len() as i32)
            &&& rising(full, field.depth())
            &&& forall|r: int|
                0 <= r < field.depth() ==> (full.contains(r as i32) <==> stamped.row_full(r))
            &&& full.len() > 0 ==> after.clearing == Some((full, 0u64))
            &&& full.len() == 0 ==> after == stamped
            &&& after.rows.len() == field.rows.len()
            &&& forall|r: int|
                0 <= r < field.depth() ==> #[trigger] after.rows[r] == if stamped.row_full(r) {
                    empty_row(field.width)
                } else {
                    stamped.rows[r]
                }
        }),
{
    reveal(Field::locked);
    let stamped = field.stamped(grid, x, y);
    let full = stamped.full_rows(stamped.depth());
    lemma_full_rows(stamped, stamped.depth());
    assert forall|r: int| 0 <= r < field.depth() && full.contains(r as i32) implies stamped.row_full(
        r,
    ) by {
        let i = choose|i: int| 0 <= i < full.len() && full[i] == r as i32;
        assert(stamped.row_full(full[i] as int));
    }
    if full.len() == 0 {
        assert forall|r: int| 0 <= r < field.depth() implies !stamped.row_full(r) by {
            if stamped.row_full(r) {
                assert(full.contains(r as i32));
            }
        }
    }
}

/// What a collapse does: a row that was not cleared moves down by as many
/// rows as were cleared below it, and the field keeps its number of rows.
pub proof fn lemma_collapse_moves_rows(field: Field, cleared: Seq<i32>, y: int)
    requires
        field.wf(),
        rising(cleared, field.depth()),
        0 <= y < field.depth(),
        !cleared.contains(y as i32),
    ensures
        field.collapsed(cleared).rows.len() == field.rows.len(),
        y + cleared_below(cleared, y) < field.depth(),
        field.collapsed(cleared).rows[y + cleared_below(cleared, y)] == field.rows[y],
    decreases cleared.len(),
{
    if cleared.len() > 0 {
        let first = cleared[0] as int;
        let rest = cleared.skip(1);
        let next = field.dropped(first);
        assert(next.wf());
        assert(cleared[0] != y as i32);
        assert forall|i: int| 0 <= i < rest.len() implies #[trigger] rest[i] > first by {
            assert(rest[i] == cleared[i + 1]);
        }
        assert(rising(rest, next.depth())) by {
            assert forall|i: int| 0 <= i < rest.len() implies 0 <= #[trigger] rest[i]
                < next.depth() by {
                assert(rest[i] == cleared[i + 1]);
            }
            assert forall|i: int, j: int| 0 <= i < j < rest.len() implies rest[i] < rest[j] by {
                assert(rest[i] == cleared[i + 1]);
                assert(rest[j] == cleared[j + 1]);
            }
        }
        let moved = if y < first {
            y + 1
        } else {
            y
        };
        assert(next.rows[moved] == field.rows[y]);
        assert(!rest.contains(moved as i32)) by {
            if rest.contains(moved as i32) {
                let i = choose|i: int| 0 <= i < rest.len() && rest[i] == moved as i32;
                assert(rest[i] == cleared[i + 1]);
                assert(rest[i] > first);
                if y > first {
                    assert(cleared[i + 1] == y as i32);
                    assert(cleared.contains(y as i32));
                }
            }
        }
        lemma_collapse_moves_rows(next, rest, moved);
        if y < first {
            assert forall|i: int| 0 <= i < rest.len() implies #[trigger] rest[i] > y by {
                assert(rest[i] > first);
            }
            assert forall|i: int| 0 <= i < rest.len() implies #[trigger] rest[i] > y + 1 by {
                assert(rest[i] > first);
            }
            lemma_all_below(rest, y);
            lemma_all_below(rest, y + 1);
        }
    }
}

/// After rows were cleared and have waited longer than the clear delay, an
/// update collapses the field: the field is free again and keeps its
/// dimensions, and every row that was not cleared has moved down by as many
/// rows as were cleared below it.
pub proof fn lemma_update_collapses(field: Field, delta: u64, y: int)
    requires
        field.wf(),
        field.clearing matches Some((cleared, elapsed)) && rising(cleared, field.depth())
            && time_sum(elapsed, delta) > field.clear_delay && !cleared.contains(y as i32),
        0 <= y < field.depth(),
    ensures
        field.advanced(delta).clearing.is_none(),
        field.advanced(delta).width == field.width,
        field.advanced(delta).height == field.height,
        field.advanced(delta).vanish == field.vanish,
        field.advanced(delta).rows.len() == field.rows.len(),
        field.advanced(delta).rows[y + cleared_below(field.clearing.unwrap().0, y)]
            == field.rows[y],
{
    reveal(Field::advanced);
    let cleared = field.clearing.unwrap().0;
    lemma_collapsed_frame(field, cleared);
    lemma_collapse_moves_rows(field, cleared, y);
}

/// Until cleared rows have waited longer than the clear delay, an update only
/// lets their time run: no cell changes and the field stays blocked.
pub proof fn lemma_update_waits(field: Field, delta: u64)
    requires
        field.clearing matches Some((cleared, elapsed)) && time_sum(elapsed, delta)
            <= field.clear_delay,
    ensures
        field.advanced(delta).rows == field.rows,
        field.advanced(delta).clearing == Some(
            (field.clearing.unwrap().0, time_sum(field.clearing.unwrap().1, delta)),
        ),
{
    reveal(Field::advanced);
}

/// Building the practice tower changes cells and nothing else.
pub proof fn lemma_towered_frame(field: Field, blocks: Seq<usize>, k: int)
    ensures
        field.towered(blocks, k) == (Field { rows: field.towered(blocks, k).rows, ..field }),
    decreases k,
{
    if k > 0 {
        lemma_towered_frame(field, blocks, k - 1);
    }
}

/// A grid stored row by row: where row `y` starts and ends in the store.
pub proof fn lemma_row_range(y: int, width: int, depth: int)
    requires
        0 <= width,
        0 <= y < depth,
    ensures
        0 <= y * width,
        y * width + width <= depth * width,
        depth * width == width * depth,
        (y + 1) * width == y * width + width,
{
    assert(0 <= y * width) by (nonlinear_arith)
        requires
            0 <= y,
            0 <= width,
    ;
    assert(y * width + width <= depth * width) by (nonlinear_arith)
        requires
            0 <= y < depth,
            0 <= width,
    ;
    assert(depth * width == width * depth) by (nonlinear_arith);
    assert((y + 1) * width == y * width + width) by (nonlinear_arith);
}

/// Rows of a grid stored row by row do not share cells: a row ends before a
/// later one starts.
pub proof fn lemma_rows_apart(a: int, b: int, width: int)
    requires
        0 <= a < b,
        0 <= width,
    ensures
        a * width + width <= b * width,
{
    assert(a * width + width <= b * width) by (nonlinear_arith)
        requires
            0 <= a < b,
            0 <= width,
    ;
}

/// The playing field.
pub struct Matrix {
    width: i32,
    height: i32,
    vanish: i32,
    grid: Vec<usize>,
    clearing: bool,
    cleared: Vec<i32>,
    elapsed: u64,
    clear_delay: u64,
    frozen: bool,
}

impl View for Matrix {
    type V = Field;

    closed spec fn view(&self) -> Field {
        Field {
            width: self.width as int,
            height: self.height as int,
            vanish: self.vanish as int,
            rows: Seq::new(
                (self.height + self.vanish) as nat,
                |y: int| self.grid@.subrange(y * self.width, y * self.width + self.width),
            ),
            clearing: if self.clearing {
                Some((self.cleared@, self.elapsed))
            } else {
                None
            },
            clear_delay: self.clear_delay,
            frozen: self.frozen,
        }
    }
}

impl Matrix {
    /// The store holds one value for each cell.
    pub closed spec fn stored(&self) -> bool {
        &&& 0 <= self.width
        &&& 0 <= self.height
        &&& 0 <= self.vanish
        &&& self.height + self.vanish <= i32::MAX
        &&& self.grid.len() == self.width * (self.height + self.vanish)
        &&& self.grid.len() <= i32::MAX
        &&& forall|i: int|
            0 <= i < self.cleared.len() ==> 0 <= #[trigger] self.cleared[i] < self.height
                + self.vanish
    }

    /// The invariant of the field.
    pub open spec fn wf(&self) -> bool {
        self.stored() && self@.wf()
    }

    /// The cell at column `x` of row `y`.
    proof fn lemma_cell(&self, x: int, y: int)
        requires
            self.stored(),
            0 <= x < self.width,
            0 <= y < self.height + self.vanish,
        ensures
            0 <= y * self.width + x < self.grid.len(),
            self@.rows[y][x] == self.grid[y * self.width + x],
            self@.rows[y].len() == self.width,
    {
        lemma_row_range(y, self.width as int, (self.height + self.vanish) as int);
    }

    /// A stored grid is a well-formed field.
    proof fn lemma_stored(&self)
        requires
            self.stored(),
        ensures
            self.wf(),
    {
        assert forall|y: int| 0 <= y < self@.depth() implies (#[trigger] self@.rows[y]).len()
            == self@.width by {
            lemma_row_range(y, self.width as int, (self.height + self.vanish) as int);
        }
        assert(self.width * (self.height + self.vanish) == self.grid.len());
    }

    /// An empty field of `width` columns, `height` visible rows and `vanish`
    /// hidden rows above them, with the default clear delay. There is no such
    /// field where a dimension is negative or the grid would have more than
    /// `i32::MAX` cells or rows.
    pub fn new(width: i32, height: i32, vanish: i32) -> (matrix: Option<Matrix>)
        ensures
            matrix.is_some() <==> 0 <= width && 0 <= height && 0 <= vanish && height + vanish
                <= i32::MAX && width * (height + vanish) <= i32::MAX,
            matrix matches Some(m) ==> m.wf() && m@ == Field::empty(
                width as int,
                height as int,
                vanish as int,
            ),
    {
        if width < 0 || height < 0 || vanish < 0 {
            return None;
        }
        let depth: i64 = height as i64 + vanish as i64;
        if depth > i32::MAX as i64 {
            return None;
        }
        assert(0 <= width * depth <= 0x7fff_ffff * 0x7fff_ffff) by (nonlinear_arith)
            requires
                0 <= width <= 0x7fff_ffff,
                0 <= depth <= 0x7fff_ffff,
        ;
        let cells: i64 = width as i64 * depth;
        if cells > i32::MAX as i64 {
            return None;
        }
        let mut grid: Vec<usize> = Vec::new();
        let mut i: i64 = 0;
        while i < cells
            invariant
                0 <= i <= cells,
                grid.len() == i,
                forall|k: int| 0 <= k < i ==> grid[k] == 0,
            decreases cells - i,
        {
            grid.push(0);
            i += 1;
        }
        let matrix = Matrix {
            width,
            height,
            vanish,
            grid,
            clearing: false,
            cleared: Vec::new(),
            elapsed: 0,
            clear_delay: CLEAR_DELAY,
            frozen: false,
        };
        proof {
            matrix.lemma_stored();
            let empty = Field::empty(width as int, height as int, vanish as int);
            assert forall|y: int| 0 <= y < depth implies #[trigger] matrix@.rows[y]
                == empty.rows[y] by {
                assert forall|x: int| 0 <= x < width implies matrix@.rows[y][x] == 0 by {
                    matrix.lemma_cell(x, y);
                }
                assert(matrix@.rows[y] =~= empty_row(width as int));
            }
            assert(matrix@.rows =~= empty.rows);
        }
        Some(matrix)
    }

    /// Number of columns.
    pub fn width(&self) -> (width: i32)
        ensures
            width == self@.width,
    {
        self.width
    }

    /// Number of visible rows.
    pub fn height(&self) -> (height: i32)
        ensures
            height == self@.height,
    {
        self.height
    }

    /// Number of hidden rows above the visible ones.
    pub fn vanish(&self) -> (vanish: i32)
        ensures
            vanish == self@.vanish,
    {
        self.vanish
    }

    /// The value of the cell at column `x` of row `y`.
    pub fn cell(&self, x: i32, y: i32) -> (value: usize)
        requires
            self.wf(),
            0 <= x < self@.width,
            0 <= y < self@.depth(),
        ensures
            value == self@.rows[y as int][x as int],
    {
        proof {
            self.lemma_cell(x as int, y as int);
        }
        self.grid[y as usize * self.width as usize + x as usize]
    }

    /// Whether cleared rows wait to collapse. While they do, the field takes
    /// no piece and nothing falls.
    pub fn blocked(&self) -> (blocked: bool)
        ensures
            blocked == self@.clearing.is_some(),
    {
        self.clearing
    }

    /// The rows that were cleared and wait to collapse, top first, with the
    /// milliseconds that they have waited.
    pub fn clearing(&self) -> (clearing: Option<(Vec<i32>, u64)>)
        ensures
            match clearing {
                Some((rows, elapsed)) => self@.clearing == Some((rows@, elapsed)),
                None => self@.clearing.is_none(),
            },
    {
        if !self.clearing {
            return None;
        }
        let mut rows: Vec<i32> = Vec::new();
        let mut i: usize = 0;
        while i < self.cleared.len()
            invariant
                0 <= i <= self.cleared.len(),
                rows@ == self.cleared@.take(i as int),
            decreases self.cleared.len() - i,
        {
            rows.push(self.cleared[i]);
            assert(self.cleared@.take(i as int).push(self.cleared@[i as int])
                =~= self.cleared@.take(i + 1));
            i += 1;
        }
        assert(self.cleared@.take(self.cleared.len() as int) =~= self.cleared@);
        Some((rows, self.elapsed))
    }

    /// Whether the cell at column `x` of row `y` is occupied or lies outside
    /// the field.
    pub fn occupied(&self, x: i64, y: i64) -> (taken: bool)
        requires
            self.wf(),
        ensures
            taken == self@.taken(x as int, y as int),
    {
        if x < 0 || x >= self.width as i64 || y < 0 || y >= self.height as i64
            + self.vanish as i64 {
            return true;
        }
        self.cell(x as i32, y as i32) != 0
    }

    /// Whether `grid` cannot stand at column `x` and row `y`.
    pub fn collides(&self, grid: &ShapeGrid, x: i64, y: i64) -> (hit: bool)
        requires
            self.wf(),
            grid.wf(),
        ensures
            hit == self@.collides(*grid, x as int, y as int),
    {
        if x < -4 || x > i32::MAX as i64 || y < -4 || y > i32::MAX as i64 {
            return true;
        }
        let left: i64 = x + grid.offset_x as i64;
        let top: i64 = y + grid.offset_y as i64;
        let depth: i64 = self.height as i64 + self.vanish as i64;
        if left < 0 || left + grid.width as i64 > self.width as i64 || top < 0 || top
            + grid.height as i64 > depth {
            return true;
        }
        let ghost field = self@;
        let ghost px = x as int;
        let ghost py = y as int;
        let mut my: i32 = 0;
        while my < grid.height
            invariant
                self.wf(),
                grid.wf(),
                field == self@,
                px == x,
                py == y,
                left == px + grid.offset_x,
                top == py + grid.offset_y,
                field.holds_box(*grid, px, py),
                0 <= my <= grid.height,
                forall|cx: int, cy: int| 0 <= cy < my ==> !field.hits(*grid, px, py, cx, cy),
            decreases grid.height - my,
        {
            let mut mx: i32 = 0;
            while mx < grid.width
                invariant
                    self.wf(),
                    grid.wf(),
                    field == self@,
                    px == x,
                    py == y,
                    left == px + grid.offset_x,
                    top == py + grid.offset_y,
                    field.holds_box(*grid, px, py),
                    0 <= my < grid.height,
                    0 <= mx <= grid.width,
                    forall|cx: int, cy: int| 0 <= cy < my ==> !field.hits(*grid, px, py, cx, cy),
                    forall|cx: int| 0 <= cx < mx ==> !field.hits(*grid, px, py, cx, my as int),
                decreases grid.width - mx,
            {
                let c: usize = grid.grid[(my + grid.offset_y) as usize][(mx
                    + grid.offset_x) as usize];
                if c != 0 && self.cell((left + mx as i64) as i32, (top + my as i64) as i32) != 0 {
                    assert(field.overlaps(*grid, px, py)) by {
                        reveal(Field::overlaps);
                        assert(field.hits(*grid, px, py, mx as int, my as int));
                    }
                    return true;
                }
                mx += 1;
            }
            my += 1;
        }
        assert(!field.overlaps(*grid, px, py)) by {
            reveal(Field::overlaps);
        }
        false
    }

    /// Whether `piece` cannot stand where it is: its bounding box leaves the
    /// field, or one of its cells falls on an occupied cell.
    pub fn collision(&self, piece: &Piece) -> (hit: bool)
        requires
            self.wf(),
            piece.wf(),
        ensures
            hit == self@.collides(piece.spec_grid(), piece.x as int, piece.y as int),
    {
        let grid = piece.get_grid();
        self.collides(&grid, piece.x as i64, piece.y as i64)
    }

    /// Writes `value` to the cell at column `x` of row `y`.
    fn set(&mut self, x: i32, y: i32, value: usize)
        requires
            old(self).wf(),
            0 <= x < old(self)@.width,
            0 <= y < old(self)@.depth(),
        ensures
            final(self).wf(),
            final(self)@ == old(self)@.with_cell(x as int, y as int, value),
    {
        proof {
            self.lemma_cell(x as int, y as int);
        }
        let i: usize = y as usize * self.width as usize + x as usize;
        self.grid.set(i, value);
        proof {
            let width = self.width as int;
            let depth = (self.height + self.vanish) as int;
            let before = old(self)@;
            let target = before.with_cell(x as int, y as int, value);
            assert forall|r: int| 0 <= r < depth implies #[trigger] self@.rows[r]
                == target.rows[r] by {
                lemma_row_range(r, width, depth);
                lemma_row_range(y as int, width, depth);
                if r < y {
                    lemma_rows_apart(r, y as int, width);
                } else if r > y {
                    lemma_rows_apart(y as int, r, width);
                }
                assert(self@.rows[r] =~= target.rows[r]);
            }
            assert(self@.rows =~= target.rows);
            self.lemma_stored();
        }
    }

    /// Copies row `from` over row `to`.
    fn copy_row(&mut self, from: i32, to: i32)
        requires
            old(self).wf(),
            0 <= from < old(self)@.depth(),
            0 <= to < old(self)@.depth(),
            from != to,
        ensures
            final(self).wf(),
            final(self)@ == old(self)@.with_row(to as int, old(self)@.rows[from as int]),
    {
        let ghost before = self@;
        let ghost source = before.rows[from as int];
        let ghost target = before.rows[to as int];
        let mut x: i32 = 0;
        assert(source.take(0) + target.skip(0) =~= target);
        assert(before.rows.update(to as int, target) =~= before.rows);
        while x < self.width
            invariant
                self.wf(),
                before.wf(),
                0 <= x <= self@.width,
                0 <= from < before.depth(),
                0 <= to < before.depth(),
                from != to,
                source == before.rows[from as int],
                target == before.rows[to as int],
                self@ == before.with_row(to as int, source.take(x as int) + target.skip(x as int)),
            decreases self@.width - x,
        {
            let value: usize = self.cell(x, from);
            let ghost row = source.take(x as int) + target.skip(x as int);
            self.set(x, to, value);
            proof {
                assert(row.update(x as int, value) =~= source.take(x + 1) + target.skip(x + 1));
                assert(before.rows.update(to as int, row).update(
                    to as int,
                    row.update(x as int, value),
                ) =~= before.rows.update(to as int, row.update(x as int, value)));
            }
            x += 1;
        }
        assert(source.take(x as int) + target.skip(x as int) =~= source);
    }

    /// Empties row `y`.
    fn fill_row(&mut self, y: i32)
        requires
            old(self).wf(),
            0 <= y < old(self)@.depth(),
        ensures
            final(self).wf(),
            final(self)@ == old(self)@.with_row(y as int, empty_row(old(self)@.width)),
    {
        let ghost before = self@;
        let ghost source = empty_row(before.width);
        let ghost target = before.rows[y as int];
        let mut x: i32 = 0;
        assert(source.take(0) + target.skip(0) =~= target);
        assert(before.rows.update(y as int, target) =~= before.rows);
        while x < self.width
            invariant
                self.wf(),
                before.wf(),
                0 <= x <= self@.width,
                0 <= y < before.depth(),
                source == empty_row(before.width),
                target == before.rows[y as int],
                self@ == before.with_row(y as int, source.take(x as int) + target.skip(x as int)),
            decreases self@.width - x,
        {
            let ghost row = source.take(x as int) + target.skip(x as int);
            self.set(x, y, 0);
            proof {
                assert(row.update(x as int, 0usize) =~= source.take(x + 1) + target.skip(x + 1));
                assert(before.rows.update(y as int, row).update(
                    y as int,
                    row.update(x as int, 0usize),
                ) =~= before.rows.update(y as int, row.update(x as int, 0usize)));
            }
            x += 1;
        }
        assert(source.take(x as int) + target.skip(x as int) =~= source);
    }

    /// Empties the whole grid. Rows that wait to collapse go on waiting.
    pub fn clear(&mut self)
        requires
            old(self).wf(),
        ensures
            final(self).wf(),
            final(self)@ == old(self)@.emptied(),
    {
        let ghost before = self@;
        let depth: i32 = self.height + self.vanish;
        let mut y: i32 = 0;
        while y < depth
            invariant
                self.wf(),
                before.wf(),
                depth == before.depth(),
                0 <= y <= depth,
                self@ == (Field { rows: self@.rows, ..before }),
                forall|r: int| 0 <= r < y ==> #[trigger] self@.rows[r] == empty_row(before.width),
            decreases depth - y,
        {
            self.fill_row(y);
            y += 1;
        }
        assert(self@.rows =~= Field::empty(before.width, before.height, before.vanish).rows);
    }

    /// Writes the occupied cells of `grid`, drawn at column `x` and row `y`.
    fn stamp(&mut self, grid: &ShapeGrid, x: i32, y: i32)
        requires
            old(self).wf(),
            grid.wf(),
            old(self)@.holds_box(*grid, x as int, y as int),
        ensures
            final(self).wf(),
            final(self)@ == old(self)@.stamped(*grid, x as int, y as int),
    {
        let ghost before = self@;
        let left: i32 = x + grid.offset_x;
        let top: i32 = y + grid.offset_y;
        let mut my: i32 = 0;
        while my < grid.height
            invariant
                self.wf(),
                before.wf(),
                grid.wf(),
                before.holds_box(*grid, x as int, y as int),
                left == x + grid.offset_x,
                top == y + grid.offset_y,
                0 <= my <= grid.height,
                self@ == (Field { rows: self@.rows, ..before }),
                forall|r: int, c: int|
                    0 <= r < before.depth() && 0 <= c < before.width ==> #[trigger] self@.rows[r][c]
                        == if grid.filled(c - left, r - top) && r - top < my {
                        grid.at(c - left, r - top)
                    } else {
                        before.rows[r][c]
                    },
            decreases grid.height - my,
        {
            let mut mx: i32 = 0;
            while mx < grid.width
                invariant
                    self.wf(),
                    before.wf(),
                    grid.wf(),
                    before.holds_box(*grid, x as int, y as int),
                    left == x + grid.offset_x,
                    top == y + grid.offset_y,
                    0 <= my < grid.height,
                    0 <= mx <= grid.width,
                    self@ == (Field { rows: self@.rows, ..before }),
                    forall|r: int, c: int|
                        0 <= r < before.depth() && 0 <= c < before.width
                            ==> #[trigger] self@.rows[r][c] == if grid.filled(c - left, r - top)
                            && (r - top < my || (r - top == my && c - left < mx)) {
                            grid.at(c - left, r - top)
                        } else {
                            before.rows[r][c]
                        },
                decreases grid.width - mx,
            {
                let value: usize = grid.grid[(my + grid.offset_y) as usize][(mx
                    + grid.offset_x) as usize];
                if value != 0 {
                    self.set(left + mx, top + my, value);
                }
                mx += 1;
            }
            my += 1;
        }
        proof {
            let target = before.stamped(*grid, x as int, y as int);
            assert forall|r: int| 0 <= r < before.depth() implies #[trigger] self@.rows[r]
                == target.rows[r] by {
                assert(self@.rows[r] =~= target.rows[r]);
            }
            assert(self@.rows =~= target.rows);
        }
    }

    /// The full rows, top first.
    fn get_full_rows(&self) -> (rows: Vec<i32>)
        requires
            self.wf(),
        ensures
            rows@ == self@.full_rows(self@.depth()),
    {
        let mut rows: Vec<i32> = Vec::new();
        let depth: i32 = self.height + self.vanish;
        let mut y: i32 = 0;
        while y < depth
            invariant
                self.wf(),
                depth == self@.depth(),
                0 <= y <= depth,
                rows@ == self@.full_rows(y as int),
            decreases depth - y,
        {
            let mut full: bool = true;
            let mut x: i32 = 0;
            while x < self.width && full
                invariant
                    self.wf(),
                    0 <= y < self@.depth(),
                    0 <= x <= self@.width,
                    full ==> forall|c: int| 0 <= c < x ==> #[trigger] self@.rows[y as int][c] != 0,
                    !full ==> !self@.row_full(y as int),
                decreases self@.width - x + if full { 1int } else { 0int },
            {
                if self.cell(x, y) == 0 {
                    full = false;
                }
                x += 1;
            }
            if full {
                rows.push(y);
            }
            y += 1;
        }
        rows
    }

    /// Empties the rows named in `rows`.
    fn erase_rows(&mut self, rows: &Vec<i32>)
        requires
            old(self).wf(),
            forall|i: int| 0 <= i < rows.len() ==> 0 <= #[trigger] rows[i] < old(self)@.depth(),
        ensures
            final(self).wf(),
            final(self)@ == old(self)@.erased(rows@),
    {
        let ghost before = self@;
        let mut i: usize = 0;
        assert(rows@.take(0) =~= Seq::<i32>::empty());
        assert(self@.rows =~= before.erased(rows@.take(0)).rows);
        while i < rows.len()
            invariant
                self.wf(),
                before.wf(),
                0 <= i <= rows.len(),
                forall|k: int| 0 <= k < rows.len() ==> 0 <= #[trigger] rows[k] < before.depth(),
                self@ == before.erased(rows@.take(i as int)),
            decreases rows.len() - i,
        {
            let y: i32 = rows[i];
            self.fill_row(y);
            proof {
                let done = rows@.take(i as int);
                let next = rows@.take(i + 1);
                assert(next =~= done.push(y));
                assert forall|r: int| 0 <= r < before.depth() implies #[trigger] self@.rows[r]
                    == before.erased(next).rows[r] by {
                    if r == y {
                        assert(next[i as int] == r as i32);
                    } else if done.contains(r as i32) {
                        let k = choose|k: int| 0 <= k < done.len() && done[k] == r as i32;
                        assert(next[k] == r as i32);
                    } else if next.contains(r as i32) {
                        let k = choose|k: int| 0 <= k < next.len() && next[k] == r as i32;
                        assert(done[k] == r as i32);
                    }
                }
                assert(self@.rows =~= before.erased(next).rows);
            }
            i += 1;
        }
        assert(rows@.take(rows.len() as int) =~= rows@);
    }

    /// Empties the full rows and lets them wait to collapse. Returns how many
    /// there were.
    fn clear_full_rows(&mut self) -> (count: i32)
        requires
            old(self).wf(),
        ensures
            final(self).wf(),
            count == old(self)@.full_rows(old(self)@.depth()).len(),
            count == 0 ==> final(self)@ == old(self)@,
            count > 0 ==> final(self)@ == (Field {
                clearing: Some((old(self)@.full_rows(old(self)@.depth()), 0u64)),
                ..old(self)@.erased(old(self)@.full_rows(old(self)@.depth()))
            }),
    {
        let rows = self.get_full_rows();
        proof {
            lemma_full_rows(self@, self@.depth());
        }
        let count: i32 = rows.len() as i32;
        if count > 0 {
            self.erase_rows(&rows);
            self.clearing = true;
            self.cleared = rows;
            self.elapsed = 0;
            proof {
                self.lemma_stored();
            }
        }
        count
    }

    /// Locks `piece` where it stands. A piece whose bounding box lies wholly
    /// in the vanish zone is not locked: the stack has grown out of the field.
    /// Otherwise the cells of the piece become cells of the field, full rows
    /// are emptied at once and wait to collapse, and their number is returned.
    pub fn lock(&mut self, piece: &Piece) -> (locked: Locked)
        requires
            old(self).wf(),
            piece.wf(),
            old(self)@.hidden(piece.spec_grid(), piece.y as int) || old(self)@.holds_box(
                piece.spec_grid(),
                piece.x as int,
                piece.y as int,
            ),
        ensures
            final(self).wf(),
            (final(self)@, locked) == old(self)@.locked(
                piece.spec_grid(),
                piece.x as int,
                piece.y as int,
            ),
    {
        proof {
            reveal(Field::locked);
        }
        let grid = piece.get_grid();
        if piece.y as i64 + grid.offset_y as i64 + grid.height as i64 <= self.vanish as i64 {
            return Locked::Collision;
        }
        self.stamp(&grid, piece.x, piece.y);
        let count: i32 = self.clear_full_rows();
        Locked::Success(count)
    }

    /// Moves the rows above row `row` down by one, onto it.
    fn drop_rows(&mut self, row: i32)
        requires
            old(self).wf(),
            0 <= row < old(self)@.depth(),
        ensures
            final(self).wf(),
            final(self)@ == old(self)@.dropped(row as int),
    {
        let ghost before = self@;
        let mut y: i32 = row;
        assert(self@.rows =~= before.rows);
        while y >= 1
            invariant
                self.wf(),
                before.wf(),
                0 <= y <= row < before.depth(),
                self@ == (Field { rows: self@.rows, ..before }),
                self@.rows.len() == before.rows.len(),
                forall|k: int|
                    0 <= k < before.depth() ==> #[trigger] self@.rows[k] == if y < k <= row {
                        before.rows[k - 1]
                    } else {
                        before.rows[k]
                    },
            decreases y,
        {
            self.copy_row(y - 1, y);
            y -= 1;
        }
        assert(self@.rows =~= before.dropped(row as int).rows);
    }

    /// Lets the rows above each cleared row move down onto it.
    fn collapse_rows(&mut self)
        requires
            old(self).wf(),
            old(self)@.clearing.is_some(),
        ensures
            final(self).wf(),
            final(self)@ == old(self)@.collapsed(old(self)@.clearing.unwrap().0),
    {
        let ghost before = self@;
        let ghost cleared = self.cleared@;
        let mut i: usize = 0;
        assert(cleared.skip(0) =~= cleared);
        while i < self.cleared.len()
            invariant
                self.wf(),
                0 <= i <= cleared.len(),
                self.clearing,
                self.cleared@ == cleared,
                self@.collapsed(cleared.skip(i as int)) == before.collapsed(cleared),
            decreases cleared.len() - i,
        {
            let row: i32 = self.cleared[i];
            assert(cleared.skip(i as int)[0] == row);
            assert(cleared.skip(i as int).skip(1) =~= cleared.skip(i + 1));
            self.drop_rows(row);
            i += 1;
        }
    }

    /// Lets `delta` milliseconds pass. Cleared rows collapse once they have
    /// waited longer than the clear delay; the field is free again then.
    pub fn update(&mut self, delta: u64)
        requires
            old(self).wf(),
        ensures
            final(self).wf(),
            final(self)@ == old(self)@.advanced(delta),
    {
        proof {
            reveal(Field::advanced);
        }
        if self.clearing {
            let elapsed: u64 = self.elapsed.saturating_add(delta);
            if elapsed > self.clear_delay {
                self.collapse_rows();
                self.clearing = false;
            } else {
                self.elapsed = elapsed;
            }
            proof {
                self.lemma_stored();
            }
        }
    }

    /// Marks the field as that of a finished game.
    pub fn game_over(&mut self)
        requires
            old(self).wf(),
        ensures
            final(self).wf(),
            final(self)@ == (Field { frozen: true, ..old(self)@ }),
    {
        self.frozen = true;
        proof {
            self.lemma_stored();
        }
    }

    /// Whether the game on this field is over.
    pub fn frozen(&self) -> (frozen: bool)
        ensures
            frozen == self@.frozen,
    {
        self.frozen
    }

    /// The time in milliseconds that cleared rows wait before they collapse.
    pub fn clear_delay(&self) -> (delay: u64)
        ensures
            delay == self@.clear_delay,
    {
        self.clear_delay
    }

    /// Sets the time in milliseconds that cleared rows wait before they
    /// collapse.
    pub fn set_clear_delay(&mut self, delay: u64)
        requires
            old(self).wf(),
        ensures
            final(self).wf(),
            final(self)@ == (Field { clear_delay: delay, ..old(self)@ }),
    {
        self.clear_delay = delay;
        proof {
            self.lemma_stored();
        }
    }
    /// Empties the grid and builds the practice tower of it, brick number `i`
    /// holding `blocks[i]`. The field must hold the tower: ten columns and
    /// forty rows, or more.
    pub fn build_tower(&mut self, blocks: &Vec<usize>)
        requires
            old(self).wf(),
            old(self)@.width >= 10,
            old(self)@.depth() >= 40,
            blocks.len() == TOWER_BRICKS,
        ensures
            final(self).wf(),
            final(self)@ == old(self)@.towered(blocks@, TOWER_BRICKS as int),
            final(self)@ == (Field { rows: final(self)@.rows, ..old(self)@ }),
    {
        proof {
            lemma_towered_frame(self@, blocks@, TOWER_BRICKS as int);
        }
        self.clear();
        let mut k: usize = 0;
        while k < TOWER_BRICKS
            invariant
                self.wf(),
                old(self)@.width >= 10,
                old(self)@.depth() >= 40,
                self@.width == old(self)@.width,
                self@.depth() == old(self)@.depth(),
                blocks.len() == TOWER_BRICKS,
                0 <= k <= TOWER_BRICKS,
                self@ == old(self)@.towered(blocks@, k as int),
            decreases TOWER_BRICKS - k,
        {
            let place = brick(k);
            self.set(place.1, place.0, blocks[k]);
            k += 1;
        }
    }

    /// Empties the grid and builds the practice tower of it, each brick with
    /// a block value drawn by chance from 1 to 7. The field must hold the
    /// tower: ten columns and forty rows, or more.
    pub fn debug_tower(&mut self)
        requires
            old(self).wf(),
            old(self)@.width >= 10,
            old(self)@.depth() >= 40,
        ensures
            final(self).wf(),
            exists|blocks: Seq<usize>|
                {
                    &&& blocks.len() == TOWER_BRICKS
                    &&& forall|i: int| 0 <= i < blocks.len() ==> 1 <= #[trigger] blocks[i] < 8
                    &&& final(self)@ == old(self)@.towered(blocks, TOWER_BRICKS as int)
                },
            final(self)@ == (Field { rows: final(self)@.rows, ..old(self)@ }),
    {
        let mut blocks: Vec<usize> = Vec::new();
        let mut k: usize = 0;
        while k < TOWER_BRICKS
            invariant
                0 <= k <= TOWER_BRICKS,
                blocks.len() == k,
                forall|i: int| 0 <= i < blocks.len() ==> 1 <= #[trigger] blocks[i] < 8,
            decreases TOWER_BRICKS - k,
        {
            blocks.push(sample_uniform(1, 8));
            k += 1;
        }
        self.build_tower(&blocks);
    }
}

} // verus!
