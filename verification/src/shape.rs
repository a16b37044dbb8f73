//! The seven tetrominoes: their rotation states, bounding boxes and wall kicks.
//!
//! Every rotation state is drawn in a four-by-four grid. A cell of the grid is
//! either `0` (empty) or the block value of the shape. Coordinates grow to the
//! right and downwards, as on the playing field.

use vstd::prelude::*;

verus! {

/// One of the seven canonical four-block shapes.
#[derive(Clone, Copy, Debug, PartialEq, Eq, Hash, Structural)]
pub enum ShapeType {
    I,
    J,
    L,
    O,
    S,
    T,
    Z,
}

/// Number of distinct shapes.
pub const SHAPE_COUNT: usize = 7;

/// Number of rotation states of a shape.
pub const ROTATIONS: usize = 4;

/// All shapes, in the order of their indices.
pub const SHAPES: [ShapeType; 7] = [
    ShapeType::I,
    ShapeType::J,
    ShapeType::L,
    ShapeType::O,
    ShapeType::S,
    ShapeType::T,
    ShapeType::Z,
];

/// The four rotation states of the long bar, each by row and then by column.
pub const I_STATES: [[[usize; 4]; 4]; 4] = [
    [[0, 0, 0, 0], [1, 1, 1, 1], [0, 0, 0, 0], [0, 0, 0, 0]],
    [[0, 0, 1, 0], [0, 0, 1, 0], [0, 0, 1, 0], [0, 0, 1, 0]],
    [[0, 0, 0, 0], [0, 0, 0, 0], [1, 1, 1, 1], [0, 0, 0, 0]],
    [[0, 1, 0, 0], [0, 1, 0, 0], [0, 1, 0, 0], [0, 1, 0, 0]],
];

/// The four rotation states of the hook that points left, each by row and then
/// by column.
pub const J_STATES: [[[usize; 4]; 4]; 4] = [
    [[2, 0, 0, 0], [2, 2, 2, 0], [0, 0, 0, 0], [0, 0, 0, 0]],
    [[0, 2, 2, 0], [0, 2, 0, 0], [0, 2, 0, 0], [0, 0, 0, 0]],
    [[0, 0, 0, 0], [2, 2, 2, 0], [0, 0, 2, 0], [0, 0, 0, 0]],
    [[0, 2, 0, 0], [0, 2, 0, 0], [2, 2, 0, 0], [0, 0, 0, 0]],
];

/// The four rotation states of the hook that points right, each by row and
/// then by column.
pub const L_STATES: [[[usize; 4]; 4]; 4] = [
    [[0, 0, 3, 0], [3, 3, 3, 0], [0, 0, 0, 0], [0, 0, 0, 0]],
    [[0, 3, 0, 0], [0, 3, 0, 0], [0, 3, 3, 0], [0, 0, 0, 0]],
    [[0, 0, 0, 0], [3, 3, 3, 0], [3, 0, 0, 0], [0, 0, 0, 0]],
    [[3, 3, 0, 0], [0, 3, 0, 0], [0, 3, 0, 0], [0, 0, 0, 0]],
];

/// The four rotation states of the square, each by row and then by column.
pub const O_STATES: [[[usize; 4]; 4]; 4] = [
    [[0, 4, 4, 0], [0, 4, 4, 0], [0, 0, 0, 0], [0, 0, 0, 0]],
    [[0, 4, 4, 0], [0, 4, 4, 0], [0, 0, 0, 0], [0, 0, 0, 0]],
    [[0, 4, 4, 0], [0, 4, 4, 0], [0, 0, 0, 0], [0, 0, 0, 0]],
    [[0, 4, 4, 0], [0, 4, 4, 0], [0, 0, 0, 0], [0, 0, 0, 0]],
];

/// The four rotation states of the step that rises to the right, each by row
/// and then by column.
pub const S_STATES: [[[usize; 4]; 4]; 4] = [
    [[0, 5, 5, 0], [5, 5, 0, 0], [0, 0, 0, 0], [0, 0, 0, 0]],
    [[0, 5, 0, 0], [0, 5, 5, 0], [0, 0, 5, 0], [0, 0, 0, 0]],
    [[0, 0, 0, 0], [0, 5, 5, 0], [5, 5, 0, 0], [0, 0, 0, 0]],
    [[5, 0, 0, 0], [5, 5, 0, 0], [0, 5, 0, 0], [0, 0, 0, 0]],
];

/// The four rotation states of the T, each by row and then by column.
pub const T_STATES: [[[usize; 4]; 4]; 4] = [
    [[0, 6, 0, 0], [6, 6, 6, 0], [0, 0, 0, 0], [0, 0, 0, 0]],
    [[0, 6, 0, 0], [0, 6, 6, 0], [0, 6, 0, 0], [0, 0, 0, 0]],
    [[0, 0, 0, 0], [6, 6, 6, 0], [0, 6, 0, 0], [0, 0, 0, 0]],
    [[0, 6, 0, 0], [6, 6, 0, 0], [0, 6, 0, 0], [0, 0, 0, 0]],
];

/// The four rotation states of the step that rises to the left, each by row
/// and then by column.
pub const Z_STATES: [[[usize; 4]; 4]; 4] = [
    [[7, 7, 0, 0], [0, 7, 7, 0], [0, 0, 0, 0], [0, 0, 0, 0]],
    [[0, 0, 7, 0], [0, 7, 7, 0], [0, 7, 0, 0], [0, 0, 0, 0]],
    [[0, 0, 0, 0], [7, 7, 0, 0], [0, 7, 7, 0], [0, 0, 0, 0]],
    [[0, 7, 0, 0], [7, 7, 0, 0], [7, 0, 0, 0], [0, 0, 0, 0]],
];

/// Bounding boxes of the rotation states of the I shape, each as
/// `[offset_x, offset_y, width, height]`.
pub const I_BOXES: [[i32; 4]; 4] = [[0, 1, 4, 1], [2, 0, 1, 4], [0, 2, 4, 1], [1, 0, 1, 4]];

/// Bounding boxes of the O shape.
pub const O_BOXES: [[i32; 4]; 4] = [[1, 0, 2, 2], [1, 0, 2, 2], [1, 0, 2, 2], [1, 0, 2, 2]];

/// Bounding boxes shared by the J, L, S, T and Z shapes.
pub const THREE_BOXES: [[i32; 4]; 4] = [[0, 0, 3, 2], [1, 0, 2, 3], [0, 1, 3, 2], [0, 0, 2, 3]];

/// Wall kicks of the J, L, S, T and Z shapes. The row of a turn away from
/// rotation `r` is `2 * r` clockwise and `2 * r + 1` counter-clockwise; each
/// candidate is `[dx, dy]`.
pub const THREE_KICKS: [[[i32; 2]; 5]; 8] = [
    [[0, 0], [-1, 0], [-1, -1], [0, 2], [-1, 2]],
    [[0, 0], [1, 0], [1, -1], [0, 2], [1, 2]],
    [[0, 0], [1, 0], [1, 1], [0, -2], [1, -2]],
    [[0, 0], [1, 0], [1, 1], [0, -2], [1, -2]],
    [[0, 0], [1, 0], [1, -1], [0, 2], [1, 2]],
    [[0, 0], [-1, 0], [-1, -1], [0, 2], [-1, 2]],
    [[0, 0], [-1, 0], [-1, 1], [0, -2], [-1, -2]],
    [[0, 0], [-1, 0], [-1, 1], [0, -2], [-1, -2]],
];

/// Wall kicks of the I shape, laid out as [`THREE_KICKS`].
pub const I_KICKS: [[[i32; 2]; 5]; 8] = [
    [[0, 0], [-2, 0], [1, 0], [-2, 1], [1, -2]],
    [[0, 0], [-1, 0], [2, 0], [-1, -2], [2, 1]],
    [[0, 0], [-1, 0], [2, 0], [-1, -2], [2, 1]],
    [[0, 0], [2, 0], [-1, 0], [2, -1], [-1, 2]],
    [[0, 0], [2, 0], [-1, 0], [2, -1], [-1, 2]],
    [[0, 0], [1, 0], [-2, 0], [1, 2], [-2, -1]],
    [[0, 0], [1, 0], [-2, 0], [1, 2], [-2, -1]],
    [[0, 0], [-2, 0], [1, 0], [-2, 1], [1, -2]],
];

/// The O shape never moves when it turns.
pub const O_KICKS: [[i32; 2]; 5] = [[0, 0], [0, 0], [0, 0], [0, 0], [0, 0]];

/// The rotation index reached from `rotation` by a quarter turn.
pub open spec fn turned(rotation: int, clockwise: bool) -> int {
    if clockwise {
        (rotation + 1) % 4
    } else {
        (rotation + 3) % 4
    }
}

/// The row of the kick tables that holds the turn away from `from`.
pub open spec fn kick_row(from: int, clockwise: bool) -> int {
    if clockwise {
        2 * from
    } else {
        2 * from + 1
    }
}

impl ShapeType {
    /// Position of the shape in [`SHAPES`].
    pub open spec fn spec_index(self) -> int {
        match self {
            ShapeType::I => 0,
            ShapeType::J => 1,
            ShapeType::L => 2,
            ShapeType::O => 3,
            ShapeType::S => 4,
            ShapeType::T => 5,
            ShapeType::Z => 6,
        }
    }

    /// The four rotation states of the shape.
    pub open spec fn states(self) -> [[[usize; 4]; 4]; 4] {
        match self {
            ShapeType::I => I_STATES,
            ShapeType::J => J_STATES,
            ShapeType::L => L_STATES,
            ShapeType::O => O_STATES,
            ShapeType::S => S_STATES,
            ShapeType::T => T_STATES,
            ShapeType::Z => Z_STATES,
        }
    }

    /// The bounding boxes of the four rotation states.
    pub open spec fn boxes(self) -> [[i32; 4]; 4] {
        match self {
            ShapeType::I => I_BOXES,
            ShapeType::O => O_BOXES,
            _ => THREE_BOXES,
        }
    }

    /// The rotation state `rotation` with its bounding box.
    pub open spec fn spec_grid(self, rotation: int) -> ShapeGrid {
        ShapeGrid {
            offset_x: self.boxes()[rotation][0],
            offset_y: self.boxes()[rotation][1],
            width: self.boxes()[rotation][2],
            height: self.boxes()[rotation][3],
            grid: self.states()[rotation],
        }
    }

    /// The candidate offsets, in the order in which they are tried, for the
    /// quarter turn away from rotation `from`.
    pub open spec fn spec_kicks(self, from: int, clockwise: bool) -> [[i32; 2]; 5] {
        match self {
            ShapeType::I => I_KICKS[kick_row(from, clockwise)],
            ShapeType::O => O_KICKS,
            _ => THREE_KICKS[kick_row(from, clockwise)],
        }
    }

    /// The value that the cells of this shape hold: its index plus one.
    pub open spec fn spec_block(self) -> int {
        self.spec_index() + 1
    }

    /// Position of the shape in [`SHAPES`].
    pub fn index(self) -> (i: usize)
        ensures
            i == self.spec_index(),
            i < SHAPE_COUNT,
            SHAPES[i as int] == self,
    {
        match self {
            ShapeType::I => 0,
            ShapeType::J => 1,
            ShapeType::L => 2,
            ShapeType::O => 3,
            ShapeType::S => 4,
            ShapeType::T => 5,
            ShapeType::Z => 6,
        }
    }

    /// The shape with the given index, if there is one.
    pub fn from_index(i: usize) -> (shape: Option<ShapeType>)
        ensures
            i < SHAPE_COUNT ==> shape == Some(SHAPES[i as int]),
            i >= SHAPE_COUNT ==> shape.is_none(),
    {
        if i < SHAPE_COUNT {
            Some(SHAPES[i])
        } else {
            None
        }
    }

    /// The value that the cells of this shape hold, from 1 to 7.
    pub fn block(self) -> (b: usize)
        ensures
            b == self.spec_block(),
            1 <= b <= 7,
    {
        self.index() + 1
    }

    /// The rotation state `rotation` with its bounding box.
    pub fn grid(self, rotation: usize) -> (g: ShapeGrid)
        requires
            rotation < ROTATIONS,
        ensures
            g == self.spec_grid(rotation as int),
            g.wf(),
    {
        let states: [[[usize; 4]; 4]; 4] = match self {
            ShapeType::I => I_STATES,
            ShapeType::J => J_STATES,
            ShapeType::L => L_STATES,
            ShapeType::O => O_STATES,
            ShapeType::S => S_STATES,
            ShapeType::T => T_STATES,
            ShapeType::Z => Z_STATES,
        };
        let boxes: [[i32; 4]; 4] = match self {
            ShapeType::I => I_BOXES,
            ShapeType::O => O_BOXES,
            _ => THREE_BOXES,
        };
        let bounds: [i32; 4] = boxes[rotation];
        ShapeGrid {
            offset_x: bounds[0],
            offset_y: bounds[1],
            width: bounds[2],
            height: bounds[3],
            grid: states[rotation],
        }
    }

    /// The candidate offsets, each as `[dx, dy]` and in the order in which
    /// they are tried, for the quarter turn away from rotation `from`. The
    /// first is always no offset at all.
    pub fn kicks(self, from: usize, clockwise: bool) -> (k: [[i32; 2]; 5])
        requires
            from < ROTATIONS,
        ensures
            k == self.spec_kicks(from as int, clockwise),
            k[0][0] == 0 && k[0][1] == 0,
            forall|i: int| 0 <= i < 5 ==> -2 <= #[trigger] k[i][0] <= 2 && -2 <= k[i][1] <= 2,
    {
        let row: usize = if clockwise {
            2 * from
        } else {
            2 * from + 1
        };
        match self {
            ShapeType::I => I_KICKS[row],
            ShapeType::O => O_KICKS,
            _ => THREE_KICKS[row],
        }
    }
}

/// A quarter turn of a rotation index.
pub fn turn(rotation: usize, clockwise: bool) -> (r: usize)
    requires
        rotation < ROTATIONS,
    ensures
        r == turned(rotation as int, clockwise),
        r < ROTATIONS,
{
    if clockwise {
        (rotation + 1) % 4
    } else {
        (rotation + 3) % 4
    }
}

/// One rotation state: the four-by-four drawing and the box that bounds its
/// occupied cells.
#[derive(Clone, Copy, Debug)]
pub struct ShapeGrid {
    /// Empty columns left of the occupied cells.
    pub offset_x: i32,
    /// Empty rows above the occupied cells.
    pub offset_y: i32,
    /// Width of the bounding box.
    pub width: i32,
    /// Height of the bounding box.
    pub height: i32,
    /// The drawing, indexed by row and then by column.
    pub grid: [[usize; 4]; 4],
}

impl ShapeGrid {
    /// The bounding box is not empty and lies inside the drawing.
    pub open spec fn wf(self) -> bool {
        &&& 0 <= self.offset_x
        &&& 0 <= self.offset_y
        &&& 1 <= self.width
        &&& 1 <= self.height
        &&& self.offset_x + self.width <= 4
        &&& self.offset_y + self.height <= 4
    }

    /// The value at column `cx` and row `cy` of the bounding box.
    pub open spec fn at(self, cx: int, cy: int) -> usize
        recommends
            self.wf(),
            0 <= cx < self.width,
            0 <= cy < self.height,
    {
        self.grid[cy + self.offset_y][cx + self.offset_x]
    }

    /// Whether the cell at column `cx` and row `cy` of the bounding box is
    /// inside the box and occupied.
    pub open spec fn filled(self, cx: int, cy: int) -> bool {
        &&& 0 <= cx < self.width
        &&& 0 <= cy < self.height
        &&& self.at(cx, cy) != 0
    }
}

/// The number of occupied cells of a row of a drawing.
pub open spec fn row_count(row: [usize; 4]) -> int {
    (if row[0] != 0 {
        1int
    } else {
        0int
    }) + (if row[1] != 0 {
        1int
    } else {
        0int
    }) + (if row[2] != 0 {
        1int
    } else {
        0int
    }) + (if row[3] != 0 {
        1int
    } else {
        0int
    })
}

/// The number of occupied cells of a drawing.
pub open spec fn cell_count(grid: [[usize; 4]; 4]) -> int {
    row_count(grid[0]) + row_count(grid[1]) + row_count(grid[2]) + row_count(grid[3])
}

/// Every rotation state of every shape has four occupied cells.
pub proof fn lemma_four_cells(shape: ShapeType, rotation: int)
    requires
        0 <= rotation < 4,
    ensures
        cell_count(shape.spec_grid(rotation).grid) == 4,
{
}

/// Every occupied cell of a rotation state holds the block value of its shape
/// and lies inside the bounding box of the state.
pub proof fn lemma_cells_in_box(shape: ShapeType, rotation: int, row: int, column: int)
    requires
        0 <= rotation < 4,
        0 <= row < 4,
        0 <= column < 4,
        shape.spec_grid(rotation).grid[row][column] != 0,
    ensures
        shape.spec_grid(rotation).grid[row][column] == shape.spec_block(),
        shape.spec_grid(rotation).offset_x <= column < shape.spec_grid(rotation).offset_x
            + shape.spec_grid(rotation).width,
        shape.spec_grid(rotation).offset_y <= row < shape.spec_grid(rotation).offset_y
            + shape.spec_grid(rotation).height,
{
}

/// The bounding box of a rotation state is tight: each of its four edges
/// touches an occupied cell.
pub proof fn lemma_box_is_tight(shape: ShapeType, rotation: int)
    requires
        0 <= rotation < 4,
    ensures
        exists|cy: int| #[trigger] shape.spec_grid(rotation).filled(0, cy),
        exists|cy: int| #[trigger]
            shape.spec_grid(rotation).filled(shape.spec_grid(rotation).width - 1, cy),
        exists|cx: int| #[trigger] shape.spec_grid(rotation).filled(cx, 0),
        exists|cx: int| #[trigger]
            shape.spec_grid(rotation).filled(cx, shape.spec_grid(rotation).height - 1),
{
    let g = shape.spec_grid(rotation);
    assert(g.filled(0, 0) || g.filled(0, 1) || g.filled(0, 2) || g.filled(0, 3));
    assert(g.filled(g.width - 1, 0) || g.filled(g.width - 1, 1) || g.filled(g.width - 1, 2)
        || g.filled(g.width - 1, 3));
    assert(g.filled(0, 0) || g.filled(1, 0) || g.filled(2, 0) || g.filled(3, 0));
    assert(g.filled(0, g.height - 1) || g.filled(1, g.height - 1) || g.filled(2, g.height - 1)
        || g.filled(3, g.height - 1));
}

/// A shape as it is held, queued or played.
#[derive(Clone, Copy, Debug, PartialEq, Eq, Structural)]
pub struct Shape {
    /// Which of the seven it is.
    pub shape_type: ShapeType,
}

impl Shape {
    /// The shape of type `shape_type`.
    pub fn new(shape_type: ShapeType) -> (shape: Shape)
        ensures
            shape.shape_type == shape_type,
    {
        Shape { shape_type }
    }

    /// The rotation state `rotation` of this shape.
    pub fn grid(&self, rotation: usize) -> (g: ShapeGrid)
        requires
            rotation < ROTATIONS,
        ensures
            g == self.shape_type.spec_grid(rotation as int),
            g.wf(),
    {
        self.shape_type.grid(rotation)
    }
}

} // verus!
