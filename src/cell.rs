//! Cells of the board, directions of motion, and the row-major numbering of
//! the board that the per-cell tables use.

use vstd::arithmetic::div_mod::lemma_fundamental_div_mod_converse;
use vstd::prelude::*;

verus! {

/// A square of the board: column `x`, row `y` (rows grow downwards).
#[derive(Clone, Copy, Debug, PartialEq, Eq, Structural)]
pub struct Cell {
    pub x: i32,
    pub y: i32,
}

/// A direction of motion on the board.
#[derive(Clone, Copy, Debug, PartialEq, Eq, Structural)]
pub enum Direction {
    Up,
    Down,
    Left,
    Right,
}

impl Direction {
    /// Column change of one step in this direction.
    pub open spec fn dx(self) -> int {
        match self {
            Direction::Left => -1,
            Direction::Right => 1,
            _ => 0,
        }
    }

    /// Row change of one step in this direction.
    pub open spec fn dy(self) -> int {
        match self {
            Direction::Up => -1,
            Direction::Down => 1,
            _ => 0,
        }
    }

    pub open spec fn spec_is_vertical(self) -> bool {
        self is Up || self is Down
    }

    pub open spec fn spec_opposite(self) -> Direction {
        match self {
            Direction::Up => Direction::Down,
            Direction::Down => Direction::Up,
            Direction::Left => Direction::Right,
            Direction::Right => Direction::Left,
        }
    }

    /// Whether this direction moves along a column.
    #[verifier::when_used_as_spec(spec_is_vertical)]
    pub fn is_vertical(self) -> (r: bool)
        ensures
            r == self.spec_is_vertical(),
    {
        match self {
            Direction::Up | Direction::Down => true,
            _ => false,
        }
    }

    /// The reverse of this direction.
    #[verifier::when_used_as_spec(spec_opposite)]
    pub fn opposite(self) -> (r: Direction)
        ensures
            r == self.spec_opposite(),
    {
        match self {
            Direction::Up => Direction::Down,
            Direction::Down => Direction::Up,
            Direction::Left => Direction::Right,
            Direction::Right => Direction::Left,
        }
    }
}

/// Whether `c` lies on a board of `width` columns and `height` rows.
pub open spec fn in_board(c: Cell, width: int, height: int) -> bool {
    0 <= c.x < width && 0 <= c.y < height
}

/// Whether `a` lies within Chebyshev distance `r` of `b`.
pub open spec fn within(a: Cell, b: Cell, r: int) -> bool {
    -r <= a.x - b.x <= r && -r <= a.y - b.y <= r
}

/// Position of `c` in the row-major numbering of a board `width` wide.
pub open spec fn index_of(c: Cell, width: int) -> int {
    c.y * width + c.x
}

/// The cell at position `i` of the row-major numbering.
pub open spec fn cell_at(i: int, width: int) -> Cell {
    Cell { x: (i % width) as i32, y: (i / width) as i32 }
}

/// The sizes that a board can have: at least one cell, and a numbering that
/// fits in `usize`.
pub open spec fn board_fits(width: int, height: int) -> bool {
    &&& 1 <= width <= i32::MAX
    &&& 1 <= height <= i32::MAX
    &&& width * height <= usize::MAX
}

/// The numbering is a bijection between the board and `0..width * height`.
pub proof fn lemma_index_of(c: Cell, width: int, height: int)
    requires
        board_fits(width, height),
        in_board(c, width, height),
    ensures
        0 <= index_of(c, width) < width * height,
        cell_at(index_of(c, width), width) == c,
{
    assert(0 <= c.y * width <= (height - 1) * width) by (nonlinear_arith)
        requires
            0 <= c.y <= height - 1,
            width >= 1,
    ;
    assert((height - 1) * width + width == width * height) by (nonlinear_arith);
    lemma_fundamental_div_mod_converse(index_of(c, width), width, c.y as int, c.x as int);
}

/// Every position of the numbering names a cell of the board.
pub proof fn lemma_cell_at(i: int, width: int, height: int)
    requires
        board_fits(width, height),
        0 <= i < width * height,
    ensures
        0 <= i % width < width,
        0 <= i / width < height,
        in_board(cell_at(i, width), width, height),
        index_of(cell_at(i, width), width) == i,
{
    let q = i / width;
    let r = i % width;
    assert(i == width * q + r && 0 <= r < width) by (nonlinear_arith)
        requires
            width >= 1,
            q == i / width,
            r == i % width,
    ;
    assert(0 <= q < height) by (nonlinear_arith)
        requires
            i == width * q + r,
            0 <= r < width,
            0 <= i < width * height,
            width >= 1,
    ;
    assert(q * width == width * q) by (nonlinear_arith);
}

/// Two cells of the board with the same position are the same cell.
pub proof fn lemma_index_injective(a: Cell, b: Cell, width: int, height: int)
    requires
        board_fits(width, height),
        in_board(a, width, height),
        in_board(b, width, height),
        index_of(a, width) == index_of(b, width),
    ensures
        a == b,
{
    lemma_index_of(a, width, height);
    lemma_index_of(b, width, height);
}

/// Position of a board cell, computed.
pub fn index(c: Cell, width: i32, height: i32) -> (i: usize)
    requires
        board_fits(width as int, height as int),
        in_board(c, width as int, height as int),
    ensures
        i as int == index_of(c, width as int),
        i < width * height,
{
    proof {
        lemma_index_of(c, width as int, height as int);
    }
    (c.y as usize) * (width as usize) + (c.x as usize)
}

impl Cell {
    /// The cell one step from `self` in direction `d`.
    pub open spec fn spec_neighbor(self, d: Direction) -> Cell {
        Cell { x: (self.x + d.dx()) as i32, y: (self.y + d.dy()) as i32 }
    }

    /// The cell one step away in direction `d`.
    pub fn neighbor(self, d: Direction) -> (r: Cell)
        requires
            i32::MIN < self.x < i32::MAX,
            i32::MIN < self.y < i32::MAX,
        ensures
            r == self.spec_neighbor(d),
            r.x == self.x + d.dx(),
            r.y == self.y + d.dy(),
    {
        match d {
            Direction::Up => Cell { x: self.x, y: self.y - 1 },
            Direction::Down => Cell { x: self.x, y: self.y + 1 },
            Direction::Left => Cell { x: self.x - 1, y: self.y },
            Direction::Right => Cell { x: self.x + 1, y: self.y },
        }
    }
}

} // verus!
