//! Dimension queries and line-start geometry: how many lines a field has in
//! each direction, and where the nth line starts.

use vstd::prelude::*;

use crate::helpers::Coordinate;
use crate::helpers::Direction;
use crate::Field;

verus! {

/// Both diagonal directions have the same number of lines,
/// `width + height - 1`, on any field with at least one row and one
/// column: that many distinct diagonals cross a `height` x `width`
/// rectangle, whichever way they lean.
pub proof fn lemma_diagonal_line_counts<T>(f: Field<T>)
    requires
        f.spec_width() >= 1,
        f.spec_height() >= 1,
    ensures
        f.spec_number_of_lines(Direction::Diagonal) == f.spec_number_of_lines(
            Direction::AntiDiagonal,
        ),
        f.spec_number_of_lines(Direction::Diagonal) == f.spec_width() + f.spec_height() - 1,
{
}

impl<T> Field<T> {
    /// Number of lines of the given direction: height for horizontal lines,
    /// width for vertical ones, and `width + height - 1` for each diagonal
    /// direction (the number of distinct diagonals crossing the rectangle).
    pub open spec fn spec_number_of_lines(self, direction: Direction) -> int {
        match direction {
            Direction::Horizontal => self.spec_height(),
            Direction::Vertical => self.spec_width(),
            Direction::Diagonal | Direction::AntiDiagonal => self.spec_width() + self.spec_height()
                - 1,
        }
    }

    /// The diagonal line count `width + height - 1` is only meaningful, and
    /// only computable without wrapping, when the sum is in `[1, usize::MAX]`;
    /// the axial counts always are.
    pub open spec fn lines_countable(self, direction: Direction) -> bool {
        direction.spec_is_axial() || 1 <= self.spec_width() + self.spec_height() <= usize::MAX
    }

    /// Enumerating anti-diagonal starts touches `width - 1` whenever there is
    /// a start on the right edge, which there is as soon as `height >= 2`.
    pub open spec fn anti_diagonal_starts_ok(self) -> bool {
        self.spec_width() >= 1 || self.spec_height() <= 1
    }

    /// How many line starts the enumeration of a direction yields. On a grid
    /// with at least one row this equals `spec_number_of_lines`; a grid with
    /// no rows has no cells, and the degenerate diagonal enumerations are
    /// kept exactly as the traversal produces them.
    pub open spec fn spec_number_of_starts(self, direction: Direction) -> int {
        let w = self.spec_width();
        let h = self.spec_height();
        match direction {
            Direction::Horizontal => h,
            Direction::Vertical => w,
            Direction::Diagonal => if h == 0 {
                w
            } else {
                h - 1 + w
            },
            Direction::AntiDiagonal => if h == 0 {
                w
            } else {
                w + h - 1
            },
        }
    }

    /// The starting coordinate of line `index` in the given direction.
    ///
    /// Horizontal line `i` starts at `(i, 0)`; vertical line `i` at `(0, i)`.
    /// Diagonal lines are counted from the bottom-left corner toward the
    /// top-right one: the first `height - 1` start part-way down the left
    /// edge, the rest along the top edge. Anti-diagonal lines are counted
    /// from the top-left corner toward the bottom-right one: the first
    /// `width` start on the top edge, the rest down the right edge.
    pub open spec fn spec_line_start(self, direction: Direction, index: int) -> Coordinate {
        let w = self.spec_width();
        let h = self.spec_height();
        match direction {
            Direction::Horizontal => Coordinate { row: index as usize, column: 0 },
            Direction::Vertical => Coordinate { row: 0, column: index as usize },
            Direction::Diagonal => if index < h - 1 {
                Coordinate { row: (h - 1 - index) as usize, column: 0 }
            } else if h >= 1 {
                Coordinate { row: 0, column: (index - h + 1) as usize }
            } else {
                Coordinate { row: 0, column: index as usize }
            },
            Direction::AntiDiagonal => if index < w {
                Coordinate { row: 0, column: index as usize }
            } else {
                Coordinate { row: (index - w + 1) as usize, column: (w - 1) as usize }
            },
        }
    }

    /// Width: the length of the first row, or 0 for a field with no rows.
    pub fn width(&self) -> (w: usize)
        ensures
            w == self.spec_width(),
    {
        if self.data.len() == 0 {
            0
        } else {
            self.data[0].len()
        }
    }

    /// Height: the number of rows.
    pub fn height(&self) -> (h: usize)
        ensures
            h == self.spec_height(),
    {
        self.data.len()
    }

    pub fn number_of_lines_in_direction(&self, direction: Direction) -> (n: usize)
        requires
            self.lines_countable(direction),
        ensures
            n == self.spec_number_of_lines(direction),
    {
        match direction {
            Direction::Horizontal => self.height(),
            Direction::Vertical => self.width(),
            Direction::Diagonal | Direction::AntiDiagonal => self.width() + self.height() - 1,
        }
    }

    /// Every coordinate of the field in row-major order: row 0 in full,
    /// then row 1, and so on. Entry `k` is `(k / width, k % width)`.
    pub fn all_coordinates(&self) -> (r: Vec<Coordinate>)
        requires
            self.spec_height() * self.spec_width() <= usize::MAX,
        ensures
            r@.len() == self.spec_height() * self.spec_width(),
            forall|k: int|
                0 <= k < r@.len() ==> (#[trigger] r@[k]).row == k / self.spec_width() && r@[k].column
                    == k % self.spec_width(),
    {
        let height = self.height();
        let width = self.width();
        let mut r: Vec<Coordinate> = Vec::new();
        let mut row: usize = 0;
        while row < height
            invariant
                height == self.spec_height(),
                width == self.spec_width(),
                height * width <= usize::MAX,
                0 <= row <= height,
                r@.len() == row * width,
                forall|k: int|
                    0 <= k < r@.len() ==> (#[trigger] r@[k]).row == k / width as int && r@[k].column
                        == k % width as int,
            decreases height - row,
        {
            proof {
                assert((row + 1) * width <= height * width && row * width + width == (row + 1)
                    * width) by (nonlinear_arith)
                    requires
                        0 <= row < height,
                        0 <= width,
                        height as int * width as int <= usize::MAX,
                ;
            }
            let mut column: usize = 0;
            while column < width
                invariant
                    height == self.spec_height(),
                    width == self.spec_width(),
                    0 <= row < height,
                    0 <= column <= width,
                    row * width + width <= usize::MAX,
                    r@.len() == row * width + column,
                    forall|k: int|
                        0 <= k < r@.len() ==> (#[trigger] r@[k]).row == k / width as int
                            && r@[k].column == k % width as int,
                decreases width - column,
            {
                r.push(Coordinate { row, column });
                proof {
                    vstd::arithmetic::div_mod::lemma_fundamental_div_mod_converse(
                        row * width + column,
                        width as int,
                        row as int,
                        column as int,
                    );
                }
                column = column + 1;
            }
            row = row + 1;
        }
        proof {
            assert(r@.len() == height * width);
        }
        r
    }

    /// The starting coordinate of line `index` of a direction, in closed
    /// form; see `spec_line_start` for the enumeration order.
    pub fn line_start_coordinate(&self, direction: Direction, index: usize) -> (r: Coordinate)
        requires
            index < self.spec_number_of_starts(direction),
            direction == Direction::AntiDiagonal ==> self.anti_diagonal_starts_ok(),
        ensures
            r == self.spec_line_start(direction, index as int),
    {
        match direction {
            Direction::Horizontal => Coordinate { row: index, column: 0 },
            Direction::Vertical => Coordinate { row: 0, column: index },
            Direction::Diagonal => {
                let height = self.height();
                if height >= 1 && index < height - 1 {
                    Coordinate { row: height - 1 - index, column: 0 }
                } else if height >= 1 {
                    Coordinate { row: 0, column: index - (height - 1) }
                } else {
                    Coordinate { row: 0, column: index }
                }
            },
            Direction::AntiDiagonal => {
                let width = self.width();
                if index < width {
                    Coordinate { row: 0, column: index }
                } else {
                    Coordinate { row: index - width + 1, column: width - 1 }
                }
            },
        }
    }

    /// All starting coordinates of a direction, in line-index order.
    pub fn line_start_coordinates(&self, direction: Direction) -> (r: Vec<Coordinate>)
        requires
            direction == Direction::AntiDiagonal ==> self.anti_diagonal_starts_ok(),
        ensures
            r@.len() == self.spec_number_of_starts(direction),
            forall|k: int| 0 <= k < r@.len() ==> r@[k] == self.spec_line_start(direction, k),
    {
        match direction {
            Direction::Horizontal => self.horizontal_start_coordinates(),
            Direction::Vertical => self.vertical_start_coordinates(),
            Direction::Diagonal => self.diagonal_start_coordinates(),
            Direction::AntiDiagonal => self.anti_diagonal_start_coordinates(),
        }
    }

    fn horizontal_start_coordinates(&self) -> (r: Vec<Coordinate>)
        ensures
            r@.len() == self.spec_number_of_starts(Direction::Horizontal),
            forall|k: int|
                0 <= k < r@.len() ==> r@[k] == self.spec_line_start(Direction::Horizontal, k),
    {
        let height = self.height();
        let mut r: Vec<Coordinate> = Vec::new();
        let mut row: usize = 0;
        while row < height
            invariant
                height == self.spec_height(),
                0 <= row <= height,
                r@.len() == row,
                forall|k: int|
                    0 <= k < r@.len() ==> r@[k] == self.spec_line_start(Direction::Horizontal, k),
            decreases height - row,
        {
            r.push(Coordinate { row, column: 0 });
            row = row + 1;
        }
        r
    }

    fn vertical_start_coordinates(&self) -> (r: Vec<Coordinate>)
        ensures
            r@.len() == self.spec_number_of_starts(Direction::Vertical),
            forall|k: int|
                0 <= k < r@.len() ==> r@[k] == self.spec_line_start(Direction::Vertical, k),
    {
        let width = self.width();
        let mut r: Vec<Coordinate> = Vec::new();
        let mut column: usize = 0;
        while column < width
            invariant
                width == self.spec_width(),
                0 <= column <= width,
                r@.len() == column,
                forall|k: int|
                    0 <= k < r@.len() ==> r@[k] == self.spec_line_start(Direction::Vertical, k),
            decreases width - column,
        {
            r.push(Coordinate { row: 0, column });
            column = column + 1;
        }
        r
    }

    /// Diagonal starts, bottom-left corner first: `(height-1, 0)` up the
    /// left edge to `(1, 0)`, then `(0, 0)` along the top edge to
    /// `(0, width-1)`.
    fn diagonal_start_coordinates(&self) -> (r: Vec<Coordinate>)
        ensures
            r@.len() == self.spec_number_of_starts(Direction::Diagonal),
            forall|k: int|
                0 <= k < r@.len() ==> r@[k] == self.spec_line_start(Direction::Diagonal, k),
    {
        let height = self.height();
        let width = self.width();
        let mut r: Vec<Coordinate> = Vec::new();
        let mut index: usize = 1;
        while index < height
            invariant
                height == self.spec_height(),
                width == self.spec_width(),
                1 <= index <= height || (height == 0 && index == 1),
                r@.len() == index - 1,
                forall|k: int|
                    0 <= k < r@.len() ==> r@[k] == self.spec_line_start(Direction::Diagonal, k),
            decreases height - index,
        {
            r.push(Coordinate { row: height - index, column: 0 });
            index = index + 1;
        }
        let mut column: usize = 0;
        while column < width
            invariant
                height == self.spec_height(),
                width == self.spec_width(),
                0 <= column <= width,
                r@.len() == (if height == 0 {
                    column as int
                } else {
                    height - 1 + column
                }),
                forall|k: int|
                    0 <= k < r@.len() ==> r@[k] == self.spec_line_start(Direction::Diagonal, k),
            decreases width - column,
        {
            r.push(Coordinate { row: 0, column });
            column = column + 1;
        }
        r
    }

    /// Anti-diagonal starts, top-left corner first: `(0, 0)` along the top
    /// edge to `(0, width-1)`, then `(1, width-1)` down the right edge to
    /// `(height-1, width-1)`.
    fn anti_diagonal_start_coordinates(&self) -> (r: Vec<Coordinate>)
        requires
            self.anti_diagonal_starts_ok(),
        ensures
            r@.len() == self.spec_number_of_starts(Direction::AntiDiagonal),
            forall|k: int|
                0 <= k < r@.len() ==> r@[k] == self.spec_line_start(Direction::AntiDiagonal, k),
    {
        let height = self.height();
        let width = self.width();
        let mut r: Vec<Coordinate> = Vec::new();
        let mut column: usize = 0;
        while column < width
            invariant
                height == self.spec_height(),
                width == self.spec_width(),
                0 <= column <= width,
                r@.len() == column,
                forall|k: int|
                    0 <= k < r@.len() ==> r@[k] == self.spec_line_start(Direction::AntiDiagonal, k),
            decreases width - column,
        {
            r.push(Coordinate { row: 0, column });
            column = column + 1;
        }
        if height >= 2 {
            let mut index: usize = 1;
            while index < height
                invariant
                    height == self.spec_height(),
                    width == self.spec_width(),
                    width >= 1,
                    1 <= index <= height,
                    r@.len() == width + index - 1,
                    forall|k: int|
                        0 <= k < r@.len() ==> r@[k] == self.spec_line_start(
                            Direction::AntiDiagonal,
                            k,
                        ),
                decreases height - index,
            {
                r.push(Coordinate { row: index, column: width - 1 });
                index = index + 1;
            }
        }
        r
    }
}

} // verus!
