//! A generic two-dimensional grid ("field") with direction-aware line
//! traversal: rows, columns, diagonals and anti-diagonals, together with the
//! coordinate/offset arithmetic that makes step-wise traversal safe against
//! unsigned underflow and overflow.

use vstd::prelude::*;

pub mod access;
pub mod dimensions;
pub mod helpers;
pub mod lines;
pub mod transform;

pub use crate::helpers::Axis;
pub use crate::helpers::Coordinate;
pub use crate::helpers::Direction;
pub use crate::helpers::Offset;

verus! {

/// Why a write into a field was refused. Every failure is reported to the
/// caller as a value; nothing aborts the process.
#[derive(Clone, Copy, Debug, PartialEq, Eq, Structural)]
pub enum FieldError {
    /// A coordinate's row lies beyond the last row.
    RowOutOfBounds,
    /// A coordinate's column lies beyond the end of its row.
    ColumnOutOfBounds,
    /// A line index reaches past the lines the field has in that direction.
    LineIndexOutOfBounds,
    /// A line write was handed fewer values than the line holds.
    LineLengthMismatch,
}

/// The cells a kernel samples around `coord`: for each offset in order, the
/// cell at `coord + offset`, skipped when the addition fails or lands
/// outside the grid.
pub open spec fn spec_kernel_values<T>(
    grid: Seq<Seq<T>>,
    coord: Coordinate,
    offsets: Seq<Offset>,
) -> Seq<T>
    decreases offsets.len(),
{
    if offsets.len() == 0 {
        Seq::empty()
    } else {
        let front = spec_kernel_values(grid, coord, offsets.drop_last());
        match coord.spec_add(offsets.last()) {
            Some(c) => if crate::access::coord_in_grid(grid, c) {
                front.push(grid[c.row as int][c.column as int])
            } else {
                front
            },
            None => front,
        }
    }
}

/// A dense rectangular collection of cells addressed by (row, column).
///
/// The grid is well formed when every row has the same length; the raw
/// entry points (`new_from_grid`, `set_grid`) do not validate this, so
/// operations that depend on rectangularity require `well_formed`.
#[derive(Clone, Debug)]
pub struct Field<T> {
    pub data: Vec<Vec<T>>,
}

impl<T> Field<T> {
    /// The grid as a mathematical sequence of rows.
    pub open spec fn grid(self) -> Seq<Seq<T>> {
        Seq::new(self.data@.len(), |i: int| self.data@[i]@)
    }

    /// Number of rows.
    pub open spec fn spec_height(self) -> int {
        self.data@.len() as int
    }

    /// Length of the first row, or 0 if there are no rows.
    pub open spec fn spec_width(self) -> int {
        if self.data@.len() == 0 {
            0
        } else {
            self.data@[0]@.len() as int
        }
    }

    /// Every row has the same length as the first.
    pub open spec fn well_formed(self) -> bool {
        forall|i: int|
            0 <= i < self.data@.len() ==> (#[trigger] self.data@[i])@.len() == self.spec_width()
    }

    /// The cell at row `r`, column `c`.
    pub open spec fn cell(self, r: int, c: int) -> T {
        self.data@[r]@[c]
    }

    /// A `width` x `height` field with every cell a clone of `value`.
    pub fn new(width: usize, height: usize, value: T) -> (r: Self) where T: Clone
        ensures
            r.spec_height() == height,
            height > 0 ==> r.spec_width() == width,
            r.well_formed(),
            forall|i: int, j: int|
                0 <= i < height && 0 <= j < width ==> vstd::pervasive::cloned(
                    value,
                    #[trigger] r.grid()[i][j],
                ),
    {
        let mut data: Vec<Vec<T>> = Vec::new();
        let mut i: usize = 0;
        while i < height
            invariant
                0 <= i <= height,
                data@.len() == i,
                forall|k: int| 0 <= k < i ==> (#[trigger] data@[k])@.len() == width,
                forall|k: int, j: int|
                    0 <= k < i && 0 <= j < width ==> vstd::pervasive::cloned(
                        value,
                        #[trigger] data@[k]@[j],
                    ),
            decreases height - i,
        {
            let mut row: Vec<T> = Vec::new();
            let mut j: usize = 0;
            while j < width
                invariant
                    0 <= j <= width,
                    row@.len() == j,
                    forall|k: int|
                        0 <= k < j ==> vstd::pervasive::cloned(value, #[trigger] row@[k]),
                decreases width - j,
            {
                row.push(value.clone());
                j = j + 1;
            }
            data.push(row);
            i = i + 1;
        }
        Field { data }
    }

    /// A `width` x `height` field with every cell some value the type's
    /// `Default` can produce.
    pub fn new_default(width: usize, height: usize) -> (r: Self) where T: Default
        ensures
            r.spec_height() == height,
            height > 0 ==> r.spec_width() == width,
            r.well_formed(),
            forall|i: int, j: int|
                0 <= i < height && 0 <= j < width ==> call_ensures(
                    T::default,
                    (),
                    #[trigger] r.grid()[i][j],
                ),
    {
        let mut data: Vec<Vec<T>> = Vec::new();
        let mut i: usize = 0;
        while i < height
            invariant
                0 <= i <= height,
                data@.len() == i,
                forall|k: int| 0 <= k < i ==> (#[trigger] data@[k])@.len() == width,
                forall|k: int, j: int|
                    0 <= k < i && 0 <= j < width ==> call_ensures(
                        T::default,
                        (),
                        #[trigger] data@[k]@[j],
                    ),
            decreases height - i,
        {
            let mut row: Vec<T> = Vec::new();
            let mut j: usize = 0;
            while j < width
                invariant
                    0 <= j <= width,
                    row@.len() == j,
                    forall|k: int| 0 <= k < j ==> call_ensures(T::default, (), #[trigger] row@[k]),
                decreases width - j,
            {
                row.push(T::default());
                j = j + 1;
            }
            data.push(row);
            i = i + 1;
        }
        Field { data }
    }

    /// Wrap a caller-supplied grid as it stands, without validating that its
    /// rows have equal length.
    pub fn new_from_grid(data: Vec<Vec<T>>) -> (r: Self)
        ensures
            r.data == data,
    {
        Field { data }
    }

    /// Every coordinate whose cell satisfies the predicate, in strictly
    /// increasing row-major order; exactly the satisfying coordinates and
    /// no others.
    pub fn find_all<P: Fn(&T) -> bool>(&self, predicate: P) -> (r: Vec<Coordinate>)
        requires
            forall|t: &T| #[trigger] predicate.requires((t,)),
        ensures
            forall|i: int, j: int|
                0 <= i < j < r@.len() ==> crate::helpers::coordinate_row_major_less(r@[i], r@[j]),
            forall|k: int|
                0 <= k < r@.len() ==> crate::access::coord_in_grid(self.grid(), #[trigger] r@[k])
                    && predicate.ensures(
                    (&self.grid()[r@[k].row as int][r@[k].column as int],),
                    true,
                ),
            forall|c: Coordinate|
                crate::access::coord_in_grid(self.grid(), c) && !r@.contains(c)
                    ==> predicate.ensures((&self.grid()[c.row as int][c.column as int],), false),
    {
        let mut r: Vec<Coordinate> = Vec::new();
        let mut row: usize = 0;
        while row < self.data.len()
            invariant
                forall|t: &T| #[trigger] predicate.requires((t,)),
                0 <= row <= self.grid().len(),
                forall|i: int, j: int|
                    0 <= i < j < r@.len() ==> crate::helpers::coordinate_row_major_less(
                        r@[i],
                        r@[j],
                    ),
                forall|k: int|
                    0 <= k < r@.len() ==> crate::access::coord_in_grid(
                        self.grid(),
                        #[trigger] r@[k],
                    ) && r@[k].row < row && predicate.ensures(
                        (&self.grid()[r@[k].row as int][r@[k].column as int],),
                        true,
                    ),
                forall|c: Coordinate|
                    crate::access::coord_in_grid(self.grid(), c) && c.row < row && !r@.contains(c)
                        ==> predicate.ensures(
                        (&self.grid()[c.row as int][c.column as int],),
                        false,
                    ),
            decreases self.grid().len() - row,
        {
            let line = &self.data[row];
            let mut column: usize = 0;
            while column < line.len()
                invariant
                    forall|t: &T| #[trigger] predicate.requires((t,)),
                    0 <= row < self.grid().len(),
                    0 <= column <= self.grid()[row as int].len(),
                    *line == self.data@[row as int],
                    forall|i: int, j: int|
                        0 <= i < j < r@.len() ==> crate::helpers::coordinate_row_major_less(
                            r@[i],
                            r@[j],
                        ),
                    forall|k: int|
                        0 <= k < r@.len() ==> crate::access::coord_in_grid(
                            self.grid(),
                            #[trigger] r@[k],
                        ) && (r@[k].row < row || (r@[k].row == row && r@[k].column < column))
                            && predicate.ensures(
                            (&self.grid()[r@[k].row as int][r@[k].column as int],),
                            true,
                        ),
                    forall|c: Coordinate|
                        crate::access::coord_in_grid(self.grid(), c) && (c.row < row || (c.row
                            == row && c.column < column)) && !r@.contains(c) ==> predicate.ensures(
                            (&self.grid()[c.row as int][c.column as int],),
                            false,
                        ),
                decreases self.grid()[row as int].len() - column,
            {
                let ghost prev = r@;
                let here = Coordinate { row, column };
                if predicate(&line[column]) {
                    r.push(here);
                    proof {
                        assert forall|c: Coordinate|
                            crate::access::coord_in_grid(self.grid(), c) && (c.row < row || (c.row
                                == row && c.column < column + 1)) && !r@.contains(c)
                            implies predicate.ensures(
                            (&self.grid()[c.row as int][c.column as int],),
                            false,
                        ) by {
                            if c != here {
                                if prev.contains(c) {
                                    let w = choose|w: int|
                                        0 <= w < prev.len() && prev[w] == c;
                                    assert(r@[w] == c);
                                }
                            } else {
                                assert(r@[r@.len() - 1] == here);
                            }
                        }
                    }
                } else {
                    proof {
                        assert forall|c: Coordinate|
                            crate::access::coord_in_grid(self.grid(), c) && (c.row < row || (c.row
                                == row && c.column < column + 1)) && !r@.contains(c)
                            implies predicate.ensures(
                            (&self.grid()[c.row as int][c.column as int],),
                            false,
                        ) by {}
                    }
                }
                column = column + 1;
            }
            row = row + 1;
        }
        r
    }

    /// The cells sampled by applying each offset to `coord`, in offset
    /// order; offsets whose target fails the addition or lies outside the
    /// grid contribute nothing.
    pub fn kernel_iter<'a>(&'a self, coord: Coordinate, offsets: &Vec<Offset>) -> (r: Vec<&'a T>)
        ensures
            r@.map_values(|t: &T| *t) == spec_kernel_values(self.grid(), coord, offsets@),
    {
        let mut r: Vec<&'a T> = Vec::new();
        let mut k: usize = 0;
        while k < offsets.len()
            invariant
                0 <= k <= offsets@.len(),
                r@.map_values(|t: &T| *t) == spec_kernel_values(
                    self.grid(),
                    coord,
                    offsets@.take(k as int),
                ),
            decreases offsets@.len() - k,
        {
            proof {
                assert(offsets@.take(k + 1).drop_last() =~= offsets@.take(k as int));
                assert(offsets@.take(k + 1).last() == offsets@[k as int]);
            }
            match coord.checked_add(offsets[k]) {
                Some(target) => {
                    match self.get_value(target) {
                        Some(v) => {
                            r.push(v);
                            proof {
                                assert(r@.map_values(|t: &T| *t) =~= spec_kernel_values(
                                    self.grid(),
                                    coord,
                                    offsets@.take(k + 1),
                                ));
                            }
                        },
                        None => {
                            proof {
                                assert(r@.map_values(|t: &T| *t) =~= spec_kernel_values(
                                    self.grid(),
                                    coord,
                                    offsets@.take(k + 1),
                                ));
                            }
                        },
                    }
                },
                None => {
                    proof {
                        assert(r@.map_values(|t: &T| *t) =~= spec_kernel_values(
                            self.grid(),
                            coord,
                            offsets@.take(k + 1),
                        ));
                    }
                },
            }
            k = k + 1;
        }
        proof {
            assert(offsets@.take(offsets@.len() as int) =~= offsets@);
        }
        r
    }
}

} // verus!
