//! Value types for grid geometry: the four line directions, the two axes,
//! absolute coordinates and signed offsets, and the partial addition that
//! underlies all line traversal.

use vstd::prelude::*;

verus! {

/// One of the four orientations a grid line can have.
#[derive(Clone, Copy, Debug, PartialEq, Eq, Structural)]
pub enum Direction {
    /// Left to right.
    Horizontal,
    /// Top to bottom.
    Vertical,
    /// Top-left to bottom-right.
    Diagonal,
    /// Top-right to bottom-left.
    AntiDiagonal,
}

impl Direction {
    /// The direction paired with this one: the two axial directions are
    /// opposites, as are the two diagonal directions.
    pub open spec fn spec_opposite(self) -> Direction {
        match self {
            Direction::Horizontal => Direction::Vertical,
            Direction::Vertical => Direction::Horizontal,
            Direction::Diagonal => Direction::AntiDiagonal,
            Direction::AntiDiagonal => Direction::Diagonal,
        }
    }

    pub fn opposite(&self) -> (r: Self)
        ensures
            r == self.spec_opposite(),
    {
        match self {
            Direction::Horizontal => Direction::Vertical,
            Direction::Vertical => Direction::Horizontal,
            Direction::Diagonal => Direction::AntiDiagonal,
            Direction::AntiDiagonal => Direction::Diagonal,
        }
    }

    /// Whether the direction runs along a single axis.
    pub open spec fn spec_is_axial(self) -> bool {
        match self {
            Direction::Horizontal | Direction::Vertical => true,
            Direction::Diagonal | Direction::AntiDiagonal => false,
        }
    }

    pub fn is_axial(&self) -> (r: bool)
        ensures
            r == self.spec_is_axial(),
    {
        match self {
            Direction::Horizontal | Direction::Vertical => true,
            Direction::Diagonal | Direction::AntiDiagonal => false,
        }
    }

    /// The axis of an axial direction; `None` for the diagonal directions.
    pub open spec fn spec_axis(self) -> Option<Axis> {
        match self {
            Direction::Horizontal => Some(Axis::Row),
            Direction::Vertical => Some(Axis::Column),
            Direction::Diagonal | Direction::AntiDiagonal => None,
        }
    }

    pub fn axis(&self) -> (r: Option<Axis>)
        ensures
            r == self.spec_axis(),
    {
        match self {
            Direction::Horizontal => Some(Axis::Row),
            Direction::Vertical => Some(Axis::Column),
            Direction::Diagonal | Direction::AntiDiagonal => None,
        }
    }
}

/// One of the two independent dimensions of the grid.
#[derive(Clone, Copy, Debug, PartialEq, Eq, Structural)]
pub enum Axis {
    Row,
    Column,
}

impl Axis {
    pub open spec fn spec_opposite(self) -> Axis {
        match self {
            Axis::Row => Axis::Column,
            Axis::Column => Axis::Row,
        }
    }

    pub fn opposite(&self) -> (r: Self)
        ensures
            r == self.spec_opposite(),
    {
        match self {
            Axis::Row => Axis::Column,
            Axis::Column => Axis::Row,
        }
    }

    /// The canonical direction that runs along this axis.
    pub open spec fn spec_direction(self) -> Direction {
        match self {
            Axis::Row => Direction::Horizontal,
            Axis::Column => Direction::Vertical,
        }
    }

    pub fn direction(&self) -> (r: Direction)
        ensures
            r == self.spec_direction(),
    {
        match self {
            Axis::Row => Direction::Horizontal,
            Axis::Column => Direction::Vertical,
        }
    }
}

/// An absolute, non-negative position in a grid. A coordinate does not know
/// any grid bounds; validity is always relative to a particular field.
#[derive(Clone, Copy, Debug, PartialEq, Eq, Structural)]
pub struct Coordinate {
    pub row: usize,
    pub column: usize,
}

impl Default for Coordinate {
    /// The origin (0, 0).
    fn default() -> (r: Self)
        ensures
            r == (Coordinate { row: 0, column: 0 }),
    {
        Coordinate { row: 0, column: 0 }
    }
}

/// Whether adding signed `delta` to index `index` stays within `usize`.
pub open spec fn axis_step_ok(index: int, delta: int) -> bool {
    0 <= index + delta <= usize::MAX
}

/// Add a signed delta to an unsigned index; `None` on underflow or overflow.
fn axis_step(index: usize, delta: isize) -> (r: Option<usize>)
    ensures
        axis_step_ok(index as int, delta as int) ==> r == Some((index + delta) as usize),
        !axis_step_ok(index as int, delta as int) ==> r is None,
{
    if delta >= 0 {
        let d = delta as usize;
        if usize::MAX - index >= d {
            Some(index + d)
        } else {
            None
        }
    } else {
        // Magnitude of `delta`, computed without negating `isize::MIN`.
        let m = ((-(delta + 1)) as usize) + 1;
        if index >= m {
            Some(index - m)
        } else {
            None
        }
    }
}

impl Coordinate {
    /// The row index for `Axis::Row`, the column index for `Axis::Column`.
    pub open spec fn spec_get_axis_index(self, axis: Axis) -> usize {
        match axis {
            Axis::Row => self.row,
            Axis::Column => self.column,
        }
    }

    pub fn get_axis_index(self, axis: Axis) -> (r: usize)
        ensures
            r == self.spec_get_axis_index(axis),
    {
        match axis {
            Axis::Row => self.row,
            Axis::Column => self.column,
        }
    }

    pub fn set_axis_index(&mut self, axis: Axis, index: usize)
        ensures
            final(self).spec_get_axis_index(axis) == index,
            final(self).spec_get_axis_index(axis.spec_opposite()) == old(
                self,
            ).spec_get_axis_index(axis.spec_opposite()),
    {
        match axis {
            Axis::Row => self.row = index,
            Axis::Column => self.column = index,
        }
    }

    /// The result of adding `offset`, or `None` if either axis would leave
    /// the representable range.
    pub open spec fn spec_add(self, offset: Offset) -> Option<Coordinate> {
        if axis_step_ok(self.row as int, offset.row as int) && axis_step_ok(
            self.column as int,
            offset.column as int,
        ) {
            Some(
                Coordinate {
                    row: (self.row + offset.row) as usize,
                    column: (self.column + offset.column) as usize,
                },
            )
        } else {
            None
        }
    }

    /// Partial coordinate/offset addition: fails as a whole, with no partial
    /// application, if either axis would underflow below zero or overflow
    /// above `usize::MAX`.
    pub fn checked_add(self, offset: Offset) -> (r: Option<Coordinate>)
        ensures
            r == self.spec_add(offset),
    {
        match (axis_step(self.row, offset.row), axis_step(self.column, offset.column)) {
            (Some(row), Some(column)) => Some(Coordinate { row, column }),
            _ => None,
        }
    }

    /// The ordered coordinates of the line that starts here and runs in
    /// `direction` through a `height` x `width` grid; see `spec_line_coords`.
    pub fn line_in_direction(self, direction: Direction, width: usize, height: usize) -> (r: Vec<
        Coordinate,
    >)
        ensures
            r@ == spec_line_coords(self, direction, width as int, height as int),
        decreases (if direction == Direction::Horizontal {
            width - self.column
        } else {
            height - self.row
        }),
    {
        if self.row >= height || self.column >= width {
            let out: Vec<Coordinate> = Vec::new();
            proof {
                assert(out@ =~= spec_line_coords(self, direction, width as int, height as int));
            }
            out
        } else {
            let offset = Offset::from_direction(direction);
            match self.checked_add(offset) {
                Some(next) => {
                    let mut rest = next.line_in_direction(direction, width, height);
                    let mut out: Vec<Coordinate> = Vec::new();
                    out.push(self);
                    out.append(&mut rest);
                    proof {
                        assert(out@ =~= spec_line_coords(
                            self,
                            direction,
                            width as int,
                            height as int,
                        ));
                    }
                    out
                },
                None => {
                    let mut out: Vec<Coordinate> = Vec::new();
                    out.push(self);
                    proof {
                        assert(out@ =~= spec_line_coords(
                            self,
                            direction,
                            width as int,
                            height as int,
                        ));
                    }
                    out
                },
            }
        }
    }
}

/// Whether `offset` belongs to the square kernel of the given Chebyshev
/// radius, with or without the origin.
pub open spec fn kernel_contains(offset: Offset, radius: int, include_center: bool) -> bool {
    &&& -radius <= offset.row <= radius
    &&& -radius <= offset.column <= radius
    &&& (include_center || !(offset.row == 0 && offset.column == 0))
}

/// Strict row-major order on offsets: by row delta, then by column delta.
pub open spec fn offset_row_major_less(a: Offset, b: Offset) -> bool {
    a.row < b.row || (a.row == b.row && a.column < b.column)
}

/// Strict row-major order on coordinates: by row, then by column.
pub open spec fn coordinate_row_major_less(a: Coordinate, b: Coordinate) -> bool {
    a.row < b.row || (a.row == b.row && a.column < b.column)
}

/// The ordered coordinates a line visits: start at `start`, emit the current
/// coordinate while it lies within `[0, height) x [0, width)`, and advance by
/// the direction's unit offset; stop the moment the advanced coordinate is
/// absent (arithmetic failure) or the current one is out of bounds.
pub open spec fn spec_line_coords(
    start: Coordinate,
    direction: Direction,
    width: int,
    height: int,
) -> Seq<Coordinate>
    decreases (if direction == Direction::Horizontal {
        width - start.column
    } else {
        height - start.row
    }),
{
    if start.row >= height || start.column >= width {
        Seq::empty()
    } else {
        match start.spec_add(Offset::spec_from_direction(direction)) {
            Some(next) => seq![start] + spec_line_coords(next, direction, width, height),
            None => seq![start],
        }
    }
}

/// Length of the line that starts at `start`: how many steps fit before the
/// traversal leaves the `height` x `width` bounds. Zero when the start itself
/// is out of bounds.
pub open spec fn spec_line_len(
    start: Coordinate,
    direction: Direction,
    width: int,
    height: int,
) -> int {
    if start.row >= height || start.column >= width {
        0
    } else {
        match direction {
            Direction::Horizontal => width - start.column,
            Direction::Vertical => height - start.row,
            Direction::Diagonal => if height - start.row <= width - start.column {
                height - start.row
            } else {
                width - start.column
            },
            Direction::AntiDiagonal => if height - start.row <= start.column + 1 {
                height - start.row
            } else {
                start.column + 1
            },
        }
    }
}

/// For an in-bounds start the traversal is arithmetic: its length has the
/// closed form of `spec_line_len`, and the `k`th coordinate is the start
/// displaced `k` times by the direction's unit offset; every coordinate
/// emitted is in bounds.
pub proof fn lemma_line_coords(start: Coordinate, direction: Direction, width: int, height: int)
    requires
        0 <= width <= usize::MAX,
        0 <= height <= usize::MAX,
    ensures
        ({
            let s = spec_line_coords(start, direction, width, height);
            let o = Offset::spec_from_direction(direction);
            &&& s.len() == spec_line_len(start, direction, width, height)
            &&& forall|k: int|
                0 <= k < s.len() ==> (#[trigger] s[k]).row == start.row + k * o.row && s[k].column
                    == start.column + k * o.column
            &&& forall|k: int|
                0 <= k < s.len() ==> (#[trigger] s[k]).row < height && s[k].column < width
        }),
    decreases (if direction == Direction::Horizontal {
        width - start.column
    } else {
        height - start.row
    }),
{
    let s = spec_line_coords(start, direction, width, height);
    let o = Offset::spec_from_direction(direction);
    if start.row >= height || start.column >= width {
    } else {
        match start.spec_add(o) {
            Some(next) => {
                lemma_line_coords(next, direction, width, height);
                let rest = spec_line_coords(next, direction, width, height);
                assert forall|k: int| 0 <= k < s.len() implies (#[trigger] s[k]).row == start.row + k
                    * o.row && s[k].column == start.column + k * o.column by {
                    if k > 0 {
                        assert(s[k] == rest[k - 1]);
                        assert(rest[k - 1].row == next.row + (k - 1) * o.row);
                        assert(rest[k - 1].column == next.column + (k - 1) * o.column);
                        assert(next.row == start.row + o.row);
                        assert(next.column == start.column + o.column);
                        assert(k * o.row == (k - 1) * o.row + o.row) by (nonlinear_arith);
                        assert(k * o.column == (k - 1) * o.column + o.column) by (nonlinear_arith);
                    }
                }
            },
            None => {
                // The only unit step that can fail in bounds is the
                // anti-diagonal one, at column 0.
                assert(direction == Direction::AntiDiagonal && start.column == 0);
            },
        }
    }
}

/// A signed displacement between coordinates.
#[derive(Clone, Copy, Debug, PartialEq, Eq, Structural)]
pub struct Offset {
    pub row: isize,
    pub column: isize,
}

impl Default for Offset {
    /// The zero displacement.
    fn default() -> (r: Self)
        ensures
            r == (Offset { row: 0, column: 0 }),
    {
        Offset { row: 0, column: 0 }
    }
}

impl Offset {
    pub open spec fn spec_get_axis_index(self, axis: Axis) -> isize {
        match axis {
            Axis::Row => self.row,
            Axis::Column => self.column,
        }
    }

    pub fn get_axis_index(self, axis: Axis) -> (r: isize)
        ensures
            r == self.spec_get_axis_index(axis),
    {
        match axis {
            Axis::Row => self.row,
            Axis::Column => self.column,
        }
    }

    pub fn set_axis_index(&mut self, axis: Axis, index: isize)
        ensures
            final(self).spec_get_axis_index(axis) == index,
            final(self).spec_get_axis_index(axis.spec_opposite()) == old(
                self,
            ).spec_get_axis_index(axis.spec_opposite()),
    {
        match axis {
            Axis::Row => self.row = index,
            Axis::Column => self.column = index,
        }
    }

    /// The unit step a coordinate takes along a line of the given direction.
    pub open spec fn spec_from_direction(direction: Direction) -> Offset {
        match direction {
            Direction::Horizontal => Offset { row: 0, column: 1 },
            Direction::Vertical => Offset { row: 1, column: 0 },
            Direction::Diagonal => Offset { row: 1, column: 1 },
            Direction::AntiDiagonal => Offset { row: 1, column: -1isize },
        }
    }

    pub fn from_direction(direction: Direction) -> (r: Self)
        ensures
            r == Self::spec_from_direction(direction),
    {
        match direction {
            Direction::Horizontal => Offset { row: 0, column: 1 },
            Direction::Vertical => Offset { row: 1, column: 0 },
            Direction::Diagonal => Offset { row: 1, column: 1 },
            Direction::AntiDiagonal => Offset { row: 1, column: -1isize },
        }
    }

    /// Vector addition of two offsets. Unlike coordinate/offset addition
    /// this is a total operation; the bounds asked for are only what the
    /// machine representation forces.
    pub fn vector_add(self, rhs: Self) -> (r: Self)
        requires
            isize::MIN <= self.row + rhs.row <= isize::MAX,
            isize::MIN <= self.column + rhs.column <= isize::MAX,
        ensures
            r.row == self.row + rhs.row,
            r.column == self.column + rhs.column,
    {
        Offset { row: self.row + rhs.row, column: self.column + rhs.column }
    }

    /// Every offset within Chebyshev distance `radius` of the origin, in
    /// strict row-major order (by row delta, then by column delta), with the
    /// origin itself left out unless `include_center` is set. The order is
    /// deterministic and repeatable for identical inputs.
    pub fn square_kernel(radius: usize, include_center: bool) -> (r: Vec<Offset>)
        requires
            radius <= isize::MAX,
        ensures
            forall|k: int|
                0 <= k < r@.len() ==> kernel_contains(#[trigger] r@[k], radius as int, include_center),
            forall|o: Offset|
                kernel_contains(o, radius as int, include_center) ==> r@.contains(o),
            forall|i: int, j: int| 0 <= i < j < r@.len() ==> offset_row_major_less(r@[i], r@[j]),
            r@.len() == (2 * radius + 1) * (2 * radius + 1) - (if include_center {
                0int
            } else {
                1int
            }),
    {
        let rad = radius as i128;
        let mut out: Vec<Offset> = Vec::new();
        let mut dr: i128 = -rad;
        proof {
            assert(((-rad) + rad) * (2 * (radius as int) + 1) == 0) by (nonlinear_arith);
        }
        while dr <= rad
            invariant
                rad == radius,
                radius <= isize::MAX,
                -rad <= dr <= rad + 1,
                forall|k: int|
                    0 <= k < out@.len() ==> kernel_contains(
                        #[trigger] out@[k],
                        radius as int,
                        include_center,
                    ) && out@[k].row < dr,
                forall|o: Offset|
                    kernel_contains(o, radius as int, include_center) && o.row < dr
                        ==> out@.contains(o),
                forall|i: int, j: int|
                    0 <= i < j < out@.len() ==> offset_row_major_less(out@[i], out@[j]),
                out@.len() == (dr + rad) * (2 * radius + 1) - (if !include_center && dr > 0 {
                    1int
                } else {
                    0int
                }),
            decreases rad + 1 - dr,
        {
            let ghost out_before_row = out@;
            let mut dc: i128 = -rad;
            while dc <= rad
                invariant
                    rad == radius,
                    radius <= isize::MAX,
                    -rad <= dr <= rad,
                    -rad <= dc <= rad + 1,
                    forall|k: int|
                        0 <= k < out@.len() ==> kernel_contains(
                            #[trigger] out@[k],
                            radius as int,
                            include_center,
                        ) && (out@[k].row < dr || (out@[k].row == dr && out@[k].column < dc)),
                    forall|o: Offset|
                        kernel_contains(o, radius as int, include_center) && (o.row < dr || (o.row
                            == dr && o.column < dc)) ==> out@.contains(o),
                    forall|i: int, j: int|
                        0 <= i < j < out@.len() ==> offset_row_major_less(out@[i], out@[j]),
                    out@.len() == (dr + rad) * (2 * radius + 1) + (dc + rad) - (if !include_center
                        && (dr > 0 || (dr == 0 && dc > 0)) {
                        1int
                    } else {
                        0int
                    }),
                decreases rad + 1 - dc,
            {
                if include_center || !(dr == 0 && dc == 0) {
                    let ghost before = out@;
                    out.push(Offset { row: dr as isize, column: dc as isize });
                    proof {
                        assert forall|o: Offset|
                            kernel_contains(o, radius as int, include_center) && (o.row < dr || (
                            o.row == dr && o.column < dc + 1)) implies out@.contains(o) by {
                            if o.row == dr && o.column == dc {
                                assert(out@[out@.len() - 1] == o);
                            } else {
                                let i = choose|i: int| 0 <= i < before.len() && before[i] == o;
                                assert(out@[i] == o);
                            }
                        }
                    }
                } else {
                    proof {
                        assert forall|o: Offset|
                            kernel_contains(o, radius as int, include_center) && (o.row < dr || (
                            o.row == dr && o.column < dc + 1)) implies out@.contains(o) by {
                            assert(!(o.row == dr && o.column == dc));
                        }
                    }
                }
                dc = dc + 1;
            }
            proof {
                assert forall|o: Offset|
                    kernel_contains(o, radius as int, include_center) && o.row < dr + 1
                        implies out@.contains(o) by {
                    assert(o.column <= rad);
                }
                assert((dr + rad + 1) * (2 * (radius as int) + 1) == (dr + rad) * (2 * (radius as int)
                    + 1) + (2 * (radius as int) + 1)) by (nonlinear_arith);
            }
            dr = dr + 1;
        }
        proof {
            assert forall|o: Offset|
                kernel_contains(o, radius as int, include_center) implies out@.contains(o) by {
                assert(o.row <= rad);
            }
            assert(out@.len() == (2 * radius + 1) * (2 * radius + 1) - (if include_center {
                0int
            } else {
                1int
            })) by (nonlinear_arith)
                requires
                    out@.len() == ((rad + 1) + rad) * (2 * radius + 1) - (if !include_center && (rad
                        + 1) > 0 {
                        1int
                    } else {
                        0int
                    }),
                    rad == radius,
                    radius >= 0,
            ;
        }
        out
    }
}

} // verus!
