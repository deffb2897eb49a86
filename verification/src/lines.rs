//! Reading and writing whole lines: the ordered values along a row, column,
//! diagonal or anti-diagonal, looked up and written back through the line
//! geometry of the field.

use vstd::prelude::*;

use crate::access::coord_in_grid;
use crate::access::spec_values_at;
use crate::access::spec_write_pairs;
use crate::access::spec_write_pairs_result;
use crate::helpers::spec_line_coords;
use crate::helpers::Coordinate;
use crate::helpers::Direction;
use crate::Field;
use crate::FieldError;

verus! {

/// The grid after writing the given lines one after another, line `next`
/// first: each write follows the single-line rules (index checked against
/// the start enumeration, strict length check, then pair-wise writes), and
/// the first failure stops the batch with every earlier write kept. The
/// field `f` only lends its geometry, which writes never change.
pub open spec fn spec_write_lines<T>(
    f: Field<T>,
    grid: Seq<Seq<T>>,
    direction: Direction,
    lines: Seq<Seq<T>>,
    next: int,
) -> Seq<Seq<T>>
    decreases lines.len(),
{
    if lines.len() == 0 {
        grid
    } else if next >= f.spec_number_of_starts(direction) {
        grid
    } else if lines[0].len() < f.spec_line_targets(direction, next).len() {
        grid
    } else {
        let pairs = f.spec_line_write_pairs(direction, next, lines[0]);
        let g2 = spec_write_pairs(grid, pairs);
        if spec_write_pairs_result(grid, pairs) is Ok {
            spec_write_lines(f, g2, direction, lines.drop_first(), next + 1)
        } else {
            g2
        }
    }
}

/// Pair each coordinate with the value of the same position; excess values
/// are dropped.
fn zip_pairs<T>(coords: &Vec<Coordinate>, values: Vec<T>) -> (r: Vec<(Coordinate, T)>)
    requires
        coords@.len() <= values@.len(),
    ensures
        r@.len() == coords@.len(),
        forall|k: int| 0 <= k < r@.len() ==> r@[k] == (coords@[k], values@[k]),
{
    let mut r: Vec<(Coordinate, T)> = Vec::new();
    let mut rest = values;
    let mut k: usize = 0;
    while k < coords.len()
        invariant
            0 <= k <= coords@.len() <= values@.len(),
            rest@ == values@.skip(k as int),
            r@.len() == k,
            forall|i: int| 0 <= i < k ==> r@[i] == (coords@[i], values@[i]),
        decreases coords@.len() - k,
    {
        let v = rest.remove(0);
        proof {
            assert(rest@ =~= values@.skip(k + 1));
            assert(v == values@[k as int]);
        }
        r.push((coords[k], v));
        k = k + 1;
    }
    r
}

/// The outcome a batch of line writes reports: the error of the first line
/// that fails, or `Ok` when every line lands.
pub open spec fn spec_write_lines_result<T>(
    f: Field<T>,
    grid: Seq<Seq<T>>,
    direction: Direction,
    lines: Seq<Seq<T>>,
    next: int,
) -> Result<(), FieldError>
    decreases lines.len(),
{
    if lines.len() == 0 {
        Ok(())
    } else if next >= f.spec_number_of_starts(direction) {
        Err(FieldError::LineIndexOutOfBounds)
    } else if lines[0].len() < f.spec_line_targets(direction, next).len() {
        Err(FieldError::LineLengthMismatch)
    } else {
        let pairs = f.spec_line_write_pairs(direction, next, lines[0]);
        match spec_write_pairs_result(grid, pairs) {
            Ok(u) => spec_write_lines_result(
                f,
                spec_write_pairs(grid, pairs),
                direction,
                lines.drop_first(),
                next + 1,
            ),
            Err(e) => Err(e),
        }
    }
}

/// Round trip: on a well-formed field, the values read from any valid line
/// are exactly as many as that line's write targets, and writing them
/// straight back succeeds and leaves the grid unchanged.
pub proof fn lemma_get_set_round_trip<T>(f: Field<T>, direction: Direction, index: int)
    requires
        f.well_formed(),
        0 <= index < f.spec_number_of_lines(direction),
    ensures
        f.spec_line_values(direction, index).len() == f.spec_line_targets(direction, index).len(),
        spec_write_pairs(
            f.grid(),
            f.spec_line_write_pairs(direction, index, f.spec_line_values(direction, index)),
        ) == f.grid(),
        spec_write_pairs_result(
            f.grid(),
            f.spec_line_write_pairs(direction, index, f.spec_line_values(direction, index)),
        ) == Ok::<(), FieldError>(()),
{
    let g = f.grid();
    let values = f.spec_line_values(direction, index);
    let targets = f.spec_line_targets(direction, index);
    let pairs = f.spec_line_write_pairs(direction, index, values);
    if direction == Direction::Horizontal {
        vstd::std_specs::vec::axiom_spec_len(&f.data);
        let row_vec = f.data@[index];
        vstd::std_specs::vec::axiom_spec_len(&row_vec);
        assert(targets.len() == g[index].len());
        assert forall|k: int|
            0 <= k < pairs.len() implies crate::access::coord_in_grid(g, (#[trigger] pairs[k]).0)
            && pairs[k].1 == g[pairs[k].0.row as int][pairs[k].0.column as int] by {
            assert(pairs[k].0 == targets[k]);
            assert(targets[k].row == index && targets[k].column == k);
            assert(pairs[k].1 == g[index][k]);
        }
        crate::access::lemma_write_pairs_identity(g, pairs);
    } else {
        let coords = f.spec_line_coordinates(direction, index);
        vstd::std_specs::vec::axiom_spec_len(&f.data);
        if f.data@.len() > 0 {
            vstd::std_specs::vec::axiom_spec_len(&f.data[0]);
        }
        crate::helpers::lemma_line_coords(
            f.spec_line_start(direction, index),
            direction,
            f.spec_width(),
            f.spec_height(),
        );
        assert forall|k: int|
            0 <= k < coords.len() implies crate::access::coord_in_grid(
            g,
            #[trigger] coords[k],
        ) by {
            assert(g[coords[k].row as int].len() == f.spec_width());
        }
        crate::access::lemma_values_at_all_in_grid(g, coords);
        assert forall|k: int|
            0 <= k < pairs.len() implies crate::access::coord_in_grid(g, (#[trigger] pairs[k]).0)
            && pairs[k].1 == g[pairs[k].0.row as int][pairs[k].0.column as int] by {
            assert(pairs[k].0 == coords[k]);
            assert(pairs[k].1 == values[k]);
        }
        crate::access::lemma_write_pairs_identity(g, pairs);
    }
}

impl<T> Field<T> {
    /// The coordinates line `index` of a direction visits, in traversal
    /// order.
    pub open spec fn spec_line_coordinates(self, direction: Direction, index: int) -> Seq<
        Coordinate,
    > {
        spec_line_coords(
            self.spec_line_start(direction, index),
            direction,
            self.spec_width(),
            self.spec_height(),
        )
    }

    /// The values a read of line `index` produces. A horizontal line is its
    /// backing row as it stands; every other direction walks the traversal
    /// coordinates and skips any cell a malformed grid lacks.
    pub open spec fn spec_line_values(self, direction: Direction, index: int) -> Seq<T> {
        if direction == Direction::Horizontal {
            self.grid()[index]
        } else {
            spec_values_at(self.grid(), self.spec_line_coordinates(direction, index))
        }
    }

    /// The ordered values along line `index` of a direction, or `None` when
    /// the index reaches past the lines the field has.
    pub fn get_line_iter<'a>(&'a self, direction: Direction, index: usize) -> (r: Option<
        Vec<&'a T>,
    >)
        requires
            self.lines_countable(direction),
            direction == Direction::AntiDiagonal && index < self.spec_number_of_lines(direction)
                ==> self.anti_diagonal_starts_ok(),
        ensures
            index >= self.spec_number_of_lines(direction) ==> r is None,
            index < self.spec_number_of_lines(direction) ==> (r matches Some(v) && v@.map_values(
                |t: &T| *t,
            ) == self.spec_line_values(direction, index as int)),
    {
        let n = self.number_of_lines_in_direction(direction);
        if index >= n {
            return None;
        }
        match direction {
            Direction::Horizontal => Some(self.horizontal_line_iter(index)),
            Direction::Vertical => Some(self.vertical_line_iter(index)),
            _ => Some(self.generic_line_iter(direction, index)),
        }
    }

    /// The generic read path: start coordinate, traversal, cell lookup.
    fn generic_line_iter<'a>(&'a self, direction: Direction, index: usize) -> (r: Vec<&'a T>)
        requires
            index < self.spec_number_of_starts(direction),
            direction == Direction::AntiDiagonal ==> self.anti_diagonal_starts_ok(),
        ensures
            r@.map_values(|t: &T| *t) == spec_values_at(
                self.grid(),
                self.spec_line_coordinates(direction, index as int),
            ),
    {
        let start = self.line_start_coordinate(direction, index);
        let coords = start.line_in_direction(direction, self.width(), self.height());
        self.coodinate_iter_access(&coords)
    }

    /// The horizontal shortcut: hand the backing row over as it stands.
    fn horizontal_line_iter<'a>(&'a self, index: usize) -> (r: Vec<&'a T>)
        requires
            index < self.spec_height(),
        ensures
            r@.map_values(|t: &T| *t) == self.grid()[index as int],
    {
        let row = &self.data[index];
        let mut r: Vec<&'a T> = Vec::new();
        let mut j: usize = 0;
        while j < row.len()
            invariant
                index < self.grid().len(),
                *row == self.data@[index as int],
                0 <= j <= row@.len(),
                r@.map_values(|t: &T| *t) == self.grid()[index as int].take(j as int),
            decreases row@.len() - j,
        {
            let ghost prev = r@;
            r.push(&row[j]);
            proof {
                assert(r@ == prev.push(r@[r@.len() - 1]));
                assert(self.grid()[index as int].take(j + 1) =~= self.grid()[index as int].take(
                    j as int,
                ).push(self.grid()[index as int][j as int]));
                assert(r@.map_values(|t: &T| *t) =~= self.grid()[index as int].take(j + 1));
            }
            j = j + 1;
        }
        proof {
            assert(self.grid()[index as int].take(self.grid()[index as int].len() as int)
                =~= self.grid()[index as int]);
        }
        r
    }

    /// The vertical shortcut: element `index` of each row that has one.
    fn vertical_line_iter<'a>(&'a self, index: usize) -> (r: Vec<&'a T>)
        requires
            index < self.spec_width(),
        ensures
            r@.map_values(|t: &T| *t) == spec_values_at(
                self.grid(),
                self.spec_line_coordinates(Direction::Vertical, index as int),
            ),
    {
        let ghost coords = self.spec_line_coordinates(Direction::Vertical, index as int);
        let width = self.width();
        let height = self.height();
        proof {
            crate::helpers::lemma_line_coords(
                self.spec_line_start(Direction::Vertical, index as int),
                Direction::Vertical,
                self.spec_width(),
                self.spec_height(),
            );
            assert(coords.len() == self.grid().len());
            assert forall|k: int| 0 <= k < coords.len() implies (#[trigger] coords[k])
                == (Coordinate { row: k as usize, column: index }) by {
                let o = crate::helpers::Offset::spec_from_direction(Direction::Vertical);
                assert(o.row == 1 && o.column == 0);
                assert(k * o.row == k && k * o.column == 0) by (nonlinear_arith)
                    requires
                        o.row == 1 && o.column == 0,
                ;
                assert(coords[k].row == k);
                assert(coords[k].column == index);
            }
        }
        let mut r: Vec<&'a T> = Vec::new();
        let mut i: usize = 0;
        while i < self.data.len()
            invariant
                index < self.spec_width(),
                0 <= i <= self.grid().len(),
                coords == self.spec_line_coordinates(Direction::Vertical, index as int),
                coords.len() == self.grid().len(),
                forall|k: int|
                    0 <= k < coords.len() ==> (#[trigger] coords[k]) == (Coordinate {
                        row: k as usize,
                        column: index,
                    }),
                r@.map_values(|t: &T| *t) == spec_values_at(self.grid(), coords.take(i as int)),
            decreases self.grid().len() - i,
        {
            proof {
                assert(coords.take(i + 1).drop_last() =~= coords.take(i as int));
                assert(coords.take(i + 1).last() == coords[i as int]);
            }
            let row = &self.data[i];
            if index < row.len() {
                r.push(&row[index]);
                proof {
                    assert(coord_in_grid(self.grid(), coords[i as int]));
                    assert(r@.map_values(|t: &T| *t) =~= spec_values_at(
                        self.grid(),
                        coords.take(i + 1),
                    ));
                }
            } else {
                proof {
                    assert(!coord_in_grid(self.grid(), coords[i as int]));
                    assert(r@.map_values(|t: &T| *t) =~= spec_values_at(
                        self.grid(),
                        coords.take(i + 1),
                    ));
                }
            }
            i = i + 1;
        }
        proof {
            assert(coords.take(coords.len() as int) =~= coords);
        }
        r
    }

    /// The cells a write of line `index` targets, in write order. A
    /// horizontal write targets its whole backing row; every other
    /// direction targets the traversal coordinates.
    pub open spec fn spec_line_targets(self, direction: Direction, index: int) -> Seq<Coordinate> {
        if direction == Direction::Horizontal {
            Seq::new(
                self.grid()[index].len(),
                |k: int| Coordinate { row: index as usize, column: k as usize },
            )
        } else {
            self.spec_line_coordinates(direction, index)
        }
    }

    /// The coordinate/value pairs a write of line `index` hands to the
    /// pair-wise writer: target `k` gets value `k`; excess values are
    /// ignored.
    pub open spec fn spec_line_write_pairs(self, direction: Direction, index: int, values: Seq<T>) -> Seq<
        (Coordinate, T),
    > {
        Seq::new(
            self.spec_line_targets(direction, index).len(),
            |k: int| (self.spec_line_targets(direction, index)[k], values[k]),
        )
    }

    /// Whether `index` names a line start of the direction; computed
    /// without ever forming `width + height`.
    fn line_index_in_starts(&self, direction: Direction, index: usize) -> (r: bool)
        ensures
            r == (index < self.spec_number_of_starts(direction)),
    {
        let width = self.width();
        let height = self.height();
        match direction {
            Direction::Horizontal => index < height,
            Direction::Vertical => index < width,
            Direction::Diagonal | Direction::AntiDiagonal => {
                if height == 0 {
                    index < width
                } else {
                    index < height - 1 || index - (height - 1) < width
                }
            },
        }
    }

    /// Write `line` along line `index` of a direction. The index is checked
    /// against the start enumeration, then the line must supply at least as
    /// many values as there are targets (excess values are ignored); either
    /// failure leaves the field untouched. The targets are then written in
    /// traversal order, and on a malformed grid a target its row lacks
    /// stops the write there, keeping the writes already made.
    pub fn set_line_iter(&mut self, direction: Direction, index: usize, line: Vec<T>) -> (r:
        Result<(), FieldError>)
        requires
            direction == Direction::AntiDiagonal ==> old(self).anti_diagonal_starts_ok(),
        ensures
            index >= old(self).spec_number_of_starts(direction) ==> r == Err::<(), FieldError>(
                FieldError::LineIndexOutOfBounds,
            ) && *final(self) == *old(self),
            index < old(self).spec_number_of_starts(direction) && line@.len() < old(
                self,
            ).spec_line_targets(direction, index as int).len() ==> r == Err::<(), FieldError>(
                FieldError::LineLengthMismatch,
            ) && *final(self) == *old(self),
            index < old(self).spec_number_of_starts(direction) && line@.len() >= old(
                self,
            ).spec_line_targets(direction, index as int).len() ==> final(self).grid()
                == spec_write_pairs(
                old(self).grid(),
                old(self).spec_line_write_pairs(direction, index as int, line@),
            ) && r == spec_write_pairs_result(
                old(self).grid(),
                old(self).spec_line_write_pairs(direction, index as int, line@),
            ),
    {
        match direction {
            Direction::Horizontal => self.set_horizontal_line(index, line),
            Direction::Vertical => self.set_vertical_line(index, line),
            _ => self.set_generic_line(direction, index, line),
        }
    }

    /// The generic write path: start coordinate, traversal, pair-wise
    /// writes.
    fn set_generic_line(&mut self, direction: Direction, index: usize, line: Vec<T>) -> (r: Result<
        (),
        FieldError,
    >)
        requires
            direction != Direction::Horizontal,
            direction == Direction::AntiDiagonal ==> old(self).anti_diagonal_starts_ok(),
        ensures
            index >= old(self).spec_number_of_starts(direction) ==> r == Err::<(), FieldError>(
                FieldError::LineIndexOutOfBounds,
            ) && *final(self) == *old(self),
            index < old(self).spec_number_of_starts(direction) && line@.len() < old(
                self,
            ).spec_line_targets(direction, index as int).len() ==> r == Err::<(), FieldError>(
                FieldError::LineLengthMismatch,
            ) && *final(self) == *old(self),
            index < old(self).spec_number_of_starts(direction) && line@.len() >= old(
                self,
            ).spec_line_targets(direction, index as int).len() ==> final(self).grid()
                == spec_write_pairs(
                old(self).grid(),
                old(self).spec_line_write_pairs(direction, index as int, line@),
            ) && r == spec_write_pairs_result(
                old(self).grid(),
                old(self).spec_line_write_pairs(direction, index as int, line@),
            ),
    {
        if !self.line_index_in_starts(direction, index) {
            return Err(FieldError::LineIndexOutOfBounds);
        }
        let start = self.line_start_coordinate(direction, index);
        let coords = start.line_in_direction(direction, self.width(), self.height());
        if line.len() < coords.len() {
            return Err(FieldError::LineLengthMismatch);
        }
        let ghost line_view = line@;
        let pairs = zip_pairs(&coords, line);
        proof {
            assert(pairs@ =~= self.spec_line_write_pairs(direction, index as int, line_view));
        }
        self.set_coordinate_iter(pairs)
    }

    /// The horizontal shortcut: the targets are the cells of the backing
    /// row, however long it is.
    fn set_horizontal_line(&mut self, index: usize, line: Vec<T>) -> (r: Result<(), FieldError>)
        ensures
            index >= old(self).spec_height() ==> r == Err::<(), FieldError>(
                FieldError::LineIndexOutOfBounds,
            ) && *final(self) == *old(self),
            index < old(self).spec_height() && line@.len() < old(self).grid()[index as int].len()
                ==> r == Err::<(), FieldError>(FieldError::LineLengthMismatch) && *final(self)
                == *old(self),
            index < old(self).spec_height() && line@.len() >= old(self).grid()[
                index as int
            ].len() ==> final(self).grid() == spec_write_pairs(
                old(self).grid(),
                old(self).spec_line_write_pairs(Direction::Horizontal, index as int, line@),
            ) && r == spec_write_pairs_result(
                old(self).grid(),
                old(self).spec_line_write_pairs(Direction::Horizontal, index as int, line@),
            ),
    {
        if index >= self.data.len() {
            return Err(FieldError::LineIndexOutOfBounds);
        }
        let row_len = self.data[index].len();
        if line.len() < row_len {
            return Err(FieldError::LineLengthMismatch);
        }
        let mut coords: Vec<Coordinate> = Vec::new();
        let mut k: usize = 0;
        while k < row_len
            invariant
                0 <= k <= row_len,
                coords@.len() == k,
                forall|i: int|
                    0 <= i < k ==> coords@[i] == (Coordinate {
                        row: index,
                        column: i as usize,
                    }),
            decreases row_len - k,
        {
            coords.push(Coordinate { row: index, column: k });
            k = k + 1;
        }
        let ghost line_view = line@;
        let pairs = zip_pairs(&coords, line);
        proof {
            assert(pairs@ =~= self.spec_line_write_pairs(
                Direction::Horizontal,
                index as int,
                line_view,
            ));
        }
        self.set_coordinate_iter(pairs)
    }

    /// The vertical shortcut shares the generic path: the traversal already
    /// visits each row once at the fixed column.
    fn set_vertical_line(&mut self, index: usize, line: Vec<T>) -> (r: Result<(), FieldError>)
        ensures
            index >= old(self).spec_width() ==> r == Err::<(), FieldError>(
                FieldError::LineIndexOutOfBounds,
            ) && *final(self) == *old(self),
            index < old(self).spec_width() && line@.len() < old(self).spec_line_targets(
                Direction::Vertical,
                index as int,
            ).len() ==> r == Err::<(), FieldError>(FieldError::LineLengthMismatch) && *final(self)
                == *old(self),
            index < old(self).spec_width() && line@.len() >= old(self).spec_line_targets(
                Direction::Vertical,
                index as int,
            ).len() ==> final(self).grid() == spec_write_pairs(
                old(self).grid(),
                old(self).spec_line_write_pairs(Direction::Vertical, index as int, line@),
            ) && r == spec_write_pairs_result(
                old(self).grid(),
                old(self).spec_line_write_pairs(Direction::Vertical, index as int, line@),
            ),
    {
        self.set_generic_line(Direction::Vertical, index, line)
    }

    /// Write the given lines one after another as line 0, 1, and so on of
    /// the direction, stopping at the first line whose write fails; lines
    /// already written stay written.
    pub fn set_all_lines_iter(&mut self, direction: Direction, lines: Vec<Vec<T>>) -> (r: Result<
        (),
        FieldError,
    >)
        requires
            direction == Direction::AntiDiagonal ==> old(self).anti_diagonal_starts_ok(),
        ensures
            final(self).grid() == spec_write_lines(
                *old(self),
                old(self).grid(),
                direction,
                lines@.map_values(|l: Vec<T>| l@),
                0,
            ),
            r == spec_write_lines_result(
                *old(self),
                old(self).grid(),
                direction,
                lines@.map_values(|l: Vec<T>| l@),
                0,
            ),
    {
        let ghost f0 = *old(self);
        let ghost all = lines@.map_values(|l: Vec<T>| l@);
        let mut remaining = lines;
        let total: usize = remaining.len();
        let mut index: usize = 0;
        proof {
            assert(all.skip(0) =~= all);
            assert(remaining@.map_values(|l: Vec<T>| l@) == all);
        }
        while remaining.len() > 0
            invariant
                f0 == *old(self),
                all == lines@.map_values(|l: Vec<T>| l@),
                direction == Direction::AntiDiagonal ==> f0.anti_diagonal_starts_ok(),
                0 <= index,
                all.len() == total,
                index + remaining@.len() == all.len(),
                remaining@.map_values(|l: Vec<T>| l@) == all.skip(index as int),
                self.grid().len() == f0.grid().len(),
                forall|i: int|
                    0 <= i < f0.grid().len() ==> (#[trigger] self.grid()[i]).len()
                        == f0.grid()[i].len(),
                spec_write_lines(f0, f0.grid(), direction, all, 0) == spec_write_lines(
                    f0,
                    self.grid(),
                    direction,
                    all.skip(index as int),
                    index as int,
                ),
                spec_write_lines_result(f0, f0.grid(), direction, all, 0)
                    == spec_write_lines_result(
                    f0,
                    self.grid(),
                    direction,
                    all.skip(index as int),
                    index as int,
                ),
            decreases remaining@.len(),
        {
            let ghost rem_before = remaining@.map_values(|l: Vec<T>| l@);
            let line = remaining.remove(0);
            let ghost line_view = line@;
            proof {
                assert(remaining@.map_values(|l: Vec<T>| l@) =~= rem_before.drop_first());
                assert(rem_before.drop_first() =~= all.skip(index + 1));
                assert(rem_before[0] == line_view);
            }
            let ghost self_before = *self;
            proof {
                // The geometry the single-line write consults agrees with
                // the original field's: only the shape enters it.
                if f0.grid().len() > 0 {
                    assert(self_before.grid()[0].len() == f0.grid()[0].len());
                }
                assert(self_before.spec_width() == f0.spec_width());
                assert(self_before.spec_height() == f0.spec_height());
                assert(self_before.spec_number_of_starts(direction) == f0.spec_number_of_starts(
                    direction,
                ));
                if index < f0.spec_number_of_starts(direction) {
                    if direction == Direction::Horizontal {
                        assert(self_before.grid()[index as int].len() == f0.grid()[
                            index as int
                        ].len());
                    }
                    assert(self_before.spec_line_targets(direction, index as int)
                        =~= f0.spec_line_targets(direction, index as int));
                    assert(self_before.spec_line_write_pairs(direction, index as int, line_view)
                        =~= f0.spec_line_write_pairs(direction, index as int, line_view));
                }
            }
            let result = self.set_line_iter(direction, index, line);
            proof {
                let pairs = f0.spec_line_write_pairs(direction, index as int, line_view);
                if index < f0.spec_number_of_starts(direction) && line_view.len()
                    >= f0.spec_line_targets(direction, index as int).len() {
                    crate::access::lemma_write_pairs_shape(self_before.grid(), pairs);
                }
            }
            match result {
                Ok(()) => {
                    index = index + 1;
                },
                Err(e) => {
                    return Err(e);
                },
            }
        }
        proof {
            assert(all.skip(index as int) =~= Seq::<Seq<T>>::empty());
        }
        Ok(())
    }

    /// Every line of a direction, in line-index order.
    pub fn get_all_lines_iter<'a>(&'a self, direction: Direction) -> (r: Vec<Vec<&'a T>>)
        requires
            self.lines_countable(direction),
            direction == Direction::AntiDiagonal ==> self.anti_diagonal_starts_ok(),
        ensures
            r@.len() == self.spec_number_of_lines(direction),
            forall|k: int|
                0 <= k < r@.len() ==> (#[trigger] r@[k])@.map_values(|t: &T| *t)
                    == self.spec_line_values(direction, k),
    {
        let n = self.number_of_lines_in_direction(direction);
        let mut r: Vec<Vec<&'a T>> = Vec::new();
        let mut index: usize = 0;
        while index < n
            invariant
                self.lines_countable(direction),
                direction == Direction::AntiDiagonal ==> self.anti_diagonal_starts_ok(),
                n == self.spec_number_of_lines(direction),
                0 <= index <= n,
                r@.len() == index,
                forall|k: int|
                    0 <= k < r@.len() ==> (#[trigger] r@[k])@.map_values(|t: &T| *t)
                        == self.spec_line_values(direction, k),
            decreases n - index,
        {
            let line = match self.get_line_iter(direction, index) {
                Some(line) => line,
                None => Vec::new(),
            };
            r.push(line);
            index = index + 1;
        }
        r
    }
}

} // verus!
