//! Raw access to the grid: whole-grid moves, single-cell reads and writes,
//! and batch reads/writes driven by coordinate sequences.

use vstd::prelude::*;

use vstd::pervasive::VecAdditionalExecFns;

use crate::helpers::Coordinate;
use crate::Field;
use crate::FieldError;

verus! {

/// Whether `coord` addresses a cell of `grid` (row by row, so a short row of
/// a malformed grid rejects the columns it lacks).
pub open spec fn coord_in_grid<T>(grid: Seq<Seq<T>>, coord: Coordinate) -> bool {
    coord.row < grid.len() && coord.column < grid[coord.row as int].len()
}

/// The cells of `grid` at `coords`, in order; a coordinate outside the grid
/// contributes nothing.
pub open spec fn spec_values_at<T>(grid: Seq<Seq<T>>, coords: Seq<Coordinate>) -> Seq<T>
    decreases coords.len(),
{
    if coords.len() == 0 {
        Seq::empty()
    } else {
        let front = spec_values_at(grid, coords.drop_last());
        let c = coords.last();
        if coord_in_grid(grid, c) {
            front.push(grid[c.row as int][c.column as int])
        } else {
            front
        }
    }
}

/// `grid` with the cell at `coord` replaced by `value`; grids keep their
/// shape under writes. Meaningful only when `coord` is in the grid.
pub open spec fn grid_write<T>(grid: Seq<Seq<T>>, coord: Coordinate, value: T) -> Seq<Seq<T>> {
    grid.update(coord.row as int, grid[coord.row as int].update(coord.column as int, value))
}

/// The grid after writing the coordinate/value pairs in order, stopping at
/// the first coordinate outside the grid: writes before the failure stick.
pub open spec fn spec_write_pairs<T>(grid: Seq<Seq<T>>, pairs: Seq<(Coordinate, T)>) -> Seq<
    Seq<T>,
>
    decreases pairs.len(),
{
    if pairs.len() == 0 {
        grid
    } else if coord_in_grid(grid, pairs[0].0) {
        spec_write_pairs(grid_write(grid, pairs[0].0, pairs[0].1), pairs.drop_first())
    } else {
        grid
    }
}

/// The outcome the batch write reports: `Ok` when every pair lands in the
/// grid, otherwise the error of the first coordinate that does not.
pub open spec fn spec_write_pairs_result<T>(
    grid: Seq<Seq<T>>,
    pairs: Seq<(Coordinate, T)>,
) -> Result<(), FieldError>
    decreases pairs.len(),
{
    if pairs.len() == 0 {
        Ok(())
    } else if pairs[0].0.row >= grid.len() {
        Err(FieldError::RowOutOfBounds)
    } else if pairs[0].0.column >= grid[pairs[0].0.row as int].len() {
        Err(FieldError::ColumnOutOfBounds)
    } else {
        spec_write_pairs_result(grid_write(grid, pairs[0].0, pairs[0].1), pairs.drop_first())
    }
}

/// Reading coordinates that all address cells skips nothing: the batch read
/// yields exactly one value per coordinate, each the cell it addresses.
pub proof fn lemma_values_at_all_in_grid<T>(grid: Seq<Seq<T>>, coords: Seq<Coordinate>)
    requires
        forall|k: int| 0 <= k < coords.len() ==> coord_in_grid(grid, #[trigger] coords[k]),
    ensures
        spec_values_at(grid, coords).len() == coords.len(),
        forall|k: int|
            0 <= k < coords.len() ==> spec_values_at(grid, coords)[k] == grid[(
            #[trigger] coords[k]).row as int][coords[k].column as int],
    decreases coords.len(),
{
    if coords.len() == 0 {
    } else {
        lemma_values_at_all_in_grid(grid, coords.drop_last());
        assert(coords.drop_last().len() == coords.len() - 1);
        assert forall|k: int|
            0 <= k < coords.len() implies spec_values_at(grid, coords)[k] == grid[(
        #[trigger] coords[k]).row as int][coords[k].column as int] by {
            if k < coords.len() - 1 {
                assert(coords.drop_last()[k] == coords[k]);
            }
        }
    }
}

/// Writing every listed cell its own current value succeeds and leaves the
/// grid exactly as it was.
pub proof fn lemma_write_pairs_identity<T>(grid: Seq<Seq<T>>, pairs: Seq<(Coordinate, T)>)
    requires
        forall|k: int|
            0 <= k < pairs.len() ==> coord_in_grid(grid, (#[trigger] pairs[k]).0) && pairs[k].1
                == grid[pairs[k].0.row as int][pairs[k].0.column as int],
    ensures
        spec_write_pairs(grid, pairs) == grid,
        spec_write_pairs_result(grid, pairs) == Ok::<(), FieldError>(()),
    decreases pairs.len(),
{
    if pairs.len() == 0 {
    } else {
        let c = pairs[0].0;
        let g2 = grid_write(grid, c, pairs[0].1);
        assert(grid[c.row as int].update(c.column as int, pairs[0].1) =~= grid[c.row as int]);
        assert(g2 =~= grid);
        assert forall|k: int|
            0 <= k < pairs.drop_first().len() implies coord_in_grid(
            grid,
            (#[trigger] pairs.drop_first()[k]).0,
        ) && pairs.drop_first()[k].1 == grid[pairs.drop_first()[k].0.row as int][pairs.drop_first()[
        k].0.column as int] by {
            assert(pairs.drop_first()[k] == pairs[k + 1]);
        }
        lemma_write_pairs_identity(grid, pairs.drop_first());
    }
}

/// Writes never change a grid's shape: the row count and every row length
/// survive any batch of pair-wise writes.
pub proof fn lemma_write_pairs_shape<T>(grid: Seq<Seq<T>>, pairs: Seq<(Coordinate, T)>)
    ensures
        spec_write_pairs(grid, pairs).len() == grid.len(),
        forall|i: int|
            0 <= i < grid.len() ==> (#[trigger] spec_write_pairs(grid, pairs)[i]).len()
                == grid[i].len(),
    decreases pairs.len(),
{
    if pairs.len() == 0 {
    } else if coord_in_grid(grid, pairs[0].0) {
        let g2 = grid_write(grid, pairs[0].0, pairs[0].1);
        lemma_write_pairs_shape(g2, pairs.drop_first());
    } else {
    }
}

impl<T> Field<T> {
    /// Give up the field and hand its backing grid over.
    pub fn into_grid(self) -> (r: Vec<Vec<T>>)
        ensures
            r == self.data,
    {
        self.data
    }

    /// Borrow the backing grid.
    pub fn get_grid(&self) -> (r: &Vec<Vec<T>>)
        ensures
            *r == self.data,
    {
        &self.data
    }

    /// Replace the backing grid wholesale. The new grid is not validated:
    /// rows of unequal length leave the field malformed.
    pub fn set_grid(&mut self, grid: Vec<Vec<T>>)
        ensures
            final(self).data == grid,
    {
        self.data = grid;
    }

    /// The cell addressed by `coord`, or `None` when the coordinate lies
    /// outside the grid (including a short row of a malformed grid).
    pub fn get_value<'a>(&'a self, coord: Coordinate) -> (r: Option<&'a T>)
        ensures
            coord_in_grid(self.grid(), coord) ==> (r matches Some(v) && *v == self.cell(
                coord.row as int,
                coord.column as int,
            )),
            !coord_in_grid(self.grid(), coord) ==> r is None,
    {
        if coord.row < self.data.len() {
            let row = &self.data[coord.row];
            if coord.column < row.len() {
                Some(&row[coord.column])
            } else {
                None
            }
        } else {
            None
        }
    }

    /// Write `value` into the cell addressed by `coord`; an out-of-bounds
    /// coordinate is refused, row first, and leaves the field untouched.
    pub fn set_value(&mut self, coord: Coordinate, value: T) -> (r: Result<(), FieldError>)
        ensures
            coord_in_grid(old(self).grid(), coord) ==> r is Ok && final(self).grid() == grid_write(
                old(self).grid(),
                coord,
                value,
            ),
            coord.row >= old(self).grid().len() ==> r == Err::<(), FieldError>(
                FieldError::RowOutOfBounds,
            ) && *final(self) == *old(self),
            coord.row < old(self).grid().len() && coord.column >= old(self).grid()[
                coord.row as int
            ].len() ==> r == Err::<(), FieldError>(FieldError::ColumnOutOfBounds) && *final(self)
                == *old(self),
    {
        if coord.row < self.data.len() {
            if coord.column < self.data[coord.row].len() {
                let row = &mut self.data[coord.row];
                row.set(coord.column, value);
                proof {
                    assert(self.grid() =~= grid_write(old(self).grid(), coord, value));
                }
                Ok(())
            } else {
                Err(FieldError::ColumnOutOfBounds)
            }
        } else {
            Err(FieldError::RowOutOfBounds)
        }
    }

    /// Write the given coordinate/value pairs in order, stopping at the
    /// first coordinate that does not address a cell; pairs already written
    /// when a write fails are not rolled back.
    pub fn set_coordinate_iter(&mut self, coord_value_pairs: Vec<(Coordinate, T)>) -> (r: Result<
        (),
        FieldError,
    >)
        ensures
            final(self).grid() == spec_write_pairs(old(self).grid(), coord_value_pairs@),
            r == spec_write_pairs_result(old(self).grid(), coord_value_pairs@),
    {
        let ghost grid0 = old(self).grid();
        let ghost all = coord_value_pairs@;
        let mut pairs = coord_value_pairs;
        while pairs.len() > 0
            invariant
                grid0 == old(self).grid(),
                all == coord_value_pairs@,
                spec_write_pairs(grid0, all) == spec_write_pairs(self.grid(), pairs@),
                spec_write_pairs_result(grid0, all) == spec_write_pairs_result(
                    self.grid(),
                    pairs@,
                ),
            decreases pairs@.len(),
        {
            let ghost before = pairs@;
            let (coord, value) = pairs.remove(0);
            proof {
                assert(pairs@ =~= before.drop_first());
                assert(before[0] == (coord, value));
            }
            let ghost grid_before = self.grid();
            match self.set_value(coord, value) {
                Ok(()) => {
                    proof {
                        assert(spec_write_pairs(grid_before, before) == spec_write_pairs(
                            self.grid(),
                            pairs@,
                        ));
                    }
                },
                Err(e) => {
                    proof {
                        assert(before.len() > 0);
                        assert(!coord_in_grid(grid_before, coord));
                        assert(spec_write_pairs(grid_before, before) == grid_before);
                        assert(spec_write_pairs_result(grid_before, before) == Err::<
                            (),
                            FieldError,
                        >(e));
                        assert(spec_write_pairs(grid0, all) == spec_write_pairs(
                            grid_before,
                            before,
                        ));
                        assert(self.grid() == grid_before);
                    }
                    return Err(e);
                },
            }
        }
        Ok(())
    }

    /// Mutable access to the cell addressed by `coord`, or `None` when the
    /// coordinate lies outside the grid. Whatever the caller writes through
    /// the returned reference becomes the cell's value.
    pub fn value_mut<'a>(&'a mut self, coord: Coordinate) -> (r: Option<&'a mut T>)
        ensures
            !coord_in_grid(old(self).grid(), coord) ==> r is None && *final(self) == *old(self),
            coord_in_grid(old(self).grid(), coord) ==> (r matches Some(v) && *v == old(self).cell(
                coord.row as int,
                coord.column as int,
            ) && final(self).grid() == grid_write(old(self).grid(), coord, *final(v))),
    {
        if coord.row < self.data.len() {
            if coord.column < self.data[coord.row].len() {
                let row = &mut self.data[coord.row];
                let v = &mut row[coord.column];
                Some(v)
            } else {
                None
            }
        } else {
            None
        }
    }

    /// All cells in row-major order; flattening loses the 2d structure, but
    /// is occasionally what a caller wants.
    pub fn flat_value_iter<'a>(&'a self) -> (r: Vec<&'a T>)
        ensures
            r@.map_values(|t: &T| *t) == self.grid().flatten(),
    {
        let mut r: Vec<&'a T> = Vec::new();
        let mut i: usize = 0;
        while i < self.data.len()
            invariant
                0 <= i <= self.grid().len(),
                r@.map_values(|t: &T| *t) == self.grid().take(i as int).flatten(),
            decreases self.grid().len() - i,
        {
            let row = &self.data[i];
            let mut j: usize = 0;
            while j < row.len()
                invariant
                    0 <= i < self.grid().len(),
                    0 <= j <= self.grid()[i as int].len(),
                    *row == self.data@[i as int],
                    r@.map_values(|t: &T| *t) == self.grid().take(i as int).flatten() + self.grid()[
                        i as int
                    ].take(j as int),
                decreases self.grid()[i as int].len() - j,
            {
                let ghost prev = r@;
                let v = &row[j];
                r.push(v);
                proof {
                    assert(r@ == prev.push(v));
                    assert(r@.map_values(|t: &T| *t) =~= prev.map_values(|t: &T| *t).push(
                        self.grid()[i as int][j as int],
                    ));
                    assert((self.grid().take(i as int).flatten() + self.grid()[i as int].take(
                        j as int,
                    )).push(self.grid()[i as int][j as int]) =~= self.grid().take(
                        i as int,
                    ).flatten() + self.grid()[i as int].take(j + 1));
                }
                j = j + 1;
            }
            proof {
                broadcast use Seq::lemma_flatten_push;

                assert(self.grid().take(i as int).push(self.grid()[i as int]) =~= self.grid().take(
                    i + 1,
                ));
                assert(self.grid()[i as int].take(self.grid()[i as int].len() as int) =~= self.grid()[
                    i as int
                ]);
                assert(self.grid().take(i + 1).flatten() == self.grid().take(i as int).flatten()
                    + self.grid()[i as int]);
            }
            i = i + 1;
        }
        proof {
            assert(self.grid().take(self.grid().len() as int) =~= self.grid());
        }
        r
    }

    /// The values at the given coordinates, in order; a coordinate that does
    /// not address a cell contributes nothing.
    pub fn coodinate_iter_access<'a>(&'a self, coords: &Vec<Coordinate>) -> (r: Vec<&'a T>)
        ensures
            r@.map_values(|t: &T| *t) == spec_values_at(self.grid(), coords@),
    {
        let mut r: Vec<&'a T> = Vec::new();
        let mut k: usize = 0;
        while k < coords.len()
            invariant
                0 <= k <= coords@.len(),
                r@.map_values(|t: &T| *t) == spec_values_at(self.grid(), coords@.take(k as int)),
            decreases coords@.len() - k,
        {
            let coord = coords[k];
            proof {
                assert(coords@.take(k + 1).drop_last() =~= coords@.take(k as int));
                assert(coords@.take(k + 1).last() == coord);
            }
            match self.get_value(coord) {
                Some(v) => {
                    r.push(v);
                    proof {
                        assert(r@.map_values(|t: &T| *t) =~= spec_values_at(
                            self.grid(),
                            coords@.take(k + 1),
                        ));
                    }
                },
                None => {
                    proof {
                        assert(r@.map_values(|t: &T| *t) =~= spec_values_at(
                            self.grid(),
                            coords@.take(k + 1),
                        ));
                    }
                },
            }
            k = k + 1;
        }
        proof {
            assert(coords@.take(coords@.len() as int) =~= coords@);
        }
        r
    }
}

} // verus!
