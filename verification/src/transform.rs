//! Cell-wise and line-wise transforms: mapping a field into a new one,
//! merging two fields, and merging supplied values into a single line.

use vstd::prelude::*;

use crate::access::spec_write_pairs;
use crate::access::spec_write_pairs_result;
use crate::helpers::Direction;
use crate::Field;
use crate::FieldError;

verus! {

/// Whether `m` is a possible element-wise merge of `values` with
/// `supplied`: the pairing stops at the shorter side, and each element is
/// something the merge could return for its pair.
pub open spec fn spec_merged_values<T, F: Fn(&T, T) -> T>(
    merge: F,
    values: Seq<T>,
    supplied: Seq<T>,
    m: Seq<T>,
) -> bool {
    &&& m.len() == (if values.len() <= supplied.len() {
        values.len()
    } else {
        supplied.len()
    })
    &&& forall|k: int|
        0 <= k < m.len() ==> call_ensures(merge, (&values[k], supplied[k]), #[trigger] m[k])
}

/// Whether `row` is a possible transform of line `k` of `f`: some vector
/// holding the line's values was handed to the transform, and `row` is what
/// it returned.
pub open spec fn spec_transformed_line<T, R, F: Fn(Vec<&T>) -> Vec<R>>(
    f: Field<T>,
    transform: F,
    direction: Direction,
    k: int,
    row: Seq<R>,
) -> bool {
    exists|v: Vec<&T>, w: Vec<R>|
        #![trigger call_ensures(transform, (v,), w)]
        v@.map_values(|t: &T| *t) == f.spec_line_values(direction, k) && w@ == row && call_ensures(
            transform,
            (v,),
            w,
        )
}

/// Whether a sequence of produced lines forms a rectangle: every line has
/// the length of the first. A sequence with no lines does, trivially.
pub open spec fn spec_lines_rectangular<R>(rows: Seq<Seq<R>>) -> bool {
    forall|k: int| 0 <= k < rows.len() ==> (#[trigger] rows[k]).len() == rows[0].len()
}

/// Whether `rows` is a possible output of transforming every line of a
/// direction of `f`: one row per line, each row something the transform
/// could return for its line.
pub open spec fn spec_transformed_rows<T, R, F: Fn(Vec<&T>) -> Vec<R>>(
    f: Field<T>,
    transform: F,
    direction: Direction,
    rows: Seq<Seq<R>>,
) -> bool {
    &&& rows.len() == f.spec_number_of_lines(direction)
    &&& forall|k: int|
        0 <= k < rows.len() ==> spec_transformed_line(f, transform, direction, k, #[trigger] rows[k])
}

/// Whether every row fits the width deduced from the first.
fn lines_fit<R>(rows: &Vec<Vec<R>>) -> (r: bool)
    ensures
        r == spec_lines_rectangular(rows@.map_values(|v: Vec<R>| v@)),
{
    if rows.len() == 0 {
        proof {
            assert(spec_lines_rectangular(rows@.map_values(|v: Vec<R>| v@)));
        }
        true
    } else {
        let width0 = rows[0].len();
        let mut ok = true;
        let mut k: usize = 1;
        while k < rows.len()
            invariant
                rows@.len() > 0,
                width0 == rows@[0]@.len(),
                1 <= k <= rows@.len(),
                ok == (forall|i: int| 0 <= i < k ==> (#[trigger] rows@[i])@.len() == rows@[0]@.len()),
            decreases rows@.len() - k,
        {
            if rows[k].len() != width0 {
                ok = false;
            }
            k = k + 1;
        }
        proof {
            let mapped = rows@.map_values(|v: Vec<R>| v@);
            if ok {
                assert forall|i: int| 0 <= i < mapped.len() implies (#[trigger] mapped[i]).len()
                    == mapped[0].len() by {
                    assert(mapped[i] == rows@[i]@);
                }
            } else {
                let bad = choose|i: int| 0 <= i < rows@.len() && (#[trigger] rows@[i])@.len()
                    != rows@[0]@.len();
                assert(mapped[bad].len() != mapped[0].len());
            }
        }
        ok
    }
}

impl<T> Field<T> {
    /// A new field of the same shape whose every cell is the transform of
    /// the corresponding cell of this one, which is consumed.
    pub fn transform_all<F, R>(self, transform: F) -> (r: Field<R>) where F: Fn(T) -> R
        requires
            forall|i: int, j: int|
                #![trigger self.grid()[i][j]]
                0 <= i < self.grid().len() && 0 <= j < self.grid()[i].len() ==> call_requires(
                    transform,
                    (self.grid()[i][j],),
                ),
        ensures
            r.grid().len() == self.grid().len(),
            forall|i: int|
                0 <= i < self.grid().len() ==> (#[trigger] r.grid()[i]).len()
                    == self.grid()[i].len(),
            forall|i: int, j: int|
                #![trigger r.grid()[i][j]]
                0 <= i < self.grid().len() && 0 <= j < self.grid()[i].len() ==> call_ensures(
                    transform,
                    (self.grid()[i][j],),
                    r.grid()[i][j],
                ),
    {
        let ghost g = self.grid();
        let mut rows = self.into_grid();
        let total: usize = rows.len();
        let mut out: Vec<Vec<R>> = Vec::new();
        while rows.len() > 0
            invariant
                g == self.grid(),
                g.len() == total,
                forall|i: int, j: int|
                    #![trigger g[i][j]]
                    0 <= i < g.len() && 0 <= j < g[i].len() ==> call_requires(
                        transform,
                        (g[i][j],),
                    ),
                out@.len() + rows@.len() == g.len(),
                forall|k: int|
                    0 <= k < rows@.len() ==> (#[trigger] rows@[k])@ == g[out@.len() + k],
                forall|k: int|
                    0 <= k < out@.len() ==> (#[trigger] out@[k])@.len() == g[k].len(),
                forall|k: int, j: int|
                    #![trigger out@[k]@[j]]
                    0 <= k < out@.len() && 0 <= j < g[k].len() ==> call_ensures(
                        transform,
                        (g[k][j],),
                        out@[k]@[j],
                    ),
            decreases rows@.len(),
        {
            let ghost i: int = out@.len() as int;
            let ghost rows_before = rows@;
            let row = rows.remove(0);
            proof {
                assert(rows@ =~= rows_before.drop_first());
                assert(row@ == g[i]);
            }
            let mut cells = row;
            let row_len: usize = cells.len();
            let mut new_row: Vec<R> = Vec::new();
            while cells.len() > 0
                invariant
                    g == self.grid(),
                    0 <= i < g.len(),
                    g[i].len() == row_len,
                    forall|a: int, b: int|
                        #![trigger g[a][b]]
                        0 <= a < g.len() && 0 <= b < g[a].len() ==> call_requires(
                            transform,
                            (g[a][b],),
                        ),
                    new_row@.len() + cells@.len() == g[i].len(),
                    forall|k: int|
                        0 <= k < cells@.len() ==> #[trigger] cells@[k] == g[i][new_row@.len() + k],
                    forall|k: int|
                        0 <= k < new_row@.len() ==> call_ensures(
                            transform,
                            (g[i][k],),
                            #[trigger] new_row@[k],
                        ),
                decreases cells@.len(),
            {
                let ghost cells_before = cells@;
                let c = cells.remove(0);
                proof {
                    assert(cells@ =~= cells_before.drop_first());
                }
                new_row.push(transform(c));
            }
            out.push(new_row);
        }
        Field::<R>::new_from_grid(out)
    }

    /// A new field assembled from transforming every line of a direction:
    /// line `k` of the direction becomes row `k` of the result, as the
    /// transform returned it. The result's width is deduced from the first
    /// produced line (a field with no lines deduces it trivially and yields
    /// the empty field); if any produced line does not fit that width, the
    /// result is absent. The source is consumed.
    pub fn transform_by_line<F, R>(self, direction: Direction, transform: F) -> (r: Option<
        Field<R>,
    >) where F: Fn(Vec<&T>) -> Vec<R>
        requires
            self.lines_countable(direction),
            direction == Direction::AntiDiagonal ==> self.anti_diagonal_starts_ok(),
            forall|v: Vec<&T>, k: int|
                #![trigger call_requires(transform, (v,)), self.spec_line_values(direction, k)]
                0 <= k < self.spec_number_of_lines(direction) && v@.map_values(|t: &T| *t)
                    == self.spec_line_values(direction, k) ==> call_requires(transform, (v,)),
        ensures
            exists|rows: Seq<Seq<R>>|
                #![trigger spec_transformed_rows(self, transform, direction, rows)]
                {
                    &&& spec_transformed_rows(self, transform, direction, rows)
                    &&& (spec_lines_rectangular(rows) ==> (r matches Some(f2) && f2.grid()
                        == rows))
                    &&& (!spec_lines_rectangular(rows) ==> r is None)
                },
    {
        let lines = self.get_all_lines_iter(direction);
        let ghost all = lines@;
        let mut remaining = lines;
        let mut out: Vec<Vec<R>> = Vec::new();
        while remaining.len() > 0
            invariant
                self.lines_countable(direction),
                forall|v: Vec<&T>, k: int|
                    #![trigger call_requires(transform, (v,)), self.spec_line_values(direction, k)]
                    0 <= k < self.spec_number_of_lines(direction) && v@.map_values(|t: &T| *t)
                        == self.spec_line_values(direction, k) ==> call_requires(transform, (v,)),
                all.len() == self.spec_number_of_lines(direction),
                forall|k: int|
                    0 <= k < all.len() ==> (#[trigger] all[k])@.map_values(|t: &T| *t)
                        == self.spec_line_values(direction, k),
                out@.len() + remaining@.len() == all.len(),
                forall|k: int|
                    0 <= k < remaining@.len() ==> #[trigger] remaining@[k] == all[out@.len() + k],
                forall|k: int|
                    0 <= k < out@.len() ==> spec_transformed_line(
                        self,
                        transform,
                        direction,
                        k,
                        (#[trigger] out@[k])@,
                    ),
            decreases remaining@.len(),
        {
            let ghost i: int = out@.len() as int;
            let ghost rem_before = remaining@;
            let line = remaining.remove(0);
            let ghost vwit = line;
            proof {
                assert(remaining@ =~= rem_before.drop_first());
                assert(vwit == all[i]);
            }
            let w = transform(line);
            let ghost wwit = w;
            out.push(w);
            proof {
                assert(call_ensures(transform, (vwit,), wwit));
                assert(spec_transformed_line(self, transform, direction, i, wwit@));
                assert(out@[i]@ == wwit@);
            }
        }
        let ghost produced = out@.map_values(|v: Vec<R>| v@);
        proof {
            assert(produced.len() == self.spec_number_of_lines(direction));
            assert forall|k: int| 0 <= k < produced.len() implies spec_transformed_line(
                self,
                transform,
                direction,
                k,
                #[trigger] produced[k],
            ) by {
                assert(produced[k] == out@[k]@);
            }
            assert(spec_transformed_rows(self, transform, direction, produced));
        }
        if lines_fit(&out) {
            let result = Field::<R>::new_from_grid(out);
            proof {
                assert(result.grid() =~= produced);
            }
            Some(result)
        } else {
            None
        }
    }

    /// A new field whose rows pair this field's rows with `other`'s, and
    /// whose cells merge the paired cells; pairing stops at the shorter
    /// side, row-wise and cell-wise. Both sources are consumed.
    pub fn merge_field<F, O, R>(self, other: Field<O>, merge: F) -> (r: Field<R>) where F: Fn(
        T,
        O,
    ) -> R
        requires
            forall|i: int, j: int|
                #![trigger self.grid()[i][j], other.grid()[i][j]]
                0 <= i < self.grid().len() && i < other.grid().len() && 0 <= j < self.grid()[
                    i
                ].len() && j < other.grid()[i].len() ==> call_requires(
                    merge,
                    (self.grid()[i][j], other.grid()[i][j]),
                ),
        ensures
            r.grid().len() == (if self.grid().len() <= other.grid().len() {
                self.grid().len()
            } else {
                other.grid().len()
            }),
            forall|i: int|
                0 <= i < r.grid().len() ==> (#[trigger] r.grid()[i]).len() == (if self.grid()[
                    i
                ].len() <= other.grid()[i].len() {
                    self.grid()[i].len()
                } else {
                    other.grid()[i].len()
                }),
            forall|i: int, j: int|
                #![trigger r.grid()[i][j]]
                0 <= i < r.grid().len() && 0 <= j < r.grid()[i].len() ==> call_ensures(
                    merge,
                    (self.grid()[i][j], other.grid()[i][j]),
                    r.grid()[i][j],
                ),
    {
        let ghost ga = self.grid();
        let ghost gb = other.grid();
        let mut rows_a = self.into_grid();
        let mut rows_b = other.into_grid();
        let mut out: Vec<Vec<R>> = Vec::new();
        while rows_a.len() > 0 && rows_b.len() > 0
            invariant
                ga == self.grid(),
                gb == other.grid(),
                forall|i: int, j: int|
                    #![trigger ga[i][j], gb[i][j]]
                    0 <= i < ga.len() && i < gb.len() && 0 <= j < ga[i].len() && j < gb[i].len()
                        ==> call_requires(merge, (ga[i][j], gb[i][j])),
                out@.len() + rows_a@.len() == ga.len(),
                out@.len() + rows_b@.len() == gb.len(),
                forall|k: int|
                    0 <= k < rows_a@.len() ==> (#[trigger] rows_a@[k])@ == ga[out@.len() + k],
                forall|k: int|
                    0 <= k < rows_b@.len() ==> (#[trigger] rows_b@[k])@ == gb[out@.len() + k],
                forall|k: int|
                    0 <= k < out@.len() ==> (#[trigger] out@[k])@.len() == (if ga[k].len() <= gb[
                        k
                    ].len() {
                        ga[k].len()
                    } else {
                        gb[k].len()
                    }),
                forall|k: int, j: int|
                    #![trigger out@[k]@[j]]
                    0 <= k < out@.len() && 0 <= j < out@[k]@.len() ==> call_ensures(
                        merge,
                        (ga[k][j], gb[k][j]),
                        out@[k]@[j],
                    ),
            decreases rows_a@.len(),
        {
            let ghost i: int = out@.len() as int;
            let ghost a_before = rows_a@;
            let ghost b_before = rows_b@;
            let row_a = rows_a.remove(0);
            let row_b = rows_b.remove(0);
            proof {
                assert(rows_a@ =~= a_before.drop_first());
                assert(rows_b@ =~= b_before.drop_first());
                assert(row_a@ == ga[i]);
                assert(row_b@ == gb[i]);
            }
            let mut cells_a = row_a;
            let mut cells_b = row_b;
            let mut new_row: Vec<R> = Vec::new();
            while cells_a.len() > 0 && cells_b.len() > 0
                invariant
                    ga == self.grid(),
                    gb == other.grid(),
                    0 <= i < ga.len(),
                    i < gb.len(),
                    forall|a: int, b: int|
                        #![trigger ga[a][b], gb[a][b]]
                        0 <= a < ga.len() && a < gb.len() && 0 <= b < ga[a].len() && b < gb[
                            a
                        ].len() ==> call_requires(merge, (ga[a][b], gb[a][b])),
                    new_row@.len() + cells_a@.len() == ga[i].len(),
                    new_row@.len() + cells_b@.len() == gb[i].len(),
                    forall|k: int|
                        0 <= k < cells_a@.len() ==> #[trigger] cells_a@[k] == ga[i][new_row@.len()
                            + k],
                    forall|k: int|
                        0 <= k < cells_b@.len() ==> #[trigger] cells_b@[k] == gb[i][new_row@.len()
                            + k],
                    forall|k: int|
                        0 <= k < new_row@.len() ==> call_ensures(
                            merge,
                            (ga[i][k], gb[i][k]),
                            #[trigger] new_row@[k],
                        ),
                decreases cells_a@.len(),
            {
                let ghost a_cells_before = cells_a@;
                let ghost b_cells_before = cells_b@;
                let ca = cells_a.remove(0);
                let cb = cells_b.remove(0);
                proof {
                    assert(cells_a@ =~= a_cells_before.drop_first());
                    assert(cells_b@ =~= b_cells_before.drop_first());
                }
                new_row.push(merge(ca, cb));
            }
            out.push(new_row);
        }
        Field::<R>::new_from_grid(out)
    }

    /// Merge supplied values into line `index` of a direction: each value
    /// along the line is merged with the supplied value of the same
    /// position, and the merged line is written back under the line-write
    /// rules, so a merged line shorter than the write's targets is refused
    /// and leaves the field untouched.
    pub fn merge_line<F>(
        &mut self,
        direction: Direction,
        index: usize,
        line: Vec<T>,
        transform: F,
    ) -> (r: Result<(), FieldError>) where F: Fn(&T, T) -> T
        requires
            old(self).lines_countable(direction),
            direction == Direction::AntiDiagonal ==> old(self).anti_diagonal_starts_ok(),
            forall|k: int|
                #![trigger line@[k]]
                0 <= k < old(self).spec_line_values(direction, index as int).len() && k
                    < line@.len() ==> call_requires(
                    transform,
                    (&old(self).spec_line_values(direction, index as int)[k], line@[k]),
                ),
        ensures
            index >= old(self).spec_number_of_lines(direction) ==> r == Err::<(), FieldError>(
                FieldError::LineIndexOutOfBounds,
            ) && *final(self) == *old(self),
            index < old(self).spec_number_of_lines(direction) ==> exists|m: Seq<T>|
                #![trigger spec_merged_values(transform, old(self).spec_line_values(direction, index as int), line@, m)]
                {
                    &&& spec_merged_values(
                        transform,
                        old(self).spec_line_values(direction, index as int),
                        line@,
                        m,
                    )
                    &&& if m.len() < old(self).spec_line_targets(direction, index as int).len() {
                        r == Err::<(), FieldError>(FieldError::LineLengthMismatch) && *final(self)
                            == *old(self)
                    } else {
                        final(self).grid() == spec_write_pairs(
                            old(self).grid(),
                            old(self).spec_line_write_pairs(direction, index as int, m),
                        ) && r == spec_write_pairs_result(
                            old(self).grid(),
                            old(self).spec_line_write_pairs(direction, index as int, m),
                        )
                    }
                },
    {
        let ghost values = old(self).spec_line_values(direction, index as int);
        let line_refs = match self.get_line_iter(direction, index) {
            None => {
                return Err(FieldError::LineIndexOutOfBounds);
            },
            Some(v) => v,
        };
        let mut merged: Vec<T> = Vec::new();
        let mut rest = line;
        let mut k: usize = 0;
        while k < line_refs.len() && rest.len() > 0
            invariant
                values == old(self).spec_line_values(direction, index as int),
                line_refs@.map_values(|t: &T| *t) == values,
                forall|j: int|
                    #![trigger line@[j]]
                    0 <= j < values.len() && j < line@.len() ==> call_requires(
                        transform,
                        (&values[j], line@[j]),
                    ),
                0 <= k <= line_refs@.len(),
                k <= line@.len(),
                merged@.len() == k,
                rest@ == line@.skip(k as int),
                forall|j: int|
                    0 <= j < k ==> call_ensures(
                        transform,
                        (&values[j], line@[j]),
                        #[trigger] merged@[j],
                    ),
            decreases line_refs@.len() - k,
        {
            let ghost rest_before = rest@;
            let v = rest.remove(0);
            proof {
                assert(rest@ =~= line@.skip(k + 1));
                assert(v == line@[k as int]);
                assert(*line_refs@[k as int] == values[k as int]);
            }
            let cell = line_refs[k];
            merged.push(transform(cell, v));
            k = k + 1;
        }
        let ghost m = merged@;
        proof {
            assert(m.len() == (if values.len() <= line@.len() {
                values.len()
            } else {
                line@.len()
            }));
            assert(spec_merged_values(transform, values, line@, m));
        }
        let result = self.set_line_iter(direction, index, merged);
        result
    }
}

} // verus!
