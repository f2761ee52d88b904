//! Compressed Sparse Row (CSR) and coordinate (COO) storage of a sparse matrix.
//!
//! The storage is generic in the entry type; which entries count as zero and how
//! coinciding entries combine is decided by the numeric code that owns the values.
use vstd::prelude::*;

use crate::error::FemError;

verus! {

// ---------------------------------------------------------------------------
// One sparse row: `(column, value)` pairs with strictly increasing columns.
// ---------------------------------------------------------------------------

/// The columns of `row` strictly increase.
pub open spec fn sorted_row<V>(row: Seq<(usize, V)>) -> bool {
    forall|i: int, j: int| 0 <= i < j < row.len() ==> row[i].0 < row[j].0
}

/// The number of leading entries whose column is below `column`; for a sorted row,
/// the position where `column` is or would be inserted.
pub open spec fn lower_bound<V>(row: Seq<(usize, V)>, column: usize) -> int
    decreases row.len(),
{
    if row.len() == 0 {
        0
    } else if row.last().0 < column {
        row.len() as int
    } else {
        lower_bound(row.drop_last(), column)
    }
}

/// The value stored in `row` at `column`, if any.
pub open spec fn row_lookup<V>(row: Seq<(usize, V)>, column: usize) -> Option<V> {
    let i = lower_bound(row, column);
    if i < row.len() && row[i].0 == column {
        Some(row[i].1)
    } else {
        None
    }
}

/// `row` with the value at `column` set to `value`, inserted in column order when absent.
pub open spec fn row_set<V>(row: Seq<(usize, V)>, column: usize, value: V) -> Seq<(usize, V)> {
    let i = lower_bound(row, column);
    if i < row.len() && row[i].0 == column {
        row.update(i, (column, value))
    } else {
        row.insert(i, (column, value))
    }
}

/// `row` without an entry at `column`.
pub open spec fn row_remove<V>(row: Seq<(usize, V)>, column: usize) -> Seq<(usize, V)> {
    let i = lower_bound(row, column);
    if i < row.len() && row[i].0 == column {
        row.remove(i)
    } else {
        row
    }
}

/// For a sorted row, a position that separates smaller columns from the others is
/// the lower bound.
pub proof fn lemma_lower_bound_unique<V>(row: Seq<(usize, V)>, column: usize, i: int)
    requires
        sorted_row(row),
        0 <= i <= row.len(),
        forall|j: int| 0 <= j < i ==> (#[trigger] row[j]).0 < column,
        forall|j: int| i <= j < row.len() ==> (#[trigger] row[j]).0 >= column,
    ensures
        lower_bound(row, column) == i,
    decreases row.len(),
{
    if row.len() > 0 {
        if i == row.len() {
            assert(row[row.len() - 1].0 < column);
        } else {
            assert(row.last().0 >= column);
            let prev = row.drop_last();
            assert forall|j: int| 0 <= j < i implies (#[trigger] prev[j]).0 < column by {
                assert(prev[j] == row[j]);
            }
            assert forall|j: int| i <= j < prev.len() implies (#[trigger] prev[j]).0 >= column by {
                assert(prev[j] == row[j]);
            }
            lemma_lower_bound_unique(prev, column, i);
        }
    }
}

/// The lower bound of a sorted row separates smaller columns from the others.
pub proof fn lemma_lower_bound_bounds<V>(row: Seq<(usize, V)>, column: usize)
    requires
        sorted_row(row),
    ensures
        0 <= lower_bound(row, column) <= row.len(),
        forall|j: int| 0 <= j < lower_bound(row, column) ==> (#[trigger] row[j]).0 < column,
        forall|j: int| lower_bound(row, column) <= j < row.len() ==> (#[trigger] row[j]).0 >= column,
    decreases row.len(),
{
    if row.len() > 0 {
        let prev = row.drop_last();
        lemma_lower_bound_bounds(prev, column);
        if row.last().0 >= column {
            let i = lower_bound(prev, column);
            assert forall|j: int| 0 <= j < i implies (#[trigger] row[j]).0 < column by {
                assert(prev[j] == row[j]);
            }
            assert forall|j: int| i <= j < row.len() implies (#[trigger] row[j]).0 >= column by {
                if j < prev.len() {
                    assert(prev[j] == row[j]);
                }
            }
        }
    }
}

/// A column is present exactly when some entry has it, and then the lookup gives that
/// entry's value.
pub proof fn lemma_row_lookup_entry<V>(row: Seq<(usize, V)>, column: usize)
    requires
        sorted_row(row),
    ensures
        row_lookup(row, column) is Some <==> exists|j: int| 0 <= j < row.len() && (#[trigger] row[j]).0 == column,
        forall|j: int| 0 <= j < row.len() && (#[trigger] row[j]).0 == column ==> row_lookup(row, column) == Some(row[j].1),
{
    lemma_lower_bound_bounds(row, column);
    let i = lower_bound(row, column);
    assert forall|j: int| 0 <= j < row.len() && (#[trigger] row[j]).0 == column implies row_lookup(row, column)
        == Some(row[j].1) by {
        if j != i {
            if j < i {
            } else {
                assert(i < row.len());
                assert(row[i].0 < row[j].0);
            }
        }
    }
}

/// Setting a value keeps the row sorted, makes the value readable at its column and
/// leaves the other columns unchanged.
pub proof fn lemma_row_set<V>(row: Seq<(usize, V)>, column: usize, value: V)
    requires
        sorted_row(row),
    ensures
        sorted_row(row_set(row, column, value)),
        row_lookup(row_set(row, column, value), column) == Some(value),
        forall|other: usize|
            other != column ==> row_lookup(row_set(row, column, value), other) == row_lookup(row, other),
{
    lemma_lower_bound_bounds(row, column);
    let i = lower_bound(row, column);
    let next = row_set(row, column, value);
    if i < row.len() && row[i].0 == column {
        assert forall|a: int, b: int| 0 <= a < b < next.len() implies next[a].0 < next[b].0 by {
            assert(next[a].0 == row[a].0 && next[b].0 == row[b].0);
        }
    } else {
        assert forall|a: int, b: int| 0 <= a < b < next.len() implies next[a].0 < next[b].0 by {
            if a < i && b < i {
                assert(next[a] == row[a] && next[b] == row[b]);
            } else if a < i && b == i {
                assert(next[a] == row[a]);
            } else if a < i {
                assert(next[a] == row[a] && next[b] == row[b - 1]);
            } else if a == i {
                assert(next[b] == row[b - 1]);
                assert(row[b - 1].0 >= column);
                assert(row[b - 1].0 != column || b - 1 != i);
                if b - 1 == i {
                } else {
                    assert(row[i].0 < row[b - 1].0);
                }
            } else {
                assert(next[a] == row[a - 1] && next[b] == row[b - 1]);
            }
        }
    }
    lemma_row_lookup_entry(next, column);
    let k = if i < row.len() && row[i].0 == column {
        i
    } else {
        i
    };
    assert(next[k].0 == column && next[k].1 == value);
    assert forall|other: usize| other != column implies row_lookup(next, other) == row_lookup(row, other) by {
        lemma_row_lookup_entry(next, other);
        lemma_row_lookup_entry(row, other);
        if row_lookup(row, other) is Some {
            let j = choose|j: int| 0 <= j < row.len() && (#[trigger] row[j]).0 == other;
            if i < row.len() && row[i].0 == column {
                assert(next[j] == row[j]);
            } else if j < i {
                assert(next[j] == row[j]);
            } else {
                assert(next[j + 1] == row[j]);
            }
        }
        if row_lookup(next, other) is Some {
            let j = choose|j: int| 0 <= j < next.len() && (#[trigger] next[j]).0 == other;
            if i < row.len() && row[i].0 == column {
                assert(next[j] == row[j]);
            } else if j < i {
                assert(next[j] == row[j]);
            } else {
                assert(j != i);
                assert(next[j] == row[j - 1]);
            }
        }
    }
}

/// Removing a column keeps the row sorted, leaves nothing at that column and the other
/// columns unchanged.
pub proof fn lemma_row_remove<V>(row: Seq<(usize, V)>, column: usize)
    requires
        sorted_row(row),
    ensures
        sorted_row(row_remove(row, column)),
        row_lookup(row_remove(row, column), column) is None,
        forall|other: usize|
            other != column ==> row_lookup(row_remove(row, column), other) == row_lookup(row, other),
{
    lemma_lower_bound_bounds(row, column);
    let i = lower_bound(row, column);
    let next = row_remove(row, column);
    if i < row.len() && row[i].0 == column {
        assert forall|a: int, b: int| 0 <= a < b < next.len() implies next[a].0 < next[b].0 by {
            if a < i && b < i {
                assert(next[a] == row[a] && next[b] == row[b]);
            } else if a < i {
                assert(next[a] == row[a] && next[b] == row[b + 1]);
            } else {
                assert(next[a] == row[a + 1] && next[b] == row[b + 1]);
            }
        }
    }
    lemma_row_lookup_entry(next, column);
    if row_lookup(next, column) is Some {
        let j = choose|j: int| 0 <= j < next.len() && (#[trigger] next[j]).0 == column;
        if i < row.len() && row[i].0 == column {
            if j < i {
                assert(next[j] == row[j]);
            } else {
                assert(next[j] == row[j + 1]);
                assert(row[i].0 < row[j + 1].0);
            }
        } else {
            lemma_row_lookup_entry(row, column);
        }
    }
    assert forall|other: usize| other != column implies row_lookup(next, other) == row_lookup(row, other) by {
        lemma_row_lookup_entry(next, other);
        lemma_row_lookup_entry(row, other);
        if row_lookup(row, other) is Some {
            let j = choose|j: int| 0 <= j < row.len() && (#[trigger] row[j]).0 == other;
            if i < row.len() && row[i].0 == column {
                if j < i {
                    assert(next[j] == row[j]);
                } else {
                    assert(j != i);
                    assert(next[j - 1] == row[j]);
                }
            }
        }
        if row_lookup(next, other) is Some {
            let j = choose|j: int| 0 <= j < next.len() && (#[trigger] next[j]).0 == other;
            if i < row.len() && row[i].0 == column {
                if j < i {
                    assert(next[j] == row[j]);
                } else {
                    assert(next[j] == row[j + 1]);
                }
            }
        }
    }
}

// ---------------------------------------------------------------------------
// CSR storage
// ---------------------------------------------------------------------------

/// The entry positions `(rows[k], cols[k])` strictly increase in row-major order.
pub open spec fn row_major_sorted(rows: Seq<usize>, cols: Seq<usize>) -> bool {
    forall|i: int, j: int|
        0 <= i < j < rows.len() ==> rows[i] < rows[j] || (rows[i] == rows[j] && cols[i] < cols[j])
}

/// A sparse matrix in Compressed Sparse Row format: `row_offsets` has `nrows + 1`
/// entries, and the entries of row `r` are at positions `row_offsets[r]` up to, not
/// including, `row_offsets[r + 1]` of `column_indices` and `values`.
#[derive(Debug, Clone)]
pub struct CsrMatrix<V> {
    nrows: usize,
    ncols: usize,
    row_offsets: Vec<usize>,
    column_indices: Vec<usize>,
    values: Vec<V>,
}

impl<V: Copy> CsrMatrix<V> {
    /// Number of rows.
    pub closed spec fn spec_nrows(&self) -> usize {
        self.nrows
    }

    /// Number of columns.
    pub closed spec fn spec_ncols(&self) -> usize {
        self.ncols
    }

    /// Row offsets.
    pub closed spec fn spec_offsets(&self) -> Seq<usize> {
        self.row_offsets@
    }

    /// Column index of every stored entry.
    pub closed spec fn spec_columns(&self) -> Seq<usize> {
        self.column_indices@
    }

    /// Value of every stored entry.
    pub closed spec fn spec_values(&self) -> Seq<V> {
        self.values@
    }

    /// The stored entries of row `r` as `(column, value)` pairs in storage order.
    pub open spec fn spec_row(&self, r: int) -> Seq<(usize, V)> {
        let off = self.spec_offsets();
        Seq::new(
            (off[r + 1] - off[r]) as nat,
            |i: int| (self.spec_columns()[off[r] + i], self.spec_values()[off[r] + i]),
        )
    }

    /// The stored entries, row by row.
    pub open spec fn spec_rows(&self) -> Seq<Seq<(usize, V)>> {
        Seq::new(self.spec_nrows() as nat, |r: int| self.spec_row(r))
    }

    /// The value stored at `(row, column)`, if any.
    pub open spec fn spec_lookup(&self, row: usize, column: usize) -> Option<V> {
        row_lookup(self.spec_row(row as int), column)
    }

    /// Offsets delimit the rows, columns are within bounds and strictly increase
    /// inside every row, and every entry has a value.
    pub open spec fn well_formed(&self) -> bool {
        let off = self.spec_offsets();
        let n = self.spec_nrows() as int;
        &&& off.len() == n + 1
        &&& off[0] == 0
        &&& off[n] == self.spec_columns().len()
        &&& self.spec_values().len() == self.spec_columns().len()
        &&& forall|a: int, b: int| 0 <= a <= b <= n ==> #[trigger] off[a] <= #[trigger] off[b]
        &&& forall|r: int| 0 <= r < n ==> sorted_row(#[trigger] self.spec_row(r))
        &&& forall|k: int| 0 <= k < self.spec_columns().len() ==> #[trigger] self.spec_columns()[k] < self.spec_ncols()
    }

    /// In a matrix whose offsets delimit the row-major sorted entry rows `rs`, with
    /// columns `cs` and values `vs`, a position holds exactly the value of the entry
    /// at that position.
    proof fn lemma_lookup_of_sorted_entries(&self, rs: Seq<usize>, cs: Seq<usize>, vs: Seq<V>)
        requires
            self.well_formed(),
            self.spec_columns() == cs,
            self.spec_values() == vs,
            rs.len() == cs.len(),
            forall|r: int|
                0 <= r <= self.spec_nrows() ==> {
                    let o = #[trigger] self.spec_offsets()[r];
                    &&& o <= rs.len()
                    &&& forall|k: int| 0 <= k < o ==> rs[k] < r
                    &&& forall|k: int| o <= k < rs.len() ==> rs[k] >= r
                },
        ensures
            forall|r: usize, c: usize, v: V|
                r < self.spec_nrows() ==> (self.spec_lookup(r, c) == Some(v) <==> exists|k: int|
                    0 <= k < rs.len() && #[trigger] rs[k] == r && cs[k] == c && vs[k] == v),
    {
        assert forall|r: usize, c: usize, v: V| r < self.spec_nrows() implies (self.spec_lookup(r, c) == Some(v)
            <==> exists|k: int| 0 <= k < rs.len() && #[trigger] rs[k] == r && cs[k] == c && vs[k] == v) by {
            let row = self.spec_row(r as int);
            let o = self.spec_offsets();
            assert(o[r as int] <= o[r + 1]);
            assert(o[r + 1] <= o[self.spec_nrows() as int]);
            assert(sorted_row(row));
            lemma_row_lookup_entry(row, c);
            if self.spec_lookup(r, c) == Some(v) {
                let j = choose|j: int| 0 <= j < row.len() && (#[trigger] row[j]).0 == c;
                let k = o[r as int] + j;
                assert(rs[k] >= r && rs[k] < r + 1);
                assert(rs[k] == r && cs[k] == c && vs[k] == v);
            }
            if exists|k: int| 0 <= k < rs.len() && #[trigger] rs[k] == r && cs[k] == c && vs[k] == v {
                let k = choose|k: int| 0 <= k < rs.len() && #[trigger] rs[k] == r && cs[k] == c && vs[k] == v;
                assert(o[r as int] <= k < o[r + 1]);
                let j = k - o[r as int];
                assert(row[j] == (c, v));
            }
        }
    }

    /// Builds a CSR matrix from entries sorted in row-major order with no position
    /// repeated; the column and value arrays are taken over as they are.
    pub fn from_sorted_entries(
        nrows: usize,
        ncols: usize,
        rows: Vec<usize>,
        columns: Vec<usize>,
        values: Vec<V>,
    ) -> (m: Self)
        requires
            rows@.len() == columns@.len(),
            values@.len() == columns@.len(),
            nrows < usize::MAX,
            forall|k: int| 0 <= k < rows@.len() ==> #[trigger] rows@[k] < nrows && columns@[k] < ncols,
            row_major_sorted(rows@, columns@),
        ensures
            m.well_formed(),
            m.spec_nrows() == nrows,
            m.spec_ncols() == ncols,
            m.spec_columns() == columns@,
            m.spec_values() == values@,
            forall|r: int|
                0 <= r <= nrows ==> {
                    let o = #[trigger] m.spec_offsets()[r];
                    &&& o <= rows@.len()
                    &&& forall|k: int| 0 <= k < o ==> rows@[k] < r
                    &&& forall|k: int| o <= k < rows@.len() ==> rows@[k] >= r
                },
            forall|r: usize, c: usize, v: V|
                r < nrows ==> (m.spec_lookup(r, c) == Some(v) <==> exists|k: int|
                    0 <= k < rows@.len() && #[trigger] rows@[k] == r && columns@[k] == c && values@[k] == v),
    {
        let ghost rs = rows@;
        let ghost cs = columns@;
        let ghost vs = values@;
        let mut row_offsets: Vec<usize> = Vec::new();
        let mut k: usize = 0;
        let mut r: usize = 0;
        while r <= nrows
            invariant
                r <= nrows + 1,
                nrows < usize::MAX,
                rs == rows@,
                rs.len() == columns@.len(),
                row_major_sorted(rs, columns@),
                forall|j: int| 0 <= j < rs.len() ==> #[trigger] rs[j] < nrows && columns@[j] < ncols,
                row_offsets@.len() == r,
                k <= rs.len(),
                forall|x: int| 0 <= x < r ==> #[trigger] row_offsets@[x] <= k,
                forall|x: int|
                    0 <= x < r ==> {
                        let o = #[trigger] row_offsets@[x];
                        &&& o <= rs.len()
                        &&& forall|j: int| 0 <= j < o ==> rs[j] < x
                        &&& forall|j: int| o <= j < rs.len() ==> rs[j] >= x
                    },
                forall|j: int| 0 <= j < k ==> rs[j] < r,
            decreases nrows + 1 - r,
        {
            while k < rows.len() && rows[k] < r
                invariant
                    k <= rs.len(),
                    rs == rows@,
                    row_major_sorted(rs, columns@),
                    rs.len() == columns@.len(),
                    forall|j: int| 0 <= j < k ==> rs[j] < r,
                decreases rs.len() - k,
            {
                k += 1;
            }
            proof {
                assert forall|j: int| k <= j < rs.len() implies rs[j] >= r by {
                    if j > k {
                        assert(rs[k as int] >= r);
                    }
                }
            }
            row_offsets.push(k);
            r += 1;
        }
        let m = CsrMatrix { nrows, ncols, row_offsets, column_indices: columns, values };
        proof {
            let off = m.row_offsets@;
            assert forall|j: int| 0 <= j < m.column_indices@.len() implies #[trigger] m.column_indices@[j] < ncols by {
                assert(rs[j] < nrows);
            }
            assert(off[0] == 0) by {
                if off[0] > 0 {
                    assert(rs[0] < 0);
                }
            }
            assert(off[nrows as int] == rs.len()) by {
                if off[nrows as int] < rs.len() {
                    assert(rs[off[nrows as int] as int] >= nrows);
                }
            }
            assert forall|a: int, b: int| 0 <= a <= b <= nrows implies #[trigger] off[a] <= #[trigger] off[b] by {
                if off[a] > off[b] {
                    assert(rs[off[b] as int] < a);
                    assert(rs[off[b] as int] >= b);
                }
            }
            assert forall|x: int| 0 <= x < nrows implies sorted_row(#[trigger] m.spec_row(x)) by {
                let row = m.spec_row(x);
                assert forall|i: int, j: int| 0 <= i < j < row.len() implies row[i].0 < row[j].0 by {
                    let a = off[x] + i;
                    let b = off[x] + j;
                    assert(rs[a] >= x && rs[a] < x + 1);
                    assert(rs[b] >= x && rs[b] < x + 1);
                }
            }
        }
        proof {
            m.lemma_lookup_of_sorted_entries(rs, cs, vs);
        }
        m
    }

    /// Returns the number of matrix rows.
    pub fn nrows(&self) -> (r: usize)
        ensures
            r == self.spec_nrows(),
    {
        self.nrows
    }

    /// Returns the number of matrix columns.
    pub fn ncols(&self) -> (r: usize)
        ensures
            r == self.spec_ncols(),
    {
        self.ncols
    }

    /// Returns the number of stored entries.
    pub fn nnz(&self) -> (r: usize)
        requires
            self.well_formed(),
        ensures
            r == self.spec_columns().len(),
    {
        self.values.len()
    }

    /// Row offsets: row `r` is stored at positions `row_offsets[r]..row_offsets[r + 1]`.
    pub fn row_offsets(&self) -> (r: &Vec<usize>)
        ensures
            r@ == self.spec_offsets(),
    {
        &self.row_offsets
    }

    /// Column index of every stored entry.
    pub fn column_indices(&self) -> (r: &Vec<usize>)
        ensures
            r@ == self.spec_columns(),
    {
        &self.column_indices
    }

    /// Value of every stored entry.
    pub fn values(&self) -> (r: &Vec<V>)
        ensures
            r@ == self.spec_values(),
    {
        &self.values
    }

    /// Locates `column` in `row`: `Ok(position)` where it is stored, else
    /// `Err(position)` where it would be inserted.
    fn find(&self, row: usize, column: usize) -> (r: Result<usize, usize>)
        requires
            self.well_formed(),
            row < self.spec_nrows(),
        ensures
            ({
                let start = self.spec_offsets()[row as int];
                let i = lower_bound(self.spec_row(row as int), column);
                let rw = self.spec_row(row as int);
                &&& 0 <= i <= rw.len()
                &&& (i < rw.len() && rw[i].0 == column) ==> r == Ok::<usize, usize>((start + i) as usize)
                &&& !(i < rw.len() && rw[i].0 == column) ==> r == Err::<usize, usize>((start + i) as usize)
            }),
    {
        let ghost rw = self.spec_row(row as int);
        let start = self.row_offsets[row];
        let end = self.row_offsets[row + 1];
        assert(self.spec_offsets()[row as int] <= self.spec_offsets()[row + 1]);
        assert(sorted_row(rw));
        let mut lo: usize = start;
        let mut hi: usize = end;
        while lo < hi
            invariant
                start <= lo <= hi <= end,
                end <= self.column_indices@.len(),
                start == self.spec_offsets()[row as int],
                end == self.spec_offsets()[row + 1],
                rw == self.spec_row(row as int),
                sorted_row(rw),
                forall|j: int| start <= j < lo ==> self.column_indices@[j] < column,
                forall|j: int| hi <= j < end ==> self.column_indices@[j] > column,
            decreases hi - lo,
        {
            let mid = lo + (hi - lo) / 2;
            let c = self.column_indices[mid];
            if c == column {
                proof {
                    let i = (mid - start) as int;
                    assert(rw[i].0 == column);
                    assert forall|j: int| 0 <= j < i implies (#[trigger] rw[j]).0 < column by {}
                    assert forall|j: int| i <= j < rw.len() implies (#[trigger] rw[j]).0 >= column by {
                        if j > i {
                            assert(rw[i].0 < rw[j].0);
                        }
                    }
                    lemma_lower_bound_unique(rw, column, i);
                }
                return Ok(mid);
            } else if c < column {
                proof {
                    assert forall|j: int| start <= j < mid + 1 implies self.column_indices@[j] < column by {
                        if j < mid {
                            assert(rw[j - start].0 < rw[mid - start].0);
                        }
                    }
                }
                lo = mid + 1;
            } else {
                proof {
                    assert forall|j: int| mid <= j < end implies self.column_indices@[j] > column by {
                        if j > mid {
                            assert(rw[mid - start].0 < rw[j - start].0);
                        }
                    }
                }
                hi = mid;
            }
        }
        proof {
            let i = (lo - start) as int;
            assert forall|j: int| 0 <= j < i implies (#[trigger] rw[j]).0 < column by {}
            assert forall|j: int| i <= j < rw.len() implies (#[trigger] rw[j]).0 >= column by {}
            lemma_lower_bound_unique(rw, column, i);
        }
        Err(lo)
    }

    /// Returns the value stored at `(row, column)`, `None` when nothing is stored there.
    pub fn value_at(&self, row: usize, column: usize) -> (r: Result<Option<V>, FemError>)
        requires
            self.well_formed(),
        ensures
            row >= self.spec_nrows() ==> r == Err::<Option<V>, FemError>(FemError::InvalidDofIndex { index: row }),
            row < self.spec_nrows() && column >= self.spec_ncols() ==> r == Err::<Option<V>, FemError>(
                FemError::InvalidDofIndex { index: column },
            ),
            row < self.spec_nrows() && column < self.spec_ncols() ==> r == Ok::<Option<V>, FemError>(
                self.spec_lookup(row, column),
            ),
    {
        if row >= self.nrows {
            return Err(FemError::InvalidDofIndex { index: row });
        }
        if column >= self.ncols {
            return Err(FemError::InvalidDofIndex { index: column });
        }
        match self.find(row, column) {
            Ok(k) => {
                assert(self.spec_offsets()[row as int] <= self.spec_offsets()[self.spec_nrows() as int]);
                Ok(Some(self.values[k]))
            },
            Err(_) => Ok(None),
        }
    }

    /// Overwriting the value of the entry at `k`, the `column` entry of `row`, changes
    /// that row only.
    proof fn lemma_rows_after_overwrite(&self, before: Self, row: usize, k: usize, column: usize, value: V)
        requires
            before.well_formed(),
            row < before.nrows,
            self.nrows == before.nrows,
            self.ncols == before.ncols,
            self.row_offsets@ == before.row_offsets@,
            self.column_indices@ == before.column_indices@,
            k == before.row_offsets@[row as int] + lower_bound(before.spec_row(row as int), column),
            lower_bound(before.spec_row(row as int), column) < before.spec_row(row as int).len(),
            before.spec_row(row as int)[lower_bound(before.spec_row(row as int), column)].0 == column,
            self.values@ == before.values@.update(k as int, value),
        ensures
            self.well_formed(),
            self.spec_rows() == before.spec_rows().update(
                row as int,
                row_set(before.spec_row(row as int), column, value),
            ),
    {
        let rw = before.spec_row(row as int);
        lemma_row_set(rw, column, value);
        lemma_lower_bound_bounds(rw, column);
        let target = row_set(rw, column, value);
        assert forall|r: int| 0 <= r < self.nrows implies #[trigger] self.spec_row(r) == (if r == row {
            target
        } else {
            before.spec_row(r)
        }) by {
            assert(before.row_offsets@[r] <= before.row_offsets@[r + 1]);
            assert(before.row_offsets@[r + 1] <= before.row_offsets@[self.nrows as int]);
            assert(before.row_offsets@[row + 1] <= before.row_offsets@[self.nrows as int]);
            assert(before.row_offsets@[row as int] <= before.row_offsets@[row + 1]);
            let i = lower_bound(rw, column);
            if r == row {
                assert forall|j: int| 0 <= j < rw.len() implies #[trigger] self.spec_row(r)[j] == target[j] by {
                    let p = before.row_offsets@[r] + j;
                    if j == i {
                        assert(p == k);
                    } else {
                        assert(self.values@[p] == before.values@[p]);
                    }
                }
                assert(self.spec_row(r) =~= target);
            } else {
                if r < row {
                    assert(before.row_offsets@[r + 1] <= before.row_offsets@[row as int]);
                } else {
                    assert(before.row_offsets@[row + 1] <= before.row_offsets@[r]);
                }
                assert forall|j: int| 0 <= j < before.spec_row(r).len() implies #[trigger] self.spec_row(r)[j]
                    == before.spec_row(r)[j] by {
                    let p = before.row_offsets@[r] + j;
                    assert(p != k);
                    assert(self.values@[p] == before.values@[p]);
                }
                assert(self.spec_row(r) =~= before.spec_row(r));
            }
        }
        assert(self.spec_rows() =~= before.spec_rows().update(row as int, target));
    }

    /// Inserting `(column, value)` at position `k` of the storage, inside `row`, and
    /// shifting the later offsets by one adds that entry to `row` only.
    proof fn lemma_rows_after_insert(&self, before: Self, row: usize, k: usize, column: usize, value: V)
        requires
            before.well_formed(),
            row < before.nrows,
            column < before.ncols,
            self.nrows == before.nrows,
            self.ncols == before.ncols,
            self.row_offsets@.len() == before.row_offsets@.len(),
            forall|y: int| 0 <= y <= row ==> #[trigger] self.row_offsets@[y] == before.row_offsets@[y],
            forall|y: int| row < y <= self.nrows ==> #[trigger] self.row_offsets@[y] == before.row_offsets@[y] + 1,
            k == before.row_offsets@[row as int] + lower_bound(before.spec_row(row as int), column),
            !(lower_bound(before.spec_row(row as int), column) < before.spec_row(row as int).len()
                && before.spec_row(row as int)[lower_bound(before.spec_row(row as int), column)].0 == column),
            self.column_indices@ == before.column_indices@.insert(k as int, column),
            self.values@ == before.values@.insert(k as int, value),
        ensures
            self.well_formed(),
            self.spec_rows() == before.spec_rows().update(
                row as int,
                row_set(before.spec_row(row as int), column, value),
            ),
    {
        let rw = before.spec_row(row as int);
        lemma_row_set(rw, column, value);
        lemma_lower_bound_bounds(rw, column);
        let i = lower_bound(rw, column);
        let target = row_set(rw, column, value);
        let n = self.nrows as int;
        let off = self.row_offsets@;
        let boff = before.row_offsets@;
        assert(boff[row as int] <= boff[row + 1]);
        assert forall|r: int| 0 <= r < n implies #[trigger] self.spec_row(r) == (if r == row {
            target
        } else {
            before.spec_row(r)
        }) by {
            assert(boff[r] <= boff[r + 1]);
            if r == row {
                assert(self.spec_row(r) =~= target);
            } else {
                if r < row {
                    assert(boff[r + 1] <= boff[row as int]);
                } else {
                    assert(boff[row + 1] <= boff[r]);
                }
                assert(self.spec_row(r) =~= before.spec_row(r));
            }
        }
        assert(self.spec_rows() =~= before.spec_rows().update(row as int, target));
        assert forall|a: int, b: int| 0 <= a <= b <= n implies #[trigger] off[a] <= #[trigger] off[b] by {
            assert(boff[a] <= boff[b]);
        }
        assert forall|r: int| 0 <= r < n implies sorted_row(#[trigger] self.spec_row(r)) by {
            if r != row {
                assert(sorted_row(before.spec_row(r)));
            }
        }
        assert forall|j: int| 0 <= j < self.column_indices@.len() implies #[trigger] self.column_indices@[j] < self.ncols by {
            if j < k {
                assert(self.column_indices@[j] == before.column_indices@[j]);
            } else if j > k {
                assert(self.column_indices@[j] == before.column_indices@[j - 1]);
            }
        }
        assert(off[0] == 0);
        assert(off[n] == boff[n] + 1);
    }

    /// Stores `value` at `(row, column)`: an existing entry there is overwritten, else a
    /// new one is inserted in column order.
    pub fn set_entry(&mut self, row: usize, column: usize, value: V) -> (r: Result<(), FemError>)
        requires
            old(self).well_formed(),
            old(self).spec_columns().len() < usize::MAX,
        ensures
            final(self).well_formed(),
            final(self).spec_nrows() == old(self).spec_nrows(),
            final(self).spec_ncols() == old(self).spec_ncols(),
            row >= old(self).spec_nrows() ==> r == Err::<(), FemError>(FemError::InvalidDofIndex { index: row })
                && *final(self) == *old(self),
            row < old(self).spec_nrows() && column >= old(self).spec_ncols() ==> r == Err::<(), FemError>(
                FemError::InvalidDofIndex { index: column },
            ) && *final(self) == *old(self),
            row < old(self).spec_nrows() && column < old(self).spec_ncols() ==> {
                &&& r is Ok
                &&& final(self).spec_rows() == old(self).spec_rows().update(
                    row as int,
                    row_set(old(self).spec_row(row as int), column, value),
                )
                &&& final(self).spec_lookup(row, column) == Some(value)
                &&& forall|r2: usize, c2: usize|
                    r2 < old(self).spec_nrows() && (r2 != row || c2 != column) ==> #[trigger] final(self).spec_lookup(r2, c2)
                        == old(self).spec_lookup(r2, c2)
            },
    {
        if row >= self.nrows {
            return Err(FemError::InvalidDofIndex { index: row });
        }
        if column >= self.ncols {
            return Err(FemError::InvalidDofIndex { index: column });
        }
        let ghost before = *self;
        let ghost rw = self.spec_row(row as int);
        proof {
            lemma_row_set(rw, column, value);
        }
        match self.find(row, column) {
            Ok(k) => {
                proof {
                    assert(self.spec_offsets()[row as int] <= self.spec_offsets()[row + 1]);
                    assert(self.spec_offsets()[row + 1] <= self.spec_offsets()[self.spec_nrows() as int]);
                }
                self.values.set(k, value);
                proof {
                    self.lemma_rows_after_overwrite(before, row, k, column, value);
                }
            },
            Err(k) => {
                proof {
                    assert(self.spec_offsets()[row as int] <= self.spec_offsets()[row + 1]);
                    assert(self.spec_offsets()[row + 1] <= self.spec_offsets()[self.spec_nrows() as int]);
                }
                self.column_indices.insert(k, column);
                self.values.insert(k, value);
                let mut x: usize = row + 1;
                while x < self.row_offsets.len()
                    invariant
                        row < x <= self.nrows + 1,
                        self.row_offsets@.len() == self.nrows + 1,
                        self.nrows == before.nrows,
                        self.ncols == before.ncols,
                        self.column_indices@ == before.column_indices@.insert(k as int, column),
                        self.values@ == before.values@.insert(k as int, value),
                        before.well_formed(),
                        before.spec_columns().len() < usize::MAX,
                        self.row_offsets@.len() == before.row_offsets@.len(),
                        forall|y: int| 0 <= y < x && y > row ==> #[trigger] self.row_offsets@[y] == before.row_offsets@[y] + 1,
                        forall|y: int| 0 <= y <= row || x <= y < self.row_offsets@.len() ==> #[trigger] self.row_offsets@[y] == before.row_offsets@[y],
                    decreases self.nrows + 1 - x,
                {
                    proof {
                        assert(before.spec_offsets()[x as int] <= before.spec_offsets()[before.spec_nrows() as int]);
                    }
                    let o = self.row_offsets[x];
                    self.row_offsets.set(x, o + 1);
                    x += 1;
                }
                proof {
                    self.lemma_rows_after_insert(before, row, k, column, value);
                }
            },
        }
        proof {
            let rows = self.spec_rows();
            let brows = before.spec_rows();
            assert(self.spec_row(row as int) == rows[row as int]);
            assert forall|r2: usize, c2: usize| r2 < before.spec_nrows() && (r2 != row || c2 != column) implies #[trigger] self.spec_lookup(r2, c2)
                == before.spec_lookup(r2, c2) by {
                if r2 != row {
                    assert(self.spec_row(r2 as int) == rows[r2 as int]);
                    assert(before.spec_row(r2 as int) == brows[r2 as int]);
                }
            }
            assert(self.spec_row(row as int) == rows[row as int]);
        }
        Ok(())
    }
    /// Removing position `k` of the storage, the `column` entry of `row`, and shifting
    /// the later offsets down by one takes that entry out of `row` only.
    proof fn lemma_rows_after_delete(&self, before: Self, row: usize, k: usize, column: usize)
        requires
            before.well_formed(),
            row < before.nrows,
            self.nrows == before.nrows,
            self.ncols == before.ncols,
            self.row_offsets@.len() == before.row_offsets@.len(),
            forall|y: int| 0 <= y <= row ==> #[trigger] self.row_offsets@[y] == before.row_offsets@[y],
            forall|y: int| row < y <= self.nrows ==> #[trigger] self.row_offsets@[y] == before.row_offsets@[y] - 1,
            k == before.row_offsets@[row as int] + lower_bound(before.spec_row(row as int), column),
            lower_bound(before.spec_row(row as int), column) < before.spec_row(row as int).len(),
            before.spec_row(row as int)[lower_bound(before.spec_row(row as int), column)].0 == column,
            self.column_indices@ == before.column_indices@.remove(k as int),
            self.values@ == before.values@.remove(k as int),
        ensures
            self.well_formed(),
            self.spec_rows() == before.spec_rows().update(row as int, row_remove(before.spec_row(row as int), column)),
    {
        let rw = before.spec_row(row as int);
        lemma_row_remove(rw, column);
        lemma_lower_bound_bounds(rw, column);
        let target = row_remove(rw, column);
        let n = self.nrows as int;
        let off = self.row_offsets@;
        let boff = before.row_offsets@;
        assert(boff[row as int] <= boff[row + 1]);
        assert(boff[row + 1] <= boff[n]);
        assert forall|r: int| 0 <= r < n implies #[trigger] self.spec_row(r) == (if r == row {
            target
        } else {
            before.spec_row(r)
        }) by {
            assert(boff[r] <= boff[r + 1]);
            assert(boff[r + 1] <= boff[n]);
            if r == row {
                assert(self.spec_row(r) =~= target);
            } else {
                if r < row {
                    assert(boff[r + 1] <= boff[row as int]);
                } else {
                    assert(boff[row + 1] <= boff[r]);
                }
                assert(self.spec_row(r) =~= before.spec_row(r));
            }
        }
        assert(self.spec_rows() =~= before.spec_rows().update(row as int, target));
        assert forall|a: int, b: int| 0 <= a <= b <= n implies #[trigger] off[a] <= #[trigger] off[b] by {
            assert(boff[a] <= boff[b]);
            if a <= row && b > row {
                assert(boff[a] <= boff[row as int]);
                assert(boff[row + 1] <= boff[b]);
            }
        }
        assert forall|r: int| 0 <= r < n implies sorted_row(#[trigger] self.spec_row(r)) by {
            if r != row {
                assert(sorted_row(before.spec_row(r)));
            }
        }
        assert forall|j: int| 0 <= j < self.column_indices@.len() implies #[trigger] self.column_indices@[j] < self.ncols by {
            if j < k {
                assert(self.column_indices@[j] == before.column_indices@[j]);
            } else {
                assert(self.column_indices@[j] == before.column_indices@[j + 1]);
            }
        }
        assert(off[0] == 0);
        assert(off[n] == boff[n] - 1);
    }

    /// Removes the entry at `(row, column)`; nothing changes where none is stored.
    pub fn remove_entry(&mut self, row: usize, column: usize) -> (r: Result<(), FemError>)
        requires
            old(self).well_formed(),
        ensures
            final(self).well_formed(),
            final(self).spec_nrows() == old(self).spec_nrows(),
            final(self).spec_ncols() == old(self).spec_ncols(),
            row >= old(self).spec_nrows() ==> r == Err::<(), FemError>(FemError::InvalidDofIndex { index: row })
                && *final(self) == *old(self),
            row < old(self).spec_nrows() && column >= old(self).spec_ncols() ==> r == Err::<(), FemError>(
                FemError::InvalidDofIndex { index: column },
            ) && *final(self) == *old(self),
            row < old(self).spec_nrows() && column < old(self).spec_ncols() ==> {
                &&& r is Ok
                &&& final(self).spec_rows() == old(self).spec_rows().update(
                    row as int,
                    row_remove(old(self).spec_row(row as int), column),
                )
                &&& final(self).spec_lookup(row, column) is None
                &&& forall|r2: usize, c2: usize|
                    r2 < old(self).spec_nrows() && (r2 != row || c2 != column) ==> #[trigger] final(self).spec_lookup(r2, c2)
                        == old(self).spec_lookup(r2, c2)
            },
    {
        if row >= self.nrows {
            return Err(FemError::InvalidDofIndex { index: row });
        }
        if column >= self.ncols {
            return Err(FemError::InvalidDofIndex { index: column });
        }
        let ghost before = *self;
        let ghost rw = self.spec_row(row as int);
        proof {
            lemma_row_remove(rw, column);
        }
        match self.find(row, column) {
            Ok(k) => {
                proof {
                    assert(self.spec_offsets()[row as int] <= self.spec_offsets()[row + 1]);
                    assert(self.spec_offsets()[row + 1] <= self.spec_offsets()[self.spec_nrows() as int]);
                }
                self.column_indices.remove(k);
                self.values.remove(k);
                let mut x: usize = row + 1;
                while x < self.row_offsets.len()
                    invariant
                        row < x <= self.nrows + 1,
                        self.row_offsets@.len() == self.nrows + 1,
                        self.nrows == before.nrows,
                        self.ncols == before.ncols,
                        self.column_indices@ == before.column_indices@.remove(k as int),
                        self.values@ == before.values@.remove(k as int),
                        before.well_formed(),
                        k < before.row_offsets@[row + 1],
                        self.row_offsets@.len() == before.row_offsets@.len(),
                        forall|y: int| 0 <= y < x && y > row ==> #[trigger] self.row_offsets@[y] == before.row_offsets@[y] - 1,
                        forall|y: int| 0 <= y <= row || x <= y < self.row_offsets@.len() ==> #[trigger] self.row_offsets@[y] == before.row_offsets@[y],
                    decreases self.nrows + 1 - x,
                {
                    proof {
                        assert(before.spec_offsets()[row + 1] <= before.spec_offsets()[x as int]);
                    }
                    let o = self.row_offsets[x];
                    self.row_offsets.set(x, o - 1);
                    x += 1;
                }
                proof {
                    self.lemma_rows_after_delete(before, row, k, column);
                }
            },
            Err(_) => {
                proof {
                    assert(row_remove(rw, column) == rw);
                    assert(self.spec_rows() =~= self.spec_rows().update(row as int, rw));
                }
            },
        }
        proof {
            let rows = self.spec_rows();
            let brows = before.spec_rows();
            assert(self.spec_row(row as int) == rows[row as int]);
            assert forall|r2: usize, c2: usize| r2 < before.spec_nrows() && (r2 != row || c2 != column) implies #[trigger] self.spec_lookup(r2, c2)
                == before.spec_lookup(r2, c2) by {
                if r2 != row {
                    assert(self.spec_row(r2 as int) == rows[r2 as int]);
                    assert(before.spec_row(r2 as int) == brows[r2 as int]);
                }
            }
        }
        Ok(())
    }
}

// ---------------------------------------------------------------------------
// Ordering entries by position
// ---------------------------------------------------------------------------

/// Entry `a` comes no later than entry `b` in the row-major order of positions.
pub open spec fn position_le<V>(a: (usize, usize, V), b: (usize, usize, V)) -> bool {
    a.0 < b.0 || (a.0 == b.0 && a.1 <= b.1)
}

/// The positions of the entries never decrease in row-major order.
pub open spec fn position_ordered<V>(s: Seq<(usize, usize, V)>) -> bool {
    forall|i: int, j: int| 0 <= i < j < s.len() ==> position_le(s[i], s[j])
}

/// Merges two position-ordered entry lists into one.
fn merge_entries<V: Copy>(left: Vec<(usize, usize, V)>, right: Vec<(usize, usize, V)>) -> (out: Vec<
    (usize, usize, V),
>)
    requires
        position_ordered(left@),
        position_ordered(right@),
    ensures
        out@.to_multiset() == left@.to_multiset().add(right@.to_multiset()),
        position_ordered(out@),
{
    broadcast use vstd::seq_lib::group_to_multiset_ensures;
    broadcast use vstd::multiset::group_multiset_axioms;

    let mut out: Vec<(usize, usize, V)> = Vec::new();
    let mut i: usize = 0;
    let mut j: usize = 0;
    while i < left.len() || j < right.len()
        invariant
            i <= left@.len(),
            j <= right@.len(),
            position_ordered(left@),
            position_ordered(right@),
            position_ordered(out@),
            out@.to_multiset() == left@.take(i as int).to_multiset().add(right@.take(j as int).to_multiset()),
            out@.len() > 0 && i < left@.len() ==> position_le(out@.last(), left@[i as int]),
            out@.len() > 0 && j < right@.len() ==> position_le(out@.last(), right@[j as int]),
        decreases left@.len() + right@.len() - i - j,
    {
        let ghost before = out@;
        let take_left = if j >= right.len() {
            true
        } else if i >= left.len() {
            false
        } else {
            let (lr, lc, _) = left[i];
            let (rr, rc, _) = right[j];
            lr < rr || (lr == rr && lc <= rc)
        };
        if take_left {
            let x = left[i];
            out.push(x);
            proof {
                assert(left@.take(i + 1) =~= left@.take(i as int).push(x));
                assert(out@ =~= before.push(x));
                vstd::seq_lib::to_multiset_build(before, x);
                vstd::seq_lib::to_multiset_build(left@.take(i as int), x);
                assert(left@.take(i as int).to_multiset().insert(x).add(right@.take(j as int).to_multiset())
                    =~= left@.take(i as int).to_multiset().add(right@.take(j as int).to_multiset()).insert(x));
                assert(out@.to_multiset() =~= left@.take(i + 1).to_multiset().add(
                    right@.take(j as int).to_multiset(),
                ));
                assert forall|a: int, b: int| 0 <= a < b < out@.len() implies position_le(out@[a], out@[b]) by {
                    if b == out@.len() - 1 && a < b {
                        if before.len() > 0 {
                            assert(position_le(before[a], before.last()));
                        }
                    } else {
                        assert(out@[a] == before[a] && out@[b] == before[b]);
                    }
                }
                if i + 1 < left@.len() {
                    assert(position_le(left@[i as int], left@[i + 1]));
                }
            }
            i += 1;
        } else {
            let x = right[j];
            out.push(x);
            proof {
                assert(right@.take(j + 1) =~= right@.take(j as int).push(x));
                assert(out@ =~= before.push(x));
                vstd::seq_lib::to_multiset_build(before, x);
                vstd::seq_lib::to_multiset_build(right@.take(j as int), x);
                assert(left@.take(i as int).to_multiset().add(right@.take(j as int).to_multiset().insert(x))
                    =~= left@.take(i as int).to_multiset().add(right@.take(j as int).to_multiset()).insert(x));
                assert(out@.to_multiset() =~= left@.take(i as int).to_multiset().add(
                    right@.take(j + 1).to_multiset(),
                ));
                assert forall|a: int, b: int| 0 <= a < b < out@.len() implies position_le(out@[a], out@[b]) by {
                    if b == out@.len() - 1 && a < b {
                        if before.len() > 0 {
                            assert(position_le(before[a], before.last()));
                        }
                    } else {
                        assert(out@[a] == before[a] && out@[b] == before[b]);
                    }
                }
                if j + 1 < right@.len() {
                    assert(position_le(right@[j as int], right@[j + 1]));
                }
            }
            j += 1;
        }
    }
    proof {
        assert(left@.take(i as int) =~= left@);
        assert(right@.take(j as int) =~= right@);
    }
    out
}

/// Orders entries by position in row-major order, keeping every entry (merge sort).
fn sort_entries<V: Copy>(entries: Vec<(usize, usize, V)>) -> (sorted: Vec<(usize, usize, V)>)
    ensures
        sorted@.to_multiset() == entries@.to_multiset(),
        position_ordered(sorted@),
    decreases entries@.len(),
{
    if entries.len() <= 1 {
        return entries;
    }
    let mut left = entries;
    let ghost whole = left@;
    let mid = left.len() / 2;
    let right = left.split_off(mid);
    proof {
        assert(whole =~= left@ + right@);
        vstd::seq_lib::lemma_multiset_commutative(left@, right@);
    }
    let sorted_left = sort_entries(left);
    let sorted_right = sort_entries(right);
    merge_entries(sorted_left, sorted_right)
}

// ---------------------------------------------------------------------------
// COO storage
// ---------------------------------------------------------------------------

/// A sparse matrix in Coordinate List format: entry `k` has row `rows[k]`, column
/// `cols[k]` and value `values[k]`; a position may occur more than once.
#[derive(Debug, Clone)]
pub struct CooMatrix<V> {
    nrows: usize,
    ncols: usize,
    rows: Vec<usize>,
    cols: Vec<usize>,
    values: Vec<V>,
}

impl<V: Copy> CooMatrix<V> {
    /// Number of rows.
    pub closed spec fn spec_nrows(&self) -> usize {
        self.nrows
    }

    /// Number of columns.
    pub closed spec fn spec_ncols(&self) -> usize {
        self.ncols
    }

    /// Row index of every entry.
    pub closed spec fn spec_rows(&self) -> Seq<usize> {
        self.rows@
    }

    /// Column index of every entry.
    pub closed spec fn spec_cols(&self) -> Seq<usize> {
        self.cols@
    }

    /// Value of every entry.
    pub closed spec fn spec_values(&self) -> Seq<V> {
        self.values@
    }

    /// The entries as `(row, column, value)` triples in insertion order.
    pub open spec fn entries(&self) -> Seq<(usize, usize, V)> {
        Seq::new(self.spec_values().len(), |k: int| (self.spec_rows()[k], self.spec_cols()[k], self.spec_values()[k]))
    }

    /// The three arrays have one element per entry, and every entry lies inside the
    /// matrix.
    pub open spec fn well_formed(&self) -> bool {
        &&& self.spec_rows().len() == self.spec_values().len()
        &&& self.spec_cols().len() == self.spec_values().len()
        &&& forall|k: int|
            0 <= k < self.spec_values().len() ==> #[trigger] self.spec_rows()[k] < self.spec_nrows()
                && self.spec_cols()[k] < self.spec_ncols()
    }

    /// Creates an empty COO matrix with the requested dimensions.
    pub fn new(nrows: usize, ncols: usize) -> (m: Self)
        ensures
            m.well_formed(),
            m.spec_nrows() == nrows,
            m.spec_ncols() == ncols,
            m.entries() == Seq::<(usize, usize, V)>::empty(),
    {
        let m = CooMatrix { nrows, ncols, rows: Vec::new(), cols: Vec::new(), values: Vec::new() };
        assert(m.entries() =~= Seq::<(usize, usize, V)>::empty());
        m
    }

    /// Returns the number of matrix rows.
    pub fn nrows(&self) -> (r: usize)
        ensures
            r == self.spec_nrows(),
    {
        self.nrows
    }

    /// Returns the number of matrix columns.
    pub fn ncols(&self) -> (r: usize)
        ensures
            r == self.spec_ncols(),
    {
        self.ncols
    }

    /// Returns the number of stored entries.
    pub fn nnz(&self) -> (r: usize)
        ensures
            r == self.entries().len(),
    {
        self.values.len()
    }

    /// Row index of every entry.
    pub fn rows(&self) -> (r: &Vec<usize>)
        ensures
            r@ == self.spec_rows(),
    {
        &self.rows
    }

    /// Column index of every entry.
    pub fn cols(&self) -> (r: &Vec<usize>)
        ensures
            r@ == self.spec_cols(),
    {
        &self.cols
    }

    /// Value of every entry.
    pub fn values(&self) -> (r: &Vec<V>)
        ensures
            r@ == self.spec_values(),
    {
        &self.values
    }

    /// Appends the entry `(row, col, value)`; a position outside the matrix is refused
    /// and leaves the matrix unchanged.
    pub fn push(&mut self, row: usize, col: usize, value: V) -> (r: Result<(), FemError>)
        requires
            old(self).well_formed(),
        ensures
            final(self).well_formed(),
            final(self).spec_nrows() == old(self).spec_nrows(),
            final(self).spec_ncols() == old(self).spec_ncols(),
            row >= old(self).spec_nrows() ==> r == Err::<(), FemError>(FemError::InvalidDofIndex { index: row })
                && final(self).entries() == old(self).entries(),
            row < old(self).spec_nrows() && col >= old(self).spec_ncols() ==> r == Err::<(), FemError>(
                FemError::InvalidDofIndex { index: col },
            ) && final(self).entries() == old(self).entries(),
            row < old(self).spec_nrows() && col < old(self).spec_ncols() ==> r is Ok && final(self).entries()
                == old(self).entries().push((row, col, value)),
    {
        if row >= self.nrows {
            return Err(FemError::InvalidDofIndex { index: row });
        }
        if col >= self.ncols {
            return Err(FemError::InvalidDofIndex { index: col });
        }
        let ghost before = self.entries();
        self.rows.push(row);
        self.cols.push(col);
        self.values.push(value);
        assert(self.entries() =~= before.push((row, col, value)));
        Ok(())
    }

    /// Returns a matrix with the same entries ordered by position in row-major order;
    /// entries at the same position are all kept.
    pub fn sorted_by_position(&self) -> (m: Self)
        requires
            self.well_formed(),
        ensures
            m.well_formed(),
            m.spec_nrows() == self.spec_nrows(),
            m.spec_ncols() == self.spec_ncols(),
            m.entries().to_multiset() == self.entries().to_multiset(),
            position_ordered(m.entries()),
    {
        broadcast use vstd::seq_lib::group_to_multiset_ensures;

        let ghost original = self.entries();
        let mut entries: Vec<(usize, usize, V)> = Vec::new();
        let mut k: usize = 0;
        while k < self.values.len()
            invariant
                self.well_formed(),
                original == self.entries(),
                k <= self.values@.len(),
                entries@ == original.take(k as int),
            decreases self.values@.len() - k,
        {
            entries.push((self.rows[k], self.cols[k], self.values[k]));
            assert(original.take(k + 1) =~= original.take(k as int).push(original[k as int]));
            k += 1;
        }
        assert(original.take(k as int) =~= original);
        let sorted = sort_entries(entries);
        let mut rows: Vec<usize> = Vec::new();
        let mut cols: Vec<usize> = Vec::new();
        let mut values: Vec<V> = Vec::new();
        let mut t: usize = 0;
        while t < sorted.len()
            invariant
                t <= sorted@.len(),
                rows@.len() == t,
                cols@.len() == t,
                values@.len() == t,
                forall|u: int| 0 <= u < t ==> (#[trigger] rows@[u], cols@[u], values@[u]) == sorted@[u],
            decreases sorted@.len() - t,
        {
            let (r, c, v) = sorted[t];
            rows.push(r);
            cols.push(c);
            values.push(v);
            t += 1;
        }
        let m = CooMatrix { nrows: self.nrows, ncols: self.ncols, rows, cols, values };
        assert(m.entries() =~= sorted@);
        proof {
            assert forall|u: int| 0 <= u < m.spec_values().len() implies #[trigger] m.spec_rows()[u] < m.spec_nrows()
                && m.spec_cols()[u] < m.spec_ncols() by {
                let x = sorted@[u];
                assert(sorted@.contains(x));
                assert(original.to_multiset().count(x) > 0);
                assert(original.contains(x));
                let w = choose|w: int| 0 <= w < original.len() && original[w] == x;
                assert(self.spec_rows()[w] < self.spec_nrows());
            }
        }
        m
    }

    /// Whether the entry positions strictly increase in row-major order, so that no
    /// position occurs twice.
    pub fn is_canonical(&self) -> (r: bool)
        requires
            self.well_formed(),
        ensures
            r == row_major_sorted(self.spec_rows(), self.spec_cols()),
    {
        let n = self.rows.len();
        if n == 0 {
            return true;
        }
        let mut k: usize = 1;
        while k < n
            invariant
                1 <= k <= n,
                n == self.rows@.len(),
                self.cols@.len() == n,
                forall|i: int, j: int|
                    0 <= i < j < k ==> self.rows@[i] < self.rows@[j] || (self.rows@[i] == self.rows@[j]
                        && self.cols@[i] < self.cols@[j]),
            decreases n - k,
        {
            let (r0, c0) = (self.rows[k - 1], self.cols[k - 1]);
            let (r1, c1) = (self.rows[k], self.cols[k]);
            if !(r0 < r1 || (r0 == r1 && c0 < c1)) {
                return false;
            }
            proof {
                assert forall|i: int, j: int|
                    0 <= i < j < k + 1 implies self.rows@[i] < self.rows@[j] || (self.rows@[i] == self.rows@[j]
                        && self.cols@[i] < self.cols@[j]) by {
                    if j == k && i < k - 1 {
                        let p = k - 1;
                        assert(self.rows@[i] < self.rows@[p] || (self.rows@[i] == self.rows@[p] && self.cols@[i] < self.cols@[p]));
                    }
                }
            }
            k += 1;
        }
        true
    }

    /// Converts a canonical COO matrix into CSR format with the same entries.
    pub fn into_csr(self) -> (m: CsrMatrix<V>)
        requires
            self.well_formed(),
            row_major_sorted(self.spec_rows(), self.spec_cols()),
            self.spec_nrows() < usize::MAX,
        ensures
            m.well_formed(),
            m.spec_nrows() == self.spec_nrows(),
            m.spec_ncols() == self.spec_ncols(),
            m.spec_columns() == self.spec_cols(),
            m.spec_values() == self.spec_values(),
            forall|r: int|
                0 <= r <= self.spec_nrows() ==> {
                    let o = #[trigger] m.spec_offsets()[r];
                    &&& o <= self.spec_rows().len()
                    &&& forall|k: int| 0 <= k < o ==> self.spec_rows()[k] < r
                    &&& forall|k: int| o <= k < self.spec_rows().len() ==> self.spec_rows()[k] >= r
                },
            forall|r: usize, c: usize, v: V|
                r < self.spec_nrows() ==> (m.spec_lookup(r, c) == Some(v) <==> exists|k: int|
                    0 <= k < self.entries().len() && #[trigger] self.entries()[k] == (r, c, v)),
    {
        let ghost entries = self.entries();
        let ghost rs = self.rows@;
        let ghost cs = self.cols@;
        let ghost vs = self.values@;
        let m = CsrMatrix::from_sorted_entries(self.nrows, self.ncols, self.rows, self.cols, self.values);
        proof {
            assert forall|r: usize, c: usize, v: V| r < m.spec_nrows() implies (m.spec_lookup(r, c) == Some(v) <==> exists|k: int|
                0 <= k < entries.len() && #[trigger] entries[k] == (r, c, v)) by {
                if m.spec_lookup(r, c) == Some(v) {
                    let k = choose|k: int| 0 <= k < rs.len() && #[trigger] rs[k] == r && cs[k] == c && vs[k] == v;
                    assert(entries[k] == (r, c, v));
                }
                if exists|k: int| 0 <= k < entries.len() && #[trigger] entries[k] == (r, c, v) {
                    let k = choose|k: int| 0 <= k < entries.len() && #[trigger] entries[k] == (r, c, v);
                    assert(rs[k] == r && cs[k] == c && vs[k] == v);
                }
            }
        }
        m
    }
}

} // verus!
