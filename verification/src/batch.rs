//! The columnar record-batch model.
//!
//! A record batch is an immutable columnar chunk: an ordered list of
//! equally-lengthed columns of scalar cells. The shuffle writer consumes and
//! produces batches; it never mutates one. Double-precision cells are carried
//! as their IEEE 754 bit patterns.
use vstd::prelude::*;
use vstd::string::StrSliceExecFns;

use crate::arith::{clamp_u64, sat_add};
use crate::error::EngineError;

verus! {

/// The in-memory footprint of one cell: eight bytes for a numeric value,
/// one byte per character of a string, nothing for a null.
pub open spec fn spec_cell_footprint(c: CellValue) -> nat {
    match c {
        CellValue::Null => 0,
        CellValue::Int64(_) => 8,
        CellValue::UInt64(_) => 8,
        CellValue::Float64Bits(_) => 8,
        CellValue::Utf8(s) => s@.len(),
    }
}

/// The footprint of a column: the sum of its cells' footprints.
pub open spec fn spec_cells_footprint(cells: Seq<CellValue>) -> nat
    decreases cells.len(),
{
    if cells.len() == 0 {
        0
    } else {
        (spec_cells_footprint(cells.drop_last()) + spec_cell_footprint(cells.last())) as nat
    }
}

/// The footprint of a list of cell lists — columns or rows alike: the sum
/// of the lists' footprints.
pub open spec fn spec_columns_footprint(cols: Seq<Seq<CellValue>>) -> nat
    decreases cols.len(),
{
    if cols.len() == 0 {
        0
    } else {
        (spec_columns_footprint(cols.drop_last()) + spec_cells_footprint(cols.last())) as nat
    }
}

/// A list of empty cell lists has no footprint.
proof fn lemma_columns_footprint_all_empty(cols: Seq<Seq<CellValue>>)
    requires
        forall|j: int| 0 <= j < cols.len() ==> (#[trigger] cols[j]).len() == 0,
    ensures
        spec_columns_footprint(cols) == 0,
    decreases cols.len(),
{
    if cols.len() > 0 {
        lemma_columns_footprint_all_empty(cols.drop_last());
        assert(cols.last() =~= Seq::<CellValue>::empty());
    }
}

/// Removing the last entry of every list takes exactly those entries'
/// footprints out of the total.
proof fn lemma_columns_footprint_drop_row(cols: Seq<Seq<CellValue>>, rows_n: nat)
    requires
        rows_n >= 1,
        forall|j: int| 0 <= j < cols.len() ==> (#[trigger] cols[j]).len() == rows_n,
    ensures
        spec_columns_footprint(cols) == spec_columns_footprint(
            cols.map_values(|c: Seq<CellValue>| c.drop_last()),
        ) + spec_cells_footprint(Seq::new(cols.len(), |j: int| cols[j][rows_n - 1])),
    decreases cols.len(),
{
    let dropped = cols.map_values(|c: Seq<CellValue>| c.drop_last());
    let lasts = Seq::new(cols.len(), |j: int| cols[j][rows_n - 1]);
    if cols.len() == 0 {
        assert(dropped =~= Seq::<Seq<CellValue>>::empty());
        assert(lasts =~= Seq::<CellValue>::empty());
    } else {
        lemma_columns_footprint_drop_row(cols.drop_last(), rows_n);
        assert(dropped.drop_last() =~~= cols.drop_last().map_values(
            |c: Seq<CellValue>| c.drop_last(),
        ));
        assert(lasts.drop_last() =~= Seq::new(
            (cols.len() - 1) as nat,
            |j: int| cols.drop_last()[j][rows_n - 1],
        ));
        assert(dropped.last() == cols.last().drop_last());
        assert(lasts.last() == cols.last()[rows_n - 1]);
        assert(cols.last()[rows_n - 1] == cols.last().last());
        assert(spec_cells_footprint(cols.last()) == spec_cells_footprint(cols.last().drop_last())
            + spec_cell_footprint(cols.last().last()));
    }
}

/// Summing the cell footprints column by column or row by row gives the
/// same total.
proof fn lemma_grid_footprint_transpose(cols: Seq<Seq<CellValue>>, rows_n: nat)
    requires
        forall|j: int| 0 <= j < cols.len() ==> (#[trigger] cols[j]).len() == rows_n,
    ensures
        spec_columns_footprint(cols) == spec_columns_footprint(
            Seq::new(rows_n, |i: int| Seq::new(cols.len(), |j: int| cols[j][i])),
        ),
    decreases rows_n,
{
    let grid = Seq::new(rows_n, |i: int| Seq::new(cols.len(), |j: int| cols[j][i]));
    if rows_n == 0 {
        lemma_columns_footprint_all_empty(cols);
        assert(grid =~= Seq::<Seq<CellValue>>::empty());
    } else {
        let cols2 = cols.map_values(|c: Seq<CellValue>| c.drop_last());
        assert(forall|j: int| 0 <= j < cols2.len() ==> (#[trigger] cols2[j]).len() == (rows_n
            - 1) as nat);
        lemma_grid_footprint_transpose(cols2, (rows_n - 1) as nat);
        let grid2 = Seq::new(
            (rows_n - 1) as nat,
            |i: int| Seq::new(cols2.len(), |j: int| cols2[j][i]),
        );
        lemma_columns_footprint_drop_row(cols, rows_n);
        assert(grid.drop_last() =~~= grid2);
        assert(grid.last() =~= Seq::new(cols.len(), |j: int| cols[j][rows_n - 1]));
    }
}

/// One scalar cell of a column.
#[derive(Debug, PartialEq, Eq)]
pub enum CellValue {
    /// An absent value.
    Null,
    /// A signed 64-bit integer.
    Int64(i64),
    /// An unsigned 64-bit integer.
    UInt64(u64),
    /// The IEEE 754 bit pattern of a double-precision value.
    Float64Bits(u64),
    /// A UTF-8 string.
    Utf8(String),
}

impl Clone for CellValue {
    fn clone(&self) -> (r: Self)
        ensures
            r == *self,
    {
        match self {
            CellValue::Null => CellValue::Null,
            CellValue::Int64(v) => CellValue::Int64(*v),
            CellValue::UInt64(v) => CellValue::UInt64(*v),
            CellValue::Float64Bits(v) => CellValue::Float64Bits(*v),
            CellValue::Utf8(s) => CellValue::Utf8(s.clone()),
        }
    }
}

/// An immutable columnar chunk: columns of equal length.
#[derive(Debug)]
pub struct Batch {
    pub num_rows: usize,
    pub columns: Vec<Vec<CellValue>>,
}

impl Batch {
    /// Well-formedness: at least one column, and all columns have the
    /// batch's row count.
    pub open spec fn wf(self) -> bool {
        &&& self.columns@.len() >= 1
        &&& forall|j: int|
            0 <= j < self.columns@.len() ==> (#[trigger] self.columns@[j])@.len()
                == self.num_rows
    }

    /// The number of rows.
    pub open spec fn spec_num_rows(self) -> nat {
        self.num_rows as nat
    }

    /// The number of columns.
    pub open spec fn spec_num_columns(self) -> nat {
        self.columns@.len()
    }

    /// The cells of column `j`, in row order.
    pub open spec fn col(self, j: int) -> Seq<CellValue> {
        self.columns@[j]@
    }

    /// Row `i` of the batch: its cells across the columns, in column order.
    pub open spec fn row(self, i: int) -> Seq<CellValue> {
        Seq::new(self.spec_num_columns(), |j: int| self.col(j)[i])
    }

    /// All rows of the batch, in order.
    pub open spec fn rows(self) -> Seq<Seq<CellValue>> {
        Seq::new(self.spec_num_rows(), |i: int| self.row(i))
    }

    /// Builds a batch from columns. Succeeds exactly when there is at least
    /// one column and all columns have one length.
    pub fn try_new(columns: Vec<Vec<CellValue>>) -> (r: Result<Batch, EngineError>)
        ensures
            r is Ok <==> (columns@.len() >= 1 && forall|j: int|
                0 <= j < columns@.len() ==> (#[trigger] columns@[j])@.len()
                    == columns@[0]@.len()),
            r matches Ok(b) ==> b.wf() && b.columns@ == columns@ && b.spec_num_rows()
                == columns@[0]@.len(),
    {
        if columns.len() == 0 {
            return Err(
                EngineError::Execution(String::from_str("a batch must have at least one column")),
            );
        }
        let num_rows = columns[0].len();
        let mut j: usize = 1;
        while j < columns.len()
            invariant
                1 <= j <= columns@.len(),
                num_rows == columns@[0]@.len(),
                forall|k: int|
                    0 <= k < j ==> (#[trigger] columns@[k])@.len() == num_rows,
            decreases columns@.len() - j,
        {
            if columns[j].len() != num_rows {
                return Err(
                    EngineError::Execution(
                        String::from_str("all columns of a batch must have one length"),
                    ),
                );
            }
            j += 1;
        }
        Ok(Batch { num_rows, columns })
    }

    /// The number of rows.
    pub fn num_rows(&self) -> (r: usize)
        ensures
            r == self.spec_num_rows(),
    {
        self.num_rows
    }

    /// The number of columns.
    pub fn num_columns(&self) -> (r: usize)
        ensures
            r == self.spec_num_columns(),
    {
        self.columns.len()
    }

    /// The batch's in-memory column footprint: the sum of the footprints of
    /// all cells of all columns.
    pub open spec fn spec_footprint(self) -> nat {
        spec_columns_footprint(self.columns@.map_values(|c: Vec<CellValue>| c@))
    }

    /// A well-formed batch's footprint is the footprint of its rows: the
    /// cell footprints sum to the same total whether taken column by column
    /// or row by row.
    pub proof fn lemma_footprint_by_rows(self)
        requires
            self.wf(),
        ensures
            self.spec_footprint() == spec_columns_footprint(self.rows()),
    {
        let views = self.columns@.map_values(|c: Vec<CellValue>| c@);
        lemma_grid_footprint_transpose(views, self.spec_num_rows());
        assert(self.rows() =~~= Seq::new(
            self.spec_num_rows(),
            |i: int| Seq::new(views.len(), |j: int| views[j][i]),
        ));
    }

    /// The batch's in-memory column footprint, stopped at the largest
    /// 64-bit value.
    pub fn mem_bytes(&self) -> (r: u64)
        ensures
            r == clamp_u64(self.spec_footprint()),
    {
        let ghost views = self.columns@.map_values(|c: Vec<CellValue>| c@);
        let mut total: u64 = 0;
        let mut j: usize = 0;
        while j < self.columns.len()
            invariant
                j <= self.columns@.len(),
                views == self.columns@.map_values(|c: Vec<CellValue>| c@),
                total == clamp_u64(spec_columns_footprint(views.take(j as int))),
            decreases self.columns@.len() - j,
        {
            let col = &self.columns[j];
            let mut k: usize = 0;
            let mut col_total: u64 = 0;
            while k < col.len()
                invariant
                    k <= col@.len(),
                    col_total == clamp_u64(spec_cells_footprint(col@.take(k as int))),
                decreases col@.len() - k,
            {
                let fp: u64 = match &col[k] {
                    CellValue::Null => 0,
                    CellValue::Int64(_) => 8,
                    CellValue::UInt64(_) => 8,
                    CellValue::Float64Bits(_) => 8,
                    CellValue::Utf8(s) => s.as_str().unicode_len() as u64,
                };
                proof {
                    assert(col@.take(k + 1).drop_last() =~= col@.take(k as int));
                    assert(col@.take(k + 1).last() == col@[k as int]);
                }
                col_total = sat_add(col_total, fp);
                k += 1;
            }
            proof {
                assert(col@.take(col@.len() as int) =~= col@);
                assert(views.take(j + 1).drop_last() =~= views.take(j as int));
                assert(views.take(j + 1).last() == views[j as int]);
                assert(views[j as int] == col@);
            }
            total = sat_add(total, col_total);
            proof {
                let pre = spec_columns_footprint(views.take(j as int));
                let cf = spec_cells_footprint(col@);
                if cf > u64::MAX {
                    assert(spec_columns_footprint(views.take(j + 1)) > u64::MAX);
                }
            }
            j += 1;
        }
        proof {
            assert(views.take(views.len() as int) =~= views);
        }
        total
    }

    /// The cell at row `i` of column `j`.
    pub fn cell(&self, i: usize, j: usize) -> (r: &CellValue)
        requires
            self.wf(),
            i < self.spec_num_rows(),
            j < self.spec_num_columns(),
        ensures
            *r == self.col(j as int)[i as int],
            *r == self.row(i as int)[j as int],
    {
        &self.columns[j][i]
    }

    /// Gathers the rows of the batch at the given indices, in list order,
    /// producing a batch of the same columns. Succeeds exactly when every
    /// index is below the row count.
    pub fn take(&self, indices: &Vec<u64>) -> (r: Result<Batch, EngineError>)
        requires
            self.wf(),
        ensures
            r is Ok <==> forall|k: int|
                0 <= k < indices@.len() ==> (#[trigger] indices@[k]) < self.spec_num_rows(),
            r matches Err(e) ==> e is Execution,
            r matches Ok(b) ==> {
                &&& b.wf()
                &&& b.spec_num_columns() == self.spec_num_columns()
                &&& b.rows() == indices@.map_values(|i: u64| self.row(i as int))
            },
    {
        let num_rows = self.num_rows();
        let mut k: usize = 0;
        while k < indices.len()
            invariant
                k <= indices@.len(),
                num_rows == self.spec_num_rows(),
                forall|t: int| 0 <= t < k ==> (#[trigger] indices@[t]) < num_rows,
            decreases indices@.len() - k,
        {
            if indices[k] >= num_rows as u64 {
                return Err(EngineError::Execution(String::from_str("take index out of bounds")));
            }
            k += 1;
        }
        let mut columns: Vec<Vec<CellValue>> = Vec::new();
        let mut j: usize = 0;
        while j < self.columns.len()
            invariant
                self.wf(),
                j <= self.columns@.len(),
                columns@.len() == j,
                forall|t: int| 0 <= t < indices@.len() ==> (#[trigger] indices@[t])
                    < self.spec_num_rows(),
                forall|c: int|
                    0 <= c < j ==> (#[trigger] columns@[c])@ == indices@.map_values(
                        |i: u64| self.col(c)[i as int],
                    ),
            decreases self.columns@.len() - j,
        {
            let mut col: Vec<CellValue> = Vec::new();
            let mut k: usize = 0;
            while k < indices.len()
                invariant
                    self.wf(),
                    j < self.columns@.len(),
                    k <= indices@.len(),
                    col@.len() == k,
                    forall|t: int| 0 <= t < indices@.len() ==> (#[trigger] indices@[t])
                        < self.spec_num_rows(),
                    forall|t: int|
                        0 <= t < k ==> #[trigger] col@[t] == self.col(j as int)[indices@[t] as int],
                decreases indices@.len() - k,
            {
                let i = indices[k] as usize;
                col.push(self.columns[j][i].clone());
                k += 1;
            }
            proof {
                assert(col@ =~= indices@.map_values(|i: u64| self.col(j as int)[i as int]));
            }
            columns.push(col);
            j += 1;
        }
        let taken = Batch { num_rows: indices.len(), columns };
        proof {
            assert(taken.wf());
            assert(taken.rows() =~= indices@.map_values(|i: u64| self.row(i as int))) by {
                assert forall|k: int| 0 <= k < indices@.len() implies #[trigger] taken.row(k)
                    == self.row(indices@[k] as int) by {
                    assert(taken.row(k) =~= self.row(indices@[k] as int));
                }
            }
        }
        Ok(taken)
    }
}

} // verus!
