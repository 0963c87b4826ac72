use vstd::prelude::*;

use crate::error::PipelineError;

verus! {

/// An ordered sequence of rows under named columns. Each cell holds the
/// IEEE-754 bit pattern of a numeric value; the table never interprets it.
pub struct Table {
    pub names: Vec<String>,
    pub rows: Vec<Vec<u64>>,
}

/// The column names of a list of strings, as character sequences.
pub open spec fn names_of(names: Seq<String>) -> Seq<Seq<char>> {
    names.map_values(|s: String| s@)
}

/// The cells of a list of rows, as sequences.
pub open spec fn cells_of(rows: Seq<Vec<u64>>) -> Seq<Seq<u64>> {
    rows.map_values(|r: Vec<u64>| r@)
}

/// Every row has exactly one cell per column.
pub open spec fn rows_fit(width: nat, rows: Seq<Seq<u64>>) -> bool {
    forall|i: int| 0 <= i < rows.len() ==> #[trigger] rows[i].len() == width
}

/// The rows of `rows` at the positions listed in `idx`, in that order.
pub open spec fn gather(rows: Seq<Seq<u64>>, idx: Seq<usize>) -> Seq<Seq<u64>> {
    idx.map_values(|k: usize| rows[k as int])
}

impl Table {
    pub open spec fn names_view(&self) -> Seq<Seq<char>> {
        names_of(self.names@)
    }

    pub open spec fn rows_view(&self) -> Seq<Seq<u64>> {
        cells_of(self.rows@)
    }

    pub open spec fn wf(&self) -> bool {
        rows_fit(self.names@.len(), self.rows_view())
    }

    /// Builds a table; fails with `Parse` when some row's cell count differs
    /// from the number of columns.
    pub fn new(names: Vec<String>, rows: Vec<Vec<u64>>) -> (r: Result<Table, PipelineError>)
        ensures
            r is Ok <==> rows_fit(names@.len(), cells_of(rows@)),
            r is Ok ==> r->Ok_0.names == names && r->Ok_0.rows == rows && r->Ok_0.wf(),
            r is Err ==> r->Err_0 == PipelineError::Parse,
    {
        let mut i: usize = 0;
        while i < rows.len()
            invariant
                i <= rows@.len(),
                forall|k: int| 0 <= k < i ==> #[trigger] cells_of(rows@)[k].len() == names@.len(),
            decreases rows@.len() - i,
        {
            if rows[i].len() != names.len() {
                assert(cells_of(rows@)[i as int].len() != names@.len());
                return Err(PipelineError::Parse);
            }
            i += 1;
        }
        Ok(Table { names, rows })
    }

    /// Number of rows.
    pub fn height(&self) -> (r: usize)
        ensures
            r == self.rows_view().len(),
    {
        self.rows.len()
    }

    /// Number of columns.
    pub fn width(&self) -> (r: usize)
        ensures
            r == self.names_view().len(),
    {
        self.names.len()
    }

    /// The rows at the given positions, in the given order, under the same
    /// column names.
    pub fn take(&self, idx: &Vec<usize>) -> (r: Table)
        requires
            self.wf(),
            forall|k: int| 0 <= k < idx@.len() ==> #[trigger] idx@[k] < self.rows@.len(),
        ensures
            r.wf(),
            r.names_view() == self.names_view(),
            r.rows_view() == gather(self.rows_view(), idx@),
    {
        let mut rows: Vec<Vec<u64>> = Vec::new();
        let mut i: usize = 0;
        while i < idx.len()
            invariant
                i <= idx@.len(),
                self.wf(),
                forall|k: int| 0 <= k < idx@.len() ==> #[trigger] idx@[k] < self.rows@.len(),
                rows@.len() == i,
                forall|j: int| 0 <= j < i ==> #[trigger] rows@[j]@ == self.rows@[idx@[j] as int]@,
            decreases idx@.len() - i,
        {
            let row = copy_cells(&self.rows[idx[i]]);
            rows.push(row);
            i += 1;
        }
        assert(cells_of(rows@) =~= gather(self.rows_view(), idx@));
        let names = copy_names(&self.names);
        let r = Table { names, rows };
        assert forall|k: int| 0 <= k < r.rows_view().len() implies #[trigger] r.rows_view()[k].len()
            == r.names@.len() by {
            assert(self.rows_view()[idx@[k] as int].len() == self.names@.len());
        }
        r
    }

    /// All cells, row after row (row-major order).
    pub fn to_row_major(&self) -> (r: Vec<u64>)
        ensures
            r@ == concat_rows(self.rows_view()),
    {
        let mut out: Vec<u64> = Vec::new();
        let mut i: usize = 0;
        while i < self.rows.len()
            invariant
                i <= self.rows@.len(),
                out@ == concat_rows(self.rows_view().subrange(0, i as int)),
            decreases self.rows@.len() - i,
        {
            let ghost before = out@;
            let row = &self.rows[i];
            let mut j: usize = 0;
            while j < row.len()
                invariant
                    j <= row@.len(),
                    out@ == before + row@.subrange(0, j as int),
                decreases row@.len() - j,
            {
                out.push(row[j]);
                j += 1;
                assert(out@ =~= before + row@.subrange(0, j as int));
            }
            assert(row@.subrange(0, row@.len() as int) =~= row@);
            assert(self.rows_view().subrange(0, i + 1).drop_last() =~= self.rows_view().subrange(
                0,
                i as int,
            ));
            i += 1;
        }
        assert(self.rows_view().subrange(0, self.rows@.len() as int) =~= self.rows_view());
        out
    }
}

/// The rows laid end to end.
pub open spec fn concat_rows(rows: Seq<Seq<u64>>) -> Seq<u64>
    decreases rows.len(),
{
    if rows.len() == 0 {
        Seq::empty()
    } else {
        concat_rows(rows.drop_last()) + rows.last()
    }
}

/// A copy of a row.
pub fn copy_cells(row: &Vec<u64>) -> (r: Vec<u64>)
    ensures
        r@ == row@,
{
    let mut out: Vec<u64> = Vec::new();
    let mut i: usize = 0;
    while i < row.len()
        invariant
            i <= row@.len(),
            out@ == row@.subrange(0, i as int),
        decreases row@.len() - i,
    {
        out.push(row[i]);
        i += 1;
        assert(out@ =~= row@.subrange(0, i as int));
    }
    assert(row@.subrange(0, row@.len() as int) =~= row@);
    out
}

/// A copy of a list of column names.
pub fn copy_names(names: &Vec<String>) -> (r: Vec<String>)
    ensures
        names_of(r@) == names_of(names@),
        r@.len() == names@.len(),
{
    let mut out: Vec<String> = Vec::new();
    let mut i: usize = 0;
    while i < names.len()
        invariant
            i <= names@.len(),
            out@.len() == i,
            forall|j: int| 0 <= j < i ==> #[trigger] out@[j]@ == names@[j]@,
        decreases names@.len() - i,
    {
        out.push(names[i].clone());
        i += 1;
    }
    assert(names_of(out@) =~= names_of(names@));
    out
}

} // verus!
