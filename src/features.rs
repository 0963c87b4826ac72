use vstd::prelude::*;

use crate::error::PipelineError;
use crate::table::{copy_names, names_of, Table};

verus! {

/// The thirteen feature columns, in schema order.
pub open spec fn feature_names_spec() -> Seq<Seq<char>> {
    seq![
        "crim"@, "zn"@, "indus"@, "chas"@, "nox"@, "rm"@, "age"@, "dis"@, "rad"@, "tax"@,
        "ptratio"@, "b"@, "lstat"@,
    ]
}

/// The target column.
pub open spec fn target_name_spec() -> Seq<char> {
    "medv"@
}

/// `name` occurs among `names`.
pub open spec fn has_column(names: Seq<Seq<char>>, name: Seq<char>) -> bool {
    exists|j: int| 0 <= j < names.len() && names[j] == name
}

/// `j` is the first position of `name` among `names`.
pub open spec fn is_first_position(names: Seq<Seq<char>>, name: Seq<char>, j: int) -> bool {
    &&& 0 <= j < names.len()
    &&& names[j] == name
    &&& forall|k: int| 0 <= k < j ==> names[k] != name
}

/// The first position of `name` among `names`.
pub open spec fn column_index(names: Seq<Seq<char>>, name: Seq<char>) -> int {
    choose|j: int| is_first_position(names, name, j)
}

/// Every name of `wanted` occurs among `names`.
pub open spec fn has_columns(names: Seq<Seq<char>>, wanted: Seq<Seq<char>>) -> bool {
    forall|j: int| 0 <= j < wanted.len() ==> has_column(names, #[trigger] wanted[j])
}

/// The positions in `names` of the columns `wanted`, in the order of `wanted`.
pub open spec fn columns_for(names: Seq<Seq<char>>, wanted: Seq<Seq<char>>) -> Seq<int> {
    wanted.map_values(|w: Seq<char>| column_index(names, w))
}

/// Each row cut down to the cells at `cols`, in that order.
pub open spec fn project(rows: Seq<Seq<u64>>, cols: Seq<int>) -> Seq<Seq<u64>> {
    rows.map_values(|r: Seq<u64>| cols.map_values(|c: int| r[c]))
}

proof fn lemma_first_position_unique(names: Seq<Seq<char>>, name: Seq<char>, j: int)
    requires
        is_first_position(names, name, j),
    ensures
        column_index(names, name) == j,
{
    let c = column_index(names, name);
    assert(is_first_position(names, name, c));
    if c < j {
        assert(names[c] != name);
    } else if j < c {
        assert(names[j] != name);
    }
}

/// The names of the feature columns, in schema order.
pub fn feature_names() -> (r: Vec<String>)
    ensures
        names_of(r@) == feature_names_spec(),
{
    let r = vec![
        "crim".to_owned(), "zn".to_owned(), "indus".to_owned(), "chas".to_owned(),
        "nox".to_owned(), "rm".to_owned(), "age".to_owned(), "dis".to_owned(),
        "rad".to_owned(), "tax".to_owned(), "ptratio".to_owned(), "b".to_owned(),
        "lstat".to_owned(),
    ];
    assert(names_of(r@) =~= feature_names_spec());
    r
}

/// The name of the target column.
pub fn target_name() -> (r: String)
    ensures
        r@ == target_name_spec(),
{
    "medv".to_owned()
}

/// The first position of `name` among `names`, if it occurs.
pub fn find_column(names: &Vec<String>, name: &String) -> (r: Option<usize>)
    ensures
        r is Some <==> has_column(names_of(names@), name@),
        r is Some ==> r->0 == column_index(names_of(names@), name@)
            && is_first_position(names_of(names@), name@, r->0 as int),
{
    let ghost ns = names_of(names@);
    let mut j: usize = 0;
    while j < names.len()
        invariant
            j <= names@.len(),
            ns == names_of(names@),
            forall|k: int| 0 <= k < j ==> ns[k] != name@,
        decreases names@.len() - j,
    {
        if names[j] == *name {
            proof {
                lemma_first_position_unique(ns, name@, j as int);
            }
            return Some(j);
        }
        j += 1;
    }
    None
}

/// The columns named in `wanted`, in that order, like a column selection;
/// fails with `Schema` when a wanted name is not a column of the table.
pub fn select_columns(table: &Table, wanted: &Vec<String>) -> (r: Result<Table, PipelineError>)
    requires
        table.wf(),
    ensures
        r is Ok <==> has_columns(table.names_view(), names_of(wanted@)),
        r is Err ==> r->Err_0 == PipelineError::Schema,
        r is Ok ==> {
            let t = r->Ok_0;
            &&& t.wf()
            &&& t.names_view() == names_of(wanted@)
            &&& t.rows_view() == project(
                table.rows_view(),
                columns_for(table.names_view(), names_of(wanted@)),
            )
        },
{
    let ghost ns = table.names_view();
    let ghost ws = names_of(wanted@);
    let mut cols: Vec<usize> = Vec::new();
    let mut j: usize = 0;
    while j < wanted.len()
        invariant
            j <= wanted@.len(),
            ns == table.names_view(),
            ws == names_of(wanted@),
            cols@.len() == j,
            forall|k: int| 0 <= k < j ==> has_column(ns, #[trigger] ws[k]),
            forall|k: int|
                0 <= k < j ==> #[trigger] cols@[k] as int == column_index(ns, ws[k])
                    && cols@[k] < ns.len(),
        decreases wanted@.len() - j,
    {
        match find_column(&table.names, &wanted[j]) {
            Some(c) => {
                cols.push(c);
            },
            None => {
                assert(!has_column(ns, ws[j as int]));
                return Err(PipelineError::Schema);
            },
        }
        j += 1;
    }
    let ghost colspec = columns_for(ns, ws);
    let mut rows: Vec<Vec<u64>> = Vec::new();
    let mut i: usize = 0;
    while i < table.rows.len()
        invariant
            i <= table.rows@.len(),
            table.wf(),
            ns == table.names_view(),
            cols@.len() == ws.len(),
            colspec == columns_for(ns, ws),
            forall|k: int|
                0 <= k < cols@.len() ==> #[trigger] cols@[k] as int == colspec[k] && cols@[k]
                    < ns.len(),
            rows@.len() == i,
            forall|a: int|
                0 <= a < i ==> #[trigger] rows@[a]@ == colspec.map_values(
                    |c: int| table.rows_view()[a][c],
                ),
        decreases table.rows@.len() - i,
    {
        let row = &table.rows[i];
        assert(table.rows_view()[i as int].len() == ns.len());
        let mut out: Vec<u64> = Vec::new();
        let mut k: usize = 0;
        while k < cols.len()
            invariant
                k <= cols@.len(),
                row@ == table.rows_view()[i as int],
                row@.len() == ns.len(),
                forall|q: int| 0 <= q < cols@.len() ==> #[trigger] cols@[q] < ns.len(),
                out@.len() == k,
                forall|q: int| 0 <= q < k ==> #[trigger] out@[q] == row@[cols@[q] as int],
            decreases cols@.len() - k,
        {
            out.push(row[cols[k]]);
            k += 1;
        }
        assert(out@ =~= colspec.map_values(|c: int| table.rows_view()[i as int][c]));
        rows.push(out);
        i += 1;
    }
    let names = copy_names(wanted);
    let t = Table { names, rows };
    assert(t.rows_view() =~= project(table.rows_view(), colspec));
    assert(t.wf());
    Ok(t)
}

/// Separates a table into its feature columns (in schema order) and its
/// target column; fails with `Schema` when any of them is missing.
pub fn split_features_and_target(table: &Table) -> (r: Result<(Table, Table), PipelineError>)
    requires
        table.wf(),
    ensures
        r is Ok <==> has_columns(table.names_view(), feature_names_spec()) && has_column(
            table.names_view(),
            target_name_spec(),
        ),
        r is Err ==> r->Err_0 == PipelineError::Schema,
        r is Ok ==> {
            let (x, y) = r->Ok_0;
            &&& x.wf() && y.wf()
            &&& x.names_view() == feature_names_spec()
            &&& y.names_view() == seq![target_name_spec()]
            &&& x.rows_view() == project(
                table.rows_view(),
                columns_for(table.names_view(), feature_names_spec()),
            )
            &&& y.rows_view() == project(
                table.rows_view(),
                seq![column_index(table.names_view(), target_name_spec())],
            )
        },
{
    let features = feature_names();
    let target = vec![target_name()];
    assert(names_of(target@) =~= seq![target_name_spec()]);
    let x = select_columns(table, &features);
    let y = select_columns(table, &target);
    match (x, y) {
        (Ok(x), Ok(y)) => {
            assert(has_column(table.names_view(), names_of(target@)[0]));
            assert(columns_for(table.names_view(), seq![target_name_spec()]) =~= seq![
                column_index(table.names_view(), target_name_spec()),
            ]);
            Ok((x, y))
        },
        (Err(e), _) => Err(e),
        (Ok(_), Err(e)) => {
            assert(!has_column(table.names_view(), names_of(target@)[0]));
            Err(e)
        },
    }
}

/// Selecting features and target keeps the row count, and row `i` of each
/// side is built from row `i` of the table alone.
pub proof fn lemma_selection_keeps_rows(rows: Seq<Seq<u64>>, names: Seq<Seq<char>>)
    ensures
        ({
            let x = project(rows, columns_for(names, feature_names_spec()));
            let y = project(rows, seq![column_index(names, target_name_spec())]);
            &&& x.len() == rows.len()
            &&& y.len() == rows.len()
            &&& forall|i: int, j: int|
                0 <= i < rows.len() && 0 <= j < 13 ==> #[trigger] x[i][j] == rows[i][column_index(
                    names,
                    feature_names_spec()[j],
                )]
            &&& forall|i: int|
                0 <= i < rows.len() ==> #[trigger] y[i] == seq![
                    rows[i][column_index(names, target_name_spec())],
                ]
        }),
{
    let x = project(rows, columns_for(names, feature_names_spec()));
    let y = project(rows, seq![column_index(names, target_name_spec())]);
    assert forall|i: int| 0 <= i < rows.len() implies #[trigger] y[i] == seq![
        rows[i][column_index(names, target_name_spec())],
    ] by {
        assert(y[i] =~= seq![rows[i][column_index(names, target_name_spec())]]);
    }
}

} // verus!
