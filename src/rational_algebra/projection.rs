//! Projection: keep the requested columns, in request order.
use crate::db_type::DbType;
use crate::encoding::cells_view;
use crate::query_result::QueryResult;
use crate::rational_algebra::helper_functions::find_indexes;
use crate::relation::{
    ManipulateTable, as_ints, column_names_of, lemma_resolve_in_range, names_view, pick,
    relation_wf, resolve_columns, rows_of,
};
use crate::table_row::{TableRow, rows_view};
use vstd::prelude::*;

verus! {

/// The rows of `rows` cut down to the positions `idx`.
pub open spec fn project_rows(rows: Seq<Seq<crate::db_type::DbValue>>, idx: Seq<int>) -> Seq<
    Seq<crate::db_type::DbValue>,
> {
    rows.map_values(|row: Seq<crate::db_type::DbValue>| pick(row, idx))
}

/// The columns named in `columns` that exist, in that order (unknown names
/// are dropped), with every row cut down to them.
pub fn projection<T: ManipulateTable>(table: &T, columns: &[String]) -> (r: QueryResult)
    requires
        relation_wf(column_names_of(table), rows_of(table)),
    ensures
        column_names_of(&r) == pick(
            column_names_of(table),
            resolve_columns(column_names_of(table), names_view(columns@)),
        ),
        rows_of(&r) == project_rows(
            rows_of(table),
            resolve_columns(column_names_of(table), names_view(columns@)),
        ),
        relation_wf(column_names_of(&r), rows_of(&r)),
{
    let column_names = table.get_column_names();
    let indexes = find_indexes(table, columns);
    let ghost names = column_names_of(table);
    let ghost idx = as_ints(indexes@);
    proof {
        lemma_resolve_in_range(names, names_view(columns@));
    }
    let data = table.get_data();
    let ghost rows = rows_of(table);
    let mut result: Vec<TableRow> = Vec::new();
    let mut i: usize = 0;
    while i < data.len()
        invariant
            rows == rows_view(data@),
            names == names_view(column_names@),
            relation_wf(names, rows),
            idx == as_ints(indexes@),
            forall|j: int| 0 <= j < idx.len() ==> 0 <= #[trigger] idx[j] < names.len(),
            i <= data@.len(),
            result@.len() == i,
            forall|k: int| 0 <= k < i ==> (#[trigger] result@[k])@ == pick(rows[k], idx),
        decreases data.len() - i,
    {
        let values = data[i].get_values();
        assert(rows[i as int] == data@[i as int]@);
        let mut projected: Vec<DbType> = Vec::new();
        let mut j: usize = 0;
        while j < indexes.len()
            invariant
                cells_view(values@) == rows[i as int],
                rows[i as int].len() == names.len(),
                idx == as_ints(indexes@),
                forall|m: int| 0 <= m < idx.len() ==> 0 <= #[trigger] idx[m] < names.len(),
                j <= indexes@.len(),
                projected@.len() == j,
                forall|m: int| 0 <= m < j ==> (#[trigger] projected@[m])@ == rows[i as int][idx[m]],
            decreases indexes.len() - j,
        {
            let index = indexes[j];
            assert(idx[j as int] == index as int);
            projected.push(values[index].clone_value());
            j = j + 1;
        }
        let row = TableRow::new(projected);
        assert(row@ =~= pick(rows[i as int], idx));
        result.push(row);
        i = i + 1;
    }
    let mut result_column_names: Vec<String> = Vec::new();
    let mut j: usize = 0;
    while j < indexes.len()
        invariant
            names == names_view(column_names@),
            idx == as_ints(indexes@),
            forall|m: int| 0 <= m < idx.len() ==> 0 <= #[trigger] idx[m] < names.len(),
            j <= indexes@.len(),
            result_column_names@.len() == j,
            forall|m: int| 0 <= m < j ==> (#[trigger] result_column_names@[m])@ == names[idx[m]],
        decreases indexes.len() - j,
    {
        let index = indexes[j];
        assert(idx[j as int] == index as int);
        result_column_names.push(column_names[index].clone());
        j = j + 1;
    }
    let r = QueryResult::new(result, result_column_names);
    assert(column_names_of(&r) =~= pick(names, idx));
    assert(rows_of(&r) =~= project_rows(rows, idx));
    r
}

} // verus!
