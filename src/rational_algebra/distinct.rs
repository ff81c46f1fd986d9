//! Distinct: keep the first row of each key over the requested columns.
use crate::db_type::{DbType, DbValue};
use crate::encoding::cells_view;
use crate::query_result::QueryResult;
use crate::rational_algebra::helper_functions::{find_indexes, pick_values, values_equal};
use crate::relation::{
    ManipulateTable, as_ints, column_names_of, lemma_resolve_in_range, names_view, pick,
    relation_wf, resolve_columns, rows_of,
};
use crate::table_row::{TableRow, rows_view};
use vstd::prelude::*;

verus! {

/// Some row of `rows` has `key` at the positions `idx`.
pub open spec fn key_seen(rows: Seq<Seq<DbValue>>, key: Seq<DbValue>, idx: Seq<int>) -> bool {
    exists|j: int| 0 <= j < rows.len() && pick(#[trigger] rows[j], idx) == key
}

/// The rows whose key over `idx` no earlier row has, in order.
pub open spec fn distinct_rows(rows: Seq<Seq<DbValue>>, idx: Seq<int>) -> Seq<Seq<DbValue>>
    decreases rows.len(),
{
    if rows.len() == 0 {
        Seq::empty()
    } else {
        let prev = distinct_rows(rows.drop_last(), idx);
        if key_seen(rows.drop_last(), pick(rows.last(), idx), idx) {
            prev
        } else {
            prev.push(rows.last())
        }
    }
}

fn contains_key(seen: &Vec<Vec<DbType>>, key: &Vec<DbType>) -> (r: bool)
    ensures
        r == exists|s: int| 0 <= s < seen@.len() && cells_view(#[trigger] seen@[s]@) == cells_view(key@),
{
    let mut s: usize = 0;
    while s < seen.len()
        invariant
            s <= seen@.len(),
            forall|m: int| 0 <= m < s ==> cells_view(#[trigger] seen@[m]@) != cells_view(key@),
        decreases seen.len() - s,
    {
        if values_equal(seen[s].as_slice(), key.as_slice()) {
            return true;
        }
        s = s + 1;
    }
    false
}

/// Each row whose key over `columns` (resolved as projection does) was not
/// seen before, in input order, with all the columns.
pub fn distinct<T: ManipulateTable>(table: &T, columns: &[String]) -> (r: QueryResult)
    requires
        relation_wf(column_names_of(table), rows_of(table)),
    ensures
        column_names_of(&r) == column_names_of(table),
        rows_of(&r) == distinct_rows(
            rows_of(table),
            resolve_columns(column_names_of(table), names_view(columns@)),
        ),
        relation_wf(column_names_of(&r), rows_of(&r)),
{
    let indexes = find_indexes(table, columns);
    let ghost names = column_names_of(table);
    let ghost idx = as_ints(indexes@);
    proof {
        lemma_resolve_in_range(names, names_view(columns@));
    }
    let data = table.get_data();
    let ghost rows = rows_of(table);
    let mut seen: Vec<Vec<DbType>> = Vec::new();
    let mut result: Vec<TableRow> = Vec::new();
    let mut i: usize = 0;
    while i < data.len()
        invariant
            rows == rows_view(data@),
            relation_wf(names, rows),
            idx == as_ints(indexes@),
            forall|j: int| 0 <= j < idx.len() ==> 0 <= #[trigger] idx[j] < names.len(),
            i <= data@.len(),
            rows_view(result@) == distinct_rows(rows.subrange(0, i as int), idx),
            forall|s: int|
                0 <= s < seen@.len() ==> key_seen(
                    rows.subrange(0, i as int),
                    cells_view(#[trigger] seen@[s]@),
                    idx,
                ),
            forall|j: int|
                0 <= j < i ==> exists|s: int|
                    0 <= s < seen@.len() && cells_view(#[trigger] seen@[s]@) == pick(
                        #[trigger] rows[j],
                        idx,
                    ),
        decreases data.len() - i,
    {
        let row = &data[i];
        let values = row.get_values();
        assert(rows[i as int] == row@);
        proof {
            assert forall|j: int| 0 <= j < indexes@.len() implies #[trigger] indexes@[j] < values@.len() by {
                assert(idx[j] == indexes@[j] as int);
            }
        }
        let key = pick_values(values.as_slice(), indexes.as_slice());
        let ghost k = pick(rows[i as int], idx);
        let ghost prefix = rows.subrange(0, i as int);
        let ghost next = rows.subrange(0, i + 1);
        assert(next.drop_last() =~= prefix);
        assert(next.last() == rows[i as int]);
        let found = contains_key(&seen, &key);
        proof {
            if found {
                let s = choose|s: int| 0 <= s < seen@.len() && cells_view(#[trigger] seen@[s]@) == cells_view(key@);
                assert(key_seen(prefix, cells_view(seen@[s]@), idx));
            } else {
                if key_seen(prefix, k, idx) {
                    let j = choose|j: int| 0 <= j < prefix.len() && pick(#[trigger] prefix[j], idx) == k;
                    assert(prefix[j] == rows[j]);
                    let s = choose|s: int| 0 <= s < seen@.len() && cells_view(#[trigger] seen@[s]@) == pick(rows[j], idx);
                    assert(cells_view(seen@[s]@) == cells_view(key@));
                }
            }
        }
        let ghost seen_before = seen@;
        if !found {
            result.push(row.clone_row());
            seen.push(key);
        }
        proof {
            assert(rows_view(result@) =~= distinct_rows(next, idx));
            assert forall|s: int| 0 <= s < seen@.len() implies key_seen(next, cells_view(#[trigger] seen@[s]@), idx) by {
                if s < seen_before.len() {
                    assert(seen@[s] == seen_before[s]);
                    let j = choose|j: int| 0 <= j < prefix.len() && pick(#[trigger] prefix[j], idx) == cells_view(seen_before[s]@);
                    assert(next[j] == prefix[j]);
                } else {
                    assert(next[i as int] == rows[i as int]);
                }
            }
            assert forall|j: int| 0 <= j < i + 1 implies exists|s: int|
                0 <= s < seen@.len() && cells_view(#[trigger] seen@[s]@) == pick(#[trigger] rows[j], idx) by {
                if j < i {
                    let s = choose|s: int| 0 <= s < seen_before.len() && cells_view(#[trigger] seen_before[s]@) == pick(rows[j], idx);
                    assert(seen@[s] == seen_before[s]);
                } else if found {
                    let s = choose|s: int| 0 <= s < seen_before.len() && cells_view(#[trigger] seen_before[s]@) == cells_view(key@);
                    assert(seen@[s] == seen_before[s]);
                } else {
                    assert(seen@[seen_before.len() as int] == key);
                }
            }
        }
        i = i + 1;
    }
    assert(rows.subrange(0, rows.len() as int) =~= rows);
    proof {
        lemma_distinct_rows_subset(rows, idx);
    }
    QueryResult::new(result, table.get_column_names().clone())
}

/// Each kept row is a row of the input.
pub proof fn lemma_distinct_rows_subset(rows: Seq<Seq<DbValue>>, idx: Seq<int>)
    ensures
        forall|k: int|
            0 <= k < distinct_rows(rows, idx).len() ==> exists|m: int|
                0 <= m < rows.len() && #[trigger] distinct_rows(rows, idx)[k] == rows[m],
    decreases rows.len(),
{
    if rows.len() > 0 {
        lemma_distinct_rows_subset(rows.drop_last(), idx);
        let prev = distinct_rows(rows.drop_last(), idx);
        let all = distinct_rows(rows, idx);
        assert forall|k: int| 0 <= k < all.len() implies exists|m: int|
            0 <= m < rows.len() && #[trigger] all[k] == rows[m] by {
            if k < prev.len() {
                assert(all[k] == prev[k]);
                let m = choose|m: int| 0 <= m < rows.drop_last().len() && prev[k] == rows.drop_last()[m];
                assert(rows[m] == rows.drop_last()[m]);
            } else {
                assert(all[k] == rows[rows.len() - 1]);
            }
        }
    }
}

} // verus!
