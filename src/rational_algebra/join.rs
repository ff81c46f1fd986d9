//! Equi-join on a column present in both relations.
use crate::db_type::DbValue;
use crate::encoding::cells_view;
use crate::query_result::QueryResult;
use crate::relation::{
    ManipulateTable, column_names_of, column_position, lemma_column_index, names_view,
    relation_wf, rows_of,
};
use crate::condition::column_index;
use crate::table_row::{TableRow, rows_view, clone_values};
use vstd::prelude::*;
use vstd::string::StringExecFns;

verus! {

/// The join column is missing from one side.
#[derive(Debug)]
pub struct JoinError {
    pub column: String,
    pub message: String,
}

/// The message of a missing join column.
pub open spec fn not_found_message(column: Seq<char>) -> Seq<char> {
    "Column '"@ + column + "' not found in one of the tables"@
}

impl JoinError {
    /// The error as a line of text.
    pub fn describe(&self) -> (r: String)
        ensures
            r@ == "Join Error: "@ + self.message@,
    {
        let mut text = "Join Error: ".to_owned();
        text.append(self.message.as_str());
        text
    }
}

fn column_not_found(by: &str) -> (e: JoinError)
    ensures
        e.column@ == by@,
        e.message@ == not_found_message(by@),
{
    let mut message = "Column '".to_owned();
    message.append(by);
    message.append("' not found in one of the tables");
    JoinError { column: by.to_owned(), message }
}

/// `s` without the element at position `i` (all of `s` if there is none).
pub open spec fn without<A>(s: Seq<A>, i: int) -> Seq<A>
    decreases s.len(),
{
    if s.len() == 0 {
        Seq::empty()
    } else if s.len() - 1 == i {
        without(s.drop_last(), i)
    } else {
        without(s.drop_last(), i).push(s.last())
    }
}

pub proof fn lemma_without_len<A>(s: Seq<A>, i: int)
    ensures
        without(s, i).len() == if 0 <= i < s.len() {
            s.len() - 1
        } else {
            s.len() as int
        },
    decreases s.len(),
{
    if s.len() > 0 {
        lemma_without_len(s.drop_last(), i);
    }
}

/// A left row followed by the right row without its join cell.
pub open spec fn combine(r1: Seq<DbValue>, r2: Seq<DbValue>, i2: int) -> Seq<DbValue> {
    r1 + without(r2, i2)
}

/// Both rows have their join cell, and the cells are equal.
pub open spec fn join_matches(r1: Seq<DbValue>, r2: Seq<DbValue>, i1: int, i2: int) -> bool {
    0 <= i1 < r1.len() && 0 <= i2 < r2.len() && r1[i1] == r2[i2]
}

/// The combined rows of one left row with the matching right rows, in
/// right order.
pub open spec fn join_row(r1: Seq<DbValue>, rows2: Seq<Seq<DbValue>>, i1: int, i2: int) -> Seq<
    Seq<DbValue>,
>
    decreases rows2.len(),
{
    if rows2.len() == 0 {
        Seq::empty()
    } else {
        let prev = join_row(r1, rows2.drop_last(), i1, i2);
        if join_matches(r1, rows2.last(), i1, i2) {
            prev.push(combine(r1, rows2.last(), i2))
        } else {
            prev
        }
    }
}

/// The nested-loop join: for each left row in order, its matches.
pub open spec fn join_rows(rows1: Seq<Seq<DbValue>>, rows2: Seq<Seq<DbValue>>, i1: int, i2: int) -> Seq<
    Seq<DbValue>,
>
    decreases rows1.len(),
{
    if rows1.len() == 0 {
        Seq::empty()
    } else {
        join_rows(rows1.drop_last(), rows2, i1, i2) + join_row(rows1.last(), rows2, i1, i2)
    }
}

/// The positions of the join column on each side, or the error naming it.
pub fn find_indexes<T: ManipulateTable>(table1: &T, table2: &T, by: &str) -> (r: Result<
    (usize, usize),
    JoinError,
>)
    ensures
        match r {
            Ok((i1, i2)) => column_index(column_names_of(table1), by@) == Some(i1 as int)
                && column_index(column_names_of(table2), by@) == Some(i2 as int),
            Err(e) => (column_index(column_names_of(table1), by@) is None || column_index(
                column_names_of(table2),
                by@,
            ) is None) && e.column@ == by@ && e.message@ == not_found_message(by@),
        },
{
    let name = by.to_owned();
    let index_1 = column_position(table1.get_column_names(), &name);
    let index_2 = column_position(table2.get_column_names(), &name);
    match (index_1, index_2) {
        (Some(i1), Some(i2)) => Ok((i1, i2)),
        _ => Err(column_not_found(by)),
    }
}

/// The left row's cells followed by the right row's, without the right
/// join cell.
pub fn create_row(row1: &TableRow, row2: &TableRow, index2: usize) -> (r: TableRow)
    ensures
        r@ == combine(row1@, row2@, index2 as int),
{
    let mut values = clone_values(row1.get_values().as_slice());
    let right = row2.get_values();
    let ghost left = row1@;
    let mut index: usize = 0;
    while index < right.len()
        invariant
            cells_view(right@) == row2@,
            index <= right@.len(),
            cells_view(values@) == left + without(row2@.subrange(0, index as int), index2 as int),
        decreases right.len() - index,
    {
        let ghost before = values@;
        let ghost sub = row2@.subrange(0, index + 1);
        assert(sub.drop_last() =~= row2@.subrange(0, index as int));
        if index != index2 {
            values.push(right[index].clone_value());
            assert(cells_view(values@) =~= cells_view(before).push(row2@[index as int]));
        }
        index = index + 1;
        assert(cells_view(values@) =~= left + without(row2@.subrange(0, index as int), index2 as int));
    }
    assert(row2@.subrange(0, row2@.len() as int) =~= row2@);
    TableRow::new(values)
}

/// The left columns followed by the right ones, without the right join
/// column.
pub fn find_column_names<T: ManipulateTable>(table1: &T, table2: &T, index_2: usize) -> (r: Vec<
    String,
>)
    ensures
        names_view(r@) == column_names_of(table1) + without(column_names_of(table2), index_2 as int),
{
    let left = table1.get_column_names();
    let right = table2.get_column_names();
    let mut column_names_result: Vec<String> = Vec::new();
    let mut i: usize = 0;
    while i < left.len()
        invariant
            i <= left@.len(),
            column_names_result@.len() == i,
            forall|m: int| 0 <= m < i ==> (#[trigger] column_names_result@[m])@ == left@[m]@,
        decreases left.len() - i,
    {
        column_names_result.push(left[i].clone());
        i = i + 1;
    }
    assert(names_view(column_names_result@) =~= names_view(left@));
    let ghost head = names_view(left@);
    let ghost rnames = names_view(right@);
    let mut index: usize = 0;
    while index < right.len()
        invariant
            rnames == names_view(right@),
            index <= right@.len(),
            names_view(column_names_result@) == head + without(
                rnames.subrange(0, index as int),
                index_2 as int,
            ),
        decreases right.len() - index,
    {
        let ghost before = column_names_result@;
        let ghost sub = rnames.subrange(0, index + 1);
        assert(sub.drop_last() =~= rnames.subrange(0, index as int));
        if index != index_2 {
            column_names_result.push(right[index].clone());
            assert(names_view(column_names_result@) =~= names_view(before).push(rnames[index as int]));
        }
        index = index + 1;
        assert(names_view(column_names_result@) =~= head + without(
            rnames.subrange(0, index as int),
            index_2 as int,
        ));
    }
    assert(rnames.subrange(0, rnames.len() as int) =~= rnames);
    column_names_result
}

/// Every pair of rows whose join cells are equal, combined, left rows in
/// order and, for each, right rows in order.
pub fn perform_inner_join(
    data_1: &Vec<TableRow>,
    data_2: &Vec<TableRow>,
    index_1: usize,
    index_2: usize,
) -> (r: Vec<TableRow>)
    ensures
        rows_view(r@) == join_rows(rows_view(data_1@), rows_view(data_2@), index_1 as int, index_2 as int),
{
    let ghost rows1 = rows_view(data_1@);
    let ghost rows2 = rows_view(data_2@);
    let ghost i1 = index_1 as int;
    let ghost i2 = index_2 as int;
    let mut result: Vec<TableRow> = Vec::new();
    let mut i: usize = 0;
    while i < data_1.len()
        invariant
            rows1 == rows_view(data_1@),
            rows2 == rows_view(data_2@),
            i1 == index_1,
            i2 == index_2,
            i <= data_1@.len(),
            rows_view(result@) == join_rows(rows1.subrange(0, i as int), rows2, i1, i2),
        decreases data_1.len() - i,
    {
        let row1 = &data_1[i];
        let values1 = row1.get_values();
        let ghost r1 = rows1[i as int];
        assert(r1 == row1@);
        let ghost done = rows_view(result@);
        let mut j: usize = 0;
        while j < data_2.len()
            invariant
                rows2 == rows_view(data_2@),
                i1 == index_1,
                i2 == index_2,
                r1 == row1@,
                cells_view(values1@) == r1,
                j <= data_2@.len(),
                rows_view(result@) == done + join_row(r1, rows2.subrange(0, j as int), i1, i2),
            decreases data_2.len() - j,
        {
            let row2 = &data_2[j];
            let values2 = row2.get_values();
            assert(rows2[j as int] == row2@);
            let ghost sub = rows2.subrange(0, j + 1);
            assert(sub.drop_last() =~= rows2.subrange(0, j as int));
            assert(sub.last() == row2@);
            let ghost before = rows_view(result@);
            if index_1 < values1.len() && index_2 < values2.len() {
                if values1[index_1].equals(&values2[index_2]) {
                    result.push(create_row(row1, row2, index_2));
                    assert(rows_view(result@) =~= before.push(combine(r1, row2@, i2)));
                }
            }
            j = j + 1;
            assert(rows_view(result@) =~= done + join_row(r1, rows2.subrange(0, j as int), i1, i2));
        }
        assert(rows2.subrange(0, rows2.len() as int) =~= rows2);
        let ghost next = rows1.subrange(0, i + 1);
        assert(next.drop_last() =~= rows1.subrange(0, i as int));
        assert(next.last() == r1);
        i = i + 1;
    }
    assert(rows1.subrange(0, rows1.len() as int) =~= rows1);
    result
}

/// Joined rows hold every left cell and every right cell but one.
pub proof fn lemma_join_rows_wf(
    rows1: Seq<Seq<DbValue>>,
    rows2: Seq<Seq<DbValue>>,
    n1: nat,
    n2: nat,
    i1: int,
    i2: int,
)
    requires
        forall|k: int| 0 <= k < rows1.len() ==> (#[trigger] rows1[k]).len() == n1,
        forall|k: int| 0 <= k < rows2.len() ==> (#[trigger] rows2[k]).len() == n2,
        0 <= i2 < n2,
    ensures
        forall|k: int|
            0 <= k < join_rows(rows1, rows2, i1, i2).len() ==> (#[trigger] join_rows(
                rows1,
                rows2,
                i1,
                i2,
            )[k]).len() == n1 + n2 - 1,
    decreases rows1.len(),
{
    if rows1.len() > 0 {
        lemma_join_rows_wf(rows1.drop_last(), rows2, n1, n2, i1, i2);
        lemma_join_row_wf(rows1.last(), rows2, n1, n2, i1, i2);
        let prev = join_rows(rows1.drop_last(), rows2, i1, i2);
        let last = join_row(rows1.last(), rows2, i1, i2);
        let all = join_rows(rows1, rows2, i1, i2);
        assert forall|k: int| 0 <= k < all.len() implies (#[trigger] all[k]).len() == n1 + n2 - 1 by {
            if k < prev.len() {
                assert(all[k] == prev[k]);
            } else {
                assert(all[k] == last[k - prev.len()]);
            }
        }
    }
}

pub proof fn lemma_join_row_wf(
    r1: Seq<DbValue>,
    rows2: Seq<Seq<DbValue>>,
    n1: nat,
    n2: nat,
    i1: int,
    i2: int,
)
    requires
        r1.len() == n1,
        forall|k: int| 0 <= k < rows2.len() ==> (#[trigger] rows2[k]).len() == n2,
        0 <= i2 < n2,
    ensures
        forall|k: int|
            0 <= k < join_row(r1, rows2, i1, i2).len() ==> (#[trigger] join_row(
                r1,
                rows2,
                i1,
                i2,
            )[k]).len() == n1 + n2 - 1,
    decreases rows2.len(),
{
    if rows2.len() > 0 {
        lemma_join_row_wf(r1, rows2.drop_last(), n1, n2, i1, i2);
        lemma_without_len(rows2.last(), i2);
        let prev = join_row(r1, rows2.drop_last(), i1, i2);
        let all = join_row(r1, rows2, i1, i2);
        assert forall|k: int| 0 <= k < all.len() implies (#[trigger] all[k]).len() == n1 + n2 - 1 by {
            if k < prev.len() {
                assert(all[k] == prev[k]);
            }
        }
    }
}

/// The equi-join of two relations on the column `by`: the left columns and
/// then the right ones without `by`; a row for every pair whose `by` cells
/// are equal. Fails when either side lacks the column.
pub fn inner_join<T: ManipulateTable>(table1: &T, table2: &T, by: &str) -> (r: Result<
    QueryResult,
    JoinError,
>)
    requires
        relation_wf(column_names_of(table1), rows_of(table1)),
        relation_wf(column_names_of(table2), rows_of(table2)),
    ensures
        r is Ok <==> (column_index(column_names_of(table1), by@) is Some && column_index(
            column_names_of(table2),
            by@,
        ) is Some),
        match r {
            Ok(q) => {
                let i1 = column_index(column_names_of(table1), by@)->0;
                let i2 = column_index(column_names_of(table2), by@)->0;
                &&& column_names_of(&q) == column_names_of(table1) + without(
                    column_names_of(table2),
                    i2,
                )
                &&& rows_of(&q) == join_rows(rows_of(table1), rows_of(table2), i1, i2)
                &&& relation_wf(column_names_of(&q), rows_of(&q))
            },
            Err(e) => e.column@ == by@ && e.message@ == not_found_message(by@),
        },
{
    let (index_1, index_2) = match find_indexes(table1, table2, by) {
        Ok(found) => found,
        Err(e) => {
            return Err(e);
        },
    };
    proof {
        lemma_column_index(column_names_of(table2), by@);
        lemma_without_len(column_names_of(table2), index_2 as int);
        lemma_join_rows_wf(
            rows_of(table1),
            rows_of(table2),
            column_names_of(table1).len(),
            column_names_of(table2).len(),
            index_1 as int,
            index_2 as int,
        );
    }
    let (data_1, data_2) = (table1.get_data(), table2.get_data());
    let result = perform_inner_join(data_1, data_2, index_1, index_2);
    let column_names_result = find_column_names(table1, table2, index_2);
    Ok(QueryResult::new(result, column_names_result))
}

} // verus!
