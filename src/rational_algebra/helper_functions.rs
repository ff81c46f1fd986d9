//! Resolution of requested column names to positions.
use crate::db_type::DbType;
use crate::encoding::cells_view;
use crate::relation::{
    ManipulateTable, as_ints, column_names_of, column_position, names_view, pick, resolve_columns,
};
use vstd::prelude::*;

verus! {

/// The positions of the requested columns that exist, in request order,
/// each at its first occurrence; unknown names are dropped.
pub fn find_indexes<T: ManipulateTable>(table: &T, columns: &[String]) -> (r: Vec<usize>)
    ensures
        as_ints(r@) == resolve_columns(column_names_of(table), names_view(columns@)),
{
    let column_names = table.get_column_names();
    let ghost names = column_names_of(table);
    let mut indexes: Vec<usize> = Vec::new();
    let mut i: usize = 0;
    while i < columns.len()
        invariant
            names == names_view(column_names@),
            i <= columns@.len(),
            as_ints(indexes@) == resolve_columns(names, names_view(columns@.subrange(0, i as int))),
        decreases columns.len() - i,
    {
        let found = column_position(column_names, &columns[i]);
        proof {
            let cs = names_view(columns@.subrange(0, i + 1));
            assert(cs.drop_last() =~= names_view(columns@.subrange(0, i as int)));
            assert(cs.last() == columns@[i as int]@);
        }
        match found {
            Some(index) => {
                indexes.push(index);
            },
            None => {},
        }
        i = i + 1;
        assert(as_ints(indexes@) =~= resolve_columns(
            names,
            names_view(columns@.subrange(0, i as int)),
        ));
    }
    assert(columns@.subrange(0, columns@.len() as int) =~= columns@);
    indexes
}

/// The cells at the positions `indexes`, in that order.
pub fn pick_values(values: &[DbType], indexes: &[usize]) -> (r: Vec<DbType>)
    requires
        forall|j: int| 0 <= j < indexes@.len() ==> #[trigger] indexes@[j] < values@.len(),
    ensures
        cells_view(r@) == pick(cells_view(values@), as_ints(indexes@)),
{
    let mut picked: Vec<DbType> = Vec::new();
    let mut j: usize = 0;
    while j < indexes.len()
        invariant
            forall|m: int| 0 <= m < indexes@.len() ==> #[trigger] indexes@[m] < values@.len(),
            j <= indexes@.len(),
            picked@.len() == j,
            forall|m: int|
                0 <= m < j ==> (#[trigger] picked@[m])@ == values@[indexes@[m] as int]@,
        decreases indexes.len() - j,
    {
        picked.push(values[indexes[j]].clone_value());
        j = j + 1;
    }
    assert(cells_view(picked@) =~= pick(cells_view(values@), as_ints(indexes@)));
    picked
}

/// Whether two cell sequences are equal, cell by cell.
pub fn values_equal(a: &[DbType], b: &[DbType]) -> (r: bool)
    ensures
        r == (cells_view(a@) == cells_view(b@)),
{
    if a.len() != b.len() {
        return false;
    }
    let mut i: usize = 0;
    while i < a.len()
        invariant
            a@.len() == b@.len(),
            i <= a@.len(),
            forall|m: int| 0 <= m < i ==> (#[trigger] a@[m])@ == b@[m]@,
        decreases a.len() - i,
    {
        if !a[i].equals(&b[i]) {
            assert(cells_view(a@)[i as int] != cells_view(b@)[i as int]);
            return false;
        }
        i = i + 1;
    }
    assert(cells_view(a@) =~= cells_view(b@));
    true
}

} // verus!
