//! The relation capability shared by tables and query results, and the
//! column lookups that the operators build on.
use crate::condition::column_index;
use crate::db_type::DbValue;
use crate::table_row::{TableRow, rows_view};
use vstd::prelude::*;

verus! {

/// A relation: ordered column names and ordered rows.
pub trait ManipulateTable {
    spec fn spec_column_names(&self) -> Seq<String>;

    spec fn spec_data(&self) -> Seq<TableRow>;

    fn get_column_names(&self) -> (r: &Vec<String>)
        ensures
            r@ == self.spec_column_names(),
    ;

    fn get_data(&self) -> (r: &Vec<TableRow>)
        ensures
            r@ == self.spec_data(),
    ;
}

/// The texts of a sequence of names.
pub open spec fn names_view(names: Seq<String>) -> Seq<Seq<char>> {
    names.map_values(|s: String| s@)
}

/// Indexes as integers.
pub open spec fn as_ints(v: Seq<usize>) -> Seq<int> {
    v.map_values(|i: usize| i as int)
}

/// Every row has one cell per column.
pub open spec fn relation_wf(names: Seq<Seq<char>>, rows: Seq<Seq<DbValue>>) -> bool {
    forall|i: int| 0 <= i < rows.len() ==> (#[trigger] rows[i]).len() == names.len()
}

/// The column names of a relation, as texts.
pub open spec fn column_names_of<T: ManipulateTable>(t: &T) -> Seq<Seq<char>> {
    names_view(t.spec_column_names())
}

/// The rows of a relation, as cell values.
pub open spec fn rows_of<T: ManipulateTable>(t: &T) -> Seq<Seq<DbValue>> {
    rows_view(t.spec_data())
}

/// The elements of `s` at the positions `idx`, in that order.
pub open spec fn pick<A>(s: Seq<A>, idx: Seq<int>) -> Seq<A> {
    Seq::new(idx.len(), |j: int| s[idx[j]])
}

/// The requested columns resolved to positions: names that are not columns
/// are dropped, the others taken at their first occurrence.
pub open spec fn resolve_columns(names: Seq<Seq<char>>, columns: Seq<Seq<char>>) -> Seq<int>
    decreases columns.len(),
{
    if columns.len() == 0 {
        Seq::empty()
    } else {
        let prev = resolve_columns(names, columns.drop_last());
        match column_index(names, columns.last()) {
            Some(i) => prev.push(i),
            None => prev,
        }
    }
}

/// A found column index is the first position holding that name.
pub proof fn lemma_column_index(names: Seq<Seq<char>>, c: Seq<char>)
    ensures
        column_index(names, c) matches Some(i) ==> 0 <= i < names.len() && names[i] == c && forall|
            j: int,
        | 0 <= j < i ==> names[j] != c,
        column_index(names, c) is None ==> forall|j: int| 0 <= j < names.len() ==> names[j] != c,
    decreases names.len(),
{
    if names.len() > 0 {
        lemma_column_index(names.drop_last(), c);
        assert forall|j: int| 0 <= j < names.len() - 1 implies names.drop_last()[j] == names[j] by {}
    }
}

/// A column found in a prefix of the names is the one found in all of them.
pub proof fn lemma_column_index_prefix(names: Seq<Seq<char>>, c: Seq<char>, k: int)
    requires
        0 <= k <= names.len(),
        column_index(names.subrange(0, k), c) is Some,
    ensures
        column_index(names, c) == column_index(names.subrange(0, k), c),
    decreases names.len(),
{
    if k == names.len() {
        assert(names.subrange(0, k) =~= names);
    } else {
        assert(names.drop_last().subrange(0, k) =~= names.subrange(0, k));
        lemma_column_index_prefix(names.drop_last(), c, k);
    }
}

/// Resolved positions lie inside the relation.
pub proof fn lemma_resolve_in_range(names: Seq<Seq<char>>, columns: Seq<Seq<char>>)
    ensures
        forall|j: int|
            0 <= j < resolve_columns(names, columns).len() ==> 0 <= #[trigger] resolve_columns(
                names,
                columns,
            )[j] < names.len(),
    decreases columns.len(),
{
    if columns.len() > 0 {
        let prev = resolve_columns(names, columns.drop_last());
        let all = resolve_columns(names, columns);
        lemma_resolve_in_range(names, columns.drop_last());
        lemma_column_index(names, columns.last());
        assert forall|j: int| 0 <= j < all.len() implies 0 <= #[trigger] all[j] < names.len() by {
            if j < prev.len() {
                assert(all[j] == prev[j]);
            }
        }
    }
}

/// The position of the first column named `name`.
pub fn column_position(names: &Vec<String>, name: &String) -> (r: Option<usize>)
    ensures
        r matches Some(i) ==> column_index(names_view(names@), name@) == Some(i as int),
        r is None ==> column_index(names_view(names@), name@) is None,
{
    let ghost nv = names_view(names@);
    let mut i: usize = 0;
    while i < names.len()
        invariant
            i <= names@.len(),
            nv == names_view(names@),
            column_index(nv.subrange(0, i as int), name@) is None,
        decreases names.len() - i,
    {
        if names[i].eq(name) {
            proof {
                assert(nv.subrange(0, i + 1).drop_last() =~= nv.subrange(0, i as int));
                lemma_column_index_prefix(nv, name@, i + 1);
            }
            return Some(i);
        }
        assert(nv.subrange(0, i + 1).drop_last() =~= nv.subrange(0, i as int));
        i = i + 1;
    }
    assert(nv.subrange(0, nv.len() as int) =~= nv);
    None
}

} // verus!
