//! A typed table with optional primary-key enforcement.
use crate::bloom_filter::{BloomView, lemma_add_keeps_members, lemma_no_false_negatives};
use crate::db_type::{DbType, DbValue, same_variant};
use crate::encoding::{cells_view, encode_key, key_bytes};
use crate::metadata::MetaData;
use crate::rational_algebra::helper_functions::pick_values;
use crate::relation::{
    ManipulateTable, as_ints, column_position, names_view, pick, relation_wf, resolve_columns,
    lemma_resolve_in_range,
};
use crate::table_row::{TableRow, rows_view};
use vstd::prelude::*;

verus! {

/// Why a row was not stored.
#[derive(Clone, Copy, Debug, PartialEq, Eq, Structural)]
pub enum InsertError {
    /// The row has not one cell per column.
    LengthMismatch,
    /// A cell's variant differs from its column's.
    TypeMismatch,
    /// The encoded key is longer than the key hash can take.
    KeyTooLarge,
    /// The filter reports the key as already stored.
    DuplicateKey,
}

/// The abstract state of a table.
pub struct TableView {
    pub column_names: Seq<Seq<char>>,
    pub column_types: Seq<DbValue>,
    pub rows: Seq<Seq<DbValue>>,
    pub primary_key: Seq<int>,
    pub filter: BloomView,
}

impl TableView {
    /// One cell per column, each of its column's variant.
    pub open spec fn well_typed(self, row: Seq<DbValue>) -> bool {
        &&& row.len() == self.column_types.len()
        &&& forall|j: int| 0 <= j < row.len() ==> same_variant(#[trigger] row[j], self.column_types[j])
    }

    pub open spec fn wf(self) -> bool {
        &&& self.column_names.len() == self.column_types.len()
        &&& forall|i: int| 0 <= i < self.rows.len() ==> self.well_typed(#[trigger] self.rows[i])
        &&& forall|j: int|
            0 <= j < self.primary_key.len() ==> 0 <= #[trigger] self.primary_key[j]
                < self.column_names.len()
        &&& self.filter.bits.len() > 0
    }

    /// A row's cells at the primary-key positions.
    pub open spec fn key_of(self, row: Seq<DbValue>) -> Seq<DbValue> {
        pick(row, self.primary_key)
    }

    /// What inserting `row` returns.
    pub open spec fn insert_result(self, row: Seq<DbValue>) -> Result<(), InsertError> {
        let key = key_bytes(self.key_of(row));
        if row.len() != self.column_types.len() {
            Err(InsertError::LengthMismatch)
        } else if !self.well_typed(row) {
            Err(InsertError::TypeMismatch)
        } else if self.primary_key.len() > 0 && key.len() > u32::MAX {
            Err(InsertError::KeyTooLarge)
        } else if self.primary_key.len() > 0 && self.filter.may_contain(key) {
            Err(InsertError::DuplicateKey)
        } else {
            Ok(())
        }
    }

    /// The table after inserting `row`: on success the row is appended and,
    /// under a primary key, its key added to the filter; on failure nothing
    /// changes.
    pub open spec fn inserted(self, row: Seq<DbValue>) -> TableView {
        if self.insert_result(row) is Ok {
            TableView {
                rows: self.rows.push(row),
                filter: if self.primary_key.len() > 0 {
                    self.filter.with_item(key_bytes(self.key_of(row)))
                } else {
                    self.filter
                },
                ..self
            }
        } else {
            self
        }
    }

    /// The table after inserting each of `rows`, in order.
    pub open spec fn inserted_all(self, rows: Seq<Seq<DbValue>>) -> TableView
        decreases rows.len(),
    {
        if rows.len() == 0 {
            self
        } else {
            self.inserted_all(rows.drop_last()).inserted(rows.last())
        }
    }
}

/// Inserting keeps the table well formed, keeps its columns, types and
/// key, and keeps every key that the filter already reported.
pub proof fn lemma_inserted_all_keeps(t: TableView, rows: Seq<Seq<DbValue>>, key: Seq<u8>)
    requires
        t.wf(),
    ensures
        t.inserted_all(rows).wf(),
        t.inserted_all(rows).column_names == t.column_names,
        t.inserted_all(rows).column_types == t.column_types,
        t.inserted_all(rows).primary_key == t.primary_key,
        t.inserted_all(rows).filter.num_hashes == t.filter.num_hashes,
        t.inserted_all(rows).filter.bits.len() == t.filter.bits.len(),
        t.filter.may_contain(key) ==> t.inserted_all(rows).filter.may_contain(key),
    decreases rows.len(),
{
    if rows.len() > 0 {
        lemma_inserted_all_keeps(t, rows.drop_last(), key);
        let u = t.inserted_all(rows.drop_last());
        let row = rows.last();
        if u.insert_result(row) is Ok {
            let v = u.inserted(row);
            assert forall|i: int| 0 <= i < v.rows.len() implies v.well_typed(#[trigger] v.rows[i]) by {
                if i < u.rows.len() {
                    assert(v.rows[i] == u.rows[i]);
                }
            }
            if u.primary_key.len() > 0 && u.filter.may_contain(key) {
                lemma_add_keeps_members(u.filter, key, key_bytes(u.key_of(row)));
            }
        }
    }
}

/// Primary-key enforcement: once a row is stored under a declared key, a
/// later row with the same key cells is rejected as a duplicate, whatever
/// rows were inserted in between.
pub proof fn lemma_duplicate_key_rejected(
    t: TableView,
    first: Seq<DbValue>,
    middle: Seq<Seq<DbValue>>,
    second: Seq<DbValue>,
)
    requires
        t.wf(),
        t.primary_key.len() > 0,
        t.insert_result(first) is Ok,
        t.well_typed(second),
        t.key_of(second) == t.key_of(first),
    ensures
        t.inserted(first).inserted_all(middle).insert_result(second) == Err::<(), InsertError>(
            InsertError::DuplicateKey,
        ),
{
    let key = key_bytes(t.key_of(first));
    let u = t.inserted(first);
    lemma_no_false_negatives(t.filter, key, Seq::empty());
    assert(u.wf()) by {
        assert forall|i: int| 0 <= i < u.rows.len() implies u.well_typed(#[trigger] u.rows[i]) by {
            if i < t.rows.len() {
                assert(u.rows[i] == t.rows[i]);
            }
        }
    }
    lemma_inserted_all_keeps(u, middle, key);
}

pub struct Table {
    name_of_table: String,
    meta_data: MetaData,
    data: Vec<TableRow>,
    column_names: Vec<String>,
    column_types: Vec<DbType>,
}

impl ManipulateTable for Table {
    closed spec fn spec_column_names(&self) -> Seq<String> {
        self.column_names@
    }

    closed spec fn spec_data(&self) -> Seq<TableRow> {
        self.data@
    }

    fn get_column_names(&self) -> (r: &Vec<String>) {
        &self.column_names
    }

    fn get_data(&self) -> (r: &Vec<TableRow>) {
        &self.data
    }
}

impl View for Table {
    type V = TableView;

    open spec fn view(&self) -> TableView {
        TableView {
            column_names: names_view(self.spec_column_names()),
            column_types: cells_view(self.spec_column_types()),
            rows: rows_view(self.spec_data()),
            primary_key: as_ints(self.spec_meta_data().spec_primary_key()),
            filter: self.spec_meta_data().spec_filter(),
        }
    }
}

impl Table {
    pub closed spec fn spec_name(&self) -> Seq<char> {
        self.name_of_table@
    }

    pub closed spec fn spec_column_types(&self) -> Seq<DbType> {
        self.column_types@
    }

    pub closed spec fn spec_meta_data(&self) -> MetaData {
        self.meta_data
    }

    pub open spec fn wf(&self) -> bool {
        self@.wf()
    }

    /// A well-formed table is a relation: every row has one cell per column.
    pub proof fn lemma_relation_wf(&self)
        requires
            self.wf(),
        ensures
            relation_wf(self@.column_names, self@.rows),
    {
        assert forall|i: int| 0 <= i < self@.rows.len() implies (#[trigger] self@.rows[i]).len()
            == self@.column_names.len() by {
            assert(self@.well_typed(self@.rows[i]));
        }
    }

    /// An empty table with the given columns, one type (a sample cell) per
    /// column.
    pub fn new(
        name_of_table: String,
        meta_data: MetaData,
        column_names: Vec<String>,
        column_types: Vec<DbType>,
    ) -> (r: Table)
        requires
            column_names@.len() == column_types@.len(),
            meta_data.wf(),
            forall|j: int|
                0 <= j < meta_data.spec_primary_key().len() ==> #[trigger] meta_data.spec_primary_key()[j]
                    < column_names@.len(),
        ensures
            r.wf(),
            r.spec_name() == name_of_table@,
            r.spec_meta_data().spec_table_capacity() == meta_data.spec_table_capacity(),
            r@ == (TableView {
                column_names: names_view(column_names@),
                column_types: cells_view(column_types@),
                rows: Seq::empty(),
                primary_key: as_ints(meta_data.spec_primary_key()),
                filter: meta_data.spec_filter(),
            }),
    {
        let capacity = meta_data.get_table_capacity();
        let r = Table {
            name_of_table,
            meta_data,
            data: Vec::with_capacity(capacity),
            column_names,
            column_types,
        };
        assert(r@.rows =~= Seq::<Seq<DbValue>>::empty());
        r
    }

    /// The declared type of each column.
    pub fn get_column_types(&self) -> (r: &Vec<DbType>)
        ensures
            cells_view(r@) == self@.column_types,
    {
        &self.column_types
    }

    /// The table's name.
    pub fn get_name(&self) -> (r: &String)
        ensures
            r@ == self.spec_name(),
    {
        &self.name_of_table
    }

    /// Declares the primary key over the named columns; unknown names are
    /// dropped. Replaces any earlier key.
    pub fn set_primary_key(&mut self, column: &[String])
        requires
            old(self).wf(),
        ensures
            final(self).wf(),
            final(self)@ == (TableView {
                primary_key: resolve_columns(old(self)@.column_names, names_view(column@)),
                ..old(self)@
            }),
            final(self).spec_name() == old(self).spec_name(),
            final(self).spec_meta_data().spec_table_capacity() == old(
                self,
            ).spec_meta_data().spec_table_capacity(),
    {
        let ghost names = names_view(self.column_names@);
        let mut indices: Vec<usize> = Vec::new();
        let mut i: usize = 0;
        while i < column.len()
            invariant
                names == names_view(self.column_names@),
                i <= column@.len(),
                as_ints(indices@) == resolve_columns(names, names_view(column@.subrange(0, i as int))),
            decreases column.len() - i,
        {
            let found = column_position(&self.column_names, &column[i]);
            proof {
                let cs = names_view(column@.subrange(0, i + 1));
                assert(cs.drop_last() =~= names_view(column@.subrange(0, i as int)));
                assert(cs.last() == column@[i as int]@);
            }
            match found {
                Some(index) => {
                    indices.push(index);
                },
                None => {},
            }
            i = i + 1;
            assert(as_ints(indices@) =~= resolve_columns(
                names,
                names_view(column@.subrange(0, i as int)),
            ));
        }
        assert(column@.subrange(0, column@.len() as int) =~= column@);
        proof {
            lemma_resolve_in_range(names, names_view(column@));
        }
        self.meta_data.set_pk(indices);
    }

    /// Inserts a row: it must have one cell per column, each of its
    /// column's variant, and under a primary key its key must not be in the
    /// filter. On success the row is appended and its key added; on any
    /// error the table is unchanged.
    pub fn insert(&mut self, data: Vec<DbType>) -> (r: Result<(), InsertError>)
        requires
            old(self).wf(),
        ensures
            final(self).wf(),
            r == old(self)@.insert_result(cells_view(data@)),
            final(self)@ == old(self)@.inserted(cells_view(data@)),
            final(self).spec_name() == old(self).spec_name(),
            final(self).spec_meta_data().spec_table_capacity() == old(
                self,
            ).spec_meta_data().spec_table_capacity(),
    {
        let ghost row = cells_view(data@);
        let ghost t = self@;
        if data.len() != self.column_types.len() {
            return Err(InsertError::LengthMismatch);
        }
        let mut i: usize = 0;
        while i < data.len()
            invariant
                *self == *old(self),
                old(self).wf(),
                t == old(self)@,
                data@.len() == self.column_types@.len(),
                row == cells_view(data@),
                t.column_types == cells_view(self.column_types@),
                i <= data@.len(),
                forall|j: int| 0 <= j < i ==> same_variant(#[trigger] row[j], t.column_types[j]),
            decreases data.len() - i,
        {
            if !data[i].same_variant_as(&self.column_types[i]) {
                assert(!same_variant(row[i as int], t.column_types[i as int]));
                return Err(InsertError::TypeMismatch);
            }
            i = i + 1;
        }
        assert(t.well_typed(row));
        if self.meta_data.get_pk().len() == 0 {
            self.data.push(TableRow::new(data));
            assert(self@.rows =~= t.rows.push(row));
            return Ok(());
        }
        let pk = self.meta_data.get_pk();
        proof {
            assert forall|j: int| 0 <= j < pk@.len() implies #[trigger] pk@[j] < data@.len() by {
                assert(t.primary_key[j] == pk@[j] as int);
            }
        }
        let key = pick_values(data.as_slice(), pk.as_slice());
        let bytes = encode_key(key.as_slice());
        assert(bytes@ == key_bytes(t.key_of(row)));
        if bytes.len() > u32::MAX as usize {
            return Err(InsertError::KeyTooLarge);
        }
        let duplicate = self.meta_data.get_filter().check(bytes.as_slice());
        if duplicate {
            return Err(InsertError::DuplicateKey);
        }
        self.data.push(TableRow::new(data));
        self.meta_data.get_filter().add(bytes.as_slice());
        assert(self@.rows =~= t.rows.push(row));
        Ok(())
    }
}

} // verus!
