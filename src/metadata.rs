//! Per-table metadata: the primary key and the filter that enforces it.
use crate::bloom_filter::{BloomFilter, BloomView};
use vstd::prelude::*;

verus! {

pub struct MetaData {
    primary_key: Vec<usize>,
    pk_filter: BloomFilter,
    table_capacity: usize,
}

impl MetaData {
    /// The column positions of the primary key; empty when none is declared.
    pub closed spec fn spec_primary_key(&self) -> Seq<usize> {
        self.primary_key@
    }

    /// The filter of the keys stored so far.
    pub closed spec fn spec_filter(&self) -> BloomView {
        self.pk_filter@
    }

    /// The number of rows the filter was sized for.
    pub closed spec fn spec_table_capacity(&self) -> nat {
        self.table_capacity as nat
    }

    pub open spec fn wf(&self) -> bool {
        self.spec_filter().bits.len() > 0
    }

    /// Metadata with no primary key, and `pk_filter` sized for
    /// `table_capacity` rows.
    pub fn new(table_capacity: usize, pk_filter: BloomFilter) -> (r: MetaData)
        requires
            pk_filter.wf(),
        ensures
            r.wf(),
            r.spec_primary_key() == Seq::<usize>::empty(),
            r.spec_filter() == pk_filter@,
            r.spec_table_capacity() == table_capacity,
    {
        MetaData { primary_key: Vec::new(), pk_filter, table_capacity }
    }

    /// Declares the primary key, replacing any earlier one.
    pub fn set_pk(&mut self, indexes: Vec<usize>)
        ensures
            final(self).spec_primary_key() == indexes@,
            final(self).spec_filter() == old(self).spec_filter(),
            final(self).spec_table_capacity() == old(self).spec_table_capacity(),
    {
        self.primary_key = indexes;
    }

    pub fn get_pk(&self) -> (r: &Vec<usize>)
        ensures
            r@ == self.spec_primary_key(),
    {
        &self.primary_key
    }

    pub fn get_table_capacity(&self) -> (r: usize)
        ensures
            r == self.spec_table_capacity(),
    {
        self.table_capacity
    }

    /// The filter, for the table to query and update.
    pub fn get_filter(&mut self) -> (r: &mut BloomFilter)
        ensures
            r@ == old(self).spec_filter(),
            final(self).spec_filter() == final(r)@,
            final(self).spec_primary_key() == old(self).spec_primary_key(),
            final(self).spec_table_capacity() == old(self).spec_table_capacity(),
    {
        &mut self.pk_filter
    }
}

} // verus!
