//! The relation that an operator returns.
use crate::relation::ManipulateTable;
use crate::table_row::TableRow;
use vstd::prelude::*;

verus! {

pub struct QueryResult {
    data: Vec<TableRow>,
    column_names: Vec<String>,
}

impl QueryResult {
    pub fn new(data: Vec<TableRow>, column: Vec<String>) -> (r: QueryResult)
        ensures
            r.spec_data() == data@,
            r.spec_column_names() == column@,
    {
        QueryResult { data, column_names: column }
    }
}

impl ManipulateTable for QueryResult {
    closed spec fn spec_column_names(&self) -> Seq<String> {
        self.column_names@
    }

    closed spec fn spec_data(&self) -> Seq<TableRow> {
        self.data@
    }

    fn get_column_names(&self) -> (r: &Vec<String>) {
        &self.column_names
    }

    fn get_data(&self) -> (r: &Vec<TableRow>) {
        &self.data
    }
}

} // verus!
