//! A row: the ordered cells of one record.
use crate::db_type::{DbType, DbValue};
use crate::encoding::cells_view;
use vstd::prelude::*;

verus! {

pub struct TableRow {
    values: Vec<DbType>,
}

impl View for TableRow {
    type V = Seq<DbValue>;

    closed spec fn view(&self) -> Seq<DbValue> {
        cells_view(self.values@)
    }
}

/// The cell views of a sequence of rows.
pub open spec fn rows_view(rows: Seq<TableRow>) -> Seq<Seq<DbValue>> {
    rows.map_values(|r: TableRow| r@)
}

/// A copy of a sequence of cells.
pub fn clone_values(values: &[DbType]) -> (r: Vec<DbType>)
    ensures
        cells_view(r@) == cells_view(values@),
{
    let mut out: Vec<DbType> = Vec::new();
    let mut i: usize = 0;
    while i < values.len()
        invariant
            i <= values@.len(),
            out@.len() == i,
            forall|j: int| 0 <= j < i ==> (#[trigger] out@[j])@ == values@[j]@,
        decreases values.len() - i,
    {
        out.push(values[i].clone_value());
        i = i + 1;
    }
    assert(cells_view(out@) =~= cells_view(values@));
    out
}

impl TableRow {
    pub fn new(values: Vec<DbType>) -> (r: TableRow)
        ensures
            r@ == cells_view(values@),
    {
        TableRow { values }
    }

    pub fn get_values(&self) -> (r: &Vec<DbType>)
        ensures
            cells_view(r@) == self@,
    {
        &self.values
    }

    /// A copy of the row with its own storage.
    pub fn clone_row(&self) -> (r: TableRow)
        ensures
            r@ == self@,
    {
        TableRow { values: clone_values(self.values.as_slice()) }
    }
}

} // verus!
