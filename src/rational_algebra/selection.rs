//! Selection: keep the rows that meet a condition.
use crate::condition::{Condition, Operator, column_index, compare, fields_known, holds};
use crate::db_type::{DbType, DbValue};
use crate::encoding::cells_view;
use crate::query_result::QueryResult;
use crate::relation::{
    ManipulateTable, column_names_of, column_position, lemma_column_index, names_view, relation_wf,
    rows_of,
};
use crate::table_row::{TableRow, rows_view};
use vstd::prelude::*;

verus! {

/// A condition with its field names resolved to column positions.
pub enum CompiledCondition {
    Simple { index: usize, operator: Operator, value: DbType },
    And(Box<CompiledCondition>, Box<CompiledCondition>),
    Or(Box<CompiledCondition>, Box<CompiledCondition>),
}

impl CompiledCondition {
    /// Every position that the condition reads is below `n`.
    pub open spec fn indexes_below(&self, n: nat) -> bool
        decreases self,
    {
        match self {
            CompiledCondition::Simple { index, .. } => *index < n,
            CompiledCondition::And(l, r) => l.indexes_below(n) && r.indexes_below(n),
            CompiledCondition::Or(l, r) => l.indexes_below(n) && r.indexes_below(n),
        }
    }

    /// Whether `row` meets the condition.
    pub open spec fn spec_eval(&self, row: Seq<DbValue>) -> bool
        decreases self,
    {
        match self {
            CompiledCondition::Simple { index, operator, value } => compare(
                row[*index as int],
                *operator,
                value@,
            ),
            CompiledCondition::And(l, r) => l.spec_eval(row) && r.spec_eval(row),
            CompiledCondition::Or(l, r) => l.spec_eval(row) || r.spec_eval(row),
        }
    }

    /// Evaluates the condition on a row, left to right, with short-circuit.
    pub fn matches_row(&self, row: &[DbType]) -> (r: bool)
        requires
            self.indexes_below(row@.len()),
        ensures
            r == self.spec_eval(cells_view(row@)),
        decreases self,
    {
        match self {
            CompiledCondition::Simple { index, operator, value } => {
                evaluate(&row[*index], operator, value)
            },
            CompiledCondition::And(l, r) => l.matches_row(row) && r.matches_row(row),
            CompiledCondition::Or(l, r) => l.matches_row(row) || r.matches_row(row),
        }
    }
}

/// The comparison of a cell with a literal.
pub fn evaluate(row_value: &DbType, operator: &Operator, value: &DbType) -> (r: bool)
    ensures
        r == compare(row_value@, *operator, value@),
{
    match operator {
        Operator::Equals => row_value.equals(value),
        Operator::LessThan => row_value.less_than(value),
        Operator::GreaterThan => value.less_than(row_value),
        Operator::NotEquals => !row_value.equals(value),
    }
}

/// Resolves the condition's field names against the columns once, so that
/// rows are then tested without looking names up.
pub fn make_condition_evaluator(condition: &Condition, column_names: &Vec<String>) -> (r:
    CompiledCondition)
    requires
        fields_known(*condition, names_view(column_names@)),
    ensures
        r.indexes_below(column_names@.len()),
        forall|row: Seq<DbValue>|
            row.len() == column_names@.len() ==> #[trigger] r.spec_eval(row) == holds(
                *condition,
                names_view(column_names@),
                row,
            ),
    decreases condition,
{
    match condition {
        Condition::Simple { field, operator, value } => {
            let found = column_position(column_names, field);
            proof {
                lemma_column_index(names_view(column_names@), field@);
            }
            match found {
                Some(index) => {
                    let r = CompiledCondition::Simple {
                        index,
                        operator: *operator,
                        value: value.clone_value(),
                    };
                    assert forall|row: Seq<DbValue>|
                        row.len() == column_names@.len() implies #[trigger] r.spec_eval(row)
                        == holds(*condition, names_view(column_names@), row) by {
                        assert(column_index(names_view(column_names@), field@) == Some(index as int));
                    }
                    r
                },
                None => {
                    proof {
                        assert(false);
                    }
                    CompiledCondition::Simple { index: 0, operator: *operator, value: value.clone_value() }
                },
            }
        },
        Condition::And(lhs, rhs) => {
            let left_operand = make_condition_evaluator(lhs, column_names);
            let right_operand = make_condition_evaluator(rhs, column_names);
            let r = CompiledCondition::And(Box::new(left_operand), Box::new(right_operand));
            assert forall|row: Seq<DbValue>|
                row.len() == column_names@.len() implies #[trigger] r.spec_eval(row) == holds(
                *condition,
                names_view(column_names@),
                row,
            ) by {
                assert(left_operand.spec_eval(row) == holds(**lhs, names_view(column_names@), row));
                assert(right_operand.spec_eval(row) == holds(**rhs, names_view(column_names@), row));
            }
            r
        },
        Condition::Or(lhs, rhs) => {
            let left_operand = make_condition_evaluator(lhs, column_names);
            let right_operand = make_condition_evaluator(rhs, column_names);
            let r = CompiledCondition::Or(Box::new(left_operand), Box::new(right_operand));
            assert forall|row: Seq<DbValue>|
                row.len() == column_names@.len() implies #[trigger] r.spec_eval(row) == holds(
                *condition,
                names_view(column_names@),
                row,
            ) by {
                assert(left_operand.spec_eval(row) == holds(**lhs, names_view(column_names@), row));
                assert(right_operand.spec_eval(row) == holds(**rhs, names_view(column_names@), row));
            }
            r
        },
    }
}

/// The rows that meet the condition, in their order.
pub open spec fn select_rows(rows: Seq<Seq<DbValue>>, c: Condition, names: Seq<Seq<char>>) -> Seq<
    Seq<DbValue>,
>
    decreases rows.len(),
{
    if rows.len() == 0 {
        Seq::empty()
    } else {
        let prev = select_rows(rows.drop_last(), c, names);
        if holds(c, names, rows.last()) {
            prev.push(rows.last())
        } else {
            prev
        }
    }
}

/// The rows of `table` that meet `condition`, in order, with the same
/// columns. Every field that the condition names must be a column.
pub fn selection<T: ManipulateTable>(table: &T, condition: &Condition) -> (r: QueryResult)
    requires
        relation_wf(column_names_of(table), rows_of(table)),
        fields_known(*condition, column_names_of(table)),
    ensures
        column_names_of(&r) == column_names_of(table),
        rows_of(&r) == select_rows(rows_of(table), *condition, column_names_of(table)),
        relation_wf(column_names_of(&r), rows_of(&r)),
{
    let column_names = table.get_column_names();
    let evaluator = make_condition_evaluator(condition, column_names);
    let data = table.get_data();
    let ghost names = column_names_of(table);
    let ghost rows = rows_of(table);
    let mut result: Vec<TableRow> = Vec::new();
    let mut i: usize = 0;
    while i < data.len()
        invariant
            rows == rows_view(data@),
            names == names_view(column_names@),
            relation_wf(names, rows),
            evaluator.indexes_below(column_names@.len()),
            forall|row: Seq<DbValue>|
                row.len() == column_names@.len() ==> #[trigger] evaluator.spec_eval(row) == holds(
                    *condition,
                    names,
                    row,
                ),
            i <= data@.len(),
            rows_view(result@) == select_rows(rows.subrange(0, i as int), *condition, names),
        decreases data.len() - i,
    {
        let row = &data[i];
        let values = row.get_values();
        assert(rows[i as int] == row@);
        let keep = evaluator.matches_row(values.as_slice());
        let ghost before = result@;
        if keep {
            result.push(row.clone_row());
            assert(rows_view(result@) =~= rows_view(before).push(rows[i as int]));
        }
        proof {
            let sub = rows.subrange(0, i + 1);
            assert(sub.drop_last() =~= rows.subrange(0, i as int));
            assert(sub.last() == rows[i as int]);
        }
        i = i + 1;
    }
    assert(rows.subrange(0, rows.len() as int) =~= rows);
    proof {
        lemma_select_rows_subset(rows, *condition, names);
    }
    QueryResult::new(result, column_names.clone())
}

/// Each selected row is a row of the input.
pub proof fn lemma_select_rows_subset(rows: Seq<Seq<DbValue>>, c: Condition, names: Seq<Seq<char>>)
    ensures
        forall|k: int|
            0 <= k < select_rows(rows, c, names).len() ==> exists|m: int|
                0 <= m < rows.len() && #[trigger] select_rows(rows, c, names)[k] == rows[m],
    decreases rows.len(),
{
    if rows.len() > 0 {
        lemma_select_rows_subset(rows.drop_last(), c, names);
        let prev = select_rows(rows.drop_last(), c, names);
        let all = select_rows(rows, c, names);
        assert forall|k: int| 0 <= k < all.len() implies exists|m: int|
            0 <= m < rows.len() && #[trigger] all[k] == rows[m] by {
            if k < prev.len() {
                assert(all[k] == prev[k]);
                let m = choose|m: int| 0 <= m < rows.drop_last().len() && prev[k] == rows.drop_last()[m];
                assert(rows[m] == rows.drop_last()[m]);
            } else {
                assert(all[k] == rows[rows.len() - 1]);
            }
        }
    }
}

} // verus!
