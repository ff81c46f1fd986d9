//! Selection predicates: a tree of field comparisons joined by AND and OR.
use crate::db_type::{DbType, DbValue, value_less};
use vstd::prelude::*;

verus! {

#[derive(Clone, Copy, Debug, PartialEq, Eq, Structural)]
pub enum Operator {
    Equals,
    LessThan,
    GreaterThan,
    NotEquals,
}

pub enum Condition {
    Simple { field: String, operator: Operator, value: DbType },
    And(Box<Condition>, Box<Condition>),
    Or(Box<Condition>, Box<Condition>),
}

/// The comparison of a cell with a literal. Cells of different variants
/// are never equal and never ordered.
pub open spec fn compare(a: DbValue, operator: Operator, b: DbValue) -> bool {
    match operator {
        Operator::Equals => a == b,
        Operator::NotEquals => a != b,
        Operator::LessThan => value_less(a, b),
        Operator::GreaterThan => value_less(b, a),
    }
}

/// The position of the first column named `c`, if any.
pub open spec fn column_index(names: Seq<Seq<char>>, c: Seq<char>) -> Option<int>
    decreases names.len(),
{
    if names.len() == 0 {
        None
    } else {
        match column_index(names.drop_last(), c) {
            Some(i) => Some(i),
            None => if names.last() == c {
                Some(names.len() - 1)
            } else {
                None
            },
        }
    }
}

/// Every field that the condition names is a column.
pub open spec fn fields_known(c: Condition, names: Seq<Seq<char>>) -> bool
    decreases c,
{
    match c {
        Condition::Simple { field, .. } => column_index(names, field@) is Some,
        Condition::And(l, r) => fields_known(*l, names) && fields_known(*r, names),
        Condition::Or(l, r) => fields_known(*l, names) && fields_known(*r, names),
    }
}

/// Whether a row of a relation with columns `names` meets the condition.
pub open spec fn holds(c: Condition, names: Seq<Seq<char>>, row: Seq<DbValue>) -> bool
    decreases c,
{
    match c {
        Condition::Simple { field, operator, value } => match column_index(names, field@) {
            Some(i) => compare(row[i], operator, value@),
            None => false,
        },
        Condition::And(l, r) => holds(*l, names, row) && holds(*r, names, row),
        Condition::Or(l, r) => holds(*l, names, row) || holds(*r, names, row),
    }
}

} // verus!
