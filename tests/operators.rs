use tabledb::condition::{Condition, Operator};
use tabledb::db_type::DbType;
use tabledb::query_result::QueryResult;
use tabledb::rational_algebra::helper_functions::find_indexes;
use tabledb::rational_algebra::projection::projection;
use tabledb::rational_algebra::selection::{evaluate, selection};
use tabledb::relation::ManipulateTable;
use tabledb::table_row::TableRow;

fn people() -> QueryResult {
    QueryResult::new(
        vec![
            TableRow::new(vec![
                DbType::Int(1),
                DbType::Text("Alice".to_string()),
                DbType::Text("Baum".to_string()),
            ]),
            TableRow::new(vec![
                DbType::Int(2),
                DbType::Text("Uncle".to_string()),
                DbType::Text("Bob".to_string()),
            ]),
        ],
        vec!["id".to_string(), "name".to_string(), "family_name".to_string()],
    )
}

fn simple(field: &str, operator: Operator, value: DbType) -> Condition {
    Condition::Simple { field: field.to_string(), operator, value }
}

#[test]
fn projection_keeps_requested_order() {
    let result = projection(&people(), &["id".to_string(), "name".to_string()]);
    assert_eq!(result.get_column_names(), &vec!["id".to_string(), "name".to_string()]);
    assert_eq!(
        result.get_data()[0].get_values(),
        &vec![DbType::Int(1), DbType::Text("Alice".to_string())]
    );
    assert_eq!(
        result.get_data()[1].get_values(),
        &vec![DbType::Int(2), DbType::Text("Uncle".to_string())]
    );
}

#[test]
fn projection_drops_unknown_column() {
    let result = projection(&people(), &["name".to_string(), "ghost".to_string()]);
    assert_eq!(result.get_column_names(), &vec!["name".to_string()]);
    assert_eq!(result.get_data().len(), 2);
    assert_eq!(result.get_data()[1].get_values(), &vec![DbType::Text("Uncle".to_string())]);
}

#[test]
fn projection_repeats_duplicate_requests() {
    let cols = ["name".to_string(), "id".to_string(), "name".to_string(), "id".to_string()];
    let result = projection(&people(), &cols);
    assert_eq!(result.get_column_names().len(), 4);
    assert_eq!(
        result.get_data()[0].get_values(),
        &vec![
            DbType::Text("Alice".to_string()),
            DbType::Int(1),
            DbType::Text("Alice".to_string()),
            DbType::Int(1)
        ]
    );
}

#[test]
fn find_indexes_resolves_and_drops() {
    let cols = ["family_name".to_string(), "x".to_string(), "id".to_string()];
    assert_eq!(find_indexes(&people(), &cols), vec![2, 0]);
}

#[test]
fn selection_or_condition() {
    let condition = Condition::Or(
        Box::new(simple("id", Operator::LessThan, DbType::Int(1))),
        Box::new(simple("family_name", Operator::Equals, DbType::Text("Bob".to_string()))),
    );
    let result = selection(&people(), &condition);
    assert_eq!(result.get_data().len(), 1);
    assert_eq!(result.get_data()[0].get_values()[0], DbType::Int(2));
}

#[test]
fn selection_not_equals_and_text_order() {
    let result = selection(&people(), &simple("id", Operator::NotEquals, DbType::Int(1)));
    assert_eq!(result.get_data().len(), 1);
    assert_eq!(result.get_data()[0].get_values()[0], DbType::Int(2));

    let result = selection(
        &people(),
        &simple("name", Operator::GreaterThan, DbType::Text("Bob".to_string())),
    );
    assert_eq!(result.get_data().len(), 1);
    assert_eq!(result.get_data()[0].get_values()[1], DbType::Text("Uncle".to_string()));

    let result = selection(
        &people(),
        &simple("name", Operator::LessThan, DbType::Text("Bob".to_string())),
    );
    assert_eq!(result.get_data().len(), 1);
    assert_eq!(result.get_data()[0].get_values()[1], DbType::Text("Alice".to_string()));
}

#[test]
fn selection_cross_variant_matches_nothing() {
    for op in [Operator::Equals, Operator::LessThan, Operator::GreaterThan] {
        let result = selection(&people(), &simple("id", op, DbType::Text("1".to_string())));
        assert!(result.get_data().is_empty());
    }
    let result = selection(&people(), &simple("id", Operator::NotEquals, DbType::Text("1".to_string())));
    assert_eq!(result.get_data().len(), 2);
    assert_eq!(result.get_column_names().len(), 3);
}

#[test]
fn evaluate_comparisons() {
    let a = DbType::Text("ab".to_string());
    let b = DbType::Text("abc".to_string());
    assert!(evaluate(&a, &Operator::LessThan, &b));
    assert!(!evaluate(&b, &Operator::LessThan, &a));
    assert!(evaluate(&b, &Operator::GreaterThan, &a));
    assert!(evaluate(&DbType::Int(-3), &Operator::LessThan, &DbType::Int(2)));
    assert!(!evaluate(&DbType::Int(2), &Operator::GreaterThan, &DbType::Int(2)));
    assert!(evaluate(&DbType::Int(2), &Operator::Equals, &DbType::Int(2)));
    assert!(!evaluate(&DbType::Int(2), &Operator::Equals, &DbType::Text("2".to_string())));
    assert!(evaluate(&DbType::Int(2), &Operator::NotEquals, &DbType::Text("2".to_string())));
    assert!(evaluate(
        &DbType::Text("Z".to_string()),
        &Operator::LessThan,
        &DbType::Text("a".to_string())
    ));
}
