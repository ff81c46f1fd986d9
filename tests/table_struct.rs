use tabledb::bloom_filter::BloomFilter;
use tabledb::db_type::DbType;
use tabledb::metadata::MetaData;
use tabledb::relation::ManipulateTable;
use tabledb::table_struct::{InsertError, Table};

fn filter_for(n: f32, p: f32) -> BloomFilter {
    let ln2 = 2.0_f32.ln();
    let m = (-(n * p.ln()) / ln2.powi(2)).ceil();
    let k = ((m / n) * ln2).round();
    BloomFilter::new(m as usize, k as usize)
}

fn set_up_meta_data() -> MetaData {
    MetaData::new(20, filter_for(20.0, 0.05))
}

fn set_up_table() -> Table {
    let mut column_names: Vec<String> = Vec::new();
    column_names.push("id".parse().unwrap());
    column_names.push("name".parse().unwrap());

    let column_types = vec![DbType::Int(0), DbType::Text(String::new())];
    Table::new("Test".to_string(), set_up_meta_data(), column_names, column_types)
}

#[test]
fn test_new_table() {
    let table = set_up_table();
    assert_eq!(table.get_column_names().len(), 2);
    assert_eq!(table.get_column_types().len(), 2);
}

#[test]
fn test_insert_valid_data() {
    let mut table = set_up_table();
    table.insert(vec![DbType::Int(1), DbType::Text("Alice".to_string())]).unwrap();
    assert_eq!(table.get_data().len(), 1);
}

#[test]
fn test_insert_type_mismatch() {
    let mut table = set_up_table();
    let r = table.insert(vec![DbType::Text("1".to_string()), DbType::Int(2)]);
    assert_eq!(r, Err(InsertError::TypeMismatch));
    assert!(table.get_data().is_empty());
}

#[test]
fn test_insert_duplicate_primary_key() {
    let mut table = set_up_table();
    table.set_primary_key(&vec!["id".to_string()]);
    table.insert(vec![DbType::Int(1), DbType::Text("Alice".to_string())]).unwrap();
    let r = table.insert(vec![DbType::Int(1), DbType::Text("Bob".to_string())]);
    assert_eq!(r, Err(InsertError::DuplicateKey));
}

#[test]
fn primary_key_enforcement_sequence() {
    let mut table = set_up_table();
    table.set_primary_key(&["id".to_string()]);
    assert_eq!(table.insert(vec![DbType::Int(1), DbType::Text("Alice".to_string())]), Ok(()));
    assert_eq!(
        table.insert(vec![DbType::Int(1), DbType::Text("Alice".to_string())]),
        Err(InsertError::DuplicateKey)
    );
    assert_eq!(table.insert(vec![DbType::Int(2), DbType::Text("Bob".to_string())]), Ok(()));
    assert_eq!(table.get_data().len(), 2);
    assert_eq!(
        table.get_data()[1].get_values(),
        &vec![DbType::Int(2), DbType::Text("Bob".to_string())]
    );
}

#[test]
fn rejected_insert_leaves_filter_unchanged() {
    let mut table = set_up_table();
    table.set_primary_key(&["id".to_string()]);
    table.insert(vec![DbType::Int(1), DbType::Text("Alice".to_string())]).unwrap();
    let rows_before = table.get_data().len();
    assert_eq!(
        table.insert(vec![DbType::Int(5), DbType::Int(5)]),
        Err(InsertError::TypeMismatch)
    );
    assert_eq!(table.get_data().len(), rows_before);
    assert_eq!(table.insert(vec![DbType::Int(5), DbType::Text("Eve".to_string())]), Ok(()));
}

#[test]
fn insert_length_mismatch() {
    let mut table = set_up_table();
    assert_eq!(table.insert(vec![DbType::Int(1)]), Err(InsertError::LengthMismatch));
    assert!(table.get_data().is_empty());
}

#[test]
fn without_primary_key_duplicates_are_stored() {
    let mut table = set_up_table();
    for _ in 0..3 {
        assert_eq!(table.insert(vec![DbType::Int(1), DbType::Text("A".to_string())]), Ok(()));
    }
    assert_eq!(table.get_data().len(), 3);
}

#[test]
fn unknown_key_columns_are_dropped() {
    let mut table = set_up_table();
    table.set_primary_key(&["ghost".to_string(), "name".to_string()]);
    assert_eq!(table.insert(vec![DbType::Int(1), DbType::Text("A".to_string())]), Ok(()));
    assert_eq!(
        table.insert(vec![DbType::Int(2), DbType::Text("A".to_string())]),
        Err(InsertError::DuplicateKey)
    );
}

#[test]
fn metadata_accessors() {
    let mut meta = set_up_meta_data();
    assert_eq!(meta.get_table_capacity(), 20);
    assert!(meta.get_pk().is_empty());
    meta.set_pk(vec![1, 0]);
    assert_eq!(meta.get_pk(), &vec![1, 0]);
    assert_eq!(meta.get_filter().size(), 125);
    assert_eq!(meta.get_filter().num_of_functions(), 4);
}

#[test]
fn table_name_is_kept() {
    let table = set_up_table();
    assert_eq!(table.get_name(), "Test");
}
