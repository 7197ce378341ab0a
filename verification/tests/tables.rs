use rust_oracle_performance::tables::OracleColumn;

#[test]
fn new_keeps_name_and_type() {
    let column = OracleColumn::new("COL1".to_string(), "VARCHAR2".to_string());
    assert_eq!(column.name, "COL1");
    assert_eq!(column.data_type, "VARCHAR2");
}

#[test]
fn columns_are_equal_when_name_and_type_are() {
    let a = OracleColumn::new("COL1".to_string(), "VARCHAR2".to_string());
    let b = OracleColumn::new("COL1".to_string(), "VARCHAR2".to_string());
    assert!(a == b);
    assert_eq!(a, b.clone());
}

#[test]
fn columns_differ_by_name_or_type() {
    let a = OracleColumn::new("COL1".to_string(), "VARCHAR2".to_string());
    assert!(a != OracleColumn::new("COL2".to_string(), "VARCHAR2".to_string()));
    assert!(a != OracleColumn::new("COL1".to_string(), "NUMBER".to_string()));
    assert!(a != OracleColumn::new("VARCHAR2".to_string(), "COL1".to_string()));
}
