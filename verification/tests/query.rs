use rust_oracle_performance::query::{is_xml, partition_query};
use rust_oracle_performance::tables::OracleColumn;

fn column(name: &str, data_type: &str) -> OracleColumn {
    OracleColumn::new(name.to_string(), data_type.to_string())
}

#[test]
fn query_of_one_column() {
    let query = partition_query(&vec![column("ID", "NUMBER")]);
    assert_eq!(
        query,
        Some("select  t.\"ID\" as \"ID\" from test1 t where id >= :1 and id < :2".to_string())
    );
}

#[test]
fn query_lists_the_columns_in_declared_order() {
    let columns = vec![
        column("ID", "NUMBER"),
        column("COL1", "VARCHAR2"),
        column("COL2", "VARCHAR2"),
    ];
    assert_eq!(
        partition_query(&columns).unwrap(),
        "select  t.\"ID\" as \"ID\",  t.\"COL1\" as \"COL1\",  t.\"COL2\" as \"COL2\" \
         from test1 t where id >= :1 and id < :2"
    );
    let reversed: Vec<OracleColumn> = columns.into_iter().rev().collect();
    assert_eq!(
        partition_query(&reversed).unwrap(),
        "select  t.\"COL2\" as \"COL2\",  t.\"COL1\" as \"COL1\",  t.\"ID\" as \"ID\" \
         from test1 t where id >= :1 and id < :2"
    );
}

#[test]
fn xml_column_is_projected_through_value_extraction() {
    let columns = vec![column("ID", "NUMBER"), column("DOC", "XMLTYPE")];
    assert_eq!(
        partition_query(&columns).unwrap(),
        "select  t.\"ID\" as \"ID\",  t.\"DOC\".getClobVal() as \"DOC\" \
         from test1 t where id >= :1 and id < :2"
    );
}

#[test]
fn only_the_exact_xml_type_name_is_extracted() {
    assert!(is_xml(&column("DOC", "XMLTYPE")));
    assert!(!is_xml(&column("DOC", "xmltype")));
    assert!(!is_xml(&column("DOC", "XMLTYPE ")));
    assert!(!is_xml(&column("XMLTYPE", "CLOB")));
    assert!(!is_xml(&column("DOC", "")));
}

#[test]
fn query_ends_with_the_id_range_filter() {
    let query = partition_query(&vec![column("A", "DATE"), column("B", "RAW")]).unwrap();
    assert!(query.starts_with("select "));
    assert!(query.ends_with(" from test1 t where id >= :1 and id < :2"));
    assert_eq!(query.matches(", ").count(), 1);
}

#[test]
fn no_columns_no_query() {
    assert_eq!(partition_query(&vec![]), None);
}

#[test]
fn query_of_the_test_table() {
    let mut columns = vec![column("ID", "NUMBER")];
    for i in 1..51 {
        columns.push(column(&format!("COL{}", i), "VARCHAR2"));
    }
    let query = partition_query(&columns).unwrap();
    let mut expected = "select ".to_string();
    for c in &columns {
        expected = format!("{} t.\"{}\" as \"{}\", ", expected, c.name, c.name);
    }
    expected.truncate(expected.len() - 2);
    expected.push_str(" from test1 t where id >= :1 and id < :2");
    assert_eq!(query, expected);
}
