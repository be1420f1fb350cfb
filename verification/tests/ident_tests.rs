use pgmigrate::errors::PolicyError;
use pgmigrate::ident::QualifiedTable;

#[test]
fn parse_dotted_splits_at_first_dot() {
    let q = QualifiedTable::parse("analytics.orders").unwrap();
    assert_eq!(q.schema, "analytics");
    assert_eq!(q.table, "orders");
    assert!(q.database.is_none());

    let q = QualifiedTable::parse("a.b.c").unwrap();
    assert_eq!(q.schema, "a");
    assert_eq!(q.table, "b.c");
}

#[test]
fn parse_bare_defaults_to_public() {
    let q = QualifiedTable::parse("orders").unwrap();
    assert_eq!(q.schema, "public");
    assert_eq!(q.table, "orders");
}

#[test]
fn parse_rejects_empty_parts() {
    assert_eq!(QualifiedTable::parse("").unwrap_err(), PolicyError::Format);
    assert_eq!(QualifiedTable::parse("orders.").unwrap_err(), PolicyError::Format);
    assert_eq!(QualifiedTable::parse(".orders").unwrap_err(), PolicyError::Format);
}

#[test]
fn render_quotes_schema_and_table() {
    let q = QualifiedTable::new(None, "public".to_string(), "price".to_string());
    assert_eq!(q.render(), "\"public\".\"price\"");
}

#[test]
fn render_ignores_database() {
    let q = QualifiedTable::new(
        Some("kong".to_string()),
        "public".to_string(),
        "price".to_string(),
    );
    assert_eq!(q.render(), "\"public\".\"price\"");
}

#[test]
fn render_parse_is_stable() {
    for input in ["a.b", "orders", "analytics.large_table", "a.b.c"] {
        let once = QualifiedTable::parse(input).unwrap().render();
        let twice = QualifiedTable::parse(&once).unwrap().render();
        assert_eq!(once, twice);
    }
}

#[test]
fn with_database_overwrites() {
    let q = QualifiedTable::parse("orders").unwrap();
    let q = q.with_database(Some("app".to_string()));
    assert_eq!(q.database.as_deref(), Some("app"));
    let q = q.with_database(Some("other".to_string()));
    assert_eq!(q.database.as_deref(), Some("other"));
}
