use pgmigrate::errors::PolicyError;
use pgmigrate::ident::QualifiedTable;
use pgmigrate::rules::{Policy, TableRules};

fn qt(db: &str, schema: &str, table: &str) -> QualifiedTable {
    QualifiedTable::new(
        Some(db.to_string()),
        schema.to_string(),
        table.to_string(),
    )
}

#[test]
fn schema_only_twice_succeeds() {
    let mut rules = TableRules::default();
    assert!(rules.add_schema_only_table(qt("app", "public", "events")).is_ok());
    assert!(rules.add_schema_only_table(qt("app", "public", "events")).is_ok());
    assert_eq!(rules.resolve("app", "public", "events"), Policy::SchemaOnly);
}

#[test]
fn schema_only_then_predicate_conflicts() {
    let mut rules = TableRules::default();
    assert!(rules.add_schema_only_table(qt("app", "public", "events")).is_ok());
    let r = rules.add_table_filter(qt("app", "public", "events"), "id > 0".to_string());
    assert_eq!(r.unwrap_err(), PolicyError::DuplicatePolicy);
}

#[test]
fn predicate_then_schema_only_conflicts() {
    let mut rules = TableRules::default();
    assert!(rules.add_table_filter(qt("app", "public", "events"), "id > 0".to_string()).is_ok());
    let r = rules.add_schema_only_table(qt("app", "public", "events"));
    assert_eq!(r.unwrap_err(), PolicyError::DuplicatePolicy);
}

#[test]
fn time_filter_then_schema_only_conflicts() {
    let mut rules = TableRules::default();
    assert!(rules
        .add_time_filter(
            qt("app", "public", "metrics"),
            "created_at".to_string(),
            "6 months".to_string(),
        )
        .is_ok());
    let r = rules.add_schema_only_table(qt("app", "public", "metrics"));
    assert_eq!(r.unwrap_err(), PolicyError::DuplicatePolicy);
}

#[test]
fn resolve_unregistered_is_full() {
    let rules = TableRules::default();
    assert_eq!(rules.resolve("app", "public", "anything"), Policy::Full);

    let mut rules = TableRules::default();
    rules.add_schema_only_table(qt("app", "public", "events")).unwrap();
    // Same table name, different database or schema: still unregistered.
    assert_eq!(rules.resolve("other", "public", "events"), Policy::Full);
    assert_eq!(rules.resolve("app", "audit", "events"), Policy::Full);
    assert_eq!(rules.resolve("app", "public", "logins"), Policy::Full);
}

#[test]
fn end_to_end_resolution() {
    let mut rules = TableRules::default();
    rules.add_schema_only_table(qt("app", "public", "events")).unwrap();
    rules
        .add_table_filter(qt("app", "public", "output"), "amount > 0".to_string())
        .unwrap();
    rules
        .add_time_filter(
            qt("app", "public", "metrics"),
            "created_at".to_string(),
            "6 months".to_string(),
        )
        .unwrap();

    assert_eq!(rules.resolve("app", "public", "events"), Policy::SchemaOnly);
    assert_eq!(
        rules.resolve("app", "public", "output"),
        Policy::Predicate { predicate: "amount > 0".to_string() }
    );
    assert_eq!(
        rules.resolve("app", "public", "metrics"),
        Policy::TimeWindow { column: "created_at".to_string(), lookback: "6 months".to_string() }
    );
    assert_eq!(rules.resolve("app", "public", "logins"), Policy::Full);
}

#[test]
fn empty_predicate_rejected() {
    let mut rules = TableRules::default();
    let r = rules.add_table_filter(qt("app", "public", "events"), "".to_string());
    assert_eq!(r.unwrap_err(), PolicyError::Validation);
}

#[test]
fn empty_time_filter_fields_rejected() {
    let mut rules = TableRules::default();
    let r = rules.add_time_filter(
        qt("app", "public", "metrics"),
        "".to_string(),
        "6 months".to_string(),
    );
    assert_eq!(r.unwrap_err(), PolicyError::Validation);
    let r = rules.add_time_filter(
        qt("app", "public", "metrics"),
        "created_at".to_string(),
        "".to_string(),
    );
    assert_eq!(r.unwrap_err(), PolicyError::Validation);
}

#[test]
fn schema_only_listing_is_sorted() {
    let mut rules = TableRules::default();
    rules.add_schema_only_table(qt("app", "public", "zebra")).unwrap();
    rules.add_schema_only_table(qt("app", "public", "alpha")).unwrap();
    rules.add_schema_only_table(qt("app", "aardvark", "misc")).unwrap();
    rules.add_schema_only_table(qt("other", "public", "beta")).unwrap();
    assert_eq!(
        rules.schema_only_tables("app"),
        vec![
            "\"aardvark\".\"misc\"",
            "\"public\".\"alpha\"",
            "\"public\".\"zebra\"",
        ]
    );
    assert_eq!(rules.schema_only_tables("other"), vec!["\"public\".\"beta\""]);
    assert!(rules.schema_only_tables("missing").is_empty());
}

#[test]
fn accessors_match_policy_category() {
    let mut rules = TableRules::default();
    rules
        .add_table_filter(qt("app", "public", "output"), "amount > 0".to_string())
        .unwrap();
    rules
        .add_time_filter(
            qt("app", "public", "metrics"),
            "created_at".to_string(),
            "6 months".to_string(),
        )
        .unwrap();

    assert_eq!(rules.table_filter("app", "public", "output").as_deref(), Some("amount > 0"));
    assert!(rules.table_filter("app", "public", "metrics").is_none());
    assert_eq!(
        rules.time_filter("app", "public", "metrics"),
        Some(("created_at".to_string(), "6 months".to_string()))
    );
    assert!(rules.time_filter("app", "public", "output").is_none());
}
