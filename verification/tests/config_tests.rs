use pgmigrate::config::{build_table_rules, DatabaseRules, TableFilterEntry, TimeFilterEntry};
use pgmigrate::errors::PolicyError;
use pgmigrate::rules::TableRules;

fn rules_from_toml(contents: &str) -> Result<TableRules, PolicyError> {
    let parsed: toml::Value = toml::from_str(contents).unwrap();
    let mut dbs: Vec<(String, DatabaseRules)> = Vec::new();
    if let Some(databases) = parsed.get("databases").and_then(|v| v.as_table()) {
        for (name, cfg) in databases {
            let mut dr = DatabaseRules {
                schema_only: Vec::new(),
                table_filters: Vec::new(),
                time_filters: Vec::new(),
            };
            if let Some(arr) = cfg.get("schema_only").and_then(|v| v.as_array()) {
                for item in arr {
                    dr.schema_only.push(item.as_str().unwrap().to_string());
                }
            }
            if let Some(arr) = cfg.get("table_filters").and_then(|v| v.as_array()) {
                for item in arr {
                    dr.table_filters.push(TableFilterEntry {
                        table: item.get("table").unwrap().as_str().unwrap().to_string(),
                        schema: item.get("schema").map(|s| s.as_str().unwrap().to_string()),
                        predicate: item.get("where").unwrap().as_str().unwrap().to_string(),
                    });
                }
            }
            if let Some(arr) = cfg.get("time_filters").and_then(|v| v.as_array()) {
                for item in arr {
                    dr.time_filters.push(TimeFilterEntry {
                        table: item.get("table").unwrap().as_str().unwrap().to_string(),
                        schema: item.get("schema").map(|s| s.as_str().unwrap().to_string()),
                        column: item.get("column").unwrap().as_str().unwrap().to_string(),
                        last: item.get("last").unwrap().as_str().unwrap().to_string(),
                    });
                }
            }
            dbs.push((name.clone(), dr));
        }
    }
    build_table_rules(dbs)
}

#[test]
fn parse_sample_config() {
    let contents = r#"
        [databases.kong]
        schema_only = ["evmlog_strides", "price"]

        [[databases.kong.table_filters]]
        table = "output"
        where = "series_time >= NOW() - INTERVAL '6 months'"

        [[databases.kong.time_filters]]
        table = "metrics"
        column = "created_at"
        last = "1 year"
    "#;

    let rules = rules_from_toml(contents).unwrap();
    assert_eq!(
        rules.schema_only_tables("kong"),
        vec!["\"public\".\"evmlog_strides\"", "\"public\".\"price\""]
    );
    assert!(rules.table_filter("kong", "public", "output").is_some());
    assert!(rules.time_filter("kong", "public", "metrics").is_some());
}

#[test]
fn test_toml_with_explicit_schema() {
    let contents = r#"
        [databases.db1]

        [[databases.db1.table_filters]]
        table = "orders"
        schema = "analytics"
        where = "created_at > NOW() - INTERVAL '1 day'"

        [[databases.db1.time_filters]]
        table = "metrics"
        schema = "reporting"
        column = "timestamp"
        last = "6 months"
    "#;

    let rules = rules_from_toml(contents).unwrap();
    // Should use explicit schema field
    assert!(rules.table_filter("db1", "analytics", "orders").is_some());
    assert!(rules.time_filter("db1", "reporting", "metrics").is_some());
}

#[test]
fn test_toml_backward_compatibility() {
    let contents = r#"
        [databases.db1]

        [[databases.db1.table_filters]]
        table = "orders"
        where = "created_at > NOW() - INTERVAL '1 day'"
    "#;

    let rules = rules_from_toml(contents).unwrap();
    // Should default to public schema when schema field not provided
    assert!(rules.table_filter("db1", "public", "orders").is_some());
}

#[test]
fn test_toml_mixed_notation() {
    let contents = r#"
        [databases.db1]
        schema_only = ["analytics.large_table", "public.temp"]

        [[databases.db1.table_filters]]
        table = "events"
        schema = "analytics"
        where = "created_at > NOW() - INTERVAL '90 days'"

        [[databases.db1.table_filters]]
        table = "logs"
        where = "timestamp > NOW() - INTERVAL '7 days'"
    "#;

    let rules = rules_from_toml(contents).unwrap();

    // Check schema_only with dot notation
    let schema_only = rules.schema_only_tables("db1");
    assert!(schema_only.contains(&"\"analytics\".\"large_table\"".to_string()));
    assert!(schema_only.contains(&"\"public\".\"temp\"".to_string()));

    // Check explicit schema field
    assert!(rules.table_filter("db1", "analytics", "events").is_some());

    // Check default to public when no schema
    assert!(rules.table_filter("db1", "public", "logs").is_some());
}

#[test]
fn build_rejects_empty_predicate() {
    let contents = r#"
        [databases.db1]

        [[databases.db1.table_filters]]
        table = "orders"
        where = ""
    "#;
    assert_eq!(rules_from_toml(contents).unwrap_err(), PolicyError::Validation);
}

#[test]
fn build_rejects_cross_category_conflict() {
    let contents = r#"
        [databases.db1]
        schema_only = ["orders"]

        [[databases.db1.table_filters]]
        table = "orders"
        where = "id > 0"
    "#;
    assert_eq!(rules_from_toml(contents).unwrap_err(), PolicyError::DuplicatePolicy);
}

#[test]
fn build_rejects_malformed_table_name() {
    let contents = r#"
        [databases.db1]
        schema_only = ["orders."]
    "#;
    assert_eq!(rules_from_toml(contents).unwrap_err(), PolicyError::Format);
}

#[test]
fn build_rejects_empty_time_filter_fields() {
    let contents = r#"
        [databases.db1]

        [[databases.db1.time_filters]]
        table = "metrics"
        column = ""
        last = "6 months"
    "#;
    assert_eq!(rules_from_toml(contents).unwrap_err(), PolicyError::Validation);
}
