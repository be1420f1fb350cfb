use pgmigrate::directive::{extraction_directive, Directive};
use pgmigrate::rules::Policy;

#[test]
fn full_extracts_all_rows() {
    assert_eq!(extraction_directive(Policy::Full), Directive::AllRows);
}

#[test]
fn schema_only_extracts_no_rows() {
    assert_eq!(extraction_directive(Policy::SchemaOnly), Directive::NoRows);
}

#[test]
fn predicate_is_used_verbatim() {
    let d = extraction_directive(Policy::Predicate { predicate: "amount > 0".to_string() });
    assert_eq!(d, Directive::Where("amount > 0".to_string()));
}

#[test]
fn time_window_synthesizes_interval_filter() {
    let d = extraction_directive(Policy::TimeWindow {
        column: "created_at".to_string(),
        lookback: "6 months".to_string(),
    });
    assert_eq!(
        d,
        Directive::Where("\"created_at\" >= NOW() - INTERVAL '6 months'".to_string())
    );
}
