use pgmigrate::checksum::{compare_tables, ChecksumStatus, SideReport};
use pgmigrate::digest::{compute_digest, ColumnValue, RowData};
use pgmigrate::ident::QualifiedTable;

fn row(cells: &[(&str, &str)]) -> RowData {
    RowData {
        columns: cells
            .iter()
            .map(|(n, v)| ColumnValue { name: n.to_string(), value: v.to_string() })
            .collect(),
    }
}

fn table() -> QualifiedTable {
    QualifiedTable::new(
        Some("app".to_string()),
        "public".to_string(),
        "orders".to_string(),
    )
}

#[test]
fn same_rows_in_different_order_match() {
    let source = vec![row(&[("id", "1")]), row(&[("id", "2")])];
    let target = vec![row(&[("id", "2")]), row(&[("id", "1")])];
    let r = compare_tables(
        table(),
        SideReport::Computed(compute_digest(&source)),
        SideReport::Computed(compute_digest(&target)),
    );
    assert_eq!(r.status, ChecksumStatus::Match);
    assert_eq!(r.source_row_count, Some(2));
    assert_eq!(r.target_row_count, Some(2));
    assert_eq!(r.source_digest, r.target_digest);
}

#[test]
fn extra_row_on_target_mismatches() {
    let source = vec![row(&[("id", "1")])];
    let target = vec![row(&[("id", "1")]), row(&[("id", "2")])];
    let r = compare_tables(
        table(),
        SideReport::Computed(compute_digest(&source)),
        SideReport::Computed(compute_digest(&target)),
    );
    match r.status {
        ChecksumStatus::Mismatch { digests_differ, counts_differ } => {
            assert!(digests_differ);
            assert!(counts_differ);
        }
        other => panic!("expected mismatch, got {:?}", other),
    }
}

#[test]
fn source_only_and_target_only() {
    let rows = vec![row(&[("id", "1")])];
    let r = compare_tables(
        table(),
        SideReport::Computed(compute_digest(&rows)),
        SideReport::Missing,
    );
    assert_eq!(r.status, ChecksumStatus::SourceOnly);
    assert_eq!(r.target_digest, None);

    let r = compare_tables(
        table(),
        SideReport::Missing,
        SideReport::Computed(compute_digest(&rows)),
    );
    assert_eq!(r.status, ChecksumStatus::TargetOnly);
    assert_eq!(r.source_digest, None);
}

#[test]
fn scan_failure_is_error_not_mismatch() {
    let rows = vec![row(&[("id", "1")])];
    let r = compare_tables(
        table(),
        SideReport::Failed("timeout".to_string()),
        SideReport::Computed(compute_digest(&rows)),
    );
    assert_eq!(r.status, ChecksumStatus::Error("timeout".to_string()));

    let r = compare_tables(
        table(),
        SideReport::Computed(compute_digest(&rows)),
        SideReport::Failed("access denied".to_string()),
    );
    assert_eq!(r.status, ChecksumStatus::Error("access denied".to_string()));
}

#[test]
fn missing_on_both_sides_is_error() {
    let r = compare_tables(table(), SideReport::Missing, SideReport::Missing);
    match r.status {
        ChecksumStatus::Error(_) => {}
        other => panic!("expected error, got {:?}", other),
    }
}

#[test]
fn result_carries_the_table() {
    let r = compare_tables(table(), SideReport::Missing, SideReport::Missing);
    assert_eq!(r.table.render(), "\"public\".\"orders\"");
}
