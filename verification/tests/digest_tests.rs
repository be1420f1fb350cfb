use pgmigrate::digest::{compute_digest, ColumnValue, RowData};

fn row(cells: &[(&str, &str)]) -> RowData {
    RowData {
        columns: cells
            .iter()
            .map(|(n, v)| ColumnValue { name: n.to_string(), value: v.to_string() })
            .collect(),
    }
}

#[test]
fn digest_is_row_order_independent() {
    let a = vec![
        row(&[("id", "1"), ("name", "alice")]),
        row(&[("id", "2"), ("name", "bob")]),
        row(&[("id", "3"), ("name", "carol")]),
    ];
    let b = vec![
        row(&[("id", "3"), ("name", "carol")]),
        row(&[("id", "1"), ("name", "alice")]),
        row(&[("id", "2"), ("name", "bob")]),
    ];
    let da = compute_digest(&a);
    let db = compute_digest(&b);
    assert_eq!(da.digest, db.digest);
    assert_eq!(da.row_count, 3);
    assert_eq!(db.row_count, 3);
}

#[test]
fn digest_is_column_order_independent() {
    let a = vec![row(&[("id", "1"), ("name", "alice"), ("age", "30")])];
    let b = vec![row(&[("age", "30"), ("id", "1"), ("name", "alice")])];
    assert_eq!(compute_digest(&a).digest, compute_digest(&b).digest);
}

#[test]
fn digest_distinguishes_values() {
    let a = vec![row(&[("id", "1"), ("name", "alice")])];
    let b = vec![row(&[("id", "1"), ("name", "bob")])];
    assert_ne!(compute_digest(&a).digest, compute_digest(&b).digest);
}

#[test]
fn digest_distinguishes_cell_boundaries() {
    // The same characters split differently over name and value must not
    // collide: the separator closes each field.
    let a = vec![row(&[("ab", "c")])];
    let b = vec![row(&[("a", "bc")])];
    assert_ne!(compute_digest(&a).digest, compute_digest(&b).digest);
}

#[test]
fn digest_of_empty_table() {
    let rows: Vec<RowData> = Vec::new();
    let d = compute_digest(&rows);
    assert_eq!(d.row_count, 0);
    assert_eq!(d.digest, 0);
}

#[test]
fn digest_counts_duplicate_rows() {
    // A row present twice is not the same multiset as the row once.
    let once = vec![row(&[("id", "1")])];
    let twice = vec![row(&[("id", "1")]), row(&[("id", "1")])];
    let d1 = compute_digest(&once);
    let d2 = compute_digest(&twice);
    assert_ne!(d1.digest, d2.digest);
    assert_eq!(d2.row_count, 2);
}
