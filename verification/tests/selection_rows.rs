use reviewgraphen_store::rows::{
    compare_cell, compare_row, ComparatorCursor, ComparedTable, ExpectedCell, SqlCell,
};
use reviewgraphen_store::selection::{
    admit_selection_workspace, admit_v4_json_staging, check_selection_request,
    check_selection_scope, compare_bytes_less, marker_fingerprint_from_hash,
    selected_max_cas_bytes, v4_json_staging_limit, v4_selection_operational_limit,
    SelectionCursor, SelectionKey, V4CoverageAxis, V4SelectionCounts, V4SelectionRowKind,
    V4SelectionSummary, V4_JSON_STAGING_OPERATIONAL_LIMIT, V4_SELECTION_OPERATIONAL_LIMIT,
};
use reviewgraphen_store::structure::{is_json_column, StructurePreflight, REGISTRATIONS_TABLE};
use reviewgraphen_store::{IndexError, IndexLimits, PAGE_SIZE};

fn key(sequence: u64, id: &str) -> SelectionKey {
    SelectionKey {
        sequence,
        id: id.as_bytes().to_vec(),
    }
}

fn limits() -> IndexLimits {
    IndexLimits {
        max_rows: 3,
        max_serialized_bytes: PAGE_SIZE,
        max_working_bytes: 1 << 20,
        max_query_bytes: 16,
        max_statement_bytes: 100,
    }
}

#[test]
fn keyed_rows_pair_in_order_and_skip_only_earlier_rows() {
    let source = vec![key(1, "a"), key(1, "b"), key(2, "a"), key(5, "z")];
    let mut cursor = SelectionCursor::new();
    assert_eq!(cursor.next_keyed(&source, 1, Some(b"b")).unwrap(), 1);
    assert_eq!(cursor.next_keyed(&source, 5, Some(b"z")).unwrap(), 3);
    assert_eq!(cursor, SelectionCursor { cursor: 4, count: 2 });
    assert!(matches!(
        cursor.next_keyed(&source, 5, Some(b"z")),
        Err(IndexError::ProjectionContractViolation)
    ));

    let mut missing = SelectionCursor::new();
    assert!(matches!(
        missing.next_keyed(&source, 2, Some(b"b")),
        Err(IndexError::ProjectionContractViolation)
    ));
    let mut negative = SelectionCursor::new();
    assert!(matches!(
        negative.next_keyed(&source, -1, Some(b"a")),
        Err(IndexError::ProjectionContractViolation)
    ));
    assert_eq!(negative, SelectionCursor::new());
    assert!(matches!(
        negative.next_keyed(&source, 1, None),
        Err(IndexError::ProjectionContractViolation)
    ));
    assert!(matches!(
        negative.next_keyed(&source, 1, Some(b"\xff")),
        Err(IndexError::ProjectionContractViolation)
    ));
}

#[test]
fn coverage_ids_pair_with_the_sorted_denominator() {
    let denominator: Vec<Vec<u8>> = ["ob:1", "ob:2", "ob:3"]
        .iter()
        .map(|id| id.as_bytes().to_vec())
        .collect();
    let mut cursor = SelectionCursor::new();
    assert_eq!(cursor.next_coverage(&denominator, Some(b"ob:2")).unwrap(), 1);
    assert_eq!(cursor.next_coverage(&denominator, Some(b"ob:3")).unwrap(), 2);
    assert_eq!(cursor.count, 2);
    let mut absent = SelectionCursor::new();
    assert!(matches!(
        absent.next_coverage(&denominator, Some(b"ob:25")),
        Err(IndexError::ProjectionContractViolation)
    ));
}

#[test]
fn byte_order_is_lexicographic() {
    assert!(compare_bytes_less(b"a", b"b"));
    assert!(compare_bytes_less(b"ab", b"abc"));
    assert!(!compare_bytes_less(b"abc", b"ab"));
    assert!(!compare_bytes_less(b"b", b"b"));
    assert!(compare_bytes_less(b"", b"0"));
    assert!(compare_bytes_less(b"Z", b"a"));
}

#[test]
fn selection_scope_and_request_checks() {
    check_selection_scope(0, 3, 3, 0).unwrap();
    for (missing, matches, bad) in [(1, 3, 0), (0, 2, 0), (0, 3, 1)] {
        assert!(matches!(
            check_selection_scope(missing, matches, 3, bad),
            Err(IndexError::ProjectionContractViolation)
        ));
    }
    let fingerprint = [7u8; 32];
    check_selection_request(5, 6, "sha256:aa", fingerprint, 5, 6, "sha256:aa", fingerprint).unwrap();
    let mut drifted = fingerprint;
    drifted[31] = 8;
    assert!(matches!(
        check_selection_request(5, 6, "sha256:aa", fingerprint, 5, 6, "sha256:aa", drifted),
        Err(IndexError::ProjectionContractViolation)
    ));
    assert!(matches!(
        check_selection_request(5, 6, "sha256:aa", fingerprint, 5, 6, "sha256:ab", fingerprint),
        Err(IndexError::ProjectionContractViolation)
    ));
    assert!(matches!(
        check_selection_request(5, 6, "sha256:aa", fingerprint, 4, 6, "sha256:aa", fingerprint),
        Err(IndexError::ProjectionContractViolation)
    ));
}

#[test]
fn operational_ceilings_are_fixed_and_exact() {
    assert_eq!(v4_selection_operational_limit(), 256 * 1024 * 1024);
    assert_eq!(v4_json_staging_limit(), 64 * 1024 * 1024);
    admit_selection_workspace(V4_SELECTION_OPERATIONAL_LIMIT).unwrap();
    assert!(matches!(
        admit_selection_workspace(V4_SELECTION_OPERATIONAL_LIMIT + 1),
        Err(IndexError::Incomplete { limit, observed })
            if limit == V4_SELECTION_OPERATIONAL_LIMIT && observed == limit + 1
    ));
    admit_v4_json_staging(V4_JSON_STAGING_OPERATIONAL_LIMIT).unwrap();
    assert!(admit_v4_json_staging(V4_JSON_STAGING_OPERATIONAL_LIMIT + 1).is_err());
    assert_eq!(selected_max_cas_bytes(42).unwrap(), 42);
    assert!(matches!(
        selected_max_cas_bytes(-1),
        Err(IndexError::ProjectionContractViolation)
    ));
}

#[test]
fn selection_marker_fingerprint_detects_tail_drift() {
    let first = format!("sha256:{}", "0123456789abcdef".repeat(4));
    let before = marker_fingerprint_from_hash(&first).unwrap();
    assert_eq!(before[0], 0x01);
    assert_eq!(before[1], 0x23);
    assert_eq!(before[31], 0xef);
    let drifted = format!("sha256:{}", "fedcba9876543210".repeat(4));
    assert_ne!(marker_fingerprint_from_hash(&drifted).unwrap(), before);
}

#[test]
fn fingerprint_hex_is_read_as_from_str_radix_reads_it() {
    let upper = format!("sha256:{}", "AB".repeat(32));
    assert_eq!(marker_fingerprint_from_hash(&upper).unwrap(), [0xab; 32]);
    let plus = format!("sha256:+f{}", "00".repeat(31));
    assert_eq!(marker_fingerprint_from_hash(&plus).unwrap()[0], 0x0f);
    let short = "sha256:ff1";
    let mut expected = [0u8; 32];
    expected[0] = 0xff;
    assert_eq!(marker_fingerprint_from_hash(short).unwrap(), expected);
    for bad in ["sha512:00", "sha256:0g", "sha256:-1", "sha2"] {
        assert!(matches!(
            marker_fingerprint_from_hash(bad),
            Err(IndexError::ProjectionContractViolation)
        ));
    }
}

#[test]
fn selection_counts_start_at_zero_and_are_set_per_kind() {
    let mut counts = V4SelectionCounts::default();
    assert_eq!(counts.claims, 0);
    counts.set_row_count(V4SelectionRowKind::Claim, 3);
    counts.set_axis_count(V4CoverageAxis::Verified, 2);
    assert_eq!(counts.claims, 3);
    assert_eq!(counts.verified_ids, 2);
    assert_eq!(counts.executions, 0);
    let summary = V4SelectionSummary {
        counts,
        max_cas_bytes: 9,
        confirmed_offset: 1,
        event_count: 2,
        marker_fingerprint: [0; 32],
    };
    assert_eq!(summary.counts.claims, 3);
    assert!(V4CoverageAxis::Denominator < V4CoverageAxis::Accepted);
}

#[test]
fn stored_cells_compare_exactly_with_the_snapshot() {
    let limits = limits();
    compare_cell(&SqlCell::Integer(7), &ExpectedCell::U64(7), limits).unwrap();
    assert!(matches!(
        compare_cell(&SqlCell::Integer(-1), &ExpectedCell::U64(u64::MAX), limits),
        Err(IndexError::IntegerOutOfRange)
    ));
    assert!(matches!(
        compare_cell(&SqlCell::Text(b"7"), &ExpectedCell::U64(7), limits),
        Err(IndexError::CorruptIndex)
    ));
    compare_cell(&SqlCell::Integer(1), &ExpectedCell::Bool(true), limits).unwrap();
    assert!(compare_cell(&SqlCell::Integer(2), &ExpectedCell::Bool(true), limits).is_err());
    compare_cell(&SqlCell::Text(b"abc"), &ExpectedCell::Text(b"abc"), limits).unwrap();
    assert!(compare_cell(&SqlCell::Text(b"abd"), &ExpectedCell::Text(b"abc"), limits).is_err());
    let long = vec![b'x'; 17];
    assert!(matches!(
        compare_cell(&SqlCell::Text(&long), &ExpectedCell::Text(&long), limits),
        Err(IndexError::CorruptIndex)
    ));
    compare_cell(&SqlCell::Null, &ExpectedCell::OptionalText(None), limits).unwrap();
    assert!(compare_cell(&SqlCell::Text(b""), &ExpectedCell::OptionalText(None), limits).is_err());
    assert!(matches!(
        compare_cell(
            &SqlCell::Text(b"[]"),
            &ExpectedCell::CheckedText {
                text: b"[]",
                well_formed: false
            },
            limits
        ),
        Err(IndexError::CorruptIndex)
    ));
    assert!(compare_cell(&SqlCell::Real, &ExpectedCell::U64(1), limits).is_err());
    assert!(compare_cell(&SqlCell::Blob(b"a"), &ExpectedCell::Text(b"a"), limits).is_err());
}

#[test]
fn rows_compare_column_count_then_cells_in_order() {
    let limits = limits();
    let expected = vec![ExpectedCell::U64(1), ExpectedCell::Text(b"id")];
    compare_row(&[SqlCell::Integer(1), SqlCell::Text(b"id")], &expected, limits).unwrap();
    assert!(matches!(
        compare_row(&[SqlCell::Integer(1)], &expected, limits),
        Err(IndexError::CorruptIndex)
    ));
    let first_error = vec![ExpectedCell::Text(b"x"), ExpectedCell::U64(u64::MAX)];
    assert!(matches!(
        compare_row(&[SqlCell::Text(b"y"), SqlCell::Integer(0)], &first_error, limits),
        Err(IndexError::CorruptIndex)
    ));
    assert!(matches!(
        compare_row(&[SqlCell::Text(b"x"), SqlCell::Integer(0)], &first_error, limits),
        Err(IndexError::IntegerOutOfRange)
    ));
}

#[test]
fn journal_comparison_walks_every_retained_row() {
    let mut cursor = ComparatorCursor::new();
    assert_eq!(cursor.next_row(ComparedTable::Events, 2).unwrap(), 0);
    cursor.advance(ComparedTable::Events);
    assert_eq!(cursor.next_row(ComparedTable::Events, 2).unwrap(), 1);
    cursor.advance(ComparedTable::Events);
    assert!(matches!(
        cursor.next_row(ComparedTable::Events, 2),
        Err(IndexError::CorruptIndex)
    ));
    cursor.advance(ComparedTable::Claims);
    cursor.finish([2, 0, 0, 0, 0, 1]).unwrap();
    assert!(matches!(
        cursor.finish([2, 0, 0, 0, 0, 2]),
        Err(IndexError::CorruptIndex)
    ));
}

#[test]
fn structure_preflight_counts_rows_cells_and_json_staging() {
    let limits = limits();
    let mut preflight = StructurePreflight::new();
    preflight.begin_row(limits).unwrap();
    assert_eq!(preflight.cell(&SqlCell::Null, false).unwrap(), None);
    assert_eq!(preflight.cell(&SqlCell::Integer(4), false).unwrap(), None);
    assert_eq!(preflight.cell(&SqlCell::Text(b"abc"), false).unwrap(), None);
    assert_eq!(preflight.cell(&SqlCell::Text(b"[1]"), true).unwrap(), Some(3 + 3 + 16));
    assert_eq!(preflight.cell(&SqlCell::Text(b"null"), true).unwrap(), Some(8));
    assert_eq!(preflight.max_json_staging, 22);
    assert!(matches!(
        preflight.cell(&SqlCell::Real, false),
        Err(IndexError::CorruptIndex)
    ));
    assert!(matches!(
        preflight.cell(&SqlCell::Text(b"\xc3"), false),
        Err(IndexError::CorruptIndex)
    ));
    assert!(matches!(
        preflight.cell(&SqlCell::Text(b"[1,]"), true),
        Err(IndexError::CorruptIndex)
    ));
    // A text is counted before its JSON is scanned: 3 + 3 + 4 + 4.
    assert_eq!(preflight.text_seen, 14);
    assert_eq!(preflight.finish(limits).unwrap(), 22);
    preflight.begin_row(limits).unwrap();
    preflight.begin_row(limits).unwrap();
    assert!(matches!(
        preflight.begin_row(limits),
        Err(IndexError::Incomplete {
            limit: 3,
            observed: 4
        })
    ));
    // Text 14, one integer cell, four rows counted.
    let tight = IndexLimits {
        max_working_bytes: 25,
        ..limits
    };
    assert!(matches!(
        preflight.finish(tight),
        Err(IndexError::Incomplete {
            limit: 25,
            observed: 26
        })
    ));
}

#[test]
fn canonical_json_columns_follow_the_scan_tables() {
    assert!(is_json_column(7, 23));
    assert!(is_json_column(REGISTRATIONS_TABLE, 9));
    assert!(is_json_column(20, 3));
    assert!(!is_json_column(20, 8));
    assert!(!is_json_column(0, 0));
    assert!(!is_json_column(7, 8));
}
