use reviewgraphen_store::readback_v4::{
    validate_v4_rows, CheckedJson, MarkerRow, ProgramRelationRow, SnapshotCellsV4, UniverseRow,
    V4_READBACK_TABLE_COUNT,
};
use reviewgraphen_store::rows::SqlCell;
use reviewgraphen_store::write_v4::{v4_insert_values, SqlValue};
use reviewgraphen_store::{IndexError, IndexLimits, PAGE_SIZE};

fn limits() -> IndexLimits {
    IndexLimits {
        max_rows: 100,
        max_serialized_bytes: PAGE_SIZE * 16,
        max_working_bytes: 1 << 20,
        max_query_bytes: 1 << 16,
        max_statement_bytes: 1 << 16,
    }
}

fn text(value: &str) -> Vec<u8> {
    value.as_bytes().to_vec()
}

fn marker(index_schema_version: u64) -> MarkerRow {
    MarkerRow {
        index_schema_version,
        projection_contract_version: text("projection-v4"),
        event_contract_version: text("events-v3"),
        projection_mode: text("rebuild"),
        run_id: text("run-1"),
        genesis_hash: text("sha256:aa"),
        confirmed_offset: 40,
        tail_hash: text("sha256:bb"),
        event_count: 2,
        policy_revision_hash: text("sha256:cc"),
        authority_replay_basis_digest: text("sha256:dd"),
    }
}

fn snapshot(index_schema_version: u64) -> SnapshotCellsV4 {
    SnapshotCellsV4 {
        marker: marker(index_schema_version),
        events: Vec::new(),
        program_objects: Vec::new(),
        program_relations: Vec::new(),
        universe: None,
        obligations: Vec::new(),
        obligation_lifecycle: Vec::new(),
        artifact_registrations: Vec::new(),
        snapshot_sources: Vec::new(),
        review_plans: Vec::new(),
        context_envelopes: Vec::new(),
        executions: Vec::new(),
        claims: Vec::new(),
        shadows: Vec::new(),
        projected_findings: Vec::new(),
        evidence: Vec::new(),
        evidence_bindings: Vec::new(),
        verifications: Vec::new(),
        decisions: Vec::new(),
        findings: Vec::new(),
        claim_assessments: Vec::new(),
    }
}

fn marker_cells(version: i64) -> Vec<SqlCell<'static>> {
    vec![
        SqlCell::Integer(1),
        SqlCell::Integer(version),
        SqlCell::Text(b"projection-v4"),
        SqlCell::Text(b"events-v3"),
        SqlCell::Text(b"rebuild"),
        SqlCell::Text(b"run-1"),
        SqlCell::Text(b"sha256:aa"),
        SqlCell::Integer(40),
        SqlCell::Text(b"sha256:bb"),
        SqlCell::Integer(2),
        SqlCell::Text(b"sha256:cc"),
        SqlCell::Text(b"sha256:dd"),
    ]
}

fn image(version: i64) -> Vec<Vec<Vec<SqlCell<'static>>>> {
    let mut tables: Vec<Vec<Vec<SqlCell<'static>>>> =
        (0..V4_READBACK_TABLE_COUNT).map(|_| Vec::new()).collect();
    tables[0].push(marker_cells(version));
    tables
}

#[test]
fn image_matching_the_snapshot_reads_back() {
    validate_v4_rows(&image(4), &snapshot(4), limits()).unwrap();
}

#[test]
fn missing_or_extra_rows_are_corruption() {
    let mut missing = image(4);
    missing[0].clear();
    assert!(matches!(
        validate_v4_rows(&missing, &snapshot(4), limits()),
        Err(IndexError::CorruptIndex)
    ));
    let mut extra = image(4);
    extra[1].push(vec![SqlCell::Integer(1)]);
    assert!(matches!(
        validate_v4_rows(&extra, &snapshot(4), limits()),
        Err(IndexError::CorruptIndex)
    ));
    let mut short = image(4);
    short.pop();
    assert!(matches!(
        validate_v4_rows(&short, &snapshot(4), limits()),
        Err(IndexError::CorruptIndex)
    ));
}

#[test]
fn cells_are_compared_with_the_field_in_their_column() {
    assert!(matches!(
        validate_v4_rows(&image(5), &snapshot(4), limits()),
        Err(IndexError::CorruptIndex)
    ));
    let mut swapped = image(4);
    swapped[0][0].swap(2, 3);
    assert!(matches!(
        validate_v4_rows(&swapped, &snapshot(4), limits()),
        Err(IndexError::CorruptIndex)
    ));
    let mut narrow = limits();
    narrow.max_query_bytes = 8;
    assert!(matches!(
        validate_v4_rows(&image(4), &snapshot(4), narrow),
        Err(IndexError::CorruptIndex)
    ));
}

#[test]
fn out_of_range_version_wins_over_a_later_missing_row() {
    let mut expected = snapshot(u64::MAX);
    expected.universe = Some(UniverseRow {
        universe_id: text("u"),
        snapshot_id: text("s"),
        profile_id: text("p"),
        rule_set_hash: text("h1"),
        extractor_set_hash: text("h2"),
        policy_version: text("v"),
        rule_pack_version: text("r"),
        body_hash: text("h3"),
    });
    assert!(matches!(
        validate_v4_rows(&image(4), &expected, limits()),
        Err(IndexError::IntegerOutOfRange)
    ));
    let mut present = snapshot(4);
    present.universe = expected.universe.take();
    assert!(matches!(
        validate_v4_rows(&image(4), &present, limits()),
        Err(IndexError::CorruptIndex)
    ));
    let mut tables = image(4);
    tables[4].push(vec![
        SqlCell::Integer(1),
        SqlCell::Text(b"u"),
        SqlCell::Text(b"s"),
        SqlCell::Text(b"p"),
        SqlCell::Text(b"h1"),
        SqlCell::Text(b"h2"),
        SqlCell::Text(b"v"),
        SqlCell::Text(b"r"),
        SqlCell::Text(b"h3"),
    ]);
    validate_v4_rows(&tables, &present, limits()).unwrap();
}

#[test]
fn json_columns_carry_their_verdict() {
    let relation = |well_formed| ProgramRelationRow {
        relation_id: text("rel"),
        relation_kind: text("calls"),
        source_id: text("a"),
        target_ids_canonical_json: CheckedJson {
            text: text("[\"b\"]"),
            well_formed,
        },
        body_hash: text("h"),
    };
    let mut tables = image(4);
    tables[3].push(vec![
        SqlCell::Text(b"rel"),
        SqlCell::Text(b"calls"),
        SqlCell::Text(b"a"),
        SqlCell::Text(b"[\"b\"]"),
        SqlCell::Text(b"h"),
    ]);
    let mut accepted = snapshot(4);
    accepted.program_relations.push(relation(true));
    validate_v4_rows(&tables, &accepted, limits()).unwrap();
    let mut refused = snapshot(4);
    refused.program_relations.push(relation(false));
    assert!(matches!(
        validate_v4_rows(&tables, &refused, limits()),
        Err(IndexError::CorruptIndex)
    ));
}

fn cell_of<'a>(value: &SqlValue<'a>) -> SqlCell<'a> {
    match value {
        SqlValue::Null => SqlCell::Null,
        SqlValue::Integer(value) => SqlCell::Integer(*value),
        SqlValue::Text(bytes) => SqlCell::Text(bytes),
    }
}

#[test]
fn written_values_read_back() {
    let mut written = snapshot(4);
    written.universe = Some(UniverseRow {
        universe_id: text("u"),
        snapshot_id: text("s"),
        profile_id: text("p"),
        rule_set_hash: text("h1"),
        extractor_set_hash: text("h2"),
        policy_version: text("v"),
        rule_pack_version: text("r"),
        body_hash: text("h3"),
    });
    let values = v4_insert_values(&written).unwrap();
    assert_eq!(values.len(), V4_READBACK_TABLE_COUNT);
    assert!(matches!(values[0][0][0], SqlValue::Integer(1)));
    assert!(matches!(values[0][0][1], SqlValue::Integer(4)));
    assert!(matches!(values[0][0][5], SqlValue::Text(b"run-1")));
    assert!(matches!(values[4][0][0], SqlValue::Integer(1)));
    let stored: Vec<Vec<Vec<SqlCell>>> = values
        .iter()
        .map(|table| table.iter().map(|row| row.iter().map(cell_of).collect()).collect())
        .collect();
    validate_v4_rows(&stored, &written, limits()).unwrap();
}

#[test]
fn integers_beyond_sqlite_cannot_be_written() {
    assert!(matches!(
        v4_insert_values(&snapshot(u64::MAX)),
        Err(IndexError::IntegerOutOfRange)
    ));
}
