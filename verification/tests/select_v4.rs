use reviewgraphen_store::select_v4::{
    select_v4, SelectionRequestV4, SelectionRowsV4, SelectionSnapshotV4, SqlKeyRow,
    V4SelectionItemKey,
};
use reviewgraphen_store::selection::{SelectionKey, V4CoverageAxis, V4SelectionRowKind};
use reviewgraphen_store::IndexError;

fn key(sequence: u64, id: &str) -> SelectionKey {
    SelectionKey {
        sequence,
        id: id.as_bytes().to_vec(),
    }
}

fn sql(sequence: i64, id: &str) -> SqlKeyRow {
    SqlKeyRow {
        sequence,
        id: Some(id.as_bytes().to_vec()),
    }
}

fn ids(values: &[&str]) -> Vec<Option<Vec<u8>>> {
    values.iter().map(|id| Some(id.as_bytes().to_vec())).collect()
}

fn snapshot() -> SelectionSnapshotV4 {
    SelectionSnapshotV4 {
        confirmed_offset: 90,
        event_count: 7,
        tail_hash: b"sha256:tail".to_vec(),
        marker_fingerprint: [3; 32],
        recorded_fingerprint: [3; 32],
        executions: vec![key(1, "e1"), key(2, "e2")],
        claims: vec![key(3, "c1")],
        evidence_bindings: Vec::new(),
        verifications: Vec::new(),
        decisions: Vec::new(),
        findings: Vec::new(),
        evidence: Vec::new(),
        artifact_registrations: vec![key(1, "r1")],
        claim_assessments: vec![key(0, "c1")],
        obligations: vec![b"o1".to_vec(), b"o2".to_vec()],
    }
}

fn request() -> SelectionRequestV4 {
    SelectionRequestV4 {
        selected_obligation_ids: vec![b"o1".to_vec()],
        expected_confirmed_offset: 90,
        expected_event_count: 7,
        expected_tail_hash: b"sha256:tail".to_vec(),
    }
}

fn rows() -> SelectionRowsV4 {
    SelectionRowsV4 {
        missing: 0,
        plan_matches: 1,
        bad_scope: 0,
        executions: vec![sql(1, "e1")],
        claims: vec![sql(3, "c1")],
        evidence_bindings: Vec::new(),
        verifications: Vec::new(),
        decisions: Vec::new(),
        findings: Vec::new(),
        evidence: Vec::new(),
        artifact_registrations: vec![sql(1, "r1")],
        claim_assessments: vec![sql(0, "c1")],
        obstructions: Vec::new(),
        denominator: ids(&["o1", "o2"]),
        visited: ids(&["o1"]),
        completed: ids(&["o1"]),
        evidence_supported: Vec::new(),
        verified: Vec::new(),
        accepted: Vec::new(),
        max_cas: 12,
    }
}

fn violation(rows: &SelectionRowsV4) -> bool {
    matches!(
        select_v4(&snapshot(), &request(), rows),
        Err(IndexError::ProjectionContractViolation)
    )
}

#[test]
fn selection_items_come_in_emission_order_with_matching_counts() {
    let (items, summary) = select_v4(&snapshot(), &request(), &rows()).unwrap();
    let row = |kind, position| V4SelectionItemKey::Row { kind, position };
    let axis = |axis, position| V4SelectionItemKey::Coverage { axis, position };
    assert_eq!(
        items,
        vec![
            row(V4SelectionRowKind::Execution, 0),
            row(V4SelectionRowKind::Claim, 0),
            row(V4SelectionRowKind::ArtifactRegistration, 0),
            row(V4SelectionRowKind::ClaimAssessment, 0),
            axis(V4CoverageAxis::Denominator, 0),
            axis(V4CoverageAxis::Denominator, 1),
            axis(V4CoverageAxis::Visited, 0),
            axis(V4CoverageAxis::Completed, 0),
        ]
    );
    assert_eq!(summary.counts.executions, 1);
    assert_eq!(summary.counts.claims, 1);
    assert_eq!(summary.counts.artifact_registrations, 1);
    assert_eq!(summary.counts.claim_assessments, 1);
    assert_eq!(summary.counts.obstructions, 0);
    assert_eq!(summary.counts.denominator_ids, 2);
    assert_eq!(summary.counts.visited_ids, 1);
    assert_eq!(summary.counts.completed_ids, 1);
    assert_eq!(summary.counts.accepted_ids, 0);
    assert_eq!(summary.max_cas_bytes, 12);
    assert_eq!(summary.confirmed_offset, 90);
    assert_eq!(summary.event_count, 7);
    assert_eq!(summary.marker_fingerprint, [3; 32]);
}

#[test]
fn later_rows_pair_past_earlier_ones() {
    let mut answered = rows();
    answered.executions = vec![sql(1, "e1"), sql(2, "e2")];
    answered.obstructions = vec![sql(2, "e2")];
    let (items, summary) = select_v4(&snapshot(), &request(), &answered).unwrap();
    assert_eq!(summary.counts.executions, 2);
    assert_eq!(summary.counts.obstructions, 1);
    assert_eq!(
        items[1],
        V4SelectionItemKey::Row {
            kind: V4SelectionRowKind::Execution,
            position: 1
        }
    );
    let mut backwards = rows();
    backwards.executions = vec![sql(2, "e2"), sql(1, "e1")];
    assert!(violation(&backwards));
}

#[test]
fn a_request_for_another_marker_or_nothing_is_refused() {
    let mut other = request();
    other.expected_tail_hash = b"sha256:other".to_vec();
    assert!(matches!(
        select_v4(&snapshot(), &other, &rows()),
        Err(IndexError::ProjectionContractViolation)
    ));
    let mut empty = request();
    empty.selected_obligation_ids.clear();
    assert!(matches!(
        select_v4(&snapshot(), &empty, &rows()),
        Err(IndexError::ProjectionContractViolation)
    ));
    let mut drifted = snapshot();
    drifted.recorded_fingerprint = [4; 32];
    assert!(matches!(
        select_v4(&drifted, &request(), &rows()),
        Err(IndexError::ProjectionContractViolation)
    ));
}

#[test]
fn scope_and_pairing_failures_violate_the_projection_contract() {
    let mut scope = rows();
    scope.plan_matches = 2;
    assert!(violation(&scope));
    let mut absent = rows();
    absent.claims = vec![sql(3, "c9")];
    assert!(violation(&absent));
    let mut negative = rows();
    negative.executions = vec![sql(-1, "e1")];
    assert!(violation(&negative));
    let mut not_text = rows();
    not_text.executions = vec![SqlKeyRow { sequence: 1, id: None }];
    assert!(violation(&not_text));
    let mut not_utf8 = rows();
    not_utf8.visited = vec![Some(vec![0xff])];
    assert!(violation(&not_utf8));
    let mut negative_cas = rows();
    negative_cas.max_cas = -1;
    assert!(violation(&negative_cas));
}

#[test]
fn coverage_relations_are_held_to() {
    let mut partial = rows();
    partial.denominator = ids(&["o1"]);
    assert!(violation(&partial));
    let mut unvisited = rows();
    unvisited.visited = Vec::new();
    assert!(violation(&unvisited));
    let mut unselected = rows();
    unselected.visited = ids(&["o2"]);
    unselected.completed = Vec::new();
    assert!(violation(&unselected));
    let mut unverified = rows();
    unverified.evidence_supported = ids(&["o1"]);
    unverified.accepted = ids(&["o1"]);
    assert!(violation(&unverified));
    let mut verified = rows();
    verified.evidence_supported = ids(&["o1"]);
    verified.verified = ids(&["o1"]);
    verified.accepted = ids(&["o1"]);
    let (_, summary) = select_v4(&snapshot(), &request(), &verified).unwrap();
    assert_eq!(summary.counts.evidence_supported_ids, 1);
    assert_eq!(summary.counts.verified_ids, 1);
    assert_eq!(summary.counts.accepted_ids, 1);
}
