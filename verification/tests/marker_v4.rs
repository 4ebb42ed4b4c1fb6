use reviewgraphen_store::marker_v4::{
    check_image_integrity, check_marker_v4_header, committed_marker_standing, MarkerStanding,
    IndexMarkerV4, EVENT_CONTRACT_VERSION_V3, PROJECTION_CONTRACT_VERSION_V4, PROJECTION_MODE_V3,
};
use reviewgraphen_store::IndexError;

fn marker(run_id: &str, offset: u64, tail: &str) -> IndexMarkerV4 {
    IndexMarkerV4 {
        index_schema_version: 4,
        sqlite_user_version: 4,
        projection_contract_version: PROJECTION_CONTRACT_VERSION_V4.to_string(),
        event_contract_version: EVENT_CONTRACT_VERSION_V3.to_string(),
        projection_mode: PROJECTION_MODE_V3.to_string(),
        run_id: run_id.to_string(),
        genesis_hash: "sha256:genesis".to_string(),
        confirmed_offset: offset,
        tail_hash: tail.to_string(),
        event_count: offset,
        policy_revision_hash: "sha256:policy".to_string(),
        authority_replay_basis_digest: "sha256:basis".to_string(),
    }
}

#[test]
fn v4_marker_header_names_exactly_this_schema() {
    check_marker_v4_header(
        4,
        "reviewgraphen.index_projection.v4",
        "reviewgraphen.review_event.v3",
        "v3_authority",
    )
    .unwrap();
    for (version, projection, event, mode) in [
        (3, PROJECTION_CONTRACT_VERSION_V4, EVENT_CONTRACT_VERSION_V3, PROJECTION_MODE_V3),
        (-4, PROJECTION_CONTRACT_VERSION_V4, EVENT_CONTRACT_VERSION_V3, PROJECTION_MODE_V3),
        (4, "reviewgraphen.index_projection.v3", EVENT_CONTRACT_VERSION_V3, PROJECTION_MODE_V3),
        (4, PROJECTION_CONTRACT_VERSION_V4, "reviewgraphen.review_event.v2", PROJECTION_MODE_V3),
        (4, PROJECTION_CONTRACT_VERSION_V4, EVENT_CONTRACT_VERSION_V3, "v2_domain"),
    ] {
        assert_eq!(
            check_marker_v4_header(version, projection, event, mode),
            Err(IndexError::CorruptIndex)
        );
    }
}

#[test]
fn integrity_requires_ok_and_no_foreign_key_violation() {
    check_image_integrity("ok", false, IndexError::CorruptIndex).unwrap();
    assert_eq!(
        check_image_integrity("ok", true, IndexError::CorruptIndex),
        Err(IndexError::CorruptIndex)
    );
    assert_eq!(
        check_image_integrity("*** in database main ***", false, IndexError::ProjectionContractViolation),
        Err(IndexError::ProjectionContractViolation)
    );
    assert_eq!(
        check_image_integrity("OK", false, IndexError::CorruptIndex),
        Err(IndexError::CorruptIndex)
    );
}

#[test]
fn committed_marker_is_current_stale_or_foreign() {
    let current = marker("run:a", 9, "sha256:nine");
    assert!(matches!(
        committed_marker_standing(&marker("run:a", 9, "sha256:nine"), &current),
        Ok(MarkerStanding::Current)
    ));
    match committed_marker_standing(&marker("run:a", 4, "sha256:four"), &current) {
        Ok(MarkerStanding::Stale { stale }) => assert_eq!(
            stale,
            IndexError::CommittedIndexStale {
                indexed_offset: 4,
                indexed_tail: "sha256:four".to_string(),
                committed_offset: 9,
                committed_tail: "sha256:nine".to_string(),
            }
        ),
        _ => panic!("a prefix of the same run must be stale"),
    }
    let mut drifted = marker("run:a", 9, "sha256:nine");
    drifted.policy_revision_hash = "sha256:other-policy".to_string();
    assert!(matches!(
        committed_marker_standing(&drifted, &current),
        Ok(MarkerStanding::Stale { .. })
    ));
    assert!(matches!(
        committed_marker_standing(&marker("run:b", 9, "sha256:nine"), &current),
        Err(IndexError::CorruptIndex)
    ));
}
