use reviewgraphen_store::connection::{
    admit_statement, check_build_pragmas, check_installed_limit, check_query_pragmas,
    sqlite_limit_values, BuildPragmas, SqliteLimitValues,
};
use reviewgraphen_store::budget::{main_image_bytes, reserve_row, reserved_query_vec};
use reviewgraphen_store::classify::{
    check_domain_tables, check_event_rows, check_metadata_only_table, projection_mode, IndexEvent,
    ProjectionMode,
};
use reviewgraphen_store::payload::{
    payload_kind_decoded, payload_kind_v4, validate_offline_classification, PayloadKind,
};
use reviewgraphen_store::publication::{
    check_image_hash, map_link_error, map_tmpfile_error, publication_failure, PublicationStage,
    PublicationTarget,
};
use reviewgraphen_store::selection::ids_strictly_increasing;
use reviewgraphen_store::{IndexError, IndexLimits, PAGE_SIZE};

fn limits() -> IndexLimits {
    IndexLimits {
        max_rows: 10,
        max_serialized_bytes: 8 * PAGE_SIZE,
        max_working_bytes: 1 << 20,
        max_query_bytes: 1000,
        max_statement_bytes: 64,
    }
}

fn configured() -> BuildPragmas {
    BuildPragmas {
        page_size: 4096,
        user_version: 3,
        temp_store: 2,
        foreign_keys: 1,
        cache_size: -1,
        trusted_schema: 0,
        max_page_count: 8,
    }
}

#[test]
fn connection_limits_follow_the_index_limits() {
    assert_eq!(
        sqlite_limit_values(limits()).unwrap(),
        SqliteLimitValues {
            length: 8 * 4096,
            sql_length: 64,
            column: 64,
            compound_select: 32,
            expr_depth: 128,
            variable_number: 256,
        }
    );
    let wide = IndexLimits {
        max_serialized_bytes: 1 << 31,
        ..limits()
    };
    assert!(matches!(
        sqlite_limit_values(wide),
        Err(IndexError::IntegerOutOfRange)
    ));
    check_installed_limit(64, 64, IndexError::CorruptIndex).unwrap();
    assert_eq!(
        check_installed_limit(64, 63, IndexError::CorruptIndex),
        Err(IndexError::CorruptIndex)
    );
}

#[test]
fn exact_statement_length_is_admitted_and_one_more_is_refused() {
    let exact = "x".repeat(64);
    admit_statement(&exact, limits()).unwrap();
    let over = "x".repeat(65);
    assert_eq!(
        admit_statement(&over, limits()),
        Err(IndexError::Incomplete {
            limit: 64,
            observed: 65
        })
    );
}

#[test]
fn exact_statement_and_row_limits_accept_then_plus_one_refuses() {
    let limits = IndexLimits {
        max_rows: 1,
        max_serialized_bytes: PAGE_SIZE,
        max_working_bytes: PAGE_SIZE,
        max_query_bytes: 1,
        max_statement_bytes: 8,
    };
    admit_statement("SELECT 1", limits).unwrap();
    assert!(matches!(
        admit_statement("SELECT 12", limits),
        Err(IndexError::Incomplete {
            limit: 8,
            observed: 9
        })
    ));
    let mut rows = 0;
    reserve_row(&mut rows, limits).unwrap();
    assert!(matches!(
        reserve_row(&mut rows, limits),
        Err(IndexError::Incomplete {
            limit: 1,
            observed: 2
        })
    ));
}

#[test]
fn build_and_query_pragmas_are_read_back_exactly() {
    check_build_pragmas(&configured(), "memory", "exclusive", 1, 8).unwrap();
    assert_eq!(
        check_build_pragmas(&configured(), "wal", "exclusive", 1, 8),
        Err(IndexError::ProjectionContractViolation)
    );
    assert_eq!(
        check_build_pragmas(&configured(), "memory", "normal", 1, 8),
        Err(IndexError::ProjectionContractViolation)
    );
    let mut other_pages = configured();
    other_pages.max_page_count = 9;
    assert!(check_build_pragmas(&other_pages, "memory", "exclusive", 1, 8).is_err());
    check_query_pragmas(2, 1, 0, -1, 1).unwrap();
    assert_eq!(
        check_query_pragmas(2, 0, 0, -1, 1),
        Err(IndexError::CorruptIndex)
    );
}

#[test]
fn canonical_id_lists_are_strictly_increasing() {
    let ids = |names: &[&str]| -> Vec<Vec<u8>> {
        names.iter().map(|name| name.as_bytes().to_vec()).collect()
    };
    assert!(ids_strictly_increasing(&ids(&[])));
    assert!(ids_strictly_increasing(&ids(&["a"])));
    assert!(ids_strictly_increasing(&ids(&["a", "ab", "b"])));
    assert!(!ids_strictly_increasing(&ids(&["a", "a"])));
    assert!(!ids_strictly_increasing(&ids(&["b", "a"])));
}

#[test]
fn projection_modes_fix_which_tables_may_hold_rows() {
    assert_eq!(
        projection_mode("v1_event_metadata_only"),
        Ok(ProjectionMode::MetadataOnly)
    );
    assert_eq!(projection_mode("v2_domain"), Ok(ProjectionMode::Domain));
    assert_eq!(projection_mode("v3_domain"), Err(IndexError::CorruptIndex));
    check_metadata_only_table(0).unwrap();
    assert_eq!(check_metadata_only_table(1), Err(IndexError::CorruptIndex));
    check_domain_tables(1, 4, 2).unwrap();
    assert_eq!(check_domain_tables(2, 4, 2), Err(IndexError::CorruptIndex));
    assert_eq!(check_domain_tables(1, 0, 2), Err(IndexError::CorruptIndex));
    assert_eq!(check_domain_tables(1, 4, 0), Err(IndexError::CorruptIndex));
}

#[test]
fn reconstructed_image_bytes_and_result_vectors() {
    assert_eq!(main_image_bytes(3, limits()).unwrap(), 3 * 4096);
    assert_eq!(main_image_bytes(-1, limits()), Err(IndexError::CorruptIndex));
    assert_eq!(
        main_image_bytes(i64::MAX, limits()),
        Err(IndexError::Incomplete {
            limit: 1 << 20,
            observed: u64::MAX
        })
    );
    let rows: Vec<u32> = reserved_query_vec(5).unwrap();
    assert!(rows.is_empty() && rows.capacity() >= 5);
    assert!(matches!(
        reserved_query_vec::<u32>(-1),
        Err(IndexError::CorruptIndex)
    ));
}

fn target() -> PublicationTarget {
    PublicationTarget {
        run_id: "run:a".to_string(),
        tail_hash: "sha256:t".to_string(),
        image_hash: "sha256:i".to_string(),
    }
}

#[test]
fn failures_after_rename_always_report_uncertain_durability() {
    assert_eq!(
        publication_failure(PublicationStage::BeforeRename, IndexError::Io, target()),
        IndexError::Io
    );
    assert_eq!(
        publication_failure(PublicationStage::AfterRename, IndexError::Io, target()),
        IndexError::PublicationDurabilityUncertain {
            run_id: "run:a".to_string(),
            tail_hash: "sha256:t".to_string(),
            image_hash: "sha256:i".to_string(),
        }
    );
    assert_eq!(map_tmpfile_error(38), IndexError::UnsupportedPlatform);
    assert_eq!(map_tmpfile_error(95), IndexError::UnsupportedPlatform);
    assert_eq!(map_tmpfile_error(13), IndexError::Store { errno: 13 });
    assert_eq!(map_link_error(17), IndexError::IndexPathRace);
    assert_eq!(map_link_error(5), IndexError::Store { errno: 5 });
    check_image_hash("sha256:a", "sha256:a").unwrap();
    assert_eq!(
        check_image_hash("sha256:a", "sha256:b"),
        Err(IndexError::CorruptIndex)
    );
}

#[test]
fn payload_kinds_are_named_and_classified() {
    assert_eq!(
        payload_kind_decoded(PayloadKind::ReviewPlanRecorded),
        Ok("review_plan_recorded")
    );
    assert_eq!(
        payload_kind_decoded(PayloadKind::EvidenceRecordedV3),
        Err(IndexError::ProjectionContractViolation)
    );
    assert_eq!(
        payload_kind_v4(PayloadKind::RunGenesisManifestV3),
        Ok("run_genesis_manifest")
    );
    assert_eq!(
        payload_kind_v4(PayloadKind::EvidenceRecordedV3),
        Ok("evidence_recorded_v3")
    );
    assert_eq!(
        payload_kind_v4(PayloadKind::ClaimProposed),
        Err(IndexError::ProjectionContractViolation)
    );
    validate_offline_classification(false, PayloadKind::EvidenceBound).unwrap();
    validate_offline_classification(true, PayloadKind::ObligationTransition).unwrap();
    assert_eq!(
        validate_offline_classification(true, PayloadKind::EvidenceBound),
        Err(IndexError::ProjectionContractViolation)
    );
    assert_eq!(
        validate_offline_classification(false, PayloadKind::ReviewPlanRecorded),
        Err(IndexError::ProjectionContractViolation)
    );
    assert_eq!(
        validate_offline_classification(false, PayloadKind::FindingRecordedV3),
        Err(IndexError::ProjectionContractViolation)
    );
}

#[test]
fn read_back_events_must_agree_with_the_marker() {
    const CONTRACT: &str = "reviewgraphen.review_event.v2";
    let event = |sequence: u64, schema: &str, payload_kind: &str| IndexEvent {
        sequence,
        event_id: format!("event:{sequence}"),
        schema: schema.to_string(),
        event_hash: "sha256:e".to_string(),
        payload_hash: "sha256:p".to_string(),
        payload_kind: payload_kind.to_string(),
        actor: "system".to_string(),
        logical_time: sequence,
    };
    let genesis = event(1, CONTRACT, "run_genesis_manifest");
    let next = event(2, CONTRACT, "review_plan_recorded");
    check_event_rows(&[genesis, next], 2, CONTRACT, "v2_domain").unwrap();
    // The marker counts one event more than the table holds.
    assert_eq!(
        check_event_rows(&[event(1, CONTRACT, "run_genesis_manifest")], 2, CONTRACT, "v2_domain"),
        Err(IndexError::CorruptIndex)
    );
    assert_eq!(
        check_event_rows(
            &[event(1, "reviewgraphen.review_event.v1", "run_genesis_manifest")],
            1,
            CONTRACT,
            "v1_event_metadata_only"
        ),
        Err(IndexError::CorruptIndex)
    );
    assert_eq!(
        check_event_rows(&[event(2, CONTRACT, "run_genesis_manifest")], 1, CONTRACT, "v2_domain"),
        Err(IndexError::CorruptIndex)
    );
    check_event_rows(
        &[event(1, CONTRACT, "review_plan_recorded")],
        1,
        CONTRACT,
        "v1_event_metadata_only",
    )
    .unwrap();
    assert_eq!(
        check_event_rows(&[], 0, CONTRACT, "v2_domain"),
        Err(IndexError::CorruptIndex)
    );
    check_event_rows(&[], 0, CONTRACT, "v1_event_metadata_only").unwrap();
}
