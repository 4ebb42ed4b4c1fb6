use reviewgraphen_store::candidate::{candidate_name, is_candidate_name};
use reviewgraphen_store::classify::{
    check_committed_tail, check_replay_position, classify_entry_name, classify_v3_user_version,
    classify_v4_user_version, ensure_same_inode, file_type_from_raw_mode, map_entry_error,
    map_sqlite_failure, normalize_external_image_error, verify_index_stat, CandidateAudit,
    CandidateScanLimits, EntryClass, EntryStat, FileType, JournalPosition, TailBinding,
    ACTIVE_FILE, LOCK_FILE,
};
use reviewgraphen_store::ownership::{
    bool_key_charge, bytes_charge, char_charge, newtype_variant_charge, signed_key_charge,
    str_charge, unit_variant_charge, unsigned_key_charge, OwnershipCompound,
    OwnershipCompoundKind, OwnershipError,
};
use reviewgraphen_store::IndexError;

#[test]
fn sequence_and_object_compounds_charge_slots_keys_and_values() {
    let mut sequence = OwnershipCompound::sequence();
    sequence.add_sequence_value(1).unwrap();
    sequence.add_sequence_value(8).unwrap();
    assert_eq!(sequence.end().unwrap(), 8 + 1 + 8 + 8);

    let mut object = OwnershipCompound::object();
    object.serialize_key(str_charge("ab"));
    object.serialize_value(str_charge("xyz")).unwrap();
    object.add_object_value(1, 0).unwrap();
    assert_eq!(object.end().unwrap(), (16 + 2 + 3) + (16 + 1));

    let mut variant = OwnershipCompound::variant_object("Leaf");
    variant.add_object_value(3, 8).unwrap();
    assert_eq!(variant.finish().unwrap(), 16 + 4 + (16 + 3 + 8));
    let tuple = OwnershipCompound::variant_sequence("Pair");
    assert_eq!(
        tuple.kind,
        OwnershipCompoundKind::VariantSequence { outer_key_bytes: 4 }
    );
    assert_eq!(tuple.finish().unwrap(), 20);
}

#[test]
fn compounds_refuse_out_of_order_maps_and_overflow() {
    let mut object = OwnershipCompound::object();
    assert_eq!(object.serialize_value(1), Err(OwnershipError));
    object.serialize_key(1);
    assert!(matches!(object.end(), Err(OwnershipError)));
    let mut full = OwnershipCompound {
        total: u64::MAX - 8,
        kind: OwnershipCompoundKind::Sequence,
        pending_key: None,
    };
    assert_eq!(full.add_sequence_value(1), Err(OwnershipError));
    assert_eq!(full.total, u64::MAX);
    let variant = OwnershipCompound {
        total: u64::MAX,
        kind: OwnershipCompoundKind::VariantObject { outer_key_bytes: 1 },
        pending_key: None,
    };
    assert_eq!(variant.finish(), Err(OwnershipError));
}

#[test]
fn scalar_charges() {
    assert_eq!(char_charge('a'), 1);
    assert_eq!(char_charge('é'), 2);
    assert_eq!(char_charge('😀'), 4);
    assert_eq!(str_charge("héllo"), 6);
    assert_eq!(bytes_charge(3).unwrap(), 48);
    assert_eq!(bytes_charge(usize::MAX), Err(OwnershipError));
    assert_eq!(unit_variant_charge("Completed"), 9);
    assert_eq!(newtype_variant_charge("Some", 8).unwrap(), 16 + 4 + 8);
    assert_eq!(newtype_variant_charge("Some", u64::MAX), Err(OwnershipError));
}

#[test]
fn map_keys_are_charged_as_their_text() {
    assert_eq!(unsigned_key_charge(0), 1);
    assert_eq!(unsigned_key_charge(9), 1);
    assert_eq!(unsigned_key_charge(10), 2);
    assert_eq!(unsigned_key_charge(u64::MAX), 20);
    assert_eq!(signed_key_charge(-1), 2);
    assert_eq!(signed_key_charge(i64::MIN), 20);
    assert_eq!(signed_key_charge(i64::MAX), 19);
    assert_eq!(bool_key_charge(true), 4);
    assert_eq!(bool_key_charge(false), 5);
    for value in [0u64, 7, 42, 1000, 123456789] {
        assert_eq!(unsigned_key_charge(value), value.to_string().len() as u64);
    }
}

#[test]
fn candidate_names_round_trip_and_nothing_else_is_a_candidate() {
    let mut nonce = [0u8; 32];
    for (index, byte) in nonce.iter_mut().enumerate() {
        *byte = (index * 7 + 3) as u8;
    }
    let name = candidate_name(&nonce);
    assert_eq!(name.len(), 81);
    assert!(name.starts_with("candidate-"));
    assert!(name.ends_with(".sqlite"));
    assert_eq!(&name[10..14], "030a");
    assert!(is_candidate_name(&name));
    assert_eq!(classify_entry_name(&name), EntryClass::Candidate);
    let mut other = nonce;
    other[0] ^= 1;
    assert_ne!(candidate_name(&other), name);
    assert!(!is_candidate_name(&name.to_uppercase()));
    assert!(!is_candidate_name("candidate-.sqlite"));
    assert_eq!(classify_entry_name(LOCK_FILE), EntryClass::Fixed);
    assert_eq!(classify_entry_name(ACTIVE_FILE), EntryClass::Fixed);
    assert_eq!(classify_entry_name(".."), EntryClass::Fixed);
    assert_eq!(classify_entry_name("stray"), EntryClass::Foreign);
}

#[test]
fn sqlite_failures_map_to_index_errors() {
    assert_eq!(map_sqlite_failure(2067), IndexError::DuplicateIndexKey);
    assert_eq!(map_sqlite_failure(1555), IndexError::DuplicateIndexKey);
    assert_eq!(map_sqlite_failure(275), IndexError::ProjectionContractViolation);
    assert_eq!(map_sqlite_failure(19), IndexError::ProjectionContractViolation);
    assert_eq!(
        map_sqlite_failure(13),
        IndexError::Incomplete {
            limit: 0,
            observed: 0
        }
    );
    assert_eq!(
        map_sqlite_failure(7),
        IndexError::Incomplete {
            limit: 0,
            observed: 0
        }
    );
    assert_eq!(map_sqlite_failure(11), IndexError::CorruptIndex);
    assert_eq!(map_sqlite_failure(26), IndexError::CorruptIndex);
    assert_eq!(
        map_sqlite_failure(1),
        IndexError::Sql {
            extended_code: Some(1)
        }
    );
}

#[test]
fn entry_errors_and_external_image_errors_are_classified() {
    assert_eq!(map_entry_error(2), IndexError::Missing);
    assert_eq!(map_entry_error(40), IndexError::CorruptIndex);
    assert_eq!(map_entry_error(20), IndexError::CorruptIndex);
    assert_eq!(map_entry_error(13), IndexError::Store { errno: 13 });
    assert_eq!(
        normalize_external_image_error(IndexError::InvalidLimits),
        IndexError::InvalidLimits
    );
    assert_eq!(
        normalize_external_image_error(IndexError::DuplicateIndexKey),
        IndexError::CorruptIndex
    );
}

#[test]
fn schema_versions_require_rebuild_or_are_corrupt() {
    classify_v3_user_version(3).unwrap();
    assert_eq!(
        classify_v3_user_version(2),
        Err(IndexError::RebuildRequired {
            found: 2,
            required: 3
        })
    );
    assert_eq!(classify_v3_user_version(9), Err(IndexError::CorruptIndex));
    assert_eq!(
        classify_v3_user_version(1),
        Err(IndexError::RebuildRequired {
            found: 1,
            required: 3
        })
    );
    assert_eq!(classify_v3_user_version(0), Err(IndexError::CorruptIndex));
    classify_v4_user_version(4).unwrap();
    assert_eq!(classify_v4_user_version(5), Err(IndexError::CorruptIndex));
    assert_eq!(classify_v4_user_version(-1), Err(IndexError::CorruptIndex));
}

#[test]
fn schema_v2_and_v3_images_are_rebuild_required_by_v4_reader() {
    for found in [2_u32, 3] {
        assert!(matches!(
            classify_v4_user_version(i64::from(found)),
            Err(IndexError::RebuildRequired {
                found: actual,
                required: 4
            }) if actual == found
        ));
    }
}

fn stat(mode: u32) -> EntryStat {
    EntryStat {
        st_mode: mode,
        st_uid: 1000,
        st_gid: 100,
        st_dev: 1,
        st_ino: 2,
        st_size: 0,
    }
}

#[test]
fn synthetic_stat_owner_and_nonregular_matrix_are_fail_closed() {
    let regular = stat(0o100600);
    verify_index_stat(&regular, 1000, 100, FileType::RegularFile, 0o600).unwrap();
    let mut foreign_owner = regular;
    foreign_owner.st_uid = foreign_owner.st_uid.saturating_add(1);
    assert!(matches!(
        verify_index_stat(&foreign_owner, 1000, 100, FileType::RegularFile, 0o600),
        Err(IndexError::CorruptIndex)
    ));
    assert!(matches!(
        verify_index_stat(&regular, 1000, 100, FileType::BlockDevice, 0o600),
        Err(IndexError::CorruptIndex)
    ));
    assert!(verify_index_stat(&stat(0o100644), 1000, 100, FileType::RegularFile, 0o600).is_err());
    assert_eq!(file_type_from_raw_mode(0o040755), FileType::Directory);
    assert_eq!(file_type_from_raw_mode(0o120777), FileType::Symlink);
    assert_eq!(file_type_from_raw_mode(0o010600), FileType::Fifo);
    assert_eq!(file_type_from_raw_mode(0o060600), FileType::BlockDevice);
    ensure_same_inode(&regular, &regular).unwrap();
    let mut moved = regular;
    moved.st_ino = 3;
    assert!(matches!(
        ensure_same_inode(&regular, &moved),
        Err(IndexError::IndexPathRace)
    ));
}

#[test]
fn candidate_audit_is_bounded_by_count_and_bytes() {
    let limits = CandidateScanLimits {
        max_tmp_gc_entries: 2,
        max_tmp_gc_scan_bytes: 100,
    };
    let mut audit = CandidateAudit::new();
    audit.count_candidate(60, limits).unwrap();
    assert!(audit.count_candidate(50, limits).is_err());
    let mut counted = CandidateAudit::new();
    counted.count_candidate(1, limits).unwrap();
    counted.count_candidate(1, limits).unwrap();
    assert!(counted.count_candidate(1, limits).is_err());
}

fn binding(offset: u64, tail: &str) -> TailBinding {
    TailBinding {
        run_id: "run:a".to_string(),
        genesis_hash: "sha256:g".to_string(),
        confirmed_offset: offset,
        tail_hash: tail.to_string(),
        event_count: 3,
        event_contract_version: "v3".to_string(),
    }
}

#[test]
fn committed_tail_must_match_the_index() {
    check_committed_tail(&binding(10, "sha256:t"), &binding(10, "sha256:t")).unwrap();
    assert!(check_committed_tail(&binding(10, "sha256:t"), &binding(12, "sha256:u")).is_err());
}

fn position(offset: u64, tail: &str, count: u64) -> JournalPosition {
    JournalPosition {
        confirmed_offset: offset,
        tail_hash: tail.to_string(),
        event_count: count,
    }
}

#[test]
fn comparing_pass_must_end_where_the_certified_pass_ended() {
    let certified = position(40, "sha256:t", 3);
    check_replay_position(&position(40, "sha256:t", 3), &certified).unwrap();
    for moved in [
        position(41, "sha256:t", 3),
        position(40, "sha256:u", 3),
        position(40, "sha256:t", 4),
    ] {
        assert_eq!(
            check_replay_position(&moved, &certified),
            Err(IndexError::IndexPathRace)
        );
    }
}
