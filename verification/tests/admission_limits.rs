use reviewgraphen_store::admission::{
    admit_candidate_reread_peak, admit_exact_read, admit_genesis_verification,
    build_cache_reservation, build_cache_reservation_with_journal, cache_kib, check_image_len,
    configured_cache_bytes, marker_requested_capacity, preflight_build_connection,
    publication_retained, query_cache_reservation, rebuild_projection_retained,
};
use reviewgraphen_store::limits::{v4_sqlite_limits, DerivedIndex, DerivedIndexV4};
use reviewgraphen_store::{IndexError, IndexLimits, StoreLimits, PAGE_SIZE};

fn coherent_store_limits() -> StoreLimits {
    StoreLimits {
        max_index_rows: 10_000,
        max_index_serialized_bytes: 64 * PAGE_SIZE,
        max_index_working_bytes: 1 << 24,
        max_index_query_bytes: 1 << 20,
        max_index_statement_bytes: 4096,
    }
}

#[test]
fn exact_serialize_peak_has_a_nonzero_cache_and_is_admissible() {
    let limits = IndexLimits {
        max_rows: 1,
        max_serialized_bytes: PAGE_SIZE,
        max_working_bytes: PAGE_SIZE * 3 + 1024,
        max_query_bytes: 1,
        max_statement_bytes: 8,
    };
    limits.validate().unwrap();
    let cache = configured_cache_bytes(limits, build_cache_reservation(limits).unwrap()).unwrap();
    assert_eq!(cache, 1024);
    assert_eq!(PAGE_SIZE * 3 + cache, limits.max_working_bytes);
}

#[test]
fn build_connection_peak_is_refused_before_sqlite_open() {
    let retained = 777;
    let exact = retained + 3 * PAGE_SIZE + 1024;
    let base = IndexLimits {
        max_rows: 1,
        max_serialized_bytes: PAGE_SIZE,
        max_working_bytes: exact,
        max_query_bytes: 1,
        max_statement_bytes: 1,
    };
    preflight_build_connection(base, retained).unwrap();
    assert!(matches!(
        preflight_build_connection(
            IndexLimits {
                max_working_bytes: exact - 1,
                ..base
            },
            retained,
        ),
        Err(IndexError::Incomplete { limit, observed })
            if limit == exact - 1 && observed == exact
    ));
}

#[test]
fn candidate_reread_peak_is_isolated_exact_and_one_byte_low() {
    let components = [101, 103, 4096, 4096, 1024, 307, 71];
    let exact = components.into_iter().sum();
    assert_eq!(admit_candidate_reread_peak(components, exact).unwrap(), exact);
    assert!(matches!(
        admit_candidate_reread_peak(components, exact - 1),
        Err(IndexError::Incomplete { limit, observed })
            if limit == exact - 1 && observed == exact
    ));
    assert!(matches!(
        admit_candidate_reread_peak([u64::MAX, 1, 0, 0, 0, 0, 0], u64::MAX),
        Err(IndexError::Incomplete {
            limit: u64::MAX,
            observed: u64::MAX,
        })
    ));
}

#[test]
fn limits_reject_incoherent_memory_and_page_bounds() {
    let mut limits = StoreLimits {
        max_index_serialized_bytes: PAGE_SIZE - 1,
        ..coherent_store_limits()
    };
    assert!(matches!(
        IndexLimits::try_from(limits),
        Err(IndexError::InvalidLimits)
    ));
    limits = coherent_store_limits();
    limits.max_index_query_bytes = limits.max_index_working_bytes + 1;
    assert!(matches!(
        IndexLimits::try_from(limits),
        Err(IndexError::InvalidLimits)
    ));
    limits = coherent_store_limits();
    limits.max_index_working_bytes = limits.max_index_serialized_bytes * 3;
    assert!(matches!(
        IndexLimits::try_from(limits),
        Err(IndexError::InvalidLimits)
    ));
}

#[test]
fn coherent_limits_are_admitted_unchanged() {
    let store = coherent_store_limits();
    let limits = IndexLimits::try_from(store).unwrap();
    assert_eq!(limits.max_rows, 10_000);
    assert_eq!(limits.max_serialized_bytes, 64 * PAGE_SIZE);
    assert_eq!(limits.max_working_bytes, 1 << 24);
    assert_eq!(limits.max_query_bytes, 1 << 20);
    assert_eq!(limits.max_statement_bytes, 4096);
    assert_eq!(limits.max_pages().unwrap(), 64);
    assert_eq!(DerivedIndex::open(store).unwrap().limits(), limits);
    assert_eq!(DerivedIndexV4::open(store).unwrap().limits(), limits);
    let mut zero_rows = store;
    zero_rows.max_index_rows = 0;
    assert!(matches!(
        DerivedIndexV4::open(zero_rows),
        Err(IndexError::InvalidLimits)
    ));
}

#[test]
fn working_floor_is_exactly_three_images_and_a_cache() {
    let mut store = coherent_store_limits();
    store.max_index_working_bytes = 3 * store.max_index_serialized_bytes + 1024;
    store.max_index_query_bytes = 1;
    assert!(IndexLimits::try_from(store).is_ok());
    store.max_index_working_bytes -= 1;
    assert!(matches!(
        IndexLimits::try_from(store),
        Err(IndexError::InvalidLimits)
    ));
}

#[test]
fn coherent_limits_admit_the_build_cache_law_example() {
    let limits = IndexLimits::try_from(coherent_store_limits()).unwrap();
    let reservation = build_cache_reservation(limits).unwrap();
    assert_eq!(reservation, 3 * limits.max_serialized_bytes);
    assert_eq!(configured_cache_bytes(limits, reservation).unwrap(), 1024);
    assert_eq!(cache_kib(limits, reservation).unwrap(), 1);
    preflight_build_connection(limits, 0).unwrap();
}

#[test]
fn cache_reservations_overflow_and_refuse_as_incomplete() {
    let limits = IndexLimits {
        max_rows: 1,
        max_serialized_bytes: u64::MAX / 2,
        max_working_bytes: u64::MAX,
        max_query_bytes: 1,
        max_statement_bytes: 1,
    };
    assert!(matches!(
        build_cache_reservation(limits),
        Err(IndexError::Incomplete {
            limit: u64::MAX,
            observed: u64::MAX
        })
    ));
    let small = IndexLimits {
        max_rows: 1,
        max_serialized_bytes: PAGE_SIZE,
        max_working_bytes: 5000,
        max_query_bytes: 7,
        max_statement_bytes: 1,
    };
    assert_eq!(
        build_cache_reservation_with_journal(small, 10).unwrap(),
        10 + 3 * PAGE_SIZE
    );
    assert_eq!(query_cache_reservation(small).unwrap(), 2 * PAGE_SIZE + 7);
    assert!(matches!(
        cache_kib(small, 4000),
        Err(IndexError::Incomplete {
            limit: 5000,
            observed: 5024
        })
    ));
}

#[test]
fn image_lengths_must_be_whole_pages_within_bound() {
    let limits = IndexLimits {
        max_rows: 1,
        max_serialized_bytes: 2 * PAGE_SIZE,
        max_working_bytes: 1 << 20,
        max_query_bytes: 1,
        max_statement_bytes: 1,
    };
    check_image_len(PAGE_SIZE as usize, limits).unwrap();
    check_image_len(2 * PAGE_SIZE as usize, limits).unwrap();
    assert!(check_image_len(0, limits).is_err());
    assert!(check_image_len(PAGE_SIZE as usize + 1, limits).is_err());
    assert!(check_image_len(3 * PAGE_SIZE as usize, limits).is_err());
}

#[test]
fn exact_read_admits_size_and_retained_working_set() {
    assert_eq!(admit_exact_read(4, 4, 5, 9).unwrap(), 9);
    assert!(matches!(
        admit_exact_read(4, 4, 5, 8),
        Err(IndexError::Incomplete {
            limit: 8,
            observed: 9
        })
    ));
    assert!(matches!(
        admit_exact_read(4, 3, 0, 9),
        Err(IndexError::Incomplete {
            limit: 3,
            observed: 4
        })
    ));
}

#[test]
fn v4_sqlite_limits_widen_working_by_three_images_and_a_cache() {
    let limits = IndexLimits::try_from(coherent_store_limits()).unwrap();
    let widened = v4_sqlite_limits(limits).unwrap();
    assert_eq!(
        widened.max_working_bytes,
        3 * limits.max_serialized_bytes + limits.max_working_bytes + 1024
    );
    assert_eq!(widened.max_query_bytes, limits.max_query_bytes);
    let huge = IndexLimits {
        max_working_bytes: u64::MAX,
        ..limits
    };
    assert!(matches!(
        v4_sqlite_limits(huge),
        Err(IndexError::InvalidLimits)
    ));
}

#[test]
fn streaming_rebuild_retention_and_publication_arithmetic() {
    let limits = IndexLimits::try_from(coherent_store_limits()).unwrap();
    admit_genesis_verification(100, 200, limits).unwrap();
    assert!(matches!(
        admit_genesis_verification(limits.max_working_bytes, 1, limits),
        Err(IndexError::Incomplete { observed, .. }) if observed == limits.max_working_bytes + 1
    ));
    assert_eq!(
        rebuild_projection_retained(10, 20, 30, Some(50), limits).unwrap(),
        10 + 20 + 30 + 100
    );
    assert_eq!(
        rebuild_projection_retained(10, 70, 30, Some(50), limits).unwrap(),
        10 + 70 + 30 + 140
    );
    assert_eq!(
        rebuild_projection_retained(10, 20, 30, None, limits).unwrap(),
        10 + 20 + 30 + 40
    );
    assert!(matches!(
        rebuild_projection_retained(0, u64::MAX, 0, None, limits),
        Err(IndexError::Incomplete {
            observed: u64::MAX,
            ..
        })
    ));
    assert_eq!(marker_requested_capacity(&[1, 2, 3, 4, 5, 6]).unwrap(), 21);
    assert!(matches!(
        marker_requested_capacity(&[usize::MAX, 1]),
        Err(IndexError::IntegerOutOfRange)
    ));
    assert_eq!(publication_retained(5, 6, limits).unwrap(), 11);
    assert!(matches!(
        publication_retained(u64::MAX, 1, limits),
        Err(IndexError::Incomplete {
            observed: u64::MAX,
            ..
        })
    ));
}
