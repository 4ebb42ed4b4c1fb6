use reviewgraphen_store::budget::{
    charge_bytes, charge_query_measurement, charge_rows, charge_texts, reserve_row, reserved_vec, snapshot_query_budget,
    to_i64, vector_row_cost, BudgetTable, QueryTextAdmission,
};
use reviewgraphen_store::{IndexError, IndexLimits, PAGE_SIZE};

fn limits(query: u64) -> IndexLimits {
    IndexLimits {
        max_rows: 2,
        max_serialized_bytes: PAGE_SIZE,
        max_working_bytes: 1 << 20,
        max_query_bytes: query,
        max_statement_bytes: 100,
    }
}

#[test]
fn snapshot_query_budget_charges_marker_slots_and_texts_in_order() {
    let tables = vec![
        BudgetTable {
            row_cost: 50,
            rows: vec![vec!["x", "yz"]],
        },
        BudgetTable {
            row_cost: 0,
            rows: vec![],
        },
    ];
    assert_eq!(
        snapshot_query_budget(200, &["abc", "de"], &tables, limits(258)).unwrap(),
        258
    );
    assert!(matches!(
        snapshot_query_budget(200, &["abc", "de"], &tables, limits(257)),
        Err(IndexError::Incomplete {
            limit: 257,
            observed: 258
        })
    ));
    // The vector slots alone already cross the budget.
    assert!(matches!(
        snapshot_query_budget(200, &["abc", "de"], &tables, limits(210)),
        Err(IndexError::Incomplete {
            limit: 210,
            observed: 255
        })
    ));
    let huge = vec![BudgetTable {
        row_cost: u64::MAX,
        rows: vec![vec![], vec![]],
    }];
    assert!(matches!(
        snapshot_query_budget(0, &[], &huge, limits(u64::MAX)),
        Err(IndexError::Incomplete {
            observed: u64::MAX,
            ..
        })
    ));
}

#[test]
fn single_charges_advance_then_refuse() {
    let mut used = 5;
    charge_bytes(&mut used, limits(10), 5).unwrap();
    assert_eq!(used, 10);
    assert!(matches!(
        charge_bytes(&mut used, limits(10), 1),
        Err(IndexError::Incomplete {
            limit: 10,
            observed: 11
        })
    ));
    assert_eq!(used, 11);
    let mut full = u64::MAX;
    assert!(matches!(
        charge_bytes(&mut full, limits(10), 1),
        Err(IndexError::Incomplete {
            limit: 10,
            observed: u64::MAX
        })
    ));
    assert_eq!(full, u64::MAX);
    let mut texts = 0;
    charge_texts(&mut texts, limits(10), &["ab", "cde"]).unwrap();
    assert_eq!(texts, 5);
    assert!(matches!(
        charge_texts(&mut texts, limits(10), &["abc", "def", "g"]),
        Err(IndexError::Incomplete {
            limit: 10,
            observed: 11
        })
    ));
    let mut slots = 0;
    charge_rows(&mut slots, limits(100), 3, 24).unwrap();
    assert_eq!(slots, 72);
}

#[test]
fn rows_are_reserved_against_the_row_limit() {
    let mut rows = 0;
    reserve_row(&mut rows, limits(1)).unwrap();
    reserve_row(&mut rows, limits(1)).unwrap();
    assert!(matches!(
        reserve_row(&mut rows, limits(1)),
        Err(IndexError::Incomplete {
            limit: 2,
            observed: 3
        })
    ));
    assert_eq!(to_i64(5).unwrap(), 5);
    assert!(matches!(
        to_i64(u64::MAX),
        Err(IndexError::IntegerOutOfRange)
    ));
}

#[test]
fn query_text_admission_detects_drift() {
    let mut admission = QueryTextAdmission { remaining: None };
    admission.new(5).unwrap();
    assert!(admission.consume(2));
    assert!(admission.consume(3));
    admission.finish().unwrap();

    admission.new(5).unwrap();
    assert!(matches!(
        admission.new(1),
        Err(IndexError::ProjectionContractViolation)
    ));
    admission.finish().unwrap_err();

    admission.new(5).unwrap();
    assert!(admission.consume(4));
    assert!(!admission.consume(2));
    assert!(matches!(admission.finish(), Err(IndexError::CorruptIndex)));
    assert_eq!(admission.remaining, None);
}

#[test]
fn query_vectors_are_reserved_exactly() {
    let values: Vec<u64> = reserved_vec(16).unwrap();
    assert!(values.is_empty());
    assert!(values.capacity() >= 16);
    assert_eq!(vector_row_cost::<u64>(), 8);
    assert_eq!(vector_row_cost::<(u64, u32)>(), 16);
}

#[test]
fn table_measurements_charge_text_then_slots() {
    let mut used = 10;
    assert_eq!(
        charge_query_measurement(2, 30, 8, &mut used, limits(100)).unwrap(),
        30
    );
    assert_eq!(used, 56);
    assert!(matches!(
        charge_query_measurement(-1, 0, 8, &mut used, limits(100)),
        Err(IndexError::CorruptIndex)
    ));
    assert_eq!(used, 56);
    // The text is admitted, then the slots cross the limit.
    assert!(matches!(
        charge_query_measurement(10, 4, 8, &mut used, limits(100)),
        Err(IndexError::Incomplete {
            limit: 100,
            observed: 140
        })
    ));
    assert_eq!(used, 140);
    let mut fresh = 0;
    assert!(matches!(
        charge_query_measurement(i64::MAX, 0, 8, &mut fresh, limits(100)),
        Err(IndexError::Incomplete {
            limit: 100,
            observed: u64::MAX
        })
    ));
}

#[test]
fn text_admission_session_consumes_exactly_then_reopens() {
    let mut admission = QueryTextAdmission { remaining: None };
    admission.new(10).unwrap();
    assert!(admission.consume(4));
    assert!(admission.consume(6));
    assert_eq!(admission.finish(), Ok(()));
    assert_eq!(admission.remaining, None);
    // Fewer bytes decoded than measured is drift; the admission still closes.
    admission.new(3).unwrap();
    assert!(admission.consume(2));
    assert_eq!(admission.finish(), Err(IndexError::CorruptIndex));
    assert_eq!(admission.remaining, None);
    // More than measured is refused at the copy, and a nested open is refused.
    admission.new(1).unwrap();
    assert!(!admission.consume(2));
    assert_eq!(admission.new(7), Err(IndexError::ProjectionContractViolation));
    assert_eq!(admission.finish(), Err(IndexError::CorruptIndex));
    admission.new(0).unwrap();
    assert_eq!(admission.finish(), Ok(()));
}
