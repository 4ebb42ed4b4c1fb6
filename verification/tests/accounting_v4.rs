use reviewgraphen_store::charge_v4::{
    account_snapshot, charge_sql_row, max_or_zero_of, AccountedRow, ArrayChargeV4,
    IndexAccountingV4, JsonLengthCounter, JsonScalar, ProjectionChargeV4, SqlField, EVENTS,
    FINDINGS, V4_ARRAY_COUNT, V4_ARRAY_FIELDS, V4_FIELD_COUNT,
    V4_SCALAR_FIELDS,
};
use reviewgraphen_store::{IndexError, IndexLimits, StoreLimits, PAGE_SIZE};

fn field(key: &str, value: JsonScalar) -> SqlField {
    SqlField {
        key: key.as_bytes().to_vec(),
        value,
    }
}

fn roomy_limits() -> IndexLimits {
    IndexLimits {
        max_rows: 100,
        max_serialized_bytes: PAGE_SIZE,
        max_working_bytes: 1 << 30,
        max_query_bytes: 1 << 20,
        max_statement_bytes: 1000,
    }
}

fn marker_row() -> Vec<SqlField> {
    vec![
        field("index_schema_version", JsonScalar::Number),
        field("run_id", JsonScalar::Text(8)),
    ]
}

const POLICY: &str = "sha256:0000000000000000000000000000000000000000000000000000000000000001";
const BASIS: &str = "sha256:0000000000000000000000000000000000000000000000000000000000000002";

#[test]
fn normative_accounting_overflow_seams_are_typed_incomplete() {
    let limits = IndexLimits::try_from(StoreLimits {
        max_index_rows: u64::MAX,
        max_index_query_bytes: u64::MAX,
        max_index_working_bytes: u64::MAX,
        max_index_serialized_bytes: 64 * PAGE_SIZE,
        max_index_statement_bytes: 4096,
    })
    .unwrap();
    let marker = marker_row();
    let assert_overflow = |charge: ProjectionChargeV4| {
        let rows = charge.rows;
        assert!(matches!(
            charge.finish(POLICY, BASIS, rows, limits),
            Err(IndexError::Incomplete {
                observed: u64::MAX,
                ..
            })
        ));
    };

    let mut sql = ProjectionChargeV4::new(120, 60, Some(&marker), limits).unwrap();
    sql.integer_cells = u64::MAX;
    assert_overflow(sql);

    let mut query = ProjectionChargeV4::new(120, 60, Some(&marker), limits).unwrap();
    query.arrays[EVENTS].json_items = u64::MAX;
    assert_overflow(query);

    let mut owned = ProjectionChargeV4::new(120, 60, Some(&marker), limits).unwrap();
    owned.marker_owned = u64::MAX;
    assert_overflow(owned);

    let mut working = ProjectionChargeV4::new(120, 60, Some(&marker), limits).unwrap();
    working.max_cas_bytes = u64::MAX;
    assert_overflow(working);
}

#[test]
fn field_names_and_their_bytes_are_consistent() {
    assert_eq!(V4_ARRAY_FIELDS.len(), V4_ARRAY_COUNT);
    assert_eq!(
        (V4_ARRAY_FIELDS.len() + V4_SCALAR_FIELDS.len()) as u64,
        V4_FIELD_COUNT
    );
    let key_bytes: usize = V4_ARRAY_FIELDS
        .iter()
        .chain(V4_SCALAR_FIELDS.iter())
        .map(|name| name.len())
        .sum();
    assert_eq!(key_bytes, 312);
    assert_eq!(V4_ARRAY_FIELDS[EVENTS], "events");
    assert_eq!(V4_ARRAY_FIELDS[FINDINGS], "findings");
}

#[test]
fn projection_charge_finishes_with_exact_totals() {
    let limits = roomy_limits();
    let marker = marker_row();
    let mut charge = ProjectionChargeV4::new(100, 50, Some(&marker), limits).unwrap();
    assert_eq!(charge.rows, 1);
    assert_eq!(charge.integer_cells, 1);
    assert_eq!(charge.text_bytes, 8);
    assert_eq!(charge.universe_json, 4);
    charge
        .set_universe(30, 20, Some(&vec![field("universe_id", JsonScalar::Text(5))]))
        .unwrap();
    charge
        .add_array(
            EVENTS,
            40,
            25,
            Some(&vec![
                field("sequence", JsonScalar::Number),
                field("event_id", JsonScalar::Text(10)),
            ]),
            None,
        )
        .unwrap();
    charge
        .add_array(
            EVENTS,
            44,
            30,
            Some(&vec![
                field("sequence", JsonScalar::Number),
                field("event_id", JsonScalar::Text(12)),
                field("missing", JsonScalar::Null),
            ]),
            None,
        )
        .unwrap();
    assert_eq!(charge.rows, 4);
    assert_eq!(charge.integer_cells, 4);
    assert_eq!(charge.text_bytes, 35);
    assert_eq!(
        charge.arrays[EVENTS],
        ArrayChargeV4 {
            items: 2,
            json_items: 84,
            owned_items: 71
        }
    );
    assert_eq!(charge.admitted_json_bytes, 214);
    // The basis digest carries a quote and a newline, escaped in JSON.
    let preflight = charge.finish("sha256:ab", "q\"\n", 4, limits).unwrap();
    assert_eq!(
        preflight.accounting,
        IndexAccountingV4 {
            rows: 4,
            integer_cells: 4,
            text_bytes: 35,
            sql_bytes: 71,
            query_bytes: 676,
            owned_bytes: 833,
            working_bytes: 1580,
        }
    );
    assert_eq!(preflight.array_counts.len(), V4_ARRAY_COUNT);
    assert_eq!(preflight.array_counts[EVENTS], 2);
    assert_eq!(preflight.array_counts[FINDINGS], 0);
}

#[test]
fn projection_charge_refuses_row_drift_and_query_and_working_excess() {
    let marker = marker_row();
    let limits = roomy_limits();
    let charge = ProjectionChargeV4::new(100, 50, Some(&marker), limits).unwrap();
    assert!(matches!(
        charge.finish(POLICY, BASIS, 2, limits),
        Err(IndexError::ProjectionContractViolation)
    ));
    let tight_query = IndexLimits {
        max_query_bytes: 100,
        ..limits
    };
    let charge = ProjectionChargeV4::new(100, 50, Some(&marker), tight_query).unwrap();
    assert!(matches!(
        charge.finish(POLICY, BASIS, 1, tight_query),
        Err(IndexError::Incomplete { limit: 100, .. })
    ));
    assert!(matches!(
        ProjectionChargeV4::new(101, 50, Some(&marker), tight_query),
        Err(IndexError::Incomplete {
            limit: 100,
            observed: 101
        })
    ));
    let charge = ProjectionChargeV4::new(100, 50, Some(&marker), limits).unwrap();
    let exact = charge_working(&marker, limits);
    let tight_working = IndexLimits {
        max_working_bytes: exact - 1,
        ..limits
    };
    assert!(matches!(
        charge.finish(POLICY, BASIS, 1, tight_working),
        Err(IndexError::Incomplete { limit, observed }) if limit == exact - 1 && observed == exact
    ));
}

fn charge_working(marker: &Vec<SqlField>, limits: IndexLimits) -> u64 {
    let charge = ProjectionChargeV4::new(100, 50, Some(marker), limits).unwrap();
    charge
        .finish(POLICY, BASIS, 1, limits)
        .unwrap()
        .accounting
        .working_bytes
}

#[test]
fn json_allocation_is_admitted_cumulatively_and_transiently() {
    let marker = marker_row();
    let limits = IndexLimits {
        max_query_bytes: 150,
        ..roomy_limits()
    };
    let mut charge = ProjectionChargeV4::new(100, 50, Some(&marker), limits).unwrap();
    charge.admit_json_allocation(50).unwrap();
    assert!(matches!(
        charge.admit_json_allocation(1),
        Err(IndexError::Incomplete {
            limit: 150,
            observed: 151
        })
    ));
    charge.admit_transient_json(150).unwrap();
    assert!(matches!(
        charge.admit_transient_json(151),
        Err(IndexError::Incomplete {
            limit: 150,
            observed: 151
        })
    ));
}

#[test]
fn sql_rows_charge_strings_numbers_and_refuse_nested_fields() {
    let mut integers = 0;
    let mut text = 0;
    let row = vec![
        field("a", JsonScalar::Text(3)),
        field("b", JsonScalar::Bool),
        field("source", JsonScalar::Text(100)),
        field("c", JsonScalar::Null),
    ];
    charge_sql_row(Some(&row), &mut integers, &mut text, Some(b"source".as_slice())).unwrap();
    assert_eq!((integers, text), (1, 3));
    charge_sql_row(Some(&row), &mut integers, &mut text, None).unwrap();
    assert_eq!((integers, text), (2, 106));
    let nested = vec![field("a", JsonScalar::Compound)];
    assert!(matches!(
        charge_sql_row(Some(&nested), &mut integers, &mut text, None),
        Err(IndexError::ProjectionContractViolation)
    ));
    assert!(matches!(
        charge_sql_row(None, &mut integers, &mut text, None),
        Err(IndexError::ProjectionContractViolation)
    ));
    let mut full = u64::MAX;
    assert!(matches!(
        charge_sql_row(Some(&row), &mut integers, &mut full, None),
        Err(IndexError::IntegerOutOfRange)
    ));
}

fn accounted(fields: Vec<SqlField>, skip: Option<&str>, singleton_key: bool) -> AccountedRow {
    AccountedRow {
        fields,
        skip: skip.map(|name| name.as_bytes().to_vec()),
        singleton_key,
    }
}

#[test]
fn snapshot_accounting_sums_rows_and_admits_limits() {
    let marker = marker_row();
    let rows = vec![
        accounted(
            vec![field("universe_id", JsonScalar::Text(5))],
            None,
            true,
        ),
        accounted(
            vec![
                field("registration_id", JsonScalar::Text(7)),
                field("source", JsonScalar::Compound),
                field("size", JsonScalar::Number),
            ],
            Some("source"),
            false,
        ),
    ];
    let limits = roomy_limits();
    let accounting = account_snapshot(&marker, &rows, Ok(300), Ok(200), &[10, 70, 30], 40, limits).unwrap();
    // Integer cells: marker number, universe key, registration size.
    // Text: 8 + 5 + 7.  SQL: 20 + 8 * 3 + 3 rows.
    assert_eq!(
        accounting,
        IndexAccountingV4 {
            rows: 3,
            integer_cells: 3,
            text_bytes: 20,
            sql_bytes: 47,
            query_bytes: 300,
            owned_bytes: 200,
            working_bytes: 47 + 300 + 200 + 70 + 40,
        }
    );
    assert!(matches!(
        account_snapshot(&marker, &rows, Ok(300), Ok(200), &[], 0, IndexLimits { max_rows: 2, ..limits }),
        Err(IndexError::Incomplete {
            limit: 2,
            observed: 3
        })
    ));
    assert!(matches!(
        account_snapshot(&marker, &rows, Ok(300), Ok(200), &[], 0, IndexLimits { max_query_bytes: 299, ..limits }),
        Err(IndexError::Incomplete {
            limit: 299,
            observed: 300
        })
    ));
    assert!(matches!(
        account_snapshot(&marker, &rows, Err(IndexError::ProjectionContractViolation), Ok(200), &[], 0, limits),
        Err(IndexError::ProjectionContractViolation)
    ));
    assert!(matches!(
        account_snapshot(
            &marker,
            &rows,
            Ok(300),
            Ok(200),
            &[],
            0,
            IndexLimits {
                max_working_bytes: 546,
                ..limits
            }
        ),
        Err(IndexError::Incomplete {
            limit: 546,
            observed: 547
        })
    ));
    let nested = vec![accounted(vec![field("x", JsonScalar::Compound)], None, false)];
    assert!(matches!(
        account_snapshot(&marker, &nested, Ok(1), Ok(1), &[], 0, limits),
        Err(IndexError::ProjectionContractViolation)
    ));
    let nested_marker = vec![field("x", JsonScalar::Compound)];
    assert!(matches!(
        account_snapshot(&nested_marker, &Vec::new(), Ok(1), Ok(1), &[], 0, limits),
        Err(IndexError::ProjectionContractViolation)
    ));
}

#[test]
fn largest_value_or_zero() {
    assert_eq!(max_or_zero_of(&[]), 0);
    assert_eq!(max_or_zero_of(&[3, 9, 2]), 9);
}

#[test]
fn json_length_counter_tracks_overflow_and_failure() {
    let mut counter = JsonLengthCounter::new();
    assert!(counter.record(10));
    assert!(counter.record(5));
    assert_eq!(counter.outcome(true).unwrap(), 15);
    assert!(matches!(
        counter.outcome(false),
        Err(IndexError::ProjectionContractViolation)
    ));
    let mut full = JsonLengthCounter {
        bytes: u64::MAX,
        overflow: false,
    };
    assert!(!full.record(1));
    assert!(full.overflow);
    assert!(matches!(
        full.outcome(false),
        Err(IndexError::IntegerOutOfRange)
    ));
}

#[test]
fn longest_event_line_and_largest_cas_object_are_kept() {
    let marker = marker_row();
    let mut charge = ProjectionChargeV4::new(10, 5, Some(&marker), roomy_limits()).unwrap();
    charge.record_event_line(99).unwrap();
    charge.record_event_line(20).unwrap();
    assert_eq!(charge.max_event_line_bytes, 100);
    assert!(matches!(
        charge.record_event_line(u64::MAX),
        Err(IndexError::IntegerOutOfRange)
    ));
    charge.record_cas_size(7);
    charge.record_cas_size(3);
    assert_eq!(charge.max_cas_bytes, 7);
}

#[test]
fn snapshot_accounting_is_the_same_in_any_row_order() {
    let build = |order: &[usize]| -> Vec<AccountedRow> {
        let all = [
            (vec![field("a", JsonScalar::Text(4)), field("n", JsonScalar::Number)], None, false),
            (vec![field("u", JsonScalar::Text(2))], None, true),
            (
                vec![field("source", JsonScalar::Compound), field("b", JsonScalar::Bool)],
                Some("source"),
                false,
            ),
        ];
        order
            .iter()
            .map(|&index| {
                let (fields, skip, singleton) = &all[index];
                AccountedRow {
                    fields: fields
                        .iter()
                        .map(|f| SqlField {
                            key: f.key.clone(),
                            value: f.value,
                        })
                        .collect(),
                    skip: skip.map(|name: &str| name.as_bytes().to_vec()),
                    singleton_key: *singleton,
                }
            })
            .collect()
    };
    let limits = roomy_limits();
    let marker = vec![field("m", JsonScalar::Text(1))];
    let forward =
        account_snapshot(&marker, &build(&[0, 1, 2]), Ok(10), Ok(10), &[], 0, limits).unwrap();
    let backward =
        account_snapshot(&marker, &build(&[2, 1, 0]), Ok(10), Ok(10), &[], 0, limits).unwrap();
    assert_eq!(forward, backward);
    assert_eq!(forward.rows, 4);
    assert_eq!(forward.integer_cells, 3);
    assert_eq!(forward.text_bytes, 7);
}
