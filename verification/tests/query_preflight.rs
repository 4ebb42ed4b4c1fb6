use reviewgraphen_store::budget::{snapshot_query_budget, BudgetTable};
use reviewgraphen_store::preflight::{
    preflight_query_budget, preflight_query_budget_details, TableMeasurement,
};
use reviewgraphen_store::{IndexError, IndexLimits, PAGE_SIZE};

fn limits(query: u64) -> IndexLimits {
    IndexLimits {
        max_rows: 2,
        max_serialized_bytes: PAGE_SIZE,
        max_working_bytes: 1 << 20,
        max_query_bytes: query,
        max_statement_bytes: 100,
    }
}

fn measured(rows: i64, text_bytes: i64, scalar_bytes: u64) -> TableMeasurement {
    TableMeasurement {
        rows,
        text_bytes,
        scalar_bytes,
    }
}

#[test]
fn preflight_charges_marker_texts_then_each_table_and_sums_texts() {
    let measurements = [measured(1, 3, 50), measured(0, 0, 0), measured(2, 4, 10)];
    assert_eq!(
        preflight_query_budget_details(200, &["abc", "de"], &measurements, limits(1000)),
        Ok((200 + 5 + 3 + 50 + 4 + 20, 7))
    );
    assert_eq!(
        preflight_query_budget(200, &["abc", "de"], &measurements, limits(1000)),
        Ok(282)
    );
    assert_eq!(
        preflight_query_budget_details(200, &["abc", "de"], &measurements, limits(281)),
        Err(IndexError::Incomplete {
            limit: 281,
            observed: 282
        })
    );
    // The marker's own texts are charged before any table.
    assert_eq!(
        preflight_query_budget_details(200, &["abc", "de"], &measurements, limits(204)),
        Err(IndexError::Incomplete {
            limit: 204,
            observed: 205
        })
    );
}

#[test]
fn preflight_rejects_negative_measurements_and_overflowing_slots() {
    assert_eq!(
        preflight_query_budget_details(0, &[], &[measured(1, 1, 1), measured(-1, 0, 8)], limits(100)),
        Err(IndexError::CorruptIndex)
    );
    assert_eq!(
        preflight_query_budget_details(0, &[], &[measured(0, -5, 8)], limits(100)),
        Err(IndexError::CorruptIndex)
    );
    assert_eq!(
        preflight_query_budget_details(0, &[], &[measured(i64::MAX, 0, 8)], limits(u64::MAX)),
        Err(IndexError::Incomplete {
            limit: u64::MAX,
            observed: u64::MAX
        })
    );
    assert_eq!(
        preflight_query_budget_details(0, &[], &[], limits(0)),
        Ok((0, 0))
    );
}

#[test]
fn preflight_agrees_with_the_materialized_snapshot_budget() {
    let tables = vec![
        BudgetTable {
            row_cost: 50,
            rows: vec![vec!["x", "yz"]],
        },
        BudgetTable {
            row_cost: 8,
            rows: vec![vec!["abcd"], vec![""], vec!["ef", "g"]],
        },
    ];
    let measurements = [measured(1, 3, 50), measured(3, 7, 8)];
    for limit in [0, 100, 288, 289, 300, u64::MAX] {
        let preflight = preflight_query_budget_details(200, &["abc", "de"], &measurements, limits(limit));
        let materialized = snapshot_query_budget(200, &["abc", "de"], &tables, limits(limit));
        assert_eq!(preflight.is_ok(), materialized.is_ok(), "limit {limit}");
        if let Ok((used, text)) = preflight {
            assert_eq!(materialized, Ok(used));
            assert_eq!(used, 289);
            assert_eq!(text, 10);
        }
    }
}
