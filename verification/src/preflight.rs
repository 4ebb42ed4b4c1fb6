//! The fixed-SQL preflight of a snapshot's query result, and its agreement
//! with the budget of the materialized result.

use vstd::prelude::*;
use crate::budget::{
    charge_query_measurement, charge_step, charge_texts, charges_outcome, rows_text_amounts,
    snapshot_budget_outcome, table_amounts, tables_amounts, text_lens, BudgetTable,
};
use crate::error::IndexError;
use crate::limits::IndexLimits;

verus! {

/// One result table as its fixed measurement query reports it: the row
/// count, the summed byte length of its text cells, and the bytes one
/// decoded row occupies in the result vector.
#[derive(Clone, Copy)]
pub struct TableMeasurement {
    pub rows: i64,
    pub text_bytes: i64,
    pub scalar_bytes: u64,
}

/// Charging one measurement onto `used`: its text bytes, then its vector
/// slots.  Gives the new total and the text bytes, or the refusal.
pub open spec fn measurement_outcome(used: u64, measurement: TableMeasurement, limit: u64) -> Result<
    (u64, u64),
    IndexError,
> {
    if measurement.rows < 0 || measurement.text_bytes < 0 {
        Err(IndexError::CorruptIndex)
    } else if measurement.rows * measurement.scalar_bytes > u64::MAX {
        Err(IndexError::Incomplete { limit, observed: u64::MAX })
    } else {
        let (total, refusal) = charges_outcome(
            used,
            seq![measurement.text_bytes as int, measurement.rows * measurement.scalar_bytes],
            limit,
        );
        match refusal {
            Some(error) => Err(error),
            None => Ok((total, measurement.text_bytes as u64)),
        }
    }
}

/// Charging `measurements` in turn onto `used`: the total and the summed
/// text bytes of the tables, or the first refusal.
pub open spec fn measurements_outcome(
    used: u64,
    measurements: Seq<TableMeasurement>,
    limit: u64,
) -> Result<(u64, u64), IndexError>
    decreases measurements.len(),
{
    if measurements.len() == 0 {
        Ok((used, 0))
    } else {
        match measurements_outcome(used, measurements.drop_last(), limit) {
            Err(error) => Err(error),
            Ok((total, text)) => match measurement_outcome(total, measurements.last(), limit) {
                Err(error) => Err(error),
                Ok((next, bytes)) => if text + bytes > u64::MAX {
                    Err(IndexError::Incomplete { limit, observed: u64::MAX })
                } else {
                    Ok((next, (text + bytes) as u64))
                },
            },
        }
    }
}

/// The preflight of a result: the marker's texts charged onto its fixed
/// size, then every table measurement.
pub open spec fn preflight_outcome<'a>(
    marker_size: u64,
    marker_texts: Seq<&'a str>,
    measurements: Seq<TableMeasurement>,
    limit: u64,
) -> Result<(u64, u64), IndexError> {
    let (used, refusal) = charges_outcome(marker_size, text_lens(marker_texts), limit);
    match refusal {
        Some(error) => Err(error),
        None => measurements_outcome(used, measurements, limit),
    }
}

/// A refused prefix of the measurements refuses all of them, alike.
proof fn lemma_measurements_stop(
    used: u64,
    measurements: Seq<TableMeasurement>,
    k: int,
    limit: u64,
)
    requires
        0 <= k <= measurements.len(),
        measurements_outcome(used, measurements.subrange(0, k), limit) is Err,
    ensures
        measurements_outcome(used, measurements, limit) == measurements_outcome(
            used,
            measurements.subrange(0, k),
            limit,
        ),
    decreases measurements.len(),
{
    if k == measurements.len() {
        assert(measurements.subrange(0, k) =~= measurements);
    } else {
        assert(measurements.drop_last().subrange(0, k) =~= measurements.subrange(0, k));
        lemma_measurements_stop(used, measurements.drop_last(), k, limit);
    }
}

/// Measures the complete fixed query shape of a snapshot before any row is
/// read: the marker's texts charged onto its fixed size, then, table by
/// table, each table's text bytes and vector slots, all against
/// `max_query_bytes`.  Returns the bytes charged and the summed text bytes
/// of the tables.
pub fn preflight_query_budget_details(
    marker_size: u64,
    marker_texts: &[&str],
    measurements: &[TableMeasurement],
    limits: IndexLimits,
) -> (result: Result<(u64, u64), IndexError>)
    ensures
        result == preflight_outcome(
            marker_size,
            marker_texts@,
            measurements@,
            limits.max_query_bytes,
        ),
{
    let ghost limit = limits.max_query_bytes;
    let mut used = marker_size;
    match charge_texts(&mut used, limits, marker_texts) {
        Ok(()) => {},
        Err(error) => return Err(error),
    }
    let ghost start = used;
    let mut table_text_bytes: u64 = 0;
    proof {
        assert(measurements@.subrange(0, 0) =~= Seq::<TableMeasurement>::empty());
    }
    let mut k: usize = 0;
    while k < measurements.len()
        invariant
            k <= measurements@.len(),
            limit == limits.max_query_bytes,
            charges_outcome(marker_size, text_lens(marker_texts@), limit) == (
                start,
                None::<IndexError>,
            ),
            measurements_outcome(start, measurements@.subrange(0, k as int), limit) == Ok::<
                (u64, u64),
                IndexError,
            >((used, table_text_bytes)),
        decreases measurements@.len() - k,
    {
        proof {
            let upto = measurements@.subrange(0, k + 1int);
            assert(upto.drop_last() =~= measurements@.subrange(0, k as int));
            assert(upto.last() == measurements@[k as int]);
        }
        let measurement = measurements[k];
        let bytes = match charge_query_measurement(
            measurement.rows,
            measurement.text_bytes,
            measurement.scalar_bytes,
            &mut used,
            limits,
        ) {
            Ok(bytes) => bytes,
            Err(error) => {
                proof {
                    lemma_measurements_stop(start, measurements@, k + 1int, limit);
                }
                return Err(error);
            },
        };
        table_text_bytes = match table_text_bytes.checked_add(bytes) {
            Some(total) => total,
            None => {
                proof {
                    lemma_measurements_stop(start, measurements@, k + 1int, limit);
                }
                return Err(IndexError::Incomplete { limit: limits.max_query_bytes, observed: u64::MAX });
            },
        };
        k += 1;
    }
    proof {
        assert(measurements@.subrange(0, measurements@.len() as int) =~= measurements@);
    }
    Ok((used, table_text_bytes))
}

/// The bytes the preflight charges for a snapshot's query result.
pub fn preflight_query_budget(
    marker_size: u64,
    marker_texts: &[&str],
    measurements: &[TableMeasurement],
    limits: IndexLimits,
) -> (result: Result<u64, IndexError>)
    ensures
        result == match preflight_outcome(
            marker_size,
            marker_texts@,
            measurements@,
            limits.max_query_bytes,
        ) {
            Ok((used, _)) => Ok::<u64, IndexError>(used),
            Err(error) => Err(error),
        },
{
    match preflight_query_budget_details(marker_size, marker_texts, measurements, limits) {
        Ok((used, _)) => Ok(used),
        Err(error) => Err(error),
    }
}

/// The sum of `amounts`.
pub open spec fn amount_sum(amounts: Seq<int>) -> int
    decreases amounts.len(),
{
    if amounts.len() == 0 {
        0
    } else {
        amount_sum(amounts.drop_last()) + amounts.last()
    }
}

/// Every amount is a byte count.
pub open spec fn all_nonnegative(amounts: Seq<int>) -> bool {
    forall|i: int| 0 <= i < amounts.len() ==> #[trigger] amounts[i] >= 0
}

/// What the measurements charge in all: text bytes and vector slots.
pub open spec fn measurements_total(measurements: Seq<TableMeasurement>) -> int
    decreases measurements.len(),
{
    if measurements.len() == 0 {
        0
    } else {
        let last = measurements.last();
        measurements_total(measurements.drop_last()) + last.text_bytes + last.rows
            * last.scalar_bytes
    }
}

/// The text bytes the measurements report.
pub open spec fn measurements_text(measurements: Seq<TableMeasurement>) -> int
    decreases measurements.len(),
{
    if measurements.len() == 0 {
        0
    } else {
        measurements_text(measurements.drop_last()) + measurements.last().text_bytes
    }
}

/// The text bytes of the rows of `tables`.
pub open spec fn tables_text<'a>(tables: Seq<BudgetTable<'a>>) -> int
    decreases tables.len(),
{
    if tables.len() == 0 {
        0
    } else {
        tables_text(tables.drop_last()) + amount_sum(rows_text_amounts(tables.last().rows@))
    }
}

/// `measurements` report `tables`: one measurement per table, in order,
/// with the table's row count, the summed length of its texts and its row
/// cost.
pub open spec fn measurements_report<'a>(
    measurements: Seq<TableMeasurement>,
    tables: Seq<BudgetTable<'a>>,
) -> bool {
    &&& measurements.len() == tables.len()
    &&& forall|i: int|
        #![trigger measurements[i]]
        0 <= i < tables.len() ==> {
            &&& measurements[i].rows == tables[i].rows@.len()
            &&& measurements[i].text_bytes == amount_sum(rows_text_amounts(tables[i].rows@))
            &&& measurements[i].scalar_bytes == tables[i].row_cost
        }
}

proof fn lemma_amount_sum_append(a: Seq<int>, b: Seq<int>)
    ensures
        amount_sum(a + b) == amount_sum(a) + amount_sum(b),
    decreases b.len(),
{
    if b.len() == 0 {
        assert(a + b =~= a);
    } else {
        lemma_amount_sum_append(a, b.drop_last());
        assert((a + b).drop_last() =~= a + b.drop_last());
    }
}

proof fn lemma_amount_sum_nonnegative(amounts: Seq<int>)
    requires
        all_nonnegative(amounts),
    ensures
        amount_sum(amounts) >= 0,
    decreases amounts.len(),
{
    if amounts.len() > 0 {
        assert(all_nonnegative(amounts.drop_last()));
        assert(amounts.last() == amounts[amounts.len() - 1]);
        lemma_amount_sum_nonnegative(amounts.drop_last());
    }
}

/// Charging byte counts is refused exactly when there is one to charge and
/// their sum crosses the limit, and otherwise ends at that sum.
proof fn lemma_charges_total(used: u64, amounts: Seq<int>, limit: u64)
    requires
        all_nonnegative(amounts),
    ensures
        (charges_outcome(used, amounts, limit).1 is None) == (amounts.len() == 0 || used
            + amount_sum(amounts) <= limit),
        charges_outcome(used, amounts, limit).1 is None ==> charges_outcome(used, amounts, limit).0
            == used + amount_sum(amounts),
    decreases amounts.len(),
{
    if amounts.len() > 0 {
        let front = amounts.drop_last();
        assert(all_nonnegative(front));
        assert(amounts.last() == amounts[amounts.len() - 1]);
        lemma_charges_total(used, front, limit);
    }
}

proof fn lemma_text_lens_nonnegative<'a>(values: Seq<&'a str>)
    ensures
        all_nonnegative(text_lens(values)),
{
    assert forall|i: int| 0 <= i < text_lens(values).len() implies #[trigger] text_lens(
        values,
    )[i] >= 0 by {
        assert(text_lens(values)[i] == values[i].len() as int);
    }
}

proof fn lemma_append_nonnegative(a: Seq<int>, b: Seq<int>)
    requires
        all_nonnegative(a),
        all_nonnegative(b),
    ensures
        all_nonnegative(a + b),
{
    assert forall|i: int| 0 <= i < (a + b).len() implies #[trigger] (a + b)[i] >= 0 by {
        if i < a.len() {
            assert((a + b)[i] == a[i]);
        } else {
            assert((a + b)[i] == b[i - a.len()]);
        }
    }
}

proof fn lemma_rows_text_amounts_nonnegative<'a>(rows: Seq<Vec<&'a str>>)
    ensures
        all_nonnegative(rows_text_amounts(rows)),
    decreases rows.len(),
{
    if rows.len() > 0 {
        lemma_rows_text_amounts_nonnegative(rows.drop_last());
        lemma_text_lens_nonnegative(rows.last()@);
        lemma_append_nonnegative(rows_text_amounts(rows.drop_last()), text_lens(rows.last()@));
    }
}

/// The charges of `tables` are byte counts, and sum to the measurements
/// that report them; their texts sum to the reported text bytes.
proof fn lemma_tables_match_measurements<'a>(
    measurements: Seq<TableMeasurement>,
    tables: Seq<BudgetTable<'a>>,
)
    requires
        measurements_report(measurements, tables),
    ensures
        all_nonnegative(tables_amounts(tables)),
        tables_amounts(tables).len() >= tables.len(),
        amount_sum(tables_amounts(tables)) == measurements_total(measurements),
        tables_text(tables) == measurements_text(measurements),
    decreases tables.len(),
{
    if tables.len() > 0 {
        let front = tables.drop_last();
        let measured = measurements.drop_last();
        let last = tables.last();
        let n = tables.len() - 1;
        assert(measurements[n] == measurements.last());
        assert(tables[n] == last);
        assert(measurements_report(measured, front)) by {
            assert forall|i: int| 0 <= i < front.len() implies {
                &&& (#[trigger] measured[i]).rows == front[i].rows@.len()
                &&& measured[i].text_bytes == amount_sum(rows_text_amounts(front[i].rows@))
                &&& measured[i].scalar_bytes == front[i].row_cost
            } by {
                assert(measured[i] == measurements[i]);
                assert(front[i] == tables[i]);
            }
        }
        lemma_tables_match_measurements(measured, front);
        let count: int = last.rows@.len() as int;
        let cost: int = last.row_cost as int;
        let slots = count * cost;
        let texts = rows_text_amounts(last.rows@);
        assert(count * cost >= 0) by (nonlinear_arith)
            requires
                count >= 0,
                cost >= 0,
        ;
        lemma_rows_text_amounts_nonnegative(last.rows@);
        assert(table_amounts(last) == seq![slots] + texts);
        assert(all_nonnegative(seq![slots]));
        lemma_append_nonnegative(seq![slots], texts);
        lemma_append_nonnegative(tables_amounts(front), table_amounts(last));
        lemma_amount_sum_append(tables_amounts(front), table_amounts(last));
        lemma_amount_sum_append(seq![slots], texts);
        assert(seq![slots].drop_last() =~= Seq::<int>::empty());
        assert(amount_sum(Seq::<int>::empty()) == 0);
        assert(amount_sum(seq![slots]) == slots);
        assert(measurements.last().rows * measurements.last().scalar_bytes == slots);
    }
}

/// Charging the measurements is refused exactly when their total crosses
/// the limit, and otherwise ends at that total with their text bytes.
proof fn lemma_measurements_total(used: u64, measurements: Seq<TableMeasurement>, limit: u64)
    requires
        forall|i: int|
            0 <= i < measurements.len() ==> (#[trigger] measurements[i]).rows >= 0
                && measurements[i].text_bytes >= 0,
    ensures
        0 <= measurements_text(measurements) <= measurements_total(measurements),
        (measurements_outcome(used, measurements, limit) is Ok) == (measurements.len() == 0 || used
            + measurements_total(measurements) <= limit),
        used + measurements_total(measurements) <= limit ==> measurements_outcome(
            used,
            measurements,
            limit,
        ) == Ok::<(u64, u64), IndexError>(
            (
                (used + measurements_total(measurements)) as u64,
                measurements_text(measurements) as u64,
            ),
        ),
    decreases measurements.len(),
{
    if measurements.len() > 0 {
        let front = measurements.drop_last();
        let last = measurements.last();
        assert(last == measurements[measurements.len() - 1]);
        assert forall|i: int| 0 <= i < front.len() implies (#[trigger] front[i]).rows >= 0
            && front[i].text_bytes >= 0 by {
            assert(front[i] == measurements[i]);
        }
        lemma_measurements_total(used, front, limit);
        let count: int = last.rows as int;
        let cost: int = last.scalar_bytes as int;
        let slots = count * cost;
        assert(count * cost >= 0) by (nonlinear_arith)
            requires
                count >= 0,
                cost >= 0,
        ;
        let pair = seq![last.text_bytes as int, slots];
        if measurements_outcome(used, front, limit) is Ok {
            let total = (used + measurements_total(front)) as u64;
            assert(all_nonnegative(pair));
            lemma_charges_total(total, pair, limit);
            assert(pair.drop_last() =~= seq![last.text_bytes as int]);
            assert(seq![last.text_bytes as int].drop_last() =~= Seq::<int>::empty());
            assert(amount_sum(Seq::<int>::empty()) == 0);
            assert(amount_sum(seq![last.text_bytes as int]) == last.text_bytes);
            assert(amount_sum(pair) == last.text_bytes + slots);
            if front.len() == 0 {
                assert(measurements_outcome(used, front, limit) == Ok::<(u64, u64), IndexError>(
                    (used, 0),
                ));
            }
        }
    }
}

/// The preflight agrees with the materialized budget.  Where the
/// measurements report the tables of a snapshot, the preflight admits the
/// query result exactly when admitting the materialized result succeeds;
/// then both charge the same bytes, and the preflight's text total is the
/// text of the tables' rows.
pub proof fn lemma_preflight_agrees_with_snapshot_budget<'a>(
    marker_size: u64,
    marker_texts: Seq<&'a str>,
    measurements: Seq<TableMeasurement>,
    tables: Seq<BudgetTable<'a>>,
    limit: u64,
)
    requires
        measurements_report(measurements, tables),
    ensures
        (preflight_outcome(marker_size, marker_texts, measurements, limit) is Ok)
            == (snapshot_budget_outcome(marker_size, marker_texts, tables, limit) is Ok),
        preflight_outcome(marker_size, marker_texts, measurements, limit) matches Ok((used, text))
            ==> snapshot_budget_outcome(marker_size, marker_texts, tables, limit) == Ok::<
            u64,
            IndexError,
        >(used) && text == tables_text(tables),
{
    let marker = text_lens(marker_texts);
    lemma_text_lens_nonnegative(marker_texts);
    lemma_tables_match_measurements(measurements, tables);
    lemma_append_nonnegative(marker, tables_amounts(tables));
    lemma_amount_sum_append(marker, tables_amounts(tables));
    lemma_amount_sum_nonnegative(tables_amounts(tables));
    lemma_charges_total(marker_size, marker, limit);
    lemma_charges_total(marker_size, marker + tables_amounts(tables), limit);
    assert forall|i: int| 0 <= i < measurements.len() implies (#[trigger] measurements[i]).rows
        >= 0 && measurements[i].text_bytes >= 0 by {
        lemma_rows_text_amounts_nonnegative(tables[i].rows@);
        lemma_amount_sum_nonnegative(rows_text_amounts(tables[i].rows@));
    }
    let (start, refusal) = charges_outcome(marker_size, marker, limit);
    if refusal is None {
        lemma_measurements_total(start, measurements, limit);
    }
}

} // verus!
