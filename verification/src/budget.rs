//! Row, query-result and journal-scan budgets.

use vstd::prelude::*;
use crate::admission::{
    admit_total, cache_fits, cache_refusal, configured_cache_bytes, query_reservation,
    query_cache_reservation_with_journal,
};
use crate::error::IndexError;
use crate::limits::{IndexLimits, PAGE_SIZE};
use crate::outside::try_reserve_exact;

verus! {

/// Converts a stored count to SQLite's signed integer.
pub fn to_i64(value: u64) -> (result: Result<i64, IndexError>)
    ensures
        value <= i64::MAX ==> result == Ok::<i64, IndexError>(value as i64),
        value > i64::MAX ==> result == Err::<i64, IndexError>(IndexError::IntegerOutOfRange),
{
    if value > i64::MAX as u64 {
        Err(IndexError::IntegerOutOfRange)
    } else {
        Ok(value as i64)
    }
}

/// Reserves one more projected row against the row limit.  The counter is
/// advanced whenever the increment fits, even when the limit then refuses.
pub fn reserve_row(rows: &mut u64, limits: IndexLimits) -> (result: Result<(), IndexError>)
    ensures
        *old(rows) == u64::MAX ==> *final(rows) == *old(rows) && result == Err::<(), IndexError>(
            IndexError::Incomplete { limit: limits.max_rows, observed: u64::MAX },
        ),
        *old(rows) < u64::MAX ==> *final(rows) == *old(rows) + 1,
        *old(rows) < u64::MAX && *old(rows) + 1 > limits.max_rows ==> result == Err::<
            (),
            IndexError,
        >(IndexError::Incomplete { limit: limits.max_rows, observed: (*old(rows) + 1) as u64 }),
        *old(rows) < u64::MAX && *old(rows) + 1 <= limits.max_rows ==> result == Ok::<
            (),
            IndexError,
        >(()),
{
    *rows = match rows.checked_add(1) {
        Some(value) => value,
        None => return Err(IndexError::Incomplete { limit: limits.max_rows, observed: u64::MAX }),
    };
    if *rows > limits.max_rows {
        return Err(IndexError::Incomplete { limit: limits.max_rows, observed: *rows });
    }
    Ok(())
}

/// Charges `value` bytes of query result against the query budget.  The
/// running total is advanced whenever the addition fits.
pub fn charge_bytes(used: &mut u64, limits: IndexLimits, value: u64) -> (result: Result<
    (),
    IndexError,
>)
    ensures
        *old(used) + value <= u64::MAX ==> *final(used) == *old(used) + value,
        *old(used) + value > u64::MAX ==> *final(used) == *old(used),
        result == match admit_total(*old(used) + value, limits.max_query_bytes) {
            Ok(_) => Ok::<(), IndexError>(()),
            Err(error) => Err(error),
        },
{
    *used = match used.checked_add(value) {
        Some(total) => total,
        None => {
            return Err(IndexError::Incomplete { limit: limits.max_query_bytes, observed: u64::MAX })
        },
    };
    if *used > limits.max_query_bytes {
        return Err(IndexError::Incomplete { limit: limits.max_query_bytes, observed: *used });
    }
    Ok(())
}

/// One charge of `amount` bytes onto `total`: an addition that overflows
/// leaves the total as it was, one that crosses the limit is added and
/// then refused.
pub open spec fn charge_step(total: u64, amount: int, limit: u64) -> (u64, Option<IndexError>) {
    let next = total + amount;
    if next > u64::MAX {
        (total, Some(IndexError::Incomplete { limit, observed: u64::MAX }))
    } else if next > limit {
        (next as u64, Some(IndexError::Incomplete { limit, observed: next as u64 }))
    } else {
        (next as u64, None)
    }
}

/// The running total after charging `amounts` in turn onto `used`, and the
/// refusal that stopped the charge, if one did.
pub open spec fn charges_outcome(used: u64, amounts: Seq<int>, limit: u64) -> (
    u64,
    Option<IndexError>,
)
    decreases amounts.len(),
{
    if amounts.len() == 0 {
        (used, None)
    } else {
        let (total, refusal) = charges_outcome(used, amounts.drop_last(), limit);
        if refusal is Some {
            (total, refusal)
        } else {
            charge_step(total, amounts.last(), limit)
        }
    }
}

/// The UTF-8 lengths of `values`.
pub open spec fn text_lens(values: Seq<&str>) -> Seq<int> {
    values.map_values(|value: &str| value.len() as int)
}

/// Charging `a` and then `b` is charging `a` followed by `b`.
pub proof fn lemma_charges_append(used: u64, a: Seq<int>, b: Seq<int>, limit: u64)
    ensures
        charges_outcome(used, a + b, limit) == ({
            let (total, refusal) = charges_outcome(used, a, limit);
            if refusal is Some {
                (total, refusal)
            } else {
                charges_outcome(total, b, limit)
            }
        }),
    decreases b.len(),
{
    if b.len() == 0 {
        assert(a + b =~= a);
    } else {
        assert((a + b).drop_last() =~= a + b.drop_last());
        assert((a + b).last() == b.last());
        lemma_charges_append(used, a, b.drop_last(), limit);
    }
}

/// Once a prefix of the amounts is refused, the whole charge is refused
/// there, with the same total.
pub proof fn lemma_charges_stop(used: u64, amounts: Seq<int>, k: int, limit: u64)
    requires
        0 <= k <= amounts.len(),
        charges_outcome(used, amounts.subrange(0, k), limit).1 is Some,
    ensures
        charges_outcome(used, amounts, limit) == charges_outcome(used, amounts.subrange(0, k), limit),
{
    lemma_charges_append(used, amounts.subrange(0, k), amounts.subrange(k, amounts.len() as int), limit);
    assert(amounts.subrange(0, k) + amounts.subrange(k, amounts.len() as int) =~= amounts);
}

/// Charges the UTF-8 length of each text in turn against the query budget.
pub fn charge_texts(used: &mut u64, limits: IndexLimits, values: &[&str]) -> (result: Result<
    (),
    IndexError,
>)
    ensures
        ({
            let (total, refusal) = charges_outcome(
                *old(used),
                text_lens(values@),
                limits.max_query_bytes,
            );
            &&& *final(used) == total
            &&& match refusal {
                Some(error) => result == Err::<(), IndexError>(error),
                None => result == Ok::<(), IndexError>(()),
            }
        }),
{
    let ghost lens = text_lens(values@);
    let mut i: usize = 0;
    while i < values.len()
        invariant
            i <= values@.len(),
            lens == text_lens(values@),
            charges_outcome(*old(used), lens.subrange(0, i as int), limits.max_query_bytes) == (
                *used,
                None::<IndexError>,
            ),
        decreases values@.len() - i,
    {
        proof {
            assert(lens.subrange(0, i + 1int).drop_last() =~= lens.subrange(0, i as int));
            assert(lens.subrange(0, i + 1int).last() == values@[i as int].len() as int);
        }
        let text: &str = values[i];
        let length = text.len() as u64;
        match charge_bytes(used, limits, length) {
            Ok(()) => {},
            Err(error) => {
                proof {
                    lemma_charges_stop(*old(used), lens, i + 1, limits.max_query_bytes);
                }
                return Err(error);
            },
        }
        i += 1;
    }
    proof {
        assert(lens.subrange(0, values@.len() as int) =~= lens);
    }
    Ok(())
}

/// Bytes one element of a query vector of `T` occupies: the size of `T`,
/// which is what reserving the vector's exact capacity requests per row.
pub fn vector_row_cost<T>() -> (result: u64)
    ensures
        result == vstd::layout::size_of::<T>(),
{
    core::mem::size_of::<T>() as u64
}

/// An empty vector with exact room for `count` elements.  A count beyond
/// `usize` is out of range, and so is a reservation the allocator refuses.
pub fn reserved_vec<T>(count: u64) -> (result: Result<Vec<T>, IndexError>)
    ensures
        count > usize::MAX ==> result == Err::<Vec<T>, IndexError>(IndexError::IntegerOutOfRange),
        result matches Ok(values) ==> values@.len() == 0,
        result matches Err(error) ==> error == IndexError::IntegerOutOfRange,
{
    if count > usize::MAX as u64 {
        return Err(IndexError::IntegerOutOfRange);
    }
    let mut result: Vec<T> = Vec::new();
    if !try_reserve_exact(&mut result, count as usize) {
        return Err(IndexError::IntegerOutOfRange);
    }
    Ok(result)
}

/// Charges `rows` vector slots of `row_cost` bytes each.
pub fn charge_rows(used: &mut u64, limits: IndexLimits, rows: usize, row_cost: u64) -> (result:
    Result<(), IndexError>)
    ensures
        rows * row_cost > u64::MAX ==> *final(used) == *old(used) && result == Err::<
            (),
            IndexError,
        >(IndexError::Incomplete { limit: limits.max_query_bytes, observed: u64::MAX }),
        rows * row_cost <= u64::MAX ==> result == match admit_total(
            *old(used) + rows * row_cost,
            limits.max_query_bytes,
        ) {
            Ok(_) => Ok::<(), IndexError>(()),
            Err(error) => Err(error),
        },
        rows * row_cost <= u64::MAX && *old(used) + rows * row_cost <= u64::MAX ==> *final(used)
            == *old(used) + rows * row_cost,
        rows * row_cost <= u64::MAX && *old(used) + rows * row_cost > u64::MAX ==> *final(used)
            == *old(used),
{
    let bytes = match (rows as u64).checked_mul(row_cost) {
        Some(bytes) => bytes,
        None => {
            return Err(IndexError::Incomplete { limit: limits.max_query_bytes, observed: u64::MAX })
        },
    };
    charge_bytes(used, limits, bytes)
}

/// Charges one fixed-SQL table measurement (row count and summed text
/// length, as SQLite reported them) and returns its text bytes.
pub fn charge_query_measurement(
    rows: i64,
    text_bytes: i64,
    scalar_bytes: u64,
    used: &mut u64,
    limits: IndexLimits,
) -> (result: Result<u64, IndexError>)
    ensures
        rows < 0 || text_bytes < 0 ==> result == Err::<u64, IndexError>(IndexError::CorruptIndex)
            && *final(used) == *old(used),
        rows >= 0 && text_bytes >= 0 && rows * scalar_bytes > u64::MAX ==> result == Err::<
            u64,
            IndexError,
        >(IndexError::Incomplete { limit: limits.max_query_bytes, observed: u64::MAX }),
        rows >= 0 && text_bytes >= 0 && rows * scalar_bytes <= u64::MAX ==> ({
            let (total, refusal) = charges_outcome(
                *old(used),
                seq![text_bytes as int, rows * scalar_bytes],
                limits.max_query_bytes,
            );
            &&& *final(used) == total
            &&& match refusal {
                Some(error) => result == Err::<u64, IndexError>(error),
                None => result == Ok::<u64, IndexError>(text_bytes as u64),
            }
        }),
{
    proof {
        let pair = seq![text_bytes as int, rows * scalar_bytes];
        assert(pair.drop_last() =~= seq![text_bytes as int]);
        lemma_charges_single(*old(used), text_bytes as int, limits.max_query_bytes);
    }
    if rows < 0 || text_bytes < 0 {
        return Err(IndexError::CorruptIndex);
    }
    let rows = rows as u64;
    let text_bytes = text_bytes as u64;
    let scalar_total = match rows.checked_mul(scalar_bytes) {
        Some(value) => value,
        None => {
            return Err(IndexError::Incomplete { limit: limits.max_query_bytes, observed: u64::MAX })
        },
    };
    match charge_bytes(used, limits, text_bytes) {
        Ok(()) => {},
        Err(error) => return Err(error),
    }
    match charge_bytes(used, limits, scalar_total) {
        Ok(()) => {},
        Err(error) => return Err(error),
    }
    Ok(text_bytes)
}

/// Admits the marker query: its text cells plus the fixed marker size.
pub fn preflight_marker_query(text: i64, marker_size: u64, limits: IndexLimits) -> (result: Result<
    u64,
    IndexError,
>)
    ensures
        text < 0 ==> result == Err::<u64, IndexError>(IndexError::CorruptIndex),
        text >= 0 ==> result == admit_total(text + marker_size, limits.max_query_bytes),
{
    if text < 0 {
        return Err(IndexError::CorruptIndex);
    }
    let text = text as u64;
    let requested = match text.checked_add(marker_size) {
        Some(value) => value,
        None => {
            return Err(IndexError::Incomplete { limit: limits.max_query_bytes, observed: u64::MAX })
        },
    };
    if requested > limits.max_query_bytes {
        return Err(IndexError::Incomplete { limit: limits.max_query_bytes, observed: requested });
    }
    Ok(requested)
}

/// Bytes the journal scan retains before any line is read: the genesis
/// backing, the reader's metadata, and two copies of the local identity.
pub fn streaming_journal_retained(
    genesis_backing: Option<usize>,
    metadata: u64,
    local_identity: u64,
    limits: IndexLimits,
) -> (result: Result<u64, IndexError>)
    ensures
        result == admit_total(
            (match genesis_backing {
                Some(len) => len as int,
                None => 0,
            }) + metadata + 2 * local_identity,
            limits.max_working_bytes,
        ),
{
    let genesis = match genesis_backing {
        Some(len) => len as u64,
        None => 0,
    };
    let overflow = IndexError::Incomplete { limit: limits.max_working_bytes, observed: u64::MAX };
    let first = match genesis.checked_add(metadata) {
        Some(value) => value,
        None => return Err(overflow),
    };
    let second = match first.checked_add(local_identity) {
        Some(value) => value,
        None => return Err(overflow),
    };
    let retained = match second.checked_add(local_identity) {
        Some(value) => value,
        None => return Err(overflow),
    };
    if retained > limits.max_working_bytes {
        return Err(IndexError::Incomplete { limit: limits.max_working_bytes, observed: retained });
    }
    Ok(retained)
}

/// Admits the journal scan: retained bytes plus the reader's line buffer and
/// canonical scratch.
pub fn admit_streaming_scan(
    retained: u64,
    line_buffer_capacity: u64,
    canonical_scratch_capacity: u64,
    limits: IndexLimits,
) -> (result: Result<(), IndexError>)
    ensures
        result == match admit_total(
            retained + line_buffer_capacity + canonical_scratch_capacity,
            limits.max_working_bytes,
        ) {
            Ok(_) => Ok::<(), IndexError>(()),
            Err(error) => Err(error),
        },
{
    let overflow = IndexError::Incomplete { limit: limits.max_working_bytes, observed: u64::MAX };
    let first = match retained.checked_add(line_buffer_capacity) {
        Some(value) => value,
        None => return Err(overflow),
    };
    let observed = match first.checked_add(canonical_scratch_capacity) {
        Some(value) => value,
        None => return Err(overflow),
    };
    if observed > limits.max_working_bytes {
        return Err(IndexError::Incomplete { limit: limits.max_working_bytes, observed });
    }
    Ok(())
}

/// The bytes one event comparison retains: the longest event row's text,
/// the row itself, and one compact body hash.
pub fn event_compare_tuple_bytes(dynamic: i64, event_row_size: u64) -> (result: Result<
    u64,
    IndexError,
>)
    ensures
        dynamic < 0 ==> result == Err::<u64, IndexError>(IndexError::CorruptIndex),
        dynamic >= 0 && dynamic + event_row_size + 71 <= u64::MAX ==> result == Ok::<
            u64,
            IndexError,
        >((dynamic + event_row_size + 71) as u64),
        dynamic >= 0 && dynamic + event_row_size + 71 > u64::MAX ==> result == Err::<
            u64,
            IndexError,
        >(IndexError::Incomplete { limit: u64::MAX, observed: u64::MAX }),
{
    if dynamic < 0 {
        return Err(IndexError::CorruptIndex);
    }
    let overflow = IndexError::Incomplete { limit: u64::MAX, observed: u64::MAX };
    let first = match (dynamic as u64).checked_add(event_row_size) {
        Some(value) => value,
        None => return Err(overflow),
    };
    match first.checked_add(71) {
        Some(value) => Ok(value),
        None => Err(overflow),
    }
}

/// The query-and-compare peak: retained bytes, the reader's buffers, the
/// reconstructed image, the query cache, the public result and one compared
/// event.
pub open spec fn query_compare_peak(
    retained: u64,
    line: u64,
    scratch: u64,
    main: int,
    result_bytes: u64,
    compare: u64,
) -> int {
    retained + line + scratch + main + 1024 + result_bytes + compare
}

/// Every part of the query-and-compare peak counts in full: the peak is at
/// least the public result and the compared event together, and a larger
/// result raises it by exactly the difference.  So a result larger than
/// the working limit is always refused, and a larger result never turns a
/// refusal into an admission.
pub proof fn lemma_query_compare_peak_counts_result(
    retained: u64,
    line: u64,
    scratch: u64,
    main: int,
    smaller: u64,
    larger: u64,
    compare: u64,
    limit: u64,
)
    requires
        main >= 0,
        smaller <= larger,
    ensures
        query_compare_peak(retained, line, scratch, main, larger, compare) >= larger as int
            + compare + retained + line + scratch + main,
        query_compare_peak(retained, line, scratch, main, larger, compare) - query_compare_peak(
            retained,
            line,
            scratch,
            main,
            smaller,
            compare,
        ) == larger - smaller,
        larger > limit ==> admit_total(
            query_compare_peak(retained, line, scratch, main, larger, compare),
            limit,
        ) is Err,
        admit_total(query_compare_peak(retained, line, scratch, main, smaller, compare), limit)
            is Err ==> admit_total(
            query_compare_peak(retained, line, scratch, main, larger, compare),
            limit,
        ) is Err,
{
}

/// Admits comparing a queried snapshot with the locked journal.
pub fn admit_query_compare_peak(
    retained: u64,
    line_buffer_capacity: u64,
    canonical_scratch_capacity: u64,
    page_count: i64,
    result_bytes: u64,
    compare: u64,
    limits: IndexLimits,
) -> (result: Result<(), IndexError>)
    ensures
        page_count < 0 ==> result == Err::<(), IndexError>(IndexError::CorruptIndex),
        page_count >= 0 && page_count * PAGE_SIZE > u64::MAX ==> result == Err::<(), IndexError>(
            IndexError::Incomplete { limit: limits.max_working_bytes, observed: u64::MAX },
        ),
        page_count >= 0 && page_count * PAGE_SIZE <= u64::MAX ==> match query_reservation(
            limits,
            retained,
        ) {
            None => result == Err::<(), IndexError>(
                IndexError::Incomplete { limit: limits.max_working_bytes, observed: u64::MAX },
            ),
            Some(r) => if !cache_fits(limits, r as u64) {
                result == Err::<(), IndexError>(cache_refusal(limits, r as u64))
            } else {
                result == match admit_total(
                    query_compare_peak(
                        retained,
                        line_buffer_capacity,
                        canonical_scratch_capacity,
                        page_count * PAGE_SIZE,
                        result_bytes,
                        compare,
                    ),
                    limits.max_working_bytes,
                ) {
                    Ok(_) => Ok::<(), IndexError>(()),
                    Err(error) => Err(error),
                }
            },
        },
        result is Ok ==> retained + line_buffer_capacity + canonical_scratch_capacity + page_count
            * PAGE_SIZE + 1024 + result_bytes + compare <= limits.max_working_bytes,
        result_bytes > limits.max_working_bytes ==> result is Err,
{
    if page_count < 0 {
        return Err(IndexError::CorruptIndex);
    }
    let overflow = IndexError::Incomplete { limit: limits.max_working_bytes, observed: u64::MAX };
    let main = match (page_count as u64).checked_mul(PAGE_SIZE) {
        Some(value) => value,
        None => return Err(overflow),
    };
    let reservation = match query_cache_reservation_with_journal(limits, retained) {
        Ok(value) => value,
        Err(error) => return Err(error),
    };
    let cache = match configured_cache_bytes(limits, reservation) {
        Ok(value) => value,
        Err(error) => return Err(error),
    };
    let mut observed = retained;
    observed = match observed.checked_add(line_buffer_capacity) {
        Some(value) => value,
        None => return Err(overflow),
    };
    observed = match observed.checked_add(canonical_scratch_capacity) {
        Some(value) => value,
        None => return Err(overflow),
    };
    observed = match observed.checked_add(main) {
        Some(value) => value,
        None => return Err(overflow),
    };
    observed = match observed.checked_add(cache) {
        Some(value) => value,
        None => return Err(overflow),
    };
    observed = match observed.checked_add(result_bytes) {
        Some(value) => value,
        None => return Err(overflow),
    };
    observed = match observed.checked_add(compare) {
        Some(value) => value,
        None => return Err(overflow),
    };
    if observed > limits.max_working_bytes {
        return Err(IndexError::Incomplete { limit: limits.max_working_bytes, observed });
    }
    Ok(())
}

/// The single-thread budget of text bytes that decoded query rows may
/// still claim.  `None` means no admission is active.
/// One text cell consumed from an open admission: refused, leaving the
/// budget untouched, when fewer bytes remain than it needs.  With no
/// admission open nothing is counted.
pub open spec fn consume_step(remaining: Option<u64>, requested: u64) -> (bool, Option<u64>) {
    match remaining {
        None => (true, None),
        Some(available) => if requested <= available {
            (true, Some((available - requested) as u64))
        } else {
            (false, remaining)
        },
    }
}

/// The budget left after consuming `requests` in turn, or `None` once one
/// is refused.
pub open spec fn consume_all(available: u64, requests: Seq<u64>) -> Option<u64>
    decreases requests.len(),
{
    if requests.len() == 0 {
        Some(available)
    } else {
        match consume_all(available, requests.drop_last()) {
            None => None,
            Some(left) => match consume_step(Some(left), requests.last()) {
                (true, Some(next)) => Some(next),
                _ => None,
            },
        }
    }
}

pub open spec fn u64_total(values: Seq<u64>) -> nat
    decreases values.len(),
{
    if values.len() == 0 {
        0
    } else {
        u64_total(values.drop_last()) + values.last() as nat
    }
}

/// A decode admitted for `bytes` of text, copying cells of the lengths in
/// `requests` and then closing the admission, succeeds exactly when those
/// lengths add up to the admitted bytes: any drift between the measured
/// query and the rows decoded is refused.
pub proof fn lemma_text_admission_exact(bytes: u64, requests: Seq<u64>)
    ensures
        consume_all(bytes, requests) == Some(0u64) <==> u64_total(requests) == bytes,
{
    lemma_consume_all_total(bytes, requests);
}

proof fn lemma_consume_all_total(bytes: u64, requests: Seq<u64>)
    ensures
        u64_total(requests) <= bytes ==> consume_all(bytes, requests) == Some(
            (bytes - u64_total(requests)) as u64,
        ),
        u64_total(requests) > bytes ==> consume_all(bytes, requests) is None,
    decreases requests.len(),
{
    if requests.len() > 0 {
        lemma_consume_all_total(bytes, requests.drop_last());
    }
}

/// Opening an admission of `bytes`: the result, and the budget installed.
/// An admission already open is a nested decode and is refused, though the
/// new budget replaces it.
pub open spec fn open_step(remaining: Option<u64>, bytes: u64) -> (Result<(), IndexError>, Option<
    u64,
>) {
    (
        if remaining is Some {
            Err(IndexError::ProjectionContractViolation)
        } else {
            Ok(())
        },
        Some(bytes),
    )
}

/// Closing an admission: it succeeds only when every admitted byte was
/// consumed, and leaves no budget installed either way.
pub open spec fn finish_step(remaining: Option<u64>) -> (Result<(), IndexError>, Option<u64>) {
    (
        if remaining == Some(0u64) {
            Ok(())
        } else {
            Err(IndexError::CorruptIndex)
        },
        None,
    )
}

/// Consuming `requests` in turn from `remaining`: whether every one was
/// granted, and the budget left where the first refusal stopped the decode.
pub open spec fn consume_seq(remaining: Option<u64>, requests: Seq<u64>) -> (bool, Option<u64>)
    decreases requests.len(),
{
    if requests.len() == 0 {
        (true, remaining)
    } else {
        let (granted, state) = consume_seq(remaining, requests.drop_last());
        if !granted {
            (false, state)
        } else {
            consume_step(state, requests.last())
        }
    }
}

proof fn lemma_consume_seq_total(bytes: u64, requests: Seq<u64>)
    ensures
        consume_seq(Some(bytes), requests).0 <==> u64_total(requests) <= bytes,
        u64_total(requests) <= bytes ==> consume_seq(Some(bytes), requests).1 == Some(
            (bytes - u64_total(requests)) as u64,
        ),
    decreases requests.len(),
{
    if requests.len() > 0 {
        lemma_consume_seq_total(bytes, requests.drop_last());
    }
}

/// A whole decode session with no admission open beforehand: opening an
/// admission of `bytes` succeeds; the decoded cells' copies of the lengths
/// in `requests` are all granted exactly when they add up to no more than
/// `bytes`; closing then succeeds exactly when they add up to `bytes`; and
/// afterwards no budget is installed, so the next admission, of any size,
/// opens.
pub proof fn lemma_text_admission_session(bytes: u64, requests: Seq<u64>, next: u64)
    ensures
        open_step(None, bytes) == (Ok::<(), IndexError>(()), Some(bytes)),
        consume_seq(Some(bytes), requests).0 <==> u64_total(requests) <= bytes,
        consume_seq(Some(bytes), requests).0 ==> finish_step(consume_seq(Some(bytes), requests).1)
            == (if u64_total(requests) == bytes {
            Ok::<(), IndexError>(())
        } else {
            Err::<(), IndexError>(IndexError::CorruptIndex)
        }, None::<u64>),
        open_step(finish_step(consume_seq(Some(bytes), requests).1).1, next).0 == Ok::<
            (),
            IndexError,
        >(()),
{
    lemma_consume_seq_total(bytes, requests);
}

/// The text bytes still admitted for the decode in progress, consumed as
/// the decoded cells copy them; `None` while no admission is open, when
/// copies are not limited.
pub struct QueryTextAdmission {
    pub remaining: Option<u64>,
}

impl QueryTextAdmission {
    /// Opens an admission of `bytes`; refuses a nested admission.
    pub fn new(&mut self, bytes: u64) -> (result: Result<(), IndexError>)
        ensures
            (result, final(self).remaining) == open_step(old(self).remaining, bytes),
    {
        let previous = self.remaining;
        self.remaining = Some(bytes);
        if previous.is_some() {
            Err(IndexError::ProjectionContractViolation)
        } else {
            Ok(())
        }
    }

    /// Consumes `requested` bytes before one text cell is copied; refuses
    /// (leaving the budget untouched) when fewer remain.
    pub fn consume(&mut self, requested: u64) -> (result: bool)
        ensures
            (result, final(self).remaining) == consume_step(old(self).remaining, requested),
    {
        match self.remaining {
            None => true,
            Some(available) => match available.checked_sub(requested) {
                Some(next) => {
                    self.remaining = Some(next);
                    true
                },
                None => false,
            },
        }
    }

    /// Closes the admission: every admitted byte must have been consumed.
    pub fn finish(&mut self) -> (result: Result<(), IndexError>)
        ensures
            (result, final(self).remaining) == finish_step(old(self).remaining),
    {
        let remaining = self.remaining;
        self.remaining = None;
        match remaining {
            Some(0) => Ok(()),
            _ => Err(IndexError::CorruptIndex),
        }
    }
}


/// The texts of one result table, row by row, and the bytes one decoded
/// row occupies in the result vector.
pub struct BudgetTable<'a> {
    pub row_cost: u64,
    pub rows: Vec<Vec<&'a str>>,
}

/// The text charges of `rows`, row after row.
pub open spec fn rows_text_amounts<'a>(rows: Seq<Vec<&'a str>>) -> Seq<int>
    decreases rows.len(),
{
    if rows.len() == 0 {
        Seq::empty()
    } else {
        rows_text_amounts(rows.drop_last()) + text_lens(rows.last()@)
    }
}

/// The charges of one table: its vector slots, then its texts.
pub open spec fn table_amounts<'a>(table: BudgetTable<'a>) -> Seq<int> {
    seq![table.rows@.len() * table.row_cost] + rows_text_amounts(table.rows@)
}

/// The charges of `tables`, table after table.
pub open spec fn tables_amounts<'a>(tables: Seq<BudgetTable<'a>>) -> Seq<int>
    decreases tables.len(),
{
    if tables.len() == 0 {
        Seq::empty()
    } else {
        tables_amounts(tables.drop_last()) + table_amounts(tables.last())
    }
}

pub proof fn lemma_rows_text_amounts_split<'a>(rows: Seq<Vec<&'a str>>, k: int)
    requires
        0 <= k <= rows.len(),
    ensures
        rows_text_amounts(rows) == rows_text_amounts(rows.subrange(0, k)) + rows_text_amounts(
            rows.subrange(k, rows.len() as int),
        ),
    decreases rows.len(),
{
    if k == rows.len() {
        assert(rows.subrange(0, k) =~= rows);
        assert(rows_text_amounts(rows.subrange(k, rows.len() as int)) =~= Seq::<int>::empty());
        assert(rows_text_amounts(rows) + Seq::<int>::empty() =~= rows_text_amounts(rows));
    } else {
        let front = rows.drop_last();
        lemma_rows_text_amounts_split(front, k);
        assert(front.subrange(0, k) =~= rows.subrange(0, k));
        let tail = rows.subrange(k, rows.len() as int);
        assert(tail.drop_last() =~= front.subrange(k, front.len() as int));
        assert(tail.last() == rows.last());
        assert(rows_text_amounts(rows) =~= rows_text_amounts(rows.subrange(0, k))
            + rows_text_amounts(tail));
    }
}

pub proof fn lemma_tables_amounts_split<'a>(tables: Seq<BudgetTable<'a>>, k: int)
    requires
        0 <= k <= tables.len(),
    ensures
        tables_amounts(tables) == tables_amounts(tables.subrange(0, k)) + tables_amounts(
            tables.subrange(k, tables.len() as int),
        ),
    decreases tables.len(),
{
    if k == tables.len() {
        assert(tables.subrange(0, k) =~= tables);
        assert(tables_amounts(tables.subrange(k, tables.len() as int)) =~= Seq::<int>::empty());
        assert(tables_amounts(tables) + Seq::<int>::empty() =~= tables_amounts(tables));
    } else {
        let front = tables.drop_last();
        lemma_tables_amounts_split(front, k);
        assert(front.subrange(0, k) =~= tables.subrange(0, k));
        let tail = tables.subrange(k, tables.len() as int);
        assert(tail.drop_last() =~= front.subrange(k, front.len() as int));
        assert(tail.last() == tables.last());
        assert(tables_amounts(tables) =~= tables_amounts(tables.subrange(0, k)) + tables_amounts(
            tail,
        ));
    }
}

/// A single charge is one step.
pub proof fn lemma_charges_single(used: u64, amount: int, limit: u64)
    ensures
        charges_outcome(used, seq![amount], limit) == charge_step(used, amount, limit),
{
    assert(seq![amount].drop_last() =~= Seq::<int>::empty());
    assert(charges_outcome(used, Seq::<int>::empty(), limit) == (used, None::<IndexError>));
}

/// The charges of `tables` split around table `k`.
pub proof fn lemma_tables_amounts_around<'a>(tables: Seq<BudgetTable<'a>>, k: int)
    requires
        0 <= k < tables.len(),
    ensures
        tables_amounts(tables.subrange(0, k + 1)) == tables_amounts(tables.subrange(0, k))
            + table_amounts(tables[k]),
        tables_amounts(tables) == tables_amounts(tables.subrange(0, k)) + table_amounts(tables[k])
            + tables_amounts(tables.subrange(k + 1, tables.len() as int)),
{
    let upto = tables.subrange(0, k + 1);
    assert(upto.drop_last() =~= tables.subrange(0, k));
    assert(upto.last() == tables[k]);
    lemma_tables_amounts_split(tables, k + 1);
}

/// The text charges of `rows` split around row `r`.
pub proof fn lemma_rows_text_amounts_around<'a>(rows: Seq<Vec<&'a str>>, r: int)
    requires
        0 <= r < rows.len(),
    ensures
        rows_text_amounts(rows.subrange(0, r + 1)) == rows_text_amounts(rows.subrange(0, r))
            + text_lens(rows[r]@),
        rows_text_amounts(rows) == rows_text_amounts(rows.subrange(0, r)) + text_lens(rows[r]@)
            + rows_text_amounts(rows.subrange(r + 1, rows.len() as int)),
{
    let upto = rows.subrange(0, r + 1);
    assert(upto.drop_last() =~= rows.subrange(0, r));
    assert(upto.last() == rows[r]);
    lemma_rows_text_amounts_split(rows, r + 1);
}

/// What admitting a snapshot's query result gives: the bytes charged onto
/// `marker_size` by the marker's texts and the tables in order, or the
/// refusal that stopped the charge.
pub open spec fn snapshot_budget_outcome<'a>(
    marker_size: u64,
    marker_texts: Seq<&'a str>,
    tables: Seq<BudgetTable<'a>>,
    limit: u64,
) -> Result<u64, IndexError> {
    let (total, refusal) = charges_outcome(
        marker_size,
        text_lens(marker_texts) + tables_amounts(tables),
        limit,
    );
    match refusal {
        Some(error) => Err(error),
        None => Ok(total),
    }
}

/// Admits the complete public query result of a snapshot before it is
/// returned: starting from the fixed size of the marker, the marker's
/// texts, then for each table in result order its vector slots and the
/// texts of each row, each charged in turn against `max_query_bytes`.
/// Returns the bytes charged.
pub fn snapshot_query_budget(
    marker_size: u64,
    marker_texts: &[&str],
    tables: &Vec<BudgetTable>,
    limits: IndexLimits,
) -> (result: Result<u64, IndexError>)
    ensures
        result == snapshot_budget_outcome(
            marker_size,
            marker_texts@,
            tables@,
            limits.max_query_bytes,
        ),
{
    let ghost limit = limits.max_query_bytes;
    let ghost marker_amounts = text_lens(marker_texts@);
    let ghost full = marker_amounts + tables_amounts(tables@);
    let mut used = marker_size;
    proof {
        lemma_charges_append(marker_size, marker_amounts, tables_amounts(tables@), limit);
    }
    match charge_texts(&mut used, limits, marker_texts) {
        Ok(()) => {},
        Err(error) => return Err(error),
    }
    proof {
        assert(tables@.subrange(0, 0) =~= Seq::<BudgetTable>::empty());
        assert(marker_amounts + tables_amounts(tables@.subrange(0, 0)) =~= marker_amounts);
    }
    let mut k: usize = 0;
    while k < tables.len()
        invariant
            k <= tables@.len(),
            limit == limits.max_query_bytes,
            marker_amounts == text_lens(marker_texts@),
            full == marker_amounts + tables_amounts(tables@),
            charges_outcome(
                marker_size,
                marker_amounts + tables_amounts(tables@.subrange(0, k as int)),
                limit,
            ) == (used, None::<IndexError>),
        decreases tables@.len() - k,
    {
        let ghost done = marker_amounts + tables_amounts(tables@.subrange(0, k as int));
        let ghost after = tables_amounts(tables@.subrange(k + 1int, tables@.len() as int));
        proof {
            lemma_tables_amounts_around(tables@, k as int);
        }
        let table = &tables[k];
        let ghost slots = seq![table.rows@.len() * table.row_cost];
        let ghost texts = rows_text_amounts(table.rows@);
        proof {
            assert(full =~= (done + slots) + (texts + after));
            lemma_charges_append(marker_size, done, slots, limit);
            lemma_charges_single(used, table.rows@.len() * table.row_cost, limit);
            lemma_charges_append(marker_size, done + slots, texts + after, limit);
        }
        match charge_rows(&mut used, limits, table.rows.len(), table.row_cost) {
            Ok(()) => {},
            Err(error) => return Err(error),
        }
        proof {
            assert(table.rows@.subrange(0, 0) =~= Seq::<Vec<&str>>::empty());
            assert(done + slots + rows_text_amounts(table.rows@.subrange(0, 0)) =~= done + slots);
        }
        let mut r: usize = 0;
        while r < table.rows.len()
            invariant
                r <= table.rows@.len(),
                limit == limits.max_query_bytes,
                marker_amounts == text_lens(marker_texts@),
                full == marker_amounts + tables_amounts(tables@),
                full == (done + slots) + (texts + after),
                texts == rows_text_amounts(table.rows@),
                charges_outcome(
                    marker_size,
                    done + slots + rows_text_amounts(table.rows@.subrange(0, r as int)),
                    limit,
                ) == (used, None::<IndexError>),
            decreases table.rows@.len() - r,
        {
            let ghost prefix = done + slots + rows_text_amounts(table.rows@.subrange(0, r as int));
            let ghost row_amounts = text_lens(table.rows@[r as int]@);
            let ghost later = rows_text_amounts(
                table.rows@.subrange(r + 1int, table.rows@.len() as int),
            );
            proof {
                lemma_rows_text_amounts_around(table.rows@, r as int);
                assert(prefix + row_amounts =~= done + slots + rows_text_amounts(
                    table.rows@.subrange(0, r + 1int),
                ));
                assert(full =~= (prefix + row_amounts) + (later + after));
                lemma_charges_append(marker_size, prefix, row_amounts, limit);
                lemma_charges_append(marker_size, prefix + row_amounts, later + after, limit);
            }
            let row = &table.rows[r];
            match charge_texts(&mut used, limits, row.as_slice()) {
                Ok(()) => {},
                Err(error) => return Err(error),
            }
            r += 1;
        }
        proof {
            assert(table.rows@.subrange(0, table.rows@.len() as int) =~= table.rows@);
            assert(done + slots + texts =~= marker_amounts + tables_amounts(
                tables@.subrange(0, k + 1int),
            ));
        }
        k += 1;
    }
    proof {
        assert(tables@.subrange(0, tables@.len() as int) =~= tables@);
    }
    Ok(used)
}
/// The bytes of a reconstructed main image of `page_count` pages; a
/// negative count is corruption and an overflow is refused against the
/// working limit.
pub fn main_image_bytes(page_count: i64, limits: IndexLimits) -> (result: Result<u64, IndexError>)
    ensures
        page_count < 0 ==> result == Err::<u64, IndexError>(IndexError::CorruptIndex),
        page_count >= 0 && page_count * PAGE_SIZE > u64::MAX ==> result == Err::<u64, IndexError>(
            IndexError::Incomplete { limit: limits.max_working_bytes, observed: u64::MAX },
        ),
        page_count >= 0 && page_count * PAGE_SIZE <= u64::MAX ==> result == Ok::<u64, IndexError>(
            (page_count * PAGE_SIZE) as u64,
        ),
{
    if page_count < 0 {
        return Err(IndexError::CorruptIndex);
    }
    match (page_count as u64).checked_mul(PAGE_SIZE) {
        Some(bytes) => Ok(bytes),
        None => Err(IndexError::Incomplete { limit: limits.max_working_bytes, observed: u64::MAX }),
    }
}

/// An empty result vector with exact room for the `count` rows SQLite
/// reported.  A negative count is corruption; a reservation the allocator
/// refuses is `Incomplete`, naming the bytes requested (saturated).
pub fn reserved_query_vec<T>(count: i64) -> (result: Result<Vec<T>, IndexError>)
    ensures
        (count < 0 || count > usize::MAX) ==> result == Err::<Vec<T>, IndexError>(
            IndexError::CorruptIndex,
        ),
        result matches Ok(rows) ==> rows@.len() == 0,
        0 <= count <= usize::MAX && result is Err ==> result == Err::<Vec<T>, IndexError>(
            IndexError::Incomplete {
                limit: (if count * vstd::layout::size_of::<T>() <= u64::MAX {
                    count * vstd::layout::size_of::<T>()
                } else {
                    u64::MAX as int
                }) as u64,
                observed: u64::MAX,
            },
        ),
{
    if count < 0 {
        return Err(IndexError::CorruptIndex);
    }
    let rows_count = count as u64;
    if rows_count > usize::MAX as u64 {
        return Err(IndexError::CorruptIndex);
    }
    let mut rows: Vec<T> = Vec::new();
    if !try_reserve_exact(&mut rows, rows_count as usize) {
        let size = vector_row_cost::<T>();
        assert(rows_count as u128 * size as u128 <= 0xffff_ffff_ffff_ffff_ffff_ffff_ffff_ffff)
            by (nonlinear_arith)
            requires
                rows_count <= 0xffff_ffff_ffff_ffff,
                size <= 0xffff_ffff_ffff_ffff,
        ;
        let requested: u128 = rows_count as u128 * size as u128;
        let limit: u64 = if requested > 0xffff_ffff_ffff_ffff {
            u64::MAX
        } else {
            requested as u64
        };
        return Err(IndexError::Incomplete { limit, observed: u64::MAX });
    }
    Ok(rows)
}

} // verus!
