//! Working-set admission for the build and query connections and for every
//! image buffer, decided before any allocation is requested.

use vstd::prelude::*;
use crate::error::IndexError;
use crate::limits::{limits_coherent, IndexLimits, PAGE_SIZE};

verus! {

/// The page-cache reservation of a build connection: the retained view plus
/// three serialized images, if that fits in `u64`.
pub open spec fn build_reservation(limits: IndexLimits, retained: u64) -> Option<int> {
    if retained + 3 * limits.max_serialized_bytes <= u64::MAX {
        Some(retained + 3 * limits.max_serialized_bytes)
    } else {
        None
    }
}

/// The page-cache reservation of a query connection: the journal view, two
/// serialized images and the query budget, if that fits in `u64`.
pub open spec fn query_reservation(limits: IndexLimits, journal_view: u64) -> Option<int> {
    if journal_view + 2 * limits.max_serialized_bytes + limits.max_query_bytes <= u64::MAX {
        Some(journal_view + 2 * limits.max_serialized_bytes + limits.max_query_bytes)
    } else {
        None
    }
}

/// Whether a one-KiB cache fits beside `reserved` bytes.
pub open spec fn cache_fits(limits: IndexLimits, reserved: u64) -> bool {
    reserved + 1024 <= limits.max_working_bytes
}

/// The error `cache_kib` reports when the cache does not fit.
pub open spec fn cache_refusal(limits: IndexLimits, reserved: u64) -> IndexError {
    if reserved + 1024 > u64::MAX {
        IndexError::Incomplete { limit: limits.max_working_bytes, observed: u64::MAX }
    } else {
        IndexError::Incomplete {
            limit: limits.max_working_bytes,
            observed: (reserved + 1024) as u64,
        }
    }
}

/// The outcome of admitting a cumulative sum against `limit`: overflow and
/// excess are both refused as `Incomplete`.
pub open spec fn admit_total(total: int, limit: u64) -> Result<u64, IndexError> {
    if total > u64::MAX {
        Err(IndexError::Incomplete { limit, observed: u64::MAX })
    } else if total > limit {
        Err(IndexError::Incomplete { limit, observed: total as u64 })
    } else {
        Ok(total as u64)
    }
}

/// The page-cache reservation of a build connection beside `retained_view`
/// retained bytes; an overflow is refused against the working limit.
pub fn build_cache_reservation_with_journal(limits: IndexLimits, retained_view: u64) -> (result:
    Result<u64, IndexError>)
    ensures
        match build_reservation(limits, retained_view) {
            Some(r) => result == Ok::<u64, IndexError>(r as u64),
            None => result == Err::<u64, IndexError>(
                IndexError::Incomplete { limit: limits.max_working_bytes, observed: u64::MAX },
            ),
        },
{
    let tripled = match limits.max_serialized_bytes.checked_mul(3) {
        Some(value) => value,
        None => {
            return Err(
                IndexError::Incomplete { limit: limits.max_working_bytes, observed: u64::MAX },
            )
        },
    };
    match retained_view.checked_add(tripled) {
        Some(value) => Ok(value),
        None => Err(IndexError::Incomplete { limit: limits.max_working_bytes, observed: u64::MAX }),
    }
}

/// `build_cache_reservation_with_journal` with nothing retained.
pub fn build_cache_reservation(limits: IndexLimits) -> (result: Result<u64, IndexError>)
    ensures
        match build_reservation(limits, 0) {
            Some(r) => result == Ok::<u64, IndexError>(r as u64),
            None => result == Err::<u64, IndexError>(
                IndexError::Incomplete { limit: limits.max_working_bytes, observed: u64::MAX },
            ),
        },
{
    build_cache_reservation_with_journal(limits, 0)
}

/// The page-cache reservation of a query connection beside a journal view
/// of `journal_view` bytes; an overflow is refused against the working limit.
pub fn query_cache_reservation_with_journal(limits: IndexLimits, journal_view: u64) -> (result:
    Result<u64, IndexError>)
    ensures
        match query_reservation(limits, journal_view) {
            Some(r) => result == Ok::<u64, IndexError>(r as u64),
            None => result == Err::<u64, IndexError>(
                IndexError::Incomplete { limit: limits.max_working_bytes, observed: u64::MAX },
            ),
        },
{
    let overflow = IndexError::Incomplete { limit: limits.max_working_bytes, observed: u64::MAX };
    let doubled = match limits.max_serialized_bytes.checked_mul(2) {
        Some(value) => value,
        None => return Err(overflow),
    };
    let images = match journal_view.checked_add(doubled) {
        Some(value) => value,
        None => return Err(overflow),
    };
    match images.checked_add(limits.max_query_bytes) {
        Some(value) => Ok(value),
        None => Err(overflow),
    }
}

/// `query_cache_reservation_with_journal` with no journal view.
pub fn query_cache_reservation(limits: IndexLimits) -> (result: Result<u64, IndexError>)
    ensures
        match query_reservation(limits, 0) {
            Some(r) => result == Ok::<u64, IndexError>(r as u64),
            None => result == Err::<u64, IndexError>(
                IndexError::Incomplete { limit: limits.max_working_bytes, observed: u64::MAX },
            ),
        },
{
    query_cache_reservation_with_journal(limits, 0)
}

/// The SQLite `cache_size` in KiB: always one, admitted only when it fits
/// beside the reservation.
pub fn cache_kib(limits: IndexLimits, reserved: u64) -> (result: Result<i64, IndexError>)
    ensures
        cache_fits(limits, reserved) ==> result == Ok::<i64, IndexError>(1),
        !cache_fits(limits, reserved) ==> result == Err::<i64, IndexError>(
            cache_refusal(limits, reserved),
        ),
{
    let required = match reserved.checked_add(1024) {
        Some(value) => value,
        None => {
            return Err(
                IndexError::Incomplete { limit: limits.max_working_bytes, observed: u64::MAX },
            )
        },
    };
    if required > limits.max_working_bytes {
        return Err(IndexError::Incomplete { limit: limits.max_working_bytes, observed: required });
    }
    Ok(1)
}

/// The configured cache in bytes.
pub fn configured_cache_bytes(limits: IndexLimits, reserved: u64) -> (result: Result<
    u64,
    IndexError,
>)
    ensures
        cache_fits(limits, reserved) ==> result == Ok::<u64, IndexError>(1024),
        !cache_fits(limits, reserved) ==> result == Err::<u64, IndexError>(
            cache_refusal(limits, reserved),
        ),
{
    let kib = match cache_kib(limits, reserved) {
        Ok(kib) => kib,
        Err(error) => return Err(error),
    };
    let kib = kib as u64;
    match kib.checked_mul(1024) {
        Some(bytes) => Ok(bytes),
        None => Err(IndexError::Incomplete { limit: limits.max_working_bytes, observed: u64::MAX }),
    }
}

/// The build connection's peak: retained view, one image and the cache.
pub open spec fn build_peak(limits: IndexLimits, retained: u64) -> int {
    retained + limits.max_serialized_bytes + 1024
}

/// Refuses a build connection before SQLite can allocate anything.
pub fn preflight_build_connection(limits: IndexLimits, retained_view: u64) -> (result: Result<
    (),
    IndexError,
>)
    ensures
        match build_reservation(limits, retained_view) {
            None => result == Err::<(), IndexError>(
                IndexError::Incomplete { limit: limits.max_working_bytes, observed: u64::MAX },
            ),
            Some(r) => if !cache_fits(limits, r as u64) {
                result == Err::<(), IndexError>(cache_refusal(limits, r as u64))
            } else {
                match admit_total(build_peak(limits, retained_view), limits.max_working_bytes) {
                    Ok(_) => result == Ok::<(), IndexError>(()),
                    Err(error) => result == Err::<(), IndexError>(error),
                }
            },
        },
{
    let serialize_reservation = match build_cache_reservation_with_journal(limits, retained_view) {
        Ok(value) => value,
        Err(error) => return Err(error),
    };
    let configured_cache = match configured_cache_bytes(limits, serialize_reservation) {
        Ok(value) => value,
        Err(error) => return Err(error),
    };
    let overflow = IndexError::Incomplete { limit: limits.max_working_bytes, observed: u64::MAX };
    let with_image = match retained_view.checked_add(limits.max_serialized_bytes) {
        Some(value) => value,
        None => return Err(overflow),
    };
    let build_peak = match with_image.checked_add(configured_cache) {
        Some(value) => value,
        None => return Err(overflow),
    };
    if build_peak > limits.max_working_bytes {
        return Err(IndexError::Incomplete { limit: limits.max_working_bytes, observed: build_peak });
    }
    Ok(())
}

/// An image length is admissible when it is a nonzero whole number of pages
/// no larger than the serialized bound.
pub open spec fn image_len_ok(len: int, limits: IndexLimits) -> bool {
    0 < len <= limits.max_serialized_bytes && len % (PAGE_SIZE as int) == 0
}

/// Refuses an image length that is not a nonzero whole number of pages
/// within the serialized bound.
pub fn check_image_len(len: usize, limits: IndexLimits) -> (result: Result<(), IndexError>)
    ensures
        image_len_ok(len as int, limits) ==> result == Ok::<(), IndexError>(()),
        !image_len_ok(len as int, limits) ==> result == Err::<(), IndexError>(
            IndexError::Incomplete { limit: limits.max_serialized_bytes, observed: len as u64 },
        ),
{
    let observed = len as u64;
    if observed == 0 || observed > limits.max_serialized_bytes || observed % PAGE_SIZE != 0 {
        return Err(IndexError::Incomplete { limit: limits.max_serialized_bytes, observed });
    }
    Ok(())
}

/// Sum of the seven independently retained buffers of a candidate reread.
pub open spec fn components_sum(c: [u64; 7]) -> int {
    c[0] + c[1] + c[2] + c[3] + c[4] + c[5] + c[6]
}

/// Admits the candidate-reread working set against the working limit.
pub fn admit_candidate_reread_peak(components: [u64; 7], working_limit: u64) -> (result: Result<
    u64,
    IndexError,
>)
    ensures
        result == admit_total(components_sum(components), working_limit),
{
    let mut observed = 0u64;
    let mut i: usize = 0;
    while i < 7
        invariant
            i <= 7,
            observed == (if i == 0 {
                0
            } else if i == 1 {
                components[0] as int
            } else if i == 2 {
                components[0] + components[1]
            } else if i == 3 {
                components[0] + components[1] + components[2]
            } else if i == 4 {
                components[0] + components[1] + components[2] + components[3]
            } else if i == 5 {
                components[0] + components[1] + components[2] + components[3] + components[4]
            } else if i == 6 {
                components[0] + components[1] + components[2] + components[3] + components[4]
                    + components[5]
            } else {
                components_sum(components)
            }),
        decreases 7 - i,
    {
        observed = match observed.checked_add(components[i]) {
            Some(value) => value,
            None => return Err(IndexError::Incomplete { limit: working_limit, observed: u64::MAX }),
        };
        i += 1;
    }
    if observed > working_limit {
        return Err(IndexError::Incomplete { limit: working_limit, observed });
    }
    Ok(observed)
}

/// Admits reading a descriptor of `size` bytes beside `retained` bytes: the
/// file must fit the image bound and the sum the working bound.
pub fn admit_exact_read(size: u64, max: u64, retained: u64, working_limit: u64) -> (result: Result<
    u64,
    IndexError,
>)
    ensures
        size > max ==> result == Err::<u64, IndexError>(
            IndexError::Incomplete { limit: max, observed: size },
        ),
        size <= max ==> result == admit_total(retained + size, working_limit),
{
    if size > max {
        return Err(IndexError::Incomplete { limit: max, observed: size });
    }
    let observed = match retained.checked_add(size) {
        Some(value) => value,
        None => return Err(IndexError::Incomplete { limit: working_limit, observed: u64::MAX }),
    };
    if observed > working_limit {
        return Err(IndexError::Incomplete { limit: working_limit, observed });
    }
    Ok(observed)
}

/// The serialize stage holds the retained view, three copies of the image
/// (cache pages, SQLite's view, the publication buffer) and the cache.
pub open spec fn serialize_peak(retained: u64, image: int) -> int {
    retained + 3 * image + 1024
}

/// Admits serializing a build connection of `page_count` pages and returns
/// the image length it will have.
pub fn admit_serialize_peak(page_count: i64, limits: IndexLimits, retained_view: u64) -> (result:
    Result<u64, IndexError>)
    ensures
        ({
            let image = page_count * PAGE_SIZE;
            if page_count < 0 {
                result == Err::<u64, IndexError>(IndexError::ProjectionContractViolation)
            } else if image > u64::MAX {
                result == Err::<u64, IndexError>(
                    IndexError::Incomplete { limit: limits.max_working_bytes, observed: u64::MAX },
                )
            } else if image == 0 || image > limits.max_serialized_bytes {
                result == Err::<u64, IndexError>(
                    IndexError::Incomplete {
                        limit: limits.max_serialized_bytes,
                        observed: image as u64,
                    },
                )
            } else {
                match build_reservation(limits, retained_view) {
                    None => result == Err::<u64, IndexError>(
                        IndexError::Incomplete {
                            limit: limits.max_working_bytes,
                            observed: u64::MAX,
                        },
                    ),
                    Some(r) => if !cache_fits(limits, r as u64) {
                        result == Err::<u64, IndexError>(cache_refusal(limits, r as u64))
                    } else if 3 * image > u64::MAX {
                        result == Err::<u64, IndexError>(
                            IndexError::Incomplete {
                                limit: limits.max_working_bytes,
                                observed: u64::MAX,
                            },
                        )
                    } else {
                        match admit_total(
                            serialize_peak(retained_view, image),
                            limits.max_working_bytes,
                        ) {
                            Ok(_) => result == Ok::<u64, IndexError>(image as u64),
                            Err(error) => result == Err::<u64, IndexError>(error),
                        }
                    },
                }
            }
        }),
{
    if page_count < 0 {
        return Err(IndexError::ProjectionContractViolation);
    }
    let overflow = IndexError::Incomplete { limit: limits.max_working_bytes, observed: u64::MAX };
    let pages = page_count as u64;
    let one = match pages.checked_mul(PAGE_SIZE) {
        Some(value) => value,
        None => return Err(overflow),
    };
    if one == 0 || one > limits.max_serialized_bytes {
        return Err(IndexError::Incomplete { limit: limits.max_serialized_bytes, observed: one });
    }
    let reservation = match build_cache_reservation_with_journal(limits, retained_view) {
        Ok(value) => value,
        Err(error) => return Err(error),
    };
    let cache = match configured_cache_bytes(limits, reservation) {
        Ok(value) => value,
        Err(error) => return Err(error),
    };
    let copies = match one.checked_mul(3) {
        Some(value) => value,
        None => return Err(overflow),
    };
    let with_copies = match retained_view.checked_add(copies) {
        Some(value) => value,
        None => return Err(overflow),
    };
    let peak = match with_copies.checked_add(cache) {
        Some(value) => value,
        None => return Err(overflow),
    };
    if peak > limits.max_working_bytes {
        return Err(IndexError::Incomplete { limit: limits.max_working_bytes, observed: peak });
    }
    Ok(one)
}

/// Checks the image SQLite serialized against the admitted length.
pub fn check_serialized_image(len: usize, expected: u64, limits: IndexLimits) -> (result: Result<
    (),
    IndexError,
>)
    ensures
        len != expected ==> result == Err::<(), IndexError>(
            IndexError::ProjectionContractViolation,
        ),
        len == expected && image_len_ok(len as int, limits) ==> result == Ok::<(), IndexError>(()),
        len == expected && !image_len_ok(len as int, limits) ==> result == Err::<(), IndexError>(
            IndexError::Incomplete { limit: limits.max_serialized_bytes, observed: len as u64 },
        ),
{
    if len as u64 != expected {
        return Err(IndexError::ProjectionContractViolation);
    }
    check_image_len(len, limits)
}

/// The deserialize stage holds the journal view, the input image, the
/// reconstructed main image and the query cache.
pub open spec fn deserialize_peak(journal_view: u64, image: int) -> int {
    journal_view + 2 * image + 1024
}

/// Admits reconstructing an image of `image_len` bytes into a read-only
/// query connection.
pub fn admit_deserialize_peak(image_len: usize, limits: IndexLimits, journal_view: u64) -> (result:
    Result<(), IndexError>)
    ensures
        !image_len_ok(image_len as int, limits) ==> result == Err::<(), IndexError>(
            IndexError::Incomplete {
                limit: limits.max_serialized_bytes,
                observed: image_len as u64,
            },
        ),
        image_len_ok(image_len as int, limits) ==> match query_reservation(limits, journal_view) {
            None => result == Err::<(), IndexError>(
                IndexError::Incomplete { limit: limits.max_working_bytes, observed: u64::MAX },
            ),
            Some(r) => if !cache_fits(limits, r as u64) {
                result == Err::<(), IndexError>(cache_refusal(limits, r as u64))
            } else {
                match admit_total(
                    deserialize_peak(journal_view, image_len as int),
                    limits.max_working_bytes,
                ) {
                    Ok(_) => result == Ok::<(), IndexError>(()),
                    Err(error) => result == Err::<(), IndexError>(error),
                }
            },
        },
{
    match check_image_len(image_len, limits) {
        Ok(()) => {},
        Err(error) => return Err(error),
    }
    let image_bytes = image_len as u64;
    let reservation = match query_cache_reservation_with_journal(limits, journal_view) {
        Ok(value) => value,
        Err(error) => return Err(error),
    };
    let cache = match configured_cache_bytes(limits, reservation) {
        Ok(value) => value,
        Err(error) => return Err(error),
    };
    let overflow = IndexError::Incomplete { limit: limits.max_working_bytes, observed: u64::MAX };
    let first = match journal_view.checked_add(image_bytes) {
        Some(value) => value,
        None => return Err(overflow),
    };
    let second = match first.checked_add(image_bytes) {
        Some(value) => value,
        None => return Err(overflow),
    };
    let peak = match second.checked_add(cache) {
        Some(value) => value,
        None => return Err(overflow),
    };
    if peak > limits.max_working_bytes {
        return Err(IndexError::Incomplete { limit: limits.max_working_bytes, observed: peak });
    }
    Ok(())
}


/// Admits verifying a genesis backing against CAS: the retained view plus
/// the verification chunk must fit the working limit.
pub fn admit_genesis_verification(retained: u64, cas_chunk: u64, limits: IndexLimits) -> (result:
    Result<(), IndexError>)
    ensures
        result == match admit_total(retained + cas_chunk, limits.max_working_bytes) {
            Ok(_) => Ok::<(), IndexError>(()),
            Err(error) => Err(error),
        },
{
    let peak = match retained.checked_add(cas_chunk) {
        Some(peak) => peak,
        None => {
            return Err(
                IndexError::Incomplete { limit: limits.max_working_bytes, observed: u64::MAX },
            )
        },
    };
    if peak > limits.max_working_bytes {
        return Err(IndexError::Incomplete { limit: limits.max_working_bytes, observed: peak });
    }
    Ok(())
}

/// The larger of the journal's line buffer and the genesis backing (a
/// backing longer than `u64` counts as `u64::MAX`, no backing as zero).
pub open spec fn insert_tuple_bound(line_buffer: u64, genesis_len: Option<usize>) -> int {
    let genesis: int = match genesis_len {
        Some(len) => if len <= u64::MAX {
            len as int
        } else {
            u64::MAX as int
        },
        None => 0,
    };
    if line_buffer >= genesis {
        line_buffer as int
    } else {
        genesis
    }
}

/// What a streaming rebuild keeps while it projects: the retained view,
/// the journal's line buffer and canonical scratch, and twice the largest
/// tuple inserted (its fields and the owned SQL parameters made of them).
/// An overflow is refused against the working limit.
pub fn rebuild_projection_retained(
    retained: u64,
    line_buffer: u64,
    canonical_scratch: u64,
    genesis_len: Option<usize>,
    limits: IndexLimits,
) -> (result: Result<u64, IndexError>)
    ensures
        ({
            let total = retained + line_buffer + canonical_scratch + 2 * insert_tuple_bound(
                line_buffer,
                genesis_len,
            );
            &&& 2 * insert_tuple_bound(line_buffer, genesis_len) > u64::MAX || total > u64::MAX
                ==> result == Err::<u64, IndexError>(
                IndexError::Incomplete { limit: limits.max_working_bytes, observed: u64::MAX },
            )
            &&& total <= u64::MAX ==> result == Ok::<u64, IndexError>(total as u64)
        }),
{
    let genesis: u64 = match genesis_len {
        Some(len) => if len as u64 as usize == len {
            len as u64
        } else {
            u64::MAX
        },
        None => 0,
    };
    let largest = if line_buffer >= genesis {
        line_buffer
    } else {
        genesis
    };
    let refusal = IndexError::Incomplete { limit: limits.max_working_bytes, observed: u64::MAX };
    let tuple = match largest.checked_mul(2) {
        Some(tuple) => tuple,
        None => return Err(refusal),
    };
    let total: u128 = retained as u128 + line_buffer as u128 + canonical_scratch as u128
        + tuple as u128;
    if total > 0xffff_ffff_ffff_ffff {
        return Err(refusal);
    }
    Ok(total as u64)
}

/// The bytes a marker's fields requested from the allocator, summed; a sum
/// beyond `usize` is out of range.
pub fn marker_requested_capacity(capacities: &[usize]) -> (result: Result<u64, IndexError>)
    ensures
        usize_total(capacities@) <= usize::MAX ==> result == Ok::<u64, IndexError>(
            usize_total(capacities@) as u64,
        ),
        usize_total(capacities@) > usize::MAX ==> result == Err::<u64, IndexError>(
            IndexError::IntegerOutOfRange,
        ),
{
    let mut total: usize = 0;
    let mut k: usize = 0;
    while k < capacities.len()
        invariant
            k <= capacities@.len(),
            total == usize_total(capacities@.subrange(0, k as int)),
        decreases capacities@.len() - k,
    {
        proof {
            assert(capacities@.subrange(0, k + 1int).drop_last() =~= capacities@.subrange(
                0,
                k as int,
            ));
        }
        total = match total.checked_add(capacities[k]) {
            Some(total) => total,
            None => {
                proof {
                    lemma_usize_total_prefix(capacities@, k + 1int);
                }
                return Err(IndexError::IntegerOutOfRange);
            },
        };
        k += 1;
    }
    proof {
        assert(capacities@.subrange(0, capacities@.len() as int) =~= capacities@);
    }
    Ok(total as u64)
}

pub open spec fn usize_total(values: Seq<usize>) -> int
    decreases values.len(),
{
    if values.len() == 0 {
        0
    } else {
        usize_total(values.drop_last()) + values.last()
    }
}

/// A prefix never sums to more than the whole.
pub proof fn lemma_usize_total_prefix(values: Seq<usize>, k: int)
    requires
        0 <= k <= values.len(),
    ensures
        usize_total(values.subrange(0, k)) <= usize_total(values),
    decreases values.len() - k,
{
    if k < values.len() {
        assert(values.subrange(0, k + 1).drop_last() =~= values.subrange(0, k));
        lemma_usize_total_prefix(values, k + 1);
    } else {
        assert(values.subrange(0, k) =~= values);
    }
}

/// What a streaming rebuild keeps while it publishes: the retained view and
/// the rebuilt marker's requested capacity.
pub fn publication_retained(retained: u64, requested: u64, limits: IndexLimits) -> (result: Result<
    u64,
    IndexError,
>)
    ensures
        retained + requested > u64::MAX ==> result == Err::<u64, IndexError>(
            IndexError::Incomplete { limit: limits.max_working_bytes, observed: u64::MAX },
        ),
        retained + requested <= u64::MAX ==> result == Ok::<u64, IndexError>(
            (retained + requested) as u64,
        ),
{
    match retained.checked_add(requested) {
        Some(total) => Ok(total),
        None => Err(IndexError::Incomplete { limit: limits.max_working_bytes, observed: u64::MAX }),
    }
}
/// Every coherent set of limits whose tripled image and one-KiB cache fit
/// in `u64` reserves its build cache, fits the one-KiB cache beside it, and
/// admits a build connection with nothing retained: the exact serialize
/// peak of three images and the cache never exceeds the working limit.
pub proof fn lemma_coherent_limits_admit_build(limits: IndexLimits)
    requires
        limits_coherent(limits),
        3 * limits.max_serialized_bytes + 1024 <= u64::MAX,
    ensures
        build_reservation(limits, 0) == Some(3 * limits.max_serialized_bytes),
        cache_fits(limits, (3 * limits.max_serialized_bytes) as u64),
        3 * limits.max_serialized_bytes + 1024 <= limits.max_working_bytes,
        admit_total(build_peak(limits, 0), limits.max_working_bytes) == Ok::<u64, IndexError>(
            (limits.max_serialized_bytes + 1024) as u64,
        ),
{
}

} // verus!
