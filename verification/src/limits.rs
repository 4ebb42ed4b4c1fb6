use vstd::prelude::*;
use crate::error::IndexError;

verus! {

/// Size of one SQLite page of a derived image.
pub const PAGE_SIZE: u64 = 4096;

/// Bounds specific to the disposable SQLite projection.
#[derive(Clone, Copy, Debug, PartialEq, Eq)]
pub struct IndexLimits {
    pub max_rows: u64,
    pub max_serialized_bytes: u64,
    pub max_working_bytes: u64,
    pub max_query_bytes: u64,
    pub max_statement_bytes: u64,
}

/// The index-related part of the store's configured resource limits.
#[derive(Clone, Copy, Debug, PartialEq, Eq)]
pub struct StoreLimits {
    pub max_index_rows: u64,
    pub max_index_serialized_bytes: u64,
    pub max_index_working_bytes: u64,
    pub max_index_query_bytes: u64,
    pub max_index_statement_bytes: u64,
}

/// `3 * serialized + 1024`, or `u64::MAX` when that does not fit.
pub open spec fn working_floor(serialized: u64) -> int {
    if 3 * serialized + 1024 <= u64::MAX {
        3 * serialized + 1024
    } else {
        u64::MAX as int
    }
}

/// The coherence rules every admitted set of index limits satisfies.
pub open spec fn limits_coherent(l: IndexLimits) -> bool {
    &&& l.max_rows != 0
    &&& l.max_serialized_bytes >= PAGE_SIZE
    &&& l.max_working_bytes >= working_floor(l.max_serialized_bytes)
    &&& l.max_query_bytes != 0
    &&& l.max_query_bytes <= l.max_working_bytes
    &&& l.max_statement_bytes != 0
}

pub open spec fn limits_from_store(value: StoreLimits) -> IndexLimits {
    IndexLimits {
        max_rows: value.max_index_rows,
        max_serialized_bytes: value.max_index_serialized_bytes,
        max_working_bytes: value.max_index_working_bytes,
        max_query_bytes: value.max_index_query_bytes,
        max_statement_bytes: value.max_index_statement_bytes,
    }
}

impl IndexLimits {
    /// Builds index limits from the store's limits, refusing incoherent ones.
    pub fn try_from(value: StoreLimits) -> (result: Result<IndexLimits, IndexError>)
        ensures
            limits_coherent(limits_from_store(value)) ==> result == Ok::<IndexLimits, IndexError>(limits_from_store(value)),
            !limits_coherent(limits_from_store(value)) ==> result == Err::<IndexLimits, IndexError>(IndexError::InvalidLimits),
    {
        let limits = IndexLimits {
            max_rows: value.max_index_rows,
            max_serialized_bytes: value.max_index_serialized_bytes,
            max_working_bytes: value.max_index_working_bytes,
            max_query_bytes: value.max_index_query_bytes,
            max_statement_bytes: value.max_index_statement_bytes,
        };
        match limits.validate() {
            Ok(()) => Ok(limits),
            Err(error) => Err(error),
        }
    }

    /// Refuses limits that cannot hold one page, the serialize peak, or a
    /// query inside the working budget.
    pub fn validate(self) -> (result: Result<(), IndexError>)
        ensures
            result is Ok <==> limits_coherent(self),
            result is Err ==> result == Err::<(), IndexError>(IndexError::InvalidLimits),
    {
        let floor = match self.max_serialized_bytes.checked_mul(3) {
            Some(tripled) => match tripled.checked_add(1024) {
                Some(value) => value,
                None => u64::MAX,
            },
            None => u64::MAX,
        };
        if self.max_rows == 0 || self.max_serialized_bytes < PAGE_SIZE
            || self.max_working_bytes < floor || self.max_query_bytes == 0
            || self.max_query_bytes > self.max_working_bytes || self.max_statement_bytes == 0
        {
            return Err(IndexError::InvalidLimits);
        }
        Ok(())
    }

    /// The SQLite `max_page_count` these limits allow.
    pub fn max_pages(self) -> (result: Result<u64, IndexError>)
        ensures
            ({
                let pages = self.max_serialized_bytes / PAGE_SIZE;
                if pages == 0 || pages > i64::MAX {
                    result == Err::<u64, IndexError>(IndexError::InvalidLimits)
                } else {
                    result == Ok::<u64, IndexError>(pages)
                }
            }),
    {
        let pages = self.max_serialized_bytes / PAGE_SIZE;
        if pages == 0 || pages > i64::MAX as u64 {
            return Err(IndexError::InvalidLimits);
        }
        Ok(pages)
    }
}

/// `limits` with the working bound widened by three serialized images and
/// one KiB of cache, as the schema-v4 SQLite connection needs.
pub open spec fn v4_widened(limits: IndexLimits) -> IndexLimits {
    IndexLimits {
        max_working_bytes: (3 * limits.max_serialized_bytes + limits.max_working_bytes
            + 1024) as u64,
        ..limits
    }
}

/// The limits a schema-v4 SQLite connection runs under.
pub fn v4_sqlite_limits(limits: IndexLimits) -> (result: Result<IndexLimits, IndexError>)
    ensures
        3 * limits.max_serialized_bytes + limits.max_working_bytes + 1024 <= u64::MAX ==> result
            == Ok::<IndexLimits, IndexError>(v4_widened(limits)),
        3 * limits.max_serialized_bytes + limits.max_working_bytes + 1024 > u64::MAX ==> result
            == Err::<IndexLimits, IndexError>(IndexError::InvalidLimits),
{
    let mut limits = limits;
    let tripled = match limits.max_serialized_bytes.checked_mul(3) {
        Some(value) => value,
        None => return Err(IndexError::InvalidLimits),
    };
    let widened = match tripled.checked_add(limits.max_working_bytes) {
        Some(value) => value,
        None => return Err(IndexError::InvalidLimits),
    };
    limits.max_working_bytes = match widened.checked_add(1024) {
        Some(value) => value,
        None => return Err(IndexError::InvalidLimits),
    };
    Ok(limits)
}

/// An admitted derived-index handle: the coherent limits every later
/// rebuild or query runs under.  The descriptors of the index directory
/// are held beside it by the caller that opened them.
pub struct DerivedIndex {
    limits: IndexLimits,
}

impl View for DerivedIndex {
    type V = IndexLimits;

    closed spec fn view(&self) -> IndexLimits {
        self.limits
    }
}

impl DerivedIndex {
    /// Admits the store's limits for a derived index; incoherent limits
    /// are refused before the index directory is touched.
    pub fn open(store_limits: StoreLimits) -> (result: Result<DerivedIndex, IndexError>)
        ensures
            limits_coherent(limits_from_store(store_limits)) ==> (result matches Ok(index)
                && index@ == limits_from_store(store_limits)),
            !limits_coherent(limits_from_store(store_limits)) ==> (result matches Err(e) && e
                == IndexError::InvalidLimits),
    {
        match IndexLimits::try_from(store_limits) {
            Ok(limits) => Ok(DerivedIndex { limits }),
            Err(error) => Err(error),
        }
    }

    pub fn limits(&self) -> (result: IndexLimits)
        ensures
            result == self@,
    {
        self.limits
    }
}

/// Schema-v4 handle over the same admitted directory limits.
pub struct DerivedIndexV4 {
    inner: DerivedIndex,
}

impl View for DerivedIndexV4 {
    type V = IndexLimits;

    closed spec fn view(&self) -> IndexLimits {
        self.inner@
    }
}

impl DerivedIndexV4 {
    /// Admits the store's limits for a schema-v4 derived index.
    pub fn open(store_limits: StoreLimits) -> (result: Result<DerivedIndexV4, IndexError>)
        ensures
            limits_coherent(limits_from_store(store_limits)) ==> (result matches Ok(index)
                && index@ == limits_from_store(store_limits)),
            !limits_coherent(limits_from_store(store_limits)) ==> (result matches Err(e) && e
                == IndexError::InvalidLimits),
    {
        match DerivedIndex::open(store_limits) {
            Ok(inner) => Ok(DerivedIndexV4 { inner }),
            Err(error) => Err(error),
        }
    }

    pub fn limits(&self) -> (result: IndexLimits)
        ensures
            result == self@,
    {
        self.inner.limits()
    }
}

} // verus!
