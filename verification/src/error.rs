use vstd::prelude::*;

verus! {

/// Fail-closed errors for index admission, image handling, and projection.
///
/// Errors that originate in an operating-system call or in SQLite carry the
/// plain code that identifies them; hashes and identifiers are carried as
/// their canonical text.
#[derive(Debug, PartialEq, Eq)]
pub enum IndexError {
    /// The locked journal refused the operation.
    Journal,
    /// A store-level operating-system call failed with this raw `errno`.
    Store { errno: i32 },
    /// A derived-index filesystem read or write failed.
    Io,
    /// SQLite reported a failure that the index does not classify further.
    Sql { extended_code: Option<i32> },
    InvalidLimits,
    Missing,
    RebuildRequired { found: u32, required: u32 },
    CorruptIndex,
    IndexPathRace,
    ProjectionContractViolation,
    DuplicateIndexKey,
    PublicationDurabilityUncertain { run_id: String, tail_hash: String, image_hash: String },
    CommittedIndexStale {
        indexed_offset: u64,
        indexed_tail: String,
        committed_offset: u64,
        committed_tail: String,
    },
    Incomplete { limit: u64, observed: u64 },
    IntegerOutOfRange,
    UnsupportedPlatform,
}

/// The error every admission reports when a checked sum leaves `u64`.
pub open spec fn overflow_error(limit: u64) -> IndexError {
    IndexError::Incomplete { limit, observed: u64::MAX }
}

} // verus!
