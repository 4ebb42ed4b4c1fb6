//! Fail-closed classification of image versions, directory entries, file
//! metadata and lower-level errors.

use vstd::prelude::*;
use vstd::string::StringSliceAdditionalSpecFns;
use crate::candidate::{is_candidate_name, is_candidate_name_bytes};
use crate::error::IndexError;
use crate::outside::{sqlite_constraint_primarykey, sqlite_constraint_unique, sqlite_error_code};

verus! {

/// Schema version a current (v3) image carries.
pub const INDEX_SCHEMA_VERSION: u32 = 3;

/// Schema version of the authority-bound (v4) projection.
pub const INDEX_SCHEMA_VERSION_V4: u32 = 4;

/// Entry name of the index lock file.
pub const LOCK_FILE: &'static str = "index.lock";

/// Entry name of the active image.
pub const ACTIVE_FILE: &'static str = "reviewgraphen.sqlite";

/// Projection contract written into every v3 marker.
pub const PROJECTION_CONTRACT_VERSION: &'static str = "reviewgraphen.index_projection.v3";

/// Byte-wise equality of two strings.
pub fn str_eq(left: &str, right: &str) -> (result: bool)
    ensures
        result == (left.spec_bytes() == right.spec_bytes()),
{
    let a = left.as_bytes();
    let b = right.as_bytes();
    if a.len() != b.len() {
        return false;
    }
    let mut i: usize = 0;
    while i < a.len()
        invariant
            a@ == left.spec_bytes(),
            b@ == right.spec_bytes(),
            a@.len() == b@.len(),
            i <= a@.len(),
            forall|j: int| 0 <= j < i ==> a@[j] == #[trigger] b@[j],
        decreases a@.len() - i,
    {
        if a[i] != b[i] {
            return false;
        }
        i += 1;
    }
    proof {
        assert(a@ =~= b@);
    }
    true
}

/// A reader's decision on a reconstructed image's `user_version`, before
/// anything else is read from it: an older schema of this store must be
/// rebuilt, never migrated in place; the reader's own schema is accepted;
/// any other value is corrupt.
pub fn classify_user_version(version: i64, required: u32) -> (result: Result<(), IndexError>)
    ensures
        1 <= version < required ==> result == Err::<(), IndexError>(
            IndexError::RebuildRequired { found: version as u32, required },
        ),
        version == required ==> result == Ok::<(), IndexError>(()),
        version != required && !(1 <= version < required) ==> result == Err::<(), IndexError>(
            IndexError::CorruptIndex,
        ),
{
    if 1 <= version && version < required as i64 {
        return Err(IndexError::RebuildRequired { found: version as u32, required });
    }
    if version != required as i64 {
        return Err(IndexError::CorruptIndex);
    }
    Ok(())
}

/// The v3 reader's decision on an image's `user_version`: the two older
/// schemas must be rebuilt, any other foreign version is corrupt.
pub fn classify_v3_user_version(version: i64) -> (result: Result<(), IndexError>)
    ensures
        (version == 1 || version == 2) ==> result == Err::<(), IndexError>(
            IndexError::RebuildRequired { found: version as u32, required: INDEX_SCHEMA_VERSION },
        ),
        version == 3 ==> result == Ok::<(), IndexError>(()),
        !(1 <= version <= 3) ==> result == Err::<(), IndexError>(IndexError::CorruptIndex),
{
    classify_user_version(version, INDEX_SCHEMA_VERSION)
}

/// The v4 reader's decision on an image's `user_version`: every older
/// schema, the frozen v3 one included, must be rebuilt; anything but v4
/// otherwise is corrupt.
pub fn classify_v4_user_version(version: i64) -> (result: Result<(), IndexError>)
    ensures
        1 <= version <= 3 ==> result == Err::<(), IndexError>(
            IndexError::RebuildRequired { found: version as u32, required: INDEX_SCHEMA_VERSION_V4 },
        ),
        version == 4 ==> result == Ok::<(), IndexError>(()),
        !(1 <= version <= 4) ==> result == Err::<(), IndexError>(IndexError::CorruptIndex),
{
    classify_user_version(version, INDEX_SCHEMA_VERSION_V4)
}

/// Checks the singleton marker row of a v3 image read back from SQLite.
pub fn validate_marker_header(
    user_version: i64,
    marker_rows: i64,
    index_schema_version: u64,
    projection_contract_version: &str,
) -> (result: Result<(), IndexError>)
    ensures
        !(1 <= user_version <= 3) ==> result == Err::<(), IndexError>(IndexError::CorruptIndex),
        (user_version == 1 || user_version == 2) ==> result == Err::<(), IndexError>(
            IndexError::RebuildRequired {
                found: user_version as u32,
                required: INDEX_SCHEMA_VERSION,
            },
        ),
        user_version == 3 ==> (result is Ok <==> (marker_rows == 1 && index_schema_version == 3
            && projection_contract_version.spec_bytes()
            == PROJECTION_CONTRACT_VERSION.spec_bytes())),
        user_version == 3 && result is Err ==> result == Err::<(), IndexError>(
            IndexError::CorruptIndex,
        ),
{
    match classify_v3_user_version(user_version) {
        Ok(()) => {},
        Err(error) => return Err(error),
    }
    if marker_rows != 1 {
        return Err(IndexError::CorruptIndex);
    }
    if index_schema_version != user_version as u64 || user_version as u64
        != INDEX_SCHEMA_VERSION as u64 || !str_eq(
        projection_contract_version,
        PROJECTION_CONTRACT_VERSION,
    ) {
        return Err(IndexError::CorruptIndex);
    }
    Ok(())
}

/// How much of the domain an image projects.
#[derive(Clone, Copy, Debug, PartialEq, Eq, Structural)]
pub enum ProjectionMode {
    /// Event metadata only: every domain table is empty.
    MetadataOnly,
    /// The full domain: one universe, and program objects and obligations.
    Domain,
}

pub const METADATA_ONLY_MODE: &'static str = "v1_event_metadata_only";

pub const DOMAIN_MODE: &'static str = "v2_domain";

/// The projection mode a marker names; any other mode is corruption.
pub fn projection_mode(mode: &str) -> (result: Result<ProjectionMode, IndexError>)
    ensures
        mode.spec_bytes() == METADATA_ONLY_MODE.spec_bytes() ==> result == Ok::<
            ProjectionMode,
            IndexError,
        >(ProjectionMode::MetadataOnly),
        mode.spec_bytes() != METADATA_ONLY_MODE.spec_bytes() && mode.spec_bytes()
            == DOMAIN_MODE.spec_bytes() ==> result == Ok::<ProjectionMode, IndexError>(
            ProjectionMode::Domain,
        ),
        mode.spec_bytes() != METADATA_ONLY_MODE.spec_bytes() && mode.spec_bytes()
            != DOMAIN_MODE.spec_bytes() ==> result == Err::<ProjectionMode, IndexError>(
            IndexError::CorruptIndex,
        ),
{
    if str_eq(mode, METADATA_ONLY_MODE) {
        Ok(ProjectionMode::MetadataOnly)
    } else if str_eq(mode, DOMAIN_MODE) {
        Ok(ProjectionMode::Domain)
    } else {
        Err(IndexError::CorruptIndex)
    }
}

/// A domain table of a metadata-only image must be empty.
pub fn check_metadata_only_table(count: i64) -> (result: Result<(), IndexError>)
    ensures
        result == if count == 0 {
            Ok::<(), IndexError>(())
        } else {
            Err::<(), IndexError>(IndexError::CorruptIndex)
        },
{
    if count != 0 {
        return Err(IndexError::CorruptIndex);
    }
    Ok(())
}

/// A domain image holds exactly one universe, and program objects and
/// obligations.
pub fn check_domain_tables(universes: i64, program_objects: i64, obligations: i64) -> (result:
    Result<(), IndexError>)
    ensures
        result == if universes == 1 && program_objects != 0 && obligations != 0 {
            Ok::<(), IndexError>(())
        } else {
            Err::<(), IndexError>(IndexError::CorruptIndex)
        },
{
    if universes != 1 || program_objects == 0 || obligations == 0 {
        return Err(IndexError::CorruptIndex);
    }
    Ok(())
}

/// The first event of a domain stream.
pub const GENESIS_PAYLOAD_KIND: &'static str = "run_genesis_manifest";

/// Typed envelope metadata retained by the derived index, identifiers and
/// hashes in their text form.
pub struct IndexEvent {
    pub sequence: u64,
    pub event_id: String,
    pub schema: String,
    pub event_hash: String,
    pub payload_hash: String,
    pub payload_kind: String,
    pub actor: String,
    pub logical_time: u64,
}

/// Whether the event rows read back from a v3 image agree with its marker:
/// exactly `event_count` of them, every one under the marker's event
/// contract, and, in a domain image, a stream opened by the genesis
/// manifest at sequence 1.
pub open spec fn events_agree(
    events: Seq<IndexEvent>,
    event_count: u64,
    event_contract_version: Seq<u8>,
    projection_mode: Seq<u8>,
) -> bool {
    &&& events.len() == event_count
    &&& forall|i: int|
        0 <= i < events.len() ==> vstd::utf8::encode_utf8((#[trigger] events[i]).schema@) == event_contract_version
    &&& projection_mode == DOMAIN_MODE.spec_bytes() ==> events.len() > 0 && events[0].sequence
        == 1 && vstd::utf8::encode_utf8(events[0].payload_kind@) == GENESIS_PAYLOAD_KIND.spec_bytes()
}

/// Checks the event rows read back from a v3 image against its marker; any
/// disagreement is corruption.
pub fn check_event_rows(
    events: &[IndexEvent],
    event_count: u64,
    event_contract_version: &str,
    projection_mode: &str,
) -> (result: Result<(), IndexError>)
    ensures
        result == if events_agree(
            events@,
            event_count,
            event_contract_version.spec_bytes(),
            projection_mode.spec_bytes(),
        ) {
            Ok::<(), IndexError>(())
        } else {
            Err::<(), IndexError>(IndexError::CorruptIndex)
        },
{
    if events.len() as u64 != event_count {
        return Err(IndexError::CorruptIndex);
    }
    let mut i: usize = 0;
    while i < events.len()
        invariant
            i <= events@.len(),
            forall|j: int|
                0 <= j < i ==> vstd::utf8::encode_utf8((#[trigger] events@[j]).schema@)
                    == event_contract_version.spec_bytes(),
        decreases events@.len() - i,
    {
        if !str_eq(events[i].schema.as_str(), event_contract_version) {
            return Err(IndexError::CorruptIndex);
        }
        i += 1;
    }
    if str_eq(projection_mode, DOMAIN_MODE) {
        if events.len() == 0 {
            return Err(IndexError::CorruptIndex);
        }
        if events[0].sequence != 1 || !str_eq(events[0].payload_kind.as_str(), GENESIS_PAYLOAD_KIND) {
            return Err(IndexError::CorruptIndex);
        }
    }
    Ok(())
}

/// Checks a freshly built connection's marker against the schema it was
/// built with; a mismatch is a projection contract violation.
pub fn validate_index_marker_version(
    marker_rows: i64,
    user_version: i64,
    schema_version: i64,
    projection_contract_version: &str,
) -> (result: Result<(), IndexError>)
    ensures
        result is Ok <==> (marker_rows == 1 && user_version == 3 && schema_version == 3
            && projection_contract_version.spec_bytes()
            == PROJECTION_CONTRACT_VERSION.spec_bytes()),
        result is Err ==> result == Err::<(), IndexError>(
            IndexError::ProjectionContractViolation,
        ),
{
    if marker_rows != 1 || user_version != INDEX_SCHEMA_VERSION as i64 || schema_version
        != INDEX_SCHEMA_VERSION as i64 || !str_eq(
        projection_contract_version,
        PROJECTION_CONTRACT_VERSION,
    ) {
        return Err(IndexError::ProjectionContractViolation);
    }
    Ok(())
}

/// Whether an error raised while reading an external image keeps its own
/// meaning; every other failure of untrusted bytes reads as corruption.
pub open spec fn keeps_meaning(error: IndexError) -> bool {
    ||| error is Incomplete
    ||| error is InvalidLimits
    ||| error is IntegerOutOfRange
    ||| error is RebuildRequired
}

/// The error an image read from outside reports: the refusals that keep
/// their meaning pass through, every other failure is corruption.
pub fn normalize_external_image_error(error: IndexError) -> (result: IndexError)
    ensures
        keeps_meaning(error) ==> result == error,
        !keeps_meaning(error) ==> result == IndexError::CorruptIndex,
{
    match error {
        IndexError::Incomplete { .. }
        | IndexError::InvalidLimits
        | IndexError::IntegerOutOfRange
        | IndexError::RebuildRequired { .. } => error,
        _ => IndexError::CorruptIndex,
    }
}

/// The classes of SQLite result codes that the index tells apart.
#[derive(Clone, Copy, Debug, PartialEq, Eq, Structural)]
pub enum SqliteCode {
    ConstraintViolation,
    DiskFull,
    TooBig,
    OutOfMemory,
    DatabaseCorrupt,
    NotADatabase,
    SchemaChanged,
    TypeMismatch,
    Other,
}

/// The class of an extended SQLite result code, read from its primary
/// code (the low byte): `SQLITE_CONSTRAINT`, `SQLITE_FULL`,
/// `SQLITE_TOOBIG`, `SQLITE_NOMEM`, `SQLITE_CORRUPT`, `SQLITE_NOTADB`,
/// `SQLITE_SCHEMA` and `SQLITE_MISMATCH`, every other code alike.
pub open spec fn sqlite_code_of(extended: i32) -> SqliteCode {
    let primary = extended & 0xff;
    if primary == 19 {
        SqliteCode::ConstraintViolation
    } else if primary == 13 {
        SqliteCode::DiskFull
    } else if primary == 18 {
        SqliteCode::TooBig
    } else if primary == 7 {
        SqliteCode::OutOfMemory
    } else if primary == 11 {
        SqliteCode::DatabaseCorrupt
    } else if primary == 26 {
        SqliteCode::NotADatabase
    } else if primary == 17 {
        SqliteCode::SchemaChanged
    } else if primary == 20 {
        SqliteCode::TypeMismatch
    } else {
        SqliteCode::Other
    }
}

/// `SQLITE_CONSTRAINT_PRIMARYKEY` and `SQLITE_CONSTRAINT_UNIQUE`.
pub const SQLITE_CONSTRAINT_PRIMARYKEY: i32 = 1555;

pub const SQLITE_CONSTRAINT_UNIQUE: i32 = 2067;

/// The index error for a SQLite failure with this extended result code:
/// a primary-key or unique conflict is a duplicate key, any other
/// constraint failure violates the projection contract, exhausted space is
/// `Incomplete`, a damaged or foreign image is corruption, and anything
/// else stays a SQLite error carrying its code.
pub fn map_sqlite_failure(extended: i32) -> (result: IndexError)
    ensures
        result == match sqlite_code_of(extended) {
            SqliteCode::ConstraintViolation => if extended == SQLITE_CONSTRAINT_PRIMARYKEY
                || extended == SQLITE_CONSTRAINT_UNIQUE {
                IndexError::DuplicateIndexKey
            } else {
                IndexError::ProjectionContractViolation
            },
            SqliteCode::DiskFull | SqliteCode::TooBig | SqliteCode::OutOfMemory => {
                IndexError::Incomplete { limit: 0, observed: 0 }
            },
            SqliteCode::DatabaseCorrupt
            | SqliteCode::NotADatabase
            | SqliteCode::SchemaChanged
            | SqliteCode::TypeMismatch => IndexError::CorruptIndex,
            SqliteCode::Other => IndexError::Sql { extended_code: Some(extended) },
        },
{
    match sqlite_error_code(extended) {
        SqliteCode::ConstraintViolation => {
            if extended == sqlite_constraint_primarykey() || extended == sqlite_constraint_unique() {
                IndexError::DuplicateIndexKey
            } else {
                IndexError::ProjectionContractViolation
            }
        },
        SqliteCode::DiskFull | SqliteCode::TooBig | SqliteCode::OutOfMemory => {
            IndexError::Incomplete { limit: 0, observed: 0 }
        },
        SqliteCode::DatabaseCorrupt
        | SqliteCode::NotADatabase
        | SqliteCode::SchemaChanged
        | SqliteCode::TypeMismatch => IndexError::CorruptIndex,
        SqliteCode::Other => IndexError::Sql { extended_code: Some(extended) },
    }
}

/// `ENOENT`, `ELOOP` and `ENOTDIR` on Linux.
pub const ENOENT: i32 = 2;

pub const ELOOP: i32 = 40;

pub const ENOTDIR: i32 = 20;

/// Maps the `errno` of a descriptor-relative entry lookup: a missing entry
/// is `Missing`, a symlink or non-directory in the path is corruption.
pub fn map_entry_error(errno: i32) -> (result: IndexError)
    ensures
        errno == ENOENT ==> result == IndexError::Missing,
        (errno == ELOOP || errno == ENOTDIR) ==> result == IndexError::CorruptIndex,
        errno != ENOENT && errno != ELOOP && errno != ENOTDIR ==> result == (IndexError::Store {
            errno,
        }),
{
    if errno == ENOENT {
        IndexError::Missing
    } else if errno == ELOOP || errno == ENOTDIR {
        IndexError::CorruptIndex
    } else {
        IndexError::Store { errno }
    }
}

/// File types as `st_mode` encodes them.
#[derive(Clone, Copy, Debug, PartialEq, Eq, Structural)]
pub enum FileType {
    RegularFile,
    Directory,
    Symlink,
    Fifo,
    Socket,
    CharacterDevice,
    BlockDevice,
    Unknown,
}

pub const S_IFMT: u32 = 0o170000;

pub open spec fn spec_file_type(st_mode: u32) -> FileType {
    let bits = st_mode & S_IFMT;
    if bits == 0o100000 {
        FileType::RegularFile
    } else if bits == 0o040000 {
        FileType::Directory
    } else if bits == 0o120000 {
        FileType::Symlink
    } else if bits == 0o010000 {
        FileType::Fifo
    } else if bits == 0o140000 {
        FileType::Socket
    } else if bits == 0o020000 {
        FileType::CharacterDevice
    } else if bits == 0o060000 {
        FileType::BlockDevice
    } else {
        FileType::Unknown
    }
}

/// The file type of a raw `st_mode`.
pub fn file_type_from_raw_mode(st_mode: u32) -> (result: FileType)
    ensures
        result == spec_file_type(st_mode),
{
    let bits = st_mode & S_IFMT;
    if bits == 0o100000 {
        FileType::RegularFile
    } else if bits == 0o040000 {
        FileType::Directory
    } else if bits == 0o120000 {
        FileType::Symlink
    } else if bits == 0o010000 {
        FileType::Fifo
    } else if bits == 0o140000 {
        FileType::Socket
    } else if bits == 0o020000 {
        FileType::CharacterDevice
    } else if bits == 0o060000 {
        FileType::BlockDevice
    } else {
        FileType::Unknown
    }
}

/// The metadata of one index entry that admission inspects.
#[derive(Clone, Copy, Debug, PartialEq, Eq)]
pub struct EntryStat {
    pub st_mode: u32,
    pub st_uid: u32,
    pub st_gid: u32,
    pub st_dev: u64,
    pub st_ino: u64,
    pub st_size: i64,
}

/// An index entry is admitted only with the expected type, owned by the
/// effective user and group, with exactly the expected permission bits.
pub open spec fn stat_admitted(stat: EntryStat, euid: u32, egid: u32, kind: FileType, mode: u32) -> bool {
    &&& spec_file_type(stat.st_mode) == kind
    &&& stat.st_uid == euid
    &&& stat.st_gid == egid
    &&& stat.st_mode & 0o7777 == mode
}

/// Admits an index entry of the expected kind and permission bits, owned by
/// the effective user and group; anything else is corruption.
pub fn verify_index_stat(stat: &EntryStat, euid: u32, egid: u32, kind: FileType, mode: u32) -> (result:
    Result<(), IndexError>)
    ensures
        stat_admitted(*stat, euid, egid, kind, mode) ==> result == Ok::<(), IndexError>(()),
        !stat_admitted(*stat, euid, egid, kind, mode) ==> result == Err::<(), IndexError>(
            IndexError::CorruptIndex,
        ),
{
    if file_type_from_raw_mode(stat.st_mode) != kind || stat.st_uid != euid || stat.st_gid != egid
        || stat.st_mode & 0o7777 != mode {
        return Err(IndexError::CorruptIndex);
    }
    Ok(())
}

/// Two observations of an entry must name the same inode.
pub fn ensure_same_inode(left: &EntryStat, right: &EntryStat) -> (result: Result<(), IndexError>)
    ensures
        (left.st_dev == right.st_dev && left.st_ino == right.st_ino) ==> result == Ok::<
            (),
            IndexError,
        >(()),
        !(left.st_dev == right.st_dev && left.st_ino == right.st_ino) ==> result == Err::<
            (),
            IndexError,
        >(IndexError::IndexPathRace),
{
    if left.st_dev != right.st_dev || left.st_ino != right.st_ino {
        Err(IndexError::IndexPathRace)
    } else {
        Ok(())
    }
}

/// What an index directory entry is.
#[derive(Clone, Copy, Debug, PartialEq, Eq, Structural)]
pub enum EntryClass {
    /// `.`, `..`, the lock file or the active image.
    Fixed,
    /// A store-owned publication candidate.
    Candidate,
    /// Anything else, which the index never tolerates.
    Foreign,
}

pub open spec fn spec_entry_class(name: Seq<u8>) -> EntryClass {
    if name == ".".spec_bytes() || name == "..".spec_bytes() || name == LOCK_FILE.spec_bytes()
        || name == ACTIVE_FILE.spec_bytes() {
        EntryClass::Fixed
    } else if is_candidate_name_bytes(name) {
        EntryClass::Candidate
    } else {
        EntryClass::Foreign
    }
}

/// What an entry of the index directory is, by its name.
pub fn classify_entry_name(name: &str) -> (result: EntryClass)
    ensures
        result == spec_entry_class(name.spec_bytes()),
{
    if str_eq(name, ".") || str_eq(name, "..") || str_eq(name, LOCK_FILE) || str_eq(
        name,
        ACTIVE_FILE,
    ) {
        EntryClass::Fixed
    } else if is_candidate_name(name) {
        EntryClass::Candidate
    } else {
        EntryClass::Foreign
    }
}

/// Bounds on the candidate garbage an audit may scan.
#[derive(Clone, Copy, Debug, PartialEq, Eq)]
pub struct CandidateScanLimits {
    pub max_tmp_gc_entries: u64,
    pub max_tmp_gc_scan_bytes: u64,
}

/// Running totals of one candidate audit.
#[derive(Clone, Copy, Debug, PartialEq, Eq)]
pub struct CandidateAudit {
    pub count: u64,
    pub apparent_bytes: u64,
}

impl CandidateAudit {
    pub fn new() -> (result: CandidateAudit)
        ensures
            result.count == 0 && result.apparent_bytes == 0,
    {
        CandidateAudit { count: 0, apparent_bytes: 0 }
    }

    /// Counts one candidate of `st_size` bytes against the scan bounds.
    pub fn count_candidate(&mut self, st_size: i64, limits: CandidateScanLimits) -> (result: Result<
        (),
        IndexError,
    >)
        ensures
            old(self).count + 1 > u64::MAX ==> result == Err::<(), IndexError>(
                IndexError::Incomplete { limit: limits.max_tmp_gc_entries, observed: u64::MAX },
            ),
            old(self).count + 1 <= u64::MAX && old(self).count + 1 > limits.max_tmp_gc_entries
                ==> result == Err::<(), IndexError>(
                IndexError::Incomplete {
                    limit: limits.max_tmp_gc_entries,
                    observed: (old(self).count + 1) as u64,
                },
            ),
            old(self).count + 1 <= limits.max_tmp_gc_entries && st_size < 0 ==> result == Err::<
                (),
                IndexError,
            >(IndexError::CorruptIndex),
            old(self).count + 1 <= limits.max_tmp_gc_entries && st_size >= 0 ==> {
                &&& final(self).count == old(self).count + 1
                &&& old(self).apparent_bytes + st_size > u64::MAX ==> result == Err::<
                    (),
                    IndexError,
                >(
                    IndexError::Incomplete {
                        limit: limits.max_tmp_gc_scan_bytes,
                        observed: u64::MAX,
                    },
                )
                &&& old(self).apparent_bytes + st_size <= u64::MAX ==> final(self).apparent_bytes
                    == old(self).apparent_bytes + st_size
                &&& old(self).apparent_bytes + st_size <= u64::MAX && old(self).apparent_bytes
                    + st_size > limits.max_tmp_gc_scan_bytes ==> result == Err::<(), IndexError>(
                    IndexError::Incomplete {
                        limit: limits.max_tmp_gc_scan_bytes,
                        observed: (old(self).apparent_bytes + st_size) as u64,
                    },
                )
                &&& old(self).apparent_bytes + st_size <= limits.max_tmp_gc_scan_bytes ==> result
                    == Ok::<(), IndexError>(())
            },
    {
        self.count = match self.count.checked_add(1) {
            Some(value) => value,
            None => {
                return Err(
                    IndexError::Incomplete {
                        limit: limits.max_tmp_gc_entries,
                        observed: u64::MAX,
                    },
                )
            },
        };
        if self.count > limits.max_tmp_gc_entries {
            return Err(
                IndexError::Incomplete { limit: limits.max_tmp_gc_entries, observed: self.count },
            );
        }
        if st_size < 0 {
            return Err(IndexError::CorruptIndex);
        }
        self.apparent_bytes = match self.apparent_bytes.checked_add(st_size as u64) {
            Some(value) => value,
            None => {
                return Err(
                    IndexError::Incomplete {
                        limit: limits.max_tmp_gc_scan_bytes,
                        observed: u64::MAX,
                    },
                )
            },
        };
        if self.apparent_bytes > limits.max_tmp_gc_scan_bytes {
            return Err(
                IndexError::Incomplete {
                    limit: limits.max_tmp_gc_scan_bytes,
                    observed: self.apparent_bytes,
                },
            );
        }
        Ok(())
    }
}

/// The journal tail an image is bound to.
pub struct TailBinding {
    pub run_id: String,
    pub genesis_hash: String,
    pub confirmed_offset: u64,
    pub tail_hash: String,
    pub event_count: u64,
    pub event_contract_version: String,
}

pub open spec fn same_tail(indexed: &TailBinding, committed: &TailBinding) -> bool {
    &&& indexed.run_id@ == committed.run_id@
    &&& indexed.genesis_hash@ == committed.genesis_hash@
    &&& indexed.confirmed_offset == committed.confirmed_offset
    &&& indexed.tail_hash@ == committed.tail_hash@
    &&& indexed.event_count == committed.event_count
    &&& indexed.event_contract_version@ == committed.event_contract_version@
}

/// An image is served only when its marker names exactly the locked
/// journal tail; otherwise it is stale, reported with both positions.
pub fn check_committed_tail(indexed: &TailBinding, committed: &TailBinding) -> (result: Result<
    (),
    IndexError,
>)
    ensures
        same_tail(indexed, committed) ==> result is Ok,
        !same_tail(indexed, committed) ==> (result matches Err(IndexError::CommittedIndexStale {
            indexed_offset,
            indexed_tail,
            committed_offset,
            committed_tail,
        }) && indexed_offset == indexed.confirmed_offset && indexed_tail@ == indexed.tail_hash@
            && committed_offset == committed.confirmed_offset && committed_tail@
            == committed.tail_hash@),
{
    if indexed.run_id != committed.run_id || indexed.genesis_hash != committed.genesis_hash
        || indexed.confirmed_offset != committed.confirmed_offset || indexed.tail_hash
        != committed.tail_hash || indexed.event_count != committed.event_count
        || indexed.event_contract_version != committed.event_contract_version {
        return Err(
            IndexError::CommittedIndexStale {
                indexed_offset: indexed.confirmed_offset,
                indexed_tail: indexed.tail_hash.clone(),
                committed_offset: committed.confirmed_offset,
                committed_tail: committed.tail_hash.clone(),
            },
        );
    }
    Ok(())
}


/// Where a locked replay of the journal ended.
pub struct JournalPosition {
    pub confirmed_offset: u64,
    pub tail_hash: String,
    pub event_count: u64,
}

/// The second, comparing pass over the locked journal must end where the
/// first pass did; otherwise the journal moved underneath the lock.
pub fn check_replay_position(compared: &JournalPosition, certified: &JournalPosition) -> (result:
    Result<(), IndexError>)
    ensures
        result == if compared.confirmed_offset == certified.confirmed_offset && compared.tail_hash@
            == certified.tail_hash@ && compared.event_count == certified.event_count {
            Ok::<(), IndexError>(())
        } else {
            Err::<(), IndexError>(IndexError::IndexPathRace)
        },
{
    if compared.confirmed_offset != certified.confirmed_offset || compared.tail_hash
        != certified.tail_hash || compared.event_count != certified.event_count {
        return Err(IndexError::IndexPathRace);
    }
    Ok(())
}

} // verus!
