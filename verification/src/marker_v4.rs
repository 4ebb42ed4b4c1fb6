//! The schema-v4 marker read back from an image: its header, the image's
//! integrity, and how the committed marker stands against the journal.

use vstd::prelude::*;
use vstd::string::StringSliceAdditionalSpecFns;
use crate::classify::{str_eq, INDEX_SCHEMA_VERSION_V4};
use crate::error::IndexError;

verus! {

/// The projection contract of a v4 image.
pub const PROJECTION_CONTRACT_VERSION_V4: &'static str = "reviewgraphen.index_projection.v4";

/// The event contract a v4 image projects.
pub const EVENT_CONTRACT_VERSION_V3: &'static str = "reviewgraphen.review_event.v3";

/// The projection mode of a v4 image.
pub const PROJECTION_MODE_V3: &'static str = "v3_authority";

/// What SQLite's integrity check reports for a sound image.
pub const INTEGRITY_OK: &'static str = "ok";

/// Whether the header of a v4 marker names this schema and its contracts.
pub open spec fn marker_v4_header_ok(
    index_schema_version: i64,
    projection_contract_version: Seq<u8>,
    event_contract_version: Seq<u8>,
    projection_mode: Seq<u8>,
) -> bool {
    &&& index_schema_version == INDEX_SCHEMA_VERSION_V4
    &&& projection_contract_version == PROJECTION_CONTRACT_VERSION_V4.spec_bytes()
    &&& event_contract_version == EVENT_CONTRACT_VERSION_V3.spec_bytes()
    &&& projection_mode == PROJECTION_MODE_V3.spec_bytes()
}

/// Checks the header of the marker stored in a v4 image; anything else is
/// corruption.
pub fn check_marker_v4_header(
    index_schema_version: i64,
    projection_contract_version: &str,
    event_contract_version: &str,
    projection_mode: &str,
) -> (result: Result<(), IndexError>)
    ensures
        result == if marker_v4_header_ok(
            index_schema_version,
            projection_contract_version.spec_bytes(),
            event_contract_version.spec_bytes(),
            projection_mode.spec_bytes(),
        ) {
            Ok::<(), IndexError>(())
        } else {
            Err::<(), IndexError>(IndexError::CorruptIndex)
        },
{
    if index_schema_version != INDEX_SCHEMA_VERSION_V4 as i64 || !str_eq(
        projection_contract_version,
        PROJECTION_CONTRACT_VERSION_V4,
    ) || !str_eq(event_contract_version, EVENT_CONTRACT_VERSION_V3) || !str_eq(
        projection_mode,
        PROJECTION_MODE_V3,
    ) {
        return Err(IndexError::CorruptIndex);
    }
    Ok(())
}

/// An image is sound only when SQLite's integrity check reports exactly
/// `ok` and no foreign key is violated; otherwise `refusal` is reported
/// (corruption for an image read back, a contract violation for one just
/// built).
pub fn check_image_integrity(integrity: &str, foreign_key_violation: bool, refusal: IndexError) -> (result:
    Result<(), IndexError>)
    ensures
        result == if integrity.spec_bytes() == INTEGRITY_OK.spec_bytes() && !foreign_key_violation {
            Ok::<(), IndexError>(())
        } else {
            Err::<(), IndexError>(refusal)
        },
{
    if !str_eq(integrity, INTEGRITY_OK) || foreign_key_violation {
        return Err(refusal);
    }
    Ok(())
}

/// A v4 marker as plain values: identifiers and hashes in their text form.
pub struct IndexMarkerV4 {
    pub index_schema_version: u64,
    pub sqlite_user_version: u64,
    pub projection_contract_version: String,
    pub event_contract_version: String,
    pub projection_mode: String,
    pub run_id: String,
    pub genesis_hash: String,
    pub confirmed_offset: u64,
    pub tail_hash: String,
    pub event_count: u64,
    pub policy_revision_hash: String,
    pub authority_replay_basis_digest: String,
}

/// Whether two markers agree in every field.
pub open spec fn same_marker_v4(a: &IndexMarkerV4, b: &IndexMarkerV4) -> bool {
    &&& a.index_schema_version == b.index_schema_version
    &&& a.sqlite_user_version == b.sqlite_user_version
    &&& a.projection_contract_version@ == b.projection_contract_version@
    &&& a.event_contract_version@ == b.event_contract_version@
    &&& a.projection_mode@ == b.projection_mode@
    &&& a.run_id@ == b.run_id@
    &&& a.genesis_hash@ == b.genesis_hash@
    &&& a.confirmed_offset == b.confirmed_offset
    &&& a.tail_hash@ == b.tail_hash@
    &&& a.event_count == b.event_count
    &&& a.policy_revision_hash@ == b.policy_revision_hash@
    &&& a.authority_replay_basis_digest@ == b.authority_replay_basis_digest@
}

/// How the marker committed in an image stands against the marker the
/// journal projects now.
pub enum MarkerStanding {
    /// The image holds exactly the current projection's marker.
    Current,
    /// The image is an older prefix of the same run: once that prefix is
    /// audited, the image is reported stale with both positions.
    Stale { stale: IndexError },
}

/// Decides how an image's committed marker stands: the current marker is
/// served; a marker of another run is corruption; any other difference is
/// a stale image of this run, whose report names the image's position and
/// the journal's.
pub fn committed_marker_standing(committed: &IndexMarkerV4, expected: &IndexMarkerV4) -> (result: Result<
    MarkerStanding,
    IndexError,
>)
    ensures
        same_marker_v4(committed, expected) ==> result matches Ok(MarkerStanding::Current),
        !same_marker_v4(committed, expected) && committed.run_id@ != expected.run_id@ ==> result
            == Err::<MarkerStanding, IndexError>(IndexError::CorruptIndex),
        !same_marker_v4(committed, expected) && committed.run_id@ == expected.run_id@ ==> (
        result matches Ok(
            MarkerStanding::Stale {
                stale: IndexError::CommittedIndexStale {
                    indexed_offset,
                    indexed_tail,
                    committed_offset,
                    committed_tail,
                },
            },
        ) && indexed_offset == committed.confirmed_offset && indexed_tail@ == committed.tail_hash@
            && committed_offset == expected.confirmed_offset && committed_tail@
            == expected.tail_hash@),
{
    if committed.index_schema_version == expected.index_schema_version
        && committed.sqlite_user_version == expected.sqlite_user_version
        && committed.projection_contract_version == expected.projection_contract_version
        && committed.event_contract_version == expected.event_contract_version
        && committed.projection_mode == expected.projection_mode && committed.run_id
        == expected.run_id && committed.genesis_hash == expected.genesis_hash
        && committed.confirmed_offset == expected.confirmed_offset && committed.tail_hash
        == expected.tail_hash && committed.event_count == expected.event_count
        && committed.policy_revision_hash == expected.policy_revision_hash
        && committed.authority_replay_basis_digest == expected.authority_replay_basis_digest {
        return Ok(MarkerStanding::Current);
    }
    if committed.run_id != expected.run_id {
        return Err(IndexError::CorruptIndex);
    }
    Ok(
        MarkerStanding::Stale {
            stale: IndexError::CommittedIndexStale {
                indexed_offset: committed.confirmed_offset,
                indexed_tail: committed.tail_hash.clone(),
                committed_offset: expected.confirmed_offset,
                committed_tail: expected.tail_hash.clone(),
            },
        },
    )
}

} // verus!
