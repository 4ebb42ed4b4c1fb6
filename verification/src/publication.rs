//! Publication of a validated image: a candidate is written, linked,
//! re-read and validated, then renamed over the active image.  What a
//! failure means depends on which side of the rename it happens.

use vstd::prelude::*;
use vstd::string::StringSliceAdditionalSpecFns;
use crate::error::IndexError;

verus! {

/// `ENOSYS`, `EOPNOTSUPP` and `EEXIST` on Linux.
pub const ENOSYS: i32 = 38;

pub const EOPNOTSUPP: i32 = 95;

pub const EEXIST: i32 = 17;

/// How far a publication has gone.
#[derive(Clone, Copy, Debug, PartialEq, Eq, Structural)]
pub enum PublicationStage {
    /// The candidate is not yet the active image: the previous image is
    /// untouched, whatever fails.
    BeforeRename,
    /// The rename has happened: which image survives a crash is no longer
    /// known until the directory is synced.
    AfterRename,
}

/// The tail and image a publication is for.
pub struct PublicationTarget {
    pub run_id: String,
    pub tail_hash: String,
    pub image_hash: String,
}

/// The error a publication reports for a failure at `stage`: before the
/// rename the failure itself; after it, always that durability is
/// uncertain for this tail and image, never a rollback.
pub fn publication_failure(stage: PublicationStage, error: IndexError, target: PublicationTarget) -> (result:
    IndexError)
    ensures
        stage == PublicationStage::BeforeRename ==> result == error,
        stage == PublicationStage::AfterRename ==> result == (IndexError::PublicationDurabilityUncertain {
            run_id: target.run_id,
            tail_hash: target.tail_hash,
            image_hash: target.image_hash,
        }),
{
    match stage {
        PublicationStage::BeforeRename => error,
        PublicationStage::AfterRename => IndexError::PublicationDurabilityUncertain {
            run_id: target.run_id,
            tail_hash: target.tail_hash,
            image_hash: target.image_hash,
        },
    }
}

/// The error for a failed anonymous candidate open: a kernel without
/// anonymous temporary files cannot host the index.
pub fn map_tmpfile_error(errno: i32) -> (result: IndexError)
    ensures
        (errno == ENOSYS || errno == EOPNOTSUPP) ==> result == IndexError::UnsupportedPlatform,
        !(errno == ENOSYS || errno == EOPNOTSUPP) ==> result == (IndexError::Store { errno }),
{
    if errno == ENOSYS || errno == EOPNOTSUPP {
        IndexError::UnsupportedPlatform
    } else {
        IndexError::Store { errno }
    }
}

/// The error for a failed candidate link: an existing name means another
/// writer raced for it.
pub fn map_link_error(errno: i32) -> (result: IndexError)
    ensures
        errno == EEXIST ==> result == IndexError::IndexPathRace,
        errno != EEXIST ==> result == (IndexError::Store { errno }),
{
    if errno == EEXIST {
        IndexError::IndexPathRace
    } else {
        IndexError::Store { errno }
    }
}

/// A re-read candidate or active image must hash to what was written.
pub fn check_image_hash(observed: &str, expected: &str) -> (result: Result<(), IndexError>)
    ensures
        result == if observed.spec_bytes() == expected.spec_bytes() {
            Ok::<(), IndexError>(())
        } else {
            Err::<(), IndexError>(IndexError::CorruptIndex)
        },
{
    if !crate::classify::str_eq(observed, expected) {
        return Err(IndexError::CorruptIndex);
    }
    Ok(())
}

/// The steps of a publication, in the order they are performed; the
/// rename is the point after which the previous image may be gone.
#[derive(Clone, Copy, Debug, PartialEq, Eq, Structural)]
pub enum PublishStep {
    /// The image fits the serialized bound.
    CheckLength,
    /// Stale candidates left by earlier runs are audited.
    AuditCandidates,
    /// A random candidate name is drawn.
    DrawName,
    /// An anonymous candidate file is opened in the index directory.
    OpenCandidate,
    /// The candidate is a private regular file.
    VerifyCandidate,
    /// The image is written to the candidate.
    WriteCandidate,
    /// The candidate file is synced.
    SyncCandidate,
    /// The candidate is linked under its name.
    LinkCandidate,
    /// The index directory is synced.
    SyncDirectory,
    /// The named candidate is reopened and is the file written.
    ReopenCandidate,
    /// The candidate is read back within the working bound.
    ReadCandidate,
    /// What was read back hashes to the image written.
    CheckCandidateHash,
    /// The candidate validates as the snapshot's image.
    ValidateCandidate,
    /// The candidate is renamed over the active image.
    Rename,
    /// The active image is reopened and is the file written.
    ReopenActive,
    /// The active image is read back within the working bound.
    ReadActive,
    /// What was read back hashes to the image written.
    CheckActiveHash,
    /// The index directory is synced once more.
    SyncActiveDirectory,
}

/// The position of a step in a publication.
pub open spec fn step_index(step: PublishStep) -> nat {
    match step {
        PublishStep::CheckLength => 0,
        PublishStep::AuditCandidates => 1,
        PublishStep::DrawName => 2,
        PublishStep::OpenCandidate => 3,
        PublishStep::VerifyCandidate => 4,
        PublishStep::WriteCandidate => 5,
        PublishStep::SyncCandidate => 6,
        PublishStep::LinkCandidate => 7,
        PublishStep::SyncDirectory => 8,
        PublishStep::ReopenCandidate => 9,
        PublishStep::ReadCandidate => 10,
        PublishStep::CheckCandidateHash => 11,
        PublishStep::ValidateCandidate => 12,
        PublishStep::Rename => 13,
        PublishStep::ReopenActive => 14,
        PublishStep::ReadActive => 15,
        PublishStep::CheckActiveHash => 16,
        PublishStep::SyncActiveDirectory => 17,
    }
}

/// The step at a position of a publication.
pub open spec fn step_at(index: nat) -> PublishStep {
    if index == 0 {
        PublishStep::CheckLength
    } else if index == 1 {
        PublishStep::AuditCandidates
    } else if index == 2 {
        PublishStep::DrawName
    } else if index == 3 {
        PublishStep::OpenCandidate
    } else if index == 4 {
        PublishStep::VerifyCandidate
    } else if index == 5 {
        PublishStep::WriteCandidate
    } else if index == 6 {
        PublishStep::SyncCandidate
    } else if index == 7 {
        PublishStep::LinkCandidate
    } else if index == 8 {
        PublishStep::SyncDirectory
    } else if index == 9 {
        PublishStep::ReopenCandidate
    } else if index == 10 {
        PublishStep::ReadCandidate
    } else if index == 11 {
        PublishStep::CheckCandidateHash
    } else if index == 12 {
        PublishStep::ValidateCandidate
    } else if index == 13 {
        PublishStep::Rename
    } else if index == 14 {
        PublishStep::ReopenActive
    } else if index == 15 {
        PublishStep::ReadActive
    } else if index == 16 {
        PublishStep::CheckActiveHash
    } else {
        PublishStep::SyncActiveDirectory
    }
}

/// The number of steps of a publication.
pub const PUBLISH_STEP_COUNT: u64 = 18;

/// The position of the rename.
pub const RENAME_INDEX: u64 = 13;

/// The stage a failure at `step` leaves the publication in: the rename
/// itself failing leaves the previous image in place.
pub open spec fn step_stage(step: PublishStep) -> PublicationStage {
    if step_index(step) <= RENAME_INDEX {
        PublicationStage::BeforeRename
    } else {
        PublicationStage::AfterRename
    }
}

/// What the publication does next.
pub enum PublishAction {
    /// Perform this step and report how it went.
    Perform(PublishStep),
    /// Stop with this error.
    Fail(IndexError),
    /// The image is published and durable.
    Published,
}

/// The action after `step` went as `outcome` says: the next step in
/// order, publication after the last, or the failure as its stage
/// reports it.
pub open spec fn publish_action(step: PublishStep, outcome: Result<(), IndexError>, target: PublicationTarget) -> PublishAction {
    match outcome {
        Ok(()) => if step_index(step) + 1 < PUBLISH_STEP_COUNT {
            PublishAction::Perform(step_at(step_index(step) + 1))
        } else {
            PublishAction::Published
        },
        Err(error) => PublishAction::Fail(
            if step_stage(step) == PublicationStage::BeforeRename {
                error
            } else {
                IndexError::PublicationDurabilityUncertain {
                    run_id: target.run_id,
                    tail_hash: target.tail_hash,
                    image_hash: target.image_hash,
                }
            },
        ),
    }
}

fn step_position(step: PublishStep) -> (index: u64)
    ensures
        index == step_index(step),
{
    match step {
        PublishStep::CheckLength => 0,
        PublishStep::AuditCandidates => 1,
        PublishStep::DrawName => 2,
        PublishStep::OpenCandidate => 3,
        PublishStep::VerifyCandidate => 4,
        PublishStep::WriteCandidate => 5,
        PublishStep::SyncCandidate => 6,
        PublishStep::LinkCandidate => 7,
        PublishStep::SyncDirectory => 8,
        PublishStep::ReopenCandidate => 9,
        PublishStep::ReadCandidate => 10,
        PublishStep::CheckCandidateHash => 11,
        PublishStep::ValidateCandidate => 12,
        PublishStep::Rename => 13,
        PublishStep::ReopenActive => 14,
        PublishStep::ReadActive => 15,
        PublishStep::CheckActiveHash => 16,
        PublishStep::SyncActiveDirectory => 17,
    }
}

fn step_for(index: u64) -> (step: PublishStep)
    requires
        index < PUBLISH_STEP_COUNT,
    ensures
        step == step_at(index as nat),
        step_index(step) == index,
{
    if index == 0 {
        PublishStep::CheckLength
    } else if index == 1 {
        PublishStep::AuditCandidates
    } else if index == 2 {
        PublishStep::DrawName
    } else if index == 3 {
        PublishStep::OpenCandidate
    } else if index == 4 {
        PublishStep::VerifyCandidate
    } else if index == 5 {
        PublishStep::WriteCandidate
    } else if index == 6 {
        PublishStep::SyncCandidate
    } else if index == 7 {
        PublishStep::LinkCandidate
    } else if index == 8 {
        PublishStep::SyncDirectory
    } else if index == 9 {
        PublishStep::ReopenCandidate
    } else if index == 10 {
        PublishStep::ReadCandidate
    } else if index == 11 {
        PublishStep::CheckCandidateHash
    } else if index == 12 {
        PublishStep::ValidateCandidate
    } else if index == 13 {
        PublishStep::Rename
    } else if index == 14 {
        PublishStep::ReopenActive
    } else if index == 15 {
        PublishStep::ReadActive
    } else if index == 16 {
        PublishStep::CheckActiveHash
    } else {
        PublishStep::SyncActiveDirectory
    }
}

/// The first step of a publication.
pub fn first_publish_step() -> (step: PublishStep)
    ensures
        step_index(step) == 0,
        step == PublishStep::CheckLength,
{
    PublishStep::CheckLength
}

/// Decides what a publication does after `step` went as `outcome` says.
pub fn publish_next(step: PublishStep, outcome: Result<(), IndexError>, target: PublicationTarget) -> (action: PublishAction)
    ensures
        action == publish_action(step, outcome, target),
{
    match outcome {
        Ok(()) => {
            let index = step_position(step);
            if index + 1 < PUBLISH_STEP_COUNT {
                PublishAction::Perform(step_for(index + 1))
            } else {
                PublishAction::Published
            }
        },
        Err(error) => {
            let stage = if step_position(step) <= RENAME_INDEX {
                PublicationStage::BeforeRename
            } else {
                PublicationStage::AfterRename
            };
            PublishAction::Fail(publication_failure(stage, error, target))
        },
    }
}

/// The step that follows each step of a publication: the candidate is
/// written, synced, linked and the directory synced before it is reread
/// and validated; only then is it renamed over the active image, which is
/// reread and the directory synced again.
pub open spec fn next_publish_step(step: PublishStep) -> Option<PublishStep> {
    match step {
        PublishStep::CheckLength => Some(PublishStep::AuditCandidates),
        PublishStep::AuditCandidates => Some(PublishStep::DrawName),
        PublishStep::DrawName => Some(PublishStep::OpenCandidate),
        PublishStep::OpenCandidate => Some(PublishStep::VerifyCandidate),
        PublishStep::VerifyCandidate => Some(PublishStep::WriteCandidate),
        PublishStep::WriteCandidate => Some(PublishStep::SyncCandidate),
        PublishStep::SyncCandidate => Some(PublishStep::LinkCandidate),
        PublishStep::LinkCandidate => Some(PublishStep::SyncDirectory),
        PublishStep::SyncDirectory => Some(PublishStep::ReopenCandidate),
        PublishStep::ReopenCandidate => Some(PublishStep::ReadCandidate),
        PublishStep::ReadCandidate => Some(PublishStep::CheckCandidateHash),
        PublishStep::CheckCandidateHash => Some(PublishStep::ValidateCandidate),
        PublishStep::ValidateCandidate => Some(PublishStep::Rename),
        PublishStep::Rename => Some(PublishStep::ReopenActive),
        PublishStep::ReopenActive => Some(PublishStep::ReadActive),
        PublishStep::ReadActive => Some(PublishStep::CheckActiveHash),
        PublishStep::CheckActiveHash => Some(PublishStep::SyncActiveDirectory),
        PublishStep::SyncActiveDirectory => None,
    }
}

/// Whether a step comes after the rename, when the previous image may be
/// gone.
pub open spec fn after_rename(step: PublishStep) -> bool {
    match step {
        PublishStep::ReopenActive | PublishStep::ReadActive | PublishStep::CheckActiveHash
        | PublishStep::SyncActiveDirectory => true,
        _ => false,
    }
}

/// A publication starts by checking the image's length; after each step
/// that succeeds it performs the step that follows it, and after the last
/// one it is published.  A failed step stops it: before the rename, or at
/// the rename itself, with that step's error; after the rename, with the
/// uncertain durability of this tail and image.
pub proof fn lemma_publication_successors(
    step: PublishStep,
    error: IndexError,
    target: PublicationTarget,
)
    ensures
        step_at(0) == PublishStep::CheckLength,
        publish_action(step, Ok(()), target) == match next_publish_step(step) {
            Some(next) => PublishAction::Perform(next),
            None => PublishAction::Published,
        },
        publish_action(step, Err(error), target) == PublishAction::Fail(
            if after_rename(step) {
                IndexError::PublicationDurabilityUncertain {
                    run_id: target.run_id,
                    tail_hash: target.tail_hash,
                    image_hash: target.image_hash,
                }
            } else {
                error
            },
        ),
{
}


/// The action a publication ends with when its steps go as `outcomes`
/// says, one outcome per step performed from the first.
pub open spec fn publish_run(outcomes: Seq<Result<(), IndexError>>, target: PublicationTarget) -> PublishAction {
    publish_run_from(0, outcomes, target)
}

/// The same from the step at `index`.
pub open spec fn publish_run_from(index: nat, outcomes: Seq<Result<(), IndexError>>, target: PublicationTarget) -> PublishAction
    decreases outcomes.len(),
{
    if outcomes.len() == 0 {
        PublishAction::Perform(step_at(index))
    } else {
        match publish_action(step_at(index), outcomes[0], target) {
            PublishAction::Perform(next) => publish_run_from(step_index(next), outcomes.drop_first(), target),
            other => other,
        }
    }
}

/// A publication is published exactly when every step, rename included,
/// succeeds in order; a failure before the rename reports the failure
/// itself, and one after the rename reports that durability is uncertain
/// for this tail and image, never a rollback.
pub proof fn lemma_publication_order(outcomes: Seq<Result<(), IndexError>>, target: PublicationTarget)
    requires
        outcomes.len() == PUBLISH_STEP_COUNT,
    ensures
        (forall|k: int| 0 <= k < outcomes.len() ==> #[trigger] outcomes[k] is Ok) ==> publish_run(
            outcomes,
            target,
        ) == PublishAction::Published,
        forall|k: int|
            0 <= k < outcomes.len() && outcomes[k] is Err && (forall|j: int|
                0 <= j < k ==> #[trigger] outcomes[j] is Ok) ==> publish_run(outcomes, target)
                == #[trigger] publish_action(step_at(k as nat), outcomes[k], target),
        forall|k: int|
            RENAME_INDEX < k < outcomes.len() && outcomes[k] is Err && (forall|j: int|
                0 <= j < k ==> #[trigger] outcomes[j] is Ok) ==> publish_run(outcomes, target)
                == (PublishAction::Fail(
                IndexError::PublicationDurabilityUncertain {
                    run_id: target.run_id,
                    tail_hash: target.tail_hash,
                    image_hash: target.image_hash,
                },
            )),
{
    lemma_run_from(0, outcomes, target);
    assert forall|k: int| 0 <= k < PUBLISH_STEP_COUNT implies #[trigger] step_index(
        step_at(k as nat),
    ) == k by {
        lemma_step_at_index(k as nat);
    }
    assert forall|k: int|
        0 <= k < outcomes.len() && outcomes[k] is Err && (forall|j: int|
            0 <= j < k ==> #[trigger] outcomes[j] is Ok) implies publish_run(outcomes, target)
        == #[trigger] publish_action(step_at(k as nat), outcomes[k], target) by {
        assert((0 + k) as nat == k as nat);
    }
    assert forall|k: int|
        RENAME_INDEX < k < outcomes.len() && outcomes[k] is Err && (forall|j: int|
            0 <= j < k ==> #[trigger] outcomes[j] is Ok) implies publish_run(outcomes, target)
        == (PublishAction::Fail(
        IndexError::PublicationDurabilityUncertain {
            run_id: target.run_id,
            tail_hash: target.tail_hash,
            image_hash: target.image_hash,
        },
    )) by {
        lemma_step_at_index(k as nat);
        assert(publish_run(outcomes, target) == publish_action(step_at(k as nat), outcomes[k], target));
        assert(step_stage(step_at(k as nat)) == PublicationStage::AfterRename);
    }
}

proof fn lemma_step_at_index(index: nat)
    requires
        index < PUBLISH_STEP_COUNT,
    ensures
        step_index(step_at(index)) == index,
{
}

proof fn lemma_run_from(index: nat, outcomes: Seq<Result<(), IndexError>>, target: PublicationTarget)
    requires
        index + outcomes.len() == PUBLISH_STEP_COUNT,
    ensures
        (forall|k: int| 0 <= k < outcomes.len() ==> #[trigger] outcomes[k] is Ok) ==> publish_run_from(
            index,
            outcomes,
            target,
        ) == (if outcomes.len() == 0 {
            PublishAction::Perform(step_at(index))
        } else {
            PublishAction::Published
        }),
        forall|k: int|
            0 <= k < outcomes.len() && outcomes[k] is Err && (forall|j: int|
                0 <= j < k ==> #[trigger] outcomes[j] is Ok) ==> publish_run_from(index, outcomes, target)
                == #[trigger] publish_action(step_at((index + k) as nat), outcomes[k], target),
    decreases outcomes.len(),
{
    if outcomes.len() > 0 {
        let rest = outcomes.drop_first();
        assert(step_index(step_at(index)) == index);
        if index + 1 < PUBLISH_STEP_COUNT {
            assert(step_index(step_at(index + 1)) == index + 1);
            lemma_run_from(index + 1, rest, target);
            assert forall|k: int|
                0 <= k < outcomes.len() && outcomes[k] is Err && (forall|j: int|
                    0 <= j < k ==> #[trigger] outcomes[j] is Ok) implies publish_run_from(index, outcomes, target)
                    == #[trigger] publish_action(step_at((index + k) as nat), outcomes[k], target) by {
                if k > 0 {
                    assert(outcomes[0] is Ok);
                    assert(rest[k - 1] == outcomes[k]);
                    assert forall|j: int| 0 <= j < k - 1 implies #[trigger] rest[j] is Ok by {
                        assert(rest[j] == outcomes[j + 1]);
                        assert(outcomes[j + 1] is Ok);
                    }
                    assert(publish_run_from(index + 1, rest, target) == publish_action(
                        step_at((index + 1 + (k - 1)) as nat),
                        rest[k - 1],
                        target,
                    ));
                    assert((index + 1 + (k - 1)) as nat == (index + k) as nat);
                }
            }
            if forall|k: int| 0 <= k < outcomes.len() ==> #[trigger] outcomes[k] is Ok {
                assert(outcomes[0] is Ok);
                assert forall|k: int| 0 <= k < rest.len() implies #[trigger] rest[k] is Ok by {
                    assert(rest[k] == outcomes[k + 1]);
                }
            }
        }
    }
}

} // verus!
