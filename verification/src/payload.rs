//! The payload kinds of journal events as the derived index names and
//! classifies them.

use vstd::prelude::*;
use crate::error::IndexError;

verus! {

/// The kind of a decoded journal payload.
#[derive(Clone, Copy, Debug, PartialEq, Eq, Structural)]
pub enum PayloadKind {
    ObligationTransition,
    ClaimProposed,
    EvidenceRecorded,
    EvidenceBound,
    VerificationRecorded,
    DecisionRecorded,
    FindingRecorded,
    RunGenesisManifest,
    RunGenesisManifestV3,
    ArtifactRegistered,
    ArtifactRegisteredV3,
    EvidenceRecordedV3,
    EvidenceBoundV3,
    VerificationRecordedV3,
    DecisionRecordedV3,
    FindingRecordedV3,
    SnapshotSourcesRecorded,
    ReviewPlanRecorded,
    ContextEnvelopeProjected,
    ReviewExecutionRecorded,
}

/// The name a schema-v3 event row stores for a payload of `kind`; the
/// event-v3 authority kinds have no v3 row.
pub open spec fn decoded_kind_name(kind: PayloadKind) -> Result<&'static str, IndexError> {
    match kind {
        PayloadKind::ObligationTransition => Ok("obligation_transition"),
        PayloadKind::ClaimProposed => Ok("claim_proposed"),
        PayloadKind::EvidenceRecorded => Ok("evidence_recorded"),
        PayloadKind::EvidenceBound => Ok("evidence_bound"),
        PayloadKind::VerificationRecorded => Ok("verification_recorded"),
        PayloadKind::DecisionRecorded => Ok("decision_recorded"),
        PayloadKind::FindingRecorded => Ok("finding_recorded"),
        PayloadKind::RunGenesisManifest => Ok("run_genesis_manifest"),
        PayloadKind::ArtifactRegistered => Ok("artifact_registered"),
        PayloadKind::SnapshotSourcesRecorded => Ok("snapshot_sources_recorded"),
        PayloadKind::ReviewPlanRecorded => Ok("review_plan_recorded"),
        PayloadKind::ContextEnvelopeProjected => Ok("context_envelope_projected"),
        PayloadKind::ReviewExecutionRecorded => Ok("review_execution_recorded"),
        _ => Err(IndexError::ProjectionContractViolation),
    }
}

/// The name a schema-v4 event row stores for a payload of `kind`; the
/// legacy authority kinds and claim proposals have no v4 row.
pub open spec fn v4_kind_name(kind: PayloadKind) -> Result<&'static str, IndexError> {
    match kind {
        PayloadKind::ObligationTransition => Ok("obligation_transition"),
        PayloadKind::RunGenesisManifestV3 => Ok("run_genesis_manifest"),
        PayloadKind::ArtifactRegisteredV3 => Ok("artifact_registered"),
        PayloadKind::SnapshotSourcesRecorded => Ok("snapshot_sources_recorded"),
        PayloadKind::ReviewPlanRecorded => Ok("review_plan_recorded"),
        PayloadKind::ContextEnvelopeProjected => Ok("context_envelope_projected"),
        PayloadKind::ReviewExecutionRecorded => Ok("review_execution_recorded"),
        PayloadKind::EvidenceRecordedV3 => Ok("evidence_recorded_v3"),
        PayloadKind::EvidenceBoundV3 => Ok("evidence_bound_v3"),
        PayloadKind::VerificationRecordedV3 => Ok("verification_recorded_v3"),
        PayloadKind::DecisionRecordedV3 => Ok("decision_recorded_v3"),
        PayloadKind::FindingRecordedV3 => Ok("finding_recorded_v3"),
        _ => Err(IndexError::ProjectionContractViolation),
    }
}

/// Whether a payload of `kind` only ever lands in the offline authority
/// records, never in accepted state.
pub open spec fn offline_only(kind: PayloadKind) -> bool {
    ||| kind == PayloadKind::EvidenceRecorded
    ||| kind == PayloadKind::EvidenceBound
    ||| kind == PayloadKind::VerificationRecorded
    ||| kind == PayloadKind::DecisionRecorded
    ||| kind == PayloadKind::FindingRecorded
    ||| kind == PayloadKind::ContextEnvelopeProjected
    ||| kind == PayloadKind::ReviewExecutionRecorded
}

/// Whether a payload of `kind` is applied to accepted state.
pub open spec fn accepted_state(kind: PayloadKind) -> bool {
    ||| kind == PayloadKind::ObligationTransition
    ||| kind == PayloadKind::ClaimProposed
    ||| kind == PayloadKind::RunGenesisManifest
    ||| kind == PayloadKind::ArtifactRegistered
    ||| kind == PayloadKind::SnapshotSourcesRecorded
    ||| kind == PayloadKind::ReviewPlanRecorded
}

/// The stored name of a schema-v3 event's payload kind.
pub fn payload_kind_decoded(kind: PayloadKind) -> (result: Result<&'static str, IndexError>)
    ensures
        result == decoded_kind_name(kind),
{
    match kind {
        PayloadKind::ObligationTransition => Ok("obligation_transition"),
        PayloadKind::ClaimProposed => Ok("claim_proposed"),
        PayloadKind::EvidenceRecorded => Ok("evidence_recorded"),
        PayloadKind::EvidenceBound => Ok("evidence_bound"),
        PayloadKind::VerificationRecorded => Ok("verification_recorded"),
        PayloadKind::DecisionRecorded => Ok("decision_recorded"),
        PayloadKind::FindingRecorded => Ok("finding_recorded"),
        PayloadKind::RunGenesisManifest => Ok("run_genesis_manifest"),
        PayloadKind::ArtifactRegistered => Ok("artifact_registered"),
        PayloadKind::SnapshotSourcesRecorded => Ok("snapshot_sources_recorded"),
        PayloadKind::ReviewPlanRecorded => Ok("review_plan_recorded"),
        PayloadKind::ContextEnvelopeProjected => Ok("context_envelope_projected"),
        PayloadKind::ReviewExecutionRecorded => Ok("review_execution_recorded"),
        _ => Err(IndexError::ProjectionContractViolation),
    }
}

/// The stored name of a schema-v4 event's payload kind.
pub fn payload_kind_v4(kind: PayloadKind) -> (result: Result<&'static str, IndexError>)
    ensures
        result == v4_kind_name(kind),
{
    match kind {
        PayloadKind::ObligationTransition => Ok("obligation_transition"),
        PayloadKind::RunGenesisManifestV3 => Ok("run_genesis_manifest"),
        PayloadKind::ArtifactRegisteredV3 => Ok("artifact_registered"),
        PayloadKind::SnapshotSourcesRecorded => Ok("snapshot_sources_recorded"),
        PayloadKind::ReviewPlanRecorded => Ok("review_plan_recorded"),
        PayloadKind::ContextEnvelopeProjected => Ok("context_envelope_projected"),
        PayloadKind::ReviewExecutionRecorded => Ok("review_execution_recorded"),
        PayloadKind::EvidenceRecordedV3 => Ok("evidence_recorded_v3"),
        PayloadKind::EvidenceBoundV3 => Ok("evidence_bound_v3"),
        PayloadKind::VerificationRecordedV3 => Ok("verification_recorded_v3"),
        PayloadKind::DecisionRecordedV3 => Ok("decision_recorded_v3"),
        PayloadKind::FindingRecordedV3 => Ok("finding_recorded_v3"),
        _ => Err(IndexError::ProjectionContractViolation),
    }
}

/// Checks how the offline projection applied an event: offline-only
/// payloads must not touch accepted state, and accepted-state payloads
/// must.  Any other pairing, and any event-v3 authority kind, violates the
/// projection contract.
pub fn validate_offline_classification(applied_to_accepted: bool, kind: PayloadKind) -> (result:
    Result<(), IndexError>)
    ensures
        result == if (!applied_to_accepted && offline_only(kind)) || (applied_to_accepted
            && accepted_state(kind)) {
            Ok::<(), IndexError>(())
        } else {
            Err::<(), IndexError>(IndexError::ProjectionContractViolation)
        },
{
    let offline = match kind {
        PayloadKind::EvidenceRecorded
        | PayloadKind::EvidenceBound
        | PayloadKind::VerificationRecorded
        | PayloadKind::DecisionRecorded
        | PayloadKind::FindingRecorded
        | PayloadKind::ContextEnvelopeProjected
        | PayloadKind::ReviewExecutionRecorded => true,
        _ => false,
    };
    let accepted = match kind {
        PayloadKind::ObligationTransition
        | PayloadKind::ClaimProposed
        | PayloadKind::RunGenesisManifest
        | PayloadKind::ArtifactRegistered
        | PayloadKind::SnapshotSourcesRecorded
        | PayloadKind::ReviewPlanRecorded => true,
        _ => false,
    };
    if (!applied_to_accepted && offline) || (applied_to_accepted && accepted) {
        Ok(())
    } else {
        Err(IndexError::ProjectionContractViolation)
    }
}

/// Offline authority metadata is never accepted state: no payload kind is
/// both offline-only and applied to accepted state.
pub proof fn lemma_offline_and_accepted_disjoint(kind: PayloadKind)
    ensures
        !(offline_only(kind) && accepted_state(kind)),
{
}

} // verus!
