//! The rows a v4 image must hold, as plain values, and its read-back:
//! every stored cell is compared, in storage order, with the snapshot
//! field that belongs there.

use vstd::prelude::*;
use crate::error::IndexError;
use crate::limits::IndexLimits;
use crate::rows::{
    cells_view, compare_image, image_outcome, image_view, lemma_image_outcome_ok, row_outcome,
    stored_image, table_view, ExpectedCell, ExpectedView, SqlCell,
};

verus! {

/// The number of tables a v4 image is read back from.
pub const V4_READBACK_TABLE_COUNT: usize = 21;

/// A JSON column's text together with the verdict on it: that it decodes
/// and re-encodes through the store's canonical encoder to exactly these
/// bytes (for the context policy, that it is the baseline policy's
/// encoding; for an artifact's provenance, also that it decodes to the
/// registration's source, of its kind and run).  The verdict is reached by
/// the holder of the typed values the text was encoded from.
pub struct CheckedJson {
    pub text: Vec<u8>,
    pub well_formed: bool,
}

impl CheckedJson {
    /// The cell this column must hold.
    pub fn expected(&self) -> (cell: ExpectedCell<'_>)
        ensures
            cell@ == ExpectedView::CheckedText(self.text@, self.well_formed),
    {
        ExpectedCell::CheckedText { text: self.text.as_slice(), well_formed: self.well_formed }
    }
}

/// The text of an optional column, if it has one.
pub open spec fn optional_view(text: Option<Vec<u8>>) -> Option<Seq<u8>> {
    match text {
        Some(text) => Some(text@),
        None => None,
    }
}

fn optional_slice(text: &Option<Vec<u8>>) -> (result: Option<&[u8]>)
    ensures
        match result {
            Some(slice) => optional_view(*text) == Some(slice@),
            None => optional_view(*text) is None,
        },
{
    match text {
        Some(text) => Some(text.as_slice()),
        None => None,
    }
}

/// A snapshot row and the cells that store it, in column order.
pub trait StoredRow {
    /// The values of the row's cells, in the order the read-back query
    /// returns its columns.
    spec fn cells(&self) -> Seq<ExpectedView>;

    /// The row's cells, borrowed from it.
    fn expected(&self) -> (cells: Vec<ExpectedCell<'_>>)
        ensures
            cells_view(cells@) == self.cells(),
    ;
}

/// The cells of a table's rows, row by row.
pub open spec fn rows_cells<R: StoredRow>(rows: Seq<R>) -> Seq<Seq<ExpectedView>> {
    rows.map_values(|row: R| row.cells())
}

/// The expected rows of one table, borrowed from the snapshot's rows.
pub fn expected_table<R: StoredRow>(rows: &Vec<R>) -> (table: Vec<Vec<ExpectedCell<'_>>>)
    ensures
        table_view(table@) == rows_cells(rows@),
{
    let mut table: Vec<Vec<ExpectedCell<'_>>> = Vec::new();
    let mut i: usize = 0;
    while i < rows.len()
        invariant
            i <= rows@.len(),
            table@.len() == i,
            forall|j: int| 0 <= j < i ==> cells_view(#[trigger] table@[j]@) == rows@[j].cells(),
        decreases rows@.len() - i,
    {
        table.push(rows[i].expected());
        i += 1;
    }
    proof {
        assert(table_view(table@) =~= rows_cells(rows@));
    }
    table
}

/// The marker row of `index_meta`.
///
/// Read back, in this column order, by
/// `SELECT singleton,index_schema_version,projection_contract_version,event_contract_version,projection_mode,run_id,genesis_hash,confirmed_offset,tail_hash,event_count,policy_revision_hash,authority_replay_basis_digest FROM index_meta ORDER BY singleton`.
pub struct MarkerRow {
    pub index_schema_version: u64,
    pub projection_contract_version: Vec<u8>,
    pub event_contract_version: Vec<u8>,
    pub projection_mode: Vec<u8>,
    pub run_id: Vec<u8>,
    pub genesis_hash: Vec<u8>,
    pub confirmed_offset: u64,
    pub tail_hash: Vec<u8>,
    pub event_count: u64,
    pub policy_revision_hash: Vec<u8>,
    pub authority_replay_basis_digest: Vec<u8>,
}

impl StoredRow for MarkerRow {
    open spec fn cells(&self) -> Seq<ExpectedView> {
        seq![
            ExpectedView::U64(1),
            ExpectedView::U64(self.index_schema_version),
            ExpectedView::Text(self.projection_contract_version@),
            ExpectedView::Text(self.event_contract_version@),
            ExpectedView::Text(self.projection_mode@),
            ExpectedView::Text(self.run_id@),
            ExpectedView::Text(self.genesis_hash@),
            ExpectedView::U64(self.confirmed_offset),
            ExpectedView::Text(self.tail_hash@),
            ExpectedView::U64(self.event_count),
            ExpectedView::Text(self.policy_revision_hash@),
            ExpectedView::Text(self.authority_replay_basis_digest@),
        ]
    }

    fn expected(&self) -> (cells: Vec<ExpectedCell<'_>>) {
        let mut cells = Vec::new();
        cells.push(ExpectedCell::U64(1));
        cells.push(ExpectedCell::U64(self.index_schema_version));
        cells.push(ExpectedCell::Text(self.projection_contract_version.as_slice()));
        cells.push(ExpectedCell::Text(self.event_contract_version.as_slice()));
        cells.push(ExpectedCell::Text(self.projection_mode.as_slice()));
        cells.push(ExpectedCell::Text(self.run_id.as_slice()));
        cells.push(ExpectedCell::Text(self.genesis_hash.as_slice()));
        cells.push(ExpectedCell::U64(self.confirmed_offset));
        cells.push(ExpectedCell::Text(self.tail_hash.as_slice()));
        cells.push(ExpectedCell::U64(self.event_count));
        cells.push(ExpectedCell::Text(self.policy_revision_hash.as_slice()));
        cells.push(ExpectedCell::Text(self.authority_replay_basis_digest.as_slice()));
        proof {
            assert(cells_view(cells@) =~= self.cells());
        }
        cells
    }
}

/// A row of `events`.
///
/// Read back, in this column order, by
/// `SELECT sequence,event_id,schema,event_hash,payload_hash,payload_kind,actor,logical_time FROM events ORDER BY sequence`.
pub struct EventRow {
    pub sequence: u64,
    pub event_id: Vec<u8>,
    pub schema: Vec<u8>,
    pub event_hash: Vec<u8>,
    pub payload_hash: Vec<u8>,
    pub payload_kind: Vec<u8>,
    pub actor: Vec<u8>,
    pub logical_time: u64,
}

impl StoredRow for EventRow {
    open spec fn cells(&self) -> Seq<ExpectedView> {
        seq![
            ExpectedView::U64(self.sequence),
            ExpectedView::Text(self.event_id@),
            ExpectedView::Text(self.schema@),
            ExpectedView::Text(self.event_hash@),
            ExpectedView::Text(self.payload_hash@),
            ExpectedView::Text(self.payload_kind@),
            ExpectedView::Text(self.actor@),
            ExpectedView::U64(self.logical_time),
        ]
    }

    fn expected(&self) -> (cells: Vec<ExpectedCell<'_>>) {
        let mut cells = Vec::new();
        cells.push(ExpectedCell::U64(self.sequence));
        cells.push(ExpectedCell::Text(self.event_id.as_slice()));
        cells.push(ExpectedCell::Text(self.schema.as_slice()));
        cells.push(ExpectedCell::Text(self.event_hash.as_slice()));
        cells.push(ExpectedCell::Text(self.payload_hash.as_slice()));
        cells.push(ExpectedCell::Text(self.payload_kind.as_slice()));
        cells.push(ExpectedCell::Text(self.actor.as_slice()));
        cells.push(ExpectedCell::U64(self.logical_time));
        proof {
            assert(cells_view(cells@) =~= self.cells());
        }
        cells
    }
}

/// A row of `program_objects`.
///
/// Read back, in this column order, by
/// `SELECT object_id,object_kind,body_hash FROM program_objects ORDER BY object_id`.
pub struct ProgramObjectRow {
    pub object_id: Vec<u8>,
    pub object_kind: Vec<u8>,
    pub body_hash: Vec<u8>,
}

impl StoredRow for ProgramObjectRow {
    open spec fn cells(&self) -> Seq<ExpectedView> {
        seq![
            ExpectedView::Text(self.object_id@),
            ExpectedView::Text(self.object_kind@),
            ExpectedView::Text(self.body_hash@),
        ]
    }

    fn expected(&self) -> (cells: Vec<ExpectedCell<'_>>) {
        let mut cells = Vec::new();
        cells.push(ExpectedCell::Text(self.object_id.as_slice()));
        cells.push(ExpectedCell::Text(self.object_kind.as_slice()));
        cells.push(ExpectedCell::Text(self.body_hash.as_slice()));
        proof {
            assert(cells_view(cells@) =~= self.cells());
        }
        cells
    }
}

/// A row of `program_relations`.
///
/// Read back, in this column order, by
/// `SELECT relation_id,relation_kind,source_id,target_ids_canonical_json,body_hash FROM program_relations ORDER BY relation_id`.
pub struct ProgramRelationRow {
    pub relation_id: Vec<u8>,
    pub relation_kind: Vec<u8>,
    pub source_id: Vec<u8>,
    pub target_ids_canonical_json: CheckedJson,
    pub body_hash: Vec<u8>,
}

impl StoredRow for ProgramRelationRow {
    open spec fn cells(&self) -> Seq<ExpectedView> {
        seq![
            ExpectedView::Text(self.relation_id@),
            ExpectedView::Text(self.relation_kind@),
            ExpectedView::Text(self.source_id@),
            ExpectedView::CheckedText(self.target_ids_canonical_json.text@, self.target_ids_canonical_json.well_formed),
            ExpectedView::Text(self.body_hash@),
        ]
    }

    fn expected(&self) -> (cells: Vec<ExpectedCell<'_>>) {
        let mut cells = Vec::new();
        cells.push(ExpectedCell::Text(self.relation_id.as_slice()));
        cells.push(ExpectedCell::Text(self.relation_kind.as_slice()));
        cells.push(ExpectedCell::Text(self.source_id.as_slice()));
        cells.push(self.target_ids_canonical_json.expected());
        cells.push(ExpectedCell::Text(self.body_hash.as_slice()));
        proof {
            assert(cells_view(cells@) =~= self.cells());
        }
        cells
    }
}

/// The row of `universe`, when the run has one.
///
/// Read back, in this column order, by
/// `SELECT singleton,universe_id,snapshot_id,profile_id,rule_set_hash,extractor_set_hash,policy_version,rule_pack_version,body_hash FROM universe ORDER BY singleton`.
pub struct UniverseRow {
    pub universe_id: Vec<u8>,
    pub snapshot_id: Vec<u8>,
    pub profile_id: Vec<u8>,
    pub rule_set_hash: Vec<u8>,
    pub extractor_set_hash: Vec<u8>,
    pub policy_version: Vec<u8>,
    pub rule_pack_version: Vec<u8>,
    pub body_hash: Vec<u8>,
}

impl StoredRow for UniverseRow {
    open spec fn cells(&self) -> Seq<ExpectedView> {
        seq![
            ExpectedView::U64(1),
            ExpectedView::Text(self.universe_id@),
            ExpectedView::Text(self.snapshot_id@),
            ExpectedView::Text(self.profile_id@),
            ExpectedView::Text(self.rule_set_hash@),
            ExpectedView::Text(self.extractor_set_hash@),
            ExpectedView::Text(self.policy_version@),
            ExpectedView::Text(self.rule_pack_version@),
            ExpectedView::Text(self.body_hash@),
        ]
    }

    fn expected(&self) -> (cells: Vec<ExpectedCell<'_>>) {
        let mut cells = Vec::new();
        cells.push(ExpectedCell::U64(1));
        cells.push(ExpectedCell::Text(self.universe_id.as_slice()));
        cells.push(ExpectedCell::Text(self.snapshot_id.as_slice()));
        cells.push(ExpectedCell::Text(self.profile_id.as_slice()));
        cells.push(ExpectedCell::Text(self.rule_set_hash.as_slice()));
        cells.push(ExpectedCell::Text(self.extractor_set_hash.as_slice()));
        cells.push(ExpectedCell::Text(self.policy_version.as_slice()));
        cells.push(ExpectedCell::Text(self.rule_pack_version.as_slice()));
        cells.push(ExpectedCell::Text(self.body_hash.as_slice()));
        proof {
            assert(cells_view(cells@) =~= self.cells());
        }
        cells
    }
}

/// A row of `obligations`.
///
/// Read back, in this column order, by
/// `SELECT obligation_id,target_kind,target_ids_canonical_json,property_id,lifecycle,body_hash FROM obligations ORDER BY obligation_id`.
pub struct ObligationRow {
    pub obligation_id: Vec<u8>,
    pub target_kind: Vec<u8>,
    pub target_ids_canonical_json: CheckedJson,
    pub property_id: Vec<u8>,
    pub lifecycle: Vec<u8>,
    pub body_hash: Vec<u8>,
}

impl StoredRow for ObligationRow {
    open spec fn cells(&self) -> Seq<ExpectedView> {
        seq![
            ExpectedView::Text(self.obligation_id@),
            ExpectedView::Text(self.target_kind@),
            ExpectedView::CheckedText(self.target_ids_canonical_json.text@, self.target_ids_canonical_json.well_formed),
            ExpectedView::Text(self.property_id@),
            ExpectedView::Text(self.lifecycle@),
            ExpectedView::Text(self.body_hash@),
        ]
    }

    fn expected(&self) -> (cells: Vec<ExpectedCell<'_>>) {
        let mut cells = Vec::new();
        cells.push(ExpectedCell::Text(self.obligation_id.as_slice()));
        cells.push(ExpectedCell::Text(self.target_kind.as_slice()));
        cells.push(self.target_ids_canonical_json.expected());
        cells.push(ExpectedCell::Text(self.property_id.as_slice()));
        cells.push(ExpectedCell::Text(self.lifecycle.as_slice()));
        cells.push(ExpectedCell::Text(self.body_hash.as_slice()));
        proof {
            assert(cells_view(cells@) =~= self.cells());
        }
        cells
    }
}

/// A row of `obligation_lifecycle`.
///
/// Read back, in this column order, by
/// `SELECT event_sequence,event_id,obligation_id,next_lifecycle FROM obligation_lifecycle ORDER BY event_sequence,obligation_id`.
pub struct ObligationLifecycleRow {
    pub event_sequence: u64,
    pub event_id: Vec<u8>,
    pub obligation_id: Vec<u8>,
    pub next_lifecycle: Vec<u8>,
}

impl StoredRow for ObligationLifecycleRow {
    open spec fn cells(&self) -> Seq<ExpectedView> {
        seq![
            ExpectedView::U64(self.event_sequence),
            ExpectedView::Text(self.event_id@),
            ExpectedView::Text(self.obligation_id@),
            ExpectedView::Text(self.next_lifecycle@),
        ]
    }

    fn expected(&self) -> (cells: Vec<ExpectedCell<'_>>) {
        let mut cells = Vec::new();
        cells.push(ExpectedCell::U64(self.event_sequence));
        cells.push(ExpectedCell::Text(self.event_id.as_slice()));
        cells.push(ExpectedCell::Text(self.obligation_id.as_slice()));
        cells.push(ExpectedCell::Text(self.next_lifecycle.as_slice()));
        proof {
            assert(cells_view(cells@) =~= self.cells());
        }
        cells
    }
}

/// A row of `artifact_registrations`.
///
/// Read back, in this column order, by
/// `SELECT event_sequence,event_id,registration_id,run_id,cas_hash,media_type,size,sensitivity,source_kind,source_canonical_json,body_hash FROM artifact_registrations ORDER BY event_sequence,registration_id`.
pub struct ArtifactRegistrationRow {
    pub event_sequence: u64,
    pub event_id: Vec<u8>,
    pub registration_id: Vec<u8>,
    pub run_id: Vec<u8>,
    pub cas_hash: Vec<u8>,
    pub media_type: Vec<u8>,
    pub size: u64,
    pub sensitivity: Vec<u8>,
    pub source_kind: Vec<u8>,
    pub source_canonical_json: CheckedJson,
    pub body_hash: Vec<u8>,
}

impl StoredRow for ArtifactRegistrationRow {
    open spec fn cells(&self) -> Seq<ExpectedView> {
        seq![
            ExpectedView::U64(self.event_sequence),
            ExpectedView::Text(self.event_id@),
            ExpectedView::Text(self.registration_id@),
            ExpectedView::Text(self.run_id@),
            ExpectedView::Text(self.cas_hash@),
            ExpectedView::Text(self.media_type@),
            ExpectedView::U64(self.size),
            ExpectedView::Text(self.sensitivity@),
            ExpectedView::Text(self.source_kind@),
            ExpectedView::CheckedText(self.source_canonical_json.text@, self.source_canonical_json.well_formed),
            ExpectedView::Text(self.body_hash@),
        ]
    }

    fn expected(&self) -> (cells: Vec<ExpectedCell<'_>>) {
        let mut cells = Vec::new();
        cells.push(ExpectedCell::U64(self.event_sequence));
        cells.push(ExpectedCell::Text(self.event_id.as_slice()));
        cells.push(ExpectedCell::Text(self.registration_id.as_slice()));
        cells.push(ExpectedCell::Text(self.run_id.as_slice()));
        cells.push(ExpectedCell::Text(self.cas_hash.as_slice()));
        cells.push(ExpectedCell::Text(self.media_type.as_slice()));
        cells.push(ExpectedCell::U64(self.size));
        cells.push(ExpectedCell::Text(self.sensitivity.as_slice()));
        cells.push(ExpectedCell::Text(self.source_kind.as_slice()));
        cells.push(self.source_canonical_json.expected());
        cells.push(ExpectedCell::Text(self.body_hash.as_slice()));
        proof {
            assert(cells_view(cells@) =~= self.cells());
        }
        cells
    }
}

/// A row of `snapshot_source_index`.
///
/// Read back, in this column order, by
/// `SELECT event_sequence,event_id,snapshot_id,artifact_id,registration_id,path,content_hash,cas_hash,line_count FROM snapshot_source_index ORDER BY event_sequence,artifact_id`.
pub struct SnapshotSourceRow {
    pub event_sequence: u64,
    pub event_id: Vec<u8>,
    pub snapshot_id: Vec<u8>,
    pub artifact_id: Vec<u8>,
    pub registration_id: Vec<u8>,
    pub path: Vec<u8>,
    pub content_hash: Vec<u8>,
    pub cas_hash: Vec<u8>,
    pub line_count: u64,
}

impl StoredRow for SnapshotSourceRow {
    open spec fn cells(&self) -> Seq<ExpectedView> {
        seq![
            ExpectedView::U64(self.event_sequence),
            ExpectedView::Text(self.event_id@),
            ExpectedView::Text(self.snapshot_id@),
            ExpectedView::Text(self.artifact_id@),
            ExpectedView::Text(self.registration_id@),
            ExpectedView::Text(self.path@),
            ExpectedView::Text(self.content_hash@),
            ExpectedView::Text(self.cas_hash@),
            ExpectedView::U64(self.line_count),
        ]
    }

    fn expected(&self) -> (cells: Vec<ExpectedCell<'_>>) {
        let mut cells = Vec::new();
        cells.push(ExpectedCell::U64(self.event_sequence));
        cells.push(ExpectedCell::Text(self.event_id.as_slice()));
        cells.push(ExpectedCell::Text(self.snapshot_id.as_slice()));
        cells.push(ExpectedCell::Text(self.artifact_id.as_slice()));
        cells.push(ExpectedCell::Text(self.registration_id.as_slice()));
        cells.push(ExpectedCell::Text(self.path.as_slice()));
        cells.push(ExpectedCell::Text(self.content_hash.as_slice()));
        cells.push(ExpectedCell::Text(self.cas_hash.as_slice()));
        cells.push(ExpectedCell::U64(self.line_count));
        proof {
            assert(cells_view(cells@) =~= self.cells());
        }
        cells
    }
}

/// A row of `review_plans`.
///
/// Read back, in this column order, by
/// `SELECT event_sequence,event_id,plan_id,universe_id,snapshot_id,planner_input_hash,planner_policy_version,planner_policy_hash,budget_canonical_json,budget_hash,risk_breakdown_canonical_json,waves_canonical_json,deferred_canonical_json,identity_body_hash,body_hash FROM review_plans ORDER BY event_sequence,plan_id`.
pub struct ReviewPlanRow {
    pub event_sequence: u64,
    pub event_id: Vec<u8>,
    pub plan_id: Vec<u8>,
    pub universe_id: Vec<u8>,
    pub snapshot_id: Vec<u8>,
    pub planner_input_hash: Vec<u8>,
    pub planner_policy_version: Vec<u8>,
    pub planner_policy_hash: Vec<u8>,
    pub budget_canonical_json: CheckedJson,
    pub budget_hash: Vec<u8>,
    pub risk_breakdown_canonical_json: CheckedJson,
    pub waves_canonical_json: CheckedJson,
    pub deferred_canonical_json: CheckedJson,
    pub identity_body_hash: Vec<u8>,
    pub body_hash: Vec<u8>,
}

impl StoredRow for ReviewPlanRow {
    open spec fn cells(&self) -> Seq<ExpectedView> {
        seq![
            ExpectedView::U64(self.event_sequence),
            ExpectedView::Text(self.event_id@),
            ExpectedView::Text(self.plan_id@),
            ExpectedView::Text(self.universe_id@),
            ExpectedView::Text(self.snapshot_id@),
            ExpectedView::Text(self.planner_input_hash@),
            ExpectedView::Text(self.planner_policy_version@),
            ExpectedView::Text(self.planner_policy_hash@),
            ExpectedView::CheckedText(self.budget_canonical_json.text@, self.budget_canonical_json.well_formed),
            ExpectedView::Text(self.budget_hash@),
            ExpectedView::CheckedText(self.risk_breakdown_canonical_json.text@, self.risk_breakdown_canonical_json.well_formed),
            ExpectedView::CheckedText(self.waves_canonical_json.text@, self.waves_canonical_json.well_formed),
            ExpectedView::CheckedText(self.deferred_canonical_json.text@, self.deferred_canonical_json.well_formed),
            ExpectedView::Text(self.identity_body_hash@),
            ExpectedView::Text(self.body_hash@),
        ]
    }

    fn expected(&self) -> (cells: Vec<ExpectedCell<'_>>) {
        let mut cells = Vec::new();
        cells.push(ExpectedCell::U64(self.event_sequence));
        cells.push(ExpectedCell::Text(self.event_id.as_slice()));
        cells.push(ExpectedCell::Text(self.plan_id.as_slice()));
        cells.push(ExpectedCell::Text(self.universe_id.as_slice()));
        cells.push(ExpectedCell::Text(self.snapshot_id.as_slice()));
        cells.push(ExpectedCell::Text(self.planner_input_hash.as_slice()));
        cells.push(ExpectedCell::Text(self.planner_policy_version.as_slice()));
        cells.push(ExpectedCell::Text(self.planner_policy_hash.as_slice()));
        cells.push(self.budget_canonical_json.expected());
        cells.push(ExpectedCell::Text(self.budget_hash.as_slice()));
        cells.push(self.risk_breakdown_canonical_json.expected());
        cells.push(self.waves_canonical_json.expected());
        cells.push(self.deferred_canonical_json.expected());
        cells.push(ExpectedCell::Text(self.identity_body_hash.as_slice()));
        cells.push(ExpectedCell::Text(self.body_hash.as_slice()));
        proof {
            assert(cells_view(cells@) =~= self.cells());
        }
        cells
    }
}

/// A row of `context_envelopes`.
///
/// Read back, in this column order, by
/// `SELECT event_sequence,event_id,envelope_id,snapshot_id,context_policy_version,context_policy_hash,candidate_ids_canonical_json,obligation_ids_canonical_json,context_policy_canonical_json,included_sources_canonical_json,excluded_sources_canonical_json,unknowns_canonical_json,assumptions_canonical_json,losses_canonical_json,projection_hash,body_hash FROM context_envelopes ORDER BY event_sequence,envelope_id`.
pub struct ContextEnvelopeRow {
    pub event_sequence: u64,
    pub event_id: Vec<u8>,
    pub envelope_id: Vec<u8>,
    pub snapshot_id: Vec<u8>,
    pub context_policy_version: Vec<u8>,
    pub context_policy_hash: Vec<u8>,
    pub candidate_ids_canonical_json: CheckedJson,
    pub obligation_ids_canonical_json: CheckedJson,
    pub context_policy_canonical_json: CheckedJson,
    pub included_sources_canonical_json: CheckedJson,
    pub excluded_sources_canonical_json: CheckedJson,
    pub unknowns_canonical_json: CheckedJson,
    pub assumptions_canonical_json: CheckedJson,
    pub losses_canonical_json: CheckedJson,
    pub projection_hash: Vec<u8>,
    pub body_hash: Vec<u8>,
}

impl StoredRow for ContextEnvelopeRow {
    open spec fn cells(&self) -> Seq<ExpectedView> {
        seq![
            ExpectedView::U64(self.event_sequence),
            ExpectedView::Text(self.event_id@),
            ExpectedView::Text(self.envelope_id@),
            ExpectedView::Text(self.snapshot_id@),
            ExpectedView::Text(self.context_policy_version@),
            ExpectedView::Text(self.context_policy_hash@),
            ExpectedView::CheckedText(self.candidate_ids_canonical_json.text@, self.candidate_ids_canonical_json.well_formed),
            ExpectedView::CheckedText(self.obligation_ids_canonical_json.text@, self.obligation_ids_canonical_json.well_formed),
            ExpectedView::CheckedText(self.context_policy_canonical_json.text@, self.context_policy_canonical_json.well_formed),
            ExpectedView::CheckedText(self.included_sources_canonical_json.text@, self.included_sources_canonical_json.well_formed),
            ExpectedView::CheckedText(self.excluded_sources_canonical_json.text@, self.excluded_sources_canonical_json.well_formed),
            ExpectedView::CheckedText(self.unknowns_canonical_json.text@, self.unknowns_canonical_json.well_formed),
            ExpectedView::CheckedText(self.assumptions_canonical_json.text@, self.assumptions_canonical_json.well_formed),
            ExpectedView::CheckedText(self.losses_canonical_json.text@, self.losses_canonical_json.well_formed),
            ExpectedView::Text(self.projection_hash@),
            ExpectedView::Text(self.body_hash@),
        ]
    }

    fn expected(&self) -> (cells: Vec<ExpectedCell<'_>>) {
        let mut cells = Vec::new();
        cells.push(ExpectedCell::U64(self.event_sequence));
        cells.push(ExpectedCell::Text(self.event_id.as_slice()));
        cells.push(ExpectedCell::Text(self.envelope_id.as_slice()));
        cells.push(ExpectedCell::Text(self.snapshot_id.as_slice()));
        cells.push(ExpectedCell::Text(self.context_policy_version.as_slice()));
        cells.push(ExpectedCell::Text(self.context_policy_hash.as_slice()));
        cells.push(self.candidate_ids_canonical_json.expected());
        cells.push(self.obligation_ids_canonical_json.expected());
        cells.push(self.context_policy_canonical_json.expected());
        cells.push(self.included_sources_canonical_json.expected());
        cells.push(self.excluded_sources_canonical_json.expected());
        cells.push(self.unknowns_canonical_json.expected());
        cells.push(self.assumptions_canonical_json.expected());
        cells.push(self.losses_canonical_json.expected());
        cells.push(ExpectedCell::Text(self.projection_hash.as_slice()));
        cells.push(ExpectedCell::Text(self.body_hash.as_slice()));
        proof {
            assert(cells_view(cells@) =~= self.cells());
        }
        cells
    }
}

/// A row of `executions`.
///
/// Read back, in this column order, by
/// `SELECT event_sequence,event_id,execution_id,plan_id,wave_id,snapshot_id,envelope_id,obligation_ids_canonical_json,reviewer_kind,reviewer_id,provider,model,model_revision,system_prompt_version,prompt_template_version,inference_settings_canonical_json,tool_policy_version,tool_calls_canonical_json,attempt,raw_registration_id,raw_hash,parsed_claim_ids_canonical_json,outcome_kind,outcome_canonical_json,identity_body_hash,body_hash FROM executions ORDER BY event_sequence,execution_id`.
pub struct ExecutionRow {
    pub event_sequence: u64,
    pub event_id: Vec<u8>,
    pub execution_id: Vec<u8>,
    pub plan_id: Vec<u8>,
    pub wave_id: Vec<u8>,
    pub snapshot_id: Vec<u8>,
    pub envelope_id: Vec<u8>,
    pub obligation_ids_canonical_json: CheckedJson,
    pub reviewer_kind: Vec<u8>,
    pub reviewer_id: Vec<u8>,
    pub provider: Option<Vec<u8>>,
    pub model: Option<Vec<u8>>,
    pub model_revision: Option<Vec<u8>>,
    pub system_prompt_version: Vec<u8>,
    pub prompt_template_version: Vec<u8>,
    pub inference_settings_canonical_json: CheckedJson,
    pub tool_policy_version: Vec<u8>,
    pub tool_calls_canonical_json: CheckedJson,
    pub attempt: u32,
    pub raw_registration_id: Vec<u8>,
    pub raw_hash: Vec<u8>,
    pub parsed_claim_ids_canonical_json: CheckedJson,
    pub outcome_kind: Vec<u8>,
    pub outcome_canonical_json: CheckedJson,
    pub identity_body_hash: Vec<u8>,
    pub body_hash: Vec<u8>,
}

impl StoredRow for ExecutionRow {
    open spec fn cells(&self) -> Seq<ExpectedView> {
        seq![
            ExpectedView::U64(self.event_sequence),
            ExpectedView::Text(self.event_id@),
            ExpectedView::Text(self.execution_id@),
            ExpectedView::Text(self.plan_id@),
            ExpectedView::Text(self.wave_id@),
            ExpectedView::Text(self.snapshot_id@),
            ExpectedView::Text(self.envelope_id@),
            ExpectedView::CheckedText(self.obligation_ids_canonical_json.text@, self.obligation_ids_canonical_json.well_formed),
            ExpectedView::Text(self.reviewer_kind@),
            ExpectedView::Text(self.reviewer_id@),
            ExpectedView::OptionalText(optional_view(self.provider)),
            ExpectedView::OptionalText(optional_view(self.model)),
            ExpectedView::OptionalText(optional_view(self.model_revision)),
            ExpectedView::Text(self.system_prompt_version@),
            ExpectedView::Text(self.prompt_template_version@),
            ExpectedView::CheckedText(self.inference_settings_canonical_json.text@, self.inference_settings_canonical_json.well_formed),
            ExpectedView::Text(self.tool_policy_version@),
            ExpectedView::CheckedText(self.tool_calls_canonical_json.text@, self.tool_calls_canonical_json.well_formed),
            ExpectedView::U64(self.attempt as u64),
            ExpectedView::Text(self.raw_registration_id@),
            ExpectedView::Text(self.raw_hash@),
            ExpectedView::CheckedText(self.parsed_claim_ids_canonical_json.text@, self.parsed_claim_ids_canonical_json.well_formed),
            ExpectedView::Text(self.outcome_kind@),
            ExpectedView::CheckedText(self.outcome_canonical_json.text@, self.outcome_canonical_json.well_formed),
            ExpectedView::Text(self.identity_body_hash@),
            ExpectedView::Text(self.body_hash@),
        ]
    }

    fn expected(&self) -> (cells: Vec<ExpectedCell<'_>>) {
        let mut cells = Vec::new();
        cells.push(ExpectedCell::U64(self.event_sequence));
        cells.push(ExpectedCell::Text(self.event_id.as_slice()));
        cells.push(ExpectedCell::Text(self.execution_id.as_slice()));
        cells.push(ExpectedCell::Text(self.plan_id.as_slice()));
        cells.push(ExpectedCell::Text(self.wave_id.as_slice()));
        cells.push(ExpectedCell::Text(self.snapshot_id.as_slice()));
        cells.push(ExpectedCell::Text(self.envelope_id.as_slice()));
        cells.push(self.obligation_ids_canonical_json.expected());
        cells.push(ExpectedCell::Text(self.reviewer_kind.as_slice()));
        cells.push(ExpectedCell::Text(self.reviewer_id.as_slice()));
        cells.push(ExpectedCell::OptionalText(optional_slice(&self.provider)));
        cells.push(ExpectedCell::OptionalText(optional_slice(&self.model)));
        cells.push(ExpectedCell::OptionalText(optional_slice(&self.model_revision)));
        cells.push(ExpectedCell::Text(self.system_prompt_version.as_slice()));
        cells.push(ExpectedCell::Text(self.prompt_template_version.as_slice()));
        cells.push(self.inference_settings_canonical_json.expected());
        cells.push(ExpectedCell::Text(self.tool_policy_version.as_slice()));
        cells.push(self.tool_calls_canonical_json.expected());
        cells.push(ExpectedCell::U64(self.attempt as u64));
        cells.push(ExpectedCell::Text(self.raw_registration_id.as_slice()));
        cells.push(ExpectedCell::Text(self.raw_hash.as_slice()));
        cells.push(self.parsed_claim_ids_canonical_json.expected());
        cells.push(ExpectedCell::Text(self.outcome_kind.as_slice()));
        cells.push(self.outcome_canonical_json.expected());
        cells.push(ExpectedCell::Text(self.identity_body_hash.as_slice()));
        cells.push(ExpectedCell::Text(self.body_hash.as_slice()));
        proof {
            assert(cells_view(cells@) =~= self.cells());
        }
        cells
    }
}

/// A row of `claims`.
///
/// Read back, in this column order, by
/// `SELECT event_sequence,event_id,claim_id,execution_id,obligation_ids_canonical_json,property_id,target_refs_canonical_json,polarity,disposition,summary,source_ids_canonical_json,assumptions_canonical_json,requested_evidence_canonical_json,candidate_confidence_canonical_json,author_kind,review_status,identity_body_hash,body_hash FROM claims ORDER BY event_sequence,claim_id`.
pub struct ClaimRow {
    pub event_sequence: u64,
    pub event_id: Vec<u8>,
    pub claim_id: Vec<u8>,
    pub execution_id: Vec<u8>,
    pub obligation_ids_canonical_json: CheckedJson,
    pub property_id: Vec<u8>,
    pub target_refs_canonical_json: CheckedJson,
    pub polarity: Vec<u8>,
    pub disposition: Vec<u8>,
    pub summary: Vec<u8>,
    pub source_ids_canonical_json: CheckedJson,
    pub assumptions_canonical_json: CheckedJson,
    pub requested_evidence_canonical_json: CheckedJson,
    pub candidate_confidence_canonical_json: CheckedJson,
    pub author_kind: Vec<u8>,
    pub review_status: Vec<u8>,
    pub identity_body_hash: Vec<u8>,
    pub body_hash: Vec<u8>,
}

impl StoredRow for ClaimRow {
    open spec fn cells(&self) -> Seq<ExpectedView> {
        seq![
            ExpectedView::U64(self.event_sequence),
            ExpectedView::Text(self.event_id@),
            ExpectedView::Text(self.claim_id@),
            ExpectedView::Text(self.execution_id@),
            ExpectedView::CheckedText(self.obligation_ids_canonical_json.text@, self.obligation_ids_canonical_json.well_formed),
            ExpectedView::Text(self.property_id@),
            ExpectedView::CheckedText(self.target_refs_canonical_json.text@, self.target_refs_canonical_json.well_formed),
            ExpectedView::Text(self.polarity@),
            ExpectedView::Text(self.disposition@),
            ExpectedView::Text(self.summary@),
            ExpectedView::CheckedText(self.source_ids_canonical_json.text@, self.source_ids_canonical_json.well_formed),
            ExpectedView::CheckedText(self.assumptions_canonical_json.text@, self.assumptions_canonical_json.well_formed),
            ExpectedView::CheckedText(self.requested_evidence_canonical_json.text@, self.requested_evidence_canonical_json.well_formed),
            ExpectedView::CheckedText(self.candidate_confidence_canonical_json.text@, self.candidate_confidence_canonical_json.well_formed),
            ExpectedView::Text(self.author_kind@),
            ExpectedView::Text(self.review_status@),
            ExpectedView::Text(self.identity_body_hash@),
            ExpectedView::Text(self.body_hash@),
        ]
    }

    fn expected(&self) -> (cells: Vec<ExpectedCell<'_>>) {
        let mut cells = Vec::new();
        cells.push(ExpectedCell::U64(self.event_sequence));
        cells.push(ExpectedCell::Text(self.event_id.as_slice()));
        cells.push(ExpectedCell::Text(self.claim_id.as_slice()));
        cells.push(ExpectedCell::Text(self.execution_id.as_slice()));
        cells.push(self.obligation_ids_canonical_json.expected());
        cells.push(ExpectedCell::Text(self.property_id.as_slice()));
        cells.push(self.target_refs_canonical_json.expected());
        cells.push(ExpectedCell::Text(self.polarity.as_slice()));
        cells.push(ExpectedCell::Text(self.disposition.as_slice()));
        cells.push(ExpectedCell::Text(self.summary.as_slice()));
        cells.push(self.source_ids_canonical_json.expected());
        cells.push(self.assumptions_canonical_json.expected());
        cells.push(self.requested_evidence_canonical_json.expected());
        cells.push(self.candidate_confidence_canonical_json.expected());
        cells.push(ExpectedCell::Text(self.author_kind.as_slice()));
        cells.push(ExpectedCell::Text(self.review_status.as_slice()));
        cells.push(ExpectedCell::Text(self.identity_body_hash.as_slice()));
        cells.push(ExpectedCell::Text(self.body_hash.as_slice()));
        proof {
            assert(cells_view(cells@) =~= self.cells());
        }
        cells
    }
}

/// A row of `unreconciled_authority_records`; none is ever reconciled.
///
/// Read back, in this column order, by
/// `SELECT event_sequence,event_id,record_id,kind,body_hash,authority_reconciled FROM unreconciled_authority_records ORDER BY event_sequence,record_id`.
pub struct ShadowRow {
    pub event_sequence: u64,
    pub event_id: Vec<u8>,
    pub record_id: Vec<u8>,
    pub kind: Vec<u8>,
    pub body_hash: Vec<u8>,
}

impl StoredRow for ShadowRow {
    open spec fn cells(&self) -> Seq<ExpectedView> {
        seq![
            ExpectedView::U64(self.event_sequence),
            ExpectedView::Text(self.event_id@),
            ExpectedView::Text(self.record_id@),
            ExpectedView::Text(self.kind@),
            ExpectedView::Text(self.body_hash@),
            ExpectedView::Bool(false),
        ]
    }

    fn expected(&self) -> (cells: Vec<ExpectedCell<'_>>) {
        let mut cells = Vec::new();
        cells.push(ExpectedCell::U64(self.event_sequence));
        cells.push(ExpectedCell::Text(self.event_id.as_slice()));
        cells.push(ExpectedCell::Text(self.record_id.as_slice()));
        cells.push(ExpectedCell::Text(self.kind.as_slice()));
        cells.push(ExpectedCell::Text(self.body_hash.as_slice()));
        cells.push(ExpectedCell::Bool(false));
        proof {
            assert(cells_view(cells@) =~= self.cells());
        }
        cells
    }
}

/// A row of `projected_findings`.
///
/// Read back, in this column order, by
/// `SELECT event_sequence,event_id,finding_id,body_hash,projection_status FROM projected_findings ORDER BY event_sequence,finding_id`.
pub struct ProjectedFindingRow {
    pub event_sequence: u64,
    pub event_id: Vec<u8>,
    pub finding_id: Vec<u8>,
    pub body_hash: Vec<u8>,
    pub projection_status: Vec<u8>,
}

impl StoredRow for ProjectedFindingRow {
    open spec fn cells(&self) -> Seq<ExpectedView> {
        seq![
            ExpectedView::U64(self.event_sequence),
            ExpectedView::Text(self.event_id@),
            ExpectedView::Text(self.finding_id@),
            ExpectedView::Text(self.body_hash@),
            ExpectedView::Text(self.projection_status@),
        ]
    }

    fn expected(&self) -> (cells: Vec<ExpectedCell<'_>>) {
        let mut cells = Vec::new();
        cells.push(ExpectedCell::U64(self.event_sequence));
        cells.push(ExpectedCell::Text(self.event_id.as_slice()));
        cells.push(ExpectedCell::Text(self.finding_id.as_slice()));
        cells.push(ExpectedCell::Text(self.body_hash.as_slice()));
        cells.push(ExpectedCell::Text(self.projection_status.as_slice()));
        proof {
            assert(cells_view(cells@) =~= self.cells());
        }
        cells
    }
}

/// A row of `evidence_v3`.
///
/// Read back, in this column order, by
/// `SELECT event_sequence,event_id,evidence_id,schema,kind,snapshot_id,subject_ids_canonical_json,descriptor_id,procedure_version,input_registration_id,output_registration_id,observation,body_hash FROM evidence_v3 ORDER BY event_sequence,evidence_id`.
pub struct EvidenceRow {
    pub event_sequence: u64,
    pub event_id: Vec<u8>,
    pub evidence_id: Vec<u8>,
    pub schema: Vec<u8>,
    pub kind: Vec<u8>,
    pub snapshot_id: Vec<u8>,
    pub subject_ids_canonical_json: CheckedJson,
    pub descriptor_id: Vec<u8>,
    pub procedure_version: Vec<u8>,
    pub input_registration_id: Vec<u8>,
    pub output_registration_id: Vec<u8>,
    pub observation: Vec<u8>,
    pub body_hash: Vec<u8>,
}

impl StoredRow for EvidenceRow {
    open spec fn cells(&self) -> Seq<ExpectedView> {
        seq![
            ExpectedView::U64(self.event_sequence),
            ExpectedView::Text(self.event_id@),
            ExpectedView::Text(self.evidence_id@),
            ExpectedView::Text(self.schema@),
            ExpectedView::Text(self.kind@),
            ExpectedView::Text(self.snapshot_id@),
            ExpectedView::CheckedText(self.subject_ids_canonical_json.text@, self.subject_ids_canonical_json.well_formed),
            ExpectedView::Text(self.descriptor_id@),
            ExpectedView::Text(self.procedure_version@),
            ExpectedView::Text(self.input_registration_id@),
            ExpectedView::Text(self.output_registration_id@),
            ExpectedView::Text(self.observation@),
            ExpectedView::Text(self.body_hash@),
        ]
    }

    fn expected(&self) -> (cells: Vec<ExpectedCell<'_>>) {
        let mut cells = Vec::new();
        cells.push(ExpectedCell::U64(self.event_sequence));
        cells.push(ExpectedCell::Text(self.event_id.as_slice()));
        cells.push(ExpectedCell::Text(self.evidence_id.as_slice()));
        cells.push(ExpectedCell::Text(self.schema.as_slice()));
        cells.push(ExpectedCell::Text(self.kind.as_slice()));
        cells.push(ExpectedCell::Text(self.snapshot_id.as_slice()));
        cells.push(self.subject_ids_canonical_json.expected());
        cells.push(ExpectedCell::Text(self.descriptor_id.as_slice()));
        cells.push(ExpectedCell::Text(self.procedure_version.as_slice()));
        cells.push(ExpectedCell::Text(self.input_registration_id.as_slice()));
        cells.push(ExpectedCell::Text(self.output_registration_id.as_slice()));
        cells.push(ExpectedCell::Text(self.observation.as_slice()));
        cells.push(ExpectedCell::Text(self.body_hash.as_slice()));
        proof {
            assert(cells_view(cells@) =~= self.cells());
        }
        cells
    }
}

/// A row of `evidence_bindings_v3`.
///
/// Read back, in this column order, by
/// `SELECT event_sequence,event_id,binding_id,schema,claim_id,evidence_id,relation,property_id,body_hash FROM evidence_bindings_v3 ORDER BY event_sequence,binding_id`.
pub struct EvidenceBindingRow {
    pub event_sequence: u64,
    pub event_id: Vec<u8>,
    pub binding_id: Vec<u8>,
    pub schema: Vec<u8>,
    pub claim_id: Vec<u8>,
    pub evidence_id: Vec<u8>,
    pub relation: Vec<u8>,
    pub property_id: Vec<u8>,
    pub body_hash: Vec<u8>,
}

impl StoredRow for EvidenceBindingRow {
    open spec fn cells(&self) -> Seq<ExpectedView> {
        seq![
            ExpectedView::U64(self.event_sequence),
            ExpectedView::Text(self.event_id@),
            ExpectedView::Text(self.binding_id@),
            ExpectedView::Text(self.schema@),
            ExpectedView::Text(self.claim_id@),
            ExpectedView::Text(self.evidence_id@),
            ExpectedView::Text(self.relation@),
            ExpectedView::Text(self.property_id@),
            ExpectedView::Text(self.body_hash@),
        ]
    }

    fn expected(&self) -> (cells: Vec<ExpectedCell<'_>>) {
        let mut cells = Vec::new();
        cells.push(ExpectedCell::U64(self.event_sequence));
        cells.push(ExpectedCell::Text(self.event_id.as_slice()));
        cells.push(ExpectedCell::Text(self.binding_id.as_slice()));
        cells.push(ExpectedCell::Text(self.schema.as_slice()));
        cells.push(ExpectedCell::Text(self.claim_id.as_slice()));
        cells.push(ExpectedCell::Text(self.evidence_id.as_slice()));
        cells.push(ExpectedCell::Text(self.relation.as_slice()));
        cells.push(ExpectedCell::Text(self.property_id.as_slice()));
        cells.push(ExpectedCell::Text(self.body_hash.as_slice()));
        proof {
            assert(cells_view(cells@) =~= self.cells());
        }
        cells
    }
}

/// A row of `verifications_v3`.
///
/// Read back, in this column order, by
/// `SELECT event_sequence,event_id,verification_id,schema,claim_id,descriptor_id,procedure_version,input_registration_id,output_registration_id,evidence_ids_canonical_json,outcome,limitations_canonical_json,body_hash FROM verifications_v3 ORDER BY event_sequence,verification_id`.
pub struct VerificationRow {
    pub event_sequence: u64,
    pub event_id: Vec<u8>,
    pub verification_id: Vec<u8>,
    pub schema: Vec<u8>,
    pub claim_id: Vec<u8>,
    pub descriptor_id: Vec<u8>,
    pub procedure_version: Vec<u8>,
    pub input_registration_id: Vec<u8>,
    pub output_registration_id: Vec<u8>,
    pub evidence_ids_canonical_json: CheckedJson,
    pub outcome: Vec<u8>,
    pub limitations_canonical_json: CheckedJson,
    pub body_hash: Vec<u8>,
}

impl StoredRow for VerificationRow {
    open spec fn cells(&self) -> Seq<ExpectedView> {
        seq![
            ExpectedView::U64(self.event_sequence),
            ExpectedView::Text(self.event_id@),
            ExpectedView::Text(self.verification_id@),
            ExpectedView::Text(self.schema@),
            ExpectedView::Text(self.claim_id@),
            ExpectedView::Text(self.descriptor_id@),
            ExpectedView::Text(self.procedure_version@),
            ExpectedView::Text(self.input_registration_id@),
            ExpectedView::Text(self.output_registration_id@),
            ExpectedView::CheckedText(self.evidence_ids_canonical_json.text@, self.evidence_ids_canonical_json.well_formed),
            ExpectedView::Text(self.outcome@),
            ExpectedView::CheckedText(self.limitations_canonical_json.text@, self.limitations_canonical_json.well_formed),
            ExpectedView::Text(self.body_hash@),
        ]
    }

    fn expected(&self) -> (cells: Vec<ExpectedCell<'_>>) {
        let mut cells = Vec::new();
        cells.push(ExpectedCell::U64(self.event_sequence));
        cells.push(ExpectedCell::Text(self.event_id.as_slice()));
        cells.push(ExpectedCell::Text(self.verification_id.as_slice()));
        cells.push(ExpectedCell::Text(self.schema.as_slice()));
        cells.push(ExpectedCell::Text(self.claim_id.as_slice()));
        cells.push(ExpectedCell::Text(self.descriptor_id.as_slice()));
        cells.push(ExpectedCell::Text(self.procedure_version.as_slice()));
        cells.push(ExpectedCell::Text(self.input_registration_id.as_slice()));
        cells.push(ExpectedCell::Text(self.output_registration_id.as_slice()));
        cells.push(self.evidence_ids_canonical_json.expected());
        cells.push(ExpectedCell::Text(self.outcome.as_slice()));
        cells.push(self.limitations_canonical_json.expected());
        cells.push(ExpectedCell::Text(self.body_hash.as_slice()));
        proof {
            assert(cells_view(cells@) =~= self.cells());
        }
        cells
    }
}

/// A row of `decisions_v3`.
///
/// Read back, in this column order, by
/// `SELECT event_sequence,event_id,decision_id,schema,policy_revision_hash,run_id,universe_id,claim_id,property_id,outcome,actor,authority_id,snapshot_id,source_ids_canonical_json,rationale,issued_at,expires_at,body_hash FROM decisions_v3 ORDER BY event_sequence,decision_id`.
pub struct DecisionRow {
    pub event_sequence: u64,
    pub event_id: Vec<u8>,
    pub decision_id: Vec<u8>,
    pub schema: Vec<u8>,
    pub policy_revision_hash: Vec<u8>,
    pub run_id: Vec<u8>,
    pub universe_id: Vec<u8>,
    pub claim_id: Vec<u8>,
    pub property_id: Vec<u8>,
    pub outcome: Vec<u8>,
    pub actor: Vec<u8>,
    pub authority_id: Vec<u8>,
    pub snapshot_id: Vec<u8>,
    pub source_ids_canonical_json: CheckedJson,
    pub rationale: Vec<u8>,
    pub issued_at: Vec<u8>,
    pub expires_at: Option<Vec<u8>>,
    pub body_hash: Vec<u8>,
}

impl StoredRow for DecisionRow {
    open spec fn cells(&self) -> Seq<ExpectedView> {
        seq![
            ExpectedView::U64(self.event_sequence),
            ExpectedView::Text(self.event_id@),
            ExpectedView::Text(self.decision_id@),
            ExpectedView::Text(self.schema@),
            ExpectedView::Text(self.policy_revision_hash@),
            ExpectedView::Text(self.run_id@),
            ExpectedView::Text(self.universe_id@),
            ExpectedView::Text(self.claim_id@),
            ExpectedView::Text(self.property_id@),
            ExpectedView::Text(self.outcome@),
            ExpectedView::Text(self.actor@),
            ExpectedView::Text(self.authority_id@),
            ExpectedView::Text(self.snapshot_id@),
            ExpectedView::CheckedText(self.source_ids_canonical_json.text@, self.source_ids_canonical_json.well_formed),
            ExpectedView::Text(self.rationale@),
            ExpectedView::Text(self.issued_at@),
            ExpectedView::OptionalText(optional_view(self.expires_at)),
            ExpectedView::Text(self.body_hash@),
        ]
    }

    fn expected(&self) -> (cells: Vec<ExpectedCell<'_>>) {
        let mut cells = Vec::new();
        cells.push(ExpectedCell::U64(self.event_sequence));
        cells.push(ExpectedCell::Text(self.event_id.as_slice()));
        cells.push(ExpectedCell::Text(self.decision_id.as_slice()));
        cells.push(ExpectedCell::Text(self.schema.as_slice()));
        cells.push(ExpectedCell::Text(self.policy_revision_hash.as_slice()));
        cells.push(ExpectedCell::Text(self.run_id.as_slice()));
        cells.push(ExpectedCell::Text(self.universe_id.as_slice()));
        cells.push(ExpectedCell::Text(self.claim_id.as_slice()));
        cells.push(ExpectedCell::Text(self.property_id.as_slice()));
        cells.push(ExpectedCell::Text(self.outcome.as_slice()));
        cells.push(ExpectedCell::Text(self.actor.as_slice()));
        cells.push(ExpectedCell::Text(self.authority_id.as_slice()));
        cells.push(ExpectedCell::Text(self.snapshot_id.as_slice()));
        cells.push(self.source_ids_canonical_json.expected());
        cells.push(ExpectedCell::Text(self.rationale.as_slice()));
        cells.push(ExpectedCell::Text(self.issued_at.as_slice()));
        cells.push(ExpectedCell::OptionalText(optional_slice(&self.expires_at)));
        cells.push(ExpectedCell::Text(self.body_hash.as_slice()));
        proof {
            assert(cells_view(cells@) =~= self.cells());
        }
        cells
    }
}

/// A row of `findings_v3`.
///
/// Read back, in this column order, by
/// `SELECT event_sequence,event_id,finding_id,schema,projection_descriptor_id,claim_id,status,evidence_ids_canonical_json,verification_ids_canonical_json,decision_id,supersedes_finding_id,body_hash FROM findings_v3 ORDER BY event_sequence,finding_id`.
pub struct FindingRow {
    pub event_sequence: u64,
    pub event_id: Vec<u8>,
    pub finding_id: Vec<u8>,
    pub schema: Vec<u8>,
    pub projection_descriptor_id: Vec<u8>,
    pub claim_id: Vec<u8>,
    pub status: Vec<u8>,
    pub evidence_ids_canonical_json: CheckedJson,
    pub verification_ids_canonical_json: CheckedJson,
    pub decision_id: Option<Vec<u8>>,
    pub supersedes_finding_id: Option<Vec<u8>>,
    pub body_hash: Vec<u8>,
}

impl StoredRow for FindingRow {
    open spec fn cells(&self) -> Seq<ExpectedView> {
        seq![
            ExpectedView::U64(self.event_sequence),
            ExpectedView::Text(self.event_id@),
            ExpectedView::Text(self.finding_id@),
            ExpectedView::Text(self.schema@),
            ExpectedView::Text(self.projection_descriptor_id@),
            ExpectedView::Text(self.claim_id@),
            ExpectedView::Text(self.status@),
            ExpectedView::CheckedText(self.evidence_ids_canonical_json.text@, self.evidence_ids_canonical_json.well_formed),
            ExpectedView::CheckedText(self.verification_ids_canonical_json.text@, self.verification_ids_canonical_json.well_formed),
            ExpectedView::OptionalText(optional_view(self.decision_id)),
            ExpectedView::OptionalText(optional_view(self.supersedes_finding_id)),
            ExpectedView::Text(self.body_hash@),
        ]
    }

    fn expected(&self) -> (cells: Vec<ExpectedCell<'_>>) {
        let mut cells = Vec::new();
        cells.push(ExpectedCell::U64(self.event_sequence));
        cells.push(ExpectedCell::Text(self.event_id.as_slice()));
        cells.push(ExpectedCell::Text(self.finding_id.as_slice()));
        cells.push(ExpectedCell::Text(self.schema.as_slice()));
        cells.push(ExpectedCell::Text(self.projection_descriptor_id.as_slice()));
        cells.push(ExpectedCell::Text(self.claim_id.as_slice()));
        cells.push(ExpectedCell::Text(self.status.as_slice()));
        cells.push(self.evidence_ids_canonical_json.expected());
        cells.push(self.verification_ids_canonical_json.expected());
        cells.push(ExpectedCell::OptionalText(optional_slice(&self.decision_id)));
        cells.push(ExpectedCell::OptionalText(optional_slice(&self.supersedes_finding_id)));
        cells.push(ExpectedCell::Text(self.body_hash.as_slice()));
        proof {
            assert(cells_view(cells@) =~= self.cells());
        }
        cells
    }
}

/// A row of `claim_assessments_v3`.
///
/// Read back, in this column order, by
/// `SELECT claim_id,disposition,review_status,binding_ids_canonical_json,evidence_ids_canonical_json,verification_ids_canonical_json,decision_ids_canonical_json,finding_ids_canonical_json,active_decision_id,current_finding_id,decision_conflict,confirmed_event_sequence FROM claim_assessments_v3 ORDER BY claim_id`.
pub struct ClaimAssessmentRow {
    pub claim_id: Vec<u8>,
    pub disposition: Vec<u8>,
    pub review_status: Vec<u8>,
    pub binding_ids_canonical_json: CheckedJson,
    pub evidence_ids_canonical_json: CheckedJson,
    pub verification_ids_canonical_json: CheckedJson,
    pub decision_ids_canonical_json: CheckedJson,
    pub finding_ids_canonical_json: CheckedJson,
    pub active_decision_id: Option<Vec<u8>>,
    pub current_finding_id: Option<Vec<u8>>,
    pub decision_conflict: bool,
    pub confirmed_event_sequence: u64,
}

impl StoredRow for ClaimAssessmentRow {
    open spec fn cells(&self) -> Seq<ExpectedView> {
        seq![
            ExpectedView::Text(self.claim_id@),
            ExpectedView::Text(self.disposition@),
            ExpectedView::Text(self.review_status@),
            ExpectedView::CheckedText(self.binding_ids_canonical_json.text@, self.binding_ids_canonical_json.well_formed),
            ExpectedView::CheckedText(self.evidence_ids_canonical_json.text@, self.evidence_ids_canonical_json.well_formed),
            ExpectedView::CheckedText(self.verification_ids_canonical_json.text@, self.verification_ids_canonical_json.well_formed),
            ExpectedView::CheckedText(self.decision_ids_canonical_json.text@, self.decision_ids_canonical_json.well_formed),
            ExpectedView::CheckedText(self.finding_ids_canonical_json.text@, self.finding_ids_canonical_json.well_formed),
            ExpectedView::OptionalText(optional_view(self.active_decision_id)),
            ExpectedView::OptionalText(optional_view(self.current_finding_id)),
            ExpectedView::Bool(self.decision_conflict),
            ExpectedView::U64(self.confirmed_event_sequence),
        ]
    }

    fn expected(&self) -> (cells: Vec<ExpectedCell<'_>>) {
        let mut cells = Vec::new();
        cells.push(ExpectedCell::Text(self.claim_id.as_slice()));
        cells.push(ExpectedCell::Text(self.disposition.as_slice()));
        cells.push(ExpectedCell::Text(self.review_status.as_slice()));
        cells.push(self.binding_ids_canonical_json.expected());
        cells.push(self.evidence_ids_canonical_json.expected());
        cells.push(self.verification_ids_canonical_json.expected());
        cells.push(self.decision_ids_canonical_json.expected());
        cells.push(self.finding_ids_canonical_json.expected());
        cells.push(ExpectedCell::OptionalText(optional_slice(&self.active_decision_id)));
        cells.push(ExpectedCell::OptionalText(optional_slice(&self.current_finding_id)));
        cells.push(ExpectedCell::Bool(self.decision_conflict));
        cells.push(ExpectedCell::U64(self.confirmed_event_sequence));
        proof {
            assert(cells_view(cells@) =~= self.cells());
        }
        cells
    }
}

/// The rows a v4 snapshot stores, table by table, in storage order.
pub struct SnapshotCellsV4 {
    pub marker: MarkerRow,
    pub events: Vec<EventRow>,
    pub program_objects: Vec<ProgramObjectRow>,
    pub program_relations: Vec<ProgramRelationRow>,
    pub universe: Option<UniverseRow>,
    pub obligations: Vec<ObligationRow>,
    pub obligation_lifecycle: Vec<ObligationLifecycleRow>,
    pub artifact_registrations: Vec<ArtifactRegistrationRow>,
    pub snapshot_sources: Vec<SnapshotSourceRow>,
    pub review_plans: Vec<ReviewPlanRow>,
    pub context_envelopes: Vec<ContextEnvelopeRow>,
    pub executions: Vec<ExecutionRow>,
    pub claims: Vec<ClaimRow>,
    pub shadows: Vec<ShadowRow>,
    pub projected_findings: Vec<ProjectedFindingRow>,
    pub evidence: Vec<EvidenceRow>,
    pub evidence_bindings: Vec<EvidenceBindingRow>,
    pub verifications: Vec<VerificationRow>,
    pub decisions: Vec<DecisionRow>,
    pub findings: Vec<FindingRow>,
    pub claim_assessments: Vec<ClaimAssessmentRow>,
}

/// The cells of every table a v4 image holds, in read-back order: the
/// marker row, each table's rows in storage order, and the universe row
/// when the run has one.
pub open spec fn expected_v4_cells(s: SnapshotCellsV4) -> Seq<Seq<Seq<ExpectedView>>> {
    seq![
        seq![s.marker.cells()],
        rows_cells(s.events@),
        rows_cells(s.program_objects@),
        rows_cells(s.program_relations@),
        match s.universe {
            Some(row) => seq![row.cells()],
            None => Seq::empty(),
        },
        rows_cells(s.obligations@),
        rows_cells(s.obligation_lifecycle@),
        rows_cells(s.artifact_registrations@),
        rows_cells(s.snapshot_sources@),
        rows_cells(s.review_plans@),
        rows_cells(s.context_envelopes@),
        rows_cells(s.executions@),
        rows_cells(s.claims@),
        rows_cells(s.shadows@),
        rows_cells(s.projected_findings@),
        rows_cells(s.evidence@),
        rows_cells(s.evidence_bindings@),
        rows_cells(s.verifications@),
        rows_cells(s.decisions@),
        rows_cells(s.findings@),
        rows_cells(s.claim_assessments@),
    ]
}

/// The expected cells of every table, borrowed from the snapshot.
pub fn expected_v4_image(s: &SnapshotCellsV4) -> (image: Vec<Vec<Vec<ExpectedCell<'_>>>>)
    ensures
        image_view(image@) == expected_v4_cells(*s),
{
    let mut image: Vec<Vec<Vec<ExpectedCell<'_>>>> = Vec::new();
    let mut marker: Vec<Vec<ExpectedCell<'_>>> = Vec::new();
    marker.push(s.marker.expected());
    proof {
        assert(table_view(marker@) =~= seq![s.marker.cells()]);
    }
    image.push(marker);
    image.push(expected_table(&s.events));
    image.push(expected_table(&s.program_objects));
    image.push(expected_table(&s.program_relations));
    let mut universe: Vec<Vec<ExpectedCell<'_>>> = Vec::new();
    match &s.universe {
        Some(row) => universe.push(row.expected()),
        None => {},
    }
    proof {
        match &s.universe {
            Some(row) => assert(table_view(universe@) =~= seq![row.cells()]),
            None => assert(table_view(universe@) =~= Seq::<Seq<ExpectedView>>::empty()),
        }
    }
    image.push(universe);
    image.push(expected_table(&s.obligations));
    image.push(expected_table(&s.obligation_lifecycle));
    image.push(expected_table(&s.artifact_registrations));
    image.push(expected_table(&s.snapshot_sources));
    image.push(expected_table(&s.review_plans));
    image.push(expected_table(&s.context_envelopes));
    image.push(expected_table(&s.executions));
    image.push(expected_table(&s.claims));
    image.push(expected_table(&s.shadows));
    image.push(expected_table(&s.projected_findings));
    image.push(expected_table(&s.evidence));
    image.push(expected_table(&s.evidence_bindings));
    image.push(expected_table(&s.verifications));
    image.push(expected_table(&s.decisions));
    image.push(expected_table(&s.findings));
    image.push(expected_table(&s.claim_assessments));
    proof {
        assert(image_view(image@) =~= expected_v4_cells(*s));
    }
    image
}

/// Reads a v4 image back: `tables` holds, for each read-back query in
/// order, the rows it returned.  Every stored cell is length-checked and
/// byte-compared with the snapshot field that belongs there, JSON columns
/// also carry their verdict, a missing or extra row or table is
/// corruption, and the first failure in storage order is the result.
pub fn validate_v4_rows(
    tables: &Vec<Vec<Vec<SqlCell>>>,
    snapshot: &SnapshotCellsV4,
    limits: IndexLimits,
) -> (result: Result<(), IndexError>)
    ensures
        result == image_outcome(stored_image(tables@), expected_v4_cells(*snapshot), limits),
        result is Ok ==> {
            let stored = stored_image(tables@);
            let expected = expected_v4_cells(*snapshot);
            &&& stored.len() == V4_READBACK_TABLE_COUNT
            &&& forall|t: int|
                0 <= t < expected.len() ==> (#[trigger] stored[t]).len() == expected[t].len()
            &&& forall|t: int, i: int|
                0 <= t < expected.len() && 0 <= i < expected[t].len() ==> #[trigger] row_outcome(
                    stored[t][i],
                    expected[t][i],
                    limits,
                ) is Ok
        },
{
    let expected = expected_v4_image(snapshot);
    let result = compare_image(tables, &expected, limits);
    proof {
        if result is Ok {
            lemma_image_outcome_ok(stored_image(tables@), expected_v4_cells(*snapshot), limits);
        }
    }
    result
}

} // verus!
