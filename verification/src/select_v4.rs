//! The report selection of a validated v4 image: what SQL answered for a
//! plan's selected obligations, paired with the retained snapshot rows and
//! obligations it names, in the fixed emission order, with the counts and
//! coverage relations the report relies on.

use vstd::prelude::*;
use crate::error::IndexError;
use crate::json_model::utf8_valid;
use crate::selection::{
    check_selection_scope, id_stop, key_less, keyed_stop, lemma_id_stop_forward,
    lemma_keyed_stop_forward, selected_max_cas_bytes, SelectionCursor, SelectionKey,
    V4CoverageAxis, V4SelectionCounts, V4SelectionRowKind, V4SelectionSummary,
};

verus! {

/// A row of a keyed selection query: its event sequence and its ID, `None`
/// when the ID is not text.
pub struct SqlKeyRow {
    pub sequence: i64,
    pub id: Option<Vec<u8>>,
}

/// The value of an ID as SQL returned it.
pub open spec fn id_view(id: Option<Vec<u8>>) -> Option<Seq<u8>> {
    match id {
        Some(id) => Some(id@),
        None => None,
    }
}

/// The values of a column of IDs.
pub open spec fn ids_view(ids: Seq<Option<Vec<u8>>>) -> Seq<Option<Seq<u8>>> {
    ids.map_values(|id: Option<Vec<u8>>| id_view(id))
}

/// Where pairing resumes after `positions` were paired: just past the last.
pub open spec fn next_start(positions: Seq<usize>) -> int {
    if positions.len() == 0 {
        0
    } else {
        positions.last() + 1
    }
}

/// Pairs each keyed SQL row, in order, with the retained row of the same
/// key, moving forward through `source`: the positions paired, or the
/// first failure.
pub open spec fn pair_keyed(source: Seq<SelectionKey>, rows: Seq<SqlKeyRow>) -> Result<
    Seq<usize>,
    IndexError,
>
    decreases rows.len(),
{
    if rows.len() == 0 {
        Ok(Seq::empty())
    } else {
        match pair_keyed(source, rows.drop_last()) {
            Err(error) => Err(error),
            Ok(positions) => {
                let row = rows.last();
                if row.sequence < 0 || row.id is None || !utf8_valid(row.id.unwrap()@, 0) {
                    Err(IndexError::ProjectionContractViolation)
                } else {
                    let id = row.id.unwrap()@;
                    let stop = keyed_stop(source, next_start(positions), row.sequence as u64, id);
                    if stop < source.len() && source[stop].sequence == row.sequence
                        && source[stop].id@ == id {
                        if positions.len() == u64::MAX {
                            Err(IndexError::IntegerOutOfRange)
                        } else {
                            Ok(positions.push(stop as usize))
                        }
                    } else {
                        Err(IndexError::ProjectionContractViolation)
                    }
                }
            },
        }
    }
}

/// Pairs each coverage ID, in order, with the obligation of the same ID,
/// moving forward through `source`: the positions paired, or the first
/// failure.
pub open spec fn pair_ids(source: Seq<Vec<u8>>, ids: Seq<Option<Seq<u8>>>) -> Result<
    Seq<usize>,
    IndexError,
>
    decreases ids.len(),
{
    if ids.len() == 0 {
        Ok(Seq::empty())
    } else {
        match pair_ids(source, ids.drop_last()) {
            Err(error) => Err(error),
            Ok(positions) => {
                let id = ids.last();
                if id is None || !utf8_valid(id.unwrap(), 0) {
                    Err(IndexError::ProjectionContractViolation)
                } else {
                    let stop = id_stop(source, next_start(positions), id.unwrap());
                    if stop < source.len() && source[stop]@ == id.unwrap() {
                        if positions.len() == u64::MAX {
                            Err(IndexError::IntegerOutOfRange)
                        } else {
                            Ok(positions.push(stop as usize))
                        }
                    } else {
                        Err(IndexError::ProjectionContractViolation)
                    }
                }
            },
        }
    }
}

/// Whether positions strictly increase, each inside a source of `len`.
pub open spec fn increasing_within(positions: Seq<usize>, len: nat) -> bool {
    &&& forall|i: int, j: int| 0 <= i < j < positions.len() ==> positions[i] < positions[j]
    &&& forall|i: int| 0 <= i < positions.len() ==> #[trigger] positions[i] < len
}

/// Whether the retained row at `position` carries the key of `row`.
pub open spec fn keyed_paired(source: Seq<SelectionKey>, position: usize, row: SqlKeyRow) -> bool {
    &&& source[position as int].sequence == row.sequence
    &&& id_view(row.id) == Some(source[position as int].id@)
}


/// Whether retained rows are strictly sorted by event sequence, then ID,
/// as their tables store them.
pub open spec fn keys_sorted(source: Seq<SelectionKey>) -> bool {
    forall|i: int, j: int|
        0 <= i < j < source.len() ==> key_less(
            #[trigger] source[i],
            source[j].sequence,
            #[trigger] source[j].id@,
        )
}

/// Rows paired in strictly increasing positions of a sorted table come out
/// in strictly increasing (event sequence, ID) order.
pub proof fn lemma_paired_rows_in_key_order(source: Seq<SelectionKey>, positions: Seq<usize>)
    requires
        keys_sorted(source),
        increasing_within(positions, source.len()),
    ensures
        forall|i: int, j: int|
            0 <= i < j < positions.len() ==> key_less(
                #[trigger] source[positions[i] as int],
                source[positions[j] as int].sequence,
                #[trigger] source[positions[j] as int].id@,
            ),
{
    assert forall|i: int, j: int| 0 <= i < j < positions.len() implies key_less(
        #[trigger] source[positions[i] as int],
        source[positions[j] as int].sequence,
        #[trigger] source[positions[j] as int].id@,
    ) by {
        assert(positions[i] < positions[j]);
        assert(positions[j] < source.len());
    }
}

/// Pairs keyed SQL rows with the retained rows of `source`.
pub fn pair_all_keyed(source: &Vec<SelectionKey>, rows: &Vec<SqlKeyRow>) -> (result: Result<
    Vec<usize>,
    IndexError,
>)
    ensures
        match result {
            Ok(positions) => pair_keyed(source@, rows@) == Ok::<Seq<usize>, IndexError>(
                positions@,
            ),
            Err(error) => pair_keyed(source@, rows@) == Err::<Seq<usize>, IndexError>(error),
        },
{
    let mut cursor = SelectionCursor::new();
    let mut positions: Vec<usize> = Vec::new();
    let length = source.len();
    let mut k: usize = 0;
    while k < rows.len()
        invariant
            length == source@.len(),
            k <= rows@.len(),
            pair_keyed(source@, rows@.subrange(0, k as int)) == Ok::<Seq<usize>, IndexError>(
                positions@,
            ),
            cursor.count == positions@.len(),
            cursor.cursor == next_start(positions@),
            cursor.cursor <= length,
        decreases rows@.len() - k,
    {
        proof {
            assert(rows@.subrange(0, k + 1int).drop_last() =~= rows@.subrange(0, k as int));
            assert(rows@.subrange(0, k + 1int).last() == rows@[k as int]);
        }
        let row = &rows[k];
        let id: Option<&[u8]> = match &row.id {
            Some(id) => Some(id.as_slice()),
            None => None,
        };
        let slice = source.as_slice();
        proof {
            if row.id is Some {
                lemma_keyed_stop_forward(
                    slice@,
                    cursor.cursor as int,
                    row.sequence as u64,
                    row.id.unwrap()@,
                );
            }
        }
        let step = cursor.next_keyed(slice, row.sequence, id);
        match step {
            Ok(position) => {
                positions.push(position);
            },
            Err(error) => {
                proof {
                    lemma_pair_keyed_stops(source@, rows@, k + 1);
                }
                return Err(error);
            },
        }
        k += 1;
    }
    proof {
        assert(rows@.subrange(0, rows@.len() as int) =~= rows@);
    }
    Ok(positions)
}

/// Pairs coverage IDs with the obligations of `source`.
pub fn pair_all_ids(source: &Vec<Vec<u8>>, ids: &Vec<Option<Vec<u8>>>) -> (result: Result<
    Vec<usize>,
    IndexError,
>)
    ensures
        match result {
            Ok(positions) => pair_ids(source@, ids_view(ids@)) == Ok::<Seq<usize>, IndexError>(
                positions@,
            ),
            Err(error) => pair_ids(source@, ids_view(ids@)) == Err::<Seq<usize>, IndexError>(
                error,
            ),
        },
{
    let ghost view = ids_view(ids@);
    let mut cursor = SelectionCursor::new();
    let mut positions: Vec<usize> = Vec::new();
    let length = source.len();
    let mut k: usize = 0;
    while k < ids.len()
        invariant
            length == source@.len(),
            k <= ids@.len(),
            view == ids_view(ids@),
            pair_ids(source@, view.subrange(0, k as int)) == Ok::<Seq<usize>, IndexError>(
                positions@,
            ),
            cursor.count == positions@.len(),
            cursor.cursor == next_start(positions@),
            cursor.cursor <= length,
        decreases ids@.len() - k,
    {
        proof {
            assert(view.subrange(0, k + 1int).drop_last() =~= view.subrange(0, k as int));
            assert(view.subrange(0, k + 1int).last() == id_view(ids@[k as int]));
        }
        let id: Option<&[u8]> = match &ids[k] {
            Some(id) => Some(id.as_slice()),
            None => None,
        };
        let slice = source.as_slice();
        proof {
            if view[k as int] is Some {
                lemma_id_stop_forward(slice@, cursor.cursor as int, view[k as int].unwrap());
            }
        }
        match cursor.next_coverage(slice, id) {
            Ok(position) => {
                positions.push(position);
            },
            Err(error) => {
                proof {
                    lemma_pair_ids_stops(source@, view, k + 1);
                }
                return Err(error);
            },
        }
        k += 1;
    }
    proof {
        assert(view.subrange(0, view.len() as int) =~= view);
    }
    Ok(positions)
}


/// Pairs the request's selected obligation IDs, which are in ascending
/// order, with the obligations of `source`.
pub fn pair_selected(source: &Vec<Vec<u8>>, selected: &Vec<Vec<u8>>) -> (result: Result<
    Vec<usize>,
    IndexError,
>)
    ensures
        match result {
            Ok(positions) => pair_ids(source@, selected_view(selected@)) == Ok::<
                Seq<usize>,
                IndexError,
            >(positions@),
            Err(error) => pair_ids(source@, selected_view(selected@)) == Err::<
                Seq<usize>,
                IndexError,
            >(error),
        },
{
    let ghost view = selected_view(selected@);
    let mut cursor = SelectionCursor::new();
    let mut positions: Vec<usize> = Vec::new();
    let length = source.len();
    let mut k: usize = 0;
    while k < selected.len()
        invariant
            length == source@.len(),
            k <= selected@.len(),
            view == selected_view(selected@),
            pair_ids(source@, view.subrange(0, k as int)) == Ok::<Seq<usize>, IndexError>(
                positions@,
            ),
            cursor.count == positions@.len(),
            cursor.cursor == next_start(positions@),
            cursor.cursor <= length,
        decreases selected@.len() - k,
    {
        proof {
            assert(view.subrange(0, k + 1int).drop_last() =~= view.subrange(0, k as int));
            assert(view.subrange(0, k + 1int).last() == Some(selected@[k as int]@));
        }
        let slice = source.as_slice();
        proof {
            lemma_id_stop_forward(slice@, cursor.cursor as int, selected@[k as int]@);
        }
        match cursor.next_coverage(slice, Some(selected[k].as_slice())) {
            Ok(position) => {
                positions.push(position);
            },
            Err(error) => {
                proof {
                    lemma_pair_ids_stops(source@, view, k + 1);
                }
                return Err(error);
            },
        }
        k += 1;
    }
    proof {
        assert(view.subrange(0, view.len() as int) =~= view);
    }
    Ok(positions)
}

/// The selected obligation IDs as coverage IDs.
pub open spec fn selected_view(selected: Seq<Vec<u8>>) -> Seq<Option<Seq<u8>>> {
    selected.map_values(|id: Vec<u8>| Some(id@))
}

/// Whether every position of `a` also occurs in `b`.
pub open spec fn subset_of(a: Seq<usize>, b: Seq<usize>) -> bool {
    forall|i: int| 0 <= i < a.len() ==> b.contains(#[trigger] a[i])
}

/// Whether positions strictly increase.
pub open spec fn increasing(positions: Seq<usize>) -> bool {
    forall|i: int, j: int| 0 <= i < j < positions.len() ==> positions[i] < positions[j]
}

/// Checks that every position of `a` occurs in `b`, both in increasing
/// order, by one merge pass.
pub fn positions_subset(a: &Vec<usize>, b: &Vec<usize>) -> (result: bool)
    requires
        increasing(a@),
        increasing(b@),
    ensures
        result == subset_of(a@, b@),
{
    let mut j: usize = 0;
    let mut i: usize = 0;
    while i < a.len()
        invariant
            increasing(a@),
            increasing(b@),
            i <= a@.len(),
            j <= b@.len(),
            forall|k: int| 0 <= k < i ==> b@.contains(#[trigger] a@[k]),
            i < a@.len() ==> forall|k: int| 0 <= k < j ==> #[trigger] b@[k] < a@[i as int],
            i > 0 && i < a@.len() ==> j > 0 && b@[j - 1] == a@[i - 1],
        decreases a@.len() - i, b@.len() - j,
    {
        while j < b.len() && b[j] < a[i]
            invariant
                increasing(b@),
                i < a@.len(),
                j <= b@.len(),
                forall|k: int| 0 <= k < j ==> #[trigger] b@[k] < a@[i as int],
            decreases b@.len() - j,
        {
            j += 1;
        }
        if j >= b.len() || b[j] != a[i] {
            proof {
                assert(!b@.contains(a@[i as int])) by {
                    if b@.contains(a@[i as int]) {
                        let k = choose|k: int| 0 <= k < b@.len() && b@[k] == a@[i as int];
                        if k >= j {
                            assert(b@[j as int] <= b@[k]);
                        }
                    }
                }
            }
            return false;
        }
        proof {
            assert(b@[j as int] == a@[i as int]);
            if i + 1 < a@.len() {
                assert forall|k: int| 0 <= k < j + 1 implies #[trigger] b@[k] < a@[i + 1] by {
                    assert(a@[i as int] < a@[i + 1]);
                }
            }
        }
        j += 1;
        i += 1;
    }
    true
}

/// An item a selection hands to its visitor: a retained row of a kind, or
/// an obligation on a coverage axis, by its position in the snapshot.
#[derive(Clone, Copy, Debug, PartialEq, Eq)]
pub enum V4SelectionItemKey {
    Row { kind: V4SelectionRowKind, position: usize },
    Coverage { axis: V4CoverageAxis, position: usize },
}

/// The retained rows of a validated snapshot that a selection pairs SQL
/// answers with, each sorted as its table is, and the marker it is bound
/// to.
pub struct SelectionSnapshotV4 {
    pub confirmed_offset: u64,
    pub event_count: u64,
    pub tail_hash: Vec<u8>,
    /// The fingerprint of the snapshot's marker.
    pub marker_fingerprint: [u8; 32],
    /// The fingerprint recorded when the snapshot was validated.
    pub recorded_fingerprint: [u8; 32],
    pub executions: Vec<SelectionKey>,
    pub claims: Vec<SelectionKey>,
    pub evidence_bindings: Vec<SelectionKey>,
    pub verifications: Vec<SelectionKey>,
    pub decisions: Vec<SelectionKey>,
    pub findings: Vec<SelectionKey>,
    pub evidence: Vec<SelectionKey>,
    pub artifact_registrations: Vec<SelectionKey>,
    /// Claim assessments, keyed by claim ID with sequence zero.
    pub claim_assessments: Vec<SelectionKey>,
    /// Obligation IDs in ascending order: the denominator.
    pub obligations: Vec<Vec<u8>>,
}

/// A selection request: the plan's selected obligations, in ascending
/// order, and the marker position the caller expects.
pub struct SelectionRequestV4 {
    pub selected_obligation_ids: Vec<Vec<u8>>,
    pub expected_confirmed_offset: u64,
    pub expected_event_count: u64,
    pub expected_tail_hash: Vec<u8>,
}

/// What SQL answered for a selection: the scope counts, the keyed rows of
/// each kind, the IDs of each coverage axis, and the largest selected CAS
/// size.
pub struct SelectionRowsV4 {
    pub missing: i64,
    pub plan_matches: i64,
    pub bad_scope: i64,
    pub executions: Vec<SqlKeyRow>,
    pub claims: Vec<SqlKeyRow>,
    pub evidence_bindings: Vec<SqlKeyRow>,
    pub verifications: Vec<SqlKeyRow>,
    pub decisions: Vec<SqlKeyRow>,
    pub findings: Vec<SqlKeyRow>,
    pub evidence: Vec<SqlKeyRow>,
    pub artifact_registrations: Vec<SqlKeyRow>,
    pub claim_assessments: Vec<SqlKeyRow>,
    pub obstructions: Vec<SqlKeyRow>,
    pub denominator: Vec<Option<Vec<u8>>>,
    pub visited: Vec<Option<Vec<u8>>>,
    pub completed: Vec<Option<Vec<u8>>>,
    pub evidence_supported: Vec<Option<Vec<u8>>>,
    pub verified: Vec<Option<Vec<u8>>>,
    pub accepted: Vec<Option<Vec<u8>>>,
    pub max_cas: i64,
}

/// The number of keyed queries, in emission order.
pub const V4_KEYED_QUERY_COUNT: usize = 10;

/// The number of coverage axes, in emission order.
pub const V4_COVERAGE_AXIS_COUNT: usize = 6;

/// The kind of the `i`th keyed query.
pub open spec fn row_kind_at(i: int) -> V4SelectionRowKind {
    if i == 0 {
        V4SelectionRowKind::Execution
    } else if i == 1 {
        V4SelectionRowKind::Claim
    } else if i == 2 {
        V4SelectionRowKind::EvidenceBinding
    } else if i == 3 {
        V4SelectionRowKind::Verification
    } else if i == 4 {
        V4SelectionRowKind::Decision
    } else if i == 5 {
        V4SelectionRowKind::Finding
    } else if i == 6 {
        V4SelectionRowKind::Evidence
    } else if i == 7 {
        V4SelectionRowKind::ArtifactRegistration
    } else if i == 8 {
        V4SelectionRowKind::ClaimAssessment
    } else {
        V4SelectionRowKind::Obstruction
    }
}

/// The retained rows the `i`th keyed query is paired with; obstructions
/// are executions.
pub open spec fn keyed_source(s: SelectionSnapshotV4, i: int) -> Seq<SelectionKey> {
    if i == 0 {
        s.executions@
    } else if i == 1 {
        s.claims@
    } else if i == 2 {
        s.evidence_bindings@
    } else if i == 3 {
        s.verifications@
    } else if i == 4 {
        s.decisions@
    } else if i == 5 {
        s.findings@
    } else if i == 6 {
        s.evidence@
    } else if i == 7 {
        s.artifact_registrations@
    } else if i == 8 {
        s.claim_assessments@
    } else {
        s.executions@
    }
}

/// The rows SQL answered to the `i`th keyed query.
pub open spec fn keyed_query(r: SelectionRowsV4, i: int) -> Seq<SqlKeyRow> {
    if i == 0 {
        r.executions@
    } else if i == 1 {
        r.claims@
    } else if i == 2 {
        r.evidence_bindings@
    } else if i == 3 {
        r.verifications@
    } else if i == 4 {
        r.decisions@
    } else if i == 5 {
        r.findings@
    } else if i == 6 {
        r.evidence@
    } else if i == 7 {
        r.artifact_registrations@
    } else if i == 8 {
        r.claim_assessments@
    } else {
        r.obstructions@
    }
}

/// The `j`th coverage axis.
pub open spec fn axis_at(j: int) -> V4CoverageAxis {
    if j == 0 {
        V4CoverageAxis::Denominator
    } else if j == 1 {
        V4CoverageAxis::Visited
    } else if j == 2 {
        V4CoverageAxis::Completed
    } else if j == 3 {
        V4CoverageAxis::EvidenceSupported
    } else if j == 4 {
        V4CoverageAxis::Verified
    } else {
        V4CoverageAxis::Accepted
    }
}

/// The IDs SQL answered for the `j`th coverage axis.
pub open spec fn coverage_query(r: SelectionRowsV4, j: int) -> Seq<Option<Seq<u8>>> {
    if j == 0 {
        ids_view(r.denominator@)
    } else if j == 1 {
        ids_view(r.visited@)
    } else if j == 2 {
        ids_view(r.completed@)
    } else if j == 3 {
        ids_view(r.evidence_supported@)
    } else if j == 4 {
        ids_view(r.verified@)
    } else {
        ids_view(r.accepted@)
    }
}

/// The positions paired by the first `n` keyed queries, or the first
/// failure.
pub open spec fn keyed_phase(s: SelectionSnapshotV4, r: SelectionRowsV4, n: nat) -> Result<
    Seq<Seq<usize>>,
    IndexError,
>
    decreases n,
{
    if n == 0 {
        Ok(Seq::empty())
    } else {
        match keyed_phase(s, r, (n - 1) as nat) {
            Err(error) => Err(error),
            Ok(done) => match pair_keyed(keyed_source(s, n - 1), keyed_query(r, n - 1)) {
                Err(error) => Err(error),
                Ok(positions) => Ok(done.push(positions)),
            },
        }
    }
}

/// The obligations paired by the first `n` coverage axes, or the first
/// failure.
pub open spec fn coverage_phase(s: SelectionSnapshotV4, r: SelectionRowsV4, n: nat) -> Result<
    Seq<Seq<usize>>,
    IndexError,
>
    decreases n,
{
    if n == 0 {
        Ok(Seq::empty())
    } else {
        match coverage_phase(s, r, (n - 1) as nat) {
            Err(error) => Err(error),
            Ok(done) => match pair_ids(s.obligations@, coverage_query(r, n - 1)) {
                Err(error) => Err(error),
                Ok(positions) => Ok(done.push(positions)),
            },
        }
    }
}

/// The items of one row kind, in pairing order.
pub open spec fn row_items(kind: V4SelectionRowKind, positions: Seq<usize>) -> Seq<
    V4SelectionItemKey,
> {
    positions.map_values(|position: usize| V4SelectionItemKey::Row { kind, position })
}

/// The items of one coverage axis, in pairing order.
pub open spec fn axis_items(axis: V4CoverageAxis, positions: Seq<usize>) -> Seq<
    V4SelectionItemKey,
> {
    positions.map_values(|position: usize| V4SelectionItemKey::Coverage { axis, position })
}

/// The row items of the keyed queries, query after query.
pub open spec fn keyed_items(done: Seq<Seq<usize>>) -> Seq<V4SelectionItemKey>
    decreases done.len(),
{
    if done.len() == 0 {
        Seq::empty()
    } else {
        keyed_items(done.drop_last()) + row_items(row_kind_at(done.len() - 1), done.last())
    }
}

/// The coverage items, axis after axis.
pub open spec fn coverage_items(done: Seq<Seq<usize>>) -> Seq<V4SelectionItemKey>
    decreases done.len(),
{
    if done.len() == 0 {
        Seq::empty()
    } else {
        coverage_items(done.drop_last()) + axis_items(axis_at(done.len() - 1), done.last())
    }
}

/// The counts of a selection: how many items of each kind and axis.
pub open spec fn counts_of(keyed: Seq<Seq<usize>>, coverage: Seq<Seq<usize>>) -> V4SelectionCounts {
    V4SelectionCounts {
        artifact_registrations: keyed[7].len() as u64,
        executions: keyed[0].len() as u64,
        claims: keyed[1].len() as u64,
        evidence: keyed[6].len() as u64,
        evidence_bindings: keyed[2].len() as u64,
        verifications: keyed[3].len() as u64,
        decisions: keyed[4].len() as u64,
        findings: keyed[5].len() as u64,
        claim_assessments: keyed[8].len() as u64,
        obstructions: keyed[9].len() as u64,
        denominator_ids: coverage[0].len() as u64,
        visited_ids: coverage[1].len() as u64,
        completed_ids: coverage[2].len() as u64,
        evidence_supported_ids: coverage[3].len() as u64,
        verified_ids: coverage[4].len() as u64,
        accepted_ids: coverage[5].len() as u64,
    }
}

/// The coverage relations SQL's answers must keep: the denominator is
/// every obligation, visited obligations were selected, completed ones
/// were visited, and accepted ⊆ verified ⊆ evidence-supported.
pub open spec fn coverage_consistent(coverage: Seq<Seq<usize>>, selected: Seq<usize>, obligations: nat) -> bool {
    &&& coverage[0].len() == obligations
    &&& subset_of(coverage[1], selected)
    &&& subset_of(coverage[2], coverage[1])
    &&& subset_of(coverage[4], coverage[3])
    &&& subset_of(coverage[5], coverage[4])
}

/// Whether the request names the snapshot's marker, and the snapshot is
/// the one that was validated.
pub open spec fn request_matches(s: SelectionSnapshotV4, request: SelectionRequestV4) -> bool {
    &&& s.confirmed_offset == request.expected_confirmed_offset
    &&& s.event_count == request.expected_event_count
    &&& s.tail_hash@ == request.expected_tail_hash@
    &&& s.marker_fingerprint@ == s.recorded_fingerprint@
}

/// The outcome of a selection: the items in emission order and the
/// summary, or the first failure.
pub open spec fn selection_outcome(
    s: SelectionSnapshotV4,
    request: SelectionRequestV4,
    r: SelectionRowsV4,
) -> Result<(Seq<V4SelectionItemKey>, V4SelectionSummary), IndexError> {
    let selected = request.selected_obligation_ids@.len();
    if !request_matches(s, request) || selected == 0 {
        Err(IndexError::ProjectionContractViolation)
    } else if selected > i64::MAX {
        Err(IndexError::IntegerOutOfRange)
    } else if r.missing != 0 || r.plan_matches != selected || r.bad_scope != 0 {
        Err(IndexError::ProjectionContractViolation)
    } else {
        match keyed_phase(s, r, V4_KEYED_QUERY_COUNT as nat) {
            Err(error) => Err(error),
            Ok(keyed) => match coverage_phase(s, r, V4_COVERAGE_AXIS_COUNT as nat) {
                Err(error) => Err(error),
                Ok(coverage) => match pair_ids(
                    s.obligations@,
                    selected_view(request.selected_obligation_ids@),
                ) {
                    Err(error) => Err(error),
                    Ok(chosen) => if !coverage_consistent(coverage, chosen, s.obligations@.len())
                        || r.max_cas < 0 {
                        Err(IndexError::ProjectionContractViolation)
                    } else {
                        Ok(
                            (
                                keyed_items(keyed) + coverage_items(coverage),
                                V4SelectionSummary {
                                    counts: counts_of(keyed, coverage),
                                    max_cas_bytes: r.max_cas as u64,
                                    confirmed_offset: s.confirmed_offset,
                                    event_count: s.event_count,
                                    marker_fingerprint: s.marker_fingerprint,
                                },
                            ),
                        )
                    },
                },
            },
        }
    }
}


/// The positions paired, query by query.
pub open spec fn positions_view(done: Seq<Vec<usize>>) -> Seq<Seq<usize>> {
    done.map_values(|positions: Vec<usize>| positions@)
}

fn row_kind(i: usize) -> (kind: V4SelectionRowKind)
    requires
        i < V4_KEYED_QUERY_COUNT,
    ensures
        kind == row_kind_at(i as int),
{
    if i == 0 {
        V4SelectionRowKind::Execution
    } else if i == 1 {
        V4SelectionRowKind::Claim
    } else if i == 2 {
        V4SelectionRowKind::EvidenceBinding
    } else if i == 3 {
        V4SelectionRowKind::Verification
    } else if i == 4 {
        V4SelectionRowKind::Decision
    } else if i == 5 {
        V4SelectionRowKind::Finding
    } else if i == 6 {
        V4SelectionRowKind::Evidence
    } else if i == 7 {
        V4SelectionRowKind::ArtifactRegistration
    } else if i == 8 {
        V4SelectionRowKind::ClaimAssessment
    } else {
        V4SelectionRowKind::Obstruction
    }
}

fn coverage_axis(j: usize) -> (axis: V4CoverageAxis)
    requires
        j < V4_COVERAGE_AXIS_COUNT,
    ensures
        axis == axis_at(j as int),
{
    if j == 0 {
        V4CoverageAxis::Denominator
    } else if j == 1 {
        V4CoverageAxis::Visited
    } else if j == 2 {
        V4CoverageAxis::Completed
    } else if j == 3 {
        V4CoverageAxis::EvidenceSupported
    } else if j == 4 {
        V4CoverageAxis::Verified
    } else {
        V4CoverageAxis::Accepted
    }
}

fn keyed_step(s: &SelectionSnapshotV4, r: &SelectionRowsV4, i: usize) -> (result: Result<
    Vec<usize>,
    IndexError,
>)
    requires
        i < V4_KEYED_QUERY_COUNT,
    ensures
        match result {
            Ok(positions) => pair_keyed(keyed_source(*s, i as int), keyed_query(*r, i as int))
                == Ok::<Seq<usize>, IndexError>(positions@),
            Err(error) => pair_keyed(keyed_source(*s, i as int), keyed_query(*r, i as int))
                == Err::<Seq<usize>, IndexError>(error),
        },
{
    if i == 0 {
        pair_all_keyed(&s.executions, &r.executions)
    } else if i == 1 {
        pair_all_keyed(&s.claims, &r.claims)
    } else if i == 2 {
        pair_all_keyed(&s.evidence_bindings, &r.evidence_bindings)
    } else if i == 3 {
        pair_all_keyed(&s.verifications, &r.verifications)
    } else if i == 4 {
        pair_all_keyed(&s.decisions, &r.decisions)
    } else if i == 5 {
        pair_all_keyed(&s.findings, &r.findings)
    } else if i == 6 {
        pair_all_keyed(&s.evidence, &r.evidence)
    } else if i == 7 {
        pair_all_keyed(&s.artifact_registrations, &r.artifact_registrations)
    } else if i == 8 {
        pair_all_keyed(&s.claim_assessments, &r.claim_assessments)
    } else {
        pair_all_keyed(&s.executions, &r.obstructions)
    }
}

fn coverage_step(s: &SelectionSnapshotV4, r: &SelectionRowsV4, j: usize) -> (result: Result<
    Vec<usize>,
    IndexError,
>)
    requires
        j < V4_COVERAGE_AXIS_COUNT,
    ensures
        match result {
            Ok(positions) => pair_ids(s.obligations@, coverage_query(*r, j as int)) == Ok::<
                Seq<usize>,
                IndexError,
            >(positions@),
            Err(error) => pair_ids(s.obligations@, coverage_query(*r, j as int)) == Err::<
                Seq<usize>,
                IndexError,
            >(error),
        },
{
    if j == 0 {
        pair_all_ids(&s.obligations, &r.denominator)
    } else if j == 1 {
        pair_all_ids(&s.obligations, &r.visited)
    } else if j == 2 {
        pair_all_ids(&s.obligations, &r.completed)
    } else if j == 3 {
        pair_all_ids(&s.obligations, &r.evidence_supported)
    } else if j == 4 {
        pair_all_ids(&s.obligations, &r.verified)
    } else {
        pair_all_ids(&s.obligations, &r.accepted)
    }
}

fn push_row_items(items: &mut Vec<V4SelectionItemKey>, kind: V4SelectionRowKind, positions: &Vec<usize>)
    ensures
        final(items)@ == old(items)@ + row_items(kind, positions@),
{
    let ghost start = items@;
    let mut k: usize = 0;
    while k < positions.len()
        invariant
            k <= positions@.len(),
            items@ == start + row_items(kind, positions@.subrange(0, k as int)),
        decreases positions@.len() - k,
    {
        items.push(V4SelectionItemKey::Row { kind, position: positions[k] });
        k += 1;
        proof {
            assert(row_items(kind, positions@.subrange(0, k as int)) =~= row_items(
                kind,
                positions@.subrange(0, k - 1int),
            ).push(V4SelectionItemKey::Row { kind, position: positions@[k - 1int] }));
            assert(items@ =~= start + row_items(kind, positions@.subrange(0, k as int)));
        }
    }
    proof {
        assert(positions@.subrange(0, positions@.len() as int) =~= positions@);
    }
}

fn push_axis_items(items: &mut Vec<V4SelectionItemKey>, axis: V4CoverageAxis, positions: &Vec<usize>)
    ensures
        final(items)@ == old(items)@ + axis_items(axis, positions@),
{
    let ghost start = items@;
    let mut k: usize = 0;
    while k < positions.len()
        invariant
            k <= positions@.len(),
            items@ == start + axis_items(axis, positions@.subrange(0, k as int)),
        decreases positions@.len() - k,
    {
        items.push(V4SelectionItemKey::Coverage { axis, position: positions[k] });
        k += 1;
        proof {
            assert(axis_items(axis, positions@.subrange(0, k as int)) =~= axis_items(
                axis,
                positions@.subrange(0, k - 1int),
            ).push(V4SelectionItemKey::Coverage { axis, position: positions@[k - 1int] }));
            assert(items@ =~= start + axis_items(axis, positions@.subrange(0, k as int)));
        }
    }
    proof {
        assert(positions@.subrange(0, positions@.len() as int) =~= positions@);
    }
}

fn fingerprints_eq(a: &[u8; 32], b: &[u8; 32]) -> (result: bool)
    ensures
        result == (a@ == b@),
{
    let mut k: usize = 0;
    while k < 32
        invariant
            k <= 32,
            forall|j: int| 0 <= j < k ==> a@[j] == #[trigger] b@[j],
        decreases 32 - k,
    {
        if a[k] != b[k] {
            return false;
        }
        k += 1;
    }
    proof {
        assert(a@ =~= b@);
    }
    true
}

/// Once a keyed query fails, every longer run of keyed queries fails with
/// the same error.
proof fn lemma_keyed_phase_stops(s: SelectionSnapshotV4, r: SelectionRowsV4, n: nat, m: nat)
    requires
        n <= m,
        keyed_phase(s, r, n) is Err,
    ensures
        keyed_phase(s, r, m) == keyed_phase(s, r, n),
    decreases m - n,
{
    if n < m {
        lemma_keyed_phase_stops(s, r, n, (m - 1) as nat);
    }
}

/// Once a coverage axis fails, every longer run of axes fails with the
/// same error.
proof fn lemma_coverage_phase_stops(s: SelectionSnapshotV4, r: SelectionRowsV4, n: nat, m: nat)
    requires
        n <= m,
        coverage_phase(s, r, n) is Err,
    ensures
        coverage_phase(s, r, m) == coverage_phase(s, r, n),
    decreases m - n,
{
    if n < m {
        lemma_coverage_phase_stops(s, r, n, (m - 1) as nat);
    }
}

/// Pairs what SQL answered for a selection with the retained snapshot:
/// the request must name the snapshot's marker and select something, the
/// scope counts must agree, every keyed row and coverage ID must pair with
/// a retained row or obligation in order, and the coverage relations must
/// hold.  Returns the items in emission order (each keyed query in turn,
/// then each coverage axis) and the summary.
pub fn select_v4(
    snapshot: &SelectionSnapshotV4,
    request: &SelectionRequestV4,
    rows: &SelectionRowsV4,
) -> (result: Result<(Vec<V4SelectionItemKey>, V4SelectionSummary), IndexError>)
    ensures
        match result {
            Ok((items, summary)) => selection_outcome(*snapshot, *request, *rows) == Ok::<
                (Seq<V4SelectionItemKey>, V4SelectionSummary),
                IndexError,
            >((items@, summary)),
            Err(error) => selection_outcome(*snapshot, *request, *rows) == Err::<
                (Seq<V4SelectionItemKey>, V4SelectionSummary),
                IndexError,
            >(error),
        },
{
    if snapshot.confirmed_offset != request.expected_confirmed_offset || snapshot.event_count
        != request.expected_event_count || !crate::charge_v4::bytes_eq(
        &snapshot.tail_hash,
        request.expected_tail_hash.as_slice(),
    ) || !fingerprints_eq(&snapshot.marker_fingerprint, &snapshot.recorded_fingerprint)
        || request.selected_obligation_ids.len() == 0 {
        return Err(IndexError::ProjectionContractViolation);
    }
    match check_selection_scope(
        rows.missing,
        rows.plan_matches,
        request.selected_obligation_ids.len(),
        rows.bad_scope,
    ) {
        Ok(()) => {},
        Err(error) => return Err(error),
    }
    let ghost selected = request.selected_obligation_ids@.len();
    assert(request_matches(*snapshot, *request));
    assert(selected > 0 && selected <= i64::MAX);
    assert(rows.missing == 0 && rows.plan_matches == selected && rows.bad_scope == 0);
    let mut items: Vec<V4SelectionItemKey> = Vec::new();
    let mut keyed: Vec<Vec<usize>> = Vec::new();
    proof {
        assert(positions_view(keyed@) =~= Seq::<Seq<usize>>::empty());
    }
    let mut i: usize = 0;
    while i < V4_KEYED_QUERY_COUNT
        invariant
            i <= V4_KEYED_QUERY_COUNT,
            request_matches(*snapshot, *request),
            0 < request.selected_obligation_ids@.len() <= i64::MAX,
            rows.missing == 0 && rows.bad_scope == 0,
            rows.plan_matches == request.selected_obligation_ids@.len(),
            keyed@.len() == i,
            keyed_phase(*snapshot, *rows, i as nat) == Ok::<Seq<Seq<usize>>, IndexError>(
                positions_view(keyed@),
            ),
            items@ == keyed_items(positions_view(keyed@)),
        decreases V4_KEYED_QUERY_COUNT - i,
    {
        let positions = match keyed_step(snapshot, rows, i) {
            Ok(positions) => positions,
            Err(error) => {
                proof {
                    lemma_keyed_phase_stops(
                        *snapshot,
                        *rows,
                        (i + 1) as nat,
                        V4_KEYED_QUERY_COUNT as nat,
                    );
                    assert(keyed_phase(*snapshot, *rows, V4_KEYED_QUERY_COUNT as nat) == Err::<
                        Seq<Seq<usize>>,
                        IndexError,
                    >(error));
                }
                return Err(error);
            },
        };
        push_row_items(&mut items, row_kind(i), &positions);
        let ghost before = positions_view(keyed@);
        keyed.push(positions);
        proof {
            assert(positions_view(keyed@) =~= before.push(positions@));
            assert(positions_view(keyed@).drop_last() =~= before);
        }
        i += 1;
    }
    let mut coverage: Vec<Vec<usize>> = Vec::new();
    proof {
        assert(positions_view(coverage@) =~= Seq::<Seq<usize>>::empty());
        assert(coverage_items(positions_view(coverage@)) =~= Seq::<V4SelectionItemKey>::empty());
        assert(items@ =~= keyed_items(positions_view(keyed@)) + coverage_items(
            positions_view(coverage@),
        ));
    }
    let mut j: usize = 0;
    while j < V4_COVERAGE_AXIS_COUNT
        invariant
            j <= V4_COVERAGE_AXIS_COUNT,
            request_matches(*snapshot, *request),
            0 < request.selected_obligation_ids@.len() <= i64::MAX,
            rows.missing == 0 && rows.bad_scope == 0,
            rows.plan_matches == request.selected_obligation_ids@.len(),
            coverage@.len() == j,
            keyed_phase(*snapshot, *rows, V4_KEYED_QUERY_COUNT as nat) == Ok::<
                Seq<Seq<usize>>,
                IndexError,
            >(positions_view(keyed@)),
            coverage_phase(*snapshot, *rows, j as nat) == Ok::<Seq<Seq<usize>>, IndexError>(
                positions_view(coverage@),
            ),
            items@ == keyed_items(positions_view(keyed@)) + coverage_items(
                positions_view(coverage@),
            ),
        decreases V4_COVERAGE_AXIS_COUNT - j,
    {
        let positions = match coverage_step(snapshot, rows, j) {
            Ok(positions) => positions,
            Err(error) => {
                proof {
                    lemma_coverage_phase_stops(
                        *snapshot,
                        *rows,
                        (j + 1) as nat,
                        V4_COVERAGE_AXIS_COUNT as nat,
                    );
                    assert(coverage_phase(*snapshot, *rows, V4_COVERAGE_AXIS_COUNT as nat) == Err::<
                        Seq<Seq<usize>>,
                        IndexError,
                    >(error));
                }
                return Err(error);
            },
        };
        let ghost items_before = items@;
        push_axis_items(&mut items, coverage_axis(j), &positions);
        let ghost before = positions_view(coverage@);
        coverage.push(positions);
        proof {
            assert(positions_view(coverage@) =~= before.push(positions@));
            assert(positions_view(coverage@).drop_last() =~= before);
            assert(items@ =~= keyed_items(positions_view(keyed@)) + coverage_items(
                positions_view(coverage@),
            ));
        }
        j += 1;
    }
    let chosen = match pair_selected(&snapshot.obligations, &request.selected_obligation_ids) {
        Ok(chosen) => chosen,
        Err(error) => return Err(error),
    };
    let obligation_count = snapshot.obligations.len();
    proof {
        lemma_pair_ids_ok(snapshot.obligations@, selected_view(request.selected_obligation_ids@));
        lemma_coverage_facts(*snapshot, *rows);
        let cov = positions_view(coverage@);
        assert(forall|j: int| 0 <= j < V4_COVERAGE_AXIS_COUNT ==> #[trigger] coverage@[j]@ == cov[j]);
    }
    if coverage[0].len() != snapshot.obligations.len() || !positions_subset(&coverage[1], &chosen)
        || !positions_subset(&coverage[2], &coverage[1]) || !positions_subset(
        &coverage[4],
        &coverage[3],
    ) || !positions_subset(&coverage[5], &coverage[4]) {
        return Err(IndexError::ProjectionContractViolation);
    }
    let max_cas_bytes = match selected_max_cas_bytes(rows.max_cas) {
        Ok(bytes) => bytes,
        Err(error) => return Err(error),
    };
    let counts = V4SelectionCounts {
        artifact_registrations: keyed[7].len() as u64,
        executions: keyed[0].len() as u64,
        claims: keyed[1].len() as u64,
        evidence: keyed[6].len() as u64,
        evidence_bindings: keyed[2].len() as u64,
        verifications: keyed[3].len() as u64,
        decisions: keyed[4].len() as u64,
        findings: keyed[5].len() as u64,
        claim_assessments: keyed[8].len() as u64,
        obstructions: keyed[9].len() as u64,
        denominator_ids: coverage[0].len() as u64,
        visited_ids: coverage[1].len() as u64,
        completed_ids: coverage[2].len() as u64,
        evidence_supported_ids: coverage[3].len() as u64,
        verified_ids: coverage[4].len() as u64,
        accepted_ids: coverage[5].len() as u64,
    };
    let summary = V4SelectionSummary {
        counts,
        max_cas_bytes,
        confirmed_offset: snapshot.confirmed_offset,
        event_count: snapshot.event_count,
        marker_fingerprint: snapshot.marker_fingerprint,
    };
    Ok((items, summary))
}

/// Each coverage axis that pairs completely names strictly increasing
/// obligations.
proof fn lemma_coverage_facts(s: SelectionSnapshotV4, r: SelectionRowsV4)
    requires
        s.obligations@.len() <= usize::MAX,
        coverage_phase(s, r, V4_COVERAGE_AXIS_COUNT as nat) is Ok,
    ensures
        ({
            let coverage = coverage_phase(s, r, V4_COVERAGE_AXIS_COUNT as nat)->Ok_0;
            &&& coverage.len() == V4_COVERAGE_AXIS_COUNT
            &&& forall|j: int|
                0 <= j < V4_COVERAGE_AXIS_COUNT ==> #[trigger] coverage[j] == pair_ids(
                    s.obligations@,
                    coverage_query(r, j),
                )->Ok_0 && increasing_within(coverage[j], s.obligations@.len())
        }),
{
    reveal_with_fuel(coverage_phase, 7);
    assert forall|j: int| 0 <= j < V4_COVERAGE_AXIS_COUNT implies pair_ids(
        s.obligations@,
        coverage_query(r, j),
    ) is Ok by {
        if pair_ids(s.obligations@, coverage_query(r, j)) is Err {
            lemma_coverage_phase_stops(s, r, (j + 1) as nat, V4_COVERAGE_AXIS_COUNT as nat);
        }
    }
    assert forall|j: int| 0 <= j < V4_COVERAGE_AXIS_COUNT implies increasing_within(
        pair_ids(s.obligations@, coverage_query(r, j))->Ok_0,
        s.obligations@.len(),
    ) by {
        lemma_pair_ids_ok(s.obligations@, coverage_query(r, j));
    }
}


/// How many items of a selection are rows of `kind`.
pub open spec fn kind_count(items: Seq<V4SelectionItemKey>, kind: V4SelectionRowKind) -> nat
    decreases items.len(),
{
    if items.len() == 0 {
        0
    } else {
        kind_count(items.drop_last(), kind) + match items.last() {
            V4SelectionItemKey::Row { kind: found, .. } => if found == kind {
                1nat
            } else {
                0nat
            },
            _ => 0nat,
        }
    }
}

/// How many items of a selection are obligations on `axis`.
pub open spec fn axis_count_of(items: Seq<V4SelectionItemKey>, axis: V4CoverageAxis) -> nat
    decreases items.len(),
{
    if items.len() == 0 {
        0
    } else {
        axis_count_of(items.drop_last(), axis) + match items.last() {
            V4SelectionItemKey::Coverage { axis: found, .. } => if found == axis {
                1nat
            } else {
                0nat
            },
            _ => 0nat,
        }
    }
}

proof fn lemma_counts_add(a: Seq<V4SelectionItemKey>, b: Seq<V4SelectionItemKey>)
    ensures
        forall|kind: V4SelectionRowKind| #[trigger] kind_count(a + b, kind) == kind_count(a, kind)
            + kind_count(b, kind),
        forall|axis: V4CoverageAxis| #[trigger] axis_count_of(a + b, axis) == axis_count_of(
            a,
            axis,
        ) + axis_count_of(b, axis),
    decreases b.len(),
{
    if b.len() == 0 {
        assert(a + b =~= a);
    } else {
        lemma_counts_add(a, b.drop_last());
        assert((a + b).drop_last() =~= a + b.drop_last());
        assert((a + b).last() == b.last());
        assert forall|kind: V4SelectionRowKind| #[trigger] kind_count(a + b, kind) == kind_count(
            a,
            kind,
        ) + kind_count(b, kind) by {
            assert(kind_count(a + b.drop_last(), kind) == kind_count(a, kind) + kind_count(
                b.drop_last(),
                kind,
            ));
        }
        assert forall|axis: V4CoverageAxis| #[trigger] axis_count_of(a + b, axis) == axis_count_of(
            a,
            axis,
        ) + axis_count_of(b, axis) by {
            assert(axis_count_of(a + b.drop_last(), axis) == axis_count_of(a, axis)
                + axis_count_of(b.drop_last(), axis));
        }
    }
}

proof fn lemma_row_items_counts(kind: V4SelectionRowKind, positions: Seq<usize>)
    ensures
        forall|other: V4SelectionRowKind| #[trigger] kind_count(row_items(kind, positions), other)
            == if other == kind {
            positions.len()
        } else {
            0
        },
        forall|axis: V4CoverageAxis| #[trigger] axis_count_of(row_items(kind, positions), axis)
            == 0,
    decreases positions.len(),
{
    if positions.len() > 0 {
        let front = positions.drop_last();
        lemma_row_items_counts(kind, front);
        let items = row_items(kind, positions);
        assert(items.drop_last() =~= row_items(kind, front));
        assert forall|other: V4SelectionRowKind| #[trigger] kind_count(items, other) == if other
            == kind {
            positions.len()
        } else {
            0
        } by {
            assert(kind_count(row_items(kind, front), other) == if other == kind {
                front.len()
            } else {
                0
            });
        }
        assert forall|axis: V4CoverageAxis| #[trigger] axis_count_of(items, axis) == 0 by {
            assert(axis_count_of(row_items(kind, front), axis) == 0);
        }
    }
}

proof fn lemma_axis_items_counts(axis: V4CoverageAxis, positions: Seq<usize>)
    ensures
        forall|other: V4CoverageAxis| #[trigger] axis_count_of(axis_items(axis, positions), other)
            == if other == axis {
            positions.len()
        } else {
            0
        },
        forall|kind: V4SelectionRowKind| #[trigger] kind_count(axis_items(axis, positions), kind)
            == 0,
    decreases positions.len(),
{
    if positions.len() > 0 {
        let front = positions.drop_last();
        lemma_axis_items_counts(axis, front);
        let items = axis_items(axis, positions);
        assert(items.drop_last() =~= axis_items(axis, front));
        assert forall|other: V4CoverageAxis| #[trigger] axis_count_of(items, other) == if other
            == axis {
            positions.len()
        } else {
            0
        } by {
            assert(axis_count_of(axis_items(axis, front), other) == if other == axis {
                front.len()
            } else {
                0
            });
        }
        assert forall|kind: V4SelectionRowKind| #[trigger] kind_count(items, kind) == 0 by {
            assert(kind_count(axis_items(axis, front), kind) == 0);
        }
    }
}

proof fn lemma_keyed_items_counts(done: Seq<Seq<usize>>)
    requires
        done.len() <= V4_KEYED_QUERY_COUNT,
    ensures
        forall|i: int|
            0 <= i < V4_KEYED_QUERY_COUNT ==> #[trigger] kind_count(
                keyed_items(done),
                row_kind_at(i),
            ) == if i < done.len() {
                done[i].len()
            } else {
                0
            },
        forall|axis: V4CoverageAxis| #[trigger] axis_count_of(keyed_items(done), axis) == 0,
    decreases done.len(),
{
    if done.len() > 0 {
        let last = done.len() - 1;
        lemma_keyed_items_counts(done.drop_last());
        lemma_counts_add(keyed_items(done.drop_last()), row_items(row_kind_at(last), done.last()));
        lemma_row_items_counts(row_kind_at(last), done.last());
        assert forall|i: int| 0 <= i < V4_KEYED_QUERY_COUNT implies #[trigger] kind_count(
            keyed_items(done),
            row_kind_at(i),
        ) == if i < done.len() {
            done[i].len()
        } else {
            0
        } by {
            if i < last {
                assert(done.drop_last()[i] == done[i]);
            }
        }
    }
}

proof fn lemma_coverage_items_counts(done: Seq<Seq<usize>>)
    requires
        done.len() <= V4_COVERAGE_AXIS_COUNT,
    ensures
        forall|j: int|
            0 <= j < V4_COVERAGE_AXIS_COUNT ==> #[trigger] axis_count_of(
                coverage_items(done),
                axis_at(j),
            ) == if j < done.len() {
                done[j].len()
            } else {
                0
            },
        forall|kind: V4SelectionRowKind| #[trigger] kind_count(coverage_items(done), kind) == 0,
    decreases done.len(),
{
    if done.len() > 0 {
        let last = done.len() - 1;
        lemma_coverage_items_counts(done.drop_last());
        lemma_counts_add(coverage_items(done.drop_last()), axis_items(axis_at(last), done.last()));
        lemma_axis_items_counts(axis_at(last), done.last());
        assert forall|j: int| 0 <= j < V4_COVERAGE_AXIS_COUNT implies #[trigger] axis_count_of(
            coverage_items(done),
            axis_at(j),
        ) == if j < done.len() {
            done[j].len()
        } else {
            0
        } by {
            if j < last {
                assert(done.drop_last()[j] == done[j]);
            }
        }
    }
}

proof fn lemma_phases_shape(s: SelectionSnapshotV4, r: SelectionRowsV4)
    requires
        s.obligations@.len() <= usize::MAX,
        forall|i: int| 0 <= i < V4_KEYED_QUERY_COUNT ==> #[trigger] keyed_source(s, i).len() <= usize::MAX,
        keyed_phase(s, r, V4_KEYED_QUERY_COUNT as nat) is Ok,
        coverage_phase(s, r, V4_COVERAGE_AXIS_COUNT as nat) is Ok,
    ensures
        ({
            let keyed = keyed_phase(s, r, V4_KEYED_QUERY_COUNT as nat)->Ok_0;
            let coverage = coverage_phase(s, r, V4_COVERAGE_AXIS_COUNT as nat)->Ok_0;
            &&& keyed.len() == V4_KEYED_QUERY_COUNT
            &&& coverage.len() == V4_COVERAGE_AXIS_COUNT
            &&& forall|i: int|
                0 <= i < V4_KEYED_QUERY_COUNT ==> {
                    &&& #[trigger] keyed[i].len() == keyed_query(r, i).len()
                    &&& increasing_within(keyed[i], keyed_source(s, i).len())
                    &&& forall|k: int|
                        0 <= k < keyed[i].len() ==> #[trigger] keyed_paired(
                            keyed_source(s, i),
                            keyed[i][k],
                            keyed_query(r, i)[k],
                        )
                }
            &&& forall|j: int|
                0 <= j < V4_COVERAGE_AXIS_COUNT ==> {
                    &&& #[trigger] coverage[j].len() == coverage_query(r, j).len()
                    &&& increasing_within(coverage[j], s.obligations@.len())
                }
        }),
{
    reveal_with_fuel(keyed_phase, 11);
    reveal_with_fuel(coverage_phase, 7);
    assert forall|i: int| 0 <= i < V4_KEYED_QUERY_COUNT implies pair_keyed(
        keyed_source(s, i),
        keyed_query(r, i),
    ) is Ok by {
        if pair_keyed(keyed_source(s, i), keyed_query(r, i)) is Err {
            lemma_keyed_phase_stops(s, r, (i + 1) as nat, V4_KEYED_QUERY_COUNT as nat);
        }
    }
    assert forall|i: int|
        #![trigger pair_keyed(keyed_source(s, i), keyed_query(r, i))]
        0 <= i < V4_KEYED_QUERY_COUNT implies {
        let p = pair_keyed(keyed_source(s, i), keyed_query(r, i))->Ok_0;
        &&& p.len() == keyed_query(r, i).len()
        &&& increasing_within(p, keyed_source(s, i).len())
        &&& forall|k: int|
            0 <= k < p.len() ==> #[trigger] keyed_paired(keyed_source(s, i), p[k], keyed_query(r, i)[k])
    } by {
        lemma_pair_keyed_ok(keyed_source(s, i), keyed_query(r, i));
    }
    assert forall|j: int| 0 <= j < V4_COVERAGE_AXIS_COUNT implies pair_ids(
        s.obligations@,
        coverage_query(r, j),
    ) is Ok by {
        if pair_ids(s.obligations@, coverage_query(r, j)) is Err {
            lemma_coverage_phase_stops(s, r, (j + 1) as nat, V4_COVERAGE_AXIS_COUNT as nat);
        }
    }
    assert forall|j: int|
        #![trigger pair_ids(s.obligations@, coverage_query(r, j))]
        0 <= j < V4_COVERAGE_AXIS_COUNT implies {
        let p = pair_ids(s.obligations@, coverage_query(r, j))->Ok_0;
        &&& p.len() == coverage_query(r, j).len()
        &&& increasing_within(p, s.obligations@.len())
    } by {
        lemma_pair_ids_ok(s.obligations@, coverage_query(r, j));
    }
}

proof fn lemma_increasing_identity(positions: Seq<usize>, n: nat)
    requires
        increasing_within(positions, n),
        positions.len() == n,
    ensures
        forall|i: int| 0 <= i < n ==> #[trigger] positions[i] == i,
{
    assert forall|i: int| 0 <= i < n implies #[trigger] positions[i] == i by {
        lemma_increasing_at_least(positions, n, i);
        lemma_increasing_at_most(positions, n, i);
    }
}

proof fn lemma_increasing_at_least(positions: Seq<usize>, n: nat, i: int)
    requires
        increasing_within(positions, n),
        0 <= i < positions.len(),
    ensures
        positions[i] >= i,
    decreases i,
{
    if i > 0 {
        lemma_increasing_at_least(positions, n, i - 1);
    }
}

proof fn lemma_increasing_at_most(positions: Seq<usize>, n: nat, i: int)
    requires
        increasing_within(positions, n),
        0 <= i < positions.len(),
    ensures
        positions[i] <= n - (positions.len() - i),
    decreases positions.len() - i,
{
    if i < positions.len() - 1 {
        lemma_increasing_at_most(positions, n, i + 1);
    }
}

/// What every successful selection keeps.  Its items come in emission
/// order: each keyed query's rows, then each coverage axis's obligations.
/// Each query's rows are paired, one per SQL row and in strictly
/// increasing position, with the retained row carrying that row's key.
/// The summary counts exactly the items of each kind and axis.  The
/// denominator is every obligation, in order; completed ⊆ visited ⊆
/// selected ⊆ denominator; and accepted ⊆ verified ⊆ evidence-supported.
pub proof fn lemma_selection_laws(s: SelectionSnapshotV4, request: SelectionRequestV4, r: SelectionRowsV4)
    requires
        s.obligations@.len() <= usize::MAX,
        forall|i: int| 0 <= i < V4_KEYED_QUERY_COUNT ==> #[trigger] keyed_source(s, i).len() <= usize::MAX,
        forall|i: int| 0 <= i < V4_KEYED_QUERY_COUNT ==> #[trigger] keyed_query(r, i).len() <= usize::MAX,
        forall|j: int| 0 <= j < V4_COVERAGE_AXIS_COUNT ==> #[trigger] coverage_query(r, j).len() <= usize::MAX,
        selection_outcome(s, request, r) is Ok,
    ensures
        ({
            let (items, summary) = selection_outcome(s, request, r)->Ok_0;
            let keyed = keyed_phase(s, r, V4_KEYED_QUERY_COUNT as nat)->Ok_0;
            let coverage = coverage_phase(s, r, V4_COVERAGE_AXIS_COUNT as nat)->Ok_0;
            let chosen = pair_ids(s.obligations@, selected_view(request.selected_obligation_ids@))->Ok_0;
            &&& items == keyed_items(keyed) + coverage_items(coverage)
            &&& forall|i: int|
                0 <= i < V4_KEYED_QUERY_COUNT ==> {
                    &&& #[trigger] keyed[i].len() == keyed_query(r, i).len()
                    &&& increasing_within(keyed[i], keyed_source(s, i).len())
                    &&& forall|k: int|
                        0 <= k < keyed[i].len() ==> #[trigger] keyed_paired(
                            keyed_source(s, i),
                            keyed[i][k],
                            keyed_query(r, i)[k],
                        )
                    &&& summary.counts.row_count(row_kind_at(i)) == kind_count(items, row_kind_at(i))
                }
            &&& forall|j: int|
                0 <= j < V4_COVERAGE_AXIS_COUNT ==> {
                    &&& #[trigger] increasing_within(coverage[j], s.obligations@.len())
                    &&& summary.counts.axis_count(axis_at(j)) == axis_count_of(items, axis_at(j))
                }
            &&& coverage[0].len() == s.obligations@.len()
            &&& forall|p: int| 0 <= p < s.obligations@.len() ==> #[trigger] coverage[0][p] == p
            &&& subset_of(coverage[2], coverage[1])
            &&& subset_of(coverage[1], chosen)
            &&& increasing_within(chosen, s.obligations@.len())
            &&& subset_of(coverage[5], coverage[4])
            &&& subset_of(coverage[4], coverage[3])
        }),
{
    lemma_phases_shape(s, r);
    let keyed = keyed_phase(s, r, V4_KEYED_QUERY_COUNT as nat)->Ok_0;
    let coverage = coverage_phase(s, r, V4_COVERAGE_AXIS_COUNT as nat)->Ok_0;
    let (items, summary) = selection_outcome(s, request, r)->Ok_0;
    lemma_pair_ids_ok(s.obligations@, selected_view(request.selected_obligation_ids@));
    lemma_increasing_identity(coverage[0], s.obligations@.len());
    lemma_counts_add(keyed_items(keyed), coverage_items(coverage));
    lemma_keyed_items_counts(keyed);
    lemma_coverage_items_counts(coverage);
    assert forall|i: int| 0 <= i < V4_KEYED_QUERY_COUNT implies summary.counts.row_count(
        row_kind_at(i),
    ) == kind_count(items, row_kind_at(i)) by {
        assert(keyed[i].len() <= usize::MAX);
        assert(kind_count(items, row_kind_at(i)) == kind_count(keyed_items(keyed), row_kind_at(i))
            + kind_count(coverage_items(coverage), row_kind_at(i)));
    }
    assert forall|j: int| 0 <= j < V4_COVERAGE_AXIS_COUNT implies summary.counts.axis_count(
        axis_at(j),
    ) == axis_count_of(items, axis_at(j)) by {
        assert(coverage[j].len() <= usize::MAX);
        assert(axis_count_of(items, axis_at(j)) == axis_count_of(keyed_items(keyed), axis_at(j))
            + axis_count_of(coverage_items(coverage), axis_at(j)));
    }
}

/// Once a prefix of the keyed rows fails to pair, the whole query does,
/// with the same error.
pub proof fn lemma_pair_keyed_stops(source: Seq<SelectionKey>, rows: Seq<SqlKeyRow>, k: int)
    requires
        0 <= k <= rows.len(),
        pair_keyed(source, rows.subrange(0, k)) is Err,
    ensures
        pair_keyed(source, rows) == pair_keyed(source, rows.subrange(0, k)),
    decreases rows.len() - k,
{
    if k < rows.len() {
        assert(rows.subrange(0, k + 1).drop_last() =~= rows.subrange(0, k));
        lemma_pair_keyed_stops(source, rows, k + 1);
    } else {
        assert(rows.subrange(0, k) =~= rows);
    }
}

/// Once a prefix of the coverage IDs fails to pair, the whole query does,
/// with the same error.
pub proof fn lemma_pair_ids_stops(source: Seq<Vec<u8>>, ids: Seq<Option<Seq<u8>>>, k: int)
    requires
        0 <= k <= ids.len(),
        pair_ids(source, ids.subrange(0, k)) is Err,
    ensures
        pair_ids(source, ids) == pair_ids(source, ids.subrange(0, k)),
    decreases ids.len() - k,
{
    if k < ids.len() {
        assert(ids.subrange(0, k + 1).drop_last() =~= ids.subrange(0, k));
        lemma_pair_ids_stops(source, ids, k + 1);
    } else {
        assert(ids.subrange(0, k) =~= ids);
    }
}

/// A keyed query that pairs completely names strictly increasing retained
/// rows, one per SQL row, each with the SQL row's key.
pub proof fn lemma_pair_keyed_ok(source: Seq<SelectionKey>, rows: Seq<SqlKeyRow>)
    requires
        source.len() <= usize::MAX,
        pair_keyed(source, rows) is Ok,
    ensures
        ({
            let positions = pair_keyed(source, rows)->Ok_0;
            &&& positions.len() == rows.len()
            &&& increasing_within(positions, source.len())
            &&& forall|i: int|
                0 <= i < rows.len() ==> #[trigger] keyed_paired(source, positions[i], rows[i])
        }),
    decreases rows.len(),
{
    if rows.len() > 0 {
        let front = rows.drop_last();
        lemma_pair_keyed_ok(source, front);
        let previous = pair_keyed(source, front)->Ok_0;
        let row = rows.last();
        let start = next_start(previous);
        lemma_keyed_stop_forward(source, start, row.sequence as u64, row.id.unwrap()@);
        let stop = keyed_stop(source, start, row.sequence as u64, row.id.unwrap()@);
        let positions = pair_keyed(source, rows)->Ok_0;
        assert(positions == previous.push(stop as usize));
        assert forall|i: int| 0 <= i < previous.len() implies previous[i] < stop by {
            if previous.len() > 0 {
                assert(previous[i] <= previous.last());
            }
        }
        assert forall|i: int| 0 <= i < positions.len() implies #[trigger] positions[i] < source.len() by {
            if i < positions.len() - 1 {
                assert(positions[i] == previous[i]);
            }
        }
        assert forall|i: int| 0 <= i < rows.len() implies #[trigger] keyed_paired(
            source,
            positions[i],
            rows[i],
        ) by {
            if i < rows.len() - 1 {
                assert(front[i] == rows[i]);
                assert(positions[i] == previous[i]);
                assert(keyed_paired(source, previous[i], front[i]));
            }
        }
        assert forall|i: int, j: int| 0 <= i < j < positions.len() implies positions[i]
            < positions[j] by {
            if j < positions.len() - 1 {
                assert(positions[i] == previous[i] && positions[j] == previous[j]);
            } else {
                assert(positions[i] == previous[i]);
            }
        }
    }
}

/// A coverage query that pairs completely names strictly increasing
/// obligations, one per ID, each with that ID.
pub proof fn lemma_pair_ids_ok(source: Seq<Vec<u8>>, ids: Seq<Option<Seq<u8>>>)
    requires
        source.len() <= usize::MAX,
        pair_ids(source, ids) is Ok,
    ensures
        ({
            let positions = pair_ids(source, ids)->Ok_0;
            &&& positions.len() == ids.len()
            &&& increasing_within(positions, source.len())
            &&& forall|i: int|
                0 <= i < ids.len() ==> Some(#[trigger] source[positions[i] as int]@) == ids[i]
        }),
    decreases ids.len(),
{
    if ids.len() > 0 {
        let front = ids.drop_last();
        lemma_pair_ids_ok(source, front);
        let previous = pair_ids(source, front)->Ok_0;
        let start = next_start(previous);
        lemma_id_stop_forward(source, start, ids.last().unwrap());
        let stop = id_stop(source, start, ids.last().unwrap());
        let positions = pair_ids(source, ids)->Ok_0;
        assert(positions == previous.push(stop as usize));
        assert forall|i: int| 0 <= i < previous.len() implies previous[i] < stop by {
            if previous.len() > 0 {
                assert(previous[i] <= previous.last());
            }
        }
        assert forall|i: int| 0 <= i < ids.len() implies Some(
            #[trigger] source[positions[i] as int]@,
        ) == ids[i] by {
            if i < ids.len() - 1 {
                assert(front[i] == ids[i]);
                assert(positions[i] == previous[i]);
                assert(Some(source[previous[i] as int]@) == front[i]);
            }
        }
        assert forall|i: int, j: int| 0 <= i < j < positions.len() implies positions[i]
            < positions[j] by {
            if j < positions.len() - 1 {
                assert(positions[i] == previous[i] && positions[j] == previous[j]);
            } else {
                assert(positions[i] == previous[i]);
            }
        }
    }
}

} // verus!
