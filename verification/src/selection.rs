//! Selection of a plan's obligations out of a validated v4 image: the
//! coverage axes, the counters reported to the caller, and the ordered
//! merge that pairs each SQL result row with the retained snapshot row it
//! names.

use vstd::prelude::*;
use vstd::string::*;
use crate::error::IndexError;
use crate::json_model::utf8_valid;
use crate::json_scan::utf8_valid_from;

verus! {

/// Hard ceiling on the internal workspace of a selection, never scaled by
/// caller input.
pub const V4_SELECTION_OPERATIONAL_LIMIT: u64 = 268435456;

/// Hard ceiling on the JSON staged while a v4 image is preflighted.
pub const V4_JSON_STAGING_OPERATIONAL_LIMIT: u64 = 67108864;

/// The coverage question an obligation ID answers.
#[derive(Clone, Copy, Debug, Eq, Ord, PartialEq, PartialOrd)]
pub enum V4CoverageAxis {
    Denominator,
    Visited,
    Completed,
    EvidenceSupported,
    Verified,
    Accepted,
}

/// Kinds of snapshot rows a selection hands to its visitor.
#[derive(Clone, Copy, Debug, Eq, PartialEq)]
pub enum V4SelectionRowKind {
    ArtifactRegistration,
    Execution,
    Claim,
    Evidence,
    EvidenceBinding,
    Verification,
    Decision,
    Finding,
    ClaimAssessment,
    Obstruction,
}

/// How many rows and coverage IDs a selection visited.
#[derive(Clone, Copy, Debug, Eq, PartialEq)]
pub struct V4SelectionCounts {
    pub artifact_registrations: u64,
    pub executions: u64,
    pub claims: u64,
    pub evidence: u64,
    pub evidence_bindings: u64,
    pub verifications: u64,
    pub decisions: u64,
    pub findings: u64,
    pub claim_assessments: u64,
    pub obstructions: u64,
    pub denominator_ids: u64,
    pub visited_ids: u64,
    pub completed_ids: u64,
    pub evidence_supported_ids: u64,
    pub verified_ids: u64,
    pub accepted_ids: u64,
}

/// What a completed selection reports besides the visited items.
#[derive(Clone, Copy, Debug, Eq, PartialEq)]
pub struct V4SelectionSummary {
    pub counts: V4SelectionCounts,
    pub max_cas_bytes: u64,
    pub confirmed_offset: u64,
    pub event_count: u64,
    pub marker_fingerprint: [u8; 32],
}

impl V4SelectionCounts {
    /// The counter of one row kind.
    pub open spec fn row_count(self, kind: V4SelectionRowKind) -> u64 {
        match kind {
            V4SelectionRowKind::ArtifactRegistration => self.artifact_registrations,
            V4SelectionRowKind::Execution => self.executions,
            V4SelectionRowKind::Claim => self.claims,
            V4SelectionRowKind::Evidence => self.evidence,
            V4SelectionRowKind::EvidenceBinding => self.evidence_bindings,
            V4SelectionRowKind::Verification => self.verifications,
            V4SelectionRowKind::Decision => self.decisions,
            V4SelectionRowKind::Finding => self.findings,
            V4SelectionRowKind::ClaimAssessment => self.claim_assessments,
            V4SelectionRowKind::Obstruction => self.obstructions,
        }
    }

    /// The counter of one coverage axis.
    pub open spec fn axis_count(self, axis: V4CoverageAxis) -> u64 {
        match axis {
            V4CoverageAxis::Denominator => self.denominator_ids,
            V4CoverageAxis::Visited => self.visited_ids,
            V4CoverageAxis::Completed => self.completed_ids,
            V4CoverageAxis::EvidenceSupported => self.evidence_supported_ids,
            V4CoverageAxis::Verified => self.verified_ids,
            V4CoverageAxis::Accepted => self.accepted_ids,
        }
    }

    pub open spec fn is_zero(self) -> bool {
        &&& forall|kind: V4SelectionRowKind| #[trigger] self.row_count(kind) == 0
        &&& forall|axis: V4CoverageAxis| #[trigger] self.axis_count(axis) == 0
    }

    /// Sets the counter of one row kind.
    pub fn set_row_count(&mut self, kind: V4SelectionRowKind, count: u64)
        ensures
            final(self).row_count(kind) == count,
            forall|other: V4SelectionRowKind|
                other != kind ==> #[trigger] final(self).row_count(other) == old(self).row_count(
                    other,
                ),
            forall|axis: V4CoverageAxis| #[trigger]
                final(self).axis_count(axis) == old(self).axis_count(axis),
    {
        match kind {
            V4SelectionRowKind::ArtifactRegistration => self.artifact_registrations = count,
            V4SelectionRowKind::Execution => self.executions = count,
            V4SelectionRowKind::Claim => self.claims = count,
            V4SelectionRowKind::Evidence => self.evidence = count,
            V4SelectionRowKind::EvidenceBinding => self.evidence_bindings = count,
            V4SelectionRowKind::Verification => self.verifications = count,
            V4SelectionRowKind::Decision => self.decisions = count,
            V4SelectionRowKind::Finding => self.findings = count,
            V4SelectionRowKind::ClaimAssessment => self.claim_assessments = count,
            V4SelectionRowKind::Obstruction => self.obstructions = count,
        }
    }

    /// Sets the counter of one coverage axis.
    pub fn set_axis_count(&mut self, axis: V4CoverageAxis, count: u64)
        ensures
            final(self).axis_count(axis) == count,
            forall|other: V4CoverageAxis|
                other != axis ==> #[trigger] final(self).axis_count(other) == old(self).axis_count(
                    other,
                ),
            forall|kind: V4SelectionRowKind| #[trigger]
                final(self).row_count(kind) == old(self).row_count(kind),
    {
        match axis {
            V4CoverageAxis::Denominator => self.denominator_ids = count,
            V4CoverageAxis::Visited => self.visited_ids = count,
            V4CoverageAxis::Completed => self.completed_ids = count,
            V4CoverageAxis::EvidenceSupported => self.evidence_supported_ids = count,
            V4CoverageAxis::Verified => self.verified_ids = count,
            V4CoverageAxis::Accepted => self.accepted_ids = count,
        }
    }
}

impl Default for V4SelectionCounts {
    fn default() -> (result: Self)
        ensures
            result.is_zero(),
    {
        V4SelectionCounts {
            artifact_registrations: 0,
            executions: 0,
            claims: 0,
            evidence: 0,
            evidence_bindings: 0,
            verifications: 0,
            decisions: 0,
            findings: 0,
            claim_assessments: 0,
            obstructions: 0,
            denominator_ids: 0,
            visited_ids: 0,
            completed_ids: 0,
            evidence_supported_ids: 0,
            verified_ids: 0,
            accepted_ids: 0,
        }
    }
}

/// Byte-wise lexicographic order, the order of Rust's `str` comparison.
pub open spec fn bytes_less(a: Seq<u8>, b: Seq<u8>) -> bool
    decreases a.len(),
{
    if a.len() == 0 {
        b.len() > 0
    } else if b.len() == 0 {
        false
    } else if a[0] != b[0] {
        a[0] < b[0]
    } else {
        bytes_less(a.drop_first(), b.drop_first())
    }
}

/// Compares two byte strings lexicographically.
pub fn compare_bytes_less(a: &[u8], b: &[u8]) -> (result: bool)
    ensures
        result == bytes_less(a@, b@),
{
    let mut i: usize = 0;
    proof {
        assert(a@.skip(0) =~= a@);
        assert(b@.skip(0) =~= b@);
    }
    while i < a.len() && i < b.len() && a[i] == b[i]
        invariant
            i <= a@.len(),
            i <= b@.len(),
            bytes_less(a@, b@) == bytes_less(a@.skip(i as int), b@.skip(i as int)),
        decreases a@.len() - i,
    {
        proof {
            assert(a@.skip(i as int).drop_first() =~= a@.skip(i + 1int));
            assert(b@.skip(i as int).drop_first() =~= b@.skip(i + 1int));
        }
        i += 1;
    }
    if i == a.len() {
        i < b.len()
    } else if i == b.len() {
        false
    } else {
        a[i] < b[i]
    }
}

/// Whether each ID sorts strictly before the next: a canonical ID list is
/// sorted and free of duplicates.
pub open spec fn strictly_increasing(ids: Seq<Vec<u8>>) -> bool {
    forall|k: int| 0 <= k < ids.len() - 1 ==> #[trigger] bytes_less(ids[k]@, ids[k + 1]@)
}

/// Checks that a decoded ID list is strictly increasing.
pub fn ids_strictly_increasing(ids: &[Vec<u8>]) -> (result: bool)
    ensures
        result == strictly_increasing(ids@),
{
    let mut k: usize = 1;
    while k < ids.len()
        invariant
            1 <= k,
            forall|j: int| 0 <= j < k - 1 && j < ids@.len() - 1 ==> #[trigger] bytes_less(
                ids@[j]@,
                ids@[j + 1]@,
            ),
        decreases ids@.len() - k,
    {
        if !compare_bytes_less(ids[k - 1].as_slice(), ids[k].as_slice()) {
            proof {
                let j = k - 1;
                assert(!bytes_less(ids@[j]@, ids@[j + 1]@));
            }
            return false;
        }
        k += 1;
    }
    true
}

/// The ordering key of a retained row: its event sequence and its ID.
pub struct SelectionKey {
    pub sequence: u64,
    pub id: Vec<u8>,
}

/// Whether `key` sorts strictly before `(sequence, id)`.
pub open spec fn key_less(key: SelectionKey, sequence: u64, id: Seq<u8>) -> bool {
    key.sequence < sequence || (key.sequence == sequence && bytes_less(key.id@, id))
}

/// The first position at or after `start` whose key does not sort before
/// `(sequence, id)`, or the end of `source`.
pub open spec fn keyed_stop(source: Seq<SelectionKey>, start: int, sequence: u64, id: Seq<u8>) -> int
    decreases source.len() - start,
{
    if start < 0 || start >= source.len() {
        start
    } else if key_less(source[start], sequence, id) {
        keyed_stop(source, start + 1, sequence, id)
    } else {
        start
    }
}

/// The first position at or after `start` whose ID does not sort before
/// `id`, or the end of `source`.
pub open spec fn id_stop(source: Seq<Vec<u8>>, start: int, id: Seq<u8>) -> int
    decreases source.len() - start,
{
    if start < 0 || start >= source.len() {
        start
    } else if bytes_less(source[start]@, id) {
        id_stop(source, start + 1, id)
    } else {
        start
    }
}

/// A pairing never moves back and skips only rows that sort strictly
/// before the SQL key: the row it stops at lies at or after the cursor,
/// every row passed over sorts before `(sequence, id)`, and the stop is the
/// end of `source` or a row that does not.  Successive pairings therefore
/// name strictly increasing retained rows.
pub proof fn lemma_keyed_stop_forward(
    source: Seq<SelectionKey>,
    start: int,
    sequence: u64,
    id: Seq<u8>,
)
    requires
        0 <= start <= source.len(),
    ensures
        start <= keyed_stop(source, start, sequence, id) <= source.len(),
        forall|j: int|
            start <= j < keyed_stop(source, start, sequence, id) ==> key_less(
                #[trigger] source[j],
                sequence,
                id,
            ),
        keyed_stop(source, start, sequence, id) < source.len() ==> !key_less(
            source[keyed_stop(source, start, sequence, id)],
            sequence,
            id,
        ),
    decreases source.len() - start,
{
    if start < source.len() && key_less(source[start], sequence, id) {
        lemma_keyed_stop_forward(source, start + 1, sequence, id);
    }
}

/// The same for coverage IDs: the stop lies at or after the cursor, every
/// obligation passed over has a smaller ID, and the stop is the end of the
/// denominator or an obligation whose ID is not smaller.
pub proof fn lemma_id_stop_forward(source: Seq<Vec<u8>>, start: int, id: Seq<u8>)
    requires
        0 <= start <= source.len(),
    ensures
        start <= id_stop(source, start, id) <= source.len(),
        forall|j: int|
            start <= j < id_stop(source, start, id) ==> bytes_less(#[trigger] source[j]@, id),
        id_stop(source, start, id) < source.len() ==> !bytes_less(
            source[id_stop(source, start, id)]@,
            id,
        ),
    decreases source.len() - start,
{
    if start < source.len() && bytes_less(source[start]@, id) {
        lemma_id_stop_forward(source, start + 1, id);
    }
}

/// The position reached in a sorted source while SQL result rows are
/// paired with it, and how many rows were paired.
#[derive(Clone, Copy, Debug, Eq, PartialEq)]
pub struct SelectionCursor {
    pub cursor: usize,
    pub count: u64,
}

impl SelectionCursor {
    pub fn new() -> (result: SelectionCursor)
        ensures
            result == (SelectionCursor { cursor: 0, count: 0 }),
    {
        SelectionCursor { cursor: 0, count: 0 }
    }

    /// Pairs the SQL row `(sequence, id)` with the retained row of the same
    /// key, moving forward through `source` (sorted by sequence, then ID)
    /// past every key that sorts before it.  `id` is `None` when the SQL
    /// value is not text.  Returns the position of the paired row; a
    /// negative sequence, a non-text or non-UTF-8 ID, or a key absent from
    /// the rest of `source` violates the projection contract.
    pub fn next_keyed(&mut self, source: &[SelectionKey], sequence: i64, id: Option<&[u8]>) -> (result:
        Result<usize, IndexError>)
        ensures
            (sequence < 0 || id is None || !utf8_valid(id.unwrap()@, 0)) ==> result == Err::<
                usize,
                IndexError,
            >(IndexError::ProjectionContractViolation) && *final(self) == *old(self),
            !(sequence < 0 || id is None || !utf8_valid(id.unwrap()@, 0)) ==> ({
                let stop = keyed_stop(source@, old(self).cursor as int, sequence as u64, id.unwrap()@);
                let found = stop < source@.len() && source@[stop].sequence == sequence
                    && source@[stop].id@ == id.unwrap()@;
                &&& !found ==> result == Err::<usize, IndexError>(
                    IndexError::ProjectionContractViolation,
                )
                &&& found && old(self).count == u64::MAX ==> result == Err::<usize, IndexError>(
                    IndexError::IntegerOutOfRange,
                )
                &&& found && old(self).count < u64::MAX ==> result == Ok::<usize, IndexError>(
                    stop as usize,
                ) && *final(self) == (SelectionCursor {
                    cursor: (stop + 1) as usize,
                    count: (old(self).count + 1) as u64,
                })
            }),
    {
        if sequence < 0 {
            return Err(IndexError::ProjectionContractViolation);
        }
        let id = match id {
            Some(id) => id,
            None => return Err(IndexError::ProjectionContractViolation),
        };
        if !utf8_valid_from(id, 0) {
            return Err(IndexError::ProjectionContractViolation);
        }
        let sequence = sequence as u64;
        let mut cursor = self.cursor;
        while cursor < source.len() && (source[cursor].sequence < sequence || (
        source[cursor].sequence == sequence && compare_bytes_less(&source[cursor].id, id)))
            invariant
                self.cursor <= cursor,
                keyed_stop(source@, self.cursor as int, sequence, id@) == keyed_stop(
                    source@,
                    cursor as int,
                    sequence,
                    id@,
                ),
            decreases source@.len() - cursor,
        {
            cursor += 1;
        }
        if cursor >= source.len() {
            return Err(IndexError::ProjectionContractViolation);
        }
        let candidate = &source[cursor];
        if candidate.sequence != sequence || !crate::charge_v4::bytes_eq(&candidate.id, id) {
            return Err(IndexError::ProjectionContractViolation);
        }
        let count = match self.count.checked_add(1) {
            Some(count) => count,
            None => return Err(IndexError::IntegerOutOfRange),
        };
        self.cursor = cursor + 1;
        self.count = count;
        Ok(cursor)
    }

    /// Pairs a coverage ID returned by SQL with the obligation of the same
    /// ID, moving forward through `denominator` (sorted by ID) past every
    /// smaller ID.  Returns the position of the obligation; a non-text or
    /// non-UTF-8 ID, or an ID absent from the rest of the denominator,
    /// violates the projection contract.
    pub fn next_coverage(&mut self, denominator: &[Vec<u8>], id: Option<&[u8]>) -> (result: Result<
        usize,
        IndexError,
    >)
        ensures
            (id is None || !utf8_valid(id.unwrap()@, 0)) ==> result == Err::<usize, IndexError>(
                IndexError::ProjectionContractViolation,
            ) && *final(self) == *old(self),
            !(id is None || !utf8_valid(id.unwrap()@, 0)) ==> ({
                let stop = id_stop(denominator@, old(self).cursor as int, id.unwrap()@);
                let found = stop < denominator@.len() && denominator@[stop]@ == id.unwrap()@;
                &&& !found ==> result == Err::<usize, IndexError>(
                    IndexError::ProjectionContractViolation,
                )
                &&& found && old(self).count == u64::MAX ==> result == Err::<usize, IndexError>(
                    IndexError::IntegerOutOfRange,
                )
                &&& found && old(self).count < u64::MAX ==> result == Ok::<usize, IndexError>(
                    stop as usize,
                ) && *final(self) == (SelectionCursor {
                    cursor: (stop + 1) as usize,
                    count: (old(self).count + 1) as u64,
                })
            }),
    {
        let id = match id {
            Some(id) => id,
            None => return Err(IndexError::ProjectionContractViolation),
        };
        if !utf8_valid_from(id, 0) {
            return Err(IndexError::ProjectionContractViolation);
        }
        let mut cursor = self.cursor;
        while cursor < denominator.len() && compare_bytes_less(&denominator[cursor], id)
            invariant
                self.cursor <= cursor,
                id_stop(denominator@, self.cursor as int, id@) == id_stop(
                    denominator@,
                    cursor as int,
                    id@,
                ),
            decreases denominator@.len() - cursor,
        {
            cursor += 1;
        }
        if cursor >= denominator.len() || !crate::charge_v4::bytes_eq(&denominator[cursor], id) {
            return Err(IndexError::ProjectionContractViolation);
        }
        let count = match self.count.checked_add(1) {
            Some(count) => count,
            None => return Err(IndexError::IntegerOutOfRange),
        };
        self.cursor = cursor + 1;
        self.count = count;
        Ok(cursor)
    }
}

/// Checks what SQL reported of the selected obligations before anything is
/// visited: none may be missing from the obligations, each must occur
/// exactly once in the plan's waves, and no matching execution may cover
/// more than one obligation.
pub fn check_selection_scope(missing: i64, plan_matches: i64, selected: usize, bad_scope: i64) -> (result:
    Result<(), IndexError>)
    ensures
        selected > i64::MAX ==> result == Err::<(), IndexError>(IndexError::IntegerOutOfRange),
        selected <= i64::MAX ==> (result == if missing != 0 || plan_matches != selected
            || bad_scope != 0 {
            Err::<(), IndexError>(IndexError::ProjectionContractViolation)
        } else {
            Ok::<(), IndexError>(())
        }),
{
    if selected as u64 > i64::MAX as u64 {
        return Err(IndexError::IntegerOutOfRange);
    }
    let selected = selected as i64;
    if missing != 0 || plan_matches != selected || bad_scope != 0 {
        return Err(IndexError::ProjectionContractViolation);
    }
    Ok(())
}

/// Checks that a selection request names the marker it was issued against:
/// its confirmed offset, event count and tail hash, and the fingerprint
/// recorded when the snapshot was validated.
pub fn check_selection_request(
    confirmed_offset: u64,
    event_count: u64,
    tail_hash: &str,
    fingerprint: [u8; 32],
    expected_confirmed_offset: u64,
    expected_event_count: u64,
    expected_tail_hash: &str,
    expected_fingerprint: [u8; 32],
) -> (result: Result<(), IndexError>)
    ensures
        result == if confirmed_offset == expected_confirmed_offset && event_count
            == expected_event_count && tail_hash.spec_bytes() == expected_tail_hash.spec_bytes() && fingerprint@
            == expected_fingerprint@ {
            Ok::<(), IndexError>(())
        } else {
            Err::<(), IndexError>(IndexError::ProjectionContractViolation)
        },
{
    if confirmed_offset != expected_confirmed_offset || event_count != expected_event_count
        || !crate::classify::str_eq(tail_hash, expected_tail_hash) {
        return Err(IndexError::ProjectionContractViolation);
    }
    let mut k: usize = 0;
    while k < 32
        invariant
            k <= 32,
            forall|j: int| 0 <= j < k ==> fingerprint@[j] == #[trigger] expected_fingerprint@[j],
        decreases 32 - k,
    {
        if fingerprint[k] != expected_fingerprint[k] {
            return Err(IndexError::ProjectionContractViolation);
        }
        k += 1;
    }
    proof {
        assert(fingerprint@ =~= expected_fingerprint@);
    }
    Ok(())
}

/// The operational ceiling of a selection's internal workspace.
pub fn v4_selection_operational_limit() -> (result: u64)
    ensures
        result == V4_SELECTION_OPERATIONAL_LIMIT,
{
    V4_SELECTION_OPERATIONAL_LIMIT
}

/// The operational ceiling of JSON staged during a preflight.
pub fn v4_json_staging_limit() -> (result: u64)
    ensures
        result == V4_JSON_STAGING_OPERATIONAL_LIMIT,
{
    V4_JSON_STAGING_OPERATIONAL_LIMIT
}

/// Admits a selection whose internal workspace is charged `observed`.
pub fn admit_selection_workspace(observed: u64) -> (result: Result<(), IndexError>)
    ensures
        observed > V4_SELECTION_OPERATIONAL_LIMIT ==> result == Err::<(), IndexError>(
            IndexError::Incomplete { limit: V4_SELECTION_OPERATIONAL_LIMIT, observed },
        ),
        observed <= V4_SELECTION_OPERATIONAL_LIMIT ==> result == Ok::<(), IndexError>(()),
{
    let limit = v4_selection_operational_limit();
    if observed > limit {
        return Err(IndexError::Incomplete { limit, observed });
    }
    Ok(())
}

/// Admits the largest JSON cell staged by a preflight.
pub fn admit_v4_json_staging(observed: u64) -> (result: Result<(), IndexError>)
    ensures
        observed > V4_JSON_STAGING_OPERATIONAL_LIMIT ==> result == Err::<(), IndexError>(
            IndexError::Incomplete { limit: V4_JSON_STAGING_OPERATIONAL_LIMIT, observed },
        ),
        observed <= V4_JSON_STAGING_OPERATIONAL_LIMIT ==> result == Ok::<(), IndexError>(()),
{
    let limit = v4_json_staging_limit();
    if observed > limit {
        return Err(IndexError::Incomplete { limit, observed });
    }
    Ok(())
}

/// The largest CAS size reported by SQL for the selected registrations;
/// a negative size violates the projection contract.
pub fn selected_max_cas_bytes(max_cas: i64) -> (result: Result<u64, IndexError>)
    ensures
        max_cas < 0 ==> result == Err::<u64, IndexError>(IndexError::ProjectionContractViolation),
        max_cas >= 0 ==> result == Ok::<u64, IndexError>(max_cas as u64),
{
    if max_cas < 0 {
        return Err(IndexError::ProjectionContractViolation);
    }
    Ok(max_cas as u64)
}

/// Value of one hexadecimal digit, either case.
pub open spec fn hex_digit_value(b: u8) -> Option<u8> {
    if 0x30 <= b <= 0x39 {
        Some((b - 0x30) as u8)
    } else if 0x61 <= b <= 0x66 {
        Some((b - 0x61 + 10) as u8)
    } else if 0x41 <= b <= 0x46 {
        Some((b - 0x41 + 10) as u8)
    } else {
        None
    }
}

/// A two-byte chunk read as a base-16 `u8`: two digits, or a plus sign and
/// one digit, as `u8::from_str_radix` reads them.
pub open spec fn hex_pair_value(high: u8, low: u8) -> Option<u8> {
    match (hex_digit_value(high), hex_digit_value(low)) {
        (Some(h), Some(l)) => Some((16 * h + l) as u8),
        (None, Some(l)) => if high == 0x2b {
            Some(l)
        } else {
            None
        },
        _ => None,
    }
}

/// The prefix of a SHA-256 content hash.
pub open spec fn sha256_prefix() -> Seq<u8> {
    seq![0x73u8, 0x68, 0x61, 0x32, 0x35, 0x36, 0x3a]
}

/// Number of fingerprint bytes filled from `hex`: one per whole chunk of
/// two, at most thirty-two.
pub open spec fn fingerprint_pairs(hex: Seq<u8>) -> int {
    if hex.len() / 2 < 32 {
        (hex.len() / 2) as int
    } else {
        32
    }
}

/// Whether every chunk that fills a fingerprint byte is a valid pair.
pub open spec fn fingerprint_hex_ok(hex: Seq<u8>) -> bool {
    forall|k: int|
        0 <= k < fingerprint_pairs(hex) ==> #[trigger] hex_pair_value(hex[2 * k], hex[2 * k + 1])
            is Some
}

/// The fingerprint read from `hex`: each whole chunk of two gives one byte,
/// and bytes with no chunk stay zero.
pub open spec fn fingerprint_of(hex: Seq<u8>) -> Seq<u8> {
    Seq::new(
        32,
        |k: int|
            if k < fingerprint_pairs(hex) {
                hex_pair_value(hex[2 * k], hex[2 * k + 1]).unwrap()
            } else {
                0u8
            },
    )
}

fn hex_digit(b: u8) -> (result: Option<u8>)
    ensures
        result == hex_digit_value(b),
{
    if 0x30 <= b && b <= 0x39 {
        Some(b - 0x30)
    } else if 0x61 <= b && b <= 0x66 {
        Some(b - 0x61 + 10)
    } else if 0x41 <= b && b <= 0x46 {
        Some(b - 0x41 + 10)
    } else {
        None
    }
}

fn hex_pair(high: u8, low: u8) -> (result: Option<u8>)
    ensures
        result == hex_pair_value(high, low),
{
    match (hex_digit(high), hex_digit(low)) {
        (Some(h), Some(l)) => Some(16 * h + l),
        (None, Some(l)) => if high == 0x2b {
            Some(l)
        } else {
            None
        },
        _ => None,
    }
}

/// Reads the thirty-two byte marker fingerprint out of the marker's
/// canonical content hash, `sha256:` followed by hexadecimal.  A hash
/// without that prefix, or a chunk of two that is not a base-16 byte,
/// violates the projection contract.
pub fn marker_fingerprint_from_hash(hash: &str) -> (result: Result<[u8; 32], IndexError>)
    ensures
        ({
            let bytes = hash.spec_bytes();
            let prefixed = bytes.len() >= 7 && bytes.subrange(0, 7) == sha256_prefix();
            let hex = bytes.skip(7);
            &&& (prefixed && fingerprint_hex_ok(hex)) ==> (result matches Ok(fingerprint)
                && fingerprint@ == fingerprint_of(hex))
            &&& !(prefixed && fingerprint_hex_ok(hex)) ==> result == Err::<[u8; 32], IndexError>(
                IndexError::ProjectionContractViolation,
            )
        }),
{
    let bytes = hash.as_bytes();
    let ghost hex = bytes@.skip(7);
    if bytes.len() < 7 || bytes[0] != 0x73 || bytes[1] != 0x68 || bytes[2] != 0x61 || bytes[3]
        != 0x32 || bytes[4] != 0x35 || bytes[5] != 0x36 || bytes[6] != 0x3a {
        proof {
            if bytes@.len() >= 7 && bytes@.subrange(0, 7) == sha256_prefix() {
                assert(bytes@.subrange(0, 7)[0] == bytes@[0]);
                assert(bytes@.subrange(0, 7)[1] == bytes@[1]);
                assert(bytes@.subrange(0, 7)[2] == bytes@[2]);
                assert(bytes@.subrange(0, 7)[3] == bytes@[3]);
                assert(bytes@.subrange(0, 7)[4] == bytes@[4]);
                assert(bytes@.subrange(0, 7)[5] == bytes@[5]);
                assert(bytes@.subrange(0, 7)[6] == bytes@[6]);
            }
        }
        return Err(IndexError::ProjectionContractViolation);
    }
    proof {
        assert(bytes@.subrange(0, 7) =~= sha256_prefix());
    }
    let pairs: usize = if (bytes.len() - 7) / 2 < 32 {
        (bytes.len() - 7) / 2
    } else {
        32
    };
    let mut output: [u8; 32] = [0u8; 32];
    let mut k: usize = 0;
    while k < pairs
        invariant
            bytes@ == hash.spec_bytes(),
            hex == bytes@.skip(7),
            pairs == fingerprint_pairs(hex),
            bytes@.len() >= 7,
            2 * pairs + 7 <= bytes@.len(),
            k <= pairs,
            output@.len() == 32,
            forall|j: int|
                0 <= j < k ==> #[trigger] hex_pair_value(hex[2 * j], hex[2 * j + 1]) is Some,
            forall|j: int| k <= j < 32 ==> #[trigger] output@[j] == 0u8,
            forall|j: int| 0 <= j < k ==> #[trigger] output@[j] == fingerprint_of(hex)[j],
        decreases pairs - k,
    {
        let high = bytes[7 + 2 * k];
        let low = bytes[7 + 2 * k + 1];
        match hex_pair(high, low) {
            Some(value) => {
                output[k] = value;
            },
            None => {
                proof {
                    assert(hex[2 * k as int] == high);
                    assert(hex[2 * k + 1int] == low);
                }
                return Err(IndexError::ProjectionContractViolation);
            },
        }
        k += 1;
    }
    proof {
        assert(output@ =~= fingerprint_of(hex));
    }
    Ok(output)
}

} // verus!
