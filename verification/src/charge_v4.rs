//! Normative working-set accounting of a schema-v4 projection: SQL cells,
//! the canonical query result, and the semantic ownership of the decoded
//! snapshot.

use vstd::prelude::*;
use crate::error::IndexError;
use crate::limits::IndexLimits;
use crate::json_model::canonical_chars_total;
use crate::outside::json_text_length;

verus! {

/// Number of array fields of a v4 snapshot.
pub const V4_ARRAY_COUNT: usize = 19;

/// The array fields of a v4 snapshot, in serialization order.
pub const V4_ARRAY_FIELDS: [&'static str; 19] = [
    "events",
    "shadows",
    "projected_findings",
    "program_objects",
    "program_relations",
    "obligations",
    "obligation_lifecycle",
    "executions",
    "claims",
    "artifact_registrations",
    "snapshot_sources",
    "context_envelopes",
    "review_plans",
    "evidence",
    "evidence_bindings",
    "verifications",
    "decisions",
    "findings",
    "claim_assessments",
];

/// The scalar fields of a v4 snapshot.
pub const V4_SCALAR_FIELDS: [&'static str; 4] = [
    "marker",
    "universe",
    "policy_revision_hash",
    "authority_replay_basis_digest",
];

/// Top-level fields of a v4 snapshot (arrays and scalars).
pub const V4_FIELD_COUNT: u64 = 23;

/// The total UTF-8 length of `names`.
pub open spec fn names_len(names: Seq<&str>) -> nat
    decreases names.len(),
{
    if names.len() == 0 {
        0
    } else {
        names_len(names.drop_last()) + names.last().len() as nat
    }
}

/// Total bytes of the names of all top-level fields.
pub open spec fn v4_field_key_bytes() -> nat {
    names_len(V4_ARRAY_FIELDS@) + names_len(V4_SCALAR_FIELDS@)
}

/// Adds the lengths of `names` onto `total`.
fn add_name_lengths(total: u128, names: &[&str]) -> (result: u128)
    requires
        total <= 19 * 0xffff_ffff_ffff_ffff,
        names@.len() <= 19,
    ensures
        result == total + names_len(names@),
        result <= total + names@.len() * 0xffff_ffff_ffff_ffff,
{
    let mut result = total;
    let mut i: usize = 0;
    while i < names.len()
        invariant
            i <= names@.len(),
            names@.len() <= 19,
            total <= 19 * 0xffff_ffff_ffff_ffff,
            result == total + names_len(names@.subrange(0, i as int)),
            result <= total + i * 0xffff_ffff_ffff_ffff,
        decreases names@.len() - i,
    {
        proof {
            let prefix = names@.subrange(0, i + 1int);
            assert(prefix.drop_last() =~= names@.subrange(0, i as int));
            assert(prefix.last() == names@[i as int]);
        }
        let name: &str = names[i];
        result = result + name.len() as u128;
        i += 1;
    }
    proof {
        assert(names@.subrange(0, names@.len() as int) =~= names@);
    }
    result
}

/// Total bytes of the names of all top-level fields, counted from the
/// names themselves.
fn field_key_bytes() -> (result: u128)
    ensures
        result == v4_field_key_bytes(),
        result <= 23 * 0xffff_ffff_ffff_ffff,
{
    let arrays = add_name_lengths(0, V4_ARRAY_FIELDS.as_slice());
    add_name_lengths(arrays, V4_SCALAR_FIELDS.as_slice())
}

/// A snapshot array's index in `V4_ARRAY_FIELDS`.
pub const EVENTS: usize = 0;

pub const PROGRAM_OBJECTS: usize = 3;

pub const PROGRAM_RELATIONS: usize = 4;

pub const OBLIGATIONS: usize = 5;

pub const OBLIGATION_LIFECYCLE: usize = 6;

pub const EXECUTIONS: usize = 7;

pub const CLAIMS: usize = 8;

pub const REGISTRATIONS: usize = 9;

pub const SNAPSHOT_SOURCES: usize = 10;

pub const CONTEXT_ENVELOPES: usize = 11;

pub const REVIEW_PLANS: usize = 12;

pub const EVIDENCE: usize = 13;

pub const EVIDENCE_BINDINGS: usize = 14;

pub const VERIFICATIONS: usize = 15;

pub const DECISIONS: usize = 16;

pub const FINDINGS: usize = 17;

pub const CLAIM_ASSESSMENTS: usize = 18;

/// Accounting of one rebuilt or queried v4 image.
#[derive(Clone, Debug, PartialEq, Eq)]
pub struct IndexAccountingV4 {
    pub rows: u64,
    pub integer_cells: u64,
    pub text_bytes: u64,
    pub sql_bytes: u64,
    pub query_bytes: u64,
    pub owned_bytes: u64,
    pub working_bytes: u64,
}

/// Accumulated charge of one snapshot array.
#[derive(Clone, Copy, Debug, PartialEq, Eq)]
pub struct ArrayChargeV4 {
    pub items: u64,
    pub json_items: u64,
    pub owned_items: u64,
}

/// What the serialized form of one row field is, as far as SQL storage
/// is concerned.
#[derive(Clone, Copy, Debug, PartialEq, Eq)]
pub enum JsonScalar {
    Null,
    Bool,
    Number,
    /// A string of this many UTF-8 bytes.
    Text(usize),
    /// An array or object.
    Compound,
}

/// One field of a row's JSON object.
pub struct SqlField {
    pub key: Vec<u8>,
    pub value: JsonScalar,
}

pub open spec fn field_skipped(field: SqlField, skip: Option<Seq<u8>>) -> bool {
    (skip matches Some(name) && field.key@ == name) || field.value == JsonScalar::Null
}

/// One field charged onto running totals.
pub open spec fn charge_field(integers: u64, text: u64, field: SqlField, skip: Option<Seq<u8>>) -> (
    u64,
    u64,
    Option<IndexError>,
) {
    if field_skipped(field, skip) {
        (integers, text, None)
    } else {
        match field.value {
            JsonScalar::Text(len) => if text + len <= u64::MAX {
                ((integers, (text + len) as u64, None))
            } else {
                (integers, text, Some(IndexError::IntegerOutOfRange))
            },
            JsonScalar::Number | JsonScalar::Bool => if integers + 1 <= u64::MAX {
                (((integers + 1) as u64, text, None))
            } else {
                (integers, text, Some(IndexError::IntegerOutOfRange))
            },
            _ => (integers, text, Some(IndexError::ProjectionContractViolation)),
        }
    }
}

/// Fields charged in order, stopping at the first error.
pub open spec fn charge_fields(
    integers: u64,
    text: u64,
    fields: Seq<SqlField>,
    skip: Option<Seq<u8>>,
) -> (u64, u64, Option<IndexError>)
    decreases fields.len(),
{
    if fields.len() == 0 {
        (integers, text, None)
    } else {
        let (i, t, e) = charge_fields(integers, text, fields.drop_last(), skip);
        if e is Some {
            (i, t, e)
        } else {
            charge_field(i, t, fields.last(), skip)
        }
    }
}

/// Charges one row's SQL cells: the UTF-8 bytes of every string field and
/// one integer cell per number or boolean; null fields and the field named
/// `skip` are not stored.  A row whose JSON form is not an object (`None`)
/// or has a nested field violates the projection contract.
pub fn charge_sql_row(
    row: Option<&Vec<SqlField>>,
    integers: &mut u64,
    text: &mut u64,
    skip: Option<&[u8]>,
) -> (result: Result<(), IndexError>)
    ensures
        row is None ==> result == Err::<(), IndexError>(IndexError::ProjectionContractViolation)
            && *final(integers) == *old(integers) && *final(text) == *old(text),
        row matches Some(fields) ==> ({
            let skip_bytes = match skip {
                Some(name) => Some(name@),
                None => None,
            };
            let (i, t, e) = charge_fields(*old(integers), *old(text), fields@, skip_bytes);
            &&& *final(integers) == i
            &&& *final(text) == t
            &&& match e {
                Some(error) => result == Err::<(), IndexError>(error),
                None => result == Ok::<(), IndexError>(()),
            }
        }),
{
    let fields = match row {
        Some(fields) => fields,
        None => return Err(IndexError::ProjectionContractViolation),
    };
    let ghost skip_bytes = match skip {
        Some(name) => Some(name@),
        None => None,
    };
    let mut n: usize = 0;
    while n < fields.len()
        invariant
            n <= fields@.len(),
            row == Some(fields),
            skip_bytes == match skip {
                Some(name) => Some(name@),
                None => None::<Seq<u8>>,
            },
            charge_fields(*old(integers), *old(text), fields@.subrange(0, n as int), skip_bytes)
                == (*integers, *text, None::<IndexError>),
        decreases fields@.len() - n,
    {
        proof {
            assert(fields@.subrange(0, n + 1int).drop_last() =~= fields@.subrange(0, n as int));
            assert(fields@.subrange(0, n + 1int).last() == fields@[n as int]);
        }
        let field = &fields[n];
        let skipped = match skip {
            Some(name) => bytes_eq(&field.key, name),
            None => false,
        };
        if !skipped {
            match field.value {
                JsonScalar::Null => {},
                JsonScalar::Text(len) => {
                    *text = match text.checked_add(len as u64) {
                        Some(value) => value,
                        None => {
                            proof {
                                lemma_charge_fields_stops(
                                    *old(integers),
                                    *old(text),
                                    fields@,
                                    n + 1,
                                    skip_bytes,
                                );
                            }
                            return Err(IndexError::IntegerOutOfRange);
                        },
                    };
                },
                JsonScalar::Number | JsonScalar::Bool => {
                    *integers = match integers.checked_add(1) {
                        Some(value) => value,
                        None => {
                            proof {
                                lemma_charge_fields_stops(
                                    *old(integers),
                                    *old(text),
                                    fields@,
                                    n + 1,
                                    skip_bytes,
                                );
                            }
                            return Err(IndexError::IntegerOutOfRange);
                        },
                    };
                },
                JsonScalar::Compound => {
                    proof {
                        lemma_charge_fields_stops(*old(integers), *old(text), fields@, n + 1, skip_bytes);
                    }
                    return Err(IndexError::ProjectionContractViolation);
                },
            }
        }
        n += 1;
    }
    proof {
        assert(fields@.subrange(0, fields@.len() as int) =~= fields@);
    }
    Ok(())
}

/// Once a prefix of the fields stops the charge with an error, the whole
/// sequence stops there with the same totals and error.
pub proof fn lemma_charge_fields_stops(
    integers: u64,
    text: u64,
    fields: Seq<SqlField>,
    n: int,
    skip: Option<Seq<u8>>,
)
    requires
        0 <= n <= fields.len(),
        charge_fields(integers, text, fields.subrange(0, n), skip).2 is Some,
    ensures
        charge_fields(integers, text, fields, skip) == charge_fields(
            integers,
            text,
            fields.subrange(0, n),
            skip,
        ),
    decreases fields.len() - n,
{
    if n < fields.len() {
        let longer = fields.subrange(0, n + 1);
        assert(longer.drop_last() =~= fields.subrange(0, n));
        lemma_charge_fields_stops(integers, text, fields, n + 1, skip);
    } else {
        assert(fields.subrange(0, n) =~= fields);
    }
}

/// Byte-wise equality of two byte strings.
pub fn bytes_eq(left: &Vec<u8>, right: &[u8]) -> (result: bool)
    ensures
        result == (left@ == right@),
{
    if left.len() != right.len() {
        return false;
    }
    let mut i: usize = 0;
    while i < left.len()
        invariant
            left@.len() == right@.len(),
            i <= left@.len(),
            forall|j: int| 0 <= j < i ==> left@[j] == #[trigger] right@[j],
        decreases left@.len() - i,
    {
        if left[i] != right[i] {
            return false;
        }
        i += 1;
    }
    proof {
        assert(left@ =~= right@);
    }
    true
}

/// Bytes one array adds to the canonical query result: its brackets, the
/// commas between its items, and the items themselves.
pub open spec fn array_query_bytes(array: ArrayChargeV4) -> nat {
    (2 + (if array.items == 0 { 0 } else { array.items - 1 }) + array.json_items) as nat
}

pub open spec fn arrays_query_bytes(arrays: Seq<ArrayChargeV4>) -> nat
    decreases arrays.len(),
{
    if arrays.len() == 0 {
        0
    } else {
        arrays_query_bytes(arrays.drop_last()) + array_query_bytes(arrays.last())
    }
}

pub open spec fn arrays_owned_bytes(arrays: Seq<ArrayChargeV4>) -> nat
    decreases arrays.len(),
{
    if arrays.len() == 0 {
        0
    } else {
        arrays_owned_bytes(arrays.drop_last()) + arrays.last().owned_items as nat
    }
}

/// The canonical JSON length of a string: two quotes around its escaped
/// characters.
pub open spec fn json_text_len(text: Seq<char>) -> nat {
    2 + canonical_chars_total(text.map_values(|c: char| c as u32))
}

/// SQL bytes of a projection: its text bytes, eight per integer cell and one
/// per row.
pub open spec fn sql_bytes_of(charge: ProjectionChargeV4) -> int {
    charge.text_bytes + 8 * charge.integer_cells + charge.rows
}

/// Bytes of the canonical query result: every scalar and array value, the
/// field names each with two quotes and a colon, the commas between the
/// fields, and the two braces.
pub open spec fn query_bytes_of(
    charge: ProjectionChargeV4,
    policy: Seq<char>,
    basis: Seq<char>,
) -> int {
    charge.marker_json + charge.universe_json + json_text_len(policy) + json_text_len(basis)
        + arrays_query_bytes(charge.arrays@) + v4_field_key_bytes() + 3 * V4_FIELD_COUNT + (
    V4_FIELD_COUNT - 1) + 2
}

/// Semantic ownership of the decoded snapshot: a sixteen-byte slot per
/// top-level field, the field names, the scalar fields and the array items.
pub open spec fn owned_bytes_of(charge: ProjectionChargeV4, policy_len: nat, basis_len: nat) -> int {
    16 * V4_FIELD_COUNT + v4_field_key_bytes() + charge.marker_owned + charge.universe_owned
        + policy_len + basis_len + arrays_owned_bytes(charge.arrays@)
}

/// The whole working set: SQL cells, query result, decoded ownership, and
/// the largest CAS object and event line held alongside them.
pub open spec fn working_bytes_of(
    charge: ProjectionChargeV4,
    policy: Seq<char>,
    basis: Seq<char>,
    policy_len: nat,
    basis_len: nat,
) -> int {
    sql_bytes_of(charge) + query_bytes_of(charge, policy, basis) + owned_bytes_of(
        charge,
        policy_len,
        basis_len,
    ) + charge.max_cas_bytes + charge.max_event_line_bytes
}

/// A skipped field name as bytes.
pub open spec fn slice_skip(skip: Option<&[u8]>) -> Option<Seq<u8>> {
    match skip {
        Some(name) => Some(name@),
        None => None,
    }
}

/// The outcome of counting one stored row onto `rows` and charging its
/// cells: the row counter must not overflow, the row must be a JSON object
/// (`Some`), and its fields must charge without error.
pub open spec fn sql_outcome(
    rows: u64,
    integers: u64,
    text: u64,
    row: Option<&Vec<SqlField>>,
    skip: Option<Seq<u8>>,
) -> Result<(), IndexError> {
    if rows == u64::MAX {
        Err(IndexError::IntegerOutOfRange)
    } else {
        match row {
            None => Err(IndexError::ProjectionContractViolation),
            Some(fields) => match charge_fields(integers, text, fields@, skip).2 {
                Some(error) => Err(error),
                None => Ok(()),
            },
        }
    }
}

/// The running charge of a v4 projection while its rows are produced.
pub struct ProjectionChargeV4 {
    pub arrays: Vec<ArrayChargeV4>,
    pub rows: u64,
    pub integer_cells: u64,
    pub text_bytes: u64,
    pub marker_json: u64,
    pub marker_owned: u64,
    pub universe_json: u64,
    pub universe_owned: u64,
    pub max_cas_bytes: u64,
    pub max_event_line_bytes: u64,
    pub admitted_json_bytes: u64,
    pub allocation_limit: u64,
}

/// The accounting of a completed projection and the length of each array.
pub struct ProjectionPreflightV4 {
    pub accounting: IndexAccountingV4,
    pub array_counts: Vec<u64>,
}

impl ProjectionChargeV4 {
    /// Whether the charge keeps one entry per snapshot array.
    pub open spec fn well_formed(&self) -> bool {
        self.arrays@.len() == V4_ARRAY_COUNT
    }

    /// Starts the charge of a projection whose marker serializes to
    /// `marker_json` bytes, owns `marker_owned` bytes and stores `marker_row`.
    pub fn new(
        marker_json: u64,
        marker_owned: u64,
        marker_row: Option<&Vec<SqlField>>,
        limits: IndexLimits,
    ) -> (result: Result<ProjectionChargeV4, IndexError>)
        ensures
            marker_json > limits.max_query_bytes ==> result == Err::<
                ProjectionChargeV4,
                IndexError,
            >(IndexError::Incomplete { limit: limits.max_query_bytes, observed: marker_json }),
            marker_json <= limits.max_query_bytes ==> match marker_row {
                None => result == Err::<ProjectionChargeV4, IndexError>(
                    IndexError::ProjectionContractViolation,
                ),
                Some(fields) => {
                    let (i, t, e) = charge_fields(0, 0, fields@, None);
                    match e {
                        Some(error) => result == Err::<ProjectionChargeV4, IndexError>(error),
                        None => result matches Ok(charge) && {
                            &&& charge.well_formed()
                            &&& forall|k: int|
                                0 <= k < V4_ARRAY_COUNT ==> #[trigger] charge.arrays@[k] == (
                                ArrayChargeV4 { items: 0, json_items: 0, owned_items: 0 })
                            &&& charge.rows == 1
                            &&& charge.integer_cells == i
                            &&& charge.text_bytes == t
                            &&& charge.marker_json == marker_json
                            &&& charge.marker_owned == marker_owned
                            &&& charge.universe_json == 4
                            &&& charge.universe_owned == 0
                            &&& charge.max_cas_bytes == 0
                            &&& charge.max_event_line_bytes == 0
                            &&& charge.admitted_json_bytes == marker_json
                            &&& charge.allocation_limit == limits.max_query_bytes
                        },
                    }
                },
            },
    {
        if marker_json > limits.max_query_bytes {
            return Err(
                IndexError::Incomplete { limit: limits.max_query_bytes, observed: marker_json },
            );
        }
        let mut arrays: Vec<ArrayChargeV4> = Vec::new();
        let mut k: usize = 0;
        while k < V4_ARRAY_COUNT
            invariant
                k <= V4_ARRAY_COUNT,
                arrays@.len() == k,
                forall|j: int|
                    0 <= j < k ==> #[trigger] arrays@[j] == (ArrayChargeV4 {
                        items: 0,
                        json_items: 0,
                        owned_items: 0,
                    }),
            decreases V4_ARRAY_COUNT - k,
        {
            arrays.push(ArrayChargeV4 { items: 0, json_items: 0, owned_items: 0 });
            k += 1;
        }
        let mut result = ProjectionChargeV4 {
            arrays,
            rows: 0,
            integer_cells: 0,
            text_bytes: 0,
            marker_json,
            marker_owned,
            // null until the mandatory universe row is observed
            universe_json: 4,
            universe_owned: 0,
            max_cas_bytes: 0,
            max_event_line_bytes: 0,
            admitted_json_bytes: marker_json,
            allocation_limit: limits.max_query_bytes,
        };
        match result.add_sql(marker_row, None) {
            Ok(()) => Ok(result),
            Err(error) => Err(error),
        }
    }

    /// Counts one stored row and charges its cells.
    pub fn add_sql(&mut self, row: Option<&Vec<SqlField>>, skip: Option<&[u8]>) -> (result: Result<
        (),
        IndexError,
    >)
        ensures
            final(self).arrays == old(self).arrays,
            final(self).marker_json == old(self).marker_json,
            final(self).marker_owned == old(self).marker_owned,
            final(self).universe_json == old(self).universe_json,
            final(self).universe_owned == old(self).universe_owned,
            final(self).max_cas_bytes == old(self).max_cas_bytes,
            final(self).max_event_line_bytes == old(self).max_event_line_bytes,
            final(self).admitted_json_bytes == old(self).admitted_json_bytes,
            final(self).allocation_limit == old(self).allocation_limit,
            old(self).rows == u64::MAX ==> result == Err::<(), IndexError>(
                IndexError::IntegerOutOfRange,
            ),
            old(self).rows < u64::MAX ==> {
                &&& final(self).rows == old(self).rows + 1
                &&& match row {
                    None => result == Err::<(), IndexError>(
                        IndexError::ProjectionContractViolation,
                    ),
                    Some(fields) => {
                        let skip_bytes = match skip {
                            Some(name) => Some(name@),
                            None => None,
                        };
                        let (i, t, e) = charge_fields(
                            old(self).integer_cells,
                            old(self).text_bytes,
                            fields@,
                            skip_bytes,
                        );
                        &&& final(self).integer_cells == i
                        &&& final(self).text_bytes == t
                        &&& match e {
                            Some(error) => result == Err::<(), IndexError>(error),
                            None => result == Ok::<(), IndexError>(()),
                        }
                    },
                }
            },
            result is Ok ==> final(self).integer_cells == old(self).integer_cells
                + fields_integers(row.unwrap()@, slice_skip(skip)) && final(self).text_bytes == old(
                self,
            ).text_bytes + fields_text(row.unwrap()@, slice_skip(skip)),
    {
        self.rows = match self.rows.checked_add(1) {
            Some(value) => value,
            None => return Err(IndexError::IntegerOutOfRange),
        };
        let ghost integers = self.integer_cells;
        let ghost text = self.text_bytes;
        let result = charge_sql_row(row, &mut self.integer_cells, &mut self.text_bytes, skip);
        proof {
            if row is Some {
                lemma_charge_fields_additive(integers, text, row.unwrap()@, slice_skip(skip));
            }
        }
        result
    }

    /// Admits `bytes` more of serialized JSON against the allocation limit.
    pub fn admit_json_allocation(&mut self, bytes: u64) -> (result: Result<(), IndexError>)
        ensures
            final(self).arrays == old(self).arrays,
            final(self).rows == old(self).rows,
            final(self).allocation_limit == old(self).allocation_limit,
            old(self).admitted_json_bytes + bytes > u64::MAX ==> result == Err::<(), IndexError>(
                IndexError::IntegerOutOfRange,
            ) && final(self).admitted_json_bytes == old(self).admitted_json_bytes,
            old(self).admitted_json_bytes + bytes <= u64::MAX ==> final(self).admitted_json_bytes
                == old(self).admitted_json_bytes + bytes,
            old(self).admitted_json_bytes + bytes <= u64::MAX && old(self).admitted_json_bytes
                + bytes > old(self).allocation_limit ==> result == Err::<(), IndexError>(
                IndexError::Incomplete {
                    limit: old(self).allocation_limit,
                    observed: (old(self).admitted_json_bytes + bytes) as u64,
                },
            ),
            old(self).admitted_json_bytes + bytes <= old(self).allocation_limit ==> result == Ok::<
                (),
                IndexError,
            >(()),
            final(self).integer_cells == old(self).integer_cells,
            final(self).text_bytes == old(self).text_bytes,
            final(self).marker_json == old(self).marker_json,
            final(self).marker_owned == old(self).marker_owned,
            final(self).universe_json == old(self).universe_json,
            final(self).universe_owned == old(self).universe_owned,
            final(self).max_cas_bytes == old(self).max_cas_bytes,
            final(self).max_event_line_bytes == old(self).max_event_line_bytes,
    {
        self.admitted_json_bytes = match self.admitted_json_bytes.checked_add(bytes) {
            Some(value) => value,
            None => return Err(IndexError::IntegerOutOfRange),
        };
        if self.admitted_json_bytes > self.allocation_limit {
            return Err(
                IndexError::Incomplete {
                    limit: self.allocation_limit,
                    observed: self.admitted_json_bytes,
                },
            );
        }
        Ok(())
    }

    /// Admits one transient JSON buffer of `bytes`, which is not retained.
    pub fn admit_transient_json(&self, bytes: u64) -> (result: Result<(), IndexError>)
        ensures
            bytes > self.allocation_limit ==> result == Err::<(), IndexError>(
                IndexError::Incomplete { limit: self.allocation_limit, observed: bytes },
            ),
            bytes <= self.allocation_limit ==> result == Ok::<(), IndexError>(()),
    {
        if bytes > self.allocation_limit {
            return Err(IndexError::Incomplete { limit: self.allocation_limit, observed: bytes });
        }
        Ok(())
    }

    /// Adds one row of array `field` whose JSON is `json` bytes and which
    /// owns `owned` bytes once decoded.
    pub fn add_array(
        &mut self,
        field: usize,
        json: u64,
        owned: u64,
        row: Option<&Vec<SqlField>>,
        skip_sql: Option<&[u8]>,
    ) -> (result: Result<(), IndexError>)
        requires
            old(self).well_formed(),
            field < V4_ARRAY_COUNT,
        ensures
            final(self).well_formed(),
            result == ({
                let before = old(self).arrays@[field as int];
                let admitted = old(self).admitted_json_bytes + json;
                if admitted > u64::MAX {
                    Err::<(), IndexError>(IndexError::IntegerOutOfRange)
                } else if admitted > old(self).allocation_limit {
                    Err::<(), IndexError>(
                        IndexError::Incomplete {
                            limit: old(self).allocation_limit,
                            observed: admitted as u64,
                        },
                    )
                } else if before.items + 1 > u64::MAX || before.json_items + json > u64::MAX
                    || before.owned_items + owned + 8 > u64::MAX {
                    Err::<(), IndexError>(IndexError::IntegerOutOfRange)
                } else {
                    sql_outcome(
                        old(self).rows,
                        old(self).integer_cells,
                        old(self).text_bytes,
                        row,
                        slice_skip(skip_sql),
                    )
                }
            }),
            result is Ok ==> {
                let before = old(self).arrays@[field as int];
                let (i, t, e) = charge_fields(
                    old(self).integer_cells,
                    old(self).text_bytes,
                    row.unwrap()@,
                    slice_skip(skip_sql),
                );
                &&& final(self).admitted_json_bytes == old(self).admitted_json_bytes + json
                &&& final(self).arrays@ == old(self).arrays@.update(
                    field as int,
                    ArrayChargeV4 {
                        items: (before.items + 1) as u64,
                        json_items: (before.json_items + json) as u64,
                        owned_items: (before.owned_items + owned + 8) as u64,
                    },
                )
                &&& final(self).rows == old(self).rows + 1
                &&& final(self).integer_cells == i
                &&& final(self).text_bytes == t
                &&& final(self).allocation_limit == old(self).allocation_limit
                &&& final(self).marker_json == old(self).marker_json
                &&& final(self).marker_owned == old(self).marker_owned
                &&& final(self).universe_json == old(self).universe_json
                &&& final(self).universe_owned == old(self).universe_owned
                &&& final(self).max_cas_bytes == old(self).max_cas_bytes
                &&& final(self).max_event_line_bytes == old(self).max_event_line_bytes
            },
    {
        match self.admit_json_allocation(json) {
            Ok(()) => {},
            Err(error) => return Err(error),
        }
        let mut array = self.arrays[field];
        array.items = match array.items.checked_add(1) {
            Some(value) => value,
            None => return Err(IndexError::IntegerOutOfRange),
        };
        array.json_items = match array.json_items.checked_add(json) {
            Some(value) => value,
            None => return Err(IndexError::IntegerOutOfRange),
        };
        array.owned_items = match array.owned_items.checked_add(owned) {
            Some(value) => match value.checked_add(8) {
                Some(value) => value,
                None => return Err(IndexError::IntegerOutOfRange),
            },
            None => return Err(IndexError::IntegerOutOfRange),
        };
        self.arrays.set(field, array);
        self.add_sql(row, skip_sql)
    }

    /// Records the mandatory universe row, which also occupies one
    /// physical singleton-key integer cell.
    pub fn set_universe(
        &mut self,
        universe_json: u64,
        universe_owned: u64,
        row: Option<&Vec<SqlField>>,
    ) -> (result: Result<(), IndexError>)
        requires
            old(self).well_formed(),
        ensures
            final(self).well_formed(),
            final(self).arrays == old(self).arrays,
            final(self).universe_json == universe_json,
            final(self).universe_owned == universe_owned,
            result == ({
                let admitted = old(self).admitted_json_bytes + universe_json;
                if admitted > u64::MAX {
                    Err::<(), IndexError>(IndexError::IntegerOutOfRange)
                } else if admitted > old(self).allocation_limit {
                    Err::<(), IndexError>(
                        IndexError::Incomplete {
                            limit: old(self).allocation_limit,
                            observed: admitted as u64,
                        },
                    )
                } else {
                    match sql_outcome(
                        old(self).rows,
                        old(self).integer_cells,
                        old(self).text_bytes,
                        row,
                        None,
                    ) {
                        Err(error) => Err::<(), IndexError>(error),
                        Ok(()) => if charge_fields(
                            old(self).integer_cells,
                            old(self).text_bytes,
                            row.unwrap()@,
                            None,
                        ).0 == u64::MAX {
                            Err::<(), IndexError>(IndexError::IntegerOutOfRange)
                        } else {
                            Ok::<(), IndexError>(())
                        },
                    }
                }
            }),
            result is Ok ==> {
                let (i, t, e) = charge_fields(
                    old(self).integer_cells,
                    old(self).text_bytes,
                    row.unwrap()@,
                    None,
                );
                &&& final(self).admitted_json_bytes == old(self).admitted_json_bytes + universe_json
                &&& final(self).rows == old(self).rows + 1
                &&& final(self).integer_cells == i + 1
                &&& final(self).text_bytes == t
                &&& final(self).allocation_limit == old(self).allocation_limit
                &&& final(self).marker_json == old(self).marker_json
                &&& final(self).marker_owned == old(self).marker_owned
                &&& final(self).max_cas_bytes == old(self).max_cas_bytes
                &&& final(self).max_event_line_bytes == old(self).max_event_line_bytes
            },
    {
        self.universe_json = universe_json;
        self.universe_owned = universe_owned;
        match self.admit_json_allocation(universe_json) {
            Ok(()) => {},
            Err(error) => return Err(error),
        }
        match self.add_sql(row, None) {
            Ok(()) => {},
            Err(error) => return Err(error),
        }
        self.integer_cells = match self.integer_cells.checked_add(1) {
            Some(value) => value,
            None => return Err(IndexError::IntegerOutOfRange),
        };
        Ok(())
    }

    /// Records one journal line of `json` bytes plus its newline, keeping the
    /// longest line seen.
    pub fn record_event_line(&mut self, json: u64) -> (result: Result<(), IndexError>)
        ensures
            json == u64::MAX ==> result == Err::<(), IndexError>(IndexError::IntegerOutOfRange)
                && *final(self) == *old(self),
            json < u64::MAX ==> result == Ok::<(), IndexError>(()) && *final(self) == (
            ProjectionChargeV4 {
                max_event_line_bytes: if json + 1 > old(self).max_event_line_bytes {
                    (json + 1) as u64
                } else {
                    old(self).max_event_line_bytes
                },
                ..*old(self)
            }),
    {
        let line = match json.checked_add(1) {
            Some(line) => line,
            None => return Err(IndexError::IntegerOutOfRange),
        };
        if line > self.max_event_line_bytes {
            self.max_event_line_bytes = line;
        }
        Ok(())
    }

    /// Records one registered CAS object of `size` bytes, keeping the
    /// largest.
    pub fn record_cas_size(&mut self, size: u64)
        ensures
            *final(self) == (ProjectionChargeV4 {
                max_cas_bytes: if size > old(self).max_cas_bytes {
                    size
                } else {
                    old(self).max_cas_bytes
                },
                ..*old(self)
            }),
    {
        if size > self.max_cas_bytes {
            self.max_cas_bytes = size;
        }
    }

    /// Closes the charge: checks the row count, then totals the SQL bytes,
    /// the canonical query result (refused above `max_query_bytes`), the
    /// decoded ownership, and the working set (refused above
    /// `max_working_bytes`).  `policy` and `basis` are the marker's policy
    /// revision hash and authority replay basis digest.
    pub fn finish(
        self,
        policy: &str,
        basis: &str,
        expected_rows: u64,
        limits: IndexLimits,
    ) -> (result: Result<ProjectionPreflightV4, IndexError>)
        requires
            self.well_formed(),
        ensures
            ({
                let sql = sql_bytes_of(self);
                let query = query_bytes_of(self, policy@, basis@);
                let owned = owned_bytes_of(self, policy.len() as nat, basis.len() as nat);
                let working = working_bytes_of(
                    self,
                    policy@,
                    basis@,
                    policy.len() as nat,
                    basis.len() as nat,
                );
                let working_overflow = IndexError::Incomplete {
                    limit: limits.max_working_bytes,
                    observed: u64::MAX,
                };
                if self.rows != expected_rows {
                    result == Err::<ProjectionPreflightV4, IndexError>(
                        IndexError::ProjectionContractViolation,
                    )
                } else if sql > u64::MAX {
                    result == Err::<ProjectionPreflightV4, IndexError>(working_overflow)
                } else if query > u64::MAX {
                    result == Err::<ProjectionPreflightV4, IndexError>(
                        IndexError::Incomplete { limit: limits.max_query_bytes, observed: u64::MAX },
                    )
                } else if query > limits.max_query_bytes {
                    result == Err::<ProjectionPreflightV4, IndexError>(
                        IndexError::Incomplete {
                            limit: limits.max_query_bytes,
                            observed: query as u64,
                        },
                    )
                } else if owned > u64::MAX || working > u64::MAX {
                    result == Err::<ProjectionPreflightV4, IndexError>(working_overflow)
                } else if working > limits.max_working_bytes {
                    result == Err::<ProjectionPreflightV4, IndexError>(
                        IndexError::Incomplete {
                            limit: limits.max_working_bytes,
                            observed: working as u64,
                        },
                    )
                } else {
                    result matches Ok(preflight) && {
                        &&& preflight.accounting == (IndexAccountingV4 {
                            rows: self.rows,
                            integer_cells: self.integer_cells,
                            text_bytes: self.text_bytes,
                            sql_bytes: sql as u64,
                            query_bytes: query as u64,
                            owned_bytes: owned as u64,
                            working_bytes: working as u64,
                        })
                        &&& preflight.array_counts@.len() == V4_ARRAY_COUNT
                        &&& forall|k: int|
                            0 <= k < V4_ARRAY_COUNT ==> #[trigger] preflight.array_counts@[k]
                                == self.arrays@[k].items
                    }
                }
            }),
    {
        if self.rows != expected_rows {
            return Err(IndexError::ProjectionContractViolation);
        }
        let max: u128 = 0xffff_ffff_ffff_ffff;
        let working_overflow = IndexError::Incomplete {
            limit: limits.max_working_bytes,
            observed: u64::MAX,
        };
        let sql: u128 = self.text_bytes as u128 + 8 * (self.integer_cells as u128)
            + self.rows as u128;
        if sql > max {
            return Err(working_overflow);
        }
        let policy_json = json_text_length(policy);
        let basis_json = json_text_length(basis);
        let mut query_values: u128 = self.marker_json as u128 + self.universe_json as u128
            + policy_json as u128 + basis_json as u128;
        let mut owned_arrays: u128 = 0;
        let mut counts: Vec<u64> = Vec::new();
        let mut k: usize = 0;
        while k < V4_ARRAY_COUNT
            invariant
                k <= V4_ARRAY_COUNT,
                self.arrays@.len() == V4_ARRAY_COUNT,
                query_values == self.marker_json + self.universe_json + policy_json + basis_json
                    + arrays_query_bytes(self.arrays@.subrange(0, k as int)),
                owned_arrays == arrays_owned_bytes(self.arrays@.subrange(0, k as int)),
                query_values <= 4 * 0xffff_ffff_ffff_ffff + 3 * k * 0xffff_ffff_ffff_ffff,
                owned_arrays <= k * 0xffff_ffff_ffff_ffff,
                counts@.len() == k,
                forall|j: int| 0 <= j < k ==> #[trigger] counts@[j] == self.arrays@[j].items,
            decreases V4_ARRAY_COUNT - k,
        {
            proof {
                let prefix = self.arrays@.subrange(0, k + 1int);
                assert(prefix.drop_last() =~= self.arrays@.subrange(0, k as int));
                assert(prefix.last() == self.arrays@[k as int]);
            }
            let array = self.arrays[k];
            let separators: u64 = if array.items == 0 {
                0
            } else {
                array.items - 1
            };
            query_values = query_values + 2 + separators as u128 + array.json_items as u128;
            owned_arrays = owned_arrays + array.owned_items as u128;
            counts.push(array.items);
            k += 1;
        }
        proof {
            assert(self.arrays@.subrange(0, V4_ARRAY_COUNT as int) =~= self.arrays@);
        }
        let keys = field_key_bytes();
        let query: u128 = query_values + keys + 3 * (V4_FIELD_COUNT as u128)
            + (V4_FIELD_COUNT as u128 - 1) + 2;
        if query > max {
            return Err(IndexError::Incomplete { limit: limits.max_query_bytes, observed: u64::MAX });
        }
        if query > limits.max_query_bytes as u128 {
            return Err(
                IndexError::Incomplete { limit: limits.max_query_bytes, observed: query as u64 },
            );
        }
        let owned: u128 = 16 * (V4_FIELD_COUNT as u128) + keys
            + self.marker_owned as u128 + self.universe_owned as u128 + policy.len() as u128
            + basis.len() as u128 + owned_arrays;
        if owned > max {
            return Err(working_overflow);
        }
        let working: u128 = sql + query + owned + self.max_cas_bytes as u128
            + self.max_event_line_bytes as u128;
        if working > max {
            return Err(working_overflow);
        }
        if working > limits.max_working_bytes as u128 {
            return Err(
                IndexError::Incomplete { limit: limits.max_working_bytes, observed: working as u64 },
            );
        }
        Ok(
            ProjectionPreflightV4 {
                accounting: IndexAccountingV4 {
                    rows: self.rows,
                    integer_cells: self.integer_cells,
                    text_bytes: self.text_bytes,
                    sql_bytes: sql as u64,
                    query_bytes: query as u64,
                    owned_bytes: owned as u64,
                    working_bytes: working as u64,
                },
                array_counts: counts,
            },
        )
    }
}


/// One stored row of a snapshot, in storage order: its JSON fields, the
/// field that is stored elsewhere and so not charged, and whether SQLite
/// adds a physical singleton key that no field returns.
pub struct AccountedRow {
    pub fields: Vec<SqlField>,
    pub skip: Option<Vec<u8>>,
    pub singleton_key: bool,
}

pub open spec fn skip_view(skip: Option<Vec<u8>>) -> Option<Seq<u8>> {
    match skip {
        Some(name) => Some(name@),
        None => None,
    }
}

/// One row charged onto running totals, with its singleton key.
pub open spec fn account_row(integers: u64, text: u64, row: AccountedRow) -> (
    u64,
    u64,
    Option<IndexError>,
) {
    let (i, t, e) = charge_fields(integers, text, row.fields@, skip_view(row.skip));
    if e is Some || !row.singleton_key {
        (i, t, e)
    } else if i + 1 <= u64::MAX {
        ((i + 1) as u64, t, None)
    } else {
        (i, t, Some(IndexError::IntegerOutOfRange))
    }
}

/// The marker's row: stored whole, with no physical key beside its fields.
pub open spec fn marker_row(fields: Vec<SqlField>) -> AccountedRow {
    AccountedRow { fields, skip: None, singleton_key: false }
}

/// Every stored row of a snapshot in storage order: the marker first, then
/// the rows of the tables.
pub open spec fn snapshot_rows(marker: Vec<SqlField>, rows: Seq<AccountedRow>) -> Seq<AccountedRow> {
    seq![marker_row(marker)] + rows
}

/// Rows charged in order from zero, stopping at the first error.
pub open spec fn account_rows(rows: Seq<AccountedRow>) -> (u64, u64, Option<IndexError>)
    decreases rows.len(),
{
    if rows.len() == 0 {
        (0, 0, None)
    } else {
        let (i, t, e) = account_rows(rows.drop_last());
        if e is Some {
            (i, t, e)
        } else {
            account_row(i, t, rows.last())
        }
    }
}

/// The largest value, or zero for none.
pub open spec fn max_or_zero(values: Seq<u64>) -> u64
    decreases values.len(),
{
    if values.len() == 0 {
        0
    } else {
        let rest = max_or_zero(values.drop_last());
        if values.last() > rest {
            values.last()
        } else {
            rest
        }
    }
}

/// The largest value of `values`, or zero when there is none.
pub fn max_or_zero_of(values: &[u64]) -> (result: u64)
    ensures
        result == max_or_zero(values@),
{
    let mut best: u64 = 0;
    let mut k: usize = 0;
    while k < values.len()
        invariant
            k <= values@.len(),
            best == max_or_zero(values@.subrange(0, k as int)),
        decreases values@.len() - k,
    {
        proof {
            assert(values@.subrange(0, k + 1int).drop_last() =~= values@.subrange(0, k as int));
        }
        if values[k] > best {
            best = values[k];
        }
        k += 1;
    }
    proof {
        assert(values@.subrange(0, values@.len() as int) =~= values@);
    }
    best
}

/// Accounts a complete snapshot image: its row count (the marker's row and
/// `rows`) against `max_rows`, the SQL cells of every row in storage order
/// (the marker's fields first, then `rows`), the canonical query result
/// (`query`, refused above `max_query_bytes`), the decoded ownership
/// (`owned`), and the working set with the largest CAS object of
/// `cas_sizes` and the longest event line, refused above
/// `max_working_bytes`.  `query` and `owned` are what measuring the
/// snapshot produced, errors included.  The integer cells and text bytes
/// reported are the sums of each row's own.
pub fn account_snapshot(
    marker: &Vec<SqlField>,
    rows: &Vec<AccountedRow>,
    query: Result<u64, IndexError>,
    owned: Result<u64, IndexError>,
    cas_sizes: &[u64],
    max_event_line_bytes: u64,
    limits: IndexLimits,
) -> (result: Result<IndexAccountingV4, IndexError>)
    ensures
        result matches Ok(accounting) ==> accounting.integer_cells == rows_integers(
            snapshot_rows(*marker, rows@),
        ) && accounting.text_bytes == rows_text(snapshot_rows(*marker, rows@)),
        ({
            let count = rows@.len() + 1;
            let (i, t, e) = account_rows(snapshot_rows(*marker, rows@));
            let sql = t + 8 * i + count;
            if count > u64::MAX {
                result == Err::<IndexAccountingV4, IndexError>(IndexError::IntegerOutOfRange)
            } else if count > limits.max_rows {
                result == Err::<IndexAccountingV4, IndexError>(
                    IndexError::Incomplete { limit: limits.max_rows, observed: count as u64 },
                )
            } else if e is Some {
                result == Err::<IndexAccountingV4, IndexError>(e.unwrap())
            } else if sql > u64::MAX {
                result == Err::<IndexAccountingV4, IndexError>(IndexError::IntegerOutOfRange)
            } else {
                match query {
                    Err(error) => result == Err::<IndexAccountingV4, IndexError>(error),
                    Ok(q) => if q > limits.max_query_bytes {
                        result == Err::<IndexAccountingV4, IndexError>(
                            IndexError::Incomplete { limit: limits.max_query_bytes, observed: q },
                        )
                    } else {
                        match owned {
                            Err(error) => result == Err::<IndexAccountingV4, IndexError>(error),
                            Ok(o) => {
                                let working = sql + q + o + max_or_zero(cas_sizes@)
                                    + max_event_line_bytes;
                                if working > u64::MAX {
                                    result == Err::<IndexAccountingV4, IndexError>(
                                        IndexError::IntegerOutOfRange,
                                    )
                                } else if working > limits.max_working_bytes {
                                    result == Err::<IndexAccountingV4, IndexError>(
                                        IndexError::Incomplete {
                                            limit: limits.max_working_bytes,
                                            observed: working as u64,
                                        },
                                    )
                                } else {
                                    result == Ok::<IndexAccountingV4, IndexError>(
                                        IndexAccountingV4 {
                                            rows: count as u64,
                                            integer_cells: i,
                                            text_bytes: t,
                                            sql_bytes: sql as u64,
                                            query_bytes: q,
                                            owned_bytes: o,
                                            working_bytes: working as u64,
                                        },
                                    )
                                }
                            },
                        }
                    },
                }
            }
        }),
{
    let ghost all = snapshot_rows(*marker, rows@);
    let count = match (rows.len() as u64).checked_add(1) {
        Some(value) => value,
        None => return Err(IndexError::IntegerOutOfRange),
    };
    if count > limits.max_rows {
        return Err(IndexError::Incomplete { limit: limits.max_rows, observed: count });
    }
    let mut integers: u64 = 0;
    let mut text: u64 = 0;
    proof {
        assert(all.subrange(0, 1).drop_last() =~= Seq::<AccountedRow>::empty());
        assert(all.subrange(0, 1).last() == marker_row(*marker));
        assert(account_rows(Seq::<AccountedRow>::empty()) == (0u64, 0u64, None::<IndexError>));
        assert(account_rows(all.subrange(0, 1).drop_last()) == (0u64, 0u64, None::<IndexError>));
        assert(account_rows(all.subrange(0, 1)) == account_row(0, 0, marker_row(*marker)));
        assert(skip_view(marker_row(*marker).skip) == None::<Seq<u8>>);
        assert(account_row(0, 0, marker_row(*marker)) == charge_fields(0, 0, marker@, None));
    }
    match charge_sql_row(Some(marker), &mut integers, &mut text, None) {
        Ok(()) => {},
        Err(error) => {
            proof {
                lemma_account_rows_stops(all, 1);
            }
            return Err(error);
        },
    }
    let mut k: usize = 0;
    while k < rows.len()
        invariant
            k <= rows@.len(),
            all == snapshot_rows(*marker, rows@),
            count == rows@.len() + 1,
            count <= limits.max_rows,
            account_rows(all.subrange(0, k + 1)) == (integers, text, None::<IndexError>),
        decreases rows@.len() - k,
    {
        proof {
            assert(all.subrange(0, k + 2int).drop_last() =~= all.subrange(0, k + 1int));
            assert(all.subrange(0, k + 2int).last() == rows@[k as int]);
        }
        let row = &rows[k];
        let skip: Option<&[u8]> = match &row.skip {
            Some(name) => Some(name.as_slice()),
            None => None,
        };
        match charge_sql_row(Some(&row.fields), &mut integers, &mut text, skip) {
            Ok(()) => {},
            Err(error) => {
                proof {
                    lemma_account_rows_stops(all, k + 2);
                }
                return Err(error);
            },
        }
        if row.singleton_key {
            integers = match integers.checked_add(1) {
                Some(value) => value,
                None => {
                    proof {
                        lemma_account_rows_stops(all, k + 2);
                    }
                    return Err(IndexError::IntegerOutOfRange);
                },
            };
        }
        k += 1;
    }
    proof {
        assert(all.subrange(0, rows@.len() + 1int) =~= all);
        lemma_account_rows_additive(all);
    }
    let sql: u128 = text as u128 + 8 * (integers as u128) + count as u128;
    if sql > 0xffff_ffff_ffff_ffff {
        return Err(IndexError::IntegerOutOfRange);
    }
    let sql = sql as u64;
    let query = match query {
        Ok(value) => value,
        Err(error) => return Err(error),
    };
    if query > limits.max_query_bytes {
        return Err(IndexError::Incomplete { limit: limits.max_query_bytes, observed: query });
    }
    let owned = match owned {
        Ok(value) => value,
        Err(error) => return Err(error),
    };
    let max_cas = max_or_zero_of(cas_sizes);
    let working: u128 = sql as u128 + query as u128 + owned as u128 + max_cas as u128
        + max_event_line_bytes as u128;
    if working > 0xffff_ffff_ffff_ffff {
        return Err(IndexError::IntegerOutOfRange);
    }
    let working = working as u64;
    if working > limits.max_working_bytes {
        return Err(IndexError::Incomplete { limit: limits.max_working_bytes, observed: working });
    }
    Ok(
        IndexAccountingV4 {
            rows: count,
            integer_cells: integers,
            text_bytes: text,
            sql_bytes: sql,
            query_bytes: query,
            owned_bytes: owned,
            working_bytes: working,
        },
    )
}

/// Once a prefix of the rows stops the accounting with an error, all the
/// rows stop there with the same totals and error.
pub proof fn lemma_account_rows_stops(rows: Seq<AccountedRow>, n: int)
    requires
        0 <= n <= rows.len(),
        account_rows(rows.subrange(0, n)).2 is Some,
    ensures
        account_rows(rows) == account_rows(rows.subrange(0, n)),
    decreases rows.len() - n,
{
    if n < rows.len() {
        assert(rows.subrange(0, n + 1).drop_last() =~= rows.subrange(0, n));
        lemma_account_rows_stops(rows, n + 1);
    } else {
        assert(rows.subrange(0, n) =~= rows);
    }
}

/// Counts the bytes a JSON serializer writes, without keeping them.
#[derive(Clone, Copy, Debug, PartialEq, Eq)]
pub struct JsonLengthCounter {
    pub bytes: u64,
    pub overflow: bool,
}

impl JsonLengthCounter {
    pub fn new() -> (result: JsonLengthCounter)
        ensures
            result == (JsonLengthCounter { bytes: 0, overflow: false }),
    {
        JsonLengthCounter { bytes: 0, overflow: false }
    }

    /// Records `len` more written bytes.  A write that would overflow the
    /// count is refused and remembered.
    pub fn record(&mut self, len: usize) -> (accepted: bool)
        ensures
            old(self).bytes + len <= u64::MAX ==> accepted && *final(self) == (JsonLengthCounter {
                bytes: (old(self).bytes + len) as u64,
                overflow: old(self).overflow,
            }),
            old(self).bytes + len > u64::MAX ==> !accepted && *final(self) == (JsonLengthCounter {
                bytes: old(self).bytes,
                overflow: true,
            }),
    {
        match self.bytes.checked_add(len as u64) {
            Some(bytes) => {
                self.bytes = bytes;
                true
            },
            None => {
                self.overflow = true;
                false
            },
        }
    }

    /// The JSON length once the serializer has finished: the count if it
    /// succeeded, out of range if it stopped on an overflowing write, and a
    /// projection contract violation if the value itself could not be
    /// serialized.
    pub fn outcome(&self, serialized: bool) -> (result: Result<u64, IndexError>)
        ensures
            serialized ==> result == Ok::<u64, IndexError>(self.bytes),
            !serialized && self.overflow ==> result == Err::<u64, IndexError>(
                IndexError::IntegerOutOfRange,
            ),
            !serialized && !self.overflow ==> result == Err::<u64, IndexError>(
                IndexError::ProjectionContractViolation,
            ),
    {
        if serialized {
            Ok(self.bytes)
        } else if self.overflow {
            Err(IndexError::IntegerOutOfRange)
        } else {
            Err(IndexError::ProjectionContractViolation)
        }
    }
}

/// Integer cells one field adds: one per stored number or boolean.
pub open spec fn field_integers(field: SqlField, skip: Option<Seq<u8>>) -> nat {
    if field_skipped(field, skip) {
        0
    } else {
        match field.value {
            JsonScalar::Number | JsonScalar::Bool => 1,
            _ => 0,
        }
    }
}

/// Text bytes one field adds: the UTF-8 length of a stored string.
pub open spec fn field_text(field: SqlField, skip: Option<Seq<u8>>) -> nat {
    if field_skipped(field, skip) {
        0
    } else {
        match field.value {
            JsonScalar::Text(len) => len as nat,
            _ => 0,
        }
    }
}

/// Whether a field can be stored in one SQL cell.
pub open spec fn field_flat(field: SqlField, skip: Option<Seq<u8>>) -> bool {
    field_skipped(field, skip) || field.value != JsonScalar::Compound
}

pub open spec fn fields_integers(fields: Seq<SqlField>, skip: Option<Seq<u8>>) -> nat
    decreases fields.len(),
{
    if fields.len() == 0 {
        0
    } else {
        fields_integers(fields.drop_last(), skip) + field_integers(fields.last(), skip)
    }
}

pub open spec fn fields_text(fields: Seq<SqlField>, skip: Option<Seq<u8>>) -> nat
    decreases fields.len(),
{
    if fields.len() == 0 {
        0
    } else {
        fields_text(fields.drop_last(), skip) + field_text(fields.last(), skip)
    }
}

pub open spec fn fields_flat(fields: Seq<SqlField>, skip: Option<Seq<u8>>) -> bool {
    forall|k: int| 0 <= k < fields.len() ==> #[trigger] field_flat(fields[k], skip)
}

/// Charging a row's fields succeeds exactly when every field is flat and
/// both totals stay within `u64`, and then adds each field's own cells and
/// bytes to the running totals.
pub proof fn lemma_charge_fields_additive(
    integers: u64,
    text: u64,
    fields: Seq<SqlField>,
    skip: Option<Seq<u8>>,
)
    ensures
        charge_fields(integers, text, fields, skip).2 is None <==> (fields_flat(fields, skip)
            && integers + fields_integers(fields, skip) <= u64::MAX && text + fields_text(
            fields,
            skip,
        ) <= u64::MAX),
        charge_fields(integers, text, fields, skip).2 is None ==> charge_fields(
            integers,
            text,
            fields,
            skip,
        ).0 == integers + fields_integers(fields, skip) && charge_fields(
            integers,
            text,
            fields,
            skip,
        ).1 == text + fields_text(fields, skip),
    decreases fields.len(),
{
    if fields.len() > 0 {
        let front = fields.drop_last();
        lemma_charge_fields_additive(integers, text, front, skip);
        assert forall|k: int| 0 <= k < front.len() implies #[trigger] front[k] == fields[k] by {}
        if fields_flat(fields, skip) {
            assert forall|k: int| 0 <= k < front.len() implies #[trigger] field_flat(
                front[k],
                skip,
            ) by {
                assert(field_flat(fields[k], skip));
            }
            assert(field_flat(fields[fields.len() - 1], skip));
        }
        if fields_flat(front, skip) && field_flat(fields.last(), skip) {
            assert forall|k: int| 0 <= k < fields.len() implies #[trigger] field_flat(
                fields[k],
                skip,
            ) by {
                if k < front.len() {
                    assert(field_flat(front[k], skip));
                }
            }
        }
    }
}

/// Integer cells one stored row adds, its singleton key included.
pub open spec fn row_integers(row: AccountedRow) -> nat {
    fields_integers(row.fields@, skip_view(row.skip)) + if row.singleton_key {
        1nat
    } else {
        0nat
    }
}

pub open spec fn rows_integers(rows: Seq<AccountedRow>) -> nat
    decreases rows.len(),
{
    if rows.len() == 0 {
        0
    } else {
        rows_integers(rows.drop_last()) + row_integers(rows.last())
    }
}

pub open spec fn rows_text(rows: Seq<AccountedRow>) -> nat
    decreases rows.len(),
{
    if rows.len() == 0 {
        0
    } else {
        rows_text(rows.drop_last()) + fields_text(rows.last().fields@, skip_view(rows.last().skip))
    }
}

pub open spec fn rows_flat(rows: Seq<AccountedRow>) -> bool {
    forall|k: int| 0 <= k < rows.len() ==> #[trigger] fields_flat(rows[k].fields@, skip_view(rows[k].skip))
}

/// The SQL accounting of a snapshot is a sum over its rows: it succeeds
/// exactly when no row holds a nested field and the integer-cell and text
/// totals fit in `u64`, and it then reports those totals: the sum of each
/// row's own cells and bytes.
pub proof fn lemma_account_rows_additive(rows: Seq<AccountedRow>)
    ensures
        account_rows(rows).2 is None <==> (rows_flat(rows) && rows_integers(rows) <= u64::MAX
            && rows_text(rows) <= u64::MAX),
        account_rows(rows).2 is None ==> account_rows(rows).0 == rows_integers(rows)
            && account_rows(rows).1 == rows_text(rows),
    decreases rows.len(),
{
    if rows.len() > 0 {
        let front = rows.drop_last();
        let last = rows.last();
        lemma_account_rows_additive(front);
        let (i, t, e) = account_rows(front);
        lemma_charge_fields_additive(i, t, last.fields@, skip_view(last.skip));
        assert forall|k: int| 0 <= k < front.len() implies #[trigger] front[k] == rows[k] by {}
        if rows_flat(rows) {
            assert forall|k: int| 0 <= k < front.len() implies #[trigger] fields_flat(
                front[k].fields@,
                skip_view(front[k].skip),
            ) by {
                assert(fields_flat(rows[k].fields@, skip_view(rows[k].skip)));
            }
            assert(fields_flat(rows[rows.len() - 1].fields@, skip_view(rows[rows.len() - 1].skip)));
        }
        if rows_flat(front) && fields_flat(last.fields@, skip_view(last.skip)) {
            assert forall|k: int| 0 <= k < rows.len() implies #[trigger] fields_flat(
                rows[k].fields@,
                skip_view(rows[k].skip),
            ) by {
                if k < front.len() {
                    assert(fields_flat(front[k].fields@, skip_view(front[k].skip)));
                }
            }
        }
    }
}

/// Removing one row takes exactly that row's cells and bytes off the sums.
pub proof fn lemma_rows_sums_remove(rows: Seq<AccountedRow>, i: int)
    requires
        0 <= i < rows.len(),
    ensures
        rows_integers(rows) == rows_integers(rows.remove(i)) + row_integers(rows[i]),
        rows_text(rows) == rows_text(rows.remove(i)) + fields_text(
            rows[i].fields@,
            skip_view(rows[i].skip),
        ),
    decreases rows.len(),
{
    if i == rows.len() - 1 {
        assert(rows.remove(i) =~= rows.drop_last());
    } else {
        let front = rows.drop_last();
        lemma_rows_sums_remove(front, i);
        assert(rows.remove(i).drop_last() =~= front.remove(i));
        assert(rows.remove(i).last() == rows.last());
    }
}

/// The SQL accounting of a set of rows does not depend on the order in
/// which they are charged: any two orders of the same rows are accounted
/// alike, with the same integer cells and text bytes, and either both or
/// neither hold a nested field.
pub proof fn lemma_rows_accounting_order_free(first: Seq<AccountedRow>, second: Seq<AccountedRow>)
    requires
        first.to_multiset() == second.to_multiset(),
    ensures
        rows_integers(first) == rows_integers(second),
        rows_text(first) == rows_text(second),
        rows_flat(first) == rows_flat(second),
        account_rows(first).2 is None <==> account_rows(second).2 is None,
        account_rows(first).2 is None ==> account_rows(first) == account_rows(second),
    decreases first.len(),
{
    broadcast use vstd::seq_lib::group_to_multiset_ensures;

    lemma_account_rows_additive(first);
    lemma_account_rows_additive(second);
    if rows_flat(second) {
        lemma_rows_flat_order_free(first, second);
    }
    if rows_flat(first) {
        lemma_rows_flat_order_free(second, first);
    }
    if first.len() == 0 {
        assert(second.to_multiset().len() == 0);
        assert(second.len() == 0);
    } else {
        let last = first.last();
        let front = first.drop_last();
        assert(first =~= front.push(last));
        assert(first.to_multiset() =~= front.to_multiset().insert(last));
        assert(second.to_multiset().count(last) > 0);
        assert(second.contains(last));
        let i = choose|i: int| 0 <= i < second.len() && second[i] == last;
        let rest = second.remove(i);
        assert(rest.to_multiset() =~= second.to_multiset().remove(last));
        assert(front.to_multiset() =~= rest.to_multiset());
        lemma_rows_accounting_order_free(front, rest);
        lemma_rows_sums_remove(second, i);
    }
}

/// Every row of `first` is flat when every row of `second` is, for the
/// same rows in another order.
proof fn lemma_rows_flat_order_free(first: Seq<AccountedRow>, second: Seq<AccountedRow>)
    requires
        first.to_multiset() == second.to_multiset(),
        rows_flat(second),
    ensures
        rows_flat(first),
{
    broadcast use vstd::seq_lib::group_to_multiset_ensures;

    assert forall|k: int| 0 <= k < first.len() implies #[trigger] fields_flat(
        first[k].fields@,
        skip_view(first[k].skip),
    ) by {
        assert(first.contains(first[k]));
        assert(first.to_multiset().count(first[k]) > 0);
        assert(second.contains(first[k]));
        let j = choose|j: int| 0 <= j < second.len() && second[j] == first[k];
        assert(fields_flat(second[j].fields@, skip_view(second[j].skip)));
    }
}

} // verus!
