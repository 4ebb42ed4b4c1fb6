//! The semantic ownership charge of a decoded value: what each scalar costs,
//! and how sequences, objects and enum variants add up the charges of
//! their parts.  A serializer walks a value and feeds these functions the
//! charges of the nested values.

use vstd::prelude::*;
use crate::json_model::{entries_ownership, items_ownership, ownership, utf8_len, utf8_total, JsonValue};

verus! {

/// Charge of a boolean.
pub const OWNED_BOOL: u64 = 1;

/// Charge of any integer or floating-point number.
pub const OWNED_NUMBER: u64 = 8;

/// Charge of `None`, unit and unit structs.
pub const OWNED_NOTHING: u64 = 0;

/// Slot charged for each sequence element.
pub const SEQUENCE_SLOT: u64 = 8;

/// Slot charged for each object entry (and for the outer key of a variant).
pub const ENTRY_SLOT: u64 = 16;

/// The charge overflowed `u64`, or a map was driven out of order.
#[derive(Clone, Copy, Debug, PartialEq, Eq)]
pub struct OwnershipError;

/// What an open compound value is, and for an enum variant the length of
/// the variant name that wraps it.
#[derive(Clone, Copy, Debug, PartialEq, Eq)]
pub enum OwnershipCompoundKind {
    Sequence,
    Object,
    VariantObject { outer_key_bytes: u64 },
    VariantSequence { outer_key_bytes: u64 },
}

/// A compound value whose parts are being charged.
#[derive(Clone, Copy, Debug, PartialEq, Eq)]
pub struct OwnershipCompound {
    pub total: u64,
    pub kind: OwnershipCompoundKind,
    pub pending_key: Option<u64>,
}

/// The charge of a closed compound with parts totalling `total`: the total
/// itself, plus an entry slot and the variant name for an enum variant.
pub open spec fn compound_charge(kind: OwnershipCompoundKind, total: u64) -> int {
    match kind {
        OwnershipCompoundKind::Sequence | OwnershipCompoundKind::Object => total as int,
        OwnershipCompoundKind::VariantObject { outer_key_bytes }
        | OwnershipCompoundKind::VariantSequence { outer_key_bytes } => ENTRY_SLOT
            + outer_key_bytes + total,
    }
}

/// The total after one sequence element charged `charge`, if it fits.
pub open spec fn sequence_step(total: u64, charge: u64) -> Option<u64> {
    if total + SEQUENCE_SLOT + charge <= u64::MAX {
        Some((total + SEQUENCE_SLOT + charge) as u64)
    } else {
        None
    }
}

/// The total after one object entry, if it fits.
pub open spec fn object_step(total: u64, key_bytes: u64, charge: u64) -> Option<u64> {
    if total + ENTRY_SLOT + key_bytes + charge <= u64::MAX {
        Some((total + ENTRY_SLOT + key_bytes + charge) as u64)
    } else {
        None
    }
}

/// The total after the elements charged `charges`, or `None` once one
/// overflows.
pub open spec fn sequence_fold(total: u64, charges: Seq<u64>) -> Option<u64>
    decreases charges.len(),
{
    if charges.len() == 0 {
        Some(total)
    } else {
        match sequence_fold(total, charges.drop_last()) {
            None => None,
            Some(before) => sequence_step(before, charges.last()),
        }
    }
}

/// The total after entries with keys of `keys` bytes and values charged
/// `charges`, or `None` once one overflows.
pub open spec fn object_fold(total: u64, keys: Seq<u64>, charges: Seq<u64>) -> Option<u64>
    decreases charges.len(),
{
    if charges.len() == 0 || keys.len() != charges.len() {
        Some(total)
    } else {
        match object_fold(total, keys.drop_last(), charges.drop_last()) {
            None => None,
            Some(before) => object_step(before, keys.last(), charges.last()),
        }
    }
}

/// Charging an array element by element through a sequence compound gives
/// the array's ownership: when each element is charged its own ownership,
/// the elements fold to exactly the ownership of the whole array, and the
/// fold overflows exactly when that ownership exceeds `u64`.
pub proof fn lemma_sequence_fold_is_ownership(items: Seq<JsonValue>, charges: Seq<u64>)
    requires
        charges.len() == items.len(),
        forall|k: int| 0 <= k < items.len() ==> #[trigger] charges[k] == ownership(items[k]),
    ensures
        ownership(JsonValue::Array(items)) <= u64::MAX ==> sequence_fold(0, charges) == Some(
            ownership(JsonValue::Array(items)) as u64,
        ),
        ownership(JsonValue::Array(items)) > u64::MAX ==> sequence_fold(0, charges) is None,
    decreases items.len(),
{
    if items.len() > 0 {
        let front = items.drop_last();
        let front_charges = charges.drop_last();
        assert forall|k: int| 0 <= k < front.len() implies #[trigger] front_charges[k] == ownership(
            front[k],
        ) by {
            assert(charges[k] == ownership(items[k]));
        }
        lemma_sequence_fold_is_ownership(front, front_charges);
        assert(charges.last() == ownership(items.last())) by {
            assert(charges[items.len() - 1] == ownership(items[items.len() - 1]));
        }
        assert(ownership(JsonValue::Array(front)) == items_ownership(front));
        if items_ownership(front) > u64::MAX {
            assert(sequence_fold(0, front_charges) is None);
        }
    }
}

/// Charging an object entry by entry through an object compound gives the
/// object's ownership: when each key is charged its UTF-8 length and each
/// value its own ownership, the entries fold to exactly the ownership of
/// the whole object, and the fold overflows exactly when that ownership
/// exceeds `u64`.
pub proof fn lemma_object_fold_is_ownership(
    entries: Seq<(Seq<u32>, JsonValue)>,
    keys: Seq<u64>,
    charges: Seq<u64>,
)
    requires
        keys.len() == entries.len(),
        charges.len() == entries.len(),
        forall|k: int| 0 <= k < entries.len() ==> #[trigger] keys[k] == utf8_total(entries[k].0),
        forall|k: int| 0 <= k < entries.len() ==> #[trigger] charges[k] == ownership(entries[k].1),
    ensures
        ownership(JsonValue::Object(entries)) <= u64::MAX ==> object_fold(0, keys, charges)
            == Some(ownership(JsonValue::Object(entries)) as u64),
        ownership(JsonValue::Object(entries)) > u64::MAX ==> object_fold(0, keys, charges) is None,
    decreases entries.len(),
{
    if entries.len() > 0 {
        let front = entries.drop_last();
        let front_keys = keys.drop_last();
        let front_charges = charges.drop_last();
        assert forall|k: int| 0 <= k < front.len() implies #[trigger] front_keys[k] == utf8_total(
            front[k].0,
        ) by {
            assert(keys[k] == utf8_total(entries[k].0));
        }
        assert forall|k: int| 0 <= k < front.len() implies #[trigger] front_charges[k] == ownership(
            front[k].1,
        ) by {
            assert(charges[k] == ownership(entries[k].1));
        }
        lemma_object_fold_is_ownership(front, front_keys, front_charges);
        assert(keys.last() == utf8_total(entries.last().0)) by {
            assert(keys[entries.len() - 1] == utf8_total(entries[entries.len() - 1].0));
        }
        assert(charges.last() == ownership(entries.last().1)) by {
            assert(charges[entries.len() - 1] == ownership(entries[entries.len() - 1].1));
        }
        assert(ownership(JsonValue::Object(front)) == entries_ownership(front));
        if entries_ownership(front) > u64::MAX {
            assert(object_fold(0, front_keys, front_charges) is None);
        }
    }
}

impl OwnershipCompound {
    /// An empty sequence (or tuple).
    pub fn sequence() -> (result: OwnershipCompound)
        ensures
            result == (OwnershipCompound {
                total: 0,
                kind: OwnershipCompoundKind::Sequence,
                pending_key: None,
            }),
    {
        OwnershipCompound { total: 0, kind: OwnershipCompoundKind::Sequence, pending_key: None }
    }

    /// An empty object (map or struct).
    pub fn object() -> (result: OwnershipCompound)
        ensures
            result == (OwnershipCompound {
                total: 0,
                kind: OwnershipCompoundKind::Object,
                pending_key: None,
            }),
    {
        OwnershipCompound { total: 0, kind: OwnershipCompoundKind::Object, pending_key: None }
    }

    /// An empty tuple variant named `variant`.
    pub fn variant_sequence(variant: &str) -> (result: OwnershipCompound)
        ensures
            result == (OwnershipCompound {
                total: 0,
                kind: OwnershipCompoundKind::VariantSequence {
                    outer_key_bytes: variant.len() as u64,
                },
                pending_key: None,
            }),
    {
        OwnershipCompound {
            total: 0,
            kind: OwnershipCompoundKind::VariantSequence { outer_key_bytes: variant.len() as u64 },
            pending_key: None,
        }
    }

    /// An empty struct variant named `variant`.
    pub fn variant_object(variant: &str) -> (result: OwnershipCompound)
        ensures
            result == (OwnershipCompound {
                total: 0,
                kind: OwnershipCompoundKind::VariantObject { outer_key_bytes: variant.len() as u64 },
                pending_key: None,
            }),
    {
        OwnershipCompound {
            total: 0,
            kind: OwnershipCompoundKind::VariantObject { outer_key_bytes: variant.len() as u64 },
            pending_key: None,
        }
    }

    /// Adds `value` to the total.
    pub fn add(&mut self, value: u64) -> (result: Result<(), OwnershipError>)
        ensures
            final(self).kind == old(self).kind,
            final(self).pending_key == old(self).pending_key,
            old(self).total + value <= u64::MAX ==> result is Ok && final(self).total == old(
                self,
            ).total + value,
            old(self).total + value > u64::MAX ==> result is Err && final(self).total == old(
                self,
            ).total,
    {
        self.total = match self.total.checked_add(value) {
            Some(total) => total,
            None => return Err(OwnershipError),
        };
        Ok(())
    }

    /// Adds one sequence element whose own charge is `charge`: a slot plus
    /// the charge.  On overflow the total keeps what was added before it.
    pub fn add_sequence_value(&mut self, charge: u64) -> (result: Result<(), OwnershipError>)
        ensures
            result is Ok <==> sequence_step(old(self).total, charge) is Some,
            result is Ok ==> sequence_step(old(self).total, charge) == Some(final(self).total),
            final(self).kind == old(self).kind,
            final(self).pending_key == old(self).pending_key,
            old(self).total + SEQUENCE_SLOT + charge <= u64::MAX ==> result is Ok
                && final(self).total == old(self).total + SEQUENCE_SLOT + charge,
            old(self).total + SEQUENCE_SLOT > u64::MAX ==> result is Err && final(self).total
                == old(self).total,
            old(self).total + SEQUENCE_SLOT <= u64::MAX && old(self).total + SEQUENCE_SLOT
                + charge > u64::MAX ==> result is Err && final(self).total == old(self).total
                + SEQUENCE_SLOT,
    {
        match self.add(SEQUENCE_SLOT) {
            Ok(()) => {},
            Err(error) => return Err(error),
        }
        self.add(charge)
    }

    /// Adds one object entry with a key of `key_bytes` and a value whose
    /// own charge is `charge`: a slot, the key and the charge.  On overflow
    /// the total keeps what was added before it.
    pub fn add_object_value(&mut self, key_bytes: u64, charge: u64) -> (result: Result<
        (),
        OwnershipError,
    >)
        ensures
            result is Ok <==> object_step(old(self).total, key_bytes, charge) is Some,
            result is Ok ==> object_step(old(self).total, key_bytes, charge) == Some(
                final(self).total,
            ),
            final(self).kind == old(self).kind,
            final(self).pending_key == old(self).pending_key,
            old(self).total + ENTRY_SLOT + key_bytes + charge <= u64::MAX ==> result is Ok
                && final(self).total == old(self).total + ENTRY_SLOT + key_bytes + charge,
            old(self).total + ENTRY_SLOT > u64::MAX ==> result is Err && final(self).total == old(
                self,
            ).total,
            old(self).total + ENTRY_SLOT <= u64::MAX && old(self).total + ENTRY_SLOT + key_bytes
                > u64::MAX ==> result is Err && final(self).total == old(self).total + ENTRY_SLOT,
            old(self).total + ENTRY_SLOT + key_bytes <= u64::MAX && old(self).total + ENTRY_SLOT
                + key_bytes + charge > u64::MAX ==> result is Err && final(self).total == old(
                self,
            ).total + ENTRY_SLOT + key_bytes,
    {
        match self.add(ENTRY_SLOT) {
            Ok(()) => {},
            Err(error) => return Err(error),
        }
        match self.add(key_bytes) {
            Ok(()) => {},
            Err(error) => return Err(error),
        }
        self.add(charge)
    }

    /// The charge of the closed compound.
    pub fn finish(self) -> (result: Result<u64, OwnershipError>)
        ensures
            compound_charge(self.kind, self.total) <= u64::MAX ==> result == Ok::<
                u64,
                OwnershipError,
            >(compound_charge(self.kind, self.total) as u64),
            compound_charge(self.kind, self.total) > u64::MAX ==> result is Err,
    {
        match self.kind {
            OwnershipCompoundKind::Sequence | OwnershipCompoundKind::Object => Ok(self.total),
            OwnershipCompoundKind::VariantObject { outer_key_bytes }
            | OwnershipCompoundKind::VariantSequence { outer_key_bytes } => {
                match ENTRY_SLOT.checked_add(outer_key_bytes) {
                    Some(head) => match head.checked_add(self.total) {
                        Some(charge) => Ok(charge),
                        None => Err(OwnershipError),
                    },
                    None => Err(OwnershipError),
                }
            },
        }
    }

    /// Records the charge of a map key until its value arrives.
    pub fn serialize_key(&mut self, key_bytes: u64)
        ensures
            *final(self) == (OwnershipCompound { pending_key: Some(key_bytes), ..*old(self) }),
    {
        self.pending_key = Some(key_bytes);
    }

    /// Charges a map value against the key recorded before it; a value
    /// with no key before it is refused.
    pub fn serialize_value(&mut self, charge: u64) -> (result: Result<(), OwnershipError>)
        ensures
            final(self).kind == old(self).kind,
            final(self).pending_key is None,
            old(self).pending_key is None ==> result is Err && final(self).total == old(
                self,
            ).total,
            old(self).pending_key matches Some(key) ==> ({
                &&& old(self).total + ENTRY_SLOT + key + charge <= u64::MAX ==> result is Ok
                    && final(self).total == old(self).total + ENTRY_SLOT + key + charge
                &&& old(self).total + ENTRY_SLOT + key + charge > u64::MAX ==> result is Err
            }),
    {
        let key = match self.pending_key.take() {
            Some(key) => key,
            None => return Err(OwnershipError),
        };
        self.add_object_value(key, charge)
    }

    /// Closes a map: refused while a key still waits for its value.
    pub fn end(self) -> (result: Result<u64, OwnershipError>)
        ensures
            self.pending_key is Some ==> result is Err,
            self.pending_key is None && compound_charge(self.kind, self.total) <= u64::MAX
                ==> result == Ok::<u64, OwnershipError>(
                compound_charge(self.kind, self.total) as u64,
            ),
            self.pending_key is None && compound_charge(self.kind, self.total) > u64::MAX
                ==> result is Err,
    {
        if self.pending_key.is_some() {
            return Err(OwnershipError);
        }
        self.finish()
    }
}

/// Charge of a character: its UTF-8 length.
pub fn char_charge(value: char) -> (result: u64)
    ensures
        result == utf8_len(value as u32),
{
    crate::json_model::char_utf8_len(value) as u64
}

/// Charge of a string: its UTF-8 length.
pub fn str_charge(value: &str) -> (result: u64)
    ensures
        result == value.len(),
{
    value.len() as u64
}

/// Charge of a byte buffer of `length` bytes: sixteen per byte.
pub fn bytes_charge(length: usize) -> (result: Result<u64, OwnershipError>)
    ensures
        16 * length <= u64::MAX ==> result == Ok::<u64, OwnershipError>((16 * length) as u64),
        16 * length > u64::MAX ==> result is Err,
{
    (length as u64).checked_mul(16).ok_or(OwnershipError)
}

/// Charge of a unit variant: the length of its name.
pub fn unit_variant_charge(variant: &str) -> (result: u64)
    ensures
        result == variant.len(),
{
    variant.len() as u64
}

/// Charge of a newtype variant named `variant` wrapping a value charged
/// `charge`: an entry slot, the name and the value.
pub fn newtype_variant_charge(variant: &str, charge: u64) -> (result: Result<u64, OwnershipError>)
    ensures
        ENTRY_SLOT + variant.len() + charge <= u64::MAX ==> result == Ok::<u64, OwnershipError>(
            (ENTRY_SLOT + variant.len() + charge) as u64,
        ),
        ENTRY_SLOT + variant.len() + charge > u64::MAX ==> result is Err,
{
    match ENTRY_SLOT.checked_add(variant.len() as u64) {
        Some(head) => match charge.checked_add(head) {
            Some(total) => Ok(total),
            None => Err(OwnershipError),
        },
        None => Err(OwnershipError),
    }
}

/// Number of decimal digits of `n`.
pub open spec fn decimal_digits(n: nat) -> nat
    decreases n,
{
    if n < 10 {
        1
    } else {
        1 + decimal_digits(n / 10)
    }
}

/// More digits never belong to a smaller number.
pub proof fn lemma_decimal_digits_monotone(n: nat, m: nat)
    requires
        n <= m,
    ensures
        decimal_digits(n) <= decimal_digits(m),
    decreases m,
{
    if n >= 10 {
        assert(n / 10 <= m / 10) by (nonlinear_arith)
            requires
                n <= m,
        ;
        lemma_decimal_digits_monotone(n / 10, m / 10);
    }
}

/// A `u64` has at most twenty decimal digits.
pub proof fn lemma_decimal_digits_u64(n: u64)
    ensures
        1 <= decimal_digits(n as nat) <= 20,
{
    assert(decimal_digits(0xffff_ffff_ffff_ffff) == 20) by {
        reveal_with_fuel(decimal_digits, 21);
    }
    lemma_decimal_digits_monotone(n as nat, 0xffff_ffff_ffff_ffff);
}

/// Bytes of an unsigned integer written in decimal.
pub fn unsigned_key_charge(value: u64) -> (result: u64)
    ensures
        result == decimal_digits(value as nat),
{
    proof {
        lemma_decimal_digits_u64(value);
    }
    let mut rest = value;
    let mut digits: u64 = 1;
    while rest >= 10
        invariant
            digits + decimal_digits(rest as nat) == decimal_digits(value as nat) + 1,
            decimal_digits(value as nat) <= 20,
        decreases rest,
    {
        rest = rest / 10;
        digits = digits + 1;
    }
    digits
}

/// Bytes of a signed integer written in decimal, with a leading minus sign
/// when negative.
pub fn signed_key_charge(value: i64) -> (result: u64)
    ensures
        value >= 0 ==> result == decimal_digits(value as nat),
        value < 0 ==> result == 1 + decimal_digits((-value) as nat),
{
    if value >= 0 {
        unsigned_key_charge(value as u64)
    } else {
        let magnitude: u64 = if value == i64::MIN {
            0x8000_0000_0000_0000
        } else {
            (-value) as u64
        };
        proof {
            lemma_decimal_digits_u64(magnitude);
        }
        1 + unsigned_key_charge(magnitude)
    }
}

/// Bytes of a boolean map key as text (`true` or `false`).
pub fn bool_key_charge(value: bool) -> (result: u64)
    ensures
        result == (if value { 4u64 } else { 5u64 }),
{
    if value {
        4
    } else {
        5
    }
}

} // verus!
