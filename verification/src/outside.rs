//! Trusted items: the calls this crate makes into serde_json and the parts of
//! std that vstd gives no specification.  Verus believes these contracts.

use vstd::prelude::*;
use crate::json_model::{json_number_accepted, json_number_canonical_len};
use crate::charge_v4::json_text_len;
use crate::classify::{
    sqlite_code_of, SqliteCode, SQLITE_CONSTRAINT_PRIMARYKEY, SQLITE_CONSTRAINT_UNIQUE,
};

verus! {

/// Parses `text` with `serde_json::from_slice::<serde_json::Number>` and
/// prints the number again with `serde_json::to_vec`, reporting the printed
/// length.  The number itself never leaves this item, so both calls stand
/// here.  Claimed: the result is `Some` exactly when serde_json accepts the
/// text as a number (the name `json_number_accepted`; it refuses, for
/// example, a float literal that overflows `f64`), since printing a parsed
/// number into a `Vec` cannot fail; its value is the printed length, which
/// depends on the text alone (the name `json_number_canonical_len`), and is
/// between one and 24 bytes: an integer is printed through itoa's 20-byte
/// buffer and a finite float through zmij's 24-byte buffer.
#[verifier::external_body]
pub(crate) fn json_number_canonical_length(text: &[u8]) -> (result: Option<u64>)
    ensures
        result is Some <==> json_number_accepted(text@),
        result matches Some(n) ==> n == json_number_canonical_len(text@) && 1 <= n <= 24,
{
    match serde_json::from_slice::<serde_json::Number>(text) {
        Ok(number) => match serde_json::to_vec(&number) {
            Ok(bytes) => Some(bytes.len() as u64),
            Err(_) => None,
        },
        Err(_) => None,
    }
}

/// Calls `serde_json::to_vec` on a string and reports the encoded length.
/// Claimed, as serde_json's escape table shows: two quotes around the text,
/// where `"` `\\` and the five short control escapes take two bytes, any
/// other control character below `0x20` takes six (`\\u00XX`), and every
/// other character its UTF-8 length.  Serializing a string cannot fail.
#[verifier::external_body]
pub(crate) fn json_text_length(text: &str) -> (result: u64)
    ensures
        result == json_text_len(text@),
{
    match serde_json::to_vec(text) {
        Ok(bytes) => bytes.len() as u64,
        Err(_) => 0,
    }
}

/// Calls `Vec::try_reserve_exact`.  Claimed, as std documents it: the
/// elements are left as they were, whether or not the allocator grants the
/// room; `true` reports that it did.  Whether it does depends on the
/// allocator, so nothing is claimed of the result.
#[verifier::external_body]
pub(crate) fn try_reserve_exact<T>(values: &mut Vec<T>, additional: usize) -> (result: bool)
    ensures
        final(values)@ == old(values)@,
{
    values.try_reserve_exact(additional).is_ok()
}

/// Calls `rusqlite::ffi::Error::new` on an extended result code and reports
/// the class of its `code`.  Claimed, as libsqlite3-sys's source shows: the
/// class is read from the low byte of the code, with the primary codes of
/// `sqlite_code_of`; every class the index does not tell apart is `Other`.
#[verifier::external_body]
pub(crate) fn sqlite_error_code(extended: i32) -> (result: SqliteCode)
    ensures
        result == sqlite_code_of(extended),
{
    match rusqlite::ffi::Error::new(extended).code {
        rusqlite::ErrorCode::ConstraintViolation => SqliteCode::ConstraintViolation,
        rusqlite::ErrorCode::DiskFull => SqliteCode::DiskFull,
        rusqlite::ErrorCode::TooBig => SqliteCode::TooBig,
        rusqlite::ErrorCode::OutOfMemory => SqliteCode::OutOfMemory,
        rusqlite::ErrorCode::DatabaseCorrupt => SqliteCode::DatabaseCorrupt,
        rusqlite::ErrorCode::NotADatabase => SqliteCode::NotADatabase,
        rusqlite::ErrorCode::SchemaChanged => SqliteCode::SchemaChanged,
        rusqlite::ErrorCode::TypeMismatch => SqliteCode::TypeMismatch,
        _ => SqliteCode::Other,
    }
}

/// Reads `rusqlite::ffi::SQLITE_CONSTRAINT_PRIMARYKEY`, which the bundled
/// bindings define as 1555.
#[verifier::external_body]
pub(crate) fn sqlite_constraint_primarykey() -> (result: i32)
    ensures
        result == SQLITE_CONSTRAINT_PRIMARYKEY,
{
    rusqlite::ffi::SQLITE_CONSTRAINT_PRIMARYKEY
}

/// Reads `rusqlite::ffi::SQLITE_CONSTRAINT_UNIQUE`, which the bundled
/// bindings define as 2067.
#[verifier::external_body]
pub(crate) fn sqlite_constraint_unique() -> (result: i32)
    ensures
        result == SQLITE_CONSTRAINT_UNIQUE,
{
    rusqlite::ffi::SQLITE_CONSTRAINT_UNIQUE
}

/// Calls `char::from_u32`.  Claimed, as std documents it: `Some` exactly for
/// Unicode scalar values (at most `0x10FFFF` and outside the surrogate
/// range), holding the character with that value.
#[verifier::external_body]
pub(crate) fn char_from_u32(value: u32) -> (result: Option<char>)
    ensures
        result is Some <==> (value <= 0x10ffff && !(0xd800 <= value <= 0xdfff)),
        result matches Some(c) ==> c as u32 == value,
{
    char::from_u32(value)
}

/// Calls `String::from_utf8` on bytes that are all ASCII.  Claimed, as std
/// documents it: ASCII bytes are valid UTF-8, so the string holds exactly one
/// character per byte, with the byte's value.
#[verifier::external_body]
pub(crate) fn ascii_string(bytes: Vec<u8>) -> (result: String)
    requires
        forall|i: int| 0 <= i < bytes@.len() ==> #[trigger] bytes@[i] <= 0x7f,
    ensures
        result@ == bytes@.map_values(|b: u8| b as char),
{
    String::from_utf8(bytes).unwrap_or_default()
}

} // verus!
