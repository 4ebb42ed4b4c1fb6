//! Allocation-free ownership preflight of one stored JSON cell.
//!
//! The scanner walks the cell once, without decoding into owned values, and
//! reports the bytes a decoded copy would own and the length of its
//! canonical re-encoding.

use vstd::prelude::*;
use vstd::slice::slice_subrange;
use crate::error::IndexError;
use crate::json_model::{
    byte_is, canonical_char_len, canonical_chars_total, canonical_len, digits_end,
    char_utf8_len, entries_canonical, entries_ownership, false_lit, hex_quad, hex_value,
    is_digit, is_hex, is_ws, items_canonical, lemma_entries_prefix, lemma_entries_push,
    lemma_entries_step, lemma_items_prefix, lemma_items_push, lemma_items_step, items_ownership,
    json_number_accepted, json_number_canonical_len, literal_at, null_lit, number_end, ownership,
    parse_array, parse_document, parse_entries, parse_items, parse_object, parse_string,
    parse_value, separators, simple_escape, true_lit, utf8_char, utf8_len, utf8_total,
    utf8_valid, ws_end, JsonValue, MAX_JSON_DEPTH,
};
use crate::outside::{char_from_u32, json_number_canonical_length};

verus! {

/// Ownership and canonical-encoding charges of one scanned JSON value.
#[derive(Clone, Copy, Debug, PartialEq, Eq)]
pub struct JsonCellScan {
    pub owned_bytes: u64,
    pub canonical_bytes: u64,
}

/// A cursor over the bytes of one cell.
pub struct JsonOwnershipScanner<'a> {
    pub bytes: &'a [u8],
    pub cursor: usize,
}

/// Skipping whitespace stops inside the cell, after only whitespace, and
/// at a byte that is not whitespace.
pub proof fn lemma_ws_end(b: Seq<u8>, p: int)
    requires
        0 <= p <= b.len(),
    ensures
        p <= ws_end(b, p) <= b.len(),
        ws_end(b, p) < b.len() ==> !is_ws(b[ws_end(b, p)]),
        forall|i: int| p <= i < ws_end(b, p) ==> is_ws(#[trigger] b[i]),
    decreases b.len() - p,
{
    if p < b.len() && is_ws(b[p]) {
        lemma_ws_end(b, p + 1);
    }
}

/// Skipping whitespace twice skips no more than once.
pub proof fn lemma_ws_end_idempotent(b: Seq<u8>, p: int)
    requires
        0 <= p <= b.len(),
    ensures
        ws_end(b, ws_end(b, p)) == ws_end(b, p),
{
    lemma_ws_end(b, p);
    let q = ws_end(b, p);
    lemma_ws_end(b, q);
}

/// A run of digits stops inside the cell, at a byte that is not a digit.
pub proof fn lemma_digits_end(b: Seq<u8>, p: int)
    requires
        0 <= p <= b.len(),
    ensures
        p <= digits_end(b, p) <= b.len(),
        digits_end(b, p) < b.len() ==> !is_digit(b[digits_end(b, p)]),
    decreases b.len() - p,
{
    if p < b.len() && is_digit(b[p]) {
        lemma_digits_end(b, p + 1);
    }
}

/// Decoding a string body never shrinks the charges already accumulated,
/// and adds no more decoded or canonical bytes than the body's source bytes.
pub proof fn lemma_parse_string_monotone(b: Seq<u8>, p: int, acc: Seq<u32>)
    requires
        parse_string(b, p, acc) is Some,
    ensures
        utf8_total(acc) <= utf8_total(parse_string(b, p, acc).unwrap().0),
        canonical_chars_total(acc) <= canonical_chars_total(parse_string(b, p, acc).unwrap().0),
        parse_string(b, p, acc).unwrap().1 > p,
        utf8_total(parse_string(b, p, acc).unwrap().0) <= utf8_total(acc) + (parse_string(
            b,
            p,
            acc,
        ).unwrap().1 - 1 - p),
        canonical_chars_total(parse_string(b, p, acc).unwrap().0) <= canonical_chars_total(acc)
            + (parse_string(b, p, acc).unwrap().1 - 1 - p),
    decreases b.len() - p,
{
    reveal_with_fuel(utf8_total, 2);
    reveal_with_fuel(canonical_chars_total, 2);
    if b[p] == 0x22 {
    } else if b[p] == 0x5c {
        match simple_escape(b[p + 1]) {
            Some(c) => {
                lemma_push_totals(acc, c);
                lemma_parse_string_monotone(b, p + 2, acc.push(c));
            },
            None => {
                let first = hex_quad(b, p + 2).unwrap();
                if 0xd800 <= first <= 0xdbff {
                    let second = hex_quad(b, p + 8).unwrap();
                    let c = (0x10000 + (first - 0xd800) * 1024 + (second - 0xdc00)) as u32;
                    lemma_push_totals(acc, c);
                    lemma_parse_string_monotone(b, p + 12, acc.push(c));
                } else {
                    lemma_push_totals(acc, first);
                    lemma_parse_string_monotone(b, p + 6, acc.push(first));
                }
            },
        }
    } else {
        let (c, l) = utf8_char(b, p).unwrap();
        lemma_push_totals(acc, c);
        lemma_parse_string_monotone(b, p + l, acc.push(c));
    }
}

/// Appending a character adds its UTF-8 and canonical lengths, each at
/// least one byte.
pub proof fn lemma_push_totals(acc: Seq<u32>, c: u32)
    ensures
        utf8_total(acc.push(c)) == utf8_total(acc) + utf8_len(c),
        canonical_chars_total(acc.push(c)) == canonical_chars_total(acc) + canonical_char_len(c),
        utf8_len(c) >= 1,
        canonical_char_len(c) >= 1,
{
    assert(acc.push(c).drop_last() =~= acc);
}

/// Bytes canonical JSON spends on one character inside a string.
pub fn canonical_json_char_len(character: char) -> (result: Result<u64, IndexError>)
    ensures
        result == Ok::<u64, IndexError>(canonical_char_len(character as u32) as u64),
{
    let value = character as u32;
    let bytes: usize = if value == 0x22 || value == 0x5c || value == 0x08 || value == 0x09
        || value == 0x0a || value == 0x0c || value == 0x0d {
        2
    } else if value <= 0x1f {
        6
    } else {
        char_utf8_len(character)
    };
    Ok(bytes as u64)
}

/// Whether `byte` is one of JSON's four whitespace bytes.
fn is_ws_byte(byte: u8) -> (result: bool)
    ensures
        result == is_ws(byte),
{
    byte == 0x20 || byte == 0x0a || byte == 0x0d || byte == 0x09
}

/// Decodes the well-formed UTF-8 sequence at `p`, if there is one.
fn utf8_char_at(bytes: &[u8], p: usize) -> (result: Option<(u32, usize)>)
    requires
        p < bytes@.len(),
    ensures
        match result {
            Some((c, l)) => utf8_char(bytes@, p as int) == Some((c, l as int)),
            None => utf8_char(bytes@, p as int) is None,
        },
{
    let len = bytes.len();
    let b0 = bytes[p];
    if b0 <= 0x7f {
        Some((b0 as u32, 1))
    } else if 0xc2 <= b0 && b0 <= 0xdf {
        if len - p > 1 && 0x80 <= bytes[p + 1] && bytes[p + 1] <= 0xbf {
            let value = (b0 as u32 - 0xc0) * 64 + (bytes[p + 1] as u32 - 0x80);
            Some((value, 2))
        } else {
            None
        }
    } else if 0xe0 <= b0 && b0 <= 0xef {
        if len - p > 2 && 0x80 <= bytes[p + 1] && bytes[p + 1] <= 0xbf && 0x80 <= bytes[p + 2]
            && bytes[p + 2] <= 0xbf && (b0 != 0xe0 || bytes[p + 1] >= 0xa0) && (b0 != 0xed
            || bytes[p + 1] <= 0x9f) {
            let value = (b0 as u32 - 0xe0) * 4096 + (bytes[p + 1] as u32 - 0x80) * 64 + (bytes[p
                + 2] as u32 - 0x80);
            Some((value, 3))
        } else {
            None
        }
    } else if 0xf0 <= b0 && b0 <= 0xf4 {
        if len - p > 3 && 0x80 <= bytes[p + 1] && bytes[p + 1] <= 0xbf && 0x80 <= bytes[p + 2]
            && bytes[p + 2] <= 0xbf && 0x80 <= bytes[p + 3] && bytes[p + 3] <= 0xbf && (b0 != 0xf0
            || bytes[p + 1] >= 0x90) && (b0 != 0xf4 || bytes[p + 1] <= 0x8f) {
            let value = (b0 as u32 - 0xf0) * 262144 + (bytes[p + 1] as u32 - 0x80) * 4096 + (
            bytes[p + 2] as u32 - 0x80) * 64 + (bytes[p + 3] as u32 - 0x80);
            Some((value, 4))
        } else {
            None
        }
    } else {
        None
    }
}

/// Whether `bytes[p..]` is well-formed UTF-8.
pub(crate) fn utf8_valid_from(bytes: &[u8], p: usize) -> (result: bool)
    requires
        p <= bytes@.len(),
    ensures
        result == utf8_valid(bytes@, p as int),
{
    let mut q = p;
    while q < bytes.len()
        invariant
            p <= q <= bytes@.len(),
            utf8_valid(bytes@, p as int) == utf8_valid(bytes@, q as int),
        decreases bytes@.len() - q,
    {
        match utf8_char_at(bytes, q) {
            None => return false,
            Some((_, l)) => {
                q = q + l;
            },
        }
    }
    true
}

/// The scalar value and UTF-8 length of a decoded sequence agree.
proof fn lemma_utf8_char_len(b: Seq<u8>, p: int)
    requires
        utf8_char(b, p) is Some,
    ensures
        utf8_len(utf8_char(b, p).unwrap().0) == utf8_char(b, p).unwrap().1,
        1 <= utf8_char(b, p).unwrap().1 <= 4,
        p + utf8_char(b, p).unwrap().1 <= b.len(),
        b[p] >= 0x20 && b[p] != 0x22 && b[p] != 0x5c ==> canonical_char_len(
            utf8_char(b, p).unwrap().0,
        ) == utf8_char(b, p).unwrap().1,
{
}

/// How a scan result relates to the value the grammar parses at the same
/// place.  Success reports exactly that value's ownership and canonical
/// length, which are at most eight and 24 bytes per source byte scanned
/// from `start` to `end`.  A grammar failure is always an error; the error
/// is `CorruptIndex`, unless the cell is long enough (`len` bytes) that a
/// charge can exceed `u64`, the only case of `IntegerOutOfRange`.  A value
/// whose charges fit in `u64` is always admitted.
pub open spec fn scan_agrees(
    parsed: Option<(JsonValue, int)>,
    result: Result<JsonCellScan, IndexError>,
    start: int,
    end: int,
    len: int,
) -> bool {
    &&& result matches Ok(scan) ==> {
        &&& parsed is Some
        &&& end == parsed.unwrap().1
        &&& scan.owned_bytes == ownership(parsed.unwrap().0)
        &&& scan.canonical_bytes == canonical_len(parsed.unwrap().0)
        &&& scan.owned_bytes <= 8 * (end - start)
        &&& scan.canonical_bytes <= 24 * (end - start)
    }
    &&& parsed is None ==> result is Err
    &&& result matches Err(e) ==> (e == IndexError::CorruptIndex && parsed is None) || (e
        == IndexError::IntegerOutOfRange && 24 * len > u64::MAX)
    &&& (parsed is Some && ownership(parsed.unwrap().0) <= u64::MAX && canonical_len(
        parsed.unwrap().0,
    ) <= u64::MAX) ==> result is Ok
}

impl<'a> JsonOwnershipScanner<'a> {
    /// One value at the cursor (after optional whitespace) at container
    /// depth `depth`.
    pub fn value(&mut self, depth: usize) -> (result: Result<JsonCellScan, IndexError>)
        requires
            old(self).cursor <= old(self).bytes@.len(),
            depth <= MAX_JSON_DEPTH + 1,
        ensures
            final(self).bytes@ == old(self).bytes@,
            final(self).cursor <= final(self).bytes@.len(),
            result is Ok ==> final(self).cursor > old(self).cursor,
            scan_agrees(
                parse_value(old(self).bytes@, old(self).cursor as int, depth as nat),
                result,
                old(self).cursor as int,
                final(self).cursor as int,
                old(self).bytes@.len() as int,
            ),
        decreases old(self).bytes@.len() - old(self).cursor, 1nat,
    {
        let ghost b = self.bytes@;
        let ghost p = self.cursor as int;
        proof {
            lemma_ws_end(b, p);
        }
        if depth > MAX_JSON_DEPTH {
            return Err(IndexError::CorruptIndex);
        }
        self.whitespace();
        if self.cursor >= self.bytes.len() {
            return Err(IndexError::CorruptIndex);
        }
        let byte = self.bytes[self.cursor];
        if byte == 0x6e {
            let result = self.literal(&[0x6e, 0x75, 0x6c, 0x6c], 0);
            proof {
                assert(null_lit() =~= seq![0x6eu8, 0x75u8, 0x6cu8, 0x6cu8]);
            }
            result
        } else if byte == 0x74 {
            let result = self.literal(&[0x74, 0x72, 0x75, 0x65], 1);
            proof {
                assert(true_lit() =~= seq![0x74u8, 0x72u8, 0x75u8, 0x65u8]);
            }
            result
        } else if byte == 0x66 {
            let result = self.literal(&[0x66, 0x61, 0x6c, 0x73, 0x65], 1);
            proof {
                assert(false_lit() =~= seq![0x66u8, 0x61u8, 0x6cu8, 0x73u8, 0x65u8]);
            }
            result
        } else if byte == 0x22 {
            self.string()
        } else if byte == 0x5b {
            self.array(depth + 1)
        } else if byte == 0x7b {
            self.object(depth + 1)
        } else if byte == 0x2d || (0x30 <= byte && byte <= 0x39) {
            self.number()
        } else {
            Err(IndexError::CorruptIndex)
        }
    }

    /// An array whose `[` is at the cursor: owns an eight-byte slot plus the
    /// ownership of each item.
    pub fn array(&mut self, depth: usize) -> (result: Result<JsonCellScan, IndexError>)
        requires
            old(self).cursor < old(self).bytes@.len(),
            old(self).bytes@[old(self).cursor as int] == 0x5b,
            depth <= MAX_JSON_DEPTH + 1,
        ensures
            final(self).bytes@ == old(self).bytes@,
            final(self).cursor <= final(self).bytes@.len(),
            result is Ok ==> final(self).cursor > old(self).cursor,
            scan_agrees(
                parse_array(old(self).bytes@, old(self).cursor + 1, depth as nat),
                result,
                old(self).cursor as int,
                final(self).cursor as int,
                old(self).bytes@.len() as int,
            ),
        decreases old(self).bytes@.len() - old(self).cursor, 0nat,
    {
        let ghost b = self.bytes@;
        let ghost start = self.cursor as int;
        let len = self.bytes.len();
        self.cursor += 1;
        proof {
            lemma_ws_end(b, start + 1);
        }
        self.whitespace();
        if self.cursor < len && self.bytes[self.cursor] == 0x5d {
            self.cursor += 1;
            return Ok(JsonCellScan { owned_bytes: 0, canonical_bytes: 2 });
        }
        let mut owned = 0u64;
        let mut canonical = 2u64;
        let mut items = 0u64;
        let ghost mut acc: Seq<JsonValue> = Seq::empty();
        loop
            invariant
                self.bytes@ == b,
                b == old(self).bytes@,
                start == old(self).cursor,
                len == b.len(),
                start < self.cursor <= len,
                depth <= MAX_JSON_DEPTH + 1,
                parse_array(b, start + 1, depth as nat) == parse_items(
                    b,
                    self.cursor as int,
                    depth as nat,
                    acc,
                ),
                owned == items_ownership(acc),
                items == acc.len(),
                canonical == 2 + items_canonical(acc),
                owned + 8 <= 8 * (self.cursor - start),
                canonical + items <= 24 * (self.cursor - start),
            decreases len - self.cursor,
        {
            let ghost p = self.cursor as int;
            let ghost whole = parse_array(b, start + 1, depth as nat);
            proof {
                if whole is Some {
                    lemma_items_step(b, p, depth as nat, acc);
                    let full = whole.unwrap().0->Array_0;
                    let v = parse_value(b, p, depth as nat).unwrap().0;
                    lemma_items_prefix(full, acc.len() + 1int);
                    lemma_items_push(acc, v);
                    assert(canonical_len(whole.unwrap().0) == 2 + items_canonical(full)
                        + separators(full.len()));
                }
            }
            let item = match self.value(depth) {
                Ok(item) => item,
                Err(error) => return Err(error),
            };
            let ghost v = parse_value(b, p, depth as nat).unwrap().0;
            proof {
                lemma_items_push(acc, v);
            }
            owned = match owned.checked_add(8) {
                Some(value) => match value.checked_add(item.owned_bytes) {
                    Some(value) => value,
                    None => return Err(IndexError::IntegerOutOfRange),
                },
                None => return Err(IndexError::IntegerOutOfRange),
            };
            canonical = match canonical.checked_add(item.canonical_bytes) {
                Some(value) => value,
                None => return Err(IndexError::IntegerOutOfRange),
            };
            items = match items.checked_add(1) {
                Some(value) => value,
                None => return Err(IndexError::IntegerOutOfRange),
            };
            let ghost e = self.cursor as int;
            proof {
                lemma_ws_end(b, e);
            }
            self.whitespace();
            if self.cursor < len && self.bytes[self.cursor] == 0x2c {
                self.cursor += 1;
                proof {
                    acc = acc.push(v);
                }
            } else if self.cursor < len && self.bytes[self.cursor] == 0x5d {
                self.cursor += 1;
                canonical = match canonical.checked_add(items - 1) {
                    Some(value) => value,
                    None => return Err(IndexError::IntegerOutOfRange),
                };
                return Ok(JsonCellScan { owned_bytes: owned, canonical_bytes: canonical });
            } else {
                return Err(IndexError::CorruptIndex);
            }
        }
    }

    /// An object whose `{` is at the cursor: owns a sixteen-byte slot plus
    /// the key bytes and value ownership of each entry.
    #[verifier::rlimit(100)]
    pub fn object(&mut self, depth: usize) -> (result: Result<JsonCellScan, IndexError>)
        requires
            old(self).cursor < old(self).bytes@.len(),
            old(self).bytes@[old(self).cursor as int] == 0x7b,
            depth <= MAX_JSON_DEPTH + 1,
        ensures
            final(self).bytes@ == old(self).bytes@,
            final(self).cursor <= final(self).bytes@.len(),
            result is Ok ==> final(self).cursor > old(self).cursor,
            scan_agrees(
                parse_object(old(self).bytes@, old(self).cursor + 1, depth as nat),
                result,
                old(self).cursor as int,
                final(self).cursor as int,
                old(self).bytes@.len() as int,
            ),
        decreases old(self).bytes@.len() - old(self).cursor, 0nat,
    {
        let ghost b = self.bytes@;
        let ghost start = self.cursor as int;
        let len = self.bytes.len();
        self.cursor += 1;
        proof {
            lemma_ws_end(b, start + 1);
        }
        self.whitespace();
        if self.cursor < len && self.bytes[self.cursor] == 0x7d {
            self.cursor += 1;
            return Ok(JsonCellScan { owned_bytes: 0, canonical_bytes: 2 });
        }
        let mut owned = 0u64;
        let mut canonical = 2u64;
        let mut entries = 0u64;
        let ghost mut acc: Seq<(Seq<u32>, JsonValue)> = Seq::empty();
        loop
            invariant
                self.bytes@ == b,
                b == old(self).bytes@,
                start == old(self).cursor,
                len == b.len(),
                start < self.cursor <= len,
                depth <= MAX_JSON_DEPTH + 1,
                parse_object(b, start + 1, depth as nat) == parse_entries(
                    b,
                    self.cursor as int,
                    depth as nat,
                    acc,
                ),
                owned == entries_ownership(acc),
                entries == acc.len(),
                canonical == 2 + entries_canonical(acc),
                owned + 8 <= 8 * (self.cursor - start),
                canonical + entries <= 24 * (self.cursor - start),
            decreases len - self.cursor,
        {
            let ghost p = self.cursor as int;
            let ghost whole = parse_object(b, start + 1, depth as nat);
            proof {
                lemma_ws_end(b, p);
                if whole is Some {
                    lemma_entries_step(b, p, depth as nat, acc);
                    let full = whole.unwrap().0->Object_0;
                    lemma_entries_prefix(full, acc.len() + 1int);
                    assert(canonical_len(whole.unwrap().0) == 2 + entries_canonical(full)
                        + separators(full.len()));
                }
            }
            self.whitespace();
            if !(self.cursor < len && self.bytes[self.cursor] == 0x22) {
                return Err(IndexError::CorruptIndex);
            }
            let ghost q = self.cursor as int;
            let key = match self.string() {
                Ok(key) => key,
                Err(error) => return Err(error),
            };
            let ghost key_text = parse_string(b, q + 1, Seq::empty()).unwrap().0;
            let ghost k = self.cursor as int;
            proof {
                lemma_ws_end(b, k);
                lemma_parse_string_monotone(b, q + 1, Seq::empty());
            }
            self.whitespace();
            if !(self.cursor < len && self.bytes[self.cursor] == 0x3a) {
                return Err(IndexError::CorruptIndex);
            }
            self.cursor += 1;
            let ghost c = self.cursor as int - 1;
            proof {
                if whole is Some {
                    let v = parse_value(b, c + 1, depth as nat).unwrap().0;
                    lemma_entries_push(acc, key_text, v);
                }
            }
            let value = match self.value(depth) {
                Ok(value) => value,
                Err(error) => return Err(error),
            };
            let ghost v = parse_value(b, c + 1, depth as nat).unwrap().0;
            proof {
                lemma_entries_push(acc, key_text, v);
            }
            owned = match owned.checked_add(16) {
                Some(total) => match total.checked_add(key.owned_bytes) {
                    Some(total) => match total.checked_add(value.owned_bytes) {
                        Some(total) => total,
                        None => return Err(IndexError::IntegerOutOfRange),
                    },
                    None => return Err(IndexError::IntegerOutOfRange),
                },
                None => return Err(IndexError::IntegerOutOfRange),
            };
            canonical = match canonical.checked_add(key.canonical_bytes) {
                Some(total) => match total.checked_add(1) {
                    Some(total) => match total.checked_add(value.canonical_bytes) {
                        Some(total) => total,
                        None => return Err(IndexError::IntegerOutOfRange),
                    },
                    None => return Err(IndexError::IntegerOutOfRange),
                },
                None => return Err(IndexError::IntegerOutOfRange),
            };
            entries = match entries.checked_add(1) {
                Some(total) => total,
                None => return Err(IndexError::IntegerOutOfRange),
            };
            let ghost e = self.cursor as int;
            proof {
                lemma_ws_end(b, e);
            }
            self.whitespace();
            if self.cursor < len && self.bytes[self.cursor] == 0x2c {
                self.cursor += 1;
                proof {
                    acc = acc.push((key_text, v));
                }
            } else if self.cursor < len && self.bytes[self.cursor] == 0x7d {
                self.cursor += 1;
                canonical = match canonical.checked_add(entries - 1) {
                    Some(total) => total,
                    None => return Err(IndexError::IntegerOutOfRange),
                };
                return Ok(JsonCellScan { owned_bytes: owned, canonical_bytes: canonical });
            } else {
                return Err(IndexError::CorruptIndex);
            }
        }
    }

    pub fn whitespace(&mut self)
        requires
            old(self).cursor <= old(self).bytes@.len(),
        ensures
            final(self).bytes@ == old(self).bytes@,
            final(self).cursor == ws_end(old(self).bytes@, old(self).cursor as int),
    {
        proof {
            lemma_ws_end(self.bytes@, self.cursor as int);
        }
        while self.cursor < self.bytes.len() && is_ws_byte(self.bytes[self.cursor])
            invariant
                self.bytes@ == old(self).bytes@,
                old(self).cursor <= self.cursor <= self.bytes@.len(),
                ws_end(self.bytes@, self.cursor as int) == ws_end(
                    old(self).bytes@,
                    old(self).cursor as int,
                ),
            decreases self.bytes@.len() - self.cursor,
        {
            self.cursor += 1;
        }
    }

    /// Four hexadecimal digits at the cursor.
    pub fn hex_quad(&mut self) -> (result: Result<u32, IndexError>)
        requires
            old(self).cursor <= old(self).bytes@.len(),
        ensures
            final(self).bytes@ == old(self).bytes@,
            match result {
                Ok(value) => {
                    &&& hex_quad(old(self).bytes@, old(self).cursor as int) == Some(value)
                    &&& final(self).cursor == old(self).cursor + 4
                },
                Err(error) => {
                    &&& final(self).cursor == old(self).cursor
                    &&& hex_quad(old(self).bytes@, old(self).cursor as int) is None
                    &&& error == IndexError::CorruptIndex
                },
            },
    {
        if self.bytes.len() - self.cursor < 4 {
            return Err(IndexError::CorruptIndex);
        }
        let mut value = 0u32;
        let mut i: usize = 0;
        let ghost b = self.bytes@;
        let ghost p = self.cursor as int;
        let len = self.bytes.len();
        while i < 4
            invariant
                self.bytes@ == b,
                len == b.len(),
                self.cursor == p,
                p + 4 <= b.len(),
                i <= 4,
                forall|j: int| p <= j < p + i ==> is_hex(#[trigger] b[j]),
                value == (if i == 0 {
                    0
                } else if i == 1 {
                    hex_value(b[p])
                } else if i == 2 {
                    hex_value(b[p]) * 16 + hex_value(b[p + 1])
                } else if i == 3 {
                    hex_value(b[p]) * 256 + hex_value(b[p + 1]) * 16 + hex_value(b[p + 2])
                } else {
                    hex_value(b[p]) * 4096 + hex_value(b[p + 1]) * 256 + hex_value(b[p + 2])
                        * 16 + hex_value(b[p + 3])
                }),
            decreases 4 - i,
        {
            let byte = self.bytes[self.cursor + i];
            let digit: u32 = if 0x30 <= byte && byte <= 0x39 {
                (byte - 0x30) as u32
            } else if 0x61 <= byte && byte <= 0x66 {
                (byte - 0x61 + 10) as u32
            } else if 0x41 <= byte && byte <= 0x46 {
                (byte - 0x41 + 10) as u32
            } else {
                return Err(IndexError::CorruptIndex);
            };
            value = value * 16 + digit;
            i += 1;
        }
        self.cursor += 4;
        Ok(value)
    }

    /// A string whose opening quote is at the cursor: owns its decoded UTF-8
    /// bytes; its canonical encoding adds two quotes and escapes.
    #[verifier::rlimit(80)]
    pub fn string(&mut self) -> (result: Result<JsonCellScan, IndexError>)
        requires
            old(self).cursor < old(self).bytes@.len(),
            old(self).bytes@[old(self).cursor as int] == 0x22,
        ensures
            final(self).bytes@ == old(self).bytes@,
            final(self).cursor <= final(self).bytes@.len(),
            result is Ok ==> final(self).cursor > old(self).cursor,
            ({
                let ps = parse_string(old(self).bytes@, old(self).cursor + 1, Seq::empty());
                &&& result matches Ok(scan) ==> {
                    &&& ps is Some
                    &&& final(self).cursor == ps.unwrap().1
                    &&& scan.owned_bytes == utf8_total(ps.unwrap().0)
                    &&& scan.canonical_bytes == 2 + canonical_chars_total(ps.unwrap().0)
                    &&& final(self).cursor >= old(self).cursor + 2
                    &&& scan.owned_bytes <= final(self).cursor - old(self).cursor
                    &&& scan.canonical_bytes <= final(self).cursor - old(self).cursor
                }
                &&& ps is Some ==> result is Ok
                &&& ps is None ==> result == Err::<JsonCellScan, IndexError>(
                    IndexError::CorruptIndex,
                ) || (result == Err::<JsonCellScan, IndexError>(IndexError::IntegerOutOfRange)
                    && old(self).bytes@.len() >= u64::MAX)
            }),
    {
        let ghost b = self.bytes@;
        let ghost start = self.cursor as int;
        let len = self.bytes.len();
        self.cursor += 1;
        let mut decoded = 0u64;
        let mut canonical = 2u64;
        let ghost mut acc: Seq<u32> = Seq::empty();
        loop
            invariant
                self.bytes@ == b,
                b == old(self).bytes@,
                start == old(self).cursor,
                len == b.len(),
                start < self.cursor <= len,
                parse_string(b, start + 1, Seq::empty()) == parse_string(
                    b,
                    self.cursor as int,
                    acc,
                ),
                decoded == utf8_total(acc),
                canonical == 2 + canonical_chars_total(acc),
                decoded + 1 <= self.cursor - start,
                canonical <= self.cursor - start + 1,
            decreases len - self.cursor,
        {
            let ghost p = self.cursor as int;
            proof {
                if parse_string(b, p, acc) is Some {
                    lemma_parse_string_monotone(b, p, acc);
                }
            }
            if self.cursor >= len {
                return Err(IndexError::CorruptIndex);
            }
            let byte = self.bytes[self.cursor];
            if byte == 0x22 {
                self.cursor += 1;
                return Ok(JsonCellScan { owned_bytes: decoded, canonical_bytes: canonical });
            } else if byte == 0x5c {
                self.cursor += 1;
                if self.cursor >= len {
                    return Err(IndexError::CorruptIndex);
                }
                let escape = self.bytes[self.cursor];
                if escape == 0x22 || escape == 0x5c || escape == 0x2f || escape == 0x62 || escape
                    == 0x66 || escape == 0x6e || escape == 0x72 || escape == 0x74 {
                    self.cursor += 1;
                    let ghost c = simple_escape(escape).unwrap();
                    proof {
                        lemma_push_totals(acc, c);
                        if parse_string(b, p, acc) is Some {
                            lemma_parse_string_monotone(b, p + 2, acc.push(c));
                        }
                    }
                    decoded = match decoded.checked_add(1) {
                        Some(value) => value,
                        None => return Err(IndexError::IntegerOutOfRange),
                    };
                    let step: u64 = if escape == 0x2f { 1 } else { 2 };
                    canonical = match canonical.checked_add(step) {
                        Some(value) => value,
                        None => return Err(IndexError::IntegerOutOfRange),
                    };
                    proof {
                        acc = acc.push(c);
                    }
                } else if escape == 0x75 {
                    self.cursor += 1;
                    let first = match self.hex_quad() {
                        Ok(value) => value,
                        Err(error) => return Err(error),
                    };
                    let scalar = if 0xd800 <= first && first <= 0xdbff {
                        if len - self.cursor < 2 || self.bytes[self.cursor] != 0x5c
                            || self.bytes[self.cursor + 1] != 0x75 {
                            return Err(IndexError::CorruptIndex);
                        }
                        self.cursor += 2;
                        let second = match self.hex_quad() {
                            Ok(value) => value,
                            Err(error) => return Err(error),
                        };
                        if !(0xdc00 <= second && second <= 0xdfff) {
                            return Err(IndexError::CorruptIndex);
                        }
                        let high = first - 0xd800;
                        assert((high << 10u32) == high * 1024) by (bit_vector)
                            requires
                                high <= 0x3ff,
                        ;
                        0x1_0000 + (high << 10u32) + (second - 0xdc00)
                    } else if 0xdc00 <= first && first <= 0xdfff {
                        return Err(IndexError::CorruptIndex);
                    } else {
                        first
                    };
                    let character = match char_from_u32(scalar) {
                        Some(character) => character,
                        None => return Err(IndexError::CorruptIndex),
                    };
                    proof {
                        lemma_push_totals(acc, scalar);
                        if parse_string(b, p, acc) is Some {
                            lemma_parse_string_monotone(b, self.cursor as int, acc.push(scalar));
                        }
                    }
                    decoded = match decoded.checked_add(char_utf8_len(character) as u64) {
                        Some(value) => value,
                        None => return Err(IndexError::IntegerOutOfRange),
                    };
                    let step = match canonical_json_char_len(character) {
                        Ok(value) => value,
                        Err(error) => return Err(error),
                    };
                    canonical = match canonical.checked_add(step) {
                        Some(value) => value,
                        None => return Err(IndexError::IntegerOutOfRange),
                    };
                    proof {
                        acc = acc.push(scalar);
                    }
                } else {
                    return Err(IndexError::CorruptIndex);
                }
            } else if byte < 0x20 {
                return Err(IndexError::CorruptIndex);
            } else {
                if !utf8_valid_from(self.bytes, self.cursor) {
                    return Err(IndexError::CorruptIndex);
                }
                let (c, length) = match utf8_char_at(self.bytes, self.cursor) {
                    Some(decoded_char) => decoded_char,
                    None => return Err(IndexError::CorruptIndex),
                };
                proof {
                    lemma_utf8_char_len(b, p);
                    lemma_push_totals(acc, c);
                    if parse_string(b, p, acc) is Some {
                        lemma_parse_string_monotone(b, p + length, acc.push(c));
                    }
                }
                self.cursor += length;
                decoded = match decoded.checked_add(length as u64) {
                    Some(value) => value,
                    None => return Err(IndexError::IntegerOutOfRange),
                };
                canonical = match canonical.checked_add(length as u64) {
                    Some(value) => value,
                    None => return Err(IndexError::IntegerOutOfRange),
                };
                proof {
                    acc = acc.push(c);
                }
            }
        }
    }

    /// Advances over ASCII digits.
    fn digits(&mut self)
        requires
            old(self).cursor <= old(self).bytes@.len(),
        ensures
            final(self).bytes@ == old(self).bytes@,
            final(self).cursor == digits_end(old(self).bytes@, old(self).cursor as int),
            old(self).cursor <= final(self).cursor <= final(self).bytes@.len(),
    {
        proof {
            lemma_digits_end(self.bytes@, self.cursor as int);
        }
        while self.cursor < self.bytes.len() && 0x30 <= self.bytes[self.cursor]
            && self.bytes[self.cursor] <= 0x39
            invariant
                self.bytes@ == old(self).bytes@,
                old(self).cursor <= self.cursor <= self.bytes@.len(),
                digits_end(self.bytes@, self.cursor as int) == digits_end(
                    old(self).bytes@,
                    old(self).cursor as int,
                ),
            decreases self.bytes@.len() - self.cursor,
        {
            self.cursor += 1;
        }
    }

    /// A number at the cursor: owns eight bytes; its canonical length is
    /// what serde_json prints for the parsed number.
    pub fn number(&mut self) -> (result: Result<JsonCellScan, IndexError>)
        requires
            old(self).cursor < old(self).bytes@.len(),
        ensures
            final(self).bytes@ == old(self).bytes@,
            final(self).cursor <= final(self).bytes@.len(),
            result is Ok ==> final(self).cursor > old(self).cursor,
            ({
                let b = old(self).bytes@;
                let q = old(self).cursor as int;
                let ne = number_end(b, q);
                let accepted = ne is Some && json_number_accepted(b.subrange(q, ne.unwrap()));
                &&& accepted ==> {
                    &&& result == Ok::<JsonCellScan, IndexError>(
                        JsonCellScan {
                            owned_bytes: 8,
                            canonical_bytes: json_number_canonical_len(
                                b.subrange(q, ne.unwrap()),
                            ) as u64,
                        },
                    )
                    &&& final(self).cursor == ne.unwrap()
                    &&& json_number_canonical_len(b.subrange(q, ne.unwrap())) <= 24
                }
                &&& !accepted ==> result == Err::<JsonCellScan, IndexError>(
                    IndexError::CorruptIndex,
                )
            }),
    {
        let ghost b = self.bytes@;
        let number_start = self.cursor;
        let len = self.bytes.len();
        if self.bytes[self.cursor] == 0x2d {
            self.cursor += 1;
        }
        if self.cursor < len && self.bytes[self.cursor] == 0x30 {
            self.cursor += 1;
        } else if self.cursor < len && 0x31 <= self.bytes[self.cursor] && self.bytes[self.cursor]
            <= 0x39 {
            self.cursor += 1;
            self.digits();
        } else {
            return Err(IndexError::CorruptIndex);
        }
        if self.cursor < len && self.bytes[self.cursor] == 0x2e {
            self.cursor += 1;
            let start = self.cursor;
            self.digits();
            if self.cursor == start {
                return Err(IndexError::CorruptIndex);
            }
        }
        if self.cursor < len && (self.bytes[self.cursor] == 0x65 || self.bytes[self.cursor]
            == 0x45) {
            self.cursor += 1;
            if self.cursor < len && (self.bytes[self.cursor] == 0x2b || self.bytes[self.cursor]
                == 0x2d) {
                self.cursor += 1;
            }
            let start = self.cursor;
            self.digits();
            if self.cursor == start {
                return Err(IndexError::CorruptIndex);
            }
        }
        proof {
            assert(number_end(b, number_start as int) == Some(self.cursor as int));
        }
        let text = slice_subrange(self.bytes, number_start, self.cursor);
        let canonical = match json_number_canonical_length(text) {
            Some(length) => length,
            None => return Err(IndexError::CorruptIndex),
        };
        Ok(JsonCellScan { owned_bytes: 8, canonical_bytes: canonical })
    }

    /// Matches `literal` at the cursor; a match owns `owned` decoded bytes.
    pub fn literal(&mut self, literal: &[u8], owned: u64) -> (result: Result<
        JsonCellScan,
        IndexError,
    >)
        requires
            old(self).cursor <= old(self).bytes@.len(),
            1 <= literal@.len() <= 8,
        ensures
            final(self).bytes@ == old(self).bytes@,
            match result {
                Ok(scan) => {
                    &&& literal_at(old(self).bytes@, old(self).cursor as int, literal@)
                    &&& final(self).cursor == old(self).cursor + literal@.len()
                    &&& scan.owned_bytes == owned
                    &&& scan.canonical_bytes == literal@.len()
                },
                Err(error) => {
                    &&& final(self).cursor == old(self).cursor
                    &&& !literal_at(old(self).bytes@, old(self).cursor as int, literal@)
                    &&& error == IndexError::CorruptIndex
                },
            },
    {
        let ghost b = self.bytes@;
        let ghost p = self.cursor as int;
        if self.bytes.len() - self.cursor < literal.len() {
            return Err(IndexError::CorruptIndex);
        }
        let mut i: usize = 0;
        let len = self.bytes.len();
        while i < literal.len()
            invariant
                self.bytes@ == b,
                len == b.len(),
                self.cursor == p,
                p + literal@.len() <= b.len(),
                i <= literal@.len(),
                forall|j: int| 0 <= j < i ==> b[p + j] == #[trigger] literal@[j],
            decreases literal@.len() - i,
        {
            if self.bytes[self.cursor + i] != literal[i] {
                proof {
                    assert(b.subrange(p, p + literal@.len())[i as int] != literal@[i as int]);
                }
                return Err(IndexError::CorruptIndex);
            }
            i += 1;
        }
        proof {
            assert(b.subrange(p, p + literal@.len()) =~= literal@);
        }
        self.cursor += literal.len();
        Ok(JsonCellScan { owned_bytes: owned, canonical_bytes: literal.len() as u64 })
    }
}

} // verus!

verus! {

/// The staging a well-formed cell needs: its input bytes, the length of its
/// canonical re-encoding and the ownership of its decoded value.
pub open spec fn cell_staging(b: Seq<u8>, doc: JsonValue) -> nat {
    b.len() + canonical_len(doc) + ownership(doc)
}

/// What `preflight_json_cell` reports for a cell: for a well-formed cell,
/// its staging, or `IntegerOutOfRange` when that exceeds `u64`; for a
/// malformed cell, `CorruptIndex`, except that a cell so long that a
/// charge can exceed `u64` (over `u64::MAX / 24` bytes) may be refused as
/// `IntegerOutOfRange` instead.
pub open spec fn cell_preflight_agrees(b: Seq<u8>, result: Result<u64, IndexError>) -> bool {
    match parse_document(b) {
        Some(doc) => if cell_staging(b, doc) <= u64::MAX {
            result == Ok::<u64, IndexError>(cell_staging(b, doc) as u64)
        } else {
            result == Err::<u64, IndexError>(IndexError::IntegerOutOfRange)
        },
        None => result == Err::<u64, IndexError>(IndexError::CorruptIndex) || (result == Err::<
            u64,
            IndexError,
        >(IndexError::IntegerOutOfRange) && 24 * b.len() > u64::MAX),
    }
}

/// Scans one stored JSON cell without decoding it and returns the bytes its
/// staging needs: the input, its canonical re-encoding, and the decoded
/// value's ownership.
pub fn preflight_json_cell(bytes: &[u8]) -> (result: Result<u64, IndexError>)
    ensures
        cell_preflight_agrees(bytes@, result),
{
    let ghost b = bytes@;
    let mut scanner = JsonOwnershipScanner { bytes, cursor: 0 };
    proof {
        lemma_ws_end(b, 0);
        lemma_ws_end_idempotent(b, 0);
    }
    scanner.whitespace();
    let ghost q = scanner.cursor as int;
    proof {
        assert(parse_value(b, q, 0) == parse_value(b, 0, 0));
    }
    let scanned = match scanner.value(0) {
        Ok(scanned) => scanned,
        Err(error) => return Err(error),
    };
    let ghost e = scanner.cursor as int;
    proof {
        lemma_ws_end(b, e);
    }
    scanner.whitespace();
    if scanner.cursor != bytes.len() {
        return Err(IndexError::CorruptIndex);
    }
    let input = bytes.len() as u64;
    match input.checked_add(scanned.canonical_bytes) {
        Some(total) => match total.checked_add(scanned.owned_bytes) {
            Some(total) => Ok(total),
            None => Err(IndexError::IntegerOutOfRange),
        },
        None => Err(IndexError::IntegerOutOfRange),
    }
}

/// What `preflight_json_cell_with_limit` reports: what `preflight_json_cell`
/// reports for the same bytes, except that a staging above `limit` is
/// refused as `Incomplete`, naming the limit and the staging.
pub open spec fn cell_preflight_limited(b: Seq<u8>, limit: u64, result: Result<u64, IndexError>) -> bool {
    match parse_document(b) {
        Some(doc) => if cell_staging(b, doc) > u64::MAX {
            result == Err::<u64, IndexError>(IndexError::IntegerOutOfRange)
        } else if cell_staging(b, doc) > limit {
            result == Err::<u64, IndexError>(
                IndexError::Incomplete { limit, observed: cell_staging(b, doc) as u64 },
            )
        } else {
            result == Ok::<u64, IndexError>(cell_staging(b, doc) as u64)
        },
        None => result == Err::<u64, IndexError>(IndexError::CorruptIndex) || (result == Err::<
            u64,
            IndexError,
        >(IndexError::IntegerOutOfRange) && 24 * b.len() > u64::MAX),
    }
}

/// `preflight_json_cell`, refusing a cell whose staging exceeds `limit`.
pub fn preflight_json_cell_with_limit(bytes: &[u8], limit: u64) -> (result: Result<
    u64,
    IndexError,
>)
    ensures
        cell_preflight_limited(bytes@, limit, result),
{
    let inner = preflight_json_cell(bytes);
    let observed = match inner {
        Ok(observed) => observed,
        Err(error) => return Err(error),
    };
    if observed > limit {
        return Err(IndexError::Incomplete { limit, observed });
    }
    Ok(observed)
}

} // verus!
