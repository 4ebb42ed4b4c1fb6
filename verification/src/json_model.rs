//! The JSON grammar accepted by a stored canonical-JSON cell, the value it
//! denotes, and the two semantic charges over that value.

use vstd::prelude::*;

verus! {

/// Deepest container nesting a cell may use.
pub const MAX_JSON_DEPTH: usize = 128;

/// A decoded JSON value.  Strings are sequences of Unicode scalar values;
/// numbers keep their source text; objects keep every entry in order.
pub enum JsonValue {
    Null,
    Bool(bool),
    Number(Seq<u8>),
    Str(Seq<u32>),
    Array(Seq<JsonValue>),
    Object(Seq<(Seq<u32>, JsonValue)>),
}

/// Whether serde_json accepts this number text (see
/// `json_number_canonical_length`).
pub uninterp spec fn json_number_accepted(text: Seq<u8>) -> bool;

/// The length of what serde_json prints for the number it parses from this
/// text (see `json_number_canonical_length`).
pub uninterp spec fn json_number_canonical_len(text: Seq<u8>) -> nat;

pub open spec fn is_ws(c: u8) -> bool {
    c == 0x20 || c == 0x0a || c == 0x0d || c == 0x09
}

pub open spec fn is_digit(c: u8) -> bool {
    0x30 <= c <= 0x39
}

pub open spec fn is_hex(c: u8) -> bool {
    (0x30 <= c <= 0x39) || (0x61 <= c <= 0x66) || (0x41 <= c <= 0x46)
}

pub open spec fn hex_value(c: u8) -> int {
    if 0x30 <= c <= 0x39 {
        c - 0x30
    } else if 0x61 <= c <= 0x66 {
        c - 0x61 + 10
    } else {
        c - 0x41 + 10
    }
}

/// First position at or after `p` that is not JSON whitespace.
pub open spec fn ws_end(b: Seq<u8>, p: int) -> int
    decreases b.len() - p,
{
    if 0 <= p < b.len() && is_ws(b[p]) {
        ws_end(b, p + 1)
    } else {
        p
    }
}

/// First position at or after `p` that is not an ASCII digit.
pub open spec fn digits_end(b: Seq<u8>, p: int) -> int
    decreases b.len() - p,
{
    if 0 <= p < b.len() && is_digit(b[p]) {
        digits_end(b, p + 1)
    } else {
        p
    }
}

pub open spec fn byte_is(b: Seq<u8>, p: int, c: u8) -> bool {
    0 <= p < b.len() && b[p] == c
}

/// End of the JSON number grammar starting at `q`, if it matches.
pub open spec fn number_end(b: Seq<u8>, q: int) -> Option<int> {
    let p1 = if byte_is(b, q, 0x2d) { q + 1 } else { q };
    let p2 = if byte_is(b, p1, 0x30) {
        Some(p1 + 1)
    } else if 0 <= p1 < b.len() && 0x31 <= b[p1] <= 0x39 {
        Some(digits_end(b, p1 + 1))
    } else {
        None::<int>
    };
    match p2 {
        None => None,
        Some(p2) => {
            let p3 = if byte_is(b, p2, 0x2e) {
                let d = digits_end(b, p2 + 1);
                if d == p2 + 1 { None::<int> } else { Some(d) }
            } else {
                Some(p2)
            };
            match p3 {
                None => None,
                Some(p3) => {
                    if byte_is(b, p3, 0x65) || byte_is(b, p3, 0x45) {
                        let s = if byte_is(b, p3 + 1, 0x2b) || byte_is(b, p3 + 1, 0x2d) {
                            p3 + 2
                        } else {
                            p3 + 1
                        };
                        let d = digits_end(b, s);
                        if d == s { None } else { Some(d) }
                    } else {
                        Some(p3)
                    }
                },
            }
        },
    }
}

/// Four hexadecimal digits at `p`.
pub open spec fn hex_quad(b: Seq<u8>, p: int) -> Option<u32> {
    if 0 <= p && p + 4 <= b.len() && is_hex(b[p]) && is_hex(b[p + 1]) && is_hex(b[p + 2])
        && is_hex(b[p + 3]) {
        Some(
            (hex_value(b[p]) * 4096 + hex_value(b[p + 1]) * 256 + hex_value(b[p + 2]) * 16
                + hex_value(b[p + 3])) as u32,
        )
    } else {
        None
    }
}

pub open spec fn is_cont(c: u8) -> bool {
    0x80 <= c <= 0xbf
}

/// The Unicode scalar value and byte length of the well-formed UTF-8
/// sequence starting at `p`, if there is one.
pub open spec fn utf8_char(b: Seq<u8>, p: int) -> Option<(u32, int)> {
    if !(0 <= p < b.len()) {
        None
    } else {
        let b0 = b[p];
        if b0 <= 0x7f {
            Some((b0 as u32, 1))
        } else if 0xc2 <= b0 <= 0xdf {
            if p + 1 < b.len() && is_cont(b[p + 1]) {
                Some((((b0 - 0xc0) * 64 + (b[p + 1] - 0x80)) as u32, 2))
            } else {
                None
            }
        } else if 0xe0 <= b0 <= 0xef {
            if p + 2 < b.len() && is_cont(b[p + 1]) && is_cont(b[p + 2]) && (b0 != 0xe0
                || b[p + 1] >= 0xa0) && (b0 != 0xed || b[p + 1] <= 0x9f) {
                Some(
                    (((b0 - 0xe0) * 4096 + (b[p + 1] - 0x80) * 64 + (b[p + 2] - 0x80)) as u32, 3),
                )
            } else {
                None
            }
        } else if 0xf0 <= b0 <= 0xf4 {
            if p + 3 < b.len() && is_cont(b[p + 1]) && is_cont(b[p + 2]) && is_cont(b[p + 3])
                && (b0 != 0xf0 || b[p + 1] >= 0x90) && (b0 != 0xf4 || b[p + 1] <= 0x8f) {
                Some(
                    (((b0 - 0xf0) * 262144 + (b[p + 1] - 0x80) * 4096 + (b[p + 2] - 0x80) * 64 + (
                    b[p + 3] - 0x80)) as u32, 4),
                )
            } else {
                None
            }
        } else {
            None
        }
    }
}

/// Whether the bytes from `p` to the end are well-formed UTF-8.
pub open spec fn utf8_valid(b: Seq<u8>, p: int) -> bool
    decreases b.len() - p,
{
    if p >= b.len() {
        true
    } else {
        match utf8_char(b, p) {
            None => false,
            Some((_, l)) => if l > 0 { utf8_valid(b, p + l) } else { false },
        }
    }
}

/// The scalar value a one-character escape (`\"`, `\n`, ...) stands for.
pub open spec fn simple_escape(e: u8) -> Option<u32> {
    if e == 0x22 {
        Some(0x22u32)
    } else if e == 0x5c {
        Some(0x5cu32)
    } else if e == 0x2f {
        Some(0x2fu32)
    } else if e == 0x62 {
        Some(0x08u32)
    } else if e == 0x66 {
        Some(0x0cu32)
    } else if e == 0x6e {
        Some(0x0au32)
    } else if e == 0x72 {
        Some(0x0du32)
    } else if e == 0x74 {
        Some(0x09u32)
    } else {
        None
    }
}

/// The body of a string whose opening quote precedes `p`; `acc` holds the
/// scalars already decoded.  Returns every scalar and the position after the
/// closing quote.
pub open spec fn parse_string(b: Seq<u8>, p: int, acc: Seq<u32>) -> Option<(Seq<u32>, int)>
    decreases b.len() - p,
{
    if !(0 <= p < b.len()) {
        None
    } else if b[p] == 0x22 {
        Some((acc, p + 1))
    } else if b[p] == 0x5c {
        if p + 1 >= b.len() {
            None
        } else {
            match simple_escape(b[p + 1]) {
                Some(c) => parse_string(b, p + 2, acc.push(c)),
                None => if b[p + 1] == 0x75 {
                    match hex_quad(b, p + 2) {
                        None => None,
                        Some(first) => if 0xd800 <= first <= 0xdbff {
                            if byte_is(b, p + 6, 0x5c) && byte_is(b, p + 7, 0x75) {
                                match hex_quad(b, p + 8) {
                                    Some(second) => if 0xdc00 <= second <= 0xdfff {
                                        parse_string(
                                            b,
                                            p + 12,
                                            acc.push(
                                                (0x10000 + (first - 0xd800) * 1024 + (second
                                                    - 0xdc00)) as u32,
                                            ),
                                        )
                                    } else {
                                        None
                                    },
                                    None => None,
                                }
                            } else {
                                None
                            }
                        } else if 0xdc00 <= first <= 0xdfff {
                            None
                        } else {
                            parse_string(b, p + 6, acc.push(first))
                        },
                    }
                } else {
                    None
                },
            }
        }
    } else if b[p] < 0x20 {
        None
    } else if !utf8_valid(b, p) {
        None
    } else {
        match utf8_char(b, p) {
            Some((c, l)) => if l > 0 { parse_string(b, p + l, acc.push(c)) } else { None },
            None => None,
        }
    }
}

pub open spec fn literal_at(b: Seq<u8>, p: int, lit: Seq<u8>) -> bool {
    0 <= p && p + lit.len() <= b.len() && b.subrange(p, p + lit.len()) == lit
}

pub open spec fn null_lit() -> Seq<u8> {
    seq![0x6eu8, 0x75u8, 0x6cu8, 0x6cu8]
}

pub open spec fn true_lit() -> Seq<u8> {
    seq![0x74u8, 0x72u8, 0x75u8, 0x65u8]
}

pub open spec fn false_lit() -> Seq<u8> {
    seq![0x66u8, 0x61u8, 0x6cu8, 0x73u8, 0x65u8]
}

/// One JSON value at or after `p` (after optional whitespace), evaluated at
/// container depth `depth`.  Returns the value and the position after it.
pub open spec fn parse_value(b: Seq<u8>, p: int, depth: nat) -> Option<(JsonValue, int)>
    decreases b.len() - p, 0nat,
{
    if depth > MAX_JSON_DEPTH || p < 0 {
        None
    } else {
        let q = ws_end(b, p);
        if q >= b.len() || q < p {
            None
        } else {
            let c = b[q];
            if c == 0x6e {
                if literal_at(b, q, null_lit()) { Some((JsonValue::Null, q + 4)) } else { None }
            } else if c == 0x74 {
                if literal_at(b, q, true_lit()) {
                    Some((JsonValue::Bool(true), q + 4))
                } else {
                    None
                }
            } else if c == 0x66 {
                if literal_at(b, q, false_lit()) {
                    Some((JsonValue::Bool(false), q + 5))
                } else {
                    None
                }
            } else if c == 0x22 {
                match parse_string(b, q + 1, Seq::empty()) {
                    Some((s, e)) => Some((JsonValue::Str(s), e)),
                    None => None,
                }
            } else if c == 0x5b {
                parse_array(b, q + 1, depth + 1)
            } else if c == 0x7b {
                parse_object(b, q + 1, depth + 1)
            } else if c == 0x2d || is_digit(c) {
                match number_end(b, q) {
                    Some(e) => if json_number_accepted(b.subrange(q, e)) {
                        Some((JsonValue::Number(b.subrange(q, e)), e))
                    } else {
                        None
                    },
                    None => None,
                }
            } else {
                None
            }
        }
    }
}

/// An array whose `[` precedes `p`.
pub open spec fn parse_array(b: Seq<u8>, p: int, depth: nat) -> Option<(JsonValue, int)>
    decreases b.len() - p, 2nat,
{
    let q = ws_end(b, p);
    if q < p || q > b.len() {
        None
    } else if byte_is(b, q, 0x5d) {
        Some((JsonValue::Array(Seq::empty()), q + 1))
    } else {
        parse_items(b, q, depth, Seq::empty())
    }
}

/// The remaining items of an array, the first starting at `p`.
pub open spec fn parse_items(b: Seq<u8>, p: int, depth: nat, acc: Seq<JsonValue>) -> Option<
    (JsonValue, int),
>
    decreases b.len() - p, 1nat,
{
    match parse_value(b, p, depth) {
        None => None,
        Some((v, e)) => {
            let r = ws_end(b, e);
            if e <= p || r < e {
                None
            } else if byte_is(b, r, 0x2c) {
                parse_items(b, r + 1, depth, acc.push(v))
            } else if byte_is(b, r, 0x5d) {
                Some((JsonValue::Array(acc.push(v)), r + 1))
            } else {
                None
            }
        },
    }
}

/// An object whose `{` precedes `p`.
pub open spec fn parse_object(b: Seq<u8>, p: int, depth: nat) -> Option<(JsonValue, int)>
    decreases b.len() - p, 2nat,
{
    let q = ws_end(b, p);
    if q < p || q > b.len() {
        None
    } else if byte_is(b, q, 0x7d) {
        Some((JsonValue::Object(Seq::empty()), q + 1))
    } else {
        parse_entries(b, q, depth, Seq::empty())
    }
}

/// The remaining entries of an object, the first starting at or after `p`.
pub open spec fn parse_entries(
    b: Seq<u8>,
    p: int,
    depth: nat,
    acc: Seq<(Seq<u32>, JsonValue)>,
) -> Option<(JsonValue, int)>
    decreases b.len() - p, 1nat,
{
    let q = ws_end(b, p);
    if q < p || !byte_is(b, q, 0x22) {
        None
    } else {
        match parse_string(b, q + 1, Seq::empty()) {
            None => None,
            Some((key, k)) => {
                let c = ws_end(b, k);
                if k <= q || c < k || !byte_is(b, c, 0x3a) {
                    None
                } else {
                    match parse_value(b, c + 1, depth) {
                        None => None,
                        Some((v, e)) => {
                            let r = ws_end(b, e);
                            if e <= c || r < e {
                                None
                            } else if byte_is(b, r, 0x2c) {
                                parse_entries(b, r + 1, depth, acc.push((key, v)))
                            } else if byte_is(b, r, 0x7d) {
                                Some((JsonValue::Object(acc.push((key, v))), r + 1))
                            } else {
                                None
                            }
                        },
                    }
                }
            },
        }
    }
}

/// A whole cell: one value surrounded only by whitespace.
pub open spec fn parse_document(b: Seq<u8>) -> Option<JsonValue> {
    match parse_value(b, 0, 0) {
        Some((v, e)) => if ws_end(b, e) == b.len() { Some(v) } else { None },
        None => None,
    }
}

/// Bytes of the UTF-8 encoding of one scalar.
pub open spec fn utf8_len(c: u32) -> nat {
    if c <= 0x7f {
        1
    } else if c <= 0x7ff {
        2
    } else if c <= 0xffff {
        3
    } else {
        4
    }
}

/// The UTF-8 length of a character.
pub fn char_utf8_len(character: char) -> (result: usize)
    ensures
        result == utf8_len(character as u32),
        1 <= result <= 4,
{
    let value = character as u32;
    if value <= 0x7f {
        1
    } else if value <= 0x7ff {
        2
    } else if value <= 0xffff {
        3
    } else {
        4
    }
}

/// Bytes canonical JSON spends on one scalar inside a string.
pub open spec fn canonical_char_len(c: u32) -> nat {
    if c == 0x22 || c == 0x5c || c == 0x08 || c == 0x09 || c == 0x0a || c == 0x0c || c == 0x0d {
        2
    } else if c <= 0x1f {
        6
    } else {
        utf8_len(c)
    }
}

pub open spec fn utf8_total(s: Seq<u32>) -> nat
    decreases s.len(),
{
    if s.len() == 0 {
        0
    } else {
        utf8_total(s.drop_last()) + utf8_len(s.last())
    }
}

pub open spec fn canonical_chars_total(s: Seq<u32>) -> nat
    decreases s.len(),
{
    if s.len() == 0 {
        0
    } else {
        canonical_chars_total(s.drop_last()) + canonical_char_len(s.last())
    }
}

/// The decoded-ownership charge of a value: one byte per boolean, eight per
/// number, the UTF-8 length of a string, an eight-byte slot per array item
/// and a sixteen-byte slot plus key bytes per object entry.
pub open spec fn ownership(v: JsonValue) -> nat
    decreases v,
{
    match v {
        JsonValue::Null => 0,
        JsonValue::Bool(_) => 1,
        JsonValue::Number(_) => 8,
        JsonValue::Str(s) => utf8_total(s),
        JsonValue::Array(items) => items_ownership(items),
        JsonValue::Object(entries) => entries_ownership(entries),
    }
}

pub open spec fn items_ownership(items: Seq<JsonValue>) -> nat
    decreases items,
{
    if items.len() == 0 {
        0
    } else {
        items_ownership(items.drop_last()) + 8 + ownership(items.last())
    }
}

pub open spec fn entries_ownership(entries: Seq<(Seq<u32>, JsonValue)>) -> nat
    decreases entries,
{
    if entries.len() == 0 {
        0
    } else {
        entries_ownership(entries.drop_last()) + 16 + utf8_total(entries.last().0) + ownership(
            entries.last().1,
        )
    }
}

/// Length of the canonical (compact) encoding of a value; a number is as
/// long as serde_json prints it.
pub open spec fn canonical_len(v: JsonValue) -> nat
    decreases v,
{
    match v {
        JsonValue::Null => 4,
        JsonValue::Bool(b) => if b { 4 } else { 5 },
        JsonValue::Number(text) => json_number_canonical_len(text),
        JsonValue::Str(s) => 2 + canonical_chars_total(s),
        JsonValue::Array(items) => 2 + items_canonical(items) + separators(items.len()),
        JsonValue::Object(entries) => 2 + entries_canonical(entries) + separators(entries.len()),
    }
}

/// Commas between `n` members.
pub open spec fn separators(n: nat) -> nat {
    if n == 0 { 0 } else { (n - 1) as nat }
}

pub open spec fn items_canonical(items: Seq<JsonValue>) -> nat
    decreases items,
{
    if items.len() == 0 {
        0
    } else {
        items_canonical(items.drop_last()) + canonical_len(items.last())
    }
}

pub open spec fn entries_canonical(entries: Seq<(Seq<u32>, JsonValue)>) -> nat
    decreases entries,
{
    if entries.len() == 0 {
        0
    } else {
        entries_canonical(entries.drop_last()) + 2 + canonical_chars_total(entries.last().0) + 1
            + canonical_len(entries.last().1)
    }
}


/// Charges of a prefix of an item list never exceed those of the list.
pub proof fn lemma_items_prefix(items: Seq<JsonValue>, k: int)
    requires
        0 <= k <= items.len(),
    ensures
        items_ownership(items.subrange(0, k)) <= items_ownership(items),
        items_canonical(items.subrange(0, k)) <= items_canonical(items),
    decreases items.len() - k,
{
    if k < items.len() {
        lemma_items_prefix(items, k + 1);
        assert(items.subrange(0, k + 1).drop_last() =~= items.subrange(0, k));
    } else {
        assert(items.subrange(0, k) =~= items);
    }
}

/// Charges of a prefix of an entry list never exceed those of the list.
pub proof fn lemma_entries_prefix(entries: Seq<(Seq<u32>, JsonValue)>, k: int)
    requires
        0 <= k <= entries.len(),
    ensures
        entries_ownership(entries.subrange(0, k)) <= entries_ownership(entries),
        entries_canonical(entries.subrange(0, k)) <= entries_canonical(entries),
    decreases entries.len() - k,
{
    if k < entries.len() {
        lemma_entries_prefix(entries, k + 1);
        assert(entries.subrange(0, k + 1).drop_last() =~= entries.subrange(0, k));
    } else {
        assert(entries.subrange(0, k) =~= entries);
    }
}

/// The items parsed so far are a prefix of the array that results.
pub proof fn lemma_parse_items_prefix(b: Seq<u8>, p: int, depth: nat, acc: Seq<JsonValue>)
    requires
        parse_items(b, p, depth, acc) is Some,
    ensures
        parse_items(b, p, depth, acc).unwrap().0 is Array,
        acc.len() < parse_items(b, p, depth, acc).unwrap().0->Array_0.len(),
        parse_items(b, p, depth, acc).unwrap().0->Array_0.subrange(0, acc.len() as int) == acc,
    decreases b.len() - p,
{
    let (v, e) = parse_value(b, p, depth).unwrap();
    let r = ws_end(b, e);
    if byte_is(b, r, 0x2c) {
        lemma_parse_items_prefix(b, r + 1, depth, acc.push(v));
        let full = parse_items(b, p, depth, acc).unwrap().0->Array_0;
        assert(full.subrange(0, acc.len() as int) =~= full.subrange(0, acc.len() + 1int).subrange(
            0,
            acc.len() as int,
        ));
        assert(acc.push(v).subrange(0, acc.len() as int) =~= acc);
    } else {
        assert(acc.push(v).subrange(0, acc.len() as int) =~= acc);
    }
}

/// The entries parsed so far are a prefix of the object that results.
pub proof fn lemma_parse_entries_prefix(
    b: Seq<u8>,
    p: int,
    depth: nat,
    acc: Seq<(Seq<u32>, JsonValue)>,
)
    requires
        parse_entries(b, p, depth, acc) is Some,
    ensures
        parse_entries(b, p, depth, acc).unwrap().0 is Object,
        acc.len() < parse_entries(b, p, depth, acc).unwrap().0->Object_0.len(),
        parse_entries(b, p, depth, acc).unwrap().0->Object_0.subrange(0, acc.len() as int) == acc,
    decreases b.len() - p,
{
    let q = ws_end(b, p);
    let (key, k) = parse_string(b, q + 1, Seq::empty()).unwrap();
    let c = ws_end(b, k);
    let (v, e) = parse_value(b, c + 1, depth).unwrap();
    let r = ws_end(b, e);
    if byte_is(b, r, 0x2c) {
        lemma_parse_entries_prefix(b, r + 1, depth, acc.push((key, v)));
        let full = parse_entries(b, p, depth, acc).unwrap().0->Object_0;
        assert(full.subrange(0, acc.len() as int) =~= full.subrange(0, acc.len() + 1int).subrange(
            0,
            acc.len() as int,
        ));
        assert(acc.push((key, v)).subrange(0, acc.len() as int) =~= acc);
    } else {
        assert(acc.push((key, v)).subrange(0, acc.len() as int) =~= acc);
    }
}


/// One step of an item list: the next value is parsed and, with the items
/// before it, forms a prefix of the resulting array.
pub proof fn lemma_items_step(b: Seq<u8>, p: int, depth: nat, acc: Seq<JsonValue>)
    requires
        parse_items(b, p, depth, acc) is Some,
    ensures
        parse_value(b, p, depth) is Some,
        ({
            let full = parse_items(b, p, depth, acc).unwrap().0->Array_0;
            let v = parse_value(b, p, depth).unwrap().0;
            &&& parse_items(b, p, depth, acc).unwrap().0 is Array
            &&& acc.len() + 1 <= full.len()
            &&& full.subrange(0, acc.len() + 1int) == acc.push(v)
        }),
{
    let (v, e) = parse_value(b, p, depth).unwrap();
    let r = ws_end(b, e);
    if byte_is(b, r, 0x2c) {
        lemma_parse_items_prefix(b, r + 1, depth, acc.push(v));
    } else {
        assert(acc.push(v).subrange(0, acc.len() + 1int) =~= acc.push(v));
    }
}

/// One step of an entry list, as `lemma_items_step`.
pub proof fn lemma_entries_step(
    b: Seq<u8>,
    p: int,
    depth: nat,
    acc: Seq<(Seq<u32>, JsonValue)>,
)
    requires
        parse_entries(b, p, depth, acc) is Some,
    ensures
        ({
            let q = ws_end(b, p);
            let key = parse_string(b, q + 1, Seq::empty());
            let c = ws_end(b, key.unwrap().1);
            let value = parse_value(b, c + 1, depth);
            let full = parse_entries(b, p, depth, acc).unwrap().0->Object_0;
            &&& key is Some
            &&& value is Some
            &&& parse_entries(b, p, depth, acc).unwrap().0 is Object
            &&& acc.len() + 1 <= full.len()
            &&& full.subrange(0, acc.len() + 1int) == acc.push((key.unwrap().0, value.unwrap().0))
        }),
{
    let q = ws_end(b, p);
    let (key, k) = parse_string(b, q + 1, Seq::empty()).unwrap();
    let c = ws_end(b, k);
    let (v, e) = parse_value(b, c + 1, depth).unwrap();
    let r = ws_end(b, e);
    if byte_is(b, r, 0x2c) {
        lemma_parse_entries_prefix(b, r + 1, depth, acc.push((key, v)));
    } else {
        assert(acc.push((key, v)).subrange(0, acc.len() + 1int) =~= acc.push((key, v)));
    }
}

/// Appending an item adds its charges to those of the list.
pub proof fn lemma_items_push(items: Seq<JsonValue>, v: JsonValue)
    ensures
        items_ownership(items.push(v)) == items_ownership(items) + 8 + ownership(v),
        items_canonical(items.push(v)) == items_canonical(items) + canonical_len(v),
{
    assert(items.push(v).drop_last() =~= items);
}

/// Appending an entry adds its charges to those of the list.
pub proof fn lemma_entries_push(entries: Seq<(Seq<u32>, JsonValue)>, key: Seq<u32>, v: JsonValue)
    ensures
        entries_ownership(entries.push((key, v))) == entries_ownership(entries) + 16 + utf8_total(
            key,
        ) + ownership(v),
        entries_canonical(entries.push((key, v))) == entries_canonical(entries) + 2
            + canonical_chars_total(key) + 1 + canonical_len(v),
{
    assert(entries.push((key, v)).drop_last() =~= entries);
}

} // verus!
