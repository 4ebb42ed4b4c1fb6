//! Names of publication candidates: `candidate-<64 lowercase hex>.sqlite`.

use vstd::prelude::*;
use vstd::string::StringSliceAdditionalSpecFns;
use vstd::utf8::{encode_utf8, is_ascii_chars, is_ascii_chars_encode_utf8};
use crate::outside::ascii_string;

verus! {

pub open spec fn candidate_prefix() -> Seq<u8> {
    seq![0x63u8, 0x61u8, 0x6eu8, 0x64u8, 0x69u8, 0x64u8, 0x61u8, 0x74u8, 0x65u8, 0x2du8]
}

pub open spec fn candidate_suffix() -> Seq<u8> {
    seq![0x2eu8, 0x73u8, 0x71u8, 0x6cu8, 0x69u8, 0x74u8, 0x65u8]
}

/// The lowercase hexadecimal digit for a nibble.
pub open spec fn hex_digit(nibble: int) -> u8 {
    if nibble < 10 {
        (0x30 + nibble) as u8
    } else {
        (0x61 + nibble - 10) as u8
    }
}

pub open spec fn is_lower_hex(c: u8) -> bool {
    (0x30 <= c <= 0x39) || (0x61 <= c <= 0x66)
}

pub open spec fn lower_hex_value(c: u8) -> int {
    if c <= 0x39 {
        c - 0x30
    } else {
        c - 0x61 + 10
    }
}

/// Two lowercase hex digits per byte, high nibble first.
pub open spec fn hex_encode(bytes: Seq<u8>) -> Seq<u8> {
    Seq::new(
        2 * bytes.len(),
        |i: int|
            if i % 2 == 0 {
                hex_digit(bytes[i / 2] as int / 16)
            } else {
                hex_digit(bytes[i / 2] as int % 16)
            },
    )
}

/// The name of the candidate published under `nonce`.
pub open spec fn candidate_name_bytes(nonce: Seq<u8>) -> Seq<u8> {
    candidate_prefix() + hex_encode(nonce) + candidate_suffix()
}

/// Whether a directory entry name is one a candidate can have.
pub open spec fn is_candidate_name_bytes(name: Seq<u8>) -> bool {
    &&& name.len() == 81
    &&& name.subrange(0, 10) == candidate_prefix()
    &&& name.subrange(74, 81) == candidate_suffix()
    &&& forall|i: int| 10 <= i < 74 ==> is_lower_hex(#[trigger] name[i])
}

/// The characters of an ASCII byte sequence.
pub open spec fn ascii_chars(bytes: Seq<u8>) -> Seq<char> {
    bytes.map_values(|b: u8| b as char)
}

/// The name of a fresh publication candidate.
pub fn candidate_name(nonce: &[u8; 32]) -> (result: String)
    ensures
        result@ == ascii_chars(candidate_name_bytes(nonce@)),
{
    let mut text: Vec<u8> = Vec::with_capacity(10 + 64 + 7);
    let prefix: [u8; 10] = [0x63, 0x61, 0x6e, 0x64, 0x69, 0x64, 0x61, 0x74, 0x65, 0x2d];
    let suffix: [u8; 7] = [0x2e, 0x73, 0x71, 0x6c, 0x69, 0x74, 0x65];
    let digits: [u8; 16] = [
        0x30,
        0x31,
        0x32,
        0x33,
        0x34,
        0x35,
        0x36,
        0x37,
        0x38,
        0x39,
        0x61,
        0x62,
        0x63,
        0x64,
        0x65,
        0x66,
    ];
    let mut i: usize = 0;
    while i < 10
        invariant
            i <= 10,
            prefix@ == candidate_prefix(),
            text@ == candidate_prefix().subrange(0, i as int),
        decreases 10 - i,
    {
        text.push(prefix[i]);
        proof {
            assert(candidate_prefix().subrange(0, i + 1int) =~= candidate_prefix().subrange(
                0,
                i as int,
            ).push(prefix@[i as int]));
        }
        i += 1;
    }
    let mut j: usize = 0;
    while j < 32
        invariant
            j <= 32,
            forall|k: int| 0 <= k < 16 ==> #[trigger] digits@[k] == hex_digit(k),
            text@ == candidate_prefix() + hex_encode(nonce@).subrange(0, 2 * j),
        decreases 32 - j,
    {
        let byte = nonce[j];
        text.push(digits[(byte / 16) as usize]);
        text.push(digits[(byte % 16) as usize]);
        proof {
            assert(hex_encode(nonce@).subrange(0, 2 * (j + 1)) =~= hex_encode(nonce@).subrange(
                0,
                2 * j,
            ).push(hex_digit(byte as int / 16)).push(hex_digit(byte as int % 16)));
            assert(candidate_prefix() + hex_encode(nonce@).subrange(0, 2 * (j + 1)) =~= (
            candidate_prefix() + hex_encode(nonce@).subrange(0, 2 * j)).push(
                hex_digit(byte as int / 16),
            ).push(hex_digit(byte as int % 16)));
        }
        j += 1;
    }
    let mut k: usize = 0;
    while k < 7
        invariant
            k <= 7,
            suffix@ == candidate_suffix(),
            text@ == candidate_prefix() + hex_encode(nonce@) + candidate_suffix().subrange(
                0,
                k as int,
            ),
        decreases 7 - k,
    {
        text.push(suffix[k]);
        proof {
            assert(candidate_prefix() + hex_encode(nonce@) + candidate_suffix().subrange(
                0,
                k + 1int,
            ) =~= (candidate_prefix() + hex_encode(nonce@) + candidate_suffix().subrange(
                0,
                k as int,
            )).push(suffix@[k as int]));
        }
        k += 1;
    }
    proof {
        assert(hex_encode(nonce@).subrange(0, 64) =~= hex_encode(nonce@));
        assert(candidate_suffix().subrange(0, 7) =~= candidate_suffix());
        lemma_candidate_name_ascii(nonce@);
    }
    ascii_string(text)
}

/// Whether `name` is a store-owned candidate name.
pub fn is_candidate_name(name: &str) -> (result: bool)
    ensures
        result == is_candidate_name_bytes(name.spec_bytes()),
{
    let bytes = name.as_bytes();
    if bytes.len() != 81 {
        return false;
    }
    let prefix: [u8; 10] = [0x63, 0x61, 0x6e, 0x64, 0x69, 0x64, 0x61, 0x74, 0x65, 0x2d];
    let suffix: [u8; 7] = [0x2e, 0x73, 0x71, 0x6c, 0x69, 0x74, 0x65];
    let mut i: usize = 0;
    while i < 10
        invariant
            i <= 10,
            bytes@.len() == 81,
            bytes@ == name.spec_bytes(),
            prefix@ == candidate_prefix(),
            forall|j: int| 0 <= j < i ==> bytes@[j] == #[trigger] candidate_prefix()[j],
        decreases 10 - i,
    {
        if bytes[i] != prefix[i] {
            proof {
                assert(bytes@.subrange(0, 10)[i as int] != candidate_prefix()[i as int]);
            }
            return false;
        }
        i += 1;
    }
    let mut k: usize = 0;
    while k < 7
        invariant
            k <= 7,
            bytes@.len() == 81,
            bytes@ == name.spec_bytes(),
            suffix@ == candidate_suffix(),
            forall|j: int| 0 <= j < k ==> bytes@[74 + j] == #[trigger] candidate_suffix()[j],
        decreases 7 - k,
    {
        if bytes[74 + k] != suffix[k] {
            proof {
                assert(bytes@.subrange(74, 81)[k as int] != candidate_suffix()[k as int]);
            }
            return false;
        }
        k += 1;
    }
    proof {
        assert(bytes@.subrange(0, 10) =~= candidate_prefix());
        assert(bytes@.subrange(74, 81) =~= candidate_suffix());
    }
    let mut h: usize = 10;
    while h < 74
        invariant
            10 <= h <= 74,
            bytes@.len() == 81,
            bytes@ == name.spec_bytes(),
            forall|j: int| 10 <= j < h ==> is_lower_hex(#[trigger] bytes@[j]),
        decreases 74 - h,
    {
        let byte = bytes[h];
        if !((0x30 <= byte && byte <= 0x39) || (0x61 <= byte && byte <= 0x66)) {
            return false;
        }
        h += 1;
    }
    true
}

/// Candidate names are ASCII, so their UTF-8 text is their bytes.
pub proof fn lemma_candidate_name_ascii(nonce: Seq<u8>)
    ensures
        forall|i: int|
            0 <= i < candidate_name_bytes(nonce).len() ==> #[trigger] candidate_name_bytes(
                nonce,
            )[i] <= 0x7f,
        is_ascii_chars(ascii_chars(candidate_name_bytes(nonce))),
        encode_utf8(ascii_chars(candidate_name_bytes(nonce))) == candidate_name_bytes(nonce),
{
    let name = candidate_name_bytes(nonce);
    assert forall|i: int| 0 <= i < name.len() implies #[trigger] name[i] <= 0x7f by {
        if i < 10 {
            assert(name[i] == candidate_prefix()[i]);
        } else if i < 10 + 2 * nonce.len() {
            assert(name[i] == hex_encode(nonce)[i - 10]);
        } else {
            assert(name[i] == candidate_suffix()[i - 10 - 2 * nonce.len()]);
        }
    }
    let chars = ascii_chars(name);
    assert(is_ascii_chars(chars));
    is_ascii_chars_encode_utf8(chars);
    assert(encode_utf8(chars) =~= name);
}

/// Every name `candidate_name` produces is recognized by
/// `is_candidate_name`.
pub proof fn lemma_candidate_name_recognized(nonce: Seq<u8>)
    requires
        nonce.len() == 32,
    ensures
        is_candidate_name_bytes(candidate_name_bytes(nonce)),
{
    let name = candidate_name_bytes(nonce);
    assert(name.subrange(0, 10) =~= candidate_prefix());
    assert(name.subrange(74, 81) =~= candidate_suffix());
    assert forall|i: int| 10 <= i < 74 implies is_lower_hex(#[trigger] name[i]) by {
        assert(name[i] == hex_encode(nonce)[i - 10]);
    }
}

/// Different nonces never share a candidate name.
pub proof fn lemma_candidate_name_injective(first: Seq<u8>, second: Seq<u8>)
    requires
        first.len() == 32,
        second.len() == 32,
        candidate_name_bytes(first) == candidate_name_bytes(second),
    ensures
        first == second,
{
    assert forall|j: int| 0 <= j < 32 implies first[j] == second[j] by {
        let a = candidate_name_bytes(first);
        let b = candidate_name_bytes(second);
        assert(a[10 + 2 * j] == hex_encode(first)[2 * j]);
        assert(b[10 + 2 * j] == hex_encode(second)[2 * j]);
        assert(a[10 + 2 * j + 1] == hex_encode(first)[2 * j + 1]);
        assert(b[10 + 2 * j + 1] == hex_encode(second)[2 * j + 1]);
        assert((2 * j) / 2 == j);
        assert((2 * j + 1) / 2 == j);
        assert((2 * j) % 2 == 0);
        assert((2 * j + 1) % 2 == 1);
        assert(first[j] == (first[j] / 16) * 16 + first[j] % 16);
        assert(second[j] == (second[j] / 16) * 16 + second[j] % 16);
    }
    assert(first =~= second);
}

/// The nonce a candidate name encodes.
pub open spec fn candidate_nonce(name: Seq<u8>) -> Seq<u8> {
    Seq::new(
        32,
        |j: int| (lower_hex_value(name[10 + 2 * j]) * 16 + lower_hex_value(name[11 + 2 * j])) as u8,
    )
}

/// Every recognized candidate name is the name of exactly the nonce it
/// encodes.
pub proof fn lemma_candidate_name_complete(name: Seq<u8>)
    requires
        is_candidate_name_bytes(name),
    ensures
        candidate_name_bytes(candidate_nonce(name)) == name,
{
    let nonce = candidate_nonce(name);
    let built = candidate_name_bytes(nonce);
    assert forall|i: int| 0 <= i < 81 implies built[i] == name[i] by {
        if i < 10 {
            assert(name.subrange(0, 10)[i] == name[i]);
        } else if i < 74 {
            let j = (i - 10) / 2;
            assert(is_lower_hex(name[10 + 2 * j]));
            assert(is_lower_hex(name[11 + 2 * j]));
            assert(built[i] == hex_encode(nonce)[i - 10]);
        } else {
            assert(name.subrange(74, 81)[i - 74] == name[i]);
        }
    }
    assert(built =~= name);
}

} // verus!
