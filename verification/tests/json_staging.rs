use reviewgraphen_store::json_scan::{
    canonical_json_char_len, preflight_json_cell, preflight_json_cell_with_limit, JsonCellScan,
    JsonOwnershipScanner,
};
use reviewgraphen_store::IndexError;
use serde_json::Value;

fn oracle_recursive_ownership(value: &Value) -> u64 {
    match value {
        Value::Null => 0,
        Value::Bool(_) => 1,
        Value::Number(_) => 8,
        Value::String(text) => text.len() as u64,
        Value::Array(items) => items
            .iter()
            .map(|item| 8 + oracle_recursive_ownership(item))
            .sum(),
        Value::Object(entries) => entries
            .iter()
            .map(|(key, value)| 16 + key.len() as u64 + oracle_recursive_ownership(value))
            .sum(),
    }
}

fn expected_staging(bytes: &[u8]) -> u64 {
    let decoded: Value = serde_json::from_slice(bytes).unwrap();
    bytes.len() as u64
        + serde_json::to_vec(&decoded).unwrap().len() as u64
        + oracle_recursive_ownership(&decoded)
}

#[test]
fn candidate_json_staging_scanner_is_exact_without_decoding_allocation() {
    for bytes in [
        br#"null"#.as_slice(),
        br#"[true,12,"x",null]"#.as_slice(),
        br#"{"a":[1,2],"emoji":"\ud83d\ude00"}"#.as_slice(),
        br#"{"kind":"run_genesis","run_id":"run:test"}"#.as_slice(),
    ] {
        assert_eq!(preflight_json_cell(bytes).unwrap(), expected_staging(bytes));
    }
    let exponent = format!(
        "[{}]",
        std::iter::repeat_n("1e20", 512)
            .collect::<Vec<_>>()
            .join(",")
    );
    let expected = expected_staging(exponent.as_bytes());
    assert_eq!(
        preflight_json_cell_with_limit(exponent.as_bytes(), expected).unwrap(),
        expected
    );
    assert!(matches!(
        preflight_json_cell_with_limit(exponent.as_bytes(), expected - 1),
        Err(IndexError::Incomplete { limit, observed })
            if limit + 1 == observed && observed == expected
    ));
    assert!(matches!(
        preflight_json_cell(br#"{"a":[1,]}"#),
        Err(IndexError::CorruptIndex)
    ));
}

#[test]
fn scanner_totals_are_input_plus_canonical_plus_ownership() {
    // "  [ ]  ": seven input bytes, canonical "[]", no ownership.
    assert_eq!(preflight_json_cell(b"  [ ]  ").unwrap(), 7 + 2);
    // {"k": "v"}: canonical {"k":"v"} is nine bytes; one entry of a
    // one-byte key and a one-byte string owns 16 + 1 + 1.
    assert_eq!(
        preflight_json_cell(br#"{"k": "v"}"#).unwrap(),
        10 + 9 + 18
    );
    // An escaped control character is canonical as a six-byte escape.
    assert_eq!(
        preflight_json_cell(br#""\u0001""#).unwrap(),
        8 + 8 + 1
    );
    // A solidus escape is canonical as the bare character.
    assert_eq!(preflight_json_cell(br#""\/""#).unwrap(), 4 + 3 + 1);
    assert_eq!(preflight_json_cell(b"false").unwrap(), 5 + 5 + 1);
}

#[test]
fn scanner_refuses_every_malformed_document() {
    for bytes in [
        b"".as_slice(),
        b"nul".as_slice(),
        b"[1 2]".as_slice(),
        b"{\"a\" 1}".as_slice(),
        b"\"\\x\"".as_slice(),
        b"\"unterminated".as_slice(),
        b"01".as_slice(),
        b"1.".as_slice(),
        b"[] []".as_slice(),
        b"\"\xff\"".as_slice(),
        b"\"\x01\"".as_slice(),
        b"\"\\ud800\"".as_slice(),
        b"\"\\udc00\"".as_slice(),
    ] {
        assert!(
            matches!(preflight_json_cell(bytes), Err(IndexError::CorruptIndex)),
            "accepted {:?}",
            String::from_utf8_lossy(bytes)
        );
    }
}

#[test]
fn nesting_deeper_than_the_ceiling_is_corrupt() {
    let shallow = format!("{}{}", "[".repeat(128), "]".repeat(128));
    assert!(preflight_json_cell(shallow.as_bytes()).is_ok());
    let deep = format!("{}{}", "[".repeat(130), "]".repeat(130));
    assert!(matches!(
        preflight_json_cell(deep.as_bytes()),
        Err(IndexError::CorruptIndex)
    ));
}

#[test]
fn canonical_character_lengths_follow_json_escaping() {
    assert_eq!(canonical_json_char_len('a').unwrap(), 1);
    assert_eq!(canonical_json_char_len('"').unwrap(), 2);
    assert_eq!(canonical_json_char_len('\\').unwrap(), 2);
    assert_eq!(canonical_json_char_len('\n').unwrap(), 2);
    assert_eq!(canonical_json_char_len('\u{1}').unwrap(), 6);
    assert_eq!(canonical_json_char_len('\u{7f}').unwrap(), 1);
    assert_eq!(canonical_json_char_len('é').unwrap(), 2);
    assert_eq!(canonical_json_char_len('€').unwrap(), 3);
    assert_eq!(canonical_json_char_len('😀').unwrap(), 4);
}

#[test]
fn numbers_are_staged_as_serde_json_prints_them() {
    for text in ["0", "-0", "12", "1.5", "1e20", "-2.5E-3", "18446744073709551615"] {
        assert_eq!(
            preflight_json_cell(text.as_bytes()).unwrap(),
            expected_staging(text.as_bytes()),
            "{text}"
        );
    }
}

#[test]
fn numbers_serde_json_cannot_represent_are_corrupt() {
    // Grammatical, but beyond f64: serde_json refuses to parse them.
    for text in ["1e400", "-1e400", "[1,2e999]"] {
        assert!(
            matches!(preflight_json_cell(text.as_bytes()), Err(IndexError::CorruptIndex)),
            "{text}"
        );
    }
    assert!(preflight_json_cell(b"1e300").is_ok());
}

#[test]
fn staging_of_sample_cells_is_input_plus_canonical_plus_ownership() {
    assert_eq!(preflight_json_cell(b"null"), Ok(8));
    assert_eq!(preflight_json_cell(br#"[true,12,"x",null]"#), Ok(78));
    assert_eq!(
        preflight_json_cell(br#"{"a":[1,2],"emoji":"\ud83d\ude00"}"#),
        Ok(134)
    );
    assert_eq!(
        preflight_json_cell(br#"{"kind":"run_genesis","run_id":"run:test"}"#),
        Ok(145)
    );
    // A number is as long as serde_json prints it: "1E2" prints as "100.0".
    assert_eq!(preflight_json_cell(b"1E2"), Ok(3 + 5 + 8));
}

#[test]
fn malformed_cells_are_corrupt() {
    for bytes in [
        br#"{"a":[1,]}"#.as_slice(),
        b"".as_slice(),
        b"nul".as_slice(),
        b"null null".as_slice(),
        b"[1 2]".as_slice(),
        b"01".as_slice(),
        b"1.".as_slice(),
        b"{1:2}".as_slice(),
    ] {
        assert_eq!(
            preflight_json_cell(bytes),
            Err(IndexError::CorruptIndex),
            "{:?}",
            String::from_utf8_lossy(bytes)
        );
        assert_eq!(
            preflight_json_cell_with_limit(bytes, u64::MAX),
            Err(IndexError::CorruptIndex)
        );
    }
}

#[test]
fn limited_preflight_follows_the_plain_preflight_of_the_same_bytes() {
    let bytes = format!("[{}]", vec!["1e20"; 512].join(",")).into_bytes();
    let staging = preflight_json_cell(&bytes).unwrap();
    assert_eq!(preflight_json_cell_with_limit(&bytes, staging), Ok(staging));
    assert_eq!(preflight_json_cell_with_limit(&bytes, u64::MAX), Ok(staging));
    assert_eq!(
        preflight_json_cell_with_limit(&bytes, staging - 1),
        Err(IndexError::Incomplete {
            limit: staging - 1,
            observed: staging
        })
    );
}

#[test]
fn malformed_strings_are_corrupt() {
    for bytes in [
        br#""\udc00""#.as_slice(),
        br#""\ud83d""#.as_slice(),
        br#""\ud83d\u0041""#.as_slice(),
        b"\"a\x01\"".as_slice(),
        br#""\x""#.as_slice(),
        b"\"abc".as_slice(),
    ] {
        let mut scanner = JsonOwnershipScanner { bytes, cursor: 0 };
        assert_eq!(
            scanner.string(),
            Err(IndexError::CorruptIndex),
            "{:?}",
            String::from_utf8_lossy(bytes)
        );
    }
}

#[test]
fn values_nest_at_most_the_depth_ceiling() {
    let nested = |n: usize| format!("{}{}", "[".repeat(n), "]".repeat(n)).into_bytes();
    let at_ceiling = nested(129);
    let mut scanner = JsonOwnershipScanner {
        bytes: &at_ceiling,
        cursor: 0,
    };
    assert_eq!(
        scanner.value(0),
        Ok(JsonCellScan {
            owned_bytes: 1024,
            canonical_bytes: 258
        })
    );
    let too_deep = nested(130);
    let mut scanner = JsonOwnershipScanner {
        bytes: &too_deep,
        cursor: 0,
    };
    assert_eq!(scanner.value(0), Err(IndexError::CorruptIndex));
}
