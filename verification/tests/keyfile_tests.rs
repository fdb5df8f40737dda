use dht_churn::keyfile::{format_secret_keys, parse_secret_keys, KeyFileError};

fn key_a() -> Vec<u8> {
    (0u8..32).collect()
}

fn key_b() -> Vec<u8> {
    vec![0xffu8; 32]
}

const HEX_A: &str = "000102030405060708090a0b0c0d0e0f101112131415161718191a1b1c1d1e1f";
const HEX_B: &str = "ffffffffffffffffffffffffffffffffffffffffffffffffffffffffffffffff";

#[test]
fn parses_two_keys() {
    let data = format!("{HEX_A}\n{HEX_B}");
    let keys = parse_secret_keys(data.as_bytes()).unwrap();
    assert_eq!(keys.len(), 2);
    assert_eq!(keys[0], key_a());
    assert_eq!(keys[1], key_b());
}

#[test]
fn parses_empty_file_to_no_keys() {
    let keys = parse_secret_keys(b"").unwrap();
    assert_eq!(keys.len(), 0);
}

#[test]
fn accepts_trailing_newline() {
    let data = format!("{HEX_A}\n");
    let keys = parse_secret_keys(data.as_bytes()).unwrap();
    assert_eq!(keys.len(), 1);
    assert_eq!(keys[0], key_a());
}

#[test]
fn accepts_uppercase_hex() {
    let data = HEX_A.to_uppercase();
    let keys = parse_secret_keys(data.as_bytes()).unwrap();
    assert_eq!(keys[0], key_a());
}

#[test]
fn accepts_carriage_returns() {
    let data = format!("{HEX_A}\r\n{HEX_B}\r\n");
    let keys = parse_secret_keys(data.as_bytes()).unwrap();
    assert_eq!(keys.len(), 2);
    assert_eq!(keys[1], key_b());
}

#[test]
fn rejects_bad_hex_with_line_index() {
    let data = format!("{HEX_A}\nzz{}", &HEX_B[2..]);
    let err = parse_secret_keys(data.as_bytes()).unwrap_err();
    assert_eq!(err, KeyFileError::InvalidHex { line: 1 });
}

#[test]
fn rejects_odd_length_as_bad_hex() {
    let data = &HEX_A[..63];
    let err = parse_secret_keys(data.as_bytes()).unwrap_err();
    assert_eq!(err, KeyFileError::InvalidHex { line: 0 });
}

#[test]
fn rejects_wrong_key_length() {
    let data = format!("{HEX_A}\nabcdef");
    let err = parse_secret_keys(data.as_bytes()).unwrap_err();
    assert_eq!(err, KeyFileError::WrongLength { line: 1 });
}

#[test]
fn rejects_empty_line_as_wrong_length() {
    let data = format!("{HEX_A}\n\n{HEX_B}");
    let err = parse_secret_keys(data.as_bytes()).unwrap_err();
    assert_eq!(err, KeyFileError::WrongLength { line: 1 });
}

#[test]
fn formats_keys_as_lowercase_hex_lines() {
    let keys = vec![key_a(), key_b()];
    let data = format_secret_keys(&keys);
    let expected = format!("{HEX_A}\n{HEX_B}");
    assert_eq!(data, expected.as_bytes());
}

#[test]
fn formats_empty_batch_to_empty_file() {
    let keys: Vec<Vec<u8>> = Vec::new();
    assert_eq!(format_secret_keys(&keys).len(), 0);
}

#[test]
fn format_then_parse_returns_the_batch() {
    let keys = vec![key_a(), key_b(), vec![0x5au8; 32]];
    let data = format_secret_keys(&keys);
    let parsed = parse_secret_keys(&data).unwrap();
    assert_eq!(parsed, keys);
}
