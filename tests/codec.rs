use market_api::codec::{decode, encode, DecodeError};

#[test]
fn decode_plain_segment() {
    assert_eq!(decode(b"foo"), Ok(b"foo".to_vec()));
}

#[test]
fn decode_escape() {
    assert_eq!(decode(b"report%2Epdf"), Ok(b"report.pdf".to_vec()));
    assert_eq!(decode(b"a%2fb"), Ok(b"a/b".to_vec()));
    assert_eq!(decode(b"%41%62"), Ok(b"Ab".to_vec()));
}

#[test]
fn decode_keeps_case_and_spaces() {
    assert_eq!(decode(b"  MiXed+ "), Ok(b"  MiXed+ ".to_vec()));
}

#[test]
fn decode_truncated_escape() {
    assert_eq!(decode(b"abc%4"), Err(DecodeError::InvalidEncoding));
    assert_eq!(decode(b"%"), Err(DecodeError::InvalidEncoding));
}

#[test]
fn decode_bad_hex() {
    assert_eq!(decode(b"%zz"), Err(DecodeError::InvalidEncoding));
    assert_eq!(decode(b"%%41"), Err(DecodeError::InvalidEncoding));
}

#[test]
fn decode_empty() {
    assert_eq!(decode(b""), Err(DecodeError::Empty));
}

#[test]
fn encode_escapes_reserved() {
    assert_eq!(encode(b"a b/c"), b"a%20b%2Fc".to_vec());
    assert_eq!(encode(b"report.pdf"), b"report.pdf".to_vec());
    assert_eq!(encode(&[0u8, 255u8]), b"%00%FF".to_vec());
}

#[test]
fn decode_after_encode_round_trips() {
    let keys: Vec<Vec<u8>> = vec![
        b"report.pdf".to_vec(),
        b"a b/c?d=e&f%".to_vec(),
        (0u8..=255u8).collect(),
        "caf\u{e9}".as_bytes().to_vec(),
    ];
    for k in keys {
        assert_eq!(decode(&encode(&k)), Ok(k));
    }
}
