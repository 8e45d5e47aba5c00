use wit_docs::codec::{
    decode_payload, encode_payload, extract_package_docs, find_package_docs, ParseError, Section,
    PAYLOAD_VERSION,
};
use wit_docs::rewrite::{rewrite_module, RewriteError};

fn custom(name: &str, data: &[u8]) -> Section {
    Section::Custom { name: name.to_string(), data: data.to_vec() }
}

#[test]
fn payload_round_trip() {
    let json = br#"{"worlds":{}}"#;
    let p = encode_payload(json);
    assert_eq!(p[0], PAYLOAD_VERSION);
    assert_eq!(&p[1..], json);
    assert_eq!(decode_payload(&p), Some(json.to_vec()));
}

#[test]
fn short_payload_is_no_docs() {
    assert_eq!(decode_payload(&[]), None);
    assert_eq!(decode_payload(&[1]), None);
    assert_eq!(decode_payload(&[1, b'x']), Some(vec![b'x']));
    let ss = vec![custom("package-docs", &[1]), custom("package-docs", &[1, b'{', b'}'])];
    assert_eq!(extract_package_docs(&ss), Ok(None));
}

#[test]
fn first_docs_section_is_used() {
    let ss = vec![
        Section::Other,
        custom("name", &[0, 1, 2]),
        custom("package-docs", &[1, b'a']),
        custom("package-docs", &[1, b'b']),
        Section::Malformed,
    ];
    assert_eq!(extract_package_docs(&ss), Ok(Some(vec![b'a'])));
}

#[test]
fn malformed_before_docs_is_error() {
    let ss = vec![Section::Other, Section::Malformed];
    assert_eq!(extract_package_docs(&ss), Err(ParseError::MalformedBinary));
    assert_eq!(extract_package_docs(&vec![]), Ok(None));
}

#[test]
fn garbage_binary_is_rejected() {
    assert_eq!(find_package_docs(b"not wasm"), Err(ParseError::MalformedBinary));
    assert!(rewrite_module(b"not wasm", "package-docs", &[1]).is_err());
}

const EMPTY_COMPONENT: [u8; 8] = [0x00, 0x61, 0x73, 0x6d, 0x0d, 0x00, 0x01, 0x00];

#[test]
fn rewrite_then_find_round_trip() {
    let json = br#"{"worlds":{"app":{"docs":"Top level."}}}"#;
    let out = rewrite_module(&EMPTY_COMPONENT, "package-docs", &encode_payload(json)).unwrap();
    assert_eq!(&out[..8], &EMPTY_COMPONENT);
    assert_eq!(find_package_docs(&out), Ok(Some(json.to_vec())));
    assert_eq!(find_package_docs(&EMPTY_COMPONENT), Ok(None));
}

#[test]
fn rewrite_keeps_existing_sections() {
    let json = b"{}";
    let once = rewrite_module(&EMPTY_COMPONENT, "other", &[7, 7]).unwrap();
    let twice = rewrite_module(&once, "package-docs", &encode_payload(json)).unwrap();
    assert_eq!(&twice[..once.len()], &once[..]);
    assert_eq!(find_package_docs(&twice), Ok(Some(json.to_vec())));
}

#[test]
fn rewrite_appends_exact_custom_section() {
    let out = rewrite_module(&EMPTY_COMPONENT, "package-docs", &[1, b'{', b'}']).unwrap();
    let mut want = EMPTY_COMPONENT.to_vec();
    want.extend_from_slice(&[0, 16, 12]);
    want.extend_from_slice(b"package-docs");
    want.extend_from_slice(&[1, b'{', b'}']);
    assert_eq!(out, want);
}

#[test]
fn rewrite_uses_multi_byte_lengths() {
    let data = vec![7u8; 200];
    let out = rewrite_module(&EMPTY_COMPONENT, "n", &data).unwrap();
    // body = 1 (name length) + 1 (name) + 200 = 202 = 0xca 0x01 in LEB128
    assert_eq!(&out[8..13], &[0, 0xca, 0x01, 1, b'n']);
    assert_eq!(&out[13..], &data[..]);
}

#[test]
fn rewrite_rejects_truncated_nested_section() {
    let mut input = EMPTY_COMPONENT.to_vec();
    input.extend_from_slice(&[0x01, 0x10]);
    assert_eq!(rewrite_module(&input, "package-docs", &[1, b'{', b'}']), Err(RewriteError::Unparseable));
}

#[test]
fn rewrite_rejects_empty_and_core_module_input() {
    assert_eq!(rewrite_module(&[], "package-docs", &[1]), Err(RewriteError::Unparseable));
    let core = [0x00, 0x61, 0x73, 0x6d, 0x01, 0x00, 0x00, 0x00];
    assert_eq!(rewrite_module(&core, "package-docs", &[1]), Err(RewriteError::Unparseable));
}
