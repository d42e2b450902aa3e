use wasm_bindgen_cli_support::descriptors_section::{
    parse, DESCRIPTOR_FORMAT_VERSION, DESCRIPTOR_KIND_CAST, DESCRIPTOR_KIND_REGULAR,
};
use wasm_bindgen_shared::tys;

/// Encode one entry body: `[name_len][name][kind][word_count][words...]`.
fn entry_body(name: &str, kind: u8, schema_words: &[u32]) -> Vec<u8> {
    let mut b = Vec::new();
    b.push(name.len() as u8);
    b.extend_from_slice(name.as_bytes());
    b.push(kind);
    b.extend_from_slice(&(schema_words.len() as u32).to_le_bytes());
    for w in schema_words {
        b.extend_from_slice(&w.to_le_bytes());
    }
    b
}

/// Wrap a body with the outer framing (version + body_len).
fn frame(body: Vec<u8>) -> Vec<u8> {
    frame_with_version(DESCRIPTOR_FORMAT_VERSION, body)
}

fn frame_with_version(version: u8, body: Vec<u8>) -> Vec<u8> {
    let mut out = Vec::with_capacity(1 + 4 + body.len());
    out.push(version);
    out.extend_from_slice(&(body.len() as u32).to_le_bytes());
    out.extend_from_slice(&body);
    out
}

fn section(framed_entries: &[Vec<u8>]) -> Vec<u8> {
    framed_entries.iter().flatten().copied().collect()
}

fn message_of(bytes: &[u8]) -> String {
    match parse(bytes) {
        Ok(_) => panic!("expected an error"),
        Err(e) => e.message(),
    }
}

#[test]
fn parses_empty_section() {
    let bytes = section(&[]);
    let (entries, stats) = parse(&bytes).unwrap();
    assert!(entries.is_empty());
    assert_eq!(stats.decoded, 0);
    assert_eq!(stats.skipped_total(), 0);
}

#[test]
fn parses_single_regular_entry() {
    // FUNCTION: shim_idx=0, nargs=1, arg=I32, ret=I32, inner_ret=I32.
    let words = [tys::FUNCTION, 0, 1, tys::I32, tys::I32, tys::I32];
    let bytes = section(&[frame(entry_body("foo", DESCRIPTOR_KIND_REGULAR, &words))]);
    let (entries, stats) = parse(&bytes).unwrap();
    assert_eq!(entries.len(), 1);
    assert_eq!(stats.decoded, 1);
    assert_eq!(entries[0].name, "foo");
    assert_eq!(entries[0].kind, DESCRIPTOR_KIND_REGULAR);
    // `schema_words` round-trips the bytes.
    assert_eq!(entries[0].schema_words(), words);
}

#[test]
fn parses_multiple_entries() {
    let a = frame(entry_body("a", DESCRIPTOR_KIND_REGULAR, &[tys::I32]));
    let b = frame(entry_body("bb", DESCRIPTOR_KIND_CAST, &[tys::U32, tys::U32]));
    let bytes = section(&[a, b]);
    let (entries, stats) = parse(&bytes).unwrap();
    assert_eq!(entries.len(), 2);
    assert_eq!(stats.decoded, 2);
    assert_eq!(entries[0].name, "a");
    assert_eq!(entries[0].kind, DESCRIPTOR_KIND_REGULAR);
    assert_eq!(entries[1].name, "bb");
    assert_eq!(entries[1].kind, DESCRIPTOR_KIND_CAST);
}

#[test]
fn skips_unknown_version() {
    let body_a = entry_body("a", DESCRIPTOR_KIND_REGULAR, &[tys::I32]);
    let body_b = entry_body("future", DESCRIPTOR_KIND_REGULAR, &[1, 2, 3, 4]);
    let body_c = entry_body("c", DESCRIPTOR_KIND_REGULAR, &[tys::U32]);
    let bytes = section(&[frame(body_a), frame_with_version(99, body_b), frame(body_c)]);
    let (entries, stats) = parse(&bytes).unwrap();
    assert_eq!(entries.len(), 2);
    assert_eq!(stats.decoded, 2);
    assert_eq!(stats.skipped_total(), 1);
    assert_eq!(stats.skipped_unknown_version.get(&99), Some(&1));
    assert_eq!(entries[0].name, "a");
    assert_eq!(entries[1].name, "c");
}

#[test]
fn skipping_unknown_version_does_not_decode_garbage() {
    let mut garbage = Vec::new();
    garbage.extend_from_slice(&[0xff, 0xff, 0xff, 0xff, 0xff, 0xff]);
    garbage.extend_from_slice(b"this is not a v1 entry");
    let bytes = section(&[
        frame_with_version(7, garbage),
        frame(entry_body("after", DESCRIPTOR_KIND_REGULAR, &[tys::U32])),
    ]);
    let (entries, stats) = parse(&bytes).unwrap();
    assert_eq!(entries.len(), 1);
    assert_eq!(entries[0].name, "after");
    assert_eq!(stats.skipped_total(), 1);
    assert_eq!(stats.skipped_unknown_version.get(&7), Some(&1));
}

#[test]
fn unknown_kind_is_rejected() {
    let body = entry_body("x", DESCRIPTOR_KIND_REGULAR, &[]);
    let mut framed = frame(body);
    let kind_pos = 1 + 4 + 1 + 1;
    framed[kind_pos] = 99;
    let bytes = section(&[framed]);
    let msg = message_of(&bytes);
    assert!(msg.contains("unknown kind"));
}

#[test]
fn declared_body_length_mismatch_is_rejected() {
    let body = entry_body("x", DESCRIPTOR_KIND_REGULAR, &[tys::I32]);
    let mut framed = vec![DESCRIPTOR_FORMAT_VERSION];
    framed.extend_from_slice(&((body.len() + 4) as u32).to_le_bytes());
    framed.extend_from_slice(&body);
    framed.extend_from_slice(&[0, 0, 0, 0]);
    let bytes = section(&[framed]);
    let msg = message_of(&bytes);
    assert!(
        msg.contains("declared body length") || msg.contains("extends past section end"),
        "unexpected error: {msg}"
    );
}

#[test]
fn truncated_section_is_rejected() {
    let bytes = section(&[frame(entry_body(
        "x",
        DESCRIPTOR_KIND_REGULAR,
        &[tys::I32, tys::I32],
    ))]);
    let msg = message_of(&bytes[..bytes.len() - 1]);
    assert!(
        msg.contains("unexpected end") || msg.contains("extends past"),
        "unexpected truncation error message: {msg}"
    );
}

#[test]
fn error_messages_are_exact() {
    let mut framed = frame(entry_body("x\"y", DESCRIPTOR_KIND_REGULAR, &[]));
    framed[1 + 4 + 1 + 3] = 42;
    assert_eq!(
        message_of(&framed),
        "descriptor entry for \"x\\\"y\" has unknown kind byte 42"
    );
    assert_eq!(
        message_of(&[1]),
        "unexpected end of descriptor section at offset 1 (need 4 bytes, have 0)"
    );
    let empty_name = frame(entry_body("", DESCRIPTOR_KIND_REGULAR, &[]));
    assert_eq!(message_of(&empty_name), "descriptor entry has empty shim name");
    let mut bad_utf8 = frame(entry_body("a", DESCRIPTOR_KIND_REGULAR, &[]));
    bad_utf8[6] = 0xff;
    assert_eq!(message_of(&bad_utf8), "descriptor entry shim name is not UTF-8");
}

#[test]
fn schema_words_are_little_endian() {
    let bytes = section(&[frame(entry_body("w", DESCRIPTOR_KIND_REGULAR, &[0x0403_0201, 7]))]);
    let (entries, _) = parse(&bytes).unwrap();
    assert_eq!(entries[0].schema_bytes[..4], [1, 2, 3, 4]);
    assert_eq!(entries[0].schema_words(), vec![0x0403_0201, 7]);
}

#[test]
fn written_frames_parse_back_with_their_words() {
    let words_a = [7u32, 0, u32::MAX, 0x0102_0304];
    let words_b: [u32; 0] = [];
    let bytes = section(&[
        frame(entry_body("a", DESCRIPTOR_KIND_REGULAR, &words_a)),
        frame_with_version(9, vec![1, 2, 3]),
        frame(entry_body("b", DESCRIPTOR_KIND_CAST, &words_b)),
        frame_with_version(9, vec![]),
    ]);
    let (entries, stats) = parse(&bytes).unwrap();
    assert_eq!(entries.len(), 2);
    assert_eq!(stats.decoded, 2);
    assert_eq!(entries[0].name, "a");
    assert_eq!(entries[0].schema_words(), words_a.to_vec());
    assert_eq!(entries[1].name, "b");
    assert_eq!(entries[1].kind, DESCRIPTOR_KIND_CAST);
    assert!(entries[1].schema_words().is_empty());
    assert_eq!(stats.skipped_unknown_version.get(&9), Some(&2));
    assert_eq!(stats.skipped_total(), 2);
}
