use ofl::avm1::find_avm1;
use ofl::avm1::Avm1Location;
use ofl::digest::input_digest_hex;
use ofl::errors::DumpError;
use ofl::paths::OutFileName;
use ofl::plan::PlanOp;
use ofl::swf::convert_movie;
use ofl::swf::parse_signature;
use ofl::swf::parse_to_json;
use ofl::swf::plan_swf_dump;
use ofl::swf::CompressionKind;

/// An uncompressed movie with an empty frame rectangle, frame rate 16,
/// one frame, and the given tag bytes before the end marker.
fn minimal_swf(tag_bytes: &[u8]) -> Vec<u8> {
    let mut payload: Vec<u8> = vec![
        0x00, // frame rectangle: zero bits per coordinate
        0x00, 0x10, // frame rate
        0x01, 0x00, // frame count
    ];
    payload.extend_from_slice(tag_bytes);
    payload.extend_from_slice(&[0x00, 0x00]); // end marker
    let total = (8 + payload.len()) as u32;
    let mut bytes: Vec<u8> = b"FWS".to_vec();
    bytes.push(6); // version
    bytes.extend_from_slice(&total.to_le_bytes());
    bytes.extend_from_slice(&payload);
    bytes
}

#[test]
fn signature_of_minimal_movie() {
    let bytes = minimal_swf(&[]);
    let sig = parse_signature(&bytes).unwrap();
    assert_eq!(sig.compression, CompressionKind::Uncompressed);
    assert_eq!(sig.swf_version, 6);
    assert_eq!(sig.uncompressed_file_length, 15);
}

#[test]
fn signature_names_each_compression_letter() {
    let deflate = parse_signature(&b"CWS\x07\x10\x00\x00\x00".to_vec()).unwrap();
    assert_eq!(deflate.compression, CompressionKind::Deflate);
    assert_eq!(deflate.swf_version, 7);
    assert_eq!(deflate.uncompressed_file_length, 16);
    let lzma = parse_signature(&b"ZWS\x0d\x00\x01\x00\x00".to_vec()).unwrap();
    assert_eq!(lzma.compression, CompressionKind::Lzma);
    assert_eq!(lzma.uncompressed_file_length, 256);
}

#[test]
fn signature_rejects_short_or_foreign_bytes() {
    assert!(parse_signature(&b"FWS".to_vec()).is_none());
    assert!(parse_signature(&b"GIF89a\x00\x00".to_vec()).is_none());
    assert!(parse_signature(&vec![]).is_none());
}

#[test]
fn dump_of_tagless_movie_plans_only_the_header() {
    let bytes = minimal_swf(&[]);
    let ops = plan_swf_dump(&bytes).unwrap();
    assert_eq!(ops.len(), 1);
    match &ops[0] {
        PlanOp::WriteFile { addr, name, content } => {
            assert!(addr.is_empty());
            assert_eq!(*name, OutFileName::HeaderJson);
            assert_eq!(*content.last().unwrap(), b'\n');
            assert_eq!(content[0], b'{');
        }
        other => panic!("expected the header write, found {:?}", other),
    }
}

#[test]
fn dump_of_action_movie_plans_bytecode_files() {
    // one tag: code 12 with a one-byte body holding the end action
    let bytes = minimal_swf(&[0x01, 0x03, 0x00]);
    let ops = plan_swf_dump(&bytes).unwrap();
    assert_eq!(ops.len(), 5);
    assert_eq!(ops[1], PlanOp::MakeDir { addr: vec![0] });
    match &ops[2] {
        PlanOp::WriteFile { addr, name, .. } => {
            assert_eq!(addr, &vec![0]);
            assert_eq!(*name, OutFileName::TagJson);
        }
        other => panic!("expected the tag write, found {:?}", other),
    }
    assert_eq!(
        ops[3],
        PlanOp::WriteFile { addr: vec![0], name: OutFileName::MainAvm1, content: vec![0x00] }
    );
    match &ops[4] {
        PlanOp::WriteFile { addr, name, content } => {
            assert_eq!(addr, &vec![0]);
            assert_eq!(*name, OutFileName::MainCfgJson);
            assert_eq!(*content.last().unwrap(), b'\n');
            assert_ne!(content, &vec![0x00, b'\n']);
        }
        other => panic!("expected the graph write, found {:?}", other),
    }
}

#[test]
fn dump_rejects_foreign_bytes() {
    assert_eq!(plan_swf_dump(&b"not a movie at all".to_vec()), Err(DumpError::Data));
}

#[test]
fn parse_prints_a_terminated_document() {
    let out = parse_to_json(&minimal_swf(&[])).unwrap();
    assert_eq!(out[0], b'{');
    assert_eq!(*out.last().unwrap(), b'\n');
}

#[test]
fn parse_rejects_foreign_bytes() {
    assert_eq!(parse_to_json(&b"\x00\x01\x02".to_vec()), Err(DumpError::Data));
}

#[test]
fn converted_movie_locates_the_root_action() {
    let bytes = minimal_swf(&[0x01, 0x03, 0x00]);
    let movie = swf_parser::parse_swf(&bytes).unwrap();
    let doc = convert_movie(&movie).unwrap();
    let found = find_avm1(&doc);
    assert_eq!(found, vec![(Avm1Location::RootDoAction { tag_index: 0 }, vec![0x00])]);
}

#[test]
fn input_digest_matches_known_values() {
    assert_eq!(
        input_digest_hex(&vec![]),
        "e3b0c44298fc1c149afbf4c8996fb92427ae41e4649b934ca495991b7852b855"
    );
    assert_eq!(
        input_digest_hex(&b"abc".to_vec()),
        "ba7816bf8f01cfea414140de5dae2223b00361a396177a9cb410ff61f20015ad"
    );
}
