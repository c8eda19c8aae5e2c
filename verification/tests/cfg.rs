use ofl::cfg::check_cfg_decodable;
use ofl::document::Document;
use ofl::document::TagBody;
use ofl::document::TagNode;
use ofl::paths::OutFileName;
use ofl::plan::dump_plan;
use ofl::plan::PlanOp;

#[test]
fn plain_actions_are_decodable() {
    assert!(check_cfg_decodable(&vec![]));
    assert!(check_cfg_decodable(&vec![0x00]));
    // a push of a small payload followed by the end action
    assert!(check_cfg_decodable(&vec![0x96, 0x02, 0x00, 0x05, 0x01, 0x00]));
}

#[test]
fn wait_for_frame_walking_off_the_buffer_is_rejected() {
    // a wait-for-frame whose skip count of one reaches past the end
    assert!(!check_cfg_decodable(&vec![0x8A, 0x03, 0x00, 0x00, 0x00, 0x01]));
    // the same instruction with a skip count of zero is fine
    assert!(check_cfg_decodable(&vec![0x8A, 0x03, 0x00, 0x00, 0x00, 0x00]));
    // with one more action in the buffer the walk of one stays inside
    assert!(check_cfg_decodable(&vec![0x8A, 0x03, 0x00, 0x00, 0x00, 0x01, 0x00]));
}

#[test]
fn wait_for_frame2_walking_off_the_buffer_is_rejected() {
    assert!(!check_cfg_decodable(&vec![0x8D, 0x01, 0x00, 0x05]));
    assert!(check_cfg_decodable(&vec![0x8D, 0x01, 0x00, 0x00]));
}

#[test]
fn branch_offset_of_minus_32768_is_rejected() {
    // a jump and a branch carrying the one offset the decoder aborts on
    assert!(!check_cfg_decodable(&vec![0x99, 0x02, 0x00, 0x00, 0x80]));
    assert!(!check_cfg_decodable(&vec![0x9D, 0x02, 0x00, 0x00, 0x80]));
    // any other offset is accepted
    assert!(check_cfg_decodable(&vec![0x99, 0x02, 0x00, 0x01, 0x80]));
    assert!(check_cfg_decodable(&vec![0x99, 0x02, 0x00, 0x00, 0x7F]));
}

#[test]
fn rejected_buffer_keeps_its_raw_file_and_gets_no_graph_file() {
    let doc = Document {
        header_json: b"{}".to_vec(),
        tags: vec![
            TagNode {
                json: b"{}".to_vec(),
                body: TagBody::Bytecode { init: false, code: vec![0x8A, 0x03, 0x00, 0x00, 0x00, 0x01] },
            },
        ],
    };
    let ops = dump_plan(&doc);
    assert_eq!(ops.len(), 4);
    assert_eq!(
        ops[3],
        PlanOp::WriteFile {
            addr: vec![0],
            name: OutFileName::MainAvm1,
            content: vec![0x8A, 0x03, 0x00, 0x00, 0x00, 0x01],
        }
    );
    assert!(ops.iter().all(|op| !matches!(
        op,
        PlanOp::WriteFile { name: OutFileName::MainCfgJson, .. }
    )));
}

#[test]
fn accepted_wait_for_frame_still_decodes() {
    let code = vec![0x8A, 0x03, 0x00, 0x00, 0x00, 0x01, 0x00];
    assert!(check_cfg_decodable(&code));
    let doc = Document {
        header_json: b"{}".to_vec(),
        tags: vec![
            TagNode { json: b"{}".to_vec(), body: TagBody::Bytecode { init: true, code } },
        ],
    };
    let ops = dump_plan(&doc);
    assert_eq!(ops.len(), 5);
    match &ops[4] {
        PlanOp::WriteFile { name, content, .. } => {
            assert_eq!(*name, OutFileName::MainCfgJson);
            assert_eq!(*content.last().unwrap(), b'\n');
        }
        other => panic!("expected the graph write, found {:?}", other),
    }
}

#[test]
fn accepted_far_branch_still_decodes() {
    let code = vec![0x99, 0x02, 0x00, 0x01, 0x80];
    assert!(check_cfg_decodable(&code));
    let doc = Document {
        header_json: b"{}".to_vec(),
        tags: vec![
            TagNode { json: b"{}".to_vec(), body: TagBody::Bytecode { init: false, code } },
        ],
    };
    let ops = dump_plan(&doc);
    assert_eq!(ops.len(), 5);
}
