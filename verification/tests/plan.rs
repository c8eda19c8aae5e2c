use ofl::avm1::find_avm1;
use ofl::avm1::Avm1Location;
use ofl::document::ChildBody;
use ofl::document::ChildNode;
use ofl::document::Document;
use ofl::document::TagBody;
use ofl::document::TagNode;
use ofl::paths::OutFileName;
use ofl::plan::dump_plan;
use ofl::plan::PlanOp;

fn header_only_doc() -> Document {
    Document { header_json: b"{}".to_vec(), tags: vec![] }
}

fn nested_bytecode_doc() -> Document {
    Document {
        header_json: b"{}".to_vec(),
        tags: vec![
            TagNode {
                json: b"{\"sprite\":true}".to_vec(),
                body: TagBody::Sprite {
                    children: vec![
                        ChildNode {
                            json: b"{\"action\":true}".to_vec(),
                            body: ChildBody::Bytecode { init: false, code: vec![0x00] },
                        },
                    ],
                },
            },
        ],
    }
}

#[test]
fn header_only_document_plans_one_file() {
    let ops = dump_plan(&header_only_doc());
    assert_eq!(ops.len(), 1);
    assert_eq!(
        ops[0],
        PlanOp::WriteFile {
            addr: vec![],
            name: OutFileName::HeaderJson,
            content: b"{}\n".to_vec(),
        }
    );
}

#[test]
fn nested_bytecode_child_plans_all_four_files() {
    let ops = dump_plan(&nested_bytecode_doc());
    assert_eq!(ops.len(), 7);
    assert_eq!(
        ops[0],
        PlanOp::WriteFile {
            addr: vec![],
            name: OutFileName::HeaderJson,
            content: b"{}\n".to_vec(),
        }
    );
    assert_eq!(ops[1], PlanOp::MakeDir { addr: vec![0] });
    assert_eq!(
        ops[2],
        PlanOp::WriteFile {
            addr: vec![0],
            name: OutFileName::TagJson,
            content: b"{\"sprite\":true}\n".to_vec(),
        }
    );
    assert_eq!(ops[3], PlanOp::MakeDir { addr: vec![0, 0] });
    assert_eq!(
        ops[4],
        PlanOp::WriteFile {
            addr: vec![0, 0],
            name: OutFileName::TagJson,
            content: b"{\"action\":true}\n".to_vec(),
        }
    );
    assert_eq!(
        ops[5],
        PlanOp::WriteFile {
            addr: vec![0, 0],
            name: OutFileName::MainAvm1,
            content: vec![0x00],
        }
    );
    match &ops[6] {
        PlanOp::WriteFile { addr, name, content } => {
            assert_eq!(addr, &vec![0, 0]);
            assert_eq!(*name, OutFileName::MainCfgJson);
            assert!(content.len() > 1);
            assert_eq!(*content.last().unwrap(), b'\n');
            assert_ne!(content, &vec![0x00]);
            assert_ne!(content, &vec![0x00, b'\n']);
        }
        other => panic!("expected a graph file write, found {:?}", other),
    }
}

#[test]
fn dumping_twice_plans_identical_trees() {
    let doc = nested_bytecode_doc();
    let first = dump_plan(&doc);
    let second = dump_plan(&doc);
    assert_eq!(first, second);
}

#[test]
fn equal_buffers_decode_to_equal_graph_files() {
    let doc = Document {
        header_json: b"{}".to_vec(),
        tags: vec![
            TagNode {
                json: b"{}".to_vec(),
                body: TagBody::Bytecode { init: false, code: vec![0x00] },
            },
            TagNode {
                json: b"{}".to_vec(),
                body: TagBody::Sprite {
                    children: vec![
                        ChildNode {
                            json: b"{}".to_vec(),
                            body: ChildBody::Bytecode { init: true, code: vec![0x00] },
                        },
                    ],
                },
            },
        ],
    };
    let ops = dump_plan(&doc);
    let graphs: Vec<&Vec<u8>> = ops
        .iter()
        .filter_map(|op| match op {
            PlanOp::WriteFile { name: OutFileName::MainCfgJson, content, .. } => Some(content),
            _ => None,
        })
        .collect();
    assert_eq!(graphs.len(), 2);
    assert_eq!(graphs[0], graphs[1]);
}

#[test]
fn find_avm1_collects_locations_in_document_order() {
    let doc = Document {
        header_json: b"{}".to_vec(),
        tags: vec![
            TagNode { json: b"{}".to_vec(), body: TagBody::Leaf },
            TagNode {
                json: b"{}".to_vec(),
                body: TagBody::Bytecode { init: true, code: vec![1, 2] },
            },
            TagNode {
                json: b"{}".to_vec(),
                body: TagBody::Sprite {
                    children: vec![
                        ChildNode { json: b"{}".to_vec(), body: ChildBody::Leaf },
                        ChildNode {
                            json: b"{}".to_vec(),
                            body: ChildBody::Bytecode { init: false, code: vec![3] },
                        },
                    ],
                },
            },
        ],
    };
    let found = find_avm1(&doc);
    assert_eq!(
        found,
        vec![
            (Avm1Location::RootDoInitAction { tag_index: 1 }, vec![1, 2]),
            (Avm1Location::SpriteDoAction { tag_index: 2, sprite_tag_index: 1 }, vec![3]),
        ]
    );
}

#[test]
fn find_avm1_is_empty_without_bytecode() {
    let found = find_avm1(&header_only_doc());
    assert!(found.is_empty());
}
