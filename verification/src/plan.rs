use vstd::prelude::*;

use crate::cfg::cfg_decodable;
use crate::cfg::cfg_json_of;
use crate::cfg::check_cfg_decodable;
use crate::cfg::decode_cfg_json;
use crate::document::child_views;
use crate::document::ChildBody;
use crate::document::ChildBodyView;
use crate::document::ChildNode;
use crate::document::ChildView;
use crate::document::Document;
use crate::document::DocumentView;
use crate::document::TagBody;
use crate::document::TagBodyView;
use crate::document::TagView;
use crate::document::TagNode;
use crate::paths::OutFileName;

verus! {

/// One filesystem step of a dump, relative to the output root: create the
/// directory of the node at `addr`, or write one file with the given content
/// into the directory of the node at `addr` (the root itself when `addr` is
/// empty).
#[derive(Debug, PartialEq, Eq)]
pub enum PlanOp {
    MakeDir { addr: Vec<usize> },
    WriteFile { addr: Vec<usize>, name: OutFileName, content: Vec<u8> },
}

/// The mathematical value of a `PlanOp`.
#[verifier::ext_equal]
pub enum PlanOpView {
    MakeDir { addr: Seq<int> },
    WriteFile { addr: Seq<int>, name: OutFileName, content: Seq<u8> },
}

/// A structural address as a sequence of mathematical integers.
pub open spec fn addr_view(addr: Seq<usize>) -> Seq<int> {
    addr.map_values(|x: usize| x as int)
}

impl View for PlanOp {
    type V = PlanOpView;

    open spec fn view(&self) -> PlanOpView {
        match self {
            PlanOp::MakeDir { addr } => PlanOpView::MakeDir { addr: addr_view(addr@) },
            PlanOp::WriteFile { addr, name, content } => PlanOpView::WriteFile {
                addr: addr_view(addr@),
                name: *name,
                content: content@,
            },
        }
    }
}

/// The views of a sequence of plan steps.
pub open spec fn plan_view(ops: Seq<PlanOp>) -> Seq<PlanOpView> {
    ops.map_values(|op: PlanOp| op@)
}

/// A file's bytes on disk: its encoding followed by one trailing newline.
pub open spec fn with_nl(s: Seq<u8>) -> Seq<u8> {
    s.push(10)
}

/// The files of a bytecode-bearing node: the buffer verbatim, then — when
/// the decoder accepts the buffer — its decoded control-flow graph,
/// pretty-printed. A buffer the decoder would abort on keeps its raw file
/// and gets no graph file.
pub open spec fn code_ops(addr: Seq<int>, code: Seq<u8>) -> Seq<PlanOpView> {
    seq![PlanOpView::WriteFile { addr: addr, name: OutFileName::MainAvm1, content: code }]
        + if cfg_decodable(code) {
        seq![
            PlanOpView::WriteFile {
                addr: addr,
                name: OutFileName::MainCfgJson,
                content: with_nl(cfg_json_of(code)),
            },
        ]
    } else {
        Seq::<PlanOpView>::empty()
    }
}

/// The steps shared by every non-root node: create its directory, then write
/// its own encoding there.
pub open spec fn node_dir_ops(addr: Seq<int>, json: Seq<u8>) -> Seq<PlanOpView> {
    seq![
        PlanOpView::MakeDir { addr: addr },
        PlanOpView::WriteFile { addr: addr, name: OutFileName::TagJson, content: with_nl(json) },
    ]
}

/// The steps for the child at address `[i, j]`.
pub open spec fn child_plan(i: int, j: int, c: ChildView) -> Seq<PlanOpView> {
    node_dir_ops(seq![i, j], c.json) + match c.body {
        ChildBodyView::Bytecode { init: _, code } => code_ops(seq![i, j], code),
        ChildBodyView::Leaf => seq![],
    }
}

/// The steps for the first `n` children of the composite node at index `i`,
/// in document order.
pub open spec fn children_plan(i: int, cs: Seq<ChildView>, n: int) -> Seq<PlanOpView>
    decreases n,
{
    if n <= 0 {
        seq![]
    } else {
        children_plan(i, cs, n - 1) + child_plan(i, n - 1, cs[n - 1])
    }
}

/// The steps for the root-level node at index `i`.
pub open spec fn tag_plan(i: int, t: TagView) -> Seq<PlanOpView> {
    node_dir_ops(seq![i], t.json) + match t.body {
        TagBodyView::Sprite { children } => children_plan(i, children, children.len() as int),
        TagBodyView::Bytecode { init: _, code } => code_ops(seq![i], code),
        TagBodyView::Leaf => seq![],
    }
}

/// The steps for the first `n` root-level nodes, in document order.
pub open spec fn tags_plan(ts: Seq<TagView>, n: int) -> Seq<PlanOpView>
    decreases n,
{
    if n <= 0 {
        seq![]
    } else {
        tags_plan(ts, n - 1) + tag_plan(n - 1, ts[n - 1])
    }
}

/// The step that writes the document header at the output root.
pub open spec fn header_op(d: DocumentView) -> PlanOpView {
    PlanOpView::WriteFile {
        addr: seq![],
        name: OutFileName::HeaderJson,
        content: with_nl(d.header_json),
    }
}

/// The complete dump plan of a document: the header file, then every
/// root-level node in document order, each with its directory, its own
/// encoding, its bytecode files when it bears bytecode (the decoded graph
/// only for a buffer the decoder accepts), and its children in order when
/// it is composite. The plan is a function of the document alone.
pub open spec fn plan_of(d: DocumentView) -> Seq<PlanOpView> {
    seq![header_op(d)] + tags_plan(d.tags, d.tags.len() as int)
}

pub(crate) fn copy_addr(src: &Vec<usize>) -> (r: Vec<usize>)
    ensures
        r@ == src@,
{
    let mut r: Vec<usize> = Vec::new();
    let mut i: usize = 0;
    while i < src.len()
        invariant
            i <= src.len(),
            r@ == src@.subrange(0, i as int),
        decreases src.len() - i,
    {
        r.push(src[i]);
        proof {
            assert(r@ =~= src@.subrange(0, i + 1));
        }
        i = i + 1;
    }
    proof {
        assert(r@ =~= src@);
    }
    r
}

pub(crate) fn copy_bytes(src: &Vec<u8>) -> (r: Vec<u8>)
    ensures
        r@ == src@,
{
    let mut r: Vec<u8> = Vec::new();
    let mut i: usize = 0;
    while i < src.len()
        invariant
            i <= src.len(),
            r@ == src@.subrange(0, i as int),
        decreases src.len() - i,
    {
        r.push(src[i]);
        proof {
            assert(r@ =~= src@.subrange(0, i + 1));
        }
        i = i + 1;
    }
    proof {
        assert(r@ =~= src@);
    }
    r
}

pub(crate) fn bytes_with_nl(src: &Vec<u8>) -> (r: Vec<u8>)
    ensures
        r@ == with_nl(src@),
{
    let mut r = copy_bytes(src);
    r.push(10u8);
    r
}

fn push_code_ops(ops: &mut Vec<PlanOp>, addr: &Vec<usize>, code: &Vec<u8>)
    ensures
        plan_view(final(ops)@) == plan_view(old(ops)@) + code_ops(addr_view(addr@), code@),
{
    let a0 = copy_addr(addr);
    let c0 = copy_bytes(code);
    ops.push(PlanOp::WriteFile { addr: a0, name: OutFileName::MainAvm1, content: c0 });
    if check_cfg_decodable(code) {
        let a1 = copy_addr(addr);
        let mut graph = decode_cfg_json(code);
        graph.push(10u8);
        ops.push(PlanOp::WriteFile { addr: a1, name: OutFileName::MainCfgJson, content: graph });
    }
    proof {
        assert(plan_view(ops@) =~~= plan_view(old(ops)@) + code_ops(addr_view(addr@), code@));
    }
}

fn push_node_dir_ops(ops: &mut Vec<PlanOp>, addr: &Vec<usize>, json: &Vec<u8>)
    ensures
        plan_view(final(ops)@) == plan_view(old(ops)@) + node_dir_ops(addr_view(addr@), json@),
{
    let a0 = copy_addr(addr);
    ops.push(PlanOp::MakeDir { addr: a0 });
    let a1 = copy_addr(addr);
    let content = bytes_with_nl(json);
    ops.push(PlanOp::WriteFile { addr: a1, name: OutFileName::TagJson, content });
    proof {
        assert(plan_view(ops@) =~~= plan_view(old(ops)@) + node_dir_ops(addr_view(addr@), json@));
    }
}

fn push_child_plan(ops: &mut Vec<PlanOp>, i: usize, j: usize, c: &ChildNode)
    ensures
        plan_view(final(ops)@) == plan_view(old(ops)@) + child_plan(i as int, j as int, c@),
{
    let mut addr: Vec<usize> = Vec::new();
    addr.push(i);
    addr.push(j);
    proof {
        assert(addr_view(addr@) =~= seq![i as int, j as int]);
    }
    push_node_dir_ops(ops, &addr, &c.json);
    match &c.body {
        ChildBody::Bytecode { init: _, code } => {
            push_code_ops(ops, &addr, code);
        }
        ChildBody::Leaf => {}
    }
    proof {
        assert(plan_view(ops@) =~~= plan_view(old(ops)@) + child_plan(i as int, j as int, c@));
    }
}

fn push_tag_plan(ops: &mut Vec<PlanOp>, i: usize, t: &TagNode)
    ensures
        plan_view(final(ops)@) == plan_view(old(ops)@) + tag_plan(i as int, t@),
{
    let mut addr: Vec<usize> = Vec::new();
    addr.push(i);
    proof {
        assert(addr_view(addr@) =~= seq![i as int]);
    }
    push_node_dir_ops(ops, &addr, &t.json);
    match &t.body {
        TagBody::Sprite { children } => {
            let mut j: usize = 0;
            while j < children.len()
                invariant
                    j <= children.len(),
                    plan_view(ops@) == plan_view(old(ops)@)
                        + node_dir_ops(seq![i as int], t@.json)
                        + children_plan(i as int, child_views(children@), j as int),
                decreases children.len() - j,
            {
                push_child_plan(ops, i, j, &children[j]);
                proof {
                    assert(child_views(children@)[j as int] == children@[j as int]@);
                    assert(plan_view(ops@) =~~= plan_view(old(ops)@)
                        + node_dir_ops(seq![i as int], t@.json)
                        + children_plan(i as int, child_views(children@), j + 1));
                }
                j = j + 1;
            }
            proof {
                assert(t@.body == TagBodyView::Sprite { children: child_views(children@) });
                assert(plan_view(ops@) =~~= plan_view(old(ops)@) + tag_plan(i as int, t@));
            }
        }
        TagBody::Bytecode { init: _, code } => {
            push_code_ops(ops, &addr, code);
            proof {
                assert(plan_view(ops@) =~~= plan_view(old(ops)@) + tag_plan(i as int, t@));
            }
        }
        TagBody::Leaf => {
            proof {
                assert(plan_view(ops@) =~~= plan_view(old(ops)@) + tag_plan(i as int, t@));
            }
        }
    }
}

/// Computes the complete dump plan of `doc`. The result is exactly
/// `plan_of(doc@)`: the header file at the root, then, for each node in
/// document order, its directory, its encoding, its bytecode files when it
/// bears bytecode (the decoded graph only for a buffer the decoder
/// accepts), and its children in order. Two calls on equal documents return
/// equal plans, which is what makes a dump reproducible.
pub fn dump_plan(doc: &Document) -> (r: Vec<PlanOp>)
    ensures
        plan_view(r@) == plan_of(doc@),
{
    let mut ops: Vec<PlanOp> = Vec::new();
    let content = bytes_with_nl(&doc.header_json);
    ops.push(PlanOp::WriteFile { addr: Vec::new(), name: OutFileName::HeaderJson, content });
    proof {
        assert(plan_view(ops@) =~~= seq![header_op(doc@)]);
    }
    let mut i: usize = 0;
    while i < doc.tags.len()
        invariant
            i <= doc.tags.len(),
            plan_view(ops@) == seq![header_op(doc@)]
                + tags_plan(doc@.tags, i as int),
        decreases doc.tags.len() - i,
    {
        push_tag_plan(&mut ops, i, &doc.tags[i]);
        proof {
            assert(doc@.tags[i as int] == doc.tags@[i as int]@);
            assert(plan_view(ops@) =~~= seq![header_op(doc@)] + tags_plan(doc@.tags, i + 1));
        }
        i = i + 1;
    }
    proof {
        assert(doc@.tags.len() == doc.tags@.len());
        assert(plan_view(ops@) =~~= plan_of(doc@));
    }
    ops
}

} // verus!
