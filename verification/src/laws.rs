use vstd::prelude::*;

use crate::cfg::cfg_decodable;
use crate::cfg::cfg_json_of;
use crate::document::ChildBodyView;
use crate::document::ChildView;
use crate::document::DocumentView;
use crate::document::TagBodyView;
use crate::paths::OutFileName;
use crate::plan::child_plan;
use crate::plan::children_plan;
use crate::plan::code_ops;
use crate::plan::header_op;
use crate::plan::node_dir_ops;
use crate::plan::plan_of;
use crate::plan::tag_plan;
use crate::plan::tags_plan;
use crate::plan::with_nl;
use crate::plan::PlanOpView;

verus! {

/// The children of a composite node body; no other body has children.
pub open spec fn sprite_children_of(b: TagBodyView) -> Seq<ChildView> {
    match b {
        TagBodyView::Sprite { children } => children,
        _ => seq![],
    }
}

/// The bytecode buffer of a root-level node body, when it bears one.
pub open spec fn body_code(b: TagBodyView) -> Option<Seq<u8>> {
    match b {
        TagBodyView::Bytecode { init: _, code } => Some(code),
        _ => None,
    }
}

/// The bytecode buffer of a child body, when it bears one.
pub open spec fn child_code(b: ChildBodyView) -> Option<Seq<u8>> {
    match b {
        ChildBodyView::Bytecode { init: _, code } => Some(code),
        ChildBodyView::Leaf => None,
    }
}

/// Whether `a` is the structural address of a node of `d`: one index of a
/// root-level node, or a root index of a composite node followed by the
/// index of one of its children.
pub open spec fn is_node_addr(d: DocumentView, a: Seq<int>) -> bool {
    ||| (a.len() == 1 && 0 <= a[0] < d.tags.len())
    ||| (a.len() == 2 && 0 <= a[0] < d.tags.len() && d.tags[a[0]].body is Sprite && 0 <= a[1]
        < sprite_children_of(d.tags[a[0]].body).len())
}

/// Whether the node of `d` at address `a` bears the bytecode buffer `code`.
pub open spec fn bytecode_at(d: DocumentView, a: Seq<int>, code: Seq<u8>) -> bool {
    ||| (a.len() == 1 && 0 <= a[0] < d.tags.len() && body_code(d.tags[a[0]].body) == Some(code))
    ||| (a.len() == 2 && 0 <= a[0] < d.tags.len() && d.tags[a[0]].body is Sprite && 0 <= a[1]
        < sprite_children_of(d.tags[a[0]].body).len() && child_code(
        sprite_children_of(d.tags[a[0]].body)[a[1]].body,
    ) == Some(code))
}

pub(crate) proof fn lemma_add_contains<T>(s: Seq<T>, t: Seq<T>, x: T)
    ensures
        (s + t).contains(x) <==> s.contains(x) || t.contains(x),
{
    if s.contains(x) {
        let k = choose|k: int| 0 <= k < s.len() && s[k] == x;
        assert((s + t)[k] == x);
    }
    if t.contains(x) {
        let k = choose|k: int| 0 <= k < t.len() && t[k] == x;
        assert((s + t)[s.len() + k] == x);
    }
    if (s + t).contains(x) {
        let k = choose|k: int| 0 <= k < (s + t).len() && (s + t)[k] == x;
        if k < s.len() {
            assert(s[k] == x);
        } else {
            assert(t[k - s.len()] == x);
        }
    }
}

proof fn lemma_node_dir_ops_dir(addr: Seq<int>, json: Seq<u8>, a: Seq<int>)
    ensures
        node_dir_ops(addr, json).contains(PlanOpView::MakeDir { addr: a }) <==> a == addr,
{
    let p = node_dir_ops(addr, json);
    if a == addr {
        assert(p[0] == PlanOpView::MakeDir { addr: a });
        assert(p.contains(PlanOpView::MakeDir { addr: a }));
    }
    if p.contains(PlanOpView::MakeDir { addr: a }) {
        let k = choose|k: int| 0 <= k < p.len() && p[k] == PlanOpView::MakeDir { addr: a };
        assert(k == 0 || k == 1);
        assert(p[0] == PlanOpView::MakeDir { addr: addr });
    }
}

proof fn lemma_code_ops_no_dir(addr: Seq<int>, code: Seq<u8>, a: Seq<int>)
    ensures
        !code_ops(addr, code).contains(PlanOpView::MakeDir { addr: a }),
{
    let p = code_ops(addr, code);
    if p.contains(PlanOpView::MakeDir { addr: a }) {
        let k = choose|k: int| 0 <= k < p.len() && p[k] == PlanOpView::MakeDir { addr: a };
        assert(k == 0 || k == 1);
    }
}

proof fn lemma_child_plan_dir(i: int, j: int, c: ChildView, a: Seq<int>)
    ensures
        child_plan(i, j, c).contains(PlanOpView::MakeDir { addr: a }) <==> a == seq![i, j],
{
    lemma_node_dir_ops_dir(seq![i, j], c.json, a);
    match c.body {
        ChildBodyView::Bytecode { init: _, code } => {
            lemma_code_ops_no_dir(seq![i, j], code, a);
            lemma_add_contains(
                node_dir_ops(seq![i, j], c.json),
                code_ops(seq![i, j], code),
                PlanOpView::MakeDir { addr: a },
            );
        }
        ChildBodyView::Leaf => {
            lemma_add_contains(
                node_dir_ops(seq![i, j], c.json),
                seq![],
                PlanOpView::MakeDir { addr: a },
            );
        }
    }
}

proof fn lemma_children_plan_dir(i: int, cs: Seq<ChildView>, n: int, a: Seq<int>)
    requires
        n <= cs.len(),
    ensures
        children_plan(i, cs, n).contains(PlanOpView::MakeDir { addr: a }) <==> (a.len() == 2
            && a[0] == i && 0 <= a[1] < n),
    decreases n,
{
    if n <= 0 {
    } else {
        lemma_children_plan_dir(i, cs, n - 1, a);
        lemma_child_plan_dir(i, n - 1, cs[n - 1], a);
        lemma_add_contains(
            children_plan(i, cs, n - 1),
            child_plan(i, n - 1, cs[n - 1]),
            PlanOpView::MakeDir { addr: a },
        );
        if a.len() == 2 && a[0] == i && 0 <= a[1] < n && !(a[1] < n - 1) {
            assert(a =~= seq![i, n - 1]);
        }
    }
}

proof fn lemma_tag_plan_dir(i: int, t: crate::document::TagView, a: Seq<int>)
    ensures
        tag_plan(i, t).contains(PlanOpView::MakeDir { addr: a }) <==> (a == seq![i] || (t.body
            is Sprite && a.len() == 2 && a[0] == i && 0 <= a[1] < sprite_children_of(
            t.body,
        ).len())),
{
    lemma_node_dir_ops_dir(seq![i], t.json, a);
    match t.body {
        TagBodyView::Sprite { children } => {
            lemma_children_plan_dir(i, children, children.len() as int, a);
            lemma_add_contains(
                node_dir_ops(seq![i], t.json),
                children_plan(i, children, children.len() as int),
                PlanOpView::MakeDir { addr: a },
            );
        }
        TagBodyView::Bytecode { init: _, code } => {
            lemma_code_ops_no_dir(seq![i], code, a);
            lemma_add_contains(
                node_dir_ops(seq![i], t.json),
                code_ops(seq![i], code),
                PlanOpView::MakeDir { addr: a },
            );
        }
        TagBodyView::Leaf => {
            lemma_add_contains(node_dir_ops(seq![i], t.json), seq![], PlanOpView::MakeDir { addr: a });
        }
    }
}

proof fn lemma_tags_plan_dir(ts: Seq<crate::document::TagView>, n: int, a: Seq<int>)
    requires
        n <= ts.len(),
    ensures
        tags_plan(ts, n).contains(PlanOpView::MakeDir { addr: a }) <==> ((a.len() == 1 && 0 <= a[0]
            < n) || (a.len() == 2 && 0 <= a[0] < n && ts[a[0]].body is Sprite && 0 <= a[1]
            < sprite_children_of(ts[a[0]].body).len())),
    decreases n,
{
    if n <= 0 {
    } else {
        lemma_tags_plan_dir(ts, n - 1, a);
        lemma_tag_plan_dir(n - 1, ts[n - 1], a);
        lemma_add_contains(
            tags_plan(ts, n - 1),
            tag_plan(n - 1, ts[n - 1]),
            PlanOpView::MakeDir { addr: a },
        );
        if a.len() == 1 && 0 <= a[0] < n && !(a[0] < n - 1) {
            assert(a =~= seq![n - 1]);
        }
    }
}

/// Structural isomorphism: the dump plan of a document creates a directory
/// at exactly the structural addresses of the document's nodes — one
/// directory for each root-level node, one for each child of a composite
/// root-level node, and no others.
pub proof fn lemma_structural_isomorphism(d: DocumentView, a: Seq<int>)
    ensures
        plan_of(d).contains(PlanOpView::MakeDir { addr: a }) <==> is_node_addr(d, a),
{
    lemma_tags_plan_dir(d.tags, d.tags.len() as int, a);
    lemma_add_contains(
        seq![header_op(d)],
        tags_plan(d.tags, d.tags.len() as int),
        PlanOpView::MakeDir { addr: a },
    );
    if seq![header_op(d)].contains(PlanOpView::MakeDir { addr: a }) {
        let k = choose|k: int|
            0 <= k < 1 && seq![header_op(d)][k] == PlanOpView::MakeDir { addr: a };
        assert(k == 0);
    }
}

/// Determinism: the dump plan is a function of the document alone, so
/// dumping equal documents plans byte-identical file trees. Together with
/// `dump_plan`'s contract, two runs of `dump_plan` on one document return
/// equal plans.
pub proof fn lemma_dump_deterministic(d1: DocumentView, d2: DocumentView)
    requires
        d1 == d2,
    ensures
        plan_of(d1) == plan_of(d2),
{
}

proof fn lemma_code_ops_avm1(addr: Seq<int>, code: Seq<u8>, a: Seq<int>, c: Seq<u8>)
    ensures
        code_ops(addr, code).contains(
            PlanOpView::WriteFile { addr: a, name: OutFileName::MainAvm1, content: c },
        ) <==> (a == addr && c == code),
{
    let x = PlanOpView::WriteFile { addr: a, name: OutFileName::MainAvm1, content: c };
    let p = code_ops(addr, code);
    if a == addr && c == code {
        assert(p[0] == x);
        assert(p.contains(x));
    }
    if p.contains(x) {
        let k = choose|k: int| 0 <= k < p.len() && p[k] == x;
        assert(k == 0 || k == 1);
    }
}

proof fn lemma_node_dir_ops_no_avm1(addr: Seq<int>, json: Seq<u8>, a: Seq<int>, c: Seq<u8>)
    ensures
        !node_dir_ops(addr, json).contains(
            PlanOpView::WriteFile { addr: a, name: OutFileName::MainAvm1, content: c },
        ),
{
    let x = PlanOpView::WriteFile { addr: a, name: OutFileName::MainAvm1, content: c };
    let p = node_dir_ops(addr, json);
    if p.contains(x) {
        let k = choose|k: int| 0 <= k < p.len() && p[k] == x;
        assert(k == 0 || k == 1);
    }
}

proof fn lemma_child_plan_avm1(i: int, j: int, c: ChildView, a: Seq<int>, code: Seq<u8>)
    ensures
        child_plan(i, j, c).contains(
            PlanOpView::WriteFile { addr: a, name: OutFileName::MainAvm1, content: code },
        ) <==> (a == seq![i, j] && child_code(c.body) == Some(code)),
{
    let x = PlanOpView::WriteFile { addr: a, name: OutFileName::MainAvm1, content: code };
    lemma_node_dir_ops_no_avm1(seq![i, j], c.json, a, code);
    match c.body {
        ChildBodyView::Bytecode { init: _, code: cc } => {
            lemma_code_ops_avm1(seq![i, j], cc, a, code);
            lemma_add_contains(node_dir_ops(seq![i, j], c.json), code_ops(seq![i, j], cc), x);
        }
        ChildBodyView::Leaf => {
            lemma_add_contains(node_dir_ops(seq![i, j], c.json), seq![], x);
        }
    }
}

proof fn lemma_children_plan_avm1(i: int, cs: Seq<ChildView>, n: int, a: Seq<int>, code: Seq<u8>)
    requires
        n <= cs.len(),
    ensures
        children_plan(i, cs, n).contains(
            PlanOpView::WriteFile { addr: a, name: OutFileName::MainAvm1, content: code },
        ) <==> (a.len() == 2 && a[0] == i && 0 <= a[1] < n && child_code(cs[a[1]].body) == Some(
            code,
        )),
    decreases n,
{
    let x = PlanOpView::WriteFile { addr: a, name: OutFileName::MainAvm1, content: code };
    if n <= 0 {
    } else {
        lemma_children_plan_avm1(i, cs, n - 1, a, code);
        lemma_child_plan_avm1(i, n - 1, cs[n - 1], a, code);
        lemma_add_contains(children_plan(i, cs, n - 1), child_plan(i, n - 1, cs[n - 1]), x);
        if a.len() == 2 && a[0] == i && 0 <= a[1] < n && !(a[1] < n - 1) {
            assert(a =~= seq![i, n - 1]);
        }
        if a == seq![i, n - 1] {
            assert(a[1] == n - 1);
        }
    }
}

proof fn lemma_tag_plan_avm1(i: int, t: crate::document::TagView, a: Seq<int>, code: Seq<u8>)
    ensures
        tag_plan(i, t).contains(
            PlanOpView::WriteFile { addr: a, name: OutFileName::MainAvm1, content: code },
        ) <==> ((a == seq![i] && body_code(t.body) == Some(code)) || (t.body is Sprite && a.len()
            == 2 && a[0] == i && 0 <= a[1] < sprite_children_of(t.body).len() && child_code(
            sprite_children_of(t.body)[a[1]].body,
        ) == Some(code))),
{
    let x = PlanOpView::WriteFile { addr: a, name: OutFileName::MainAvm1, content: code };
    lemma_node_dir_ops_no_avm1(seq![i], t.json, a, code);
    match t.body {
        TagBodyView::Sprite { children } => {
            lemma_children_plan_avm1(i, children, children.len() as int, a, code);
            lemma_add_contains(
                node_dir_ops(seq![i], t.json),
                children_plan(i, children, children.len() as int),
                x,
            );
        }
        TagBodyView::Bytecode { init: _, code: cc } => {
            lemma_code_ops_avm1(seq![i], cc, a, code);
            lemma_add_contains(node_dir_ops(seq![i], t.json), code_ops(seq![i], cc), x);
        }
        TagBodyView::Leaf => {
            lemma_add_contains(node_dir_ops(seq![i], t.json), seq![], x);
        }
    }
}

proof fn lemma_tags_plan_avm1(ts: Seq<crate::document::TagView>, n: int, a: Seq<int>, code: Seq<u8>)
    requires
        n <= ts.len(),
    ensures
        tags_plan(ts, n).contains(
            PlanOpView::WriteFile { addr: a, name: OutFileName::MainAvm1, content: code },
        ) <==> ((a.len() == 1 && 0 <= a[0] < n && body_code(ts[a[0]].body) == Some(code)) || (
        a.len() == 2 && 0 <= a[0] < n && ts[a[0]].body is Sprite && 0 <= a[1]
            < sprite_children_of(ts[a[0]].body).len() && child_code(
            sprite_children_of(ts[a[0]].body)[a[1]].body,
        ) == Some(code))),
    decreases n,
{
    let x = PlanOpView::WriteFile { addr: a, name: OutFileName::MainAvm1, content: code };
    if n <= 0 {
    } else {
        lemma_tags_plan_avm1(ts, n - 1, a, code);
        lemma_tag_plan_avm1(n - 1, ts[n - 1], a, code);
        lemma_add_contains(tags_plan(ts, n - 1), tag_plan(n - 1, ts[n - 1]), x);
        if a.len() == 1 && 0 <= a[0] < n && !(a[0] < n - 1) {
            assert(a =~= seq![n - 1]);
        }
        if a == seq![n - 1] {
            assert(a[0] == n - 1);
        }
    }
}

/// The raw-bytecode files of the dump plan, characterized exactly: the plan
/// writes the buffer `code` verbatim at address `a` if and only if the node
/// of the document at `a` bears that buffer.
pub proof fn lemma_avm1_files(d: DocumentView, a: Seq<int>, code: Seq<u8>)
    ensures
        plan_of(d).contains(
            PlanOpView::WriteFile { addr: a, name: OutFileName::MainAvm1, content: code },
        ) <==> bytecode_at(d, a, code),
{
    let x = PlanOpView::WriteFile { addr: a, name: OutFileName::MainAvm1, content: code };
    lemma_tags_plan_avm1(d.tags, d.tags.len() as int, a, code);
    lemma_add_contains(seq![header_op(d)], tags_plan(d.tags, d.tags.len() as int), x);
    if seq![header_op(d)].contains(x) {
        let k = choose|k: int| 0 <= k < 1 && seq![header_op(d)][k] == x;
        assert(k == 0);
    }
}

proof fn lemma_code_ops_cfg(addr: Seq<int>, code: Seq<u8>)
    requires
        cfg_decodable(code),
    ensures
        code_ops(addr, code).contains(
            PlanOpView::WriteFile {
                addr: addr,
                name: OutFileName::MainCfgJson,
                content: with_nl(cfg_json_of(code)),
            },
        ),
{
    let x = PlanOpView::WriteFile {
        addr: addr,
        name: OutFileName::MainCfgJson,
        content: with_nl(cfg_json_of(code)),
    };
    assert(code_ops(addr, code)[1] == x);
    assert(code_ops(addr, code).contains(x));
}

proof fn lemma_contains_add_left<T>(s: Seq<T>, t: Seq<T>, x: T)
    requires
        s.contains(x) || t.contains(x),
    ensures
        (s + t).contains(x),
{
    lemma_add_contains(s, t, x);
}

proof fn lemma_children_plan_cfg(i: int, cs: Seq<ChildView>, n: int, j: int, code: Seq<u8>)
    requires
        0 <= j < n <= cs.len(),
        child_code(cs[j].body) == Some(code),
        cfg_decodable(code),
    ensures
        children_plan(i, cs, n).contains(
            PlanOpView::WriteFile {
                addr: seq![i, j],
                name: OutFileName::MainCfgJson,
                content: with_nl(cfg_json_of(code)),
            },
        ),
    decreases n,
{
    let x = PlanOpView::WriteFile {
        addr: seq![i, j],
        name: OutFileName::MainCfgJson,
        content: with_nl(cfg_json_of(code)),
    };
    if j < n - 1 {
        lemma_children_plan_cfg(i, cs, n - 1, j, code);
        lemma_contains_add_left(children_plan(i, cs, n - 1), child_plan(i, n - 1, cs[n - 1]), x);
    } else {
        match cs[j].body {
            ChildBodyView::Bytecode { init: _, code: cc } => {
                lemma_code_ops_cfg(seq![i, j], cc);
                lemma_contains_add_left(
                    node_dir_ops(seq![i, j], cs[j].json),
                    code_ops(seq![i, j], cc),
                    x,
                );
                lemma_contains_add_left(children_plan(i, cs, n - 1), child_plan(i, j, cs[j]), x);
            }
            ChildBodyView::Leaf => {
                assert(false);
            }
        }
    }
}

proof fn lemma_tags_plan_cfg(
    ts: Seq<crate::document::TagView>,
    n: int,
    a: Seq<int>,
    code: Seq<u8>,
)
    requires
        n <= ts.len(),
        cfg_decodable(code),
        (a.len() == 1 && 0 <= a[0] < n && body_code(ts[a[0]].body) == Some(code)) || (a.len() == 2
            && 0 <= a[0] < n && ts[a[0]].body is Sprite && 0 <= a[1] < sprite_children_of(
            ts[a[0]].body,
        ).len() && child_code(sprite_children_of(ts[a[0]].body)[a[1]].body) == Some(code)),
    ensures
        tags_plan(ts, n).contains(
            PlanOpView::WriteFile {
                addr: a,
                name: OutFileName::MainCfgJson,
                content: with_nl(cfg_json_of(code)),
            },
        ),
    decreases n,
{
    let x = PlanOpView::WriteFile {
        addr: a,
        name: OutFileName::MainCfgJson,
        content: with_nl(cfg_json_of(code)),
    };
    if a[0] < n - 1 {
        lemma_tags_plan_cfg(ts, n - 1, a, code);
        lemma_contains_add_left(tags_plan(ts, n - 1), tag_plan(n - 1, ts[n - 1]), x);
    } else {
        let i = n - 1;
        assert(a[0] == i);
        let t = ts[i];
        if a.len() == 1 {
            assert(a =~= seq![i]);
            match t.body {
                TagBodyView::Bytecode { init: _, code: cc } => {
                    lemma_code_ops_cfg(seq![i], cc);
                    lemma_contains_add_left(node_dir_ops(seq![i], t.json), code_ops(seq![i], cc), x);
                }
                _ => {
                    assert(false);
                }
            }
        } else {
            match t.body {
                TagBodyView::Sprite { children } => {
                    lemma_children_plan_cfg(i, children, children.len() as int, a[1], code);
                    assert(a =~= seq![i, a[1]]);
                    lemma_contains_add_left(
                        node_dir_ops(seq![i], t.json),
                        children_plan(i, children, children.len() as int),
                        x,
                    );
                }
                _ => {
                    assert(false);
                }
            }
        }
        lemma_contains_add_left(tags_plan(ts, n - 1), tag_plan(i, t), x);
    }
}

/// Bytecode round-trip: wherever the dump plan writes a raw bytecode file
/// whose buffer the decoder accepts, it also writes, beside it, the decoded
/// control-flow graph of exactly those bytes. So the bytes of the raw file
/// decode and pretty-print to the content of the graph file (with its
/// trailing newline). Buffers the decoder would abort on are left out: they
/// keep their raw file and get no graph file.
pub proof fn lemma_bytecode_round_trip(d: DocumentView, a: Seq<int>, code: Seq<u8>)
    requires
        cfg_decodable(code),
    ensures
        plan_of(d).contains(
            PlanOpView::WriteFile { addr: a, name: OutFileName::MainAvm1, content: code },
        ) ==> plan_of(d).contains(
            PlanOpView::WriteFile {
                addr: a,
                name: OutFileName::MainCfgJson,
                content: with_nl(cfg_json_of(code)),
            },
        ),
{
    let x = PlanOpView::WriteFile {
        addr: a,
        name: OutFileName::MainCfgJson,
        content: with_nl(cfg_json_of(code)),
    };
    lemma_avm1_files(d, a, code);
    if bytecode_at(d, a, code) {
        lemma_tags_plan_cfg(d.tags, d.tags.len() as int, a, code);
        lemma_contains_add_left(seq![header_op(d)], tags_plan(d.tags, d.tags.len() as int), x);
    }
}


/// Whether the directory of `addr` is ready when step `k` of `p` runs: the
/// output root always is, and any other directory must have been created by
/// an earlier step.
pub open spec fn dir_ready_before(p: Seq<PlanOpView>, k: int, addr: Seq<int>) -> bool {
    addr.len() == 0 || exists|k2: int| 0 <= k2 < k && p[k2] == PlanOpView::MakeDir { addr: addr }
}

/// Whether step `k` of `p` can run after the steps before it: a file is only
/// written into a directory that is ready, and a directory is only created
/// directly under the root or under a directory that is ready.
pub open spec fn op_ok_at(p: Seq<PlanOpView>, k: int) -> bool {
    match p[k] {
        PlanOpView::MakeDir { addr } => addr.len() == 1 || (addr.len() == 2 && dir_ready_before(
            p,
            k,
            addr.subrange(0, 1),
        )),
        PlanOpView::WriteFile { addr, name: _, content: _ } => dir_ready_before(p, k, addr),
    }
}

proof fn lemma_ok_extend_right(a: Seq<PlanOpView>, b: Seq<PlanOpView>, k: int)
    requires
        0 <= k < a.len(),
        op_ok_at(a, k),
    ensures
        op_ok_at(a + b, k),
{
    assert((a + b)[k] == a[k]);
    match a[k] {
        PlanOpView::MakeDir { addr } => {
            if addr.len() == 2 {
                let k2 = choose|k2: int|
                    0 <= k2 < k && a[k2] == PlanOpView::MakeDir { addr: addr.subrange(0, 1) };
                assert((a + b)[k2] == a[k2]);
            }
        }
        PlanOpView::WriteFile { addr, name: _, content: _ } => {
            if addr.len() > 0 {
                let k2 = choose|k2: int| 0 <= k2 < k && a[k2] == PlanOpView::MakeDir { addr: addr };
                assert((a + b)[k2] == a[k2]);
            }
        }
    }
}

proof fn lemma_ok_embed(a: Seq<PlanOpView>, b: Seq<PlanOpView>, k: int)
    requires
        0 <= k < b.len(),
        op_ok_at(b, k),
    ensures
        op_ok_at(a + b, a.len() + k),
{
    assert((a + b)[a.len() + k] == b[k]);
    match b[k] {
        PlanOpView::MakeDir { addr } => {
            if addr.len() == 2 && dir_ready_before(b, k, addr.subrange(0, 1)) {
                let k2 = choose|k2: int|
                    0 <= k2 < k && b[k2] == PlanOpView::MakeDir { addr: addr.subrange(0, 1) };
                assert((a + b)[a.len() + k2] == b[k2]);
            }
        }
        PlanOpView::WriteFile { addr, name: _, content: _ } => {
            if addr.len() > 0 {
                let k2 = choose|k2: int| 0 <= k2 < k && b[k2] == PlanOpView::MakeDir { addr: addr };
                assert((a + b)[a.len() + k2] == b[k2]);
            }
        }
    }
}

proof fn lemma_sprite_ok(i: int, json: Seq<u8>, cs: Seq<ChildView>, n: int)
    requires
        n <= cs.len(),
    ensures
        forall|k: int|
            0 <= k < (node_dir_ops(seq![i], json) + children_plan(i, cs, n)).len()
                ==> #[trigger] op_ok_at(node_dir_ops(seq![i], json) + children_plan(i, cs, n), k),
    decreases n,
{
    let hd = node_dir_ops(seq![i], json);
    let p = hd + children_plan(i, cs, n);
    if n <= 0 {
        assert forall|k: int| 0 <= k < p.len() implies #[trigger] op_ok_at(p, k) by {
            assert(p.len() == 2);
            assert(p[0] == hd[0]);
            assert(p[1] == hd[1]);
            if k == 1 {
                assert(p[0] == PlanOpView::MakeDir { addr: seq![i] });
            }
        }
    } else {
        lemma_sprite_ok(i, json, cs, n - 1);
        let p1 = hd + children_plan(i, cs, n - 1);
        let cp = child_plan(i, n - 1, cs[n - 1]);
        assert(children_plan(i, cs, n) == children_plan(i, cs, n - 1) + cp);
        assert(p =~= p1 + cp);
        assert forall|k: int| 0 <= k < p.len() implies #[trigger] op_ok_at(p, k) by {
            if k < p1.len() {
                assert(op_ok_at(p1, k));
                lemma_ok_extend_right(p1, cp, k);
            } else {
                let rel = k - p1.len();
                assert(p[k] == cp[rel]);
                if rel == 0 {
                    assert(cp[0] == PlanOpView::MakeDir { addr: seq![i, n - 1] });
                    assert(seq![i, n - 1].subrange(0, 1) =~= seq![i]);
                    assert(p[0] == p1[0]);
                    assert(p[0] == PlanOpView::MakeDir { addr: seq![i] });
                } else {
                    assert(p[p1.len() as int] == cp[0]);
                    assert(cp[0] == PlanOpView::MakeDir { addr: seq![i, n - 1] });
                    match cs[n - 1].body {
                        ChildBodyView::Bytecode { init: _, code } => {
                            assert(cp.len() == if cfg_decodable(code) { 4int } else { 3 });
                            if rel == 1 {
                                assert(cp[1] == PlanOpView::WriteFile {
                                    addr: seq![i, n - 1],
                                    name: OutFileName::TagJson,
                                    content: with_nl(cs[n - 1].json),
                                });
                            } else if rel == 2 {
                                assert(cp[2] == code_ops(seq![i, n - 1], code)[0]);
                                assert(cp[2] == PlanOpView::WriteFile {
                                    addr: seq![i, n - 1],
                                    name: OutFileName::MainAvm1,
                                    content: code,
                                });
                            } else {
                                assert(cfg_decodable(code));
                                assert(cp[3] == code_ops(seq![i, n - 1], code)[1]);
                                assert(cp[3] == PlanOpView::WriteFile {
                                    addr: seq![i, n - 1],
                                    name: OutFileName::MainCfgJson,
                                    content: with_nl(cfg_json_of(code)),
                                });
                            }
                        }
                        ChildBodyView::Leaf => {
                            assert(cp.len() == 2);
                            assert(cp[1] == PlanOpView::WriteFile {
                                addr: seq![i, n - 1],
                                name: OutFileName::TagJson,
                                content: with_nl(cs[n - 1].json),
                            });
                        }
                    }
                }
            }
        }
    }
}

proof fn lemma_tag_plan_ok(i: int, t: crate::document::TagView)
    ensures
        forall|k: int|
            0 <= k < tag_plan(i, t).len() ==> #[trigger] op_ok_at(tag_plan(i, t), k),
{
    let hd = node_dir_ops(seq![i], t.json);
    let p = tag_plan(i, t);
    match t.body {
        TagBodyView::Sprite { children } => {
            lemma_sprite_ok(i, t.json, children, children.len() as int);
        }
        TagBodyView::Bytecode { init: _, code } => {
            assert forall|k: int| 0 <= k < p.len() implies #[trigger] op_ok_at(p, k) by {
                assert(p.len() == if cfg_decodable(code) { 4int } else { 3 });
                assert(p[0] == hd[0]);
                assert(p[0] == PlanOpView::MakeDir { addr: seq![i] });
                if k == 1 {
                    assert(p[1] == hd[1]);
                } else if k == 2 {
                    assert(p[2] == code_ops(seq![i], code)[0]);
                } else if k == 3 {
                    assert(cfg_decodable(code));
                    assert(p[3] == code_ops(seq![i], code)[1]);
                }
            }
        }
        TagBodyView::Leaf => {
            assert forall|k: int| 0 <= k < p.len() implies #[trigger] op_ok_at(p, k) by {
                assert(p.len() == 2);
                assert(p[0] == hd[0]);
                assert(p[0] == PlanOpView::MakeDir { addr: seq![i] });
                if k == 1 {
                    assert(p[1] == hd[1]);
                }
            }
        }
    }
}

proof fn lemma_tags_plan_ok(ts: Seq<crate::document::TagView>, n: int)
    requires
        n <= ts.len(),
    ensures
        forall|k: int|
            0 <= k < tags_plan(ts, n).len() ==> #[trigger] op_ok_at(tags_plan(ts, n), k),
    decreases n,
{
    if n <= 0 {
    } else {
        lemma_tags_plan_ok(ts, n - 1);
        lemma_tag_plan_ok(n - 1, ts[n - 1]);
        let prev = tags_plan(ts, n - 1);
        let last = tag_plan(n - 1, ts[n - 1]);
        assert forall|k: int|
            0 <= k < tags_plan(ts, n).len() implies #[trigger] op_ok_at(tags_plan(ts, n), k) by {
            if k < prev.len() {
                lemma_ok_extend_right(prev, last, k);
            } else {
                lemma_ok_embed(prev, last, k - prev.len());
            }
        }
    }
}

/// The dump plan applies cleanly in order: its first step writes the header
/// at the output root, every other file is written into a directory an
/// earlier step created, and a child's directory is only created after its
/// parent's. So a boundary that performs the steps one by one, top to
/// bottom, never touches a path whose directory is missing.
pub proof fn lemma_plan_applies_in_order(d: DocumentView)
    ensures
        forall|k: int|
            0 <= k < plan_of(d).len() ==> #[trigger] op_ok_at(plan_of(d), k),
{
    lemma_tags_plan_ok(d.tags, d.tags.len() as int);
    let hd = seq![header_op(d)];
    let rest = tags_plan(d.tags, d.tags.len() as int);
    assert forall|k: int| 0 <= k < plan_of(d).len() implies #[trigger] op_ok_at(plan_of(d), k) by {
        if k == 0 {
            assert(plan_of(d)[0] == header_op(d));
        } else {
            lemma_ok_embed(hd, rest, k - 1);
        }
    }
}

} // verus!
