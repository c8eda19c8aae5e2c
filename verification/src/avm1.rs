use vstd::prelude::*;

use crate::document::child_views;
use crate::document::ChildBody;
use crate::document::ChildBodyView;
use crate::document::ChildView;
use crate::document::Document;
use crate::document::DocumentView;
use crate::document::TagBody;
use crate::document::TagBodyView;
use crate::document::TagView;
use crate::plan::copy_bytes;

verus! {

/// Where one bytecode buffer was found: at a root-level node, or inside a
/// composite root-level node, each as an ordinary or an initialization
/// action. Indices are zero-based document order, so equal locations name
/// the same traversal path.
#[derive(Clone, Copy, Debug, Hash, PartialEq, Eq, Structural)]
pub enum Avm1Location {
    RootDoAction { tag_index: usize },
    RootDoInitAction { tag_index: usize },
    SpriteDoAction { tag_index: usize, sprite_tag_index: usize },
    SpriteDoInitAction { tag_index: usize, sprite_tag_index: usize },
}

/// The location of a root-level buffer at index `i`.
pub open spec fn root_loc(init: bool, i: int) -> Avm1Location {
    if init {
        Avm1Location::RootDoInitAction { tag_index: i as usize }
    } else {
        Avm1Location::RootDoAction { tag_index: i as usize }
    }
}

/// The location of a buffer at child index `j` of the composite node at `i`.
pub open spec fn sprite_loc(init: bool, i: int, j: int) -> Avm1Location {
    if init {
        Avm1Location::SpriteDoInitAction { tag_index: i as usize, sprite_tag_index: j as usize }
    } else {
        Avm1Location::SpriteDoAction { tag_index: i as usize, sprite_tag_index: j as usize }
    }
}

/// The buffer entry of the child at `[i, j]`, when it bears bytecode.
pub open spec fn child_avm1(i: int, j: int, c: ChildView) -> Seq<(Avm1Location, Seq<u8>)> {
    match c.body {
        ChildBodyView::Bytecode { init, code } => seq![(sprite_loc(init, i, j), code)],
        ChildBodyView::Leaf => seq![],
    }
}

/// The buffer entries of the first `n` children of the composite node at
/// `i`, in document order.
pub open spec fn children_avm1(i: int, cs: Seq<ChildView>, n: int) -> Seq<(Avm1Location, Seq<u8>)>
    decreases n,
{
    if n <= 0 {
        seq![]
    } else {
        children_avm1(i, cs, n - 1) + child_avm1(i, n - 1, cs[n - 1])
    }
}

/// The buffer entries contributed by the root-level node at index `i`.
pub open spec fn tag_avm1(i: int, t: TagView) -> Seq<(Avm1Location, Seq<u8>)> {
    match t.body {
        TagBodyView::Sprite { children } => children_avm1(i, children, children.len() as int),
        TagBodyView::Bytecode { init, code } => seq![(root_loc(init, i), code)],
        TagBodyView::Leaf => seq![],
    }
}

/// The buffer entries of the first `n` root-level nodes, in document order.
pub open spec fn tags_avm1(ts: Seq<TagView>, n: int) -> Seq<(Avm1Location, Seq<u8>)>
    decreases n,
{
    if n <= 0 {
        seq![]
    } else {
        tags_avm1(ts, n - 1) + tag_avm1(n - 1, ts[n - 1])
    }
}

/// Every bytecode buffer of a document with the location it was found at,
/// in document order.
pub open spec fn avm1_seq(d: DocumentView) -> Seq<(Avm1Location, Seq<u8>)> {
    tags_avm1(d.tags, d.tags.len() as int)
}

/// The views of a sequence of located buffers.
pub open spec fn pairs_view(ps: Seq<(Avm1Location, Vec<u8>)>) -> Seq<(Avm1Location, Seq<u8>)> {
    ps.map_values(|p: (Avm1Location, Vec<u8>)| (p.0, p.1@))
}

/// Collects every bytecode buffer of the document together with the location
/// it was found at: each root-level bytecode-bearing node, and each
/// bytecode-bearing child of each composite root-level node, in document
/// order. A document without bytecode yields the empty collection.
pub fn find_avm1(doc: &Document) -> (r: Vec<(Avm1Location, Vec<u8>)>)
    ensures
        pairs_view(r@) == avm1_seq(doc@),
{
    let mut r: Vec<(Avm1Location, Vec<u8>)> = Vec::new();
    proof {
        assert(pairs_view(r@) =~= tags_avm1(doc@.tags, 0));
    }
    let mut i: usize = 0;
    while i < doc.tags.len()
        invariant
            i <= doc.tags.len(),
            pairs_view(r@) == tags_avm1(doc@.tags, i as int),
        decreases doc.tags.len() - i,
    {
        let t = &doc.tags[i];
        proof {
            assert(doc@.tags[i as int] == doc.tags@[i as int]@);
        }
        match &t.body {
            TagBody::Sprite { children } => {
                let mut j: usize = 0;
                while j < children.len()
                    invariant
                        j <= children.len(),
                        i < doc.tags@.len(),
                        pairs_view(r@) == tags_avm1(doc@.tags, i as int) + children_avm1(
                            i as int,
                            child_views(children@),
                            j as int,
                        ),
                    decreases children.len() - j,
                {
                    let c = &children[j];
                    proof {
                        assert(child_views(children@)[j as int] == children@[j as int]@);
                    }
                    match &c.body {
                        ChildBody::Bytecode { init, code } => {
                            let loc = if *init {
                                Avm1Location::SpriteDoInitAction {
                                    tag_index: i,
                                    sprite_tag_index: j,
                                }
                            } else {
                                Avm1Location::SpriteDoAction { tag_index: i, sprite_tag_index: j }
                            };
                            let buf = copy_bytes(code);
                            let ghost r0 = r@;
                            proof {
                                assert(c@.body == ChildBodyView::Bytecode {
                                    init: *init,
                                    code: code@,
                                });
                                assert(loc == sprite_loc(*init, i as int, j as int));
                                assert(child_avm1(i as int, j as int, child_views(children@)[j as int])
                                    =~= seq![(loc, code@)]);
                            }
                            r.push((loc, buf));
                            proof {
                                assert(pairs_view(r@) =~= pairs_view(r0) + seq![(loc, code@)]);
                            }
                        }
                        ChildBody::Leaf => {
                            proof {
                                assert(child_avm1(i as int, j as int, child_views(children@)[j as int])
                                    =~= Seq::<(Avm1Location, Seq<u8>)>::empty());
                            }
                        }
                    }
                    proof {
                        assert(children_avm1(i as int, child_views(children@), j + 1)
                            == children_avm1(i as int, child_views(children@), j as int)
                            + child_avm1(i as int, j as int, child_views(children@)[j as int]));
                        assert(pairs_view(r@) =~= tags_avm1(doc@.tags, i as int)
                            + children_avm1(i as int, child_views(children@), j + 1));
                    }
                    j = j + 1;
                }
                proof {
                    assert(t@.body == TagBodyView::Sprite { children: child_views(children@) });
                    assert(tags_avm1(doc@.tags, i + 1) == tags_avm1(doc@.tags, i as int)
                        + tag_avm1(i as int, doc@.tags[i as int]));
                    assert(pairs_view(r@) =~= tags_avm1(doc@.tags, i + 1));
                }
            }
            TagBody::Bytecode { init, code } => {
                let loc = if *init {
                    Avm1Location::RootDoInitAction { tag_index: i }
                } else {
                    Avm1Location::RootDoAction { tag_index: i }
                };
                let buf = copy_bytes(code);
                let ghost r0 = r@;
                proof {
                    assert(t@.body == TagBodyView::Bytecode { init: *init, code: code@ });
                    assert(loc == root_loc(*init, i as int));
                    assert(tag_avm1(i as int, doc@.tags[i as int]) =~= seq![(loc, code@)]);
                }
                r.push((loc, buf));
                proof {
                    assert(pairs_view(r@) =~= pairs_view(r0) + seq![(loc, code@)]);
                    assert(tags_avm1(doc@.tags, i + 1) == tags_avm1(doc@.tags, i as int)
                        + tag_avm1(i as int, doc@.tags[i as int]));
                    assert(pairs_view(r@) =~= tags_avm1(doc@.tags, i + 1));
                }
            }
            TagBody::Leaf => {
                proof {
                    assert(tag_avm1(i as int, doc@.tags[i as int])
                        =~= Seq::<(Avm1Location, Seq<u8>)>::empty());
                    assert(tags_avm1(doc@.tags, i + 1) == tags_avm1(doc@.tags, i as int)
                        + tag_avm1(i as int, doc@.tags[i as int]));
                    assert(pairs_view(r@) =~= tags_avm1(doc@.tags, i + 1));
                }
            }
        }
        i = i + 1;
    }
    proof {
        assert(pairs_view(r@) =~= avm1_seq(doc@));
    }
    r
}


/// The root-level index a location names.
pub open spec fn loc_root_index(l: Avm1Location) -> int {
    match l {
        Avm1Location::RootDoAction { tag_index } => tag_index as int,
        Avm1Location::RootDoInitAction { tag_index } => tag_index as int,
        Avm1Location::SpriteDoAction { tag_index, sprite_tag_index: _ } => tag_index as int,
        Avm1Location::SpriteDoInitAction { tag_index, sprite_tag_index: _ } => tag_index as int,
    }
}

/// The child index a location names inside its composite node, or -1 for a
/// root-level location.
pub open spec fn loc_child_index(l: Avm1Location) -> int {
    match l {
        Avm1Location::SpriteDoAction { tag_index: _, sprite_tag_index } => sprite_tag_index as int,
        Avm1Location::SpriteDoInitAction { tag_index: _, sprite_tag_index } => sprite_tag_index as int,
        _ => -1,
    }
}

proof fn lemma_children_avm1_distinct(i: int, cs: Seq<ChildView>, n: int)
    requires
        0 <= i <= usize::MAX as int,
        n <= usize::MAX as int,
    ensures
        forall|k: int|
            0 <= k < children_avm1(i, cs, n).len() ==> loc_root_index(
                (#[trigger] children_avm1(i, cs, n)[k]).0,
            ) == i && 0 <= loc_child_index(children_avm1(i, cs, n)[k].0) < n,
        forall|k1: int, k2: int|
            0 <= k1 < k2 < children_avm1(i, cs, n).len() ==> loc_child_index(
                (#[trigger] children_avm1(i, cs, n)[k1]).0,
            ) < loc_child_index((#[trigger] children_avm1(i, cs, n)[k2]).0),
    decreases n,
{
    if n <= 0 {
    } else {
        lemma_children_avm1_distinct(i, cs, n - 1);
        let prev = children_avm1(i, cs, n - 1);
        let last = child_avm1(i, n - 1, cs[n - 1]);
        assert forall|k: int| 0 <= k < last.len() implies loc_root_index(last[k].0) == i
            && loc_child_index(last[k].0) == n - 1 by {
            match cs[n - 1].body {
                ChildBodyView::Bytecode { init, code: _ } => {
                    assert(last[0].0 == sprite_loc(init, i, n - 1));
                }
                ChildBodyView::Leaf => {}
            }
        }
        assert forall|k: int| 0 <= k < children_avm1(i, cs, n).len() implies loc_root_index(
            (#[trigger] children_avm1(i, cs, n)[k]).0,
        ) == i && 0 <= loc_child_index(children_avm1(i, cs, n)[k].0) < n by {
            if k < prev.len() {
                assert(children_avm1(i, cs, n)[k] == prev[k]);
            } else {
                assert(children_avm1(i, cs, n)[k] == last[k - prev.len()]);
            }
        }
        assert forall|k1: int, k2: int|
            0 <= k1 < k2 < children_avm1(i, cs, n).len() implies loc_child_index(
            (#[trigger] children_avm1(i, cs, n)[k1]).0,
        ) < loc_child_index((#[trigger] children_avm1(i, cs, n)[k2]).0) by {
            if k2 < prev.len() {
                assert(children_avm1(i, cs, n)[k1] == prev[k1]);
                assert(children_avm1(i, cs, n)[k2] == prev[k2]);
            } else {
                assert(children_avm1(i, cs, n)[k2] == last[k2 - prev.len()]);
                if k1 < prev.len() {
                    assert(children_avm1(i, cs, n)[k1] == prev[k1]);
                } else {
                    assert(children_avm1(i, cs, n)[k1] == last[k1 - prev.len()]);
                }
            }
        }
    }
}

proof fn lemma_tags_avm1_distinct(ts: Seq<TagView>, n: int)
    requires
        n <= usize::MAX as int,
        forall|k: int|
            0 <= k < n ==> crate::laws::sprite_children_of(#[trigger] ts[k].body).len()
                <= usize::MAX as int,
    ensures
        forall|k: int|
            0 <= k < tags_avm1(ts, n).len() ==> 0 <= loc_root_index(
                (#[trigger] tags_avm1(ts, n)[k]).0,
            ) < n,
        forall|k1: int, k2: int|
            0 <= k1 < k2 < tags_avm1(ts, n).len() ==> (#[trigger] tags_avm1(ts, n)[k1]).0 != (
            #[trigger] tags_avm1(ts, n)[k2]).0,
    decreases n,
{
    if n <= 0 {
    } else {
        lemma_tags_avm1_distinct(ts, n - 1);
        let prev = tags_avm1(ts, n - 1);
        let last = tag_avm1(n - 1, ts[n - 1]);
        match ts[n - 1].body {
            TagBodyView::Sprite { children } => {
                assert(crate::laws::sprite_children_of(ts[n - 1].body) == children);
                lemma_children_avm1_distinct(n - 1, children, children.len() as int);
            }
            TagBodyView::Bytecode { init, code: _ } => {
                assert(last[0].0 == root_loc(init, n - 1));
            }
            TagBodyView::Leaf => {}
        }
        assert forall|k: int| 0 <= k < last.len() implies loc_root_index(last[k].0) == n - 1 by {
            match ts[n - 1].body {
                TagBodyView::Sprite { children } => {
                    assert(last == children_avm1(n - 1, children, children.len() as int));
                }
                TagBodyView::Bytecode { init, code: _ } => {}
                TagBodyView::Leaf => {}
            }
        }
        assert forall|k1: int, k2: int| 0 <= k1 < k2 < last.len() implies last[k1].0
            != last[k2].0 by {
            match ts[n - 1].body {
                TagBodyView::Sprite { children } => {
                    assert(last == children_avm1(n - 1, children, children.len() as int));
                    assert(loc_child_index(last[k1].0) < loc_child_index(last[k2].0));
                }
                TagBodyView::Bytecode { init, code: _ } => {}
                TagBodyView::Leaf => {}
            }
        }
        assert forall|k: int| 0 <= k < tags_avm1(ts, n).len() implies 0 <= loc_root_index(
            (#[trigger] tags_avm1(ts, n)[k]).0,
        ) < n by {
            if k < prev.len() {
                assert(tags_avm1(ts, n)[k] == prev[k]);
            } else {
                assert(tags_avm1(ts, n)[k] == last[k - prev.len()]);
            }
        }
        assert forall|k1: int, k2: int|
            0 <= k1 < k2 < tags_avm1(ts, n).len() implies (#[trigger] tags_avm1(ts, n)[k1]).0 != (
        #[trigger] tags_avm1(ts, n)[k2]).0 by {
            if k2 < prev.len() {
                assert(tags_avm1(ts, n)[k1] == prev[k1]);
                assert(tags_avm1(ts, n)[k2] == prev[k2]);
            } else {
                assert(tags_avm1(ts, n)[k2] == last[k2 - prev.len()]);
                if k1 < prev.len() {
                    assert(tags_avm1(ts, n)[k1] == prev[k1]);
                    assert(loc_root_index(tags_avm1(ts, n)[k1].0) < n - 1);
                } else {
                    assert(tags_avm1(ts, n)[k1] == last[k1 - prev.len()]);
                }
            }
        }
    }
}

/// No structural position is recorded twice: the locations that `find_avm1`
/// collects are pairwise distinct, because every index is derived from a
/// node's position in its array. So the location-to-buffer mapping never
/// overwrites an entry within one run.
pub proof fn lemma_avm1_locations_unique(d: DocumentView)
    requires
        d.tags.len() <= usize::MAX as int,
        forall|k: int|
            0 <= k < d.tags.len() ==> crate::laws::sprite_children_of(#[trigger] d.tags[k].body).len()
                <= usize::MAX as int,
    ensures
        forall|k1: int, k2: int|
            0 <= k1 < k2 < avm1_seq(d).len() ==> (#[trigger] avm1_seq(d)[k1]).0 != (
            #[trigger] avm1_seq(d)[k2]).0,
{
    lemma_tags_avm1_distinct(d.tags, d.tags.len() as int);
}


/// The structural address a location names.
pub open spec fn addr_of_loc(l: Avm1Location) -> Seq<int> {
    match l {
        Avm1Location::RootDoAction { tag_index } => seq![tag_index as int],
        Avm1Location::RootDoInitAction { tag_index } => seq![tag_index as int],
        Avm1Location::SpriteDoAction { tag_index, sprite_tag_index } => seq![
            tag_index as int,
            sprite_tag_index as int,
        ],
        Avm1Location::SpriteDoInitAction { tag_index, sprite_tag_index } => seq![
            tag_index as int,
            sprite_tag_index as int,
        ],
    }
}

proof fn lemma_children_avm1_located(i: int, cs: Seq<ChildView>, n: int, l: Avm1Location, c: Seq<u8>)
    requires
        0 <= i <= usize::MAX as int,
        n <= usize::MAX as int,
        children_avm1(i, cs, n).contains((l, c)),
    ensures
        addr_of_loc(l).len() == 2 && addr_of_loc(l)[0] == i && 0 <= addr_of_loc(l)[1] < n
            && crate::laws::child_code(cs[addr_of_loc(l)[1]].body) == Some(c),
    decreases n,
{
    let p = children_avm1(i, cs, n);
    let prev = children_avm1(i, cs, n - 1);
    let last = child_avm1(i, n - 1, cs[n - 1]);
    let k = choose|k: int| 0 <= k < p.len() && p[k] == (l, c);
    if k < prev.len() {
        assert(prev[k] == (l, c));
        assert(prev.contains((l, c)));
        lemma_children_avm1_located(i, cs, n - 1, l, c);
    } else {
        assert(last[k - prev.len()] == (l, c));
        match cs[n - 1].body {
            ChildBodyView::Bytecode { init, code } => {
                assert(l == sprite_loc(init, i, n - 1));
                assert(c == code);
            }
            ChildBodyView::Leaf => {
                assert(false);
            }
        }
    }
}

proof fn lemma_tags_avm1_located(
    ts: Seq<TagView>,
    n: int,
    l: Avm1Location,
    c: Seq<u8>,
)
    requires
        n <= usize::MAX as int,
        forall|k: int|
            0 <= k < n ==> crate::laws::sprite_children_of(#[trigger] ts[k].body).len()
                <= usize::MAX as int,
        tags_avm1(ts, n).contains((l, c)),
    ensures
        (addr_of_loc(l).len() == 1 && 0 <= addr_of_loc(l)[0] < n && crate::laws::body_code(
            ts[addr_of_loc(l)[0]].body,
        ) == Some(c)) || (addr_of_loc(l).len() == 2 && 0 <= addr_of_loc(l)[0] < n
            && ts[addr_of_loc(l)[0]].body is Sprite && 0 <= addr_of_loc(l)[1]
            < crate::laws::sprite_children_of(ts[addr_of_loc(l)[0]].body).len()
            && crate::laws::child_code(
            crate::laws::sprite_children_of(ts[addr_of_loc(l)[0]].body)[addr_of_loc(l)[1]].body,
        ) == Some(c)),
    decreases n,
{
    let p = tags_avm1(ts, n);
    let prev = tags_avm1(ts, n - 1);
    let last = tag_avm1(n - 1, ts[n - 1]);
    let k = choose|k: int| 0 <= k < p.len() && p[k] == (l, c);
    if k < prev.len() {
        assert(prev[k] == (l, c));
        assert(prev.contains((l, c)));
        lemma_tags_avm1_located(ts, n - 1, l, c);
    } else {
        assert(last[k - prev.len()] == (l, c));
        match ts[n - 1].body {
            TagBodyView::Sprite { children } => {
                assert(last == children_avm1(n - 1, children, children.len() as int));
                assert(last.contains((l, c)));
                assert(crate::laws::sprite_children_of(ts[n - 1].body) == children);
                lemma_children_avm1_located(n - 1, children, children.len() as int, l, c);
            }
            TagBodyView::Bytecode { init, code } => {
                assert(l == root_loc(init, n - 1));
                assert(c == code);
            }
            TagBodyView::Leaf => {
                assert(false);
            }
        }
    }
}

/// The locator and the dump plan agree: every buffer `find_avm1` collects
/// sits at a location whose node bears exactly that buffer, so the dump plan
/// writes it verbatim, under the fixed raw-bytecode file name, at that
/// location's address.
pub proof fn lemma_locator_matches_plan(d: DocumentView, l: Avm1Location, c: Seq<u8>)
    requires
        d.tags.len() <= usize::MAX as int,
        forall|k: int|
            0 <= k < d.tags.len() ==> crate::laws::sprite_children_of(
                #[trigger] d.tags[k].body,
            ).len() <= usize::MAX as int,
        avm1_seq(d).contains((l, c)),
    ensures
        crate::laws::bytecode_at(d, addr_of_loc(l), c),
        crate::plan::plan_of(d).contains(
            crate::plan::PlanOpView::WriteFile {
                addr: addr_of_loc(l),
                name: crate::paths::OutFileName::MainAvm1,
                content: c,
            },
        ),
{
    lemma_tags_avm1_located(d.tags, d.tags.len() as int, l, c);
    crate::laws::lemma_avm1_files(d, addr_of_loc(l), c);
}


proof fn lemma_children_avm1_finds(i: int, cs: Seq<ChildView>, n: int, j: int, c: Seq<u8>)
    requires
        0 <= i <= usize::MAX as int,
        n <= usize::MAX as int,
        0 <= j < n,
        crate::laws::child_code(cs[j].body) == Some(c),
    ensures
        exists|l: Avm1Location|
            #[trigger] addr_of_loc(l) == seq![i, j] && children_avm1(i, cs, n).contains((l, c)),
    decreases n,
{
    let prev = children_avm1(i, cs, n - 1);
    let last = child_avm1(i, n - 1, cs[n - 1]);
    if j < n - 1 {
        lemma_children_avm1_finds(i, cs, n - 1, j, c);
        let l = choose|l: Avm1Location|
            addr_of_loc(l) == seq![i, j] && children_avm1(i, cs, n - 1).contains((l, c));
        crate::laws::lemma_add_contains(prev, last, (l, c));
        assert(children_avm1(i, cs, n).contains((l, c)));
    } else {
        match cs[j].body {
            ChildBodyView::Bytecode { init, code } => {
                let l = sprite_loc(init, i, j);
                assert(addr_of_loc(l) =~= seq![i, j]);
                assert(last[0] == (l, c));
                assert(last.contains((l, c)));
                crate::laws::lemma_add_contains(prev, last, (l, c));
                assert(children_avm1(i, cs, n).contains((l, c)));
            }
            ChildBodyView::Leaf => {
                assert(false);
            }
        }
    }
}

proof fn lemma_tags_avm1_finds(ts: Seq<TagView>, n: int, a: Seq<int>, c: Seq<u8>)
    requires
        n <= usize::MAX as int,
        forall|k: int|
            0 <= k < n ==> crate::laws::sprite_children_of(#[trigger] ts[k].body).len()
                <= usize::MAX as int,
        (a.len() == 1 && 0 <= a[0] < n && crate::laws::body_code(ts[a[0]].body) == Some(c)) || (
        a.len() == 2 && 0 <= a[0] < n && ts[a[0]].body is Sprite && 0 <= a[1]
            < crate::laws::sprite_children_of(ts[a[0]].body).len() && crate::laws::child_code(
            crate::laws::sprite_children_of(ts[a[0]].body)[a[1]].body,
        ) == Some(c)),
    ensures
        exists|l: Avm1Location|
            #[trigger] addr_of_loc(l) == a && tags_avm1(ts, n).contains((l, c)),
    decreases n,
{
    let prev = tags_avm1(ts, n - 1);
    let last = tag_avm1(n - 1, ts[n - 1]);
    if a[0] < n - 1 {
        lemma_tags_avm1_finds(ts, n - 1, a, c);
        let l = choose|l: Avm1Location|
            addr_of_loc(l) == a && tags_avm1(ts, n - 1).contains((l, c));
        crate::laws::lemma_add_contains(prev, last, (l, c));
        assert(tags_avm1(ts, n).contains((l, c)));
    } else {
        let i = n - 1;
        match ts[i].body {
            TagBodyView::Bytecode { init, code } => {
                let l = root_loc(init, i);
                assert(a =~= seq![i]);
                assert(addr_of_loc(l) =~= seq![i]);
                assert(last[0] == (l, c));
                assert(last.contains((l, c)));
                crate::laws::lemma_add_contains(prev, last, (l, c));
                assert(tags_avm1(ts, n).contains((l, c)));
            }
            TagBodyView::Sprite { children } => {
                assert(crate::laws::sprite_children_of(ts[i].body) == children);
                lemma_children_avm1_finds(i, children, children.len() as int, a[1], c);
                let l = choose|l: Avm1Location|
                    addr_of_loc(l) == seq![i, a[1]] && children_avm1(
                        i,
                        children,
                        children.len() as int,
                    ).contains((l, c));
                assert(a =~= seq![i, a[1]]);
                assert(last == children_avm1(i, children, children.len() as int));
                crate::laws::lemma_add_contains(prev, last, (l, c));
                assert(tags_avm1(ts, n).contains((l, c)));
            }
            TagBodyView::Leaf => {
                assert(false);
            }
        }
    }
}

/// The locator misses nothing: wherever a node of the document bears a
/// bytecode buffer, `find_avm1` records that buffer under a location naming
/// exactly that node's structural address.
pub proof fn lemma_locator_is_complete(d: DocumentView, a: Seq<int>, c: Seq<u8>)
    requires
        d.tags.len() <= usize::MAX as int,
        forall|k: int|
            0 <= k < d.tags.len() ==> crate::laws::sprite_children_of(
                #[trigger] d.tags[k].body,
            ).len() <= usize::MAX as int,
        crate::laws::bytecode_at(d, a, c),
    ensures
        exists|l: Avm1Location| #[trigger] addr_of_loc(l) == a && avm1_seq(d).contains((l, c)),
{
    lemma_tags_avm1_finds(d.tags, d.tags.len() as int, a, c);
}

} // verus!
