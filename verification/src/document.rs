use vstd::prelude::*;

verus! {

/// The body of a child of a composite node. Document formats in scope nest
/// bytecode one level deep, so a child is never composite itself.
#[derive(Debug, PartialEq, Eq)]
pub enum ChildBody {
    /// The child carries a bytecode buffer; `init` tells an initialization
    /// action apart from an ordinary one.
    Bytecode { init: bool, code: Vec<u8> },
    /// Any other child: opaque data, dumped as its encoding alone.
    Leaf,
}

/// One child of a composite node: its canonical encoding, without a trailing
/// newline, and what the dump reads of its structure.
#[derive(Debug, PartialEq, Eq)]
pub struct ChildNode {
    pub json: Vec<u8>,
    pub body: ChildBody,
}

/// The body of a root-level node.
#[derive(Debug, PartialEq, Eq)]
pub enum TagBody {
    /// A composite node with an ordered sequence of children.
    Sprite { children: Vec<ChildNode> },
    /// A bytecode-bearing node at the root level.
    Bytecode { init: bool, code: Vec<u8> },
    /// Any other node.
    Leaf,
}

/// One root-level node: its canonical encoding, without a trailing newline,
/// and what the dump reads of its structure.
#[derive(Debug, PartialEq, Eq)]
pub struct TagNode {
    pub json: Vec<u8>,
    pub body: TagBody,
}

/// A parsed document, reduced to the plain values the dump reads: the
/// header's canonical encoding and the ordered root-level nodes.
#[derive(Debug, PartialEq, Eq)]
pub struct Document {
    pub header_json: Vec<u8>,
    pub tags: Vec<TagNode>,
}

/// The mathematical value of a `ChildBody`.
#[verifier::ext_equal]
pub enum ChildBodyView {
    Bytecode { init: bool, code: Seq<u8> },
    Leaf,
}

/// The mathematical value of a `ChildNode`.
#[verifier::ext_equal]
pub struct ChildView {
    pub json: Seq<u8>,
    pub body: ChildBodyView,
}

/// The mathematical value of a `TagBody`.
#[verifier::ext_equal]
pub enum TagBodyView {
    Sprite { children: Seq<ChildView> },
    Bytecode { init: bool, code: Seq<u8> },
    Leaf,
}

/// The mathematical value of a `TagNode`.
#[verifier::ext_equal]
pub struct TagView {
    pub json: Seq<u8>,
    pub body: TagBodyView,
}

/// The mathematical value of a `Document`.
#[verifier::ext_equal]
pub struct DocumentView {
    pub header_json: Seq<u8>,
    pub tags: Seq<TagView>,
}

/// The views of a sequence of children.
pub open spec fn child_views(cs: Seq<ChildNode>) -> Seq<ChildView> {
    cs.map_values(|c: ChildNode| c@)
}

/// The views of a sequence of root-level nodes.
pub open spec fn tag_views(ts: Seq<TagNode>) -> Seq<TagView> {
    ts.map_values(|t: TagNode| t@)
}

impl View for ChildBody {
    type V = ChildBodyView;

    open spec fn view(&self) -> ChildBodyView {
        match self {
            ChildBody::Bytecode { init, code } => ChildBodyView::Bytecode {
                init: *init,
                code: code@,
            },
            ChildBody::Leaf => ChildBodyView::Leaf,
        }
    }
}

impl View for ChildNode {
    type V = ChildView;

    open spec fn view(&self) -> ChildView {
        ChildView { json: self.json@, body: self.body@ }
    }
}

impl View for TagBody {
    type V = TagBodyView;

    open spec fn view(&self) -> TagBodyView {
        match self {
            TagBody::Sprite { children } => TagBodyView::Sprite {
                children: child_views(children@),
            },
            TagBody::Bytecode { init, code } => TagBodyView::Bytecode {
                init: *init,
                code: code@,
            },
            TagBody::Leaf => TagBodyView::Leaf,
        }
    }
}

impl View for TagNode {
    type V = TagView;

    open spec fn view(&self) -> TagView {
        TagView { json: self.json@, body: self.body@ }
    }
}

impl View for Document {
    type V = DocumentView;

    open spec fn view(&self) -> DocumentView {
        DocumentView {
            header_json: self.header_json@,
            tags: tag_views(self.tags@),
        }
    }
}

} // verus!
