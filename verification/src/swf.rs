use vstd::prelude::*;

use crate::document::ChildBody;
use crate::document::ChildNode;
use crate::document::Document;
use crate::document::DocumentView;
use crate::document::TagBody;
use crate::document::TagNode;
use crate::errors::DumpError;
use crate::plan::bytes_with_nl;
use crate::plan::dump_plan;
use crate::plan::plan_of;
use crate::plan::plan_view;
use crate::plan::PlanOp;

verus! {

#[verifier::external_type_specification]
#[verifier::external_body]
pub struct ExMovie(swf_types::Movie);

#[verifier::external_type_specification]
#[verifier::external_body]
pub struct ExTag(swf_types::Tag);

/// The compression method named by a container file's first byte.
#[derive(Clone, Copy, Debug, PartialEq, Eq, Structural)]
pub enum CompressionKind {
    Uncompressed,
    Deflate,
    Lzma,
}

/// The container signature: the uncompressed first eight bytes of a file.
#[derive(Clone, Copy, Debug, PartialEq, Eq, Structural)]
pub struct SignatureInfo {
    pub compression: CompressionKind,
    pub swf_version: u8,
    pub uncompressed_file_length: u32,
}

/// Whether `b` opens with a well-formed container signature: at least eight
/// bytes, the first three reading `FWS`, `CWS` or `ZWS`.
pub open spec fn valid_signature(b: Seq<u8>) -> bool {
    b.len() >= 8 && (b[0] == 70 || b[0] == 67 || b[0] == 90) && b[1] == 87 && b[2] == 83
}

/// The compression named by the first signature byte.
pub open spec fn compression_of(b0: u8) -> CompressionKind {
    if b0 == 67 {
        CompressionKind::Deflate
    } else if b0 == 90 {
        CompressionKind::Lzma
    } else {
        CompressionKind::Uncompressed
    }
}

/// The value of a well-formed signature: the compression letter, the version
/// byte, and the uncompressed length as a little-endian 32-bit integer.
pub open spec fn signature_of(b: Seq<u8>) -> SignatureInfo
    recommends
        valid_signature(b),
{
    SignatureInfo {
        compression: compression_of(b[0]),
        swf_version: b[3],
        uncompressed_file_length: (b[4] + 256 * (b[5] as int) + 65536 * (b[6] as int) + 16777216
            * (b[7] as int)) as u32,
    }
}

/// Reads the container signature from the head of `b`: `None` exactly when
/// the first eight bytes are missing or are not a well-formed signature.
pub fn parse_signature(b: &Vec<u8>) -> (r: Option<SignatureInfo>)
    ensures
        r is Some <==> valid_signature(b@),
        valid_signature(b@) ==> r == Some(signature_of(b@)),
{
    if b.len() < 8 {
        return None;
    }
    let c = b[0];
    if !(c == 70 || c == 67 || c == 90) {
        return None;
    }
    if b[1] != 87 || b[2] != 83 {
        return None;
    }
    let compression = if c == 67 {
        CompressionKind::Deflate
    } else if c == 90 {
        CompressionKind::Lzma
    } else {
        CompressionKind::Uncompressed
    };
    let length: u32 = b[4] as u32 + 256 * (b[5] as u32) + 65536 * (b[6] as u32) + 16777216 * (
    b[7] as u32);
    Some(SignatureInfo { compression, swf_version: b[3], uncompressed_file_length: length })
}

/// Whether the container parser accepts the bytes as a complete movie. The
/// parser reads the bytes alone and is deterministic, so acceptance only
/// carries this name.
pub uninterp spec fn swf_parses(bytes: Seq<u8>) -> bool;

/// Relies on swf_parser::parse_swf, the complete-input parser: it reads the
/// bytes alone, returns the parsed movie exactly when it accepts them
/// (named `swf_parses`), fails whenever the input does not open with a
/// well-formed signature, and never panics.
#[verifier::external_body]
fn parse_movie(bytes: &Vec<u8>) -> (r: Result<swf_types::Movie, String>)
    ensures
        r is Ok <==> swf_parses(bytes@),
        r is Ok ==> valid_signature(bytes@),
{
    match swf_parser::parse_swf(bytes) {
        Ok(movie) => Ok(movie),
        Err(e) => Err(format!("{:?}", &e)),
    }
}

/// Relies on the movie struct's public `tags` field: the ordered root-level
/// nodes of the parsed document.
#[verifier::external_body]
fn movie_tags(m: &swf_types::Movie) -> (r: &Vec<swf_types::Tag>) {
    &m.tags
}

/// Relies on serde_json_v8::to_vec_pretty over the movie's `header` field:
/// the canonical pretty-printed encoding of the document header. Encoding
/// to an in-memory buffer cannot fail: the writer is infallible and every
/// impl in the tree is derived with struct-shaped variants.
#[verifier::external_body]
fn header_json(m: &swf_types::Movie) -> (r: Result<Vec<u8>, String>)
    ensures
        r is Ok,
{
    match serde_json_v8::to_vec_pretty(&m.header) {
        Ok(v) => Ok(v),
        Err(e) => Err(format!("{:?}", &e)),
    }
}

/// Relies on serde_json_v8::to_vec_pretty over the whole movie: the
/// canonical pretty-printed encoding that the parse command prints.
/// Encoding to an in-memory buffer cannot fail, as for the header.
#[verifier::external_body]
fn movie_json(m: &swf_types::Movie) -> (r: Result<Vec<u8>, String>)
    ensures
        r is Ok,
{
    match serde_json_v8::to_vec_pretty(m) {
        Ok(v) => Ok(v),
        Err(e) => Err(format!("{:?}", &e)),
    }
}

/// Relies on serde_json_v8::to_vec_pretty over one tag: the canonical
/// pretty-printed encoding of one node. Encoding to an in-memory buffer
/// cannot fail, as for the header.
#[verifier::external_body]
fn tag_json(t: &swf_types::Tag) -> (r: Result<Vec<u8>, String>)
    ensures
        r is Ok,
{
    match serde_json_v8::to_vec_pretty(t) {
        Ok(v) => Ok(v),
        Err(e) => Err(format!("{:?}", &e)),
    }
}

/// What the dump reads of one outside tag value.
pub enum RawTagData {
    Sprite { children: Vec<swf_types::Tag> },
    Bytecode { init: bool, code: Vec<u8> },
    Leaf,
}

/// Relies on the tag enum's variants: a composite node carries its ordered
/// children, the two bytecode-bearing variants carry their buffer, and every
/// other variant is a leaf to the dump.
#[verifier::external_body]
fn classify_tag(t: &swf_types::Tag) -> (r: RawTagData) {
    match t {
        swf_types::Tag::DefineSprite(sprite) => RawTagData::Sprite {
            children: sprite.tags.clone(),
        },
        swf_types::Tag::DoAction(action) => RawTagData::Bytecode {
            init: false,
            code: action.actions.clone(),
        },
        swf_types::Tag::DoInitAction(action) => RawTagData::Bytecode {
            init: true,
            code: action.actions.clone(),
        },
        _ => RawTagData::Leaf,
    }
}

fn convert_child(t: &swf_types::Tag) -> (r: Result<ChildNode, String>)
    ensures
        r is Ok,
{
    let json = match tag_json(t) {
        Ok(j) => j,
        Err(e) => {
            return Err(e);
        }
    };
    match classify_tag(t) {
        RawTagData::Bytecode { init, code } => Ok(
            ChildNode { json, body: ChildBody::Bytecode { init, code } },
        ),
        // formats in scope nest bytecode one level deep, so a composite
        // inside a composite is dumped as a plain leaf
        RawTagData::Sprite { children: _ } => Ok(ChildNode { json, body: ChildBody::Leaf }),
        RawTagData::Leaf => Ok(ChildNode { json, body: ChildBody::Leaf }),
    }
}

fn convert_tag(t: &swf_types::Tag) -> (r: Result<TagNode, String>)
    ensures
        r is Ok,
{
    let json = match tag_json(t) {
        Ok(j) => j,
        Err(e) => {
            return Err(e);
        }
    };
    match classify_tag(t) {
        RawTagData::Sprite { children } => {
            let mut cs: Vec<ChildNode> = Vec::new();
            let mut j: usize = 0;
            while j < children.len()
                decreases children.len() - j,
            {
                match convert_child(&children[j]) {
                    Ok(c) => {
                        cs.push(c);
                    }
                    Err(e) => {
                        return Err(e);
                    }
                }
                j = j + 1;
            }
            Ok(TagNode { json, body: TagBody::Sprite { children: cs } })
        }
        RawTagData::Bytecode { init, code } => Ok(
            TagNode { json, body: TagBody::Bytecode { init, code } },
        ),
        RawTagData::Leaf => Ok(TagNode { json, body: TagBody::Leaf }),
    }
}

/// Reduces a parsed movie to the plain document the dump works on: the
/// header's encoding, and, for each root-level node, its encoding together
/// with its children or its bytecode buffer. Always succeeds: the encoders
/// cannot fail. What the document holds comes from the opaque movie, so no
/// more is stated here; the exact contracts start at the document.
pub fn convert_movie(m: &swf_types::Movie) -> (r: Result<Document, String>)
    ensures
        r is Ok,
{
    let header = match header_json(m) {
        Ok(h) => h,
        Err(e) => {
            return Err(e);
        }
    };
    let tags = movie_tags(m);
    let mut ts: Vec<TagNode> = Vec::new();
    let mut i: usize = 0;
    while i < tags.len()
        decreases tags.len() - i,
    {
        match convert_tag(&tags[i]) {
            Ok(t) => {
                ts.push(t);
            }
            Err(e) => {
                return Err(e);
            }
        }
        i = i + 1;
    }
    Ok(Document { header_json: header, tags: ts })
}

/// Parses a container file and plans its dump. Succeeds exactly when the
/// container parser accepts the bytes, and fails with the malformed-data
/// error otherwise — so in particular whenever the input does not open with
/// a well-formed signature. Every plan returned is the exact dump plan of
/// some document, so it creates one directory per structural address and
/// pairs every raw bytecode file the decoder accepts with its decoded
/// graph.
pub fn plan_swf_dump(bytes: &Vec<u8>) -> (r: Result<Vec<PlanOp>, DumpError>)
    ensures
        r is Ok <==> swf_parses(bytes@),
        r matches Err(e) ==> e == DumpError::Data,
        !valid_signature(bytes@) ==> r == Err::<Vec<PlanOp>, DumpError>(DumpError::Data),
        r matches Ok(p) ==> exists|d: DocumentView| plan_view(p@) == plan_of(d),
{
    match parse_movie(bytes) {
        Err(_) => Err(DumpError::Data),
        Ok(movie) => match convert_movie(&movie) {
            Err(_) => Err(DumpError::Io),
            Ok(doc) => {
                let ops = dump_plan(&doc);
                proof {
                    assert(plan_view(ops@) == plan_of(doc@));
                }
                Ok(ops)
            }
        },
    }
}

/// Parses a container file to its canonical pretty-printed encoding, with
/// the single trailing newline the parse command prints. Succeeds exactly
/// when the container parser accepts the bytes, and fails with the
/// malformed-data error otherwise — so in particular whenever the input
/// does not open with a well-formed signature.
pub fn parse_to_json(bytes: &Vec<u8>) -> (r: Result<Vec<u8>, DumpError>)
    ensures
        r is Ok <==> swf_parses(bytes@),
        r matches Err(e) ==> e == DumpError::Data,
        !valid_signature(bytes@) ==> r == Err::<Vec<u8>, DumpError>(DumpError::Data),
        r matches Ok(out) ==> out@.len() > 0 && out@[out@.len() - 1] == 10,
{
    match parse_movie(bytes) {
        Err(_) => Err(DumpError::Data),
        Ok(movie) => match movie_json(&movie) {
            Err(_) => Err(DumpError::Io),
            Ok(j) => Ok(bytes_with_nl(&j)),
        },
    }
}

} // verus!
