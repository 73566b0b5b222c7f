//! The kinds of record that a line can hold, told apart by the line's first token.

use vstd::prelude::*;
use vstd::string::*;

verus! {

/// What a line of the file describes.
#[derive(Clone, Copy, PartialEq, Eq, Debug, Structural)]
pub enum ObjAttribute {
    /// `v`: the position of a vertex.
    VertexPos,
    /// `vt`: a texture coordinate.
    TexturePos,
    /// `vn`: a vertex normal.
    VertexNormal,
    /// `f`: a face, as indices into the three pools.
    PolygonIndex,
    /// `mtllib`: the name of a material library.
    MaterialName,
    /// `o`: the name of an object.
    ObjectName,
    /// `#`: a comment.
    Comment,
    /// Anything else.
    Other,
}

/// The kind of record that the tag `tag` opens.
pub open spec fn attribute_of(tag: Seq<u8>) -> ObjAttribute {
    if tag == "v".spec_bytes() {
        ObjAttribute::VertexPos
    } else if tag == "vt".spec_bytes() {
        ObjAttribute::TexturePos
    } else if tag == "vn".spec_bytes() {
        ObjAttribute::VertexNormal
    } else if tag == "f".spec_bytes() {
        ObjAttribute::PolygonIndex
    } else if tag == "mtllib".spec_bytes() {
        ObjAttribute::MaterialName
    } else if tag == "o".spec_bytes() {
        ObjAttribute::ObjectName
    } else if tag == "#".spec_bytes() {
        ObjAttribute::Comment
    } else {
        ObjAttribute::Other
    }
}

/// Each of the seven tags opens a kind of its own, and no other text opens
/// any of them.
pub proof fn lemma_attribute_tags(tag: Seq<u8>)
    ensures
        attribute_of(tag) == ObjAttribute::VertexPos <==> tag == "v".spec_bytes(),
        attribute_of(tag) == ObjAttribute::TexturePos <==> tag == "vt".spec_bytes(),
        attribute_of(tag) == ObjAttribute::VertexNormal <==> tag == "vn".spec_bytes(),
        attribute_of(tag) == ObjAttribute::PolygonIndex <==> tag == "f".spec_bytes(),
        attribute_of(tag) == ObjAttribute::MaterialName <==> tag == "mtllib".spec_bytes(),
        attribute_of(tag) == ObjAttribute::ObjectName <==> tag == "o".spec_bytes(),
        attribute_of(tag) == ObjAttribute::Comment <==> tag == "#".spec_bytes(),
        attribute_of(tag) == ObjAttribute::Other <==> !(tag == "v".spec_bytes() || tag
            == "vt".spec_bytes() || tag == "vn".spec_bytes() || tag == "f".spec_bytes() || tag
            == "mtllib".spec_bytes() || tag == "o".spec_bytes() || tag == "#".spec_bytes()),
{
    broadcast use is_ascii_spec_bytes;

    reveal_strlit("v");
    reveal_strlit("vt");
    reveal_strlit("vn");
    reveal_strlit("f");
    reveal_strlit("mtllib");
    reveal_strlit("o");
    reveal_strlit("#");
    assert(is_ascii("v") && is_ascii("vt") && is_ascii("vn") && is_ascii("f") && is_ascii("mtllib")
        && is_ascii("o") && is_ascii("#"));
    assert("v".spec_bytes()[0] == 0x76 && "v".spec_bytes().len() == 1);
    assert("vt".spec_bytes()[1] == 0x74 && "vt".spec_bytes().len() == 2);
    assert("vn".spec_bytes()[1] == 0x6e && "vn".spec_bytes().len() == 2);
    assert("f".spec_bytes()[0] == 0x66 && "f".spec_bytes().len() == 1);
    assert("mtllib".spec_bytes().len() == 6);
    assert("o".spec_bytes()[0] == 0x6f && "o".spec_bytes().len() == 1);
    assert("#".spec_bytes()[0] == 0x23 && "#".spec_bytes().len() == 1);
}

/// Whether two byte strings are the same.
pub fn bytes_equal(a: &[u8], b: &[u8]) -> (same: bool)
    ensures
        same == (a@ == b@),
{
    if a.len() != b.len() {
        return false;
    }
    let mut i: usize = 0;
    while i < a.len()
        invariant
            a@.len() == b@.len(),
            i <= a@.len(),
            forall|j: int| 0 <= j < i ==> a@[j] == b@[j],
        decreases a@.len() - i,
    {
        if a[i] != b[i] {
            return false;
        }
        i += 1;
    }
    assert(a@ =~= b@);
    true
}

/// Tells from the first token of a line what the line describes.
pub fn detect_obj_attribute(str_: &str) -> (attribute: ObjAttribute)
    ensures
        attribute == attribute_of(str_.spec_bytes()),
{
    let tag = str_.as_bytes();
    if bytes_equal(tag, "v".as_bytes()) {
        ObjAttribute::VertexPos
    } else if bytes_equal(tag, "vt".as_bytes()) {
        ObjAttribute::TexturePos
    } else if bytes_equal(tag, "vn".as_bytes()) {
        ObjAttribute::VertexNormal
    } else if bytes_equal(tag, "f".as_bytes()) {
        ObjAttribute::PolygonIndex
    } else if bytes_equal(tag, "mtllib".as_bytes()) {
        ObjAttribute::MaterialName
    } else if bytes_equal(tag, "o".as_bytes()) {
        ObjAttribute::ObjectName
    } else if bytes_equal(tag, "#".as_bytes()) {
        ObjAttribute::Comment
    } else {
        ObjAttribute::Other
    }
}

} // verus!
