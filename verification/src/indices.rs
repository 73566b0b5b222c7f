//! The three index streams of a mesh, and what a face corner adds to them.

use vstd::prelude::*;
use vstd::string::*;

use crate::number::{index_of, parse_index};
use crate::polygon::Polygon;
use crate::text::{bytes_of_each, split, SLASH};

verus! {

/// For every corner of every triangle, in the order of the file: which
/// position, which texture coordinate and which normal the corner has, each
/// as a zero-based index into its pool. A corner that leaves one of the three
/// out adds nothing to that stream.
#[derive(PartialEq, Eq, Debug)]
pub struct Indices {
    pub vertex_indices: Vec<u32>,
    pub texture_indices: Vec<u32>,
    pub normal_indices: Vec<u32>,
}

/// The three streams as sequences.
pub struct IndicesView {
    pub vertex: Seq<u32>,
    pub texture: Seq<u32>,
    pub normal: Seq<u32>,
}

impl View for Indices {
    type V = IndicesView;

    open spec fn view(&self) -> IndicesView {
        IndicesView {
            vertex: self.vertex_indices@,
            texture: self.texture_indices@,
            normal: self.normal_indices@,
        }
    }
}

impl Indices {
    /// Three empty streams.
    pub fn new() -> (indices: Indices)
        ensures
            indices@ == (IndicesView {
                vertex: Seq::empty(),
                texture: Seq::empty(),
                normal: Seq::empty(),
            }),
    {
        let v_indices = Vec::new();
        let tex_indices = Vec::new();
        let normal_indices = Vec::new();
        Indices {
            vertex_indices: v_indices,
            texture_indices: tex_indices,
            normal_indices: normal_indices,
        }
    }
}

/// What one field of a corner says.
#[derive(Clone, Copy, PartialEq, Eq, Debug, Structural)]
pub enum Slot {
    /// The field is missing or empty.
    Absent,
    /// The field names this zero-based index.
    Index(u32),
    /// The field is there and names no index.
    Invalid,
}

/// The three fields of a corner: position, texture coordinate, normal.
pub struct CornerRefs {
    pub vertex: Slot,
    pub texture: Slot,
    pub normal: Slot,
}

/// What the field at place `k` of a corner says.
pub open spec fn field_slot(fields: Seq<Seq<u8>>, k: int) -> Slot {
    if 0 <= k < fields.len() && fields[k].len() > 0 {
        match index_of(fields[k]) {
            Some(i) => Slot::Index(i),
            None => Slot::Invalid,
        }
    } else {
        Slot::Absent
    }
}

/// What a corner with the fields `fields` refers to. Fields after the third
/// are not looked at.
pub open spec fn corner_refs(fields: Seq<Seq<u8>>) -> CornerRefs {
    CornerRefs {
        vertex: field_slot(fields, 0),
        texture: field_slot(fields, 1),
        normal: field_slot(fields, 2),
    }
}

/// What the corner written as `token` refers to: `v`, `v/t`, `v/t/n` or `v//n`.
pub open spec fn corner_of(token: Seq<u8>) -> CornerRefs {
    corner_refs(split(token, SLASH))
}

impl CornerRefs {
    /// None of the three fields is invalid.
    pub open spec fn valid(self) -> bool {
        !(self.vertex is Invalid) && !(self.texture is Invalid) && !(self.normal is Invalid)
    }
}

/// The stream `stream` with the index of `slot` added, if it has one.
pub open spec fn pushed(stream: Seq<u32>, slot: Slot) -> Seq<u32> {
    match slot {
        Slot::Index(i) => stream.push(i),
        _ => stream,
    }
}

impl IndicesView {
    /// The streams after the corner `c` was read: its fields are taken in
    /// turn, and the first invalid one ends the reading.
    pub open spec fn with_corner(self, c: CornerRefs) -> IndicesView {
        if c.vertex is Invalid {
            self
        } else if c.texture is Invalid {
            IndicesView { vertex: pushed(self.vertex, c.vertex), ..self }
        } else {
            IndicesView {
                vertex: pushed(self.vertex, c.vertex),
                texture: pushed(self.texture, c.texture),
                normal: pushed(self.normal, c.normal),
            }
        }
    }

    /// The streams after the corners `cs` were read in turn, up to and with
    /// the first corner that is not valid.
    pub open spec fn with_corners(self, cs: Seq<CornerRefs>) -> IndicesView
        decreases cs.len(),
    {
        if cs.len() == 0 {
            self
        } else if !cs[0].valid() {
            self.with_corner(cs[0])
        } else {
            self.with_corner(cs[0]).with_corners(cs.drop_first())
        }
    }
}

/// Reading the corners from place `j` on starts with the corner at `j`, and
/// goes on behind it where that corner is valid.
pub proof fn lemma_next_corner(ind: IndicesView, cs: Seq<CornerRefs>, j: int)
    requires
        0 <= j < cs.len(),
    ensures
        ind.with_corners(cs.skip(j)) == if cs[j].valid() {
            ind.with_corner(cs[j]).with_corners(cs.skip(j + 1))
        } else {
            ind.with_corner(cs[j])
        },
{
    let rest = cs.skip(j);
    assert(rest[0] == cs[j]);
    assert(rest.drop_first() =~= cs.skip(j + 1));
}

/// Every one of the corners is valid.
pub open spec fn all_valid(cs: Seq<CornerRefs>) -> bool {
    forall|j: int| 0 <= j < cs.len() ==> (#[trigger] cs[j]).valid()
}

/// The corners that the face with the corner tokens `corners` hands to the
/// streams: those of its triangles, one triangle after the other. A corner
/// that two triangles share is read once for each.
pub open spec fn face_corners(corners: Seq<Seq<u8>>) -> Seq<CornerRefs> {
    let fan = Polygon::with_corners(corners.len()).fan();
    Seq::new(fan.len(), |j: int| corner_of(corners[fan[j]]))
}

impl CornerRefs {
    /// The field for stream `k`: 0 the position, 1 the texture coordinate,
    /// 2 the normal.
    pub open spec fn slot(self, k: int) -> Slot {
        if k == 0 {
            self.vertex
        } else if k == 1 {
            self.texture
        } else {
            self.normal
        }
    }
}

impl IndicesView {
    /// The stream `k`: 0 the positions, 1 the texture coordinates, 2 the
    /// normals.
    pub open spec fn stream(self, k: int) -> Seq<u32> {
        if k == 0 {
            self.vertex
        } else if k == 1 {
            self.texture
        } else {
            self.normal
        }
    }
}

/// The indices that the slots name, in their order; a slot that names none
/// is passed over.
pub open spec fn indices_in(slots: Seq<Slot>) -> Seq<u32>
    decreases slots.len(),
{
    if slots.len() == 0 {
        Seq::empty()
    } else {
        pushed(Seq::empty(), slots[0]) + indices_in(slots.drop_first())
    }
}

/// What the corners `cs` say for stream `k`, corner by corner.
pub open spec fn slots_of(cs: Seq<CornerRefs>, k: int) -> Seq<Slot> {
    Seq::new(cs.len(), |j: int| cs[j].slot(k))
}

/// Corners that are all valid add to each stream the indices that they name
/// for it, in their order, and nothing else.
pub proof fn lemma_valid_corners(ind: IndicesView, cs: Seq<CornerRefs>, k: int)
    requires
        all_valid(cs),
        0 <= k < 3,
    ensures
        ind.with_corners(cs).stream(k) == ind.stream(k) + indices_in(slots_of(cs, k)),
    decreases cs.len(),
{
    if cs.len() == 0 {
        assert(ind.stream(k) + indices_in(slots_of(cs, k)) =~= ind.stream(k));
    } else {
        let next = ind.with_corner(cs[0]);
        let rest = cs.drop_first();
        assert(cs[0].valid());
        assert forall|j: int| 0 <= j < rest.len() implies (#[trigger] rest[j]).valid() by {
            assert(rest[j] == cs[j + 1]);
        }
        lemma_valid_corners(next, rest, k);
        assert(slots_of(cs, k).drop_first() =~= slots_of(rest, k));
        assert(next.stream(k) == ind.stream(k) + pushed(Seq::empty(), cs[0].slot(k))) by {
            assert(pushed(ind.stream(k), cs[0].slot(k)) =~= ind.stream(k) + pushed(
                Seq::empty(),
                cs[0].slot(k),
            ));
        }
        assert(ind.with_corners(cs).stream(k) =~= ind.stream(k) + indices_in(slots_of(cs, k)));
    }
}

/// Slots that all name an index hand each of them on, one for one.
pub proof fn lemma_indices_in_full(slots: Seq<Slot>)
    requires
        forall|j: int| 0 <= j < slots.len() ==> #[trigger] slots[j] is Index,
    ensures
        indices_in(slots).len() == slots.len(),
        forall|j: int|
            0 <= j < slots.len() ==> Slot::Index(#[trigger] indices_in(slots)[j]) == slots[j],
    decreases slots.len(),
{
    if slots.len() > 0 {
        let rest = slots.drop_first();
        assert forall|j: int| 0 <= j < rest.len() implies #[trigger] rest[j] is Index by {
            assert(rest[j] == slots[j + 1]);
        }
        lemma_indices_in_full(rest);
        assert(slots[0] is Index);
        assert forall|j: int| 0 <= j < slots.len() implies Slot::Index(
            #[trigger] indices_in(slots)[j],
        ) == slots[j] by {
            if j > 0 {
                assert(indices_in(slots)[j] == indices_in(rest)[j - 1]);
                assert(rest[j - 1] == slots[j]);
            }
        }
    }
}

/// A face whose corners are all valid and all name an index for stream `k`
/// adds to that stream three entries for each of its triangles: the indices
/// of the triangles' corners, in the order of `Polygon::fan`.
pub proof fn lemma_face_adds_three_per_triangle(ind: IndicesView, corners: Seq<Seq<u8>>, k: int)
    requires
        0 <= k < 3,
        forall|c: int|
            0 <= c < corners.len() ==> (#[trigger] corner_of(corners[c])).valid() && corner_of(
                corners[c],
            ).slot(k) is Index,
    ensures
        ({
            let polygon = Polygon::with_corners(corners.len());
            let after = ind.with_corners(face_corners(corners)).stream(k);
            &&& after.len() == ind.stream(k).len() + 3 * polygon.triangles()
            &&& after.take(ind.stream(k).len() as int) == ind.stream(k)
            &&& forall|j: int|
                0 <= j < 3 * polygon.triangles() ==> Slot::Index(
                    #[trigger] after[ind.stream(k).len() + j],
                ) == corner_of(corners[polygon.fan()[j]]).slot(k)
        }),
{
    let polygon = Polygon::with_corners(corners.len());
    let cs = face_corners(corners);
    let slots = slots_of(cs, k);
    let after = ind.with_corners(cs).stream(k);
    let before = ind.stream(k);
    polygon.lemma_fan();
    Polygon::lemma_triangle_count(corners.len());
    assert forall|j: int| 0 <= j < cs.len() implies (#[trigger] cs[j]).valid() && cs[j].slot(
        k,
    ) is Index by {
        assert(0 <= polygon.fan()[j] < polygon.corners());
        assert(corner_of(corners[polygon.fan()[j]]).valid());
    }
    assert forall|j: int| 0 <= j < slots.len() implies #[trigger] slots[j] is Index by {
        assert(cs[j].valid());
    }
    lemma_valid_corners(ind, cs, k);
    lemma_indices_in_full(slots);
    assert(after.take(before.len() as int) =~= before);
    assert forall|j: int| 0 <= j < 3 * polygon.triangles() implies Slot::Index(
        #[trigger] after[before.len() + j],
    ) == corner_of(corners[polygon.fan()[j]]).slot(k) by {
        assert(after[before.len() + j] == indices_in(slots)[j]);
        assert(slots[j] == cs[j].slot(k));
    }
}

/// Reads the field at place `k` of a corner.
pub fn slot_at(fields: &Vec<&str>, k: usize) -> (slot: Slot)
    ensures
        slot == field_slot(bytes_of_each(fields@), k as int),
{
    if k < fields.len() {
        let field = fields[k];
        if field.as_bytes().len() > 0 {
            match parse_index(field) {
                Some(i) => Slot::Index(i),
                None => Slot::Invalid,
            }
        } else {
            Slot::Absent
        }
    } else {
        Slot::Absent
    }
}

} // verus!
