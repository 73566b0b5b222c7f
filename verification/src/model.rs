//! A mesh as it is read from an OBJ file, line by line.

use vstd::prelude::*;
use vstd::string::*;

use crate::attribute::{detect_obj_attribute, ObjAttribute};
use crate::error::{face_failure, failure_of, ParseError, NORMAL_LABEL, TEXTURE_LABEL, VERTEX_LABEL};
use crate::indices::{
    all_valid, corner_refs, face_corners, lemma_next_corner, slot_at, CornerRefs, Indices,
    IndicesView, Slot,
};
use crate::loading::{
    lemma_no_line, lemma_one_more_line, line_step, lines_loaded, load_outcome,
};
use crate::polygon::Polygon;
use crate::reader::read_one_line;
use crate::text::{
    bytes_of_each, lemma_split_fields, operands, split, split_str, SLASH, SPACE,
};

verus! {

/// The pools and index streams of a mesh. A pool is flat: every three
/// scalars in a row are one position or one normal. `T` is the type of a
/// scalar; the mesh only stores and moves scalars.
pub struct Model<T> {
    /// The positions, in the order of the file.
    pub vertex: Vec<T>,
    /// The texture coordinates, in the order of the file.
    pub vertex_tex: Vec<T>,
    /// The normals in the order of the triangle corners: made by
    /// `create_vertex_normal`, empty before.
    pub vertex_normal: Vec<T>,
    /// The normals in the order of the file.
    pub vertex_normal_tmp: Vec<T>,
    /// The corners of the triangles.
    pub indices: Indices,
    /// How many faces were passed over because they have fewer than three
    /// corners or more than six. The count stops at `usize::MAX`.
    pub skipped_faces: usize,
}

/// A mesh as sequences.
pub struct ModelView<T> {
    pub vertex: Seq<T>,
    pub vertex_tex: Seq<T>,
    pub vertex_normal: Seq<T>,
    pub vertex_normal_tmp: Seq<T>,
    pub indices: IndicesView,
    pub skipped_faces: usize,
}

impl<T> View for Model<T> {
    type V = ModelView<T>;

    open spec fn view(&self) -> ModelView<T> {
        ModelView {
            vertex: self.vertex@,
            vertex_tex: self.vertex_tex@,
            vertex_normal: self.vertex_normal@,
            vertex_normal_tmp: self.vertex_normal_tmp@,
            indices: self.indices@,
            skipped_faces: self.skipped_faces,
        }
    }
}

impl<T> ModelView<T> {
    /// The mesh with nothing in it.
    pub open spec fn empty() -> ModelView<T> {
        ModelView {
            vertex: Seq::empty(),
            vertex_tex: Seq::empty(),
            vertex_normal: Seq::empty(),
            vertex_normal_tmp: Seq::empty(),
            indices: IndicesView {
                vertex: Seq::empty(),
                texture: Seq::empty(),
                normal: Seq::empty(),
            },
            skipped_faces: 0,
        }
    }

    /// The mesh after the face with the tokens `tokens` was read: the
    /// corners of its triangles are added to the index streams, up to and
    /// with the first corner that is not valid. A face that is not cut into
    /// triangles adds none and is counted as passed over.
    pub open spec fn with_face(self, tokens: Seq<Seq<u8>>) -> ModelView<T> {
        let corners = operands(tokens);
        ModelView {
            indices: self.indices.with_corners(face_corners(corners)),
            skipped_faces: if Polygon::with_corners(corners.len()) == Polygon::Polygon {
                one_more(self.skipped_faces)
            } else {
                self.skipped_faces
            },
            ..self
        }
    }
}

/// The count after `count`, which stops at the largest `usize`.
pub open spec fn one_more(count: usize) -> usize {
    if count < usize::MAX {
        (count + 1) as usize
    } else {
        count
    }
}

impl<T> Model<T> {
    /// A mesh with nothing in it.
    pub fn new() -> (model: Model<T>)
        ensures
            model@ == ModelView::<T>::empty(),
    {
        Model {
            vertex: Vec::new(),
            vertex_tex: Vec::new(),
            vertex_normal: Vec::new(),
            vertex_normal_tmp: Vec::new(),
            indices: Indices::new(),
            skipped_faces: 0,
        }
    }

    /// Adds one corner to the index streams. `input_str` holds the fields of
    /// the corner: position, texture coordinate, normal. Each field that is
    /// there and not empty must be a one-based index; the first that is not
    /// ends the reading with an error for line `counter`, and the indices
    /// before it stay.
    pub fn load_indices(&mut self, input_str: &Vec<&str>, counter: usize) -> (r:
        Result<(), ParseError>)
        ensures
            final(self)@ == (ModelView {
                indices: old(self)@.indices.with_corner(corner_refs(bytes_of_each(input_str@))),
                ..old(self)@
            }),
            r is Ok <==> corner_refs(bytes_of_each(input_str@)).valid(),
            r matches Err(e) ==> e@ == face_failure(counter),
    {
        match slot_at(input_str, 0) {
            Slot::Index(i) => self.indices.vertex_indices.push(i),
            Slot::Absent => {},
            Slot::Invalid => {
                return Err(ParseError::face(counter));
            },
        }
        match slot_at(input_str, 1) {
            Slot::Index(i) => self.indices.texture_indices.push(i),
            Slot::Absent => {},
            Slot::Invalid => {
                return Err(ParseError::face(counter));
            },
        }
        match slot_at(input_str, 2) {
            Slot::Index(i) => self.indices.normal_indices.push(i),
            Slot::Absent => {},
            Slot::Invalid => {
                return Err(ParseError::face(counter));
            },
        }
        Ok(())
    }

    /// Adds the triangles of one face to the index streams. The first token
    /// of `input_str` is the tag of the record; the others are the corners of
    /// the face, each written `v`, `v/t`, `v/t/n` or `v//n`. A face with
    /// three to six corners is cut into triangles as `Polygon::fan` says, and
    /// the corners of the triangles are added in that order; any other face
    /// adds nothing, never fails, and is counted in `skipped_faces`. The
    /// first corner that is not valid ends the reading with an error for
    /// line `counter`; what was added before it stays.
    pub fn load_polygon(&mut self, input_str: &Vec<&str>, counter: usize) -> (r:
        Result<(), ParseError>)
        ensures
            final(self)@ == old(self)@.with_face(bytes_of_each(input_str@)),
            r is Ok <==> all_valid(face_corners(operands(bytes_of_each(input_str@)))),
            r matches Err(e) ==> e@ == face_failure(counter),
    {
        let ghost corners = operands(bytes_of_each(input_str@));
        let ghost cs = face_corners(corners);
        let n = input_str.len();
        let polygon = Polygon::from_corner_count(
            if n == 0 {
                0
            } else {
                n - 1
            },
        );
        let order = polygon.corner_order();
        proof {
            polygon.lemma_fan();
            Polygon::lemma_triangle_count(corners.len());
        }
        if order.len() == 0 {
            if self.skipped_faces < usize::MAX {
                self.skipped_faces += 1;
            }
            return Ok(());
        }
        let mut fields: Vec<Vec<&str>> = Vec::new();
        let mut i: usize = 1;
        while i < n
            invariant
                n == input_str@.len(),
                1 <= i <= n,
                corners == operands(bytes_of_each(input_str@)),
                fields@.len() == i - 1,
                forall|c: int|
                    0 <= c < i - 1 ==> bytes_of_each((#[trigger] fields@[c])@) == split(
                        corners[c],
                        SLASH,
                    ),
            decreases n - i,
        {
            let corner = split_str(input_str[i], SLASH);
            assert(corners[i - 1] == input_str@[i as int].spec_bytes());
            fields.push(corner);
            i += 1;
        }
        assert forall|t: int| 0 <= t < order@.len() implies order@[t] < fields@.len()
            && #[trigger] cs[t] == corner_refs(bytes_of_each(fields@[order@[t] as int]@)) by {
            assert(0 <= polygon.fan()[t] < polygon.corners());
        }
        let mut j: usize = 0;
        assert(cs.skip(0) =~= cs);
        while j < order.len()
            invariant
                cs == face_corners(operands(bytes_of_each(input_str@))),
                cs.len() == order@.len(),
                forall|t: int|
                    0 <= t < order@.len() ==> order@[t] < fields@.len() && #[trigger] cs[t]
                        == corner_refs(bytes_of_each(fields@[order@[t] as int]@)),
                j <= order@.len(),
                self@ == (ModelView { indices: self@.indices, ..old(self)@ }),
                forall|t: int| 0 <= t < j ==> (#[trigger] cs[t]).valid(),
                old(self)@.indices.with_corners(cs) == self@.indices.with_corners(
                    cs.skip(j as int),
                ),
            decreases order@.len() - j,
        {
            let c = order[j];
            proof {
                lemma_next_corner(self@.indices, cs, j as int);
            }
            match self.load_indices(&fields[c], counter) {
                Ok(()) => {},
                Err(e) => {
                    assert(!cs[j as int].valid());
                    return Err(e);
                },
            }
            j += 1;
        }
        assert(cs.skip(j as int) =~= Seq::<CornerRefs>::empty());
        Ok(())
    }

    /// Reads one line of a file into the mesh, as `line_step` says. `counter`
    /// is the number of the line, and `parse` reads a number from its text.
    pub fn load_line<F: Fn(&str) -> Option<T>>(
        &mut self,
        line: &str,
        counter: usize,
        parse: &F,
    ) -> (r: Result<(), ParseError>)
        requires
            forall|s: &str| parse.requires((s,)),
        ensures
            line_step(
                *parse,
                old(self)@,
                line.spec_bytes(),
                counter,
                final(self)@,
                failure_of(r),
            ),
    {
        let ss = split_str(line, SPACE);
        proof {
            lemma_split_fields(line.spec_bytes(), SPACE);
        }
        let data_attr = detect_obj_attribute(ss[0]);
        match data_attr {
            ObjAttribute::VertexPos => read_one_line(
                &ss,
                &mut self.vertex,
                VERTEX_LABEL,
                counter,
                parse,
            ),
            ObjAttribute::TexturePos => read_one_line(
                &ss,
                &mut self.vertex_tex,
                TEXTURE_LABEL,
                counter,
                parse,
            ),
            ObjAttribute::VertexNormal => read_one_line(
                &ss,
                &mut self.vertex_normal_tmp,
                NORMAL_LABEL,
                counter,
                parse,
            ),
            ObjAttribute::PolygonIndex => self.load_polygon(&ss, counter),
            ObjAttribute::ObjectName => Ok(()),
            ObjAttribute::MaterialName => Ok(()),
            ObjAttribute::Comment => Ok(()),
            ObjAttribute::Other => Ok(()),
        }
    }

    /// Reads the lines of a file into the mesh, from the first to the last,
    /// and stops at the first line that fails, with its error. The error
    /// names the line by its number, the first line being line 1. `parse`
    /// reads a number from its text.
    pub fn load<F: Fn(&str) -> Option<T>>(&mut self, lines: &Vec<&str>, parse: &F) -> (r:
        Result<(), ParseError>)
        requires
            forall|s: &str| parse.requires((s,)),
        ensures
            load_outcome(
                *parse,
                old(self)@,
                bytes_of_each(lines@),
                final(self)@,
                failure_of(r),
            ),
    {
        let mut i: usize = 0;
        proof {
            lemma_no_line(*parse, self@, bytes_of_each(lines@), self@);
        }
        while i < lines.len()
            invariant
                i <= lines@.len(),
                forall|s: &str| parse.requires((s,)),
                lines_loaded(*parse, old(self)@, bytes_of_each(lines@), i as int, self@),
            decreases lines@.len() - i,
        {
            let counter: usize = i + 1;
            let ghost mid = self@;
            assert(bytes_of_each(lines@)[i as int] == lines@[i as int].spec_bytes());
            match self.load_line(lines[i], counter, parse) {
                Ok(()) => {
                    proof {
                        lemma_one_more_line(
                            *parse,
                            old(self)@,
                            bytes_of_each(lines@),
                            i as int + 1,
                            mid,
                            self@,
                        );
                    }
                },
                Err(e) => {
                    proof {
                        let read = e@.line - 1;
                        assert(read == i);
                        assert(lines_loaded(
                            *parse,
                            old(self)@,
                            bytes_of_each(lines@),
                            read,
                            mid,
                        ) && line_step(
                            *parse,
                            mid,
                            bytes_of_each(lines@)[read],
                            e@.line,
                            self@,
                            Some(e@),
                        ));
                    }
                    return Err(e);
                },
            }
            i += 1;
        }
        Ok(())
    }
}

} // verus!
