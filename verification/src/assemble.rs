//! What is made of a mesh once its file is read: the normals in the order of
//! the triangle corners, and the vertex buffer of positions and normals.

use vstd::prelude::*;

use crate::error::IndexAlignmentError;
use crate::model::{Model, ModelView};

verus! {

/// The entry at place `i` of a flat pool: three scalars in a row.
pub open spec fn entry<T>(pool: Seq<T>, i: int) -> Seq<T> {
    pool.subrange(3 * i, 3 * i + 3)
}

/// How many whole entries a flat pool holds.
pub open spec fn entries<T>(pool: Seq<T>) -> int {
    pool.len() as int / 3
}

/// The vertex buffer of the positions `vertex` and the normals `normal`: for
/// every position, in order, its three scalars and then the three scalars of
/// the normal at the same place.
pub open spec fn interleaved<T>(vertex: Seq<T>, normal: Seq<T>) -> Seq<T> {
    Seq::new(
        (6 * entries(vertex)) as nat,
        |j: int|
            if j % 6 < 3 {
                vertex[3 * (j / 6) + j % 6]
            } else {
                normal[3 * (j / 6) + j % 6 - 3]
            },
    )
}

impl<T> ModelView<T> {
    /// The triangle corner at place `i` has a normal index, and the file
    /// gave a normal at that index.
    pub open spec fn normal_found(self, i: int) -> bool {
        0 <= i < self.indices.normal.len() && (self.indices.normal[i] as int) < entries(
            self.vertex_normal_tmp,
        )
    }

    /// Every triangle corner has a normal.
    pub open spec fn normals_found(self) -> bool {
        forall|i: int| 0 <= i < self.indices.vertex.len() ==> self.normal_found(i)
    }

    /// The normals in the order of the triangle corners: one for each entry
    /// of the vertex-index stream, found in the file's normals by the entry
    /// of the normal-index stream at the same place.
    pub open spec fn aligned_normals(self) -> Seq<T> {
        Seq::new(
            3 * self.indices.vertex.len(),
            |j: int| self.vertex_normal_tmp[3 * (self.indices.normal[j / 3] as int) + j % 3],
        )
    }

    /// Every position has a normal at its place among the aligned normals.
    pub open spec fn normals_cover_vertices(self) -> bool {
        entries(self.vertex) <= entries(self.vertex_normal)
    }
}

/// The aligned normals hold one normal for each triangle corner: the one
/// that the corner's normal index names.
pub proof fn lemma_aligned_normals<T>(m: ModelView<T>, i: int)
    requires
        0 <= i < m.indices.vertex.len(),
        m.normal_found(i),
    ensures
        m.aligned_normals().len() == 3 * m.indices.vertex.len(),
        entries(m.aligned_normals()) == m.indices.vertex.len(),
        entry(m.aligned_normals(), i) == entry(m.vertex_normal_tmp, m.indices.normal[i] as int),
{
    let aligned = m.aligned_normals();
    let k = m.indices.normal[i] as int;
    assert forall|j: int| 3 * i <= j < 3 * i + 3 implies #[trigger] aligned[j]
        == m.vertex_normal_tmp[3 * k + (j - 3 * i)] by {
        assert(j / 3 == i && j % 3 == j - 3 * i);
    }
    assert(entry(aligned, i) =~= entry(m.vertex_normal_tmp, k));
}

/// The vertex buffer holds six scalars for each position: the position, then
/// the normal at the same place.
pub proof fn lemma_interleaved_layout<T>(vertex: Seq<T>, normal: Seq<T>, i: int)
    requires
        entries(vertex) <= entries(normal),
        0 <= i < entries(vertex),
    ensures
        interleaved(vertex, normal).len() == 6 * entries(vertex),
        interleaved(vertex, normal).subrange(6 * i, 6 * i + 3) == entry(vertex, i),
        interleaved(vertex, normal).subrange(6 * i + 3, 6 * i + 6) == entry(normal, i),
{
    let buffer = interleaved(vertex, normal);
    assert forall|j: int| 6 * i <= j < 6 * i + 6 implies #[trigger] buffer[j] == if j - 6 * i < 3 {
        vertex[3 * i + (j - 6 * i)]
    } else {
        normal[3 * i + (j - 6 * i) - 3]
    } by {
        assert(j / 6 == i && j % 6 == j - 6 * i);
    }
    assert(buffer.subrange(6 * i, 6 * i + 3) =~= entry(vertex, i));
    assert(buffer.subrange(6 * i + 3, 6 * i + 6) =~= entry(normal, i));
}

/// The normals cannot be aligned where a triangle corner has no normal: where
/// the file wrote it without a normal index, so that the normal-index stream
/// is shorter than the vertex-index stream, or with one that is beyond the
/// normals of the file.
pub proof fn lemma_corner_without_normal<T>(m: ModelView<T>, i: int)
    requires
        0 <= i < m.indices.vertex.len(),
        i >= m.indices.normal.len() || m.indices.normal[i] >= entries(m.vertex_normal_tmp),
    ensures
        !m.normals_found(),
{
    assert(!m.normal_found(i));
}

/// Once the normals are aligned, the vertex buffer can be made of a mesh
/// whose triangles have at least as many corners as it has positions.
pub proof fn lemma_aligned_cover<T>(m: ModelView<T>)
    requires
        entries(m.vertex) <= m.indices.vertex.len(),
    ensures
        (ModelView { vertex_normal: m.aligned_normals(), ..m }).normals_cover_vertices(),
{
}

impl<T: Copy> Model<T> {
    /// Puts the normals in the order of the triangle corners, as
    /// `aligned_normals` says. This fails where a corner has no normal index
    /// or one that the file gave no normal for; the error names the first
    /// such corner, and the mesh is left as it was.
    pub fn create_vertex_normal(&mut self) -> (r: Result<(), IndexAlignmentError>)
        ensures
            match r {
                Ok(_) => old(self)@.normals_found() && final(self)@ == (ModelView {
                    vertex_normal: old(self)@.aligned_normals(),
                    ..old(self)@
                }),
                Err(e) => final(self)@ == old(self)@ && !old(self)@.normal_found(
                    e.position as int,
                ) && e.position < old(self)@.indices.vertex.len() && forall|i: int|
                    0 <= i < e.position ==> old(self)@.normal_found(i),
            },
    {
        let corners = self.indices.vertex_indices.len();
        let normals = self.vertex_normal_tmp.len() / 3;
        let mut aligned: Vec<T> = Vec::new();
        let mut i: usize = 0;
        while i < corners
            invariant
                self@ == old(self)@,
                corners == self@.indices.vertex.len(),
                normals == entries(self@.vertex_normal_tmp),
                self@.vertex_normal_tmp.len() <= usize::MAX,
                i <= corners,
                aligned@.len() == 3 * i,
                forall|t: int| 0 <= t < i ==> self@.normal_found(t),
                forall|j: int|
                    0 <= j < 3 * i ==> #[trigger] aligned@[j] == self@.vertex_normal_tmp[3 * (
                    self@.indices.normal[j / 3] as int) + j % 3],
            decreases corners - i,
        {
            if i >= self.indices.normal_indices.len() {
                return Err(IndexAlignmentError { position: i });
            }
            let k = self.indices.normal_indices[i] as usize;
            if k >= normals {
                return Err(IndexAlignmentError { position: i });
            }
            let ghost so_far = aligned@;
            assert(3 * k + 2 < self.vertex_normal_tmp@.len()) by {
                assert(3 * (self.vertex_normal_tmp@.len() as int / 3)
                    <= self.vertex_normal_tmp@.len());
            }
            aligned.push(self.vertex_normal_tmp[3 * k]);
            aligned.push(self.vertex_normal_tmp[3 * k + 1]);
            aligned.push(self.vertex_normal_tmp[3 * k + 2]);
            assert forall|j: int| 0 <= j < 3 * (i + 1) implies #[trigger] aligned@[j]
                == self@.vertex_normal_tmp[3 * (self@.indices.normal[j / 3] as int) + j % 3] by {
                if j < 3 * i {
                    assert(aligned@[j] == so_far[j]);
                } else {
                    assert(j / 3 == i && j % 3 == j - 3 * i);
                }
            }
            i += 1;
        }
        assert(aligned@ =~= self@.aligned_normals());
        self.vertex_normal = aligned;
        Ok(())
    }

    /// Whether the vertex buffer can be made: every position has a normal at
    /// its place among the aligned normals.
    pub fn normals_cover_vertices(&self) -> (covered: bool)
        ensures
            covered == self@.normals_cover_vertices(),
    {
        self.vertex.len() / 3 <= self.vertex_normal.len() / 3
    }

    /// Makes the vertex buffer: for every position, in order, its three
    /// scalars and then the three scalars of the aligned normal at the same
    /// place. The caller sees to it that every position has an aligned normal
    /// at its place, which `normals_cover_vertices` tells. Position and
    /// normal are paired by their place alone: where faces share positions,
    /// the triangle corners outnumber the positions, and the aligned normals
    /// beyond the last position are left out.
    pub fn create_concat_vertex(&self) -> (vec: Vec<T>)
        requires
            self@.normals_cover_vertices(),
        ensures
            vec@ == interleaved(self@.vertex, self@.vertex_normal),
    {
        let mut vec: Vec<T> = Vec::new();
        let vertex_num = self.vertex.len() / 3;
        let mut i: usize = 0;
        while i < vertex_num
            invariant
                vertex_num == entries(self@.vertex),
                vertex_num <= entries(self@.vertex_normal),
                self@.vertex.len() <= usize::MAX,
                i <= vertex_num,
                vec@.len() == 6 * i,
                forall|j: int|
                    0 <= j < 6 * i ==> #[trigger] vec@[j] == interleaved(
                        self@.vertex,
                        self@.vertex_normal,
                    )[j],
            decreases vertex_num - i,
        {
            let ghost so_far = vec@;
            assert(i * 3 + 2 < self.vertex@.len() && i * 3 + 2 < self.vertex_normal@.len()) by {
                assert(3 * (self.vertex@.len() as int / 3) <= self.vertex@.len());
                assert(3 * (self.vertex_normal@.len() as int / 3) <= self.vertex_normal@.len());
            }
            vec.push(self.vertex[i * 3]);
            vec.push(self.vertex[i * 3 + 1]);
            vec.push(self.vertex[i * 3 + 2]);
            vec.push(self.vertex_normal[i * 3]);
            vec.push(self.vertex_normal[i * 3 + 1]);
            vec.push(self.vertex_normal[i * 3 + 2]);
            assert forall|j: int| 0 <= j < 6 * (i + 1) implies #[trigger] vec@[j] == interleaved(
                self@.vertex,
                self@.vertex_normal,
            )[j] by {
                if j < 6 * i {
                    assert(vec@[j] == so_far[j]);
                } else {
                    assert(j / 6 == i && j % 6 == j - 6 * i);
                }
            }
            i += 1;
        }
        assert(vec@ =~= interleaved(self@.vertex, self@.vertex_normal));
        vec
    }
}

} // verus!
