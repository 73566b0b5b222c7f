//! Faces by their number of corners, and the triangles that each is cut into.

use vstd::prelude::*;

verus! {

/// A face, named by how many corners it has.
#[derive(Clone, Copy, PartialEq, Eq, Debug, Structural)]
pub enum Polygon {
    Triangle,
    Quadrangle,
    Pentagon,
    Hexagon,
    /// Fewer than three corners or more than six: no triangles are made of it.
    Polygon,
}

impl Polygon {
    /// The polygon with `corners` corners.
    pub open spec fn with_corners(corners: nat) -> Polygon {
        if corners == 3 {
            Polygon::Triangle
        } else if corners == 4 {
            Polygon::Quadrangle
        } else if corners == 5 {
            Polygon::Pentagon
        } else if corners == 6 {
            Polygon::Hexagon
        } else {
            Polygon::Polygon
        }
    }

    /// How many corners the polygon has, where it is one of the four that
    /// are cut into triangles.
    pub open spec fn corners(self) -> nat {
        match self {
            Polygon::Triangle => 3,
            Polygon::Quadrangle => 4,
            Polygon::Pentagon => 5,
            Polygon::Hexagon => 6,
            Polygon::Polygon => 0,
        }
    }

    /// How many triangles the polygon is cut into.
    pub open spec fn triangles(self) -> nat {
        match self {
            Polygon::Triangle => 1,
            Polygon::Quadrangle => 2,
            Polygon::Pentagon => 3,
            Polygon::Hexagon => 4,
            Polygon::Polygon => 0,
        }
    }

    /// The corners of the polygon's triangles, one triangle after the other,
    /// each corner by its place in the face.
    pub open spec fn fan(self) -> Seq<int> {
        match self {
            Polygon::Triangle => seq![0, 1, 2],
            Polygon::Quadrangle => seq![0, 1, 2, 2, 3, 0],
            Polygon::Pentagon => seq![0, 1, 2, 2, 3, 4, 4, 0, 1],
            Polygon::Hexagon => seq![0, 1, 2, 2, 3, 4, 4, 5, 0, 0, 2, 4],
            Polygon::Polygon => seq![],
        }
    }

    /// Three corners go to every triangle, and each is a corner of the face.
    pub proof fn lemma_fan(self)
        ensures
            self.fan().len() == 3 * self.triangles(),
            forall|j: int|
                0 <= j < self.fan().len() ==> 0 <= #[trigger] self.fan()[j] < self.corners(),
    {
    }

    /// A face with three to six corners is cut into two triangles fewer than
    /// it has corners; any other face into none.
    pub proof fn lemma_triangle_count(corners: nat)
        ensures
            3 <= corners <= 6 ==> Self::with_corners(corners).triangles() == corners - 2
                && Self::with_corners(corners).corners() == corners,
            !(3 <= corners <= 6) ==> Self::with_corners(corners).triangles() == 0,
    {
    }

    /// Names the polygon with `corners` corners.
    pub fn from_corner_count(corners: usize) -> (polygon: Polygon)
        ensures
            polygon == Self::with_corners(corners as nat),
    {
        if corners == 3 {
            Polygon::Triangle
        } else if corners == 4 {
            Polygon::Quadrangle
        } else if corners == 5 {
            Polygon::Pentagon
        } else if corners == 6 {
            Polygon::Hexagon
        } else {
            Polygon::Polygon
        }
    }

    /// Lists the corners of the polygon's triangles in the order of `fan`.
    pub fn corner_order(self) -> (order: Vec<usize>)
        ensures
            order@.len() == self.fan().len(),
            forall|j: int| 0 <= j < order@.len() ==> order@[j] == self.fan()[j],
    {
        match self {
            Polygon::Triangle => vec![0, 1, 2],
            Polygon::Quadrangle => vec![0, 1, 2, 2, 3, 0],
            Polygon::Pentagon => vec![0, 1, 2, 2, 3, 4, 4, 0, 1],
            Polygon::Hexagon => vec![0, 1, 2, 2, 3, 4, 4, 5, 0, 0, 2, 4],
            Polygon::Polygon => Vec::new(),
        }
    }
}

} // verus!
