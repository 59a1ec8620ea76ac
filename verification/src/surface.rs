//! Flat surfaces, each with vertices of its own, and the buffers that draw
//! a list of them.

use vstd::prelude::*;
use crate::graphics::{coords, quad_indices};
use crate::mesh::quad_corner;
use crate::vec3::Vec3;

verus! {

/// A triangle.
#[derive(Clone, Copy, Debug, PartialEq, Eq)]
pub struct Tri {
    pub vertices: [Vec3; 3],
}

/// A four-sided face, held as the two triangles that it is drawn as: the
/// first three corners, and the first, third and fourth.
#[derive(Clone, Copy, Debug, PartialEq, Eq)]
pub struct Quad {
    pub tris: [Tri; 2],
}

#[derive(Clone, Copy, Debug, PartialEq, Eq)]
pub enum Surface {
    Tri(Tri),
    Quad(Quad),
}

impl Tri {
    pub fn new(v1: Vec3, v2: Vec3, v3: Vec3) -> (r: Self)
        ensures
            r.vertices@ == seq![v1, v2, v3],
    {
        let vertices: [Vec3; 3] = [v1, v2, v3];
        assert(vertices@ =~= seq![v1, v2, v3]);
        Self { vertices }
    }

    /// The coordinates of the three corners.
    pub fn to_vertices(&self) -> (r: Vec<i64>)
        ensures
            r@ == coords(self.vertices@),
    {
        let mut out: Vec<i64> = Vec::new();
        let mut i: usize = 0;
        while i < 3
            invariant
                i <= 3,
                out@ == coords(self.vertices@.take(i as int)),
            decreases 3 - i,
        {
            let v: Vec3 = self.vertices[i];
            out.push(v.x);
            out.push(v.y);
            out.push(v.z);
            i += 1;
            assert(out@ =~= coords(self.vertices@.take(i as int)));
        }
        assert(self.vertices@.take(3) =~= self.vertices@);
        out
    }

    /// The indices of the triangle among its own corners.
    pub fn to_indices(&self) -> (r: Vec<u32>)
        ensures
            r@ == seq![0u32, 1, 2],
    {
        let mut out: Vec<u32> = Vec::new();
        out.push(0);
        out.push(1);
        out.push(2);
        assert(out@ =~= seq![0u32, 1, 2]);
        out
    }
}

impl Quad {
    /// The four corners in order.
    pub open spec fn corners(self) -> Seq<Vec3> {
        seq![
            self.tris[0].vertices[0],
            self.tris[0].vertices[1],
            self.tris[0].vertices[2],
            self.tris[1].vertices[2],
        ]
    }

    pub fn new(v1: Vec3, v2: Vec3, v3: Vec3, v4: Vec3) -> (r: Self)
        ensures
            r.tris[0].vertices@ == seq![v1, v2, v3],
            r.tris[1].vertices@ == seq![v1, v3, v4],
            r.corners() == seq![v1, v2, v3, v4],
    {
        let tris: [Tri; 2] = [Tri::new(v1, v2, v3), Tri::new(v1, v3, v4)];
        let r = Self { tris };
        assert(r.corners() =~= seq![v1, v2, v3, v4]);
        r
    }

    /// The coordinates of the four corners.
    pub fn to_vertices(&self) -> (r: Vec<i64>)
        ensures
            r@ == coords(self.corners()),
    {
        let a: Vec3 = self.tris[0].vertices[0];
        let b: Vec3 = self.tris[0].vertices[1];
        let c: Vec3 = self.tris[0].vertices[2];
        let d: Vec3 = self.tris[1].vertices[2];
        let mut out: Vec<i64> = Vec::new();
        out.push(a.x);
        out.push(a.y);
        out.push(a.z);
        out.push(b.x);
        out.push(b.y);
        out.push(b.z);
        out.push(c.x);
        out.push(c.y);
        out.push(c.z);
        out.push(d.x);
        out.push(d.y);
        out.push(d.z);
        assert(out@ =~= coords(self.corners()));
        out
    }

    /// The indices of the two triangles among the four corners.
    pub fn to_indices(&self) -> (r: Vec<u32>)
        ensures
            r@ == quad_indices(0),
    {
        let mut out: Vec<u32> = Vec::new();
        out.push(0);
        out.push(1);
        out.push(2);
        out.push(0);
        out.push(2);
        out.push(3);
        assert(out@ =~= quad_indices(0));
        out
    }
}

impl Surface {
    /// The corners of the surface.
    pub open spec fn corners(self) -> Seq<Vec3> {
        match self {
            Surface::Tri(tri) => tri.vertices@,
            Surface::Quad(quad) => quad.corners(),
        }
    }

    /// The indices of the triangles of the surface among its own corners.
    pub open spec fn own_indices(self) -> Seq<u32> {
        match self {
            Surface::Tri(_) => seq![0u32, 1, 2],
            Surface::Quad(_) => quad_indices(0),
        }
    }
}

/// The six faces of a box: the three that meet at its least corner, then
/// the three that meet at its greatest.
pub open spec fn box_faces(origin: Vec3, dims: Vec3) -> Seq<Seq<Vec3>> {
    let far = origin.plus(dims);
    let x = Vec3 { x: dims.x, y: 0, z: 0 };
    let y = Vec3 { x: 0, y: dims.y, z: 0 };
    let z = Vec3 { x: 0, y: 0, z: dims.z };
    let xy = Vec3 { x: dims.x, y: dims.y, z: 0 };
    let xz = Vec3 { x: dims.x, y: 0, z: dims.z };
    let yz = Vec3 { x: 0, y: dims.y, z: dims.z };
    seq![
        seq![origin, origin.plus(x), origin.plus(xy), origin.plus(y)],
        seq![origin, origin.plus(x), origin.plus(xz), origin.plus(z)],
        seq![origin, origin.plus(z), origin.plus(yz), origin.plus(y)],
        seq![far, far.minus(x), far.minus(xy), far.minus(y)],
        seq![far, far.minus(x), far.minus(xz), far.minus(z)],
        seq![far, far.minus(z), far.minus(yz), far.minus(y)],
    ]
}

/// The six faces of a box as surfaces.
pub fn block_surfaces(origin: &Vec3, dims: &Vec3) -> (r: Vec<Surface>)
    ensures
        r@.len() == 6,
        forall|i: int|
            0 <= i < 6 ==> (#[trigger] r@[i]) is Quad && r@[i].corners() == box_faces(
                *origin,
                *dims,
            )[i],
{
    let o: Vec3 = *origin;
    let far: Vec3 = o + *dims;
    let x: Vec3 = Vec3::new(dims.x, 0, 0);
    let y: Vec3 = Vec3::new(0, dims.y, 0);
    let z: Vec3 = Vec3::new(0, 0, dims.z);
    let xy: Vec3 = Vec3::new(dims.x, dims.y, 0);
    let xz: Vec3 = Vec3::new(dims.x, 0, dims.z);
    let yz: Vec3 = Vec3::new(0, dims.y, dims.z);
    let mut surfaces: Vec<Surface> = Vec::new();
    surfaces.push(Surface::Quad(Quad::new(o, o + x, o + xy, o + y)));
    surfaces.push(Surface::Quad(Quad::new(o, o + x, o + xz, o + z)));
    surfaces.push(Surface::Quad(Quad::new(o, o + z, o + yz, o + y)));
    surfaces.push(Surface::Quad(Quad::new(far, far - x, far - xy, far - y)));
    surfaces.push(Surface::Quad(Quad::new(far, far - x, far - xz, far - z)));
    surfaces.push(Surface::Quad(Quad::new(far, far - z, far - yz, far - y)));
    surfaces
}

/// The coordinates of the corners of each surface in turn.
pub open spec fn surface_positions(surfaces: Seq<Surface>) -> Seq<i64>
    decreases surfaces.len(),
{
    if surfaces.len() == 0 {
        Seq::empty()
    } else {
        surface_positions(surfaces.drop_last()) + coords(surfaces.last().corners())
    }
}

/// The number of corners of all the surfaces.
pub open spec fn corner_count(surfaces: Seq<Surface>) -> int
    decreases surfaces.len(),
{
    if surfaces.len() == 0 {
        0
    } else {
        corner_count(surfaces.drop_last()) + surfaces.last().corners().len()
    }
}

/// The indices of the triangles of each surface in turn, where the corners
/// of the surfaces are numbered in one run.
pub open spec fn surface_indices(surfaces: Seq<Surface>) -> Seq<u32>
    decreases surfaces.len(),
{
    if surfaces.len() == 0 {
        Seq::empty()
    } else {
        surface_indices(surfaces.drop_last()) + surfaces.last().own_indices().map_values(
            |i: u32| (i + corner_count(surfaces.drop_last())) as u32,
        )
    }
}

/// There are at most four corners to a surface.
pub proof fn lemma_corner_count(surfaces: Seq<Surface>)
    ensures
        0 <= corner_count(surfaces) <= 4 * surfaces.len(),
    decreases surfaces.len(),
{
    if surfaces.len() > 0 {
        lemma_corner_count(surfaces.drop_last());
    }
}

/// The vertex coordinates and the triangle indices that draw a list of
/// surfaces.
pub fn surface_buffers(surfaces: &Vec<Surface>) -> (r: (Vec<i64>, Vec<u32>))
    requires
        4 * surfaces@.len() <= u32::MAX,
    ensures
        r.0@ == surface_positions(surfaces@),
        r.1@ == surface_indices(surfaces@),
{
    let mut positions: Vec<i64> = Vec::new();
    let mut indices: Vec<u32> = Vec::new();
    let mut next_index: u32 = 0;
    let mut i: usize = 0;
    while i < surfaces.len()
        invariant
            i <= surfaces.len(),
            4 * surfaces@.len() <= u32::MAX,
            positions@ == surface_positions(surfaces@.take(i as int)),
            indices@ == surface_indices(surfaces@.take(i as int)),
            next_index == corner_count(surfaces@.take(i as int)),
        decreases surfaces.len() - i,
    {
        proof {
            let next = surfaces@.take(i as int + 1);
            assert(next.drop_last() =~= surfaces@.take(i as int));
            assert(next.last() == surfaces@[i as int]);
            lemma_corner_count(surfaces@.take(i as int));
        }
        let mut new_vertices: Vec<i64>;
        let mut new_indices: Vec<u32>;
        let index_add: u32;
        match &surfaces[i] {
            Surface::Quad(quad) => {
                new_vertices = quad.to_vertices();
                new_indices = quad.to_indices();
                index_add = 4;
            },
            Surface::Tri(tri) => {
                new_vertices = tri.to_vertices();
                new_indices = tri.to_indices();
                index_add = 3;
            },
        }
        positions.append(&mut new_vertices);
        let ghost own = new_indices@;
        let ghost before = indices@;
        let mut k: usize = 0;
        while k < new_indices.len()
            invariant
                k <= new_indices.len(),
                new_indices@ == own,
                own == surfaces@[i as int].own_indices(),
                next_index + 3 <= u32::MAX,
                indices@ == before + own.take(k as int).map_values(
                    |j: u32| (j + next_index) as u32,
                ),
            decreases new_indices.len() - k,
        {
            proof {
                assert(own[k as int] <= 3) by {
                    assert(quad_corner(k as int) <= 3);
                }
            }
            indices.push(new_indices[k] + next_index);
            k += 1;
            assert(indices@ =~= before + own.take(k as int).map_values(
                |j: u32| (j + next_index) as u32,
            ));
        }
        proof {
            assert(own.take(k as int) =~= own);
        }
        next_index += index_add;
        i += 1;
    }
    proof {
        assert(surfaces@.take(i as int) =~= surfaces@);
    }
    (positions, indices)
}

} // verus!
