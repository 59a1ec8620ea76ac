use grapple_world::surface::{block_surfaces, surface_buffers, Quad, Surface, Tri};
use grapple_world::vec3::Vec3;

fn v(x: i64, y: i64, z: i64) -> Vec3 {
    Vec3::new(x, y, z)
}

#[test]
fn triangle_lists_its_corners() {
    let t = Tri::new(v(1, 2, 3), v(4, 5, 6), v(7, 8, 9));
    assert_eq!(t.vertices, [v(1, 2, 3), v(4, 5, 6), v(7, 8, 9)]);
    assert_eq!(t.to_vertices(), vec![1, 2, 3, 4, 5, 6, 7, 8, 9]);
    assert_eq!(t.to_indices(), vec![0, 1, 2]);
}

#[test]
fn quad_is_two_triangles_over_four_corners() {
    let q = Quad::new(v(0, 0, 0), v(1, 0, 0), v(1, 1, 0), v(0, 1, 0));
    assert_eq!(q.tris[0], Tri::new(v(0, 0, 0), v(1, 0, 0), v(1, 1, 0)));
    assert_eq!(q.tris[1], Tri::new(v(0, 0, 0), v(1, 1, 0), v(0, 1, 0)));
    assert_eq!(q.to_vertices(), vec![0, 0, 0, 1, 0, 0, 1, 1, 0, 0, 1, 0]);
    assert_eq!(q.to_indices(), vec![0, 1, 2, 0, 2, 3]);
}

#[test]
fn block_has_six_faces() {
    let faces = block_surfaces(&v(1, 2, 3), &v(10, 20, 30));
    assert_eq!(faces.len(), 6);
    assert_eq!(
        faces[0],
        Surface::Quad(Quad::new(v(1, 2, 3), v(11, 2, 3), v(11, 22, 3), v(1, 22, 3)))
    );
    assert_eq!(
        faces[1],
        Surface::Quad(Quad::new(v(1, 2, 3), v(11, 2, 3), v(11, 2, 33), v(1, 2, 33)))
    );
    assert_eq!(
        faces[2],
        Surface::Quad(Quad::new(v(1, 2, 3), v(1, 2, 33), v(1, 22, 33), v(1, 22, 3)))
    );
    assert_eq!(
        faces[3],
        Surface::Quad(Quad::new(v(11, 22, 33), v(1, 22, 33), v(1, 2, 33), v(11, 2, 33)))
    );
    assert_eq!(
        faces[4],
        Surface::Quad(Quad::new(v(11, 22, 33), v(1, 22, 33), v(1, 22, 3), v(11, 22, 3)))
    );
    assert_eq!(
        faces[5],
        Surface::Quad(Quad::new(v(11, 22, 33), v(11, 22, 3), v(11, 2, 3), v(11, 2, 33)))
    );
}

#[test]
fn buffers_number_the_corners_in_one_run() {
    let surfaces = vec![
        Surface::Quad(Quad::new(v(0, 0, 0), v(1, 0, 0), v(1, 1, 0), v(0, 1, 0))),
        Surface::Tri(Tri::new(v(5, 5, 5), v(6, 5, 5), v(5, 6, 5))),
        Surface::Quad(Quad::new(v(0, 0, 9), v(1, 0, 9), v(1, 1, 9), v(0, 1, 9))),
    ];
    let (positions, indices) = surface_buffers(&surfaces);
    assert_eq!(
        positions,
        vec![
            0, 0, 0, 1, 0, 0, 1, 1, 0, 0, 1, 0, 5, 5, 5, 6, 5, 5, 5, 6, 5, 0, 0, 9, 1, 0, 9, 1, 1,
            9, 0, 1, 9
        ]
    );
    assert_eq!(indices, vec![0, 1, 2, 0, 2, 3, 4, 5, 6, 7, 8, 9, 7, 9, 10]);
}

#[test]
fn buffers_of_a_block_match_its_faces() {
    let (positions, indices) = surface_buffers(&block_surfaces(&v(1, 2, 3), &v(10, 20, 30)));
    assert_eq!(
        positions,
        grapple_world::graphics::get_block_vertices(&v(1, 2, 3), &v(10, 20, 30))
    );
    let mut index: u32 = 0;
    assert_eq!(indices, grapple_world::mesh::get_block_indices(&mut index));
}

#[test]
fn buffers_of_nothing_are_empty() {
    let (positions, indices) = surface_buffers(&Vec::new());
    assert!(positions.is_empty());
    assert!(indices.is_empty());
}
