use grapple_world::mesh::{get_block_indices, grid_indices, grid_positions, push_quad_indices};

#[test]
fn quad_indices_make_two_triangles() {
    let mut indices: Vec<u32> = vec![9];
    let mut index: u32 = 100;
    push_quad_indices(&mut indices, &mut index);
    assert_eq!(indices, vec![9, 100, 101, 102, 100, 102, 103]);
    assert_eq!(index, 104);
}

#[test]
fn block_indices_cover_six_faces() {
    let mut index: u32 = 0;
    let first = get_block_indices(&mut index);
    assert_eq!(
        first,
        vec![
            0, 1, 2, 0, 2, 3, 4, 5, 6, 4, 6, 7, 8, 9, 10, 8, 10, 11, 12, 13, 14, 12, 14, 15, 16,
            17, 18, 16, 18, 19, 20, 21, 22, 20, 22, 23
        ]
    );
    assert_eq!(index, 24);
    let second = get_block_indices(&mut index);
    assert_eq!(index, 48);
    assert_eq!(second.len(), 36);
    for k in 0..36 {
        assert_eq!(second[k], first[k] + 24);
    }
}

#[test]
fn block_indices_up_to_the_last_index() {
    let mut index: u32 = u32::MAX - 24;
    let last = get_block_indices(&mut index);
    assert_eq!(index, u32::MAX);
    assert_eq!(last[35], u32::MAX - 1);
}

#[test]
fn grid_indices_of_a_small_grid() {
    assert_eq!(grid_indices(0), Vec::<u16>::new());
    assert_eq!(grid_indices(1), vec![0, 2, 3, 0, 3, 1]);
    assert_eq!(
        grid_indices(2),
        vec![0, 3, 4, 0, 4, 1, 1, 4, 5, 1, 5, 2, 3, 6, 7, 3, 7, 4, 4, 7, 8, 4, 8, 5]
    );
}

#[test]
fn grid_indices_of_the_finest_grid() {
    let indices = grid_indices(255);
    assert_eq!(indices.len(), 6 * 255 * 255);
    assert_eq!(indices[indices.len() - 1], 254 * 256 + 254 + 1);
    assert_eq!(indices[indices.len() - 4], 65_535);
    assert_eq!(*indices.iter().max().unwrap(), 65_535);
}

#[test]
fn grid_positions_span_two_units() {
    assert_eq!(
        grid_positions(1),
        vec![
            -1_000_000, 0, -1_000_000, 1_000_000, 0, -1_000_000, -1_000_000, 0, 1_000_000,
            1_000_000, 0, 1_000_000
        ]
    );
    let grid = grid_positions(2);
    assert_eq!(grid.len(), 27);
    assert_eq!(grid[..9], [-1_000_000, 0, -1_000_000, 0, 0, -1_000_000, 1_000_000, 0, -1_000_000]);
    assert_eq!(grid[12..15], [0, 0, 0]);
    assert_eq!(grid[24..], [1_000_000, 0, 1_000_000]);
    let thirds = grid_positions(3);
    assert_eq!(thirds[3], -333_334);
    assert_eq!(thirds[9], 999_998);
    assert_eq!(grid_positions(255).len(), 3 * 256 * 256);
    assert_eq!(grid_positions(10).len(), 363);
}
