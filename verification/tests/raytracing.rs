use fyrox_gfx::raytracing::{append_triangles, scene_key, scissor_from_top};

#[test]
fn the_scissor_box_is_measured_from_the_top() {
    assert_eq!(scissor_from_top(600, 10, 20, 100, 50), [10, 530, 100, 50]);
    assert_eq!(scissor_from_top(600, -5, 580, 100, 50), [0, 0, 100, 50]);
    assert_eq!(scissor_from_top(100, 0, 0, -1, -2), [0, 102, 0, 0]);
}

#[test]
fn triangles_follow_the_vertices_before_them() {
    let mut indices = vec![0, 1, 2];
    // Four vertices (twelve coordinates) were gathered before this surface.
    append_triangles(&mut indices, 12, &vec![[0, 1, 2], [2, 1, 3]]);
    assert_eq!(indices, vec![0, 1, 2, 4, 5, 6, 6, 5, 7]);

    let mut first = Vec::new();
    append_triangles(&mut first, 0, &vec![[5, 6, 7]]);
    assert_eq!(first, vec![5, 6, 7]);

    let mut none = vec![9];
    append_triangles(&mut none, 30, &Vec::new());
    assert_eq!(none, vec![9]);
}

#[test]
fn the_structure_is_rebuilt_when_the_meshes_change() {
    let built = scene_key(3, &vec![(10, 1), (11, 1), (12, 1)]);
    assert_eq!(built.0, 3);
    assert_eq!(scene_key(3, &vec![(10, 1), (11, 1), (12, 1)]), built);
    // As many meshes as before, but other ones.
    assert_ne!(scene_key(3, &vec![(10, 1), (11, 1), (13, 1)]), built);
    assert_ne!(scene_key(3, &vec![(10, 1), (11, 1), (12, 2)]), built);
    assert_ne!(scene_key(3, &vec![(10, 1), (11, 1)]), built);
    assert_ne!(scene_key(4, &vec![(10, 1), (11, 1), (12, 1)]), built);
}
