use ggl::obj_mesh::{
    all_some, count_up, extract_attribute_indices, gather, interleaved_vertex_data, is_all_loadable, is_loadable,
    obj_meshes,
    object_mesh_data, Group, IndexTuple, Object, ObjData, SimplePolygon,
};

fn tri(a: IndexTuple, b: IndexTuple, c: IndexTuple) -> SimplePolygon {
    SimplePolygon(vec![a, b, c])
}

fn positions() -> Vec<[f32; 3]> {
    vec![[0.0, 0.0, 0.0], [1.0, 0.0, 0.0], [0.0, 1.0, 0.0], [0.0, 0.0, 1.0]]
}

fn full_group() -> Group {
    Group {
        polys: vec![
            tri(IndexTuple(0, Some(0), Some(0)), IndexTuple(1, Some(1), Some(0)), IndexTuple(2, Some(0), Some(0))),
            tri(IndexTuple(1, Some(1), Some(1)), IndexTuple(3, Some(0), Some(1)), IndexTuple(2, Some(1), Some(1))),
        ],
    }
}

#[test]
fn attribute_indices_are_flattened_in_order() {
    let g = full_group();
    let pos = extract_attribute_indices(&g, |t: &IndexTuple| t.0);
    assert_eq!(pos, vec![0, 1, 2, 1, 3, 2]);
    let tex = extract_attribute_indices(&g, |t: &IndexTuple| t.1);
    assert_eq!(tex, vec![Some(0), Some(1), Some(0), Some(1), Some(0), Some(1)]);
}

#[test]
fn gather_flattens_entries() {
    let table = vec![[1u8, 2, 3], [4, 5, 6]];
    assert_eq!(gather(&table, &vec![1, 0, 1]), vec![4, 5, 6, 1, 2, 3, 4, 5, 6]);
    assert!(gather(&table, &vec![]).is_empty());
}

#[test]
fn all_some_and_count_up() {
    assert!(all_some(&vec![Some(1), Some(2)]));
    assert!(!all_some(&vec![Some(1), None]));
    assert!(all_some(&vec![]));
    assert_eq!(count_up(4), vec![0, 1, 2, 3]);
    assert!(count_up(0).is_empty());
}

#[test]
fn object_with_all_attributes() {
    let object = Object { groups: vec![full_group()] };
    let tex = vec![[0.0f32, 0.0], [1.0, 1.0]];
    let norm = vec![[0.0f32, 0.0, 1.0], [0.0, 1.0, 0.0]];
    let m = object_mesh_data(&object, &positions(), &tex, &norm);
    assert_eq!(m.positions.len(), 18);
    assert_eq!(&m.positions[3..6], &[1.0, 0.0, 0.0]);
    assert_eq!(m.texture_coordinates.len(), 12);
    assert_eq!(&m.texture_coordinates[2..4], &[1.0, 1.0]);
    let n = m.normals.unwrap();
    assert_eq!(n.len(), 18);
    assert_eq!(&n[9..12], &[0.0, 1.0, 0.0]);
    assert_eq!(m.indices, (0u32..18).collect::<Vec<u32>>());
}

#[test]
fn object_missing_normals_and_textures() {
    let g = Group {
        polys: vec![tri(IndexTuple(0, None, Some(0)), IndexTuple(1, Some(0), None), IndexTuple(2, None, None))],
    };
    let object = Object { groups: vec![g] };
    let m = object_mesh_data(&object, &positions(), &vec![[0.5f32, 0.5]], &vec![[0.0f32, 0.0, 1.0]]);
    assert_eq!(m.positions.len(), 9);
    assert!(m.texture_coordinates.is_empty());
    assert!(m.normals.is_none());
}

#[test]
fn every_object_gets_a_mesh() {
    let data = ObjData {
        position: positions(),
        texture: vec![[0.0f32, 0.0], [1.0, 1.0]],
        normal: vec![[0.0f32, 0.0, 1.0], [0.0, 1.0, 0.0]],
        objects: vec![Object { groups: vec![full_group()] }, Object { groups: vec![Group { polys: vec![] }] }],
    };
    let meshes = obj_meshes(&data);
    assert_eq!(meshes.len(), 2);
    assert_eq!(meshes[0].positions.len(), 18);
    assert!(meshes[1].positions.is_empty());
    assert_eq!(meshes[1].normals, Some(vec![]));
}

#[test]
fn interleaved_vertices_put_normal_before_texture() {
    let g = Group {
        polys: vec![tri(IndexTuple(1, Some(0), Some(0)), IndexTuple(2, None, Some(0)), IndexTuple(3, Some(0), None))],
    };
    let norm = vec![[7u8, 8, 9]];
    let tex = vec![[5u8, 6]];
    let pos = vec![[0u8, 0, 0], [1, 1, 1], [2, 2, 2], [3, 3, 3]];
    let (pnt, inds) = interleaved_vertex_data(&g, &pos, &norm, &tex);
    assert_eq!(pnt, vec![1, 1, 1, 7, 8, 9, 5, 6, 2, 2, 2, 7, 8, 9, 3, 3, 3, 5, 6]);
    assert_eq!(inds, vec![0, 1, 2]);
}

#[test]
fn interleaved_indices_count_three_per_polygon() {
    let quad = SimplePolygon(vec![
        IndexTuple(0, None, None),
        IndexTuple(1, None, None),
        IndexTuple(2, None, None),
        IndexTuple(3, None, None),
    ]);
    let g = Group { polys: vec![quad, tri(IndexTuple(0, None, None), IndexTuple(1, None, None), IndexTuple(2, None, None))] };
    let pos = vec![[0u8, 0, 0], [1, 1, 1], [2, 2, 2], [3, 3, 3]];
    let (pnt, inds) = interleaved_vertex_data(&g, &pos, &vec![], &vec![]);
    assert_eq!(pnt.len(), 21);
    assert_eq!(inds, vec![0, 1, 2, 3, 4, 5]);
}

#[test]
fn loadability_checks_groups_and_ranges() {
    let good = Object { groups: vec![full_group()] };
    assert!(is_loadable(&good, 4, 2, 2));
    assert!(!is_loadable(&good, 3, 2, 2));
    assert!(!is_loadable(&good, 4, 1, 2));
    assert!(!is_loadable(&good, 4, 2, 1));
    assert!(!is_loadable(&Object { groups: vec![] }, 4, 2, 2));

    // A texture index out of range does not matter where some corner has none.
    let partial = Object {
        groups: vec![Group {
            polys: vec![tri(IndexTuple(0, Some(7), None), IndexTuple(1, None, None), IndexTuple(2, Some(9), None))],
        }],
    };
    assert!(is_loadable(&partial, 3, 0, 0));

    let mut data = ObjData {
        position: positions(),
        texture: vec![[0.0f32, 0.0], [1.0, 1.0]],
        normal: vec![[0.0f32, 0.0, 1.0], [0.0, 1.0, 0.0]],
        objects: vec![good, Object { groups: vec![Group { polys: vec![] }] }],
    };
    assert!(is_all_loadable(&data));
    data.objects.push(Object { groups: vec![] });
    assert!(!is_all_loadable(&data));
}
