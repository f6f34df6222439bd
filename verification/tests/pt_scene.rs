use prism::acceleration_structure::{BlasEntry, Tlas};
use prism::gpu::Release;
use prism::pt_scene::{
    build_pt_scene, collect_emissive, combine_instances, create_emissive_buffer,
    create_storage_buffer, emission_offset, emissive_buffer_size, flatten_instances, flatten_meshes, resolve_indices, scene_blas_params,
    scene_tlas_instances, test_cube_geometry, visit_scene, EmissiveTriangle, FlatMesh,
    MaterialSlots, OwnedBuffer, Primitive, PtGeometryInstance, PtScene,
    ReadPrimitive, SceneError, SceneNode, ScenePart, SceneStep, CULL_DISABLE,
};

fn instance(vertices: Vec<char>, indices: Vec<u32>, slot: u32) -> PtGeometryInstance<char> {
    PtGeometryInstance { vertices, indices, material_slot: slot }
}

#[test]
fn instances_are_combined() {
    let list = vec![
        instance(vec!['a', 'b', 'c'], vec![0, 1, 2], 4),
        instance(vec!['d', 'e', 'f', 'g'], vec![3, 2, 1, 0, 1, 2], 5),
    ];
    let g = combine_instances(&list).ok().unwrap();
    assert_eq!(g.vertices, vec!['a', 'b', 'c', 'd', 'e', 'f', 'g']);
    assert_eq!(g.indices, vec![0, 1, 2, 6, 5, 4, 3, 4, 5]);
    assert_eq!(g.meta[1].material_slot, 5);
    assert_eq!(g.meta[1].index_base, 3);
    assert_eq!(g.meta[1].vertex_base, 3);
    assert_eq!(g.meta[1].pad, 0);
    let params = scene_blas_params(&list, &g.meta, 7, 1000, 2000);
    assert_eq!(params[1].index_addr, 2012);
    assert_eq!(params[1].vertex_addr, 1000);
    assert_eq!(params[1].vertex_count, 7);
    assert_eq!(params[1].tri_count, 2);
}

#[test]
fn no_instances_is_an_error() {
    let none: Vec<PtGeometryInstance<char>> = Vec::new();
    assert!(matches!(combine_instances(&none), Err(SceneError::NoInstances)));
}

#[test]
fn top_level_instances_are_numbered() {
    let list = scene_tlas_instances(3, 'i');
    assert_eq!(list.len(), 3);
    assert_eq!(list[2].custom_index, 2);
    assert_eq!(list[2].mask, 0xff);
    assert_eq!(list[2].flags, CULL_DISABLE);
    assert_eq!(
        CULL_DISABLE,
        ash::vk::GeometryInstanceFlagsKHR::TRIANGLE_FACING_CULL_DISABLE.as_raw()
    );
}

#[test]
fn emissive_triangles_are_collected() {
    let list = vec![
        instance(vec!['a'; 3], vec![0, 1, 2], 0),
        instance(vec!['b'; 3], vec![2, 1, 0, 0, 0, 1, 7], 1),
    ];
    let tris = collect_emissive(&list, &vec![false, true]);
    assert_eq!(
        tris,
        vec![
            EmissiveTriangle { instance: 1, a: 2, b: 1, c: 0 },
            EmissiveTriangle { instance: 1, a: 0, b: 0, c: 1 },
        ]
    );
}

#[test]
fn emissive_triangles_are_limited() {
    let many = vec![instance(vec!['a'; 3], vec![0; 6000], 0)];
    assert_eq!(collect_emissive(&many, &vec![true]).len(), 1024);
}

#[test]
fn emission_stands_in_the_material() {
    assert_eq!(emission_offset(0, 32), Some(24));
    assert_eq!(emission_offset(2, 2 * 96 + 32), Some(216));
    assert_eq!(emission_offset(2, 2 * 96 + 31), None);
}

#[test]
fn flat_mesh_moves_indices() {
    let mut mesh: FlatMesh<char> = FlatMesh::new();
    mesh.append_mesh(&vec![Primitive { vertices: vec!['a', 'b'], indices: vec![0, 1] }]);
    mesh.append_mesh(&vec![Primitive { vertices: vec!['c', 'd'], indices: vec![1, 0] }]);
    assert_eq!(mesh.vertices, vec!['a', 'b', 'c', 'd']);
    assert_eq!(mesh.indices, vec![0, 1, 3, 2]);
}

#[test]
fn missing_indices_count_the_vertices() {
    assert_eq!(resolve_indices(&Vec::new(), 3), vec![0, 1, 2]);
    assert_eq!(resolve_indices(&vec![5, 4], 3), vec![5, 4]);
}

#[test]
fn materials_get_slots_as_they_come() {
    let mut slots = MaterialSlots::new();
    assert_eq!(slots.slot_of(Some(9)), 0);
    assert_eq!(slots.slot_of(None), 1);
    assert_eq!(slots.slot_of(Some(0)), 1);
    assert_eq!(slots.slot_of(Some(9)), 0);
}

#[test]
fn cube_has_six_faces() {
    let (vertices, indices) = test_cube_geometry();
    assert_eq!(vertices.len(), 24);
    assert_eq!(vertices[0], [-2, -2, -2]);
    assert_eq!(vertices[4], [2, -2, 2]);
    assert_eq!(indices[6..12], [4, 5, 6, 4, 6, 7]);
    assert!(vertices.iter().all(|v| v.iter().all(|x| x.abs() == 2)));
}

#[test]
fn scene_is_destroyed_once() {
    let b = |n: u64| OwnedBuffer { buffer: n, memory: n + 1 };
    let mut scene = PtScene::new(
        b(10),
        77,
        b(20),
        b(30),
        b(40),
        vec![BlasEntry { handle: 1, device_address: 9, buffer: 50, memory: 51 }],
        Tlas { handle: 2, device_address: 9, buffer: 60, memory: 61 },
        1,
    );
    assert_eq!(scene.vertex_address, 77);
    let released = scene.destroy();
    assert_eq!(released.len(), 14);
    assert_eq!(released[0], Release::Buffer(10));
    assert_eq!(released[8], Release::AccelerationStructure(1));
    assert_eq!(released[13], Release::Memory(61));
    assert!(scene.release().is_empty());
}

fn node(value: char, children: Vec<SceneNode<char>>) -> SceneNode<char> {
    SceneNode { value, children }
}

#[test]
fn nodes_are_visited_parents_first() {
    let roots = vec![
        node('a', vec![node('b', vec![node('c', vec![])]), node('d', vec![])]),
        node('e', vec![node('f', vec![])]),
    ];
    let visits = visit_scene(&roots);
    let values: String = visits.iter().map(|v| v.value).collect();
    assert_eq!(values, "abcdef");
    let parents: Vec<Option<usize>> = visits.iter().map(|v| v.parent).collect();
    assert_eq!(parents, vec![None, Some(0), Some(1), Some(0), None, Some(4)]);
    for (i, p) in parents.iter().enumerate() {
        assert!(p.map_or(true, |p| p < i));
    }
    assert!(visit_scene::<char>(&Vec::new()).is_empty());
}

#[test]
fn meshes_are_flattened() {
    let mesh = |v: Vec<char>, indices: Vec<u32>| vec![Primitive { vertices: v, indices }];
    let meshes = vec![mesh(vec!['a', 'b', 'c'], vec![0, 1, 2]), mesh(vec!['d'], vec![0, 0, 0])];
    let flat = flatten_meshes(&meshes).ok().unwrap();
    assert_eq!(flat.vertices, vec!['a', 'b', 'c', 'd']);
    assert_eq!(flat.indices, vec![0, 1, 2, 3, 3, 3]);
    let empty = vec![mesh(vec![], vec![])];
    assert!(matches!(flatten_meshes(&empty), Err(SceneError::NoGeometry)));
}

#[test]
fn later_primitives_of_a_mesh_find_their_own_vertices() {
    let meshes = vec![vec![
        Primitive { vertices: vec!['a', 'b'], indices: vec![0, 1] },
        Primitive { vertices: vec!['c'], indices: vec![0] },
    ]];
    let flat = flatten_meshes(&meshes).ok().unwrap();
    assert_eq!(flat.vertices, vec!['a', 'b', 'c']);
    assert_eq!(flat.indices, vec![0, 1, 2]);
}

#[test]
fn primitives_become_instances() {
    let prim = |v: Vec<char>, indices: Vec<u32>, material| ReadPrimitive {
        vertices: v,
        indices,
        material,
    };
    let flat = flatten_instances(&vec![
        prim(vec!['a', 'b', 'c'], vec![], Some(7)),
        prim(vec![], vec![0, 1], Some(8)),
        prim(vec!['d'], vec![0, 0, 0], None),
        prim(vec!['e'], vec![0], Some(0)),
    ]);
    assert_eq!(flat.materials, vec![7, 8, 0]);
    assert_eq!(flat.instances.len(), 3);
    assert_eq!(flat.instances[0].indices, vec![0, 1, 2]);
    assert_eq!(flat.instances[1].indices, vec![0, 0, 0]);
    let slots: Vec<u32> = flat.instances.iter().map(|i| i.material_slot).collect();
    assert_eq!(slots, vec![0, 2, 2]);
}

#[test]
fn scene_is_built_in_order() {
    let list = vec![instance(vec!['a', 'b', 'c'], vec![0, 1, 2, 2, 1, 0], 4)];
    let (g, steps) = build_pt_scene(&list, 60, 96).ok().unwrap();
    assert_eq!(g.indices.len(), 6);
    assert_eq!(
        steps,
        vec![
            SceneStep::CreateStorage { part: ScenePart::Vertices, buffer: create_storage_buffer(180) },
            SceneStep::TakeAddress { part: ScenePart::Vertices },
            SceneStep::CreateStorage { part: ScenePart::Indices, buffer: create_storage_buffer(24) },
            SceneStep::TakeAddress { part: ScenePart::Indices },
            SceneStep::CreateStorage { part: ScenePart::InstanceMeta, buffer: create_storage_buffer(16) },
            SceneStep::CreateStorage { part: ScenePart::Materials, buffer: create_storage_buffer(96) },
            SceneStep::BuildBlas { count: 1 },
            SceneStep::BuildTlas { count: 1 },
        ]
    );
    assert!(matches!(
        build_pt_scene::<char>(&Vec::new(), 60, 96),
        Err(SceneError::NoInstances)
    ));
}

#[test]
fn emissive_buffer_can_be_missing() {
    let made = OwnedBuffer { buffer: 1, memory: 2 };
    assert_eq!(emissive_buffer_size(0), None);
    assert_eq!(emissive_buffer_size(3), Some(252));
    assert_eq!(create_emissive_buffer(3, Some(made)), (Some(made), 3));
    assert_eq!(create_emissive_buffer(3, None), (None, 0));
    assert_eq!(create_emissive_buffer(0, None), (None, 0));
}

#[test]
fn cube_is_a_closed_surface() {
    let (vertices, indices) = test_cube_geometry();
    let mut edges = Vec::new();
    for t in indices.chunks(3) {
        for k in 0..3 {
            edges.push((vertices[t[k] as usize], vertices[t[(k + 1) % 3] as usize]));
        }
    }
    for (a, b) in edges.iter() {
        assert_eq!(edges.iter().filter(|e| e.0 == *b && e.1 == *a).count(), 1);
    }
}
