use prism::acceleration_structure::{
    blas_params, full_geom, BatchStep, BlasBuildParams, BlasEntry, BuildError, BuildGeometry,
    BuildSizes, BuildStep, StructureLevel, Tlas, TlasInstance, CHUNK_SIZE,
};
use prism::buffer::BufferSpec;
use prism::gpu::Release;

fn storage(size: u64) -> BufferSpec {
    BufferSpec { size, usage: 0x12_0000, memory: 1 }
}

fn scratch(size: u64) -> BufferSpec {
    BufferSpec { size, usage: 0x2_0020, memory: 1 }
}

#[test]
fn triangles_come_from_indices_or_vertices() {
    assert_eq!(blas_params(10, 20, 9, 12).tri_count, 4);
    assert_eq!(blas_params(10, 20, 9, 0).tri_count, 3);
}

#[test]
fn geometry_spans_all_vertices() {
    let p = BlasBuildParams { vertex_addr: 1, index_addr: 2, vertex_count: 30, tri_count: 10 };
    let g = full_geom(&p, 60);
    assert_eq!(g.vertex_addr, 1);
    assert_eq!(g.vertex_stride, 60);
    assert_eq!(g.index_addr, 2);
}

#[test]
fn builds_are_submitted_in_chunks() {
    let sizes: Vec<BuildSizes> = (0..130)
        .map(|i| BuildSizes { structure_size: 1, scratch_size: 100 + (i % 7) })
        .collect();
    let params: Vec<BlasBuildParams> = (0..130).map(|i| blas_params(1000 + i, 0, 9, 0)).collect();
    let steps = BlasEntry::build_batch(true, &params, 60, &sizes).unwrap();
    assert_eq!(steps[0], BatchStep::CreateScratch(scratch(106)));
    assert_eq!(steps[130], BatchStep::Create { index: 129, storage: storage(1) });
    assert_eq!(*steps.last().unwrap(), BatchStep::DestroyScratch);
    let built: Vec<usize> = steps
        .iter()
        .filter_map(|s| match s {
            BatchStep::Build { index, geometry, primitives } => {
                assert_eq!(*geometry, full_geom(&params[*index], 60));
                assert_eq!(*primitives, 3);
                Some(*index)
            }
            _ => None,
        })
        .collect();
    assert_eq!(built, (0..130).collect::<Vec<usize>>());
    let submits = steps.iter().filter(|s| **s == BatchStep::Submit).count();
    assert_eq!(submits, 3);
    assert_eq!(CHUNK_SIZE, 64);
}

#[test]
fn nothing_to_build_has_no_steps() {
    assert_eq!(BlasEntry::build_batch(true, &Vec::new(), 60, &Vec::new()), Ok(Vec::new()));
}

#[test]
fn builds_need_the_extension() {
    let p = BlasBuildParams { vertex_addr: 1, index_addr: 2, vertex_count: 30, tri_count: 10 };
    let needs = BuildSizes { structure_size: 100, scratch_size: 50 };
    assert_eq!(BlasEntry::build_impl(false, &p, 60, needs), Err(BuildError::ExtensionMissing));
    assert_eq!(
        BlasEntry::build_batch(false, &Vec::new(), 60, &Vec::new()),
        Err(BuildError::ExtensionMissing)
    );
    assert!(matches!(
        Tlas::build(false, &vec![instance(0, 0)], &Vec::new()),
        Err(BuildError::ExtensionMissing)
    ));
}

#[test]
fn bottom_level_is_shown_to_builds() {
    let p = BlasBuildParams { vertex_addr: 1, index_addr: 2, vertex_count: 30, tri_count: 10 };
    let needs = BuildSizes { structure_size: 100, scratch_size: 50 };
    let steps = BlasEntry::build_impl(true, &p, 60, needs).unwrap();
    assert_eq!(
        steps,
        vec![
            BuildStep::CreateStorage(storage(100)),
            BuildStep::CreateStructure { level: StructureLevel::Bottom, size: 100 },
            BuildStep::CreateScratch(scratch(50)),
            BuildStep::AllocateCommands,
            BuildStep::BeginCommands,
            BuildStep::Build {
                geometry: BuildGeometry::Triangles(full_geom(&p, 60)),
                primitives: 10,
            },
            BuildStep::ShowToBuilds,
            BuildStep::EndCommands,
            BuildStep::CreateFence,
            BuildStep::Submit,
            BuildStep::WaitForFence,
            BuildStep::DestroyFence,
            BuildStep::FreeCommands,
            BuildStep::DestroyScratch,
            BuildStep::FreeScratch,
        ]
    );
}

#[test]
fn top_level_gives_up_its_instances_last() {
    let needs = BuildSizes { structure_size: 100, scratch_size: 50 };
    let steps = Tlas::build_steps(needs, 900, 7);
    assert_eq!(steps.len(), 17);
    assert_eq!(steps[1], BuildStep::CreateStructure { level: StructureLevel::Top, size: 100 });
    assert_eq!(
        steps[5],
        BuildStep::Build { geometry: BuildGeometry::Instances { addr: 900 }, primitives: 7 }
    );
    assert_eq!(steps[6], BuildStep::ShowToBuildsAndCompute);
    assert_eq!(steps[15..], [BuildStep::DestroyInstances, BuildStep::FreeInstances]);
}

fn instance(custom_index: u32, mask: u8) -> TlasInstance<u8> {
    TlasInstance {
        transform: 7,
        custom_index,
        mask,
        instance_shader_binding_table_record_offset: 3,
        flags: 1,
    }
}

#[test]
fn instances_are_packed() {
    let plan = Tlas::build(true, &vec![instance(5, 0xff), instance(0x12_3456, 1)], &vec![100, 200])
        .expect("lengths agree");
    assert_eq!(plan.primitive_count, 2);
    assert_eq!(plan.buffer, BufferSpec { size: 128, usage: 0xa_0001, memory: 6 });
    assert_eq!(plan.packed[0].custom_index, 5);
    assert_eq!(plan.packed[0].mask, 0xff);
    assert_eq!(plan.packed[0].record_offset, 3);
    assert_eq!(plan.packed[0].flags, 1);
    assert_eq!(plan.packed[0].blas_address, 100);
    assert_eq!(plan.packed[1].custom_index, 0x12_3456);
    assert_eq!(plan.packed[1].mask, 1);
    assert_eq!(plan.packed[1].blas_address, 200);
}

#[test]
fn large_numbers_lose_their_upper_bits() {
    let plan = Tlas::build(true, &vec![instance(0xab00_0001, 2)], &vec![1]).expect("lengths agree");
    assert_eq!(plan.packed[0].custom_index, 1);
    assert_eq!(plan.packed[0].mask, 2);
}

#[test]
fn every_instance_needs_an_address() {
    assert!(matches!(
        Tlas::build(true, &vec![instance(0, 0)], &Vec::new()),
        Err(BuildError::LengthMismatch { addresses: 0, instances: 1 })
    ));
}

#[test]
fn meshes_are_built_from_their_ranges() {
    let needs = BuildSizes { structure_size: 100, scratch_size: 50 };
    let steps = BlasEntry::build_at(true, 1, 2, 30, 12, 60, needs).unwrap();
    let p = BlasBuildParams { vertex_addr: 1, index_addr: 2, vertex_count: 30, tri_count: 4 };
    assert_eq!(
        steps[5],
        BuildStep::Build {
            geometry: BuildGeometry::Triangles(full_geom(&p, 60)),
            primitives: 4,
        }
    );
    assert_eq!(
        BlasEntry::build_at(false, 1, 2, 30, 12, 60, needs),
        Err(BuildError::ExtensionMissing)
    );
}

#[test]
fn structures_release_their_storage() {
    let blas = BlasEntry { handle: 1, device_address: 2, buffer: 3, memory: 4 };
    let three = [Release::AccelerationStructure(1), Release::Buffer(3), Release::Memory(4)];
    assert_eq!(blas.release(), three);
    let mut tlas = Tlas { handle: 1, device_address: 2, buffer: 3, memory: 4 };
    assert_eq!(tlas.release(), three);
    tlas.handle = 0;
    assert!(tlas.release().is_empty());
}
