use prism::bindless::{
    all_samplers, plan_creation, required_features, table_bindings, table_pool, AddressMode,
    BindlessTextureTable, Comparison, Filter, SamplerType, TableEntry, TableError, TableObjects,
    TablePool, TableStep, TextureHandle,
};
use prism::gpu::{ImageLayout, Release};

const OBJECTS: TableObjects = TableObjects { layout: 1, pool: 2, set: 3 };

#[test]
fn bindless_invalid_handle_is_max() {
    assert_eq!(TextureHandle::invalid().0, u32::MAX);
}

#[test]
fn bindless_sampler_type_count_is_4() {
    assert_eq!(SamplerType::COUNT, 4);
}

#[test]
fn bindless_sampler_type_indices_are_sequential() {
    assert_eq!(SamplerType::LinearWrap as u32, 0);
    assert_eq!(SamplerType::LinearClamp as u32, 1);
    assert_eq!(SamplerType::Nearest as u32, 2);
    assert_eq!(SamplerType::Shadow as u32, 3);
}

#[test]
fn bindless_register_with_handle_advances_next_pointer() {
    let mut table = BindlessTextureTable::new(OBJECTS, 8, [1, 2, 3, 4]);
    assert!(table.register_with_handle(0, 100).is_ok());
    let next_slot = table.register(101).unwrap().0 .0;
    assert_eq!(next_slot, 1, "register_with_handle must advance next");
}

#[test]
fn bindless_tests_invalid_handle_is_max() {
    assert_eq!(TextureHandle::invalid().0, u32::MAX);
}

#[test]
fn bindless_tests_sampler_type_count_is_4() {
    assert_eq!(SamplerType::COUNT, 4);
    assert_eq!(all_samplers().len(), 4);
}

#[test]
fn bindless_tests_sampler_type_indices_are_sequential() {
    assert_eq!(SamplerType::LinearWrap.index(), 0);
    assert_eq!(SamplerType::LinearClamp.index(), 1);
    assert_eq!(SamplerType::Nearest.index(), 2);
    assert_eq!(SamplerType::Shadow.index(), 3);
}

#[test]
fn bindless_tests_register_with_handle_advances_next_pointer() {
    let mut table = BindlessTextureTable::new(OBJECTS, 4, [0; 4]);
    assert!(table.register_with_handle(0, 7).is_ok());
    let next_slot = table.register(8).unwrap().0 .0;
    assert_eq!(next_slot, 1, "register_with_handle must advance next");
}

#[test]
fn full_table_refuses() {
    let mut table = BindlessTextureTable::new(OBJECTS, 1, [0; 4]);
    assert!(table.is_empty());
    assert!(table.register(5).is_ok());
    assert!(matches!(table.register(6), Err(TableError::Full { next: 1, capacity: 1 })));
    assert_eq!(table.len(), 1);
    assert_eq!(table.capacity(), 1);
}

#[test]
fn registered_slot_is_used_and_written() {
    let mut table = BindlessTextureTable::new(OBJECTS, 8, [11, 12, 13, 14]);
    let (handle, write) = table.register(77).unwrap();
    assert!(table.is_slot_used(handle.0));
    assert!(!table.is_slot_used(handle.0 + 1));
    assert_eq!(write.view, 77);
    assert_eq!(write.set, 3);
    assert_eq!((table.layout(), table.set()), (1, 3));
    assert_eq!(table.sampler(SamplerType::Nearest), 13);
}

#[test]
fn table_layout_has_textures_and_samplers() {
    let bindings = table_bindings(256);
    assert_eq!(bindings[0].binding, 0);
    assert_eq!(bindings[0].entry, TableEntry::Samplers);
    assert_eq!(bindings[0].count, SamplerType::COUNT);
    assert!(!bindings[0].bindless);
    assert_eq!(bindings[1].binding, 1);
    assert_eq!(bindings[1].entry, TableEntry::Textures);
    assert_eq!(bindings[1].count, 256);
    assert!(bindings[1].bindless);
    for binding in bindings {
        assert!(binding.stages.vertex && binding.stages.fragment && binding.stages.compute);
    }
}

#[test]
fn table_is_created_and_released() {
    let steps = plan_creation(4096);
    assert_eq!(steps.len(), 8);
    assert_eq!(steps[2], TableStep::CreateSampler(SamplerType::Nearest));
    assert_eq!(steps[6], TableStep::AllocateSet { textures: 4096 });
    assert_eq!(steps[7], TableStep::WriteSamplers { binding: 0, count: 4 });
    let table = BindlessTextureTable::new(OBJECTS, 4, [7, 0, 8, 0]);
    assert_eq!(
        table.release(),
        vec![
            Release::Sampler(7),
            Release::Sampler(8),
            Release::Pool(2),
            Release::SetLayout(1),
        ]
    );
}

#[test]
fn slot_out_of_range_is_refused() {
    let mut table = BindlessTextureTable::new(OBJECTS, 4, [0; 4]);
    assert_eq!(
        table.register_with_handle(4, 9),
        Err(TableError::SlotOutOfRange { slot: 4, capacity: 4 })
    );
    assert!(table.is_empty());
    assert!(table.register_with_handle(3, 9).is_ok());
    assert_eq!(table.len(), 4);
}

#[test]
fn samplers_differ_in_filter_address_and_comparison() {
    let wrap = SamplerType::LinearWrap.create_info();
    assert_eq!((wrap.filter, wrap.address), (Filter::Linear, AddressMode::Repeat));
    assert!(wrap.all_levels && wrap.comparison == Comparison::Off);
    let clamp = SamplerType::LinearClamp.create_info();
    assert_eq!((clamp.filter, clamp.address), (Filter::Linear, AddressMode::ClampToEdge));
    assert!(clamp.all_levels);
    let nearest = SamplerType::Nearest.create_info();
    assert_eq!((nearest.filter, nearest.address), (Filter::Nearest, AddressMode::Repeat));
    assert!(!nearest.all_levels);
    let shadow = SamplerType::Shadow.create_info();
    assert_eq!((shadow.filter, shadow.address), (Filter::Linear, AddressMode::ClampToEdge));
    assert!(!shadow.all_levels && shadow.comparison == Comparison::LessOrEqual);
}

#[test]
fn table_needs_descriptor_indexing() {
    let f = required_features();
    assert!(f.descriptor_indexing && f.runtime_descriptor_array && f.partially_bound);
    assert!(f.sampled_image_update_after_bind && f.variable_descriptor_count);
    assert!(f.sampled_image_non_uniform_indexing);
}

#[test]
fn pool_holds_what_the_set_takes() {
    assert_eq!(table_pool(256), TablePool { max_sets: 1, textures: 256, samplers: 4 });
    let bindings = table_bindings(256);
    assert!(bindings[1].binding > bindings[0].binding);
}

#[test]
fn write_names_its_slot() {
    let table = BindlessTextureTable::new(OBJECTS, 8, [1, 2, 3, 4]);
    let write = table.write_srv(5, 77);
    assert_eq!((write.set, write.binding, write.slot, write.view), (3, 1, 5, 77));
    assert_eq!(write.layout, ImageLayout::ShaderReadOnly);
}
