use prism::descriptor::{
    allocation_layouts, pack_lights, BufferRange, DescriptorKind, DescriptorLayout, DescriptorPool,
    DescriptorSource, FrameUBO, FrameUBOData, GpuLight, PtAnalyticLight, PtLightKind,
    ReSTIRReservoir, FRAME_UBO_SIZE, LIGHT_MAX, LIGHT_WORDS, PT_EMISSIVE_MAX, PT_LIGHT_MAX,
};

use prism::gpu::Release;

fn numbered() -> FrameUBOData {
    let matrix = |from: u32| {
        let mut m = [[0u32; 4]; 4];
        for c in 0..4 {
            for r in 0..4 {
                m[c][r] = from + (4 * c + r) as u32;
            }
        }
        m
    };
    FrameUBOData {
        view_proj: matrix(1000),
        camera_position: [2000, 2001, 2002, 2003],
        light_direction: [3000, 3001, 3002, 3003],
        light_color: [4000, 4001, 4002, 4003],
        view: matrix(5000),
        light_view_proj: matrix(6000),
        tonemap_mode: 7000,
        viewport_size: [8000, 8001],
        exposure: 9000,
    }
}

fn offset_of(words: &Vec<u32>, word: u32) -> usize {
    4 * words.iter().position(|w| *w == word).unwrap()
}

fn check_offsets() {
    let w = numbered().words();
    assert_eq!(offset_of(&w, 1000), 0);
    assert_eq!(offset_of(&w, 2000), 64);
    assert_eq!(offset_of(&w, 3000), 80);
    assert_eq!(offset_of(&w, 4000), 96);
    assert_eq!(offset_of(&w, 5000), 112);
    assert_eq!(offset_of(&w, 6000), 176);
    assert_eq!(offset_of(&w, 7000), 240);
    assert_eq!(offset_of(&w, 8000), 244);
    assert_eq!(offset_of(&w, 9000), 252);
}

fn check_light_offsets() {
    let light = GpuLight { position: [1, 2, 3, 4], color: [5, 6, 7, 8] };
    let w = pack_lights(&vec![light]);
    assert_eq!(offset_of(&w, 1), 0);
    assert_eq!(offset_of(&w, 5), 16);
}

#[test]
fn descriptor_frame_ubo_data_size_is_272() {
    assert_eq!(numbered().words().len() * 4, 272);
}

#[test]
fn descriptor_gpu_light_size_is_32() {
    assert_eq!(std::mem::size_of::<GpuLight>(), 32);
    assert_eq!(LIGHT_WORDS * 4, 32);
}

#[test]
fn descriptor_gpu_light_offsets() {
    check_light_offsets();
}

#[test]
fn descriptor_frame_ubo_data_offsets() {
    check_offsets();
}

#[test]
fn descriptor_tests_frame_ubo_data_size_is_272() {
    assert_eq!(FRAME_UBO_SIZE, 272);
    assert_eq!(numbered().words().len() * 4, 272);
}

#[test]
fn descriptor_tests_gpu_light_size_is_32() {
    let one = pack_lights(&vec![GpuLight { position: [1; 4], color: [1; 4] }]);
    assert_eq!(one.iter().filter(|w| **w == 1).count() * 4, 32);
}

#[test]
fn descriptor_tests_gpu_light_offsets() {
    check_light_offsets();
}

#[test]
fn descriptor_tests_frame_ubo_data_offsets() {
    check_offsets();
}

#[test]
fn light_buffer_is_padded_with_zeros() {
    let light = GpuLight { position: [9; 4], color: [9; 4] };
    let words = pack_lights(&vec![light, light]);
    assert_eq!(words.len(), (LIGHT_MAX as usize) * LIGHT_WORDS);
    assert!(words[..16].iter().all(|w| *w == 9));
    assert!(words[16..].iter().all(|w| *w == 0));
}

#[test]
fn light_limits() {
    assert_eq!((LIGHT_MAX, PT_LIGHT_MAX, PT_EMISSIVE_MAX), (8, 64, 1024));
    assert_eq!(PtLightKind::Directional.index(), 0);
    assert_eq!(PtLightKind::Point.index(), 1);
    assert_eq!(PtLightKind::Spot.index(), 2);
    assert_eq!(PtLightKind::Area.index(), 3);
}

#[test]
fn analytic_lights() {
    let b = |x: f32| x.to_bits();
    let sun = PtAnalyticLight::directional([b(0.5), b(0.25), b(2.0)], [b(3.0); 3]);
    assert_eq!(sun.position_kind, [0; 4]);
    assert_eq!(sun.direction_params, [b(0.5), b(0.25), b(2.0), b(1.0)]);
    assert_eq!(sun.color_params, [b(3.0), b(3.0), b(3.0), b(-1.0)]);
    let lamp = PtAnalyticLight::point([b(1.5); 3], [b(2.5); 3], b(10.0));
    assert_eq!(lamp.position_kind[3], b(1.0));
    assert_eq!(lamp.direction_params, [0; 4]);
    assert_eq!(lamp.color_params, [b(2.5), b(2.5), b(2.5), b(10.0)]);
}

#[test]
fn frame_sets() {
    let layout = DescriptorLayout::new();
    assert_eq!(layout.bindings.len(), 1);
    assert_eq!(layout.bindings[0].kind, DescriptorKind::UniformBuffer);
    assert!(layout.bindings[0].stages.vertex && layout.bindings[0].stages.fragment);
    let combined = DescriptorLayout::new_combined();
    assert_eq!(combined.bindings.len(), 2);
    assert_eq!(combined.bindings[1].kind, DescriptorKind::StorageBuffer);
    assert!(!combined.bindings[1].stages.vertex);
    let pool = DescriptorPool::new(2);
    assert_eq!((pool.max_sets, pool.sizes.len(), pool.sizes[0].count), (2, 1, 2));
    let both = DescriptorPool::new_combined(3);
    assert_eq!((both.max_sets, both.sizes.len()), (3, 2));
    assert_eq!(allocation_layouts(7, 3), vec![7, 7, 7]);
    let (ubo, write) = FrameUBO::new(6, 8, 5);
    assert_eq!(write.set, 5);
    assert_eq!(
        write.source,
        DescriptorSource::Buffer { buffer: 6, range: BufferRange::Bytes(272) }
    );
    assert_eq!(ubo.size, 272);
    let fill = ubo.update(&numbered());
    assert_eq!((fill.memory, fill.size), (8, 272));
    assert_eq!(fill.words, numbered().words());
    assert_eq!(ubo.release(), [Release::Buffer(6), Release::Memory(8)]);
    assert_eq!(ReSTIRReservoir::default().light_idx, 0);
}
