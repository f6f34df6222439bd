use ash::vk;
use prism::capabilities::{
    collect_extension_names, feature_queries, has_extension, probe, rt_extension_names,
    DeviceExtension, FeatureQueries, PipelineProperties, RayTracingCaps, ReportedFeatures,
};

fn has_name(names: &Vec<DeviceExtension>, name: &[u8]) -> bool {
    names.iter().any(|n| n.name().as_bytes() == name)
}

#[test]
fn collect_extension_names_extracts_names() {
    fn make_name(bytes: &[u8]) -> [u8; 256] {
        let mut arr = [0; 256];
        for (i, &b) in bytes.iter().enumerate() {
            arr[i] = b;
        }
        arr
    }
    let ext1 = make_name(b"VK_KHR_ray_query\0");
    let ext2 = make_name(b"VK_KHR_swapchain\0");

    let names = collect_extension_names(&vec![ext1, ext2]);
    assert!(names.contains(&"VK_KHR_ray_query".to_string()));
    assert!(names.contains(&"VK_KHR_swapchain".to_string()));
    assert_eq!(names.len(), 2);
}

#[test]
fn collected_names_stop_at_the_terminator_and_are_distinct() {
    let mut field = [b'x'; 256];
    field[3] = 0;
    let unterminated = [b'y'; 256];
    let names = collect_extension_names(&vec![field, field, unterminated]);
    assert_eq!(names[0], "xxx");
    assert!(names.iter().filter(|n| n.as_str() == "xxx").count() == 1);
}

#[test]
fn undecodable_bytes_are_replaced() {
    let mut field = [0u8; 256];
    field[0] = b'a';
    field[1] = 0xff;
    field[2] = b'b';
    let names = collect_extension_names(&vec![field]);
    assert_eq!(names, vec!["a\u{fffd}b".to_string()]);
}

#[test]
fn has_extension_finds_present_and_absent() {
    let mut set = Vec::new();
    set.push("VK_KHR_acceleration_structure".to_string());
    assert!(has_extension(&set, "VK_KHR_acceleration_structure"));
    assert!(!has_extension(&set, "VK_KHR_ray_tracing_pipeline"));
}

#[test]
fn caps_default_is_all_false() {
    let caps = RayTracingCaps::default();
    assert!(!caps.any_ray_tracing());
    assert!(!caps.has_rt_pipeline());
    assert!(!caps.has_ray_query());
    assert_eq!(caps.max_recursion_depth, 0);
}

#[test]
fn transfer_commands_require_both_extensions() {
    let mut caps = RayTracingCaps::default();
    assert!(!caps.has_transfer_commands());
    caps.synchronization2 = true;
    assert!(!caps.has_transfer_commands());
    caps.copy_commands2 = true;
    assert!(caps.has_transfer_commands());
}

#[test]
fn caps_any_ray_tracing_requires_accel_struct() {
    let mut caps = RayTracingCaps { ray_tracing_pipeline: true, ..Default::default() };
    assert!(!caps.any_ray_tracing());
    assert!(!caps.has_rt_pipeline());

    caps.acceleration_structure = true;
    assert!(caps.any_ray_tracing());
    assert!(caps.has_rt_pipeline());
}

#[test]
fn caps_ray_query_independent_of_rt_pipeline() {
    let caps = RayTracingCaps {
        acceleration_structure: true,
        ray_query: true,
        ..Default::default()
    };
    assert!(caps.has_ray_query());
    assert!(!caps.has_rt_pipeline());
    assert!(caps.any_ray_tracing());
}

#[test]
fn caps_display_includes_sbt_when_rt_pipeline() {
    let caps = RayTracingCaps {
        ray_tracing_pipeline: true,
        acceleration_structure: true,
        max_recursion_depth: 31,
        shader_group_handle_size: 32,
        ..Default::default()
    };
    let s = caps.describe();
    assert!(s.contains("max_recursion=31"));
    assert!(s.contains("handle_size=32"));
}

#[test]
fn rt_extension_names_full_rt_pipeline() {
    let caps = RayTracingCaps {
        acceleration_structure: true,
        ray_tracing_pipeline: true,
        ray_query: true,
        ..Default::default()
    };
    let names = rt_extension_names(&caps);
    assert_eq!(names.len(), 9);
    assert!(has_name(&names, vk::EXT_DESCRIPTOR_INDEXING_NAME.to_bytes()));
    assert!(has_name(&names, vk::KHR_BUFFER_DEVICE_ADDRESS_NAME.to_bytes()));
    assert!(has_name(&names, vk::KHR_SPIRV_1_4_NAME.to_bytes()));
    assert!(has_name(&names, vk::KHR_SHADER_FLOAT_CONTROLS_NAME.to_bytes()));
    assert!(has_name(&names, vk::KHR_ACCELERATION_STRUCTURE_NAME.to_bytes()));
    assert!(has_name(&names, vk::KHR_DEFERRED_HOST_OPERATIONS_NAME.to_bytes()));
    assert!(has_name(&names, vk::KHR_RAY_TRACING_PIPELINE_NAME.to_bytes()));
    assert!(has_name(&names, vk::KHR_PIPELINE_LIBRARY_NAME.to_bytes()));
    assert!(has_name(&names, vk::KHR_RAY_QUERY_NAME.to_bytes()));
}

#[test]
fn rt_extension_names_empty_when_no_rt() {
    let caps = RayTracingCaps::default();
    assert!(rt_extension_names(&caps).is_empty());
}

#[test]
fn rt_extension_names_ray_query_only() {
    let caps = RayTracingCaps {
        acceleration_structure: true,
        ray_query: true,
        ..Default::default()
    };
    let names = rt_extension_names(&caps);
    assert_eq!(names.len(), 5);
    assert!(has_name(&names, vk::EXT_DESCRIPTOR_INDEXING_NAME.to_bytes()));
    assert!(has_name(&names, vk::KHR_BUFFER_DEVICE_ADDRESS_NAME.to_bytes()));
    assert!(has_name(&names, vk::KHR_RAY_QUERY_NAME.to_bytes()));
    assert!(!has_name(&names, vk::KHR_RAY_TRACING_PIPELINE_NAME.to_bytes()));
}

fn all_reported() -> ReportedFeatures {
    ReportedFeatures {
        buffer_device_address: true,
        descriptor_indexing: true,
        timeline_semaphore: true,
        acceleration_structure: true,
        ray_tracing_pipeline: true,
        ray_query: true,
    }
}

#[test]
fn probe_needs_both_the_extension_and_the_feature() {
    let nothing: Vec<String> = Vec::new();
    let v10 = vk::make_api_version(0, 1, 0, 0);
    let caps = probe(v10, &nothing, all_reported());
    assert!(!caps.any_ray_tracing());
    assert!(!caps.vulkan_1_2);

    let names = vec![
        DeviceExtension::AccelerationStructure.name().to_string(),
        DeviceExtension::RayQuery.name().to_string(),
        DeviceExtension::DeferredHostOperations.name().to_string(),
        DeviceExtension::BufferDeviceAddress.name().to_string(),
        DeviceExtension::DescriptorIndexing.name().to_string(),
        DeviceExtension::Spirv14.name().to_string(),
        DeviceExtension::ShaderFloatControls.name().to_string(),
    ];
    let v12 = vk::make_api_version(0, 1, 2, 0);
    let caps = probe(v12, &names, all_reported());
    assert!(caps.vulkan_1_2);
    assert!(caps.has_ray_query());
    assert!(!caps.has_rt_pipeline());

    let mut silent = all_reported();
    silent.ray_query = false;
    assert!(!probe(v12, &names, silent).has_ray_query());
}

#[test]
fn version_1_2_begins_at_its_first_patch() {
    let nothing: Vec<String> = Vec::new();
    let before = vk::make_api_version(0, 1, 1, 4095);
    let at = vk::make_api_version(0, 1, 2, 0);
    assert_eq!(at, (1 << 22) | (2 << 12));
    assert!(!probe(before, &nothing, all_reported()).vulkan_1_2);
    assert!(probe(at, &nothing, all_reported()).vulkan_1_2);
}

#[test]
fn pipeline_properties_are_taken_over() {
    let props = PipelineProperties {
        max_recursion_depth: 1,
        shader_group_handle_size: 2,
        max_shader_group_stride: 3,
        shader_group_base_alignment: 4,
        max_ray_dispatch_invocation_count: 5,
        shader_group_handle_alignment: 6,
        max_ray_hit_attribute_size: 7,
    };
    let caps = RayTracingCaps {
        acceleration_structure: true,
        ray_tracing_pipeline: true,
        ..Default::default()
    };
    let caps = caps.with_pipeline_properties(props);
    assert_eq!(caps.max_recursion_depth, 1);
    assert_eq!(caps.max_ray_hit_attribute_size, 7);
}

#[test]
fn only_advertised_features_are_asked_for() {
    let names = vec!["VK_KHR_ray_query".to_string(), "VK_KHR_swapchain".to_string()];
    assert_eq!(
        feature_queries(&names),
        FeatureQueries {
            acceleration_structure: false,
            ray_tracing_pipeline: false,
            ray_query: true,
        }
    );
}
