use prism::capabilities::{DeviceExtension, RayTracingCaps};
use prism::context::{
    choose_device, message_level, pick_graphics_queue_family, pick_physical_device, plan_device,
    plan_instance, validation_available, wants_messenger, ContextRelease, DeviceChoice,
    DeviceError, DeviceKind, MessageLevel, PhysicalDevice, PickError, VulkanContext,
    PUSH_CONSTANTS_NEEDED, QUEUE_GRAPHICS,
};

fn device(kind: DeviceKind, flags: u32, push: u32) -> PhysicalDevice {
    PhysicalDevice { kind, ray_tracing: false, queue_flags: vec![0, flags], max_push_constants_size: push }
}

#[test]
fn queue_family_has_graphics() {
    assert_eq!(pick_graphics_queue_family(&vec![0, 4, QUEUE_GRAPHICS | 4]), Some(2));
    assert_eq!(pick_graphics_queue_family(&vec![0, 4]), None);
    assert_eq!(QUEUE_GRAPHICS, ash::vk::QueueFlags::GRAPHICS.as_raw());
}

#[test]
fn best_device_is_picked() {
    let big = PUSH_CONSTANTS_NEEDED;
    let devices = vec![
        device(DeviceKind::Integrated, QUEUE_GRAPHICS, big),
        device(DeviceKind::Discrete, 0, big),
        device(DeviceKind::Discrete, QUEUE_GRAPHICS, big),
        device(DeviceKind::Discrete, QUEUE_GRAPHICS, big),
    ];
    assert!(matches!(pick_physical_device(&devices), Ok(2)));
}

#[test]
fn device_without_graphics_is_refused() {
    let devices = vec![device(DeviceKind::Discrete, 0, 999)];
    assert!(matches!(pick_physical_device(&devices), Err(PickError::NoGraphicsQueue)));
    assert!(matches!(pick_physical_device(&Vec::new()), Err(PickError::NoGraphicsQueue)));
}

#[test]
fn device_with_few_push_constants_is_refused() {
    let devices = vec![device(DeviceKind::Discrete, QUEUE_GRAPHICS, 128)];
    assert!(matches!(
        pick_physical_device(&devices),
        Err(PickError::PushConstantsTooSmall { size: 128 })
    ));
}

#[test]
fn debug_builds_ask_for_validation() {
    let window = vec!["VK_KHR_surface".to_string()];
    let release = plan_instance(&window, false);
    assert_eq!(release.extensions, window);
    assert!(release.layers.is_empty());
    assert_eq!(release.name, "PrismaRev");
    assert_eq!(release.version, ash::vk::make_api_version(0, 0, 1, 0));
    assert_eq!(release.api_version, ash::vk::API_VERSION_1_2);
    let debug = plan_instance(&window, true);
    assert!(debug.extensions.len() > 1);
    assert!(validation_available(&debug.layers));
    assert!(!validation_available(&Vec::new()));
}

#[test]
fn messages_have_levels() {
    let flags = |f: ash::vk::DebugUtilsMessageSeverityFlagsEXT| f.as_raw();
    let error = flags(ash::vk::DebugUtilsMessageSeverityFlagsEXT::ERROR);
    let warning = flags(ash::vk::DebugUtilsMessageSeverityFlagsEXT::WARNING);
    let info = flags(ash::vk::DebugUtilsMessageSeverityFlagsEXT::INFO);
    assert_eq!(message_level(error), MessageLevel::Error);
    assert_eq!(message_level(warning), MessageLevel::Warning);
    assert_eq!(message_level(info), MessageLevel::Silent);
}

#[test]
fn device_needs_the_upload_commands() {
    let mut caps = RayTracingCaps::default();
    assert!(matches!(
        plan_device(&caps, true, true, true),
        Err(DeviceError::NoTransferCommands)
    ));
    caps.synchronization2 = true;
    caps.copy_commands2 = true;
    caps.descriptor_indexing = true;
    let plan = plan_device(&caps, true, true, false).expect("commands are there");
    assert!(plan.extensions.contains(&DeviceExtension::Swapchain));
    assert!(plan.features.shader_clip_distance);
    assert!(!plan.features.independent_blend);
    assert!(plan.features.partially_bound && plan.features.runtime_descriptor_array);
    assert!(!plan.features.ray_query);
    let headless = plan_device(&caps, false, true, false).expect("commands are there");
    assert!(!headless.extensions.contains(&DeviceExtension::Swapchain));
    assert_eq!(headless.extensions.len() + 1, plan.extensions.len());
}

#[test]
fn messenger_needs_the_layer() {
    let layers = vec!["VK_LAYER_KHRONOS_validation".to_string()];
    assert!(wants_messenger(true, Some(&layers)));
    assert!(!wants_messenger(false, Some(&layers)));
    assert!(!wants_messenger(true, None));
    assert!(!wants_messenger(true, Some(&Vec::new())));
}

#[test]
fn context_knows_what_was_enabled() {
    let devices = vec![device(DeviceKind::Virtual, QUEUE_GRAPHICS, 256)];
    let choice = choose_device(&devices).unwrap();
    assert_eq!(choice, DeviceChoice { device: 0, queue_family: 1 });
    let mut caps = RayTracingCaps::default();
    caps.synchronization2 = true;
    assert!(VulkanContext::new(choice, caps, &Vec::new(), true, true, None).is_err());
    caps.copy_commands2 = true;
    let window = vec!["VK_KHR_surface".to_string()];
    let (mut context, plan) =
        VulkanContext::new(choice, caps, &window, true, true, Some(4)).ok().unwrap();
    assert_eq!(*context.enabled_extension_names(), plan.extensions);
    assert!(context.has_extension("VK_KHR_swapchain"));
    assert!(context.has_extension("VK_KHR_copy_commands2"));
    assert!(!context.has_extension("VK_KHR_ray_query"));
    assert!(context.name_object());
    assert!(!context.loads_acceleration_structures());
    assert_eq!(
        context.release(),
        vec![ContextRelease::Messenger(4), ContextRelease::Device, ContextRelease::Instance]
    );
    assert!(!context.name_object());
}

#[test]
fn ray_tracing_wins_a_tie() {
    let plain = device(DeviceKind::Integrated, QUEUE_GRAPHICS, 256);
    let mut tracing = device(DeviceKind::Integrated, QUEUE_GRAPHICS, 256);
    tracing.ray_tracing = true;
    let mut later = device(DeviceKind::Integrated, QUEUE_GRAPHICS, 256);
    later.ray_tracing = true;
    assert_eq!(pick_physical_device(&vec![plain, tracing, later]), Ok(1));
}

#[test]
fn better_kind_needs_no_ray_tracing() {
    let mut tracing = device(DeviceKind::Integrated, QUEUE_GRAPHICS, 256);
    tracing.ray_tracing = true;
    let plain = device(DeviceKind::Discrete, QUEUE_GRAPHICS, 256);
    assert_eq!(pick_physical_device(&vec![tracing, plain]), Ok(1));
}
