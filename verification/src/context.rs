//! Choosing a physical device, and what the instance and the logical device are created
//! with.

use vstd::prelude::*;

use crate::capabilities::{
    has_extension, lists, rt_extension_names, rt_extensions, texts, DeviceExtension,
    RayTracingCaps, API_VERSION_1_2,
};
use crate::text::same_text;

verus! {

/// Bytes of push constants that the path-trace pass needs.
pub const PUSH_CONSTANTS_NEEDED: u32 = 144;

/// Queue capability bit: the queue takes graphics commands.
pub const QUEUE_GRAPHICS: u32 = 0x0000_0001;

/// Kinds of physical device.
#[derive(Clone, Copy, Debug, PartialEq, Eq, Structural)]
pub enum DeviceKind {
    Discrete,
    Integrated,
    Virtual,
    Other,
}

/// What the choice of a device looks at.
pub struct PhysicalDevice {
    pub kind: DeviceKind,
    /// Whether the device can trace rays.
    pub ray_tracing: bool,
    /// Capability bits of each queue family.
    pub queue_flags: Vec<u32>,
    pub max_push_constants_size: u32,
}

/// Why no device was chosen.
#[derive(Clone, Copy, Debug, PartialEq, Eq, Structural)]
pub enum PickError {
    /// No device has a graphics queue.
    NoGraphicsQueue,
    /// The chosen device has too little room for push constants.
    PushConstantsTooSmall { size: u32 },
}

/// A queue family takes graphics commands.
pub open spec fn takes_graphics(flags: u32) -> bool {
    flags & QUEUE_GRAPHICS == QUEUE_GRAPHICS
}

/// One of the families takes graphics commands.
pub open spec fn has_graphics(queue_flags: Seq<u32>) -> bool {
    exists|i: int| 0 <= i < queue_flags.len() && takes_graphics(#[trigger] queue_flags[i])
}

/// How much a kind of device is preferred.
pub open spec fn score(kind: DeviceKind) -> int {
    match kind {
        DeviceKind::Discrete => 3,
        DeviceKind::Integrated => 2,
        DeviceKind::Virtual => 1,
        DeviceKind::Other => 0,
    }
}

/// How much a device is preferred: by its kind, and within a kind by ray tracing.
pub open spec fn rank(device: PhysicalDevice) -> int {
    2 * score(device.kind) + (if device.ray_tracing {
        1int
    } else {
        0
    })
}

/// The first queue family that takes graphics commands.
pub fn pick_graphics_queue_family(queue_flags: &Vec<u32>) -> (r: Option<u32>)
    requires
        queue_flags.len() <= u32::MAX,
    ensures
        match r {
            Some(i) => {
                &&& i < queue_flags.len()
                &&& takes_graphics(queue_flags@[i as int])
                &&& forall|k: int| 0 <= k < i ==> !takes_graphics(#[trigger] queue_flags@[k])
            },
            None => !has_graphics(queue_flags@),
        },
{
    let mut i: u32 = 0;
    while (i as usize) < queue_flags.len()
        invariant
            i <= queue_flags.len() <= u32::MAX,
            forall|k: int| 0 <= k < i ==> !takes_graphics(#[trigger] queue_flags@[k]),
        decreases queue_flags.len() - i,
    {
        if queue_flags[i as usize] & QUEUE_GRAPHICS == QUEUE_GRAPHICS {
            return Some(i);
        }
        i = i + 1;
    }
    None
}

/// Device `i` is the one to choose: it has a graphics queue, no such device is preferred
/// to it, and none before it is preferred as much.
pub open spec fn is_best(devices: Seq<PhysicalDevice>, i: int) -> bool {
    &&& 0 <= i < devices.len()
    &&& has_graphics(devices[i].queue_flags@)
    &&& forall|k: int|
        0 <= k < devices.len() && has_graphics((#[trigger] devices[k]).queue_flags@) ==> {
            &&& rank(devices[k]) <= rank(devices[i])
            &&& k < i ==> rank(devices[k]) < rank(devices[i])
        }
}

/// Chooses a device of the best kind that has a graphics queue, and checks that it has
/// room for the push constants. Of two devices of one kind, the one that can trace rays
/// wins, then the first. Ray tracing is not required.
pub fn pick_physical_device(devices: &Vec<PhysicalDevice>) -> (r: Result<usize, PickError>)
    requires
        forall|k: int|
            0 <= k < devices.len() ==> (#[trigger] devices@[k]).queue_flags.len() <= u32::MAX,
    ensures
        match r {
            Ok(i) => {
                &&& is_best(devices@, i as int)
                &&& devices@[i as int].max_push_constants_size >= PUSH_CONSTANTS_NEEDED
            },
            Err(PickError::NoGraphicsQueue) => forall|k: int|
                0 <= k < devices.len() ==> !has_graphics((#[trigger] devices@[k]).queue_flags@),
            Err(PickError::PushConstantsTooSmall { size }) => exists|i: int|
                #[trigger] is_best(devices@, i) && devices@[i].max_push_constants_size == size
                    && size < PUSH_CONSTANTS_NEEDED,
        },
{
    let mut best: Option<usize> = None;
    let mut best_score: i32 = -1;
    let mut i: usize = 0;
    while i < devices.len()
        invariant
            i <= devices.len(),
            forall|k: int|
                0 <= k < devices.len() ==> (#[trigger] devices@[k]).queue_flags.len() <= u32::MAX,
            match best {
                Some(b) => {
                    &&& b < i
                    &&& has_graphics(devices@[b as int].queue_flags@)
                    &&& best_score == rank(devices@[b as int])
                    &&& forall|k: int|
                        0 <= k < i && has_graphics((#[trigger] devices@[k]).queue_flags@) ==> {
                            &&& rank(devices@[k]) <= best_score
                            &&& k < b ==> rank(devices@[k]) < best_score
                        }
                },
                None => {
                    &&& best_score == -1
                    &&& forall|k: int|
                        0 <= k < i ==> !has_graphics((#[trigger] devices@[k]).queue_flags@)
                },
            },
        decreases devices.len() - i,
    {
        let kind: i32 = match devices[i].kind {
            DeviceKind::Discrete => 3,
            DeviceKind::Integrated => 2,
            DeviceKind::Virtual => 1,
            DeviceKind::Other => 0,
        };
        let bonus: i32 = if devices[i].ray_tracing {
            1
        } else {
            0
        };
        let value: i32 = 2 * kind + bonus;
        let family: Option<u32> = pick_graphics_queue_family(&devices[i].queue_flags);
        if family.is_some() && value > best_score {
            best_score = value;
            best = Some(i);
        }
        i = i + 1;
    }
    match best {
        None => Err(PickError::NoGraphicsQueue),
        Some(b) => {
            assert(is_best(devices@, b as int));
            let size: u32 = devices[b].max_push_constants_size;
            if size >= PUSH_CONSTANTS_NEEDED {
                Ok(b)
            } else {
                Err(PickError::PushConstantsTooSmall { size })
            }
        },
    }
}

/// The chosen device and its graphics queue family.
#[derive(Clone, Copy, Debug, PartialEq, Eq, Structural)]
pub struct DeviceChoice {
    pub device: usize,
    pub queue_family: u32,
}

/// Family `i` is the first one that takes graphics commands.
pub open spec fn is_first_graphics(queue_flags: Seq<u32>, i: int) -> bool {
    &&& 0 <= i < queue_flags.len()
    &&& takes_graphics(queue_flags[i])
    &&& forall|k: int| 0 <= k < i ==> !takes_graphics(#[trigger] queue_flags[k])
}

/// Chooses a device, and the queue family that takes its graphics commands.
pub fn choose_device(devices: &Vec<PhysicalDevice>) -> (r: Result<DeviceChoice, PickError>)
    requires
        forall|k: int|
            0 <= k < devices.len() ==> (#[trigger] devices@[k]).queue_flags.len() <= u32::MAX,
    ensures
        match r {
            Ok(choice) => {
                &&& is_best(devices@, choice.device as int)
                &&& devices@[choice.device as int].max_push_constants_size >= PUSH_CONSTANTS_NEEDED
                &&& is_first_graphics(
                    devices@[choice.device as int].queue_flags@,
                    choice.queue_family as int,
                )
            },
            Err(PickError::NoGraphicsQueue) => forall|k: int|
                0 <= k < devices.len() ==> !has_graphics((#[trigger] devices@[k]).queue_flags@),
            Err(PickError::PushConstantsTooSmall { size }) => exists|i: int|
                #[trigger] is_best(devices@, i) && devices@[i].max_push_constants_size == size
                    && size < PUSH_CONSTANTS_NEEDED,
        },
{
    let device: usize = match pick_physical_device(devices) {
        Ok(device) => device,
        Err(e) => return Err(e),
    };
    match pick_graphics_queue_family(&devices[device].queue_flags) {
        Some(queue_family) => Ok(DeviceChoice { device, queue_family }),
        None => Err(PickError::NoGraphicsQueue),
    }
}

/// A device that can trace rays is not passed over for one of the same kind that cannot,
/// and no bonus makes up for a worse kind.
pub proof fn ray_tracing_breaks_the_tie(devices: Seq<PhysicalDevice>, i: int, k: int)
    requires
        is_best(devices, i),
        0 <= k < devices.len(),
        has_graphics(devices[k].queue_flags@),
    ensures
        score(devices[k].kind) <= score(devices[i].kind),
        devices[k].kind == devices[i].kind && devices[k].ray_tracing ==> devices[i].ray_tracing,
{
    let other = devices[k];
    assert(rank(other) <= rank(devices[i]));
}

/// No more than one device is the one to choose.
pub proof fn best_device_is_unique(devices: Seq<PhysicalDevice>, i: int, j: int)
    requires
        is_best(devices, i),
        is_best(devices, j),
    ensures
        i == j,
{
}

// ---------------------------------------------------------------------------
// Instance
// ---------------------------------------------------------------------------

/// The version of the application and of the engine: 0.1.0.
pub const ENGINE_VERSION: u32 = 0x0000_1000;

/// What the instance is created with.
pub struct InstancePlan {
    /// The name of the application and of the engine.
    pub name: String,
    pub version: u32,
    pub api_version: u32,
    pub extensions: Vec<String>,
    pub layers: Vec<String>,
}

/// The extensions of the instance.
pub open spec fn instance_extensions(
    window_extensions: Seq<Seq<char>>,
    enable_debug: bool,
) -> Seq<Seq<char>> {
    if enable_debug {
        window_extensions.push("VK_EXT_debug_utils"@)
    } else {
        window_extensions
    }
}

/// The layers of the instance.
pub open spec fn instance_layers(enable_debug: bool) -> Seq<Seq<char>> {
    if enable_debug {
        seq!["VK_LAYER_KHRONOS_validation"@]
    } else {
        Seq::empty()
    }
}

/// Plans the instance: what the window asks for and, in debug builds only, the debug
/// extension and the validation layer.
pub fn plan_instance(window_extensions: &Vec<String>, enable_debug: bool) -> (r: InstancePlan)
    ensures
        r.name@ == "PrismaRev"@,
        r.version == ENGINE_VERSION,
        r.api_version == API_VERSION_1_2,
        texts(r.extensions@) == instance_extensions(texts(window_extensions@), enable_debug),
        texts(r.layers@) == instance_layers(enable_debug),
{
    let mut extensions: Vec<String> = Vec::new();
    let mut i: usize = 0;
    while i < window_extensions.len()
        invariant
            i <= window_extensions.len(),
            extensions.len() == i,
            forall|k: int| 0 <= k < i ==> (#[trigger] extensions@[k])@ == window_extensions@[k]@,
        decreases window_extensions.len() - i,
    {
        extensions.push(window_extensions[i].clone());
        i = i + 1;
    }
    assert(texts(extensions@) =~= texts(window_extensions@));
    let mut layers: Vec<String> = Vec::new();
    assert(texts(layers@) =~= Seq::empty());
    if enable_debug {
        extensions.push("VK_EXT_debug_utils".to_owned());
        assert(texts(extensions@) =~= texts(window_extensions@).push("VK_EXT_debug_utils"@));
        layers.push("VK_LAYER_KHRONOS_validation".to_owned());
        assert(texts(layers@) =~= seq!["VK_LAYER_KHRONOS_validation"@]);
    }
    let version: u32 = ash::vk::make_api_version(0, 0, 1, 0);
    assert((0u32 << 29u32) | (0u32 << 22u32) | (1u32 << 12u32) | 0u32 == 0x0000_1000u32)
        by (bit_vector);
    InstancePlan {
        name: "PrismaRev".to_owned(),
        version,
        api_version: API_VERSION_1_2,
        extensions,
        layers,
    }
}

/// Whether the validation layer is among the layers of this machine.
pub fn validation_available(layers: &Vec<String>) -> (r: bool)
    ensures
        r == lists(layers@, "VK_LAYER_KHRONOS_validation"@),
{
    has_extension(layers, "VK_LAYER_KHRONOS_validation")
}

/// Whether validation messages are listened to: in debug builds, where the layers of
/// this machine can be listed and the validation layer is among them.
pub fn wants_messenger(enable_debug: bool, layers: Option<&Vec<String>>) -> (r: bool)
    ensures
        r == (enable_debug && (layers matches Some(list) && lists(
            list@,
            "VK_LAYER_KHRONOS_validation"@,
        ))),
{
    if !enable_debug {
        return false;
    }
    match layers {
        Some(list) => validation_available(list),
        None => false,
    }
}

/// How a validation message is logged.
#[derive(Clone, Copy, Debug, PartialEq, Eq, Structural)]
pub enum MessageLevel {
    Error,
    Warning,
    Silent,
}

/// The level of a severity.
pub open spec fn level_of(severity: u32) -> MessageLevel {
    if severity >= 0x1000 {
        MessageLevel::Error
    } else if severity >= 0x100 {
        MessageLevel::Warning
    } else {
        MessageLevel::Silent
    }
}

/// How a validation message of this severity is logged. Severities are bits, and a
/// higher one is worse: 0x100 is a warning and 0x1000 an error.
pub fn message_level(severity: u32) -> (r: MessageLevel)
    ensures
        r == level_of(severity),
{
    if severity >= 0x1000 {
        MessageLevel::Error
    } else if severity >= 0x100 {
        MessageLevel::Warning
    } else {
        MessageLevel::Silent
    }
}

// ---------------------------------------------------------------------------
// Device
// ---------------------------------------------------------------------------

/// The features that the logical device is created with.
#[derive(Clone, Copy, Debug, PartialEq, Eq, Structural)]
pub struct EnabledFeatures {
    pub shader_clip_distance: bool,
    pub independent_blend: bool,
    pub shader_draw_parameters: bool,
    pub buffer_device_address: bool,
    pub descriptor_indexing: bool,
    pub runtime_descriptor_array: bool,
    pub partially_bound: bool,
    pub sampled_image_update_after_bind: bool,
    pub variable_descriptor_count: bool,
    pub sampled_image_non_uniform_indexing: bool,
    pub storage_image_update_after_bind: bool,
    pub storage_buffer_update_after_bind: bool,
    pub timeline_semaphore: bool,
    pub synchronization2: bool,
    pub acceleration_structure: bool,
    pub acceleration_structure_update_after_bind: bool,
    pub ray_tracing_pipeline: bool,
    pub ray_query: bool,
}

/// What the logical device is created with.
pub struct DevicePlan {
    pub extensions: Vec<DeviceExtension>,
    pub features: EnabledFeatures,
}

/// Why a logical device is not created.
#[derive(Clone, Copy, Debug, PartialEq, Eq, Structural)]
pub enum DeviceError {
    /// The commands that texture uploads record are missing.
    NoTransferCommands,
}

/// The features to enable: drawing features as far as the device has them, and what the
/// capabilities say.
pub open spec fn features_for(
    caps: RayTracingCaps,
    clip_distance: bool,
    independent_blend: bool,
) -> EnabledFeatures {
    EnabledFeatures {
        shader_clip_distance: clip_distance,
        independent_blend,
        shader_draw_parameters: true,
        buffer_device_address: caps.buffer_device_address,
        descriptor_indexing: caps.descriptor_indexing,
        runtime_descriptor_array: caps.descriptor_indexing,
        partially_bound: caps.descriptor_indexing,
        sampled_image_update_after_bind: caps.descriptor_indexing,
        variable_descriptor_count: caps.descriptor_indexing,
        sampled_image_non_uniform_indexing: caps.descriptor_indexing,
        storage_image_update_after_bind: caps.descriptor_indexing,
        storage_buffer_update_after_bind: caps.descriptor_indexing,
        timeline_semaphore: caps.timeline_semaphore,
        synchronization2: true,
        acceleration_structure: caps.acceleration_structure,
        acceleration_structure_update_after_bind: caps.acceleration_structure,
        ray_tracing_pipeline: caps.ray_tracing_pipeline,
        ray_query: caps.ray_query,
    }
}

/// The extensions to enable: the swapchain where there is a surface, what texture
/// uploads record, and what ray tracing needs.
pub open spec fn extensions_for(caps: RayTracingCaps, has_surface: bool) -> Seq<DeviceExtension> {
    (if has_surface {
        seq![DeviceExtension::Swapchain]
    } else {
        Seq::empty()
    }) + seq![DeviceExtension::Synchronization2, DeviceExtension::CopyCommands2] + rt_extensions(
        caps,
    )
}

/// Plans the logical device. A device that lacks the upload commands is refused here
/// rather than when the first texture is uploaded.
pub fn plan_device(
    caps: &RayTracingCaps,
    has_surface: bool,
    clip_distance: bool,
    independent_blend: bool,
) -> (r: Result<DevicePlan, DeviceError>)
    ensures
        match r {
            Ok(plan) => {
                &&& caps.synchronization2 && caps.copy_commands2
                &&& plan.extensions@ == extensions_for(*caps, has_surface)
                &&& plan.features == features_for(*caps, clip_distance, independent_blend)
            },
            Err(e) => {
                &&& !(caps.synchronization2 && caps.copy_commands2)
                &&& e == DeviceError::NoTransferCommands
            },
        },
{
    if !caps.has_transfer_commands() {
        return Err(DeviceError::NoTransferCommands);
    }
    let mut extensions: Vec<DeviceExtension> = Vec::new();
    if has_surface {
        extensions.push(DeviceExtension::Swapchain);
    }
    extensions.push(DeviceExtension::Synchronization2);
    extensions.push(DeviceExtension::CopyCommands2);
    let mut rt: Vec<DeviceExtension> = rt_extension_names(caps);
    extensions.append(&mut rt);
    assert(extensions@ =~= extensions_for(*caps, has_surface));
    let features = EnabledFeatures {
        shader_clip_distance: clip_distance,
        independent_blend,
        shader_draw_parameters: true,
        buffer_device_address: caps.buffer_device_address,
        descriptor_indexing: caps.descriptor_indexing,
        runtime_descriptor_array: caps.descriptor_indexing,
        partially_bound: caps.descriptor_indexing,
        sampled_image_update_after_bind: caps.descriptor_indexing,
        variable_descriptor_count: caps.descriptor_indexing,
        sampled_image_non_uniform_indexing: caps.descriptor_indexing,
        storage_image_update_after_bind: caps.descriptor_indexing,
        storage_buffer_update_after_bind: caps.descriptor_indexing,
        timeline_semaphore: caps.timeline_semaphore,
        synchronization2: true,
        acceleration_structure: caps.acceleration_structure,
        acceleration_structure_update_after_bind: caps.acceleration_structure,
        ray_tracing_pipeline: caps.ray_tracing_pipeline,
        ray_query: caps.ray_query,
    };
    Ok(DevicePlan { extensions, features })
}

/// What has to be destroyed with the context, in order.
#[derive(Clone, Copy, Debug, PartialEq, Eq, Structural)]
pub enum ContextRelease {
    Messenger(u64),
    Device,
    Instance,
}

/// What the renderer knows of its instance and device.
pub struct VulkanContext {
    pub choice: DeviceChoice,
    pub rt_caps: RayTracingCaps,
    /// The extensions that were enabled at device creation.
    pub enabled_extensions: Vec<DeviceExtension>,
    /// Who listens to validation messages.
    pub debug_messenger: Option<u64>,
}

impl VulkanContext {
    /// The context over a device that is created as planned. Surfaces are there where
    /// the window asked for extensions of the instance.
    pub fn new(
        choice: DeviceChoice,
        caps: RayTracingCaps,
        window_extensions: &Vec<String>,
        clip_distance: bool,
        independent_blend: bool,
        debug_messenger: Option<u64>,
    ) -> (r: Result<(VulkanContext, DevicePlan), DeviceError>)
        ensures
            match r {
                Ok((context, plan)) => {
                    let has_surface = window_extensions@.len() > 0;
                    &&& caps.synchronization2 && caps.copy_commands2
                    &&& plan.extensions@ == extensions_for(caps, has_surface)
                    &&& plan.features == features_for(caps, clip_distance, independent_blend)
                    &&& context.enabled_extensions@ == plan.extensions@
                    &&& context.choice == choice
                    &&& context.rt_caps == caps
                    &&& context.debug_messenger == debug_messenger
                },
                Err(e) => {
                    &&& !(caps.synchronization2 && caps.copy_commands2)
                    &&& e == DeviceError::NoTransferCommands
                },
            },
    {
        let has_surface: bool = window_extensions.len() > 0;
        match plan_device(&caps, has_surface, clip_distance, independent_blend) {
            Ok(plan) => {
                let mut enabled_extensions: Vec<DeviceExtension> = Vec::new();
                let mut i: usize = 0;
                while i < plan.extensions.len()
                    invariant
                        i <= plan.extensions.len(),
                        enabled_extensions@ == plan.extensions@.take(i as int),
                    decreases plan.extensions.len() - i,
                {
                    enabled_extensions.push(plan.extensions[i]);
                    i = i + 1;
                    assert(enabled_extensions@ =~= plan.extensions@.take(i as int));
                }
                assert(plan.extensions@.take(i as int) =~= plan.extensions@);
                let context = VulkanContext {
                    choice,
                    rt_caps: caps,
                    enabled_extensions,
                    debug_messenger,
                };
                Ok((context, plan))
            },
            Err(e) => Err(e),
        }
    }

    /// The extensions that were enabled at device creation.
    pub fn enabled_extension_names(&self) -> (r: &Vec<DeviceExtension>)
        ensures
            r@ == self.enabled_extensions@,
    {
        &self.enabled_extensions
    }

    /// Whether an extension of this name was enabled at device creation.
    pub fn has_extension(&self, name: &str) -> (r: bool)
        ensures
            r == exists|i: int|
                0 <= i < self.enabled_extensions@.len() && (#[trigger] self.enabled_extensions@[i]).text() == name@,
    {
        let mut i: usize = 0;
        while i < self.enabled_extensions.len()
            invariant
                i <= self.enabled_extensions.len(),
                forall|k: int|
                    0 <= k < i ==> (#[trigger] self.enabled_extensions@[k]).text() != name@,
            decreases self.enabled_extensions.len() - i,
        {
            if same_text(self.enabled_extensions[i].name(), name) {
                assert(self.enabled_extensions@[i as int].text() == name@);
                return true;
            }
            i = i + 1;
        }
        false
    }

    /// Whether the functions of acceleration structures are loaded.
    pub fn loads_acceleration_structures(&self) -> (r: bool)
        ensures
            r == self.rt_caps.acceleration_structure,
    {
        self.rt_caps.acceleration_structure
    }

    /// Whether objects are given names, which only whoever listens to validation
    /// messages gets to see.
    pub fn name_object(&self) -> (r: bool)
        ensures
            r == self.debug_messenger is Some,
    {
        self.debug_messenger.is_some()
    }

    /// What has to be destroyed with the context: the messenger before the instance that
    /// it belongs to, and the device before its instance. It is given out once.
    pub fn release(&mut self) -> (r: Vec<ContextRelease>)
        ensures
            r@ == context_release(old(self).debug_messenger),
            final(self).debug_messenger is None,
            final(self).enabled_extensions@ == old(self).enabled_extensions@,
            final(self).choice == old(self).choice,
            final(self).rt_caps == old(self).rt_caps,
    {
        let mut list: Vec<ContextRelease> = Vec::new();
        if let Some(m) = self.debug_messenger {
            list.push(ContextRelease::Messenger(m));
        }
        self.debug_messenger = None;
        list.push(ContextRelease::Device);
        list.push(ContextRelease::Instance);
        assert(list@ =~= (match old(self).debug_messenger {
            Some(m) => seq![ContextRelease::Messenger(m)],
            None => Seq::empty(),
        }) + seq![ContextRelease::Device, ContextRelease::Instance]);
        list
    }
}

/// The swapchain is enabled for windowed devices and for no others.
pub proof fn swapchain_needs_a_surface(caps: RayTracingCaps, has_surface: bool)
    ensures
        extensions_for(caps, has_surface).contains(DeviceExtension::Swapchain) == has_surface,
{
    let list = extensions_for(caps, has_surface);
    if has_surface {
        assert(list[0] == DeviceExtension::Swapchain);
    } else {
        assert forall|i: int| 0 <= i < list.len() implies list[i] != DeviceExtension::Swapchain by {
            if i >= 2 {
                assert(list[i] == rt_extensions(caps)[i - 2]);
            }
        }
    }
}

/// No extension is asked for twice.
pub proof fn device_extensions_are_distinct(caps: RayTracingCaps, has_surface: bool)
    ensures
        extensions_for(caps, has_surface).no_duplicates(),
{
    crate::capabilities::enabled_extensions_are_distinct(caps);
    let head = (if has_surface {
        seq![DeviceExtension::Swapchain]
    } else {
        Seq::empty()
    }) + seq![DeviceExtension::Synchronization2, DeviceExtension::CopyCommands2];
    let rt = rt_extensions(caps);
    assert forall|i: int, j: int|
        0 <= i < head.len() + rt.len() && 0 <= j < head.len() + rt.len() && i
            != j implies extensions_for(caps, has_surface)[i] != extensions_for(
        caps,
        has_surface,
    )[j] by {
        assert(extensions_for(caps, has_surface) =~= head + rt);
        if i >= head.len() && j >= head.len() {
            assert(rt[i - head.len()] != rt[j - head.len()]);
        }
    }
}

/// Where descriptor indexing is enabled, so is everything that the bindless table needs.
pub proof fn bindless_features_come_together(
    caps: RayTracingCaps,
    clip_distance: bool,
    independent_blend: bool,
)
    ensures
        ({
            let f = features_for(caps, clip_distance, independent_blend);
            f.descriptor_indexing == (f.descriptor_indexing && f.runtime_descriptor_array
                && f.partially_bound && f.sampled_image_update_after_bind
                && f.variable_descriptor_count && f.sampled_image_non_uniform_indexing)
        }),
{
}

/// A kind of device is passed over only for a better one: a discrete device for none, an
/// integrated one only for a discrete one, and a virtual one only for one of these.
pub proof fn better_kinds_come_first(devices: Seq<PhysicalDevice>, i: int, k: int)
    requires
        is_best(devices, i),
        0 <= k < devices.len(),
        has_graphics(devices[k].queue_flags@),
    ensures
        devices[k].kind == DeviceKind::Discrete ==> devices[i].kind == DeviceKind::Discrete,
        devices[k].kind == DeviceKind::Integrated ==> devices[i].kind == DeviceKind::Discrete
            || devices[i].kind == DeviceKind::Integrated,
        devices[k].kind == DeviceKind::Virtual ==> devices[i].kind != DeviceKind::Other,
        has_graphics(devices[i].queue_flags@),
        devices[k].kind == devices[i].kind && devices[k].ray_tracing == devices[i].ray_tracing ==> i
            <= k,
{
    assert(rank(devices[k]) <= rank(devices[i]));
}

/// A feature is enabled exactly where the device has it, and the extension that a feature
/// of ray tracing needs is enabled with it. What uploads record is always enabled.
pub proof fn features_have_their_extensions(
    caps: RayTracingCaps,
    has_surface: bool,
    clip_distance: bool,
    independent_blend: bool,
)
    ensures
        ({
            let f = features_for(caps, clip_distance, independent_blend);
            let list = extensions_for(caps, has_surface);
            &&& f.shader_clip_distance == clip_distance
            &&& f.independent_blend == independent_blend
            &&& f.buffer_device_address == caps.buffer_device_address
            &&& f.descriptor_indexing == caps.descriptor_indexing
            &&& f.timeline_semaphore == caps.timeline_semaphore
            &&& f.acceleration_structure == caps.acceleration_structure
            &&& f.acceleration_structure == list.contains(DeviceExtension::AccelerationStructure)
            &&& f.acceleration_structure ==> list.contains(
                DeviceExtension::DeferredHostOperations,
            )
            &&& f.acceleration_structure_update_after_bind ==> f.acceleration_structure
            &&& f.ray_tracing_pipeline == caps.ray_tracing_pipeline
            &&& f.ray_tracing_pipeline == list.contains(DeviceExtension::RayTracingPipeline)
            &&& f.ray_query == caps.ray_query
            &&& f.ray_query == list.contains(DeviceExtension::RayQuery)
            &&& f.synchronization2 && f.shader_draw_parameters
            &&& list.contains(DeviceExtension::Synchronization2)
            &&& list.contains(DeviceExtension::CopyCommands2)
        }),
{
    let list = extensions_for(caps, has_surface);
    let rt = rt_extensions(caps);
    let head: int = if has_surface {
        3
    } else {
        2
    };
    crate::capabilities::extensions_go_with_their_capability(caps);
    assert(list[head - 2] == DeviceExtension::Synchronization2);
    assert(list[head - 1] == DeviceExtension::CopyCommands2);
    assert forall|e: DeviceExtension|
        e != DeviceExtension::Swapchain && e != DeviceExtension::Synchronization2 && e
            != DeviceExtension::CopyCommands2 implies #[trigger] list.contains(e) == rt.contains(
        e,
    ) by {
        if rt.contains(e) {
            let i = choose|i: int| 0 <= i < rt.len() && rt[i] == e;
            assert(list[head + i] == e);
        }
        if list.contains(e) {
            let i = choose|i: int| 0 <= i < list.len() && list[i] == e;
            assert(i >= head);
            assert(rt[i - head] == e);
        }
    }
}

/// A worse message is never logged at a lower level, and of the severities a device knows
/// errors and warnings are logged as what they are and the others not at all.
pub proof fn worse_messages_are_not_hidden(severity: u32, worse: u32)
    requires
        severity <= worse,
    ensures
        level_of(worse) is Silent ==> level_of(severity) is Silent,
        level_of(severity) is Error ==> level_of(worse) is Error,
        severity & 0x1000 != 0 ==> level_of(severity) is Error,
        severity & 0x100 != 0 ==> !(level_of(severity) is Silent),
        severity & 0xffff_f000 == 0 ==> !(level_of(severity) is Error),
        severity & 0xffff_ff00 == 0 ==> level_of(severity) is Silent,
{
    assert(severity & 0x1000 != 0 ==> severity >= 0x1000) by (bit_vector);
    assert(severity & 0x100 != 0 ==> severity >= 0x100) by (bit_vector);
    assert(severity & 0xffff_f000 == 0 ==> severity < 0x1000) by (bit_vector);
    assert(severity & 0xffff_ff00 == 0 ==> severity < 0x100) by (bit_vector);
}

/// The window gets every extension that it asks for; the debug extension and the
/// validation layer come together, and only for debugging.
pub proof fn window_gets_its_extensions(asked: Seq<Seq<char>>, name: Seq<char>, enable_debug: bool)
    requires
        asked.contains(name),
    ensures
        instance_extensions(asked, enable_debug).contains(name),
        instance_extensions(asked, true).contains("VK_EXT_debug_utils"@),
        instance_extensions(asked, true).len() == instance_extensions(asked, false).len() + 1,
        instance_extensions(asked, false).contains("VK_EXT_debug_utils"@) ==> asked.contains(
            "VK_EXT_debug_utils"@,
        ),
        instance_layers(true).contains("VK_LAYER_KHRONOS_validation"@),
        instance_layers(true).len() == 1,
        instance_layers(false).len() == 0,
{
    let i = choose|i: int| 0 <= i < asked.len() && asked[i] == name;
    assert(instance_extensions(asked, enable_debug)[i] == name);
    assert(instance_extensions(asked, true)[asked.len() as int] == "VK_EXT_debug_utils"@);
    assert(instance_layers(true)[0] == "VK_LAYER_KHRONOS_validation"@);
}

/// What has to be destroyed with a context.
pub open spec fn context_release(messenger: Option<u64>) -> Seq<ContextRelease> {
    (match messenger {
        Some(m) => seq![ContextRelease::Messenger(m)],
        None => Seq::empty(),
    }) + seq![ContextRelease::Device, ContextRelease::Instance]
}

/// The instance goes last, behind the device and behind the messenger where there is one.
pub proof fn instance_goes_last(messenger: Option<u64>, handle: u64)
    ensures
        context_release(messenger).last() == ContextRelease::Instance,
        context_release(messenger).contains(ContextRelease::Device),
        context_release(messenger).contains(ContextRelease::Messenger(handle)) <==> messenger
            == Some(handle),
        context_release(messenger).len() == (if messenger is Some {
            3int
        } else {
            2
        }),
{
    let list = context_release(messenger);
    assert(list[list.len() - 2] == ContextRelease::Device);
    if messenger is Some {
        assert(list[0] == ContextRelease::Messenger(messenger->Some_0));
    }
}

/// The choice can be made device by device: the only device is chosen where it takes
/// graphics commands, and one more device is chosen instead only where it is preferred.
pub proof fn choice_is_made_device_by_device(
    devices: Seq<PhysicalDevice>,
    i: int,
    more: PhysicalDevice,
)
    ensures
        is_best(seq![more], 0) <==> has_graphics(more.queue_flags@),
        is_best(devices, i) && !(has_graphics(more.queue_flags@) && rank(devices[i]) < rank(more))
            ==> is_best(devices.push(more), i),
        is_best(devices, i) && has_graphics(more.queue_flags@) && rank(devices[i]) < rank(more)
            ==> is_best(devices.push(more), devices.len() as int),
{
    let all = devices.push(more);
    if is_best(devices, i) {
        assert forall|k: int| 0 <= k < devices.len() && has_graphics(devices[k].queue_flags@) implies rank(
            devices[k],
        ) <= rank(devices[i]) by {}
        assert(all[i] == devices[i]);
        assert forall|k: int| 0 <= k < devices.len() implies #[trigger] all[k] == devices[k] by {}
    }
}

/// A queue family takes graphics commands where its lowest bit says so, whatever the
/// others say.
pub proof fn lowest_bit_tells_graphics(flags: u32)
    ensures
        takes_graphics(flags) <==> flags % 2 == 1,
{
    assert(flags & 1 == flags % 2) by (bit_vector);
}

/// The queue family is found one by one: the only one where it takes graphics commands, and
/// one more only where none before it does.
pub proof fn family_is_found_one_by_one(queue_flags: Seq<u32>, i: int, more: u32)
    ensures
        is_first_graphics(seq![more], 0) <==> takes_graphics(more),
        is_first_graphics(queue_flags, i) ==> is_first_graphics(queue_flags.push(more), i),
        is_first_graphics(queue_flags.push(more), queue_flags.len() as int) <==> takes_graphics(more)
            && forall|k: int|
                0 <= k < queue_flags.len() ==> !takes_graphics(#[trigger] queue_flags[k]),
{
    let all = queue_flags.push(more);
    assert forall|k: int| 0 <= k < queue_flags.len() implies #[trigger] all[k] == queue_flags[k] by {}
    if is_first_graphics(all, queue_flags.len() as int) {
        assert forall|k: int| 0 <= k < queue_flags.len() implies !takes_graphics(
            #[trigger] queue_flags[k],
        ) by {
            assert(!takes_graphics(all[k]));
        }
    }
}

} // verus!
