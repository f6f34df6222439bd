//! What a physical device can do, as far as ray tracing and texture uploads need it.
//!
//! An extension counts as usable only where the driver both advertises it and reports
//! the matching feature.

use vstd::prelude::*;
use vstd::string::*;

use crate::text::{bool_str, bool_text, decimal, decimal_text};

verus! {

/// The device extensions that the renderer knows.
#[derive(Clone, Copy, Debug, PartialEq, Eq, Structural)]
pub enum DeviceExtension {
    Swapchain,
    Synchronization2,
    CopyCommands2,
    DescriptorIndexing,
    BufferDeviceAddress,
    AccelerationStructure,
    DeferredHostOperations,
    Spirv14,
    ShaderFloatControls,
    RayTracingPipeline,
    PipelineLibrary,
    RayQuery,
}

impl DeviceExtension {
    /// The name of the extension, as drivers advertise it.
    pub open spec fn text(self) -> Seq<char> {
        match self {
            DeviceExtension::Swapchain => "VK_KHR_swapchain"@,
            DeviceExtension::Synchronization2 => "VK_KHR_synchronization2"@,
            DeviceExtension::CopyCommands2 => "VK_KHR_copy_commands2"@,
            DeviceExtension::DescriptorIndexing => "VK_EXT_descriptor_indexing"@,
            DeviceExtension::BufferDeviceAddress => "VK_KHR_buffer_device_address"@,
            DeviceExtension::AccelerationStructure => "VK_KHR_acceleration_structure"@,
            DeviceExtension::DeferredHostOperations => "VK_KHR_deferred_host_operations"@,
            DeviceExtension::Spirv14 => "VK_KHR_spirv_1_4"@,
            DeviceExtension::ShaderFloatControls => "VK_KHR_shader_float_controls"@,
            DeviceExtension::RayTracingPipeline => "VK_KHR_ray_tracing_pipeline"@,
            DeviceExtension::PipelineLibrary => "VK_KHR_pipeline_library"@,
            DeviceExtension::RayQuery => "VK_KHR_ray_query"@,
        }
    }

    /// The name of the extension, as drivers advertise it.
    pub fn name(self) -> (r: &'static str)
        ensures
            r@ == self.text(),
    {
        match self {
            DeviceExtension::Swapchain => "VK_KHR_swapchain",
            DeviceExtension::Synchronization2 => "VK_KHR_synchronization2",
            DeviceExtension::CopyCommands2 => "VK_KHR_copy_commands2",
            DeviceExtension::DescriptorIndexing => "VK_EXT_descriptor_indexing",
            DeviceExtension::BufferDeviceAddress => "VK_KHR_buffer_device_address",
            DeviceExtension::AccelerationStructure => "VK_KHR_acceleration_structure",
            DeviceExtension::DeferredHostOperations => "VK_KHR_deferred_host_operations",
            DeviceExtension::Spirv14 => "VK_KHR_spirv_1_4",
            DeviceExtension::ShaderFloatControls => "VK_KHR_shader_float_controls",
            DeviceExtension::RayTracingPipeline => "VK_KHR_ray_tracing_pipeline",
            DeviceExtension::PipelineLibrary => "VK_KHR_pipeline_library",
            DeviceExtension::RayQuery => "VK_KHR_ray_query",
        }
    }
}

/// What probing a physical device found. Everything is off or zero where the device
/// lacks it, so that callers can branch on it freely.
#[derive(Clone, Copy, Debug, PartialEq, Eq, Structural)]
pub struct RayTracingCaps {
    pub vulkan_1_2: bool,
    pub buffer_device_address: bool,
    pub descriptor_indexing: bool,
    pub timeline_semaphore: bool,
    pub synchronization2: bool,
    pub copy_commands2: bool,
    pub acceleration_structure: bool,
    pub deferred_host_operations: bool,
    pub ray_tracing_pipeline: bool,
    pub ray_query: bool,
    pub max_recursion_depth: u32,
    pub shader_group_handle_size: u32,
    pub max_shader_group_stride: u32,
    pub shader_group_base_alignment: u32,
    pub max_ray_dispatch_invocation_count: u32,
    pub shader_group_handle_alignment: u32,
    pub max_ray_hit_attribute_size: u32,
}

/// Capabilities of a device that can do nothing.
pub open spec fn no_caps() -> RayTracingCaps {
    RayTracingCaps {
        vulkan_1_2: false,
        buffer_device_address: false,
        descriptor_indexing: false,
        timeline_semaphore: false,
        synchronization2: false,
        copy_commands2: false,
        acceleration_structure: false,
        deferred_host_operations: false,
        ray_tracing_pipeline: false,
        ray_query: false,
        max_recursion_depth: 0,
        shader_group_handle_size: 0,
        max_shader_group_stride: 0,
        shader_group_base_alignment: 0,
        max_ray_dispatch_invocation_count: 0,
        shader_group_handle_alignment: 0,
        max_ray_hit_attribute_size: 0,
    }
}

impl Default for RayTracingCaps {
    fn default() -> (r: Self)
        ensures
            r == no_caps(),
    {
        RayTracingCaps {
            vulkan_1_2: false,
            buffer_device_address: false,
            descriptor_indexing: false,
            timeline_semaphore: false,
            synchronization2: false,
            copy_commands2: false,
            acceleration_structure: false,
            deferred_host_operations: false,
            ray_tracing_pipeline: false,
            ray_query: false,
            max_recursion_depth: 0,
            shader_group_handle_size: 0,
            max_shader_group_stride: 0,
            shader_group_base_alignment: 0,
            max_ray_dispatch_invocation_count: 0,
            shader_group_handle_alignment: 0,
            max_ray_hit_attribute_size: 0,
        }
    }
}

impl RayTracingCaps {
    /// Whether there is any way to trace rays: acceleration structures, and pipelines or
    /// queries on top of them.
    pub fn any_ray_tracing(&self) -> (r: bool)
        ensures
            r == (self.acceleration_structure && (self.ray_tracing_pipeline || self.ray_query)),
    {
        self.acceleration_structure && (self.ray_tracing_pipeline || self.ray_query)
    }

    /// Whether full ray-tracing pipelines can be used.
    pub fn has_rt_pipeline(&self) -> (r: bool)
        ensures
            r == (self.acceleration_structure && self.ray_tracing_pipeline),
    {
        self.acceleration_structure && self.ray_tracing_pipeline
    }

    /// Whether inline ray queries can be used.
    pub fn has_ray_query(&self) -> (r: bool)
        ensures
            r == (self.acceleration_structure && self.ray_query),
    {
        self.acceleration_structure && self.ray_query
    }

    /// Whether the commands that texture uploads record are there. Without them a device
    /// is not to be created.
    pub fn has_transfer_commands(&self) -> (r: bool)
        ensures
            r == (self.synchronization2 && self.copy_commands2),
    {
        self.synchronization2 && self.copy_commands2
    }

    /// The capabilities as one line of text; the properties of ray-tracing pipelines
    /// only where there are such pipelines.
    pub open spec fn text(&self) -> Seq<char> {
        let flags = "vulkan_1_2="@ + bool_text(self.vulkan_1_2) + " buffer_device_address="@
            + bool_text(self.buffer_device_address) + " descriptor_indexing="@ + bool_text(
            self.descriptor_indexing,
        ) + " timeline_semaphore="@ + bool_text(self.timeline_semaphore) + " synchronization2="@
            + bool_text(self.synchronization2) + " copy_commands2="@ + bool_text(
            self.copy_commands2,
        ) + " accel_struct="@ + bool_text(self.acceleration_structure) + " deferred_host="@
            + bool_text(self.deferred_host_operations) + " rt_pipeline="@ + bool_text(
            self.ray_tracing_pipeline,
        ) + " ray_query="@ + bool_text(self.ray_query);
        if self.ray_tracing_pipeline {
            flags + " [max_recursion="@ + decimal_text(self.max_recursion_depth as nat)
                + " handle_size="@ + decimal_text(self.shader_group_handle_size as nat)
                + " stride="@ + decimal_text(self.max_shader_group_stride as nat) + " base_align="@
                + decimal_text(self.shader_group_base_alignment as nat) + "]"@
        } else {
            flags
        }
    }

    /// The capabilities as one line of text.
    pub fn describe(&self) -> (r: String)
        ensures
            r@ == self.text(),
    {
        let mut s: String = "vulkan_1_2=".to_owned();
        s.append(bool_str(self.vulkan_1_2));
        s.append(" buffer_device_address=");
        s.append(bool_str(self.buffer_device_address));
        s.append(" descriptor_indexing=");
        s.append(bool_str(self.descriptor_indexing));
        s.append(" timeline_semaphore=");
        s.append(bool_str(self.timeline_semaphore));
        s.append(" synchronization2=");
        s.append(bool_str(self.synchronization2));
        s.append(" copy_commands2=");
        s.append(bool_str(self.copy_commands2));
        s.append(" accel_struct=");
        s.append(bool_str(self.acceleration_structure));
        s.append(" deferred_host=");
        s.append(bool_str(self.deferred_host_operations));
        s.append(" rt_pipeline=");
        s.append(bool_str(self.ray_tracing_pipeline));
        s.append(" ray_query=");
        s.append(bool_str(self.ray_query));
        if self.ray_tracing_pipeline {
            s.append(" [max_recursion=");
            s.append(decimal(self.max_recursion_depth as u64).as_str());
            s.append(" handle_size=");
            s.append(decimal(self.shader_group_handle_size as u64).as_str());
            s.append(" stride=");
            s.append(decimal(self.max_shader_group_stride as u64).as_str());
            s.append(" base_align=");
            s.append(decimal(self.shader_group_base_alignment as u64).as_str());
            s.append("]");
        }
        s
    }
}

// ---------------------------------------------------------------------------
// Advertised extensions
// ---------------------------------------------------------------------------

/// One of the names is `name`.
pub open spec fn lists(available: Seq<String>, name: Seq<char>) -> bool {
    exists|i: int| 0 <= i < available.len() && (#[trigger] available[i])@ == name
}

/// No name occurs twice.
pub open spec fn all_distinct(available: Seq<String>) -> bool {
    forall|i: int, j: int|
        0 <= i < j < available.len() ==> (#[trigger] available[i])@ != (#[trigger] available[j])@
}

/// Whether the advertised extensions contain `name`.
pub fn has_extension(available: &Vec<String>, name: &str) -> (r: bool)
    ensures
        r == lists(available@, name@),
{
    let wanted: String = name.to_owned();
    let mut i: usize = 0;
    while i < available.len()
        invariant
            i <= available.len(),
            wanted@ == name@,
            forall|k: int| 0 <= k < i ==> (#[trigger] available@[k])@ != name@,
        decreases available.len() - i,
    {
        if available[i] == wanted {
            return true;
        }
        i = i + 1;
    }
    false
}

/// The bytes before the first zero byte; all of them where there is none.
pub open spec fn until_nul(bytes: Seq<u8>) -> Seq<u8>
    decreases bytes.len(),
{
    if bytes.len() == 0 || bytes[0] == 0 {
        Seq::empty()
    } else {
        seq![bytes[0]] + until_nul(bytes.skip(1))
    }
}

/// The text that `String::from_utf8_lossy` makes of some bytes.
pub uninterp spec fn lossy_text(bytes: Seq<u8>) -> Seq<char>;

/// `String::from_utf8_lossy` turns bytes into text, replacing what is not valid UTF-8.
/// The contract names the text, and says what it is for ASCII bytes: the characters of
/// the same numbers.
#[verifier::external_body]
fn text_of(bytes: &[u8]) -> (r: String)
    ensures
        r@ == lossy_text(bytes@),
        (forall|i: int| 0 <= i < bytes@.len() ==> bytes@[i] < 128) ==> r@ == bytes@.map_values(
            |b: u8| b as char,
        ),
{
    String::from_utf8_lossy(bytes).into_owned()
}

/// The names of a list of fixed-size, zero-terminated fields, without repetitions and in
/// the order of their first occurrence.
pub open spec fn names_of(fields: Seq<[u8; 256]>) -> Seq<Seq<char>>
    decreases fields.len(),
{
    if fields.len() == 0 {
        Seq::empty()
    } else {
        let before = names_of(fields.drop_last());
        let name = lossy_text(until_nul(fields.last()@));
        if before.contains(name) {
            before
        } else {
            before.push(name)
        }
    }
}

/// The texts of a list of strings.
pub open spec fn texts(names: Seq<String>) -> Seq<Seq<char>> {
    names.map_values(|s: String| s@)
}

proof fn lemma_until_nul_step(bytes: Seq<u8>, n: int)
    requires
        0 <= n <= bytes.len(),
        forall|k: int| 0 <= k < n ==> bytes[k] != 0,
        n == bytes.len() || bytes[n] == 0,
    ensures
        until_nul(bytes) == bytes.take(n),
    decreases n,
{
    if n == 0 {
        assert(bytes.take(0) =~= Seq::empty());
    } else {
        let rest = bytes.skip(1);
        lemma_until_nul_step(rest, n - 1);
        assert(seq![bytes[0]] + rest.take(n - 1) =~= bytes.take(n));
    }
}

/// Decodes one zero-terminated field.
fn field_text(field: &[u8; 256]) -> (r: String)
    ensures
        r@ == lossy_text(until_nul(field@)),
{
    let mut bytes: Vec<u8> = Vec::new();
    let mut n: usize = 0;
    while n < 256 && field[n] != 0
        invariant
            n <= 256,
            bytes@ == field@.take(n as int),
            forall|k: int| 0 <= k < n ==> field@[k] != 0,
        decreases 256 - n,
    {
        bytes.push(field[n]);
        assert(bytes@ =~= field@.take(n + 1));
        n = n + 1;
    }
    proof {
        lemma_until_nul_step(field@, n as int);
    }
    text_of(bytes.as_slice())
}

/// Collects the names of the extensions that a device advertises, each of them once.
pub fn collect_extension_names(fields: &Vec<[u8; 256]>) -> (r: Vec<String>)
    ensures
        texts(r@) == names_of(fields@),
        all_distinct(r@),
{
    let mut names: Vec<String> = Vec::new();
    let mut i: usize = 0;
    assert(texts(names@) =~= names_of(fields@.take(0)));
    while i < fields.len()
        invariant
            i <= fields.len(),
            texts(names@) == names_of(fields@.take(i as int)),
            all_distinct(names@),
        decreases fields.len() - i,
    {
        let name: String = field_text(&fields[i]);
        let ghost before = names@;
        proof {
            assert(fields@.take(i + 1).drop_last() =~= fields@.take(i as int));
            assert(lists(before, name@) == texts(before).contains(name@)) by {
                if lists(before, name@) {
                    let k = choose|k: int| 0 <= k < before.len() && (#[trigger] before[k])@ == name@;
                    assert(texts(before)[k] == name@);
                }
                if texts(before).contains(name@) {
                    let k = choose|k: int| 0 <= k < texts(before).len() && texts(before)[k] == name@;
                    assert(before[k]@ == name@);
                }
            }
        }
        if !has_extension(&names, name.as_str()) {
            names.push(name);
            assert(texts(names@) =~= texts(before).push(name@));
        }
        i = i + 1;
    }
    assert(fields@.take(i as int) =~= fields@);
    names
}

// ---------------------------------------------------------------------------
// Probing
// ---------------------------------------------------------------------------

/// `ash::vk::make_api_version` packs the parts of a version into one number; the
/// contract is its formula.
pub assume_specification[ ash::vk::make_api_version ](
    variant: u32,
    major: u32,
    minor: u32,
    patch: u32,
) -> (r: u32)
    ensures
        r == (variant << 29u32) | (major << 22u32) | (minor << 12u32) | patch,
;

/// The number of Vulkan 1.2.
pub const API_VERSION_1_2: u32 = 0x0040_2000;

/// The number of Vulkan 1.3.
pub const API_VERSION_1_3: u32 = 0x0040_3000;

/// The features that a driver reports. Those of an extension that is not advertised are
/// not asked for and count as absent.
#[derive(Clone, Copy, Debug, PartialEq, Eq, Structural)]
pub struct ReportedFeatures {
    pub buffer_device_address: bool,
    pub descriptor_indexing: bool,
    pub timeline_semaphore: bool,
    pub acceleration_structure: bool,
    pub ray_tracing_pipeline: bool,
    pub ray_query: bool,
}

/// The features that a driver is asked for beside those of its version: those of the
/// extensions that it advertises.
#[derive(Clone, Copy, Debug, PartialEq, Eq, Structural)]
pub struct FeatureQueries {
    pub acceleration_structure: bool,
    pub ray_tracing_pipeline: bool,
    pub ray_query: bool,
}

/// The features to ask a driver for.
pub fn feature_queries(available: &Vec<String>) -> (r: FeatureQueries)
    ensures
        r == (FeatureQueries {
            acceleration_structure: advertised(
                available@,
                DeviceExtension::AccelerationStructure,
            ),
            ray_tracing_pipeline: advertised(available@, DeviceExtension::RayTracingPipeline),
            ray_query: advertised(available@, DeviceExtension::RayQuery),
        }),
{
    FeatureQueries {
        acceleration_structure: has_extension(
            available,
            DeviceExtension::AccelerationStructure.name(),
        ),
        ray_tracing_pipeline: has_extension(available, DeviceExtension::RayTracingPipeline.name()),
        ray_query: has_extension(available, DeviceExtension::RayQuery.name()),
    }
}

/// The properties of ray-tracing pipelines.
#[derive(Clone, Copy, Debug, PartialEq, Eq, Structural)]
pub struct PipelineProperties {
    pub max_recursion_depth: u32,
    pub shader_group_handle_size: u32,
    pub max_shader_group_stride: u32,
    pub shader_group_base_alignment: u32,
    pub max_ray_dispatch_invocation_count: u32,
    pub shader_group_handle_alignment: u32,
    pub max_ray_hit_attribute_size: u32,
}

/// `ext` is advertised.
pub open spec fn advertised(available: Seq<String>, ext: DeviceExtension) -> bool {
    lists(available, ext.text())
}

/// Whether a device of this version has at least the given one.
fn at_least(api_version: u32, minor: u32) -> (r: bool)
    requires
        minor == 2 || minor == 3,
    ensures
        r == (api_version >= (if minor == 2 {
            API_VERSION_1_2
        } else {
            API_VERSION_1_3
        })),
{
    let wanted: u32 = ash::vk::make_api_version(0, 1, minor, 0);
    assert((0u32 << 29u32) | (1u32 << 22u32) | (2u32 << 12u32) | 0u32 == 0x0040_2000u32)
        by (bit_vector);
    assert((0u32 << 29u32) | (1u32 << 22u32) | (3u32 << 12u32) | 0u32 == 0x0040_3000u32)
        by (bit_vector);
    api_version >= wanted
}

/// What a device can do, from its version, its advertised extensions and its reported
/// features.
pub open spec fn probed(
    api_version: u32,
    available: Seq<String>,
    features: ReportedFeatures,
) -> RayTracingCaps {
    RayTracingCaps {
        vulkan_1_2: api_version >= API_VERSION_1_2,
        buffer_device_address: features.buffer_device_address,
        descriptor_indexing: features.descriptor_indexing,
        timeline_semaphore: features.timeline_semaphore,
        synchronization2: api_version >= API_VERSION_1_3 || advertised(
            available,
            DeviceExtension::Synchronization2,
        ),
        copy_commands2: api_version >= API_VERSION_1_3 || advertised(
            available,
            DeviceExtension::CopyCommands2,
        ),
        acceleration_structure: {
            &&& advertised(available, DeviceExtension::AccelerationStructure)
            &&& advertised(available, DeviceExtension::DeferredHostOperations)
            &&& advertised(available, DeviceExtension::DescriptorIndexing)
            &&& advertised(available, DeviceExtension::BufferDeviceAddress)
            &&& features.acceleration_structure
        },
        deferred_host_operations: advertised(available, DeviceExtension::DeferredHostOperations),
        ray_tracing_pipeline: {
            &&& advertised(available, DeviceExtension::RayTracingPipeline)
            &&& advertised(available, DeviceExtension::Spirv14)
            &&& advertised(available, DeviceExtension::ShaderFloatControls)
            &&& features.ray_tracing_pipeline
        },
        ray_query: {
            &&& advertised(available, DeviceExtension::RayQuery)
            &&& advertised(available, DeviceExtension::Spirv14)
            &&& advertised(available, DeviceExtension::ShaderFloatControls)
            &&& features.ray_query
        },
        ..no_caps()
    }
}

/// What a device can do, from its version, its advertised extensions and its reported
/// features. The properties of ray-tracing pipelines are not known yet.
pub fn probe(api_version: u32, available: &Vec<String>, features: ReportedFeatures) -> (r:
    RayTracingCaps)
    ensures
        r == probed(api_version, available@, features),
        backed_by(r, available@),
{
    let vulkan_1_2: bool = at_least(api_version, 2);
    let vulkan_1_3: bool = at_least(api_version, 3);
    let has_accel: bool = has_extension(available, DeviceExtension::AccelerationStructure.name());
    let has_rt_pipeline: bool = has_extension(
        available,
        DeviceExtension::RayTracingPipeline.name(),
    );
    let has_ray_query: bool = has_extension(available, DeviceExtension::RayQuery.name());
    let has_deferred: bool = has_extension(
        available,
        DeviceExtension::DeferredHostOperations.name(),
    );
    let has_indexing: bool = has_extension(available, DeviceExtension::DescriptorIndexing.name());
    let has_address: bool = has_extension(available, DeviceExtension::BufferDeviceAddress.name());
    let has_spirv: bool = has_extension(available, DeviceExtension::Spirv14.name());
    let has_float: bool = has_extension(available, DeviceExtension::ShaderFloatControls.name());
    let has_sync: bool = has_extension(available, DeviceExtension::Synchronization2.name());
    let has_copy: bool = has_extension(available, DeviceExtension::CopyCommands2.name());
    RayTracingCaps {
        vulkan_1_2,
        buffer_device_address: features.buffer_device_address,
        descriptor_indexing: features.descriptor_indexing,
        timeline_semaphore: features.timeline_semaphore,
        synchronization2: vulkan_1_3 || has_sync,
        copy_commands2: vulkan_1_3 || has_copy,
        acceleration_structure: has_accel && has_deferred && has_indexing && has_address
            && features.acceleration_structure,
        deferred_host_operations: has_deferred,
        ray_tracing_pipeline: has_rt_pipeline && has_spirv && has_float
            && features.ray_tracing_pipeline,
        ray_query: has_ray_query && has_spirv && has_float && features.ray_query,
        ..Default::default()
    }
}

impl RayTracingCaps {
    /// Adds the properties of ray-tracing pipelines, where there are such pipelines.
    pub fn with_pipeline_properties(self, props: PipelineProperties) -> (r: Self)
        ensures
            r == with_properties(self, props),
    {
        if self.ray_tracing_pipeline {
            RayTracingCaps {
                max_recursion_depth: props.max_recursion_depth,
                shader_group_handle_size: props.shader_group_handle_size,
                max_shader_group_stride: props.max_shader_group_stride,
                shader_group_base_alignment: props.shader_group_base_alignment,
                max_ray_dispatch_invocation_count: props.max_ray_dispatch_invocation_count,
                shader_group_handle_alignment: props.shader_group_handle_alignment,
                max_ray_hit_attribute_size: props.max_ray_hit_attribute_size,
                ..self
            }
        } else {
            self
        }
    }
}

/// The extensions that acceleration structures need.
pub open spec fn accel_extensions() -> Seq<DeviceExtension> {
    seq![
        DeviceExtension::DescriptorIndexing,
        DeviceExtension::BufferDeviceAddress,
        DeviceExtension::AccelerationStructure,
        DeviceExtension::DeferredHostOperations,
    ]
}

/// The extensions that ray-tracing pipelines need.
pub open spec fn pipeline_extensions() -> Seq<DeviceExtension> {
    seq![
        DeviceExtension::Spirv14,
        DeviceExtension::ShaderFloatControls,
        DeviceExtension::RayTracingPipeline,
        DeviceExtension::PipelineLibrary,
    ]
}

/// The extensions to enable for ray tracing.
pub open spec fn rt_extensions(caps: RayTracingCaps) -> Seq<DeviceExtension> {
    (if caps.acceleration_structure {
        accel_extensions()
    } else {
        Seq::empty()
    }) + (if caps.ray_tracing_pipeline {
        pipeline_extensions()
    } else {
        Seq::empty()
    }) + (if caps.ray_query {
        seq![DeviceExtension::RayQuery]
    } else {
        Seq::empty()
    })
}

/// The device extensions to enable for ray tracing, given what the device can do.
pub fn rt_extension_names(caps: &RayTracingCaps) -> (r: Vec<DeviceExtension>)
    ensures
        r@ == rt_extensions(*caps),
{
    let mut names: Vec<DeviceExtension> = Vec::new();
    if caps.acceleration_structure {
        names.push(DeviceExtension::DescriptorIndexing);
        names.push(DeviceExtension::BufferDeviceAddress);
        names.push(DeviceExtension::AccelerationStructure);
        names.push(DeviceExtension::DeferredHostOperations);
    }
    if caps.ray_tracing_pipeline {
        names.push(DeviceExtension::Spirv14);
        names.push(DeviceExtension::ShaderFloatControls);
        names.push(DeviceExtension::RayTracingPipeline);
        names.push(DeviceExtension::PipelineLibrary);
    }
    if caps.ray_query {
        names.push(DeviceExtension::RayQuery);
    }
    assert(names@ =~= rt_extensions(*caps));
    names
}

// ---------------------------------------------------------------------------
// Laws
// ---------------------------------------------------------------------------

/// Whether capabilities come from probing a device with these extensions.
pub open spec fn backed_by(caps: RayTracingCaps, available: Seq<String>) -> bool {
    &&& caps.acceleration_structure ==> forall|i: int|
        0 <= i < 4 ==> advertised(available, #[trigger] accel_extensions()[i])
    &&& caps.ray_tracing_pipeline ==> forall|i: int|
        0 <= i < 3 ==> advertised(available, #[trigger] pipeline_extensions()[i])
    &&& caps.ray_query ==> advertised(available, DeviceExtension::RayQuery)
}

/// Every extension enabled for ray tracing was advertised, but for the pipeline library,
/// which comes with ray-tracing pipelines and is not probed for.
pub proof fn enabled_extensions_are_advertised(
    caps: RayTracingCaps,
    available: Seq<String>,
    i: int,
)
    requires
        backed_by(caps, available),
        0 <= i < rt_extensions(caps).len(),
        rt_extensions(caps)[i] != DeviceExtension::PipelineLibrary,
    ensures
        advertised(available, rt_extensions(caps)[i]),
{
    let e = rt_extensions(caps)[i];
    if caps.acceleration_structure && i < 4 {
        assert(e == accel_extensions()[i]);
    } else {
        let k = if caps.acceleration_structure {
            i - 4
        } else {
            i
        };
        if caps.ray_tracing_pipeline && k < 4 {
            assert(e == pipeline_extensions()[k]);
            assert(k != 3);
        }
    }
}

/// No extension is enabled twice.
pub proof fn enabled_extensions_are_distinct(caps: RayTracingCaps)
    ensures
        rt_extensions(caps).no_duplicates(),
{
}

/// An extension of ray tracing is enabled exactly where the capability that it is for is
/// there.
pub proof fn extensions_go_with_their_capability(caps: RayTracingCaps)
    ensures
        ({
            let list = rt_extensions(caps);
            let accel = caps.acceleration_structure;
            let pipeline = caps.ray_tracing_pipeline;
            &&& list.contains(DeviceExtension::AccelerationStructure) == accel
            &&& list.contains(DeviceExtension::DeferredHostOperations) == accel
            &&& list.contains(DeviceExtension::DescriptorIndexing) == accel
            &&& list.contains(DeviceExtension::BufferDeviceAddress) == accel
            &&& list.contains(DeviceExtension::RayTracingPipeline) == pipeline
            &&& list.contains(DeviceExtension::PipelineLibrary) == pipeline
            &&& list.contains(DeviceExtension::Spirv14) == pipeline
            &&& list.contains(DeviceExtension::ShaderFloatControls) == pipeline
            &&& list.contains(DeviceExtension::RayQuery) == caps.ray_query
        }),
{
    let list = rt_extensions(caps);
    let a: int = if caps.acceleration_structure {
        4
    } else {
        0
    };
    let p: int = if caps.ray_tracing_pipeline {
        4
    } else {
        0
    };
    if caps.acceleration_structure {
        assert(list[0] == DeviceExtension::DescriptorIndexing);
        assert(list[1] == DeviceExtension::BufferDeviceAddress);
        assert(list[2] == DeviceExtension::AccelerationStructure);
        assert(list[3] == DeviceExtension::DeferredHostOperations);
    }
    if caps.ray_tracing_pipeline {
        assert(list[a] == DeviceExtension::Spirv14);
        assert(list[a + 1] == DeviceExtension::ShaderFloatControls);
        assert(list[a + 2] == DeviceExtension::RayTracingPipeline);
        assert(list[a + 3] == DeviceExtension::PipelineLibrary);
    }
    if caps.ray_query {
        assert(list[a + p] == DeviceExtension::RayQuery);
    }
}

/// A device that advertises and reports everything can do everything, and a capability is
/// there only with its own feature and its own extensions.
pub proof fn capability_has_its_reasons(
    api_version: u32,
    available: Seq<String>,
    features: ReportedFeatures,
)
    ensures
        ({
            let caps = probed(api_version, available, features);
            let deferred = advertised(available, DeviceExtension::DeferredHostOperations);
            let shaders = advertised(available, DeviceExtension::Spirv14) && advertised(
                available,
                DeviceExtension::ShaderFloatControls,
            );
            &&& caps.ray_query ==> features.ray_query && shaders && advertised(
                available,
                DeviceExtension::RayQuery,
            )
            &&& caps.ray_tracing_pipeline ==> features.ray_tracing_pipeline && shaders
                && advertised(available, DeviceExtension::RayTracingPipeline)
            &&& caps.acceleration_structure ==> features.acceleration_structure && deferred
                && advertised(available, DeviceExtension::AccelerationStructure) && advertised(
                available,
                DeviceExtension::DescriptorIndexing,
            ) && advertised(available, DeviceExtension::BufferDeviceAddress)
            &&& caps.synchronization2 && !advertised(available, DeviceExtension::Synchronization2)
                ==> api_version >= API_VERSION_1_3
            &&& caps.copy_commands2 && !advertised(available, DeviceExtension::CopyCommands2)
                ==> api_version >= API_VERSION_1_3
            &&& caps.vulkan_1_2 ==> api_version >= API_VERSION_1_2
            &&& caps.deferred_host_operations ==> deferred
            &&& caps.buffer_device_address ==> features.buffer_device_address
            &&& caps.descriptor_indexing ==> features.descriptor_indexing
            &&& caps.timeline_semaphore ==> features.timeline_semaphore
            &&& api_version >= API_VERSION_1_3 && (forall|e: DeviceExtension|
                #[trigger] advertised(available, e)) && features.acceleration_structure
                && features.ray_tracing_pipeline && features.ray_query
                && features.buffer_device_address && features.descriptor_indexing
                && features.timeline_semaphore ==> {
                &&& caps.vulkan_1_2 && caps.synchronization2 && caps.copy_commands2
                &&& caps.acceleration_structure && caps.ray_tracing_pipeline && caps.ray_query
                &&& caps.deferred_host_operations && caps.buffer_device_address
                &&& caps.descriptor_indexing && caps.timeline_semaphore
            }
        }),
{
}

/// A device that advertises more, reports more or is newer can do no less.
pub proof fn more_is_never_less(
    api_version: u32,
    available: Seq<String>,
    features: ReportedFeatures,
    newer: u32,
    more: Seq<String>,
    better: ReportedFeatures,
)
    requires
        api_version <= newer,
        forall|e: DeviceExtension| #[trigger] advertised(available, e) ==> advertised(more, e),
        features.acceleration_structure ==> better.acceleration_structure,
        features.ray_tracing_pipeline ==> better.ray_tracing_pipeline,
        features.ray_query ==> better.ray_query,
        features.buffer_device_address ==> better.buffer_device_address,
        features.descriptor_indexing ==> better.descriptor_indexing,
        features.timeline_semaphore ==> better.timeline_semaphore,
    ensures
        ({
            let a = probed(api_version, available, features);
            let b = probed(newer, more, better);
            &&& a.vulkan_1_2 ==> b.vulkan_1_2
            &&& a.synchronization2 ==> b.synchronization2
            &&& a.copy_commands2 ==> b.copy_commands2
            &&& a.acceleration_structure ==> b.acceleration_structure
            &&& a.ray_tracing_pipeline ==> b.ray_tracing_pipeline
            &&& a.ray_query ==> b.ray_query
            &&& a.deferred_host_operations ==> b.deferred_host_operations
        }),
{
}

/// A name that was written with a zero byte behind it is read back, whatever follows.
pub proof fn terminated_name_is_read_back(name: Seq<u8>, rest: Seq<u8>)
    requires
        forall|i: int| 0 <= i < name.len() ==> name[i] != 0,
    ensures
        until_nul(name + seq![0u8] + rest) == name,
        until_nul(name) == name,
    decreases name.len(),
{
    let all = name + seq![0u8] + rest;
    if name.len() > 0 {
        terminated_name_is_read_back(name.skip(1), rest);
        assert(all.skip(1) =~= name.skip(1) + seq![0u8] + rest);
        assert(seq![name[0]] + name.skip(1) =~= name);
    } else {
        assert(all[0] == 0);
        assert(name =~= Seq::empty());
    }
}

/// Every field's name is collected, once, and no other name; names that more fields bring
/// come behind.
pub proof fn every_name_is_collected(fields: Seq<[u8; 256]>, i: int, k: int)
    requires
        0 <= i < fields.len(),
        0 <= k < names_of(fields).len(),
    ensures
        names_of(fields).contains(lossy_text(until_nul(fields[i]@))),
        exists|j: int|
            0 <= j < fields.len() && names_of(fields)[k] == lossy_text(
                until_nul((#[trigger] fields[j])@),
            ),
        names_of(fields).no_duplicates(),
        names_of(fields.drop_last()).is_prefix_of(names_of(fields)),
{
    lemma_names_distinct(fields);
    lemma_names_collected(fields, i);
    lemma_names_come_from(fields, k);
}

proof fn lemma_names_collected(fields: Seq<[u8; 256]>, i: int)
    requires
        0 <= i < fields.len(),
    ensures
        names_of(fields).contains(lossy_text(until_nul(fields[i]@))),
    decreases fields.len(),
{
    let before = names_of(fields.drop_last());
    let own = lossy_text(until_nul(fields[i]@));
    if i < fields.len() - 1 {
        lemma_names_collected(fields.drop_last(), i);
        let at = choose|at: int| 0 <= at < before.len() && before[at] == own;
        assert(names_of(fields)[at] == own);
    } else if !before.contains(own) {
        assert(names_of(fields)[before.len() as int] == own);
    }
}

proof fn lemma_names_come_from(fields: Seq<[u8; 256]>, k: int)
    requires
        0 <= k < names_of(fields).len(),
    ensures
        exists|j: int|
            0 <= j < fields.len() && names_of(fields)[k] == lossy_text(
                until_nul((#[trigger] fields[j])@),
            ),
    decreases fields.len(),
{
    let before = names_of(fields.drop_last());
    if k < before.len() {
        lemma_names_come_from(fields.drop_last(), k);
        let j = choose|j: int|
            0 <= j < fields.drop_last().len() && before[k] == lossy_text(
                until_nul((#[trigger] fields.drop_last()[j])@),
            );
        assert(fields[j] == fields.drop_last()[j]);
    } else {
        assert(fields[fields.len() - 1] == fields.last());
    }
}

proof fn lemma_names_distinct(fields: Seq<[u8; 256]>)
    ensures
        names_of(fields).no_duplicates(),
    decreases fields.len(),
{
    if fields.len() > 0 {
        lemma_names_distinct(fields.drop_last());
    }
}

/// The capabilities with the properties of ray-tracing pipelines.
pub open spec fn with_properties(caps: RayTracingCaps, props: PipelineProperties) -> RayTracingCaps {
    if caps.ray_tracing_pipeline {
        RayTracingCaps {
            max_recursion_depth: props.max_recursion_depth,
            shader_group_handle_size: props.shader_group_handle_size,
            max_shader_group_stride: props.max_shader_group_stride,
            shader_group_base_alignment: props.shader_group_base_alignment,
            max_ray_dispatch_invocation_count: props.max_ray_dispatch_invocation_count,
            shader_group_handle_alignment: props.shader_group_handle_alignment,
            max_ray_hit_attribute_size: props.max_ray_hit_attribute_size,
            ..caps
        }
    } else {
        caps
    }
}

/// A device that was probed gets the properties of its pipelines as they were reported, or
/// zeros where it has no such pipelines, and what it can do stays as it was.
pub proof fn properties_are_as_reported(
    api_version: u32,
    available: Seq<String>,
    features: ReportedFeatures,
    props: PipelineProperties,
)
    ensures
        ({
            let before = probed(api_version, available, features);
            let after = with_properties(before, props);
            let there = before.ray_tracing_pipeline;
            &&& after.ray_tracing_pipeline == there
            &&& after.ray_query == before.ray_query
            &&& after.acceleration_structure == before.acceleration_structure
            &&& after.vulkan_1_2 == before.vulkan_1_2
            &&& after.synchronization2 == before.synchronization2
            &&& after.copy_commands2 == before.copy_commands2
            &&& after.buffer_device_address == before.buffer_device_address
            &&& after.descriptor_indexing == before.descriptor_indexing
            &&& after.timeline_semaphore == before.timeline_semaphore
            &&& after.deferred_host_operations == before.deferred_host_operations
            &&& if there {
                &&& after.max_recursion_depth == props.max_recursion_depth
                &&& after.shader_group_handle_size == props.shader_group_handle_size
                &&& after.max_shader_group_stride == props.max_shader_group_stride
                &&& after.shader_group_base_alignment == props.shader_group_base_alignment
                &&& after.max_ray_dispatch_invocation_count
                    == props.max_ray_dispatch_invocation_count
                &&& after.shader_group_handle_alignment == props.shader_group_handle_alignment
                &&& after.max_ray_hit_attribute_size == props.max_ray_hit_attribute_size
            } else {
                &&& after.max_recursion_depth == 0
                &&& after.shader_group_handle_size == 0
                &&& after.max_shader_group_stride == 0
                &&& after.shader_group_base_alignment == 0
                &&& after.max_ray_dispatch_invocation_count == 0
                &&& after.shader_group_handle_alignment == 0
                &&& after.max_ray_hit_attribute_size == 0
            }
        }),
{
}

/// A name is listed exactly where one of the texts is that name.
pub proof fn listed_name_is_one_of_the_texts(available: Seq<String>, name: Seq<char>, i: int)
    ensures
        lists(available, name) <==> texts(available).contains(name),
        0 <= i < available.len() ==> lists(available, available[i]@),
        available.len() == 0 ==> !lists(available, name),
{
    if lists(available, name) {
        let k = choose|k: int| 0 <= k < available.len() && (#[trigger] available[k])@ == name;
        assert(texts(available)[k] == name);
    }
    if texts(available).contains(name) {
        let k = choose|k: int| 0 <= k < texts(available).len() && texts(available)[k] == name;
        assert(available[k]@ == name);
    }
}

} // verus!
