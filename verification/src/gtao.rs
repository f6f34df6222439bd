//! Screen-space ambient occlusion at half resolution.
//!
//! The pass runs behind the scene pass, reads its depth and its view-space normals, and
//! writes one of two occlusion images. The scene samples the other one, which the pass
//! wrote a frame earlier.
//!
//! `M` is the matrix in the push constants, which is only moved.

use vstd::prelude::*;

use crate::bindless::{linear_clamp, SamplerInfo, SamplerType};
use crate::buffer::MEMORY_DEVICE_LOCAL;
use crate::descriptor::{
    demand, fragment_only, lemma_demand_push, lemma_supply_push, one, single, supply, DescriptorKind,
    DescriptorLayout, DescriptorPool, DescriptorSource, DescriptorWrite, LayoutBinding, PoolSize,
};
use crate::forward_pass::outputs::{OutputUsage, SceneOutput};
use crate::gpu::{
    max_u32, Access, AttachmentFormat, Blend, ClearColor, Extent2D, ImageBarrier, ImageLayout,
    PipelineStage, Release, FLOAT_ONE, IMAGE_COLOR_ATTACHMENT, IMAGE_SAMPLED,
};

verus! {

/// Half of a size, and at least one pixel in each direction.
pub open spec fn half_of(full: Extent2D) -> Extent2D {
    Extent2D { width: max_u32(full.width / 2, 1), height: max_u32(full.height / 2, 1) }
}

/// The size that the pass works at.
pub fn half_extent(full: Extent2D) -> (r: Extent2D)
    ensures
        r == half_of(full),
{
    let width: u32 = if full.width / 2 >= 1 {
        full.width / 2
    } else {
        1
    };
    let height: u32 = if full.height / 2 >= 1 {
        full.height / 2
    } else {
        1
    };
    Extent2D { width, height }
}

// ---------------------------------------------------------------------------
// Descriptor sets
// ---------------------------------------------------------------------------

/// The bindings of each set: an image and a sampler, for the fragment shader.
pub open spec fn image_and_sampler() -> Seq<LayoutBinding> {
    seq![
        one(0, DescriptorKind::SampledImage, fragment_only()),
        one(1, DescriptorKind::Sampler, fragment_only()),
    ]
}

/// The layout of each set.
pub fn set_layout() -> (r: DescriptorLayout)
    ensures
        r.bindings@ == image_and_sampler(),
{
    let mut bindings: Vec<LayoutBinding> = Vec::new();
    bindings.push(single(0, DescriptorKind::SampledImage, false));
    bindings.push(single(1, DescriptorKind::Sampler, false));
    DescriptorLayout { bindings }
}

/// The pool: two sets for each of two frames in flight.
pub fn set_pool() -> (r: DescriptorPool)
    ensures
        r.max_sets == 4,
        r.sizes@ == seq![
            PoolSize { kind: DescriptorKind::SampledImage, count: 4 },
            PoolSize { kind: DescriptorKind::Sampler, count: 4 },
        ],
{
    let mut sizes: Vec<PoolSize> = Vec::new();
    sizes.push(PoolSize { kind: DescriptorKind::SampledImage, count: 4 });
    sizes.push(PoolSize { kind: DescriptorKind::Sampler, count: 4 });
    DescriptorPool { max_sets: 4, sizes }
}

/// The pool holds exactly what its sets take.
pub proof fn pool_serves_the_sets(layout: DescriptorLayout, pool: DescriptorPool)
    requires
        layout.bindings@ == image_and_sampler(),
        pool.max_sets == 4,
        pool.sizes@ == seq![
            PoolSize { kind: DescriptorKind::SampledImage, count: 4 },
            PoolSize { kind: DescriptorKind::Sampler, count: 4 },
        ],
    ensures
        pool.serves(&layout),
{
    let b0 = one(0, DescriptorKind::SampledImage, fragment_only());
    let b1 = one(1, DescriptorKind::Sampler, fragment_only());
    let s0 = PoolSize { kind: DescriptorKind::SampledImage, count: 4 };
    let s1 = PoolSize { kind: DescriptorKind::Sampler, count: 4 };
    assert forall|kind: DescriptorKind| #[trigger]
        supply(pool.sizes@, kind) == pool.max_sets * demand(layout.bindings@, kind) by {
        let none_b = Seq::<LayoutBinding>::empty();
        let none_s = Seq::<PoolSize>::empty();
        lemma_demand_push(none_b, b0, kind);
        lemma_demand_push(none_b.push(b0), b1, kind);
        lemma_supply_push(none_s, s0, kind);
        lemma_supply_push(none_s.push(s0), s1, kind);
        assert(layout.bindings@ =~= none_b.push(b0).push(b1));
        assert(pool.sizes@ =~= none_s.push(s0).push(s1));
    }
}

/// The write of the shared sampler into one set.
pub open spec fn sampler_write(set: u64, sampler: u64) -> DescriptorWrite {
    DescriptorWrite {
        set,
        binding: 1,
        kind: DescriptorKind::Sampler,
        source: DescriptorSource::Sampler { sampler },
    }
}

/// Writes the shared sampler into every set.
pub fn plan_sampler_writes(sets: &Vec<u64>, sampler: u64) -> (r: Vec<DescriptorWrite>)
    ensures
        r@ == sets@.map_values(|set: u64| sampler_write(set, sampler)),
{
    let mut list: Vec<DescriptorWrite> = Vec::new();
    let mut i: usize = 0;
    while i < sets.len()
        invariant
            i <= sets.len(),
            list@ == sets@.take(i as int).map_values(|set: u64| sampler_write(set, sampler)),
        decreases sets.len() - i,
    {
        list.push(
            DescriptorWrite {
                set: sets[i],
                binding: 1,
                kind: DescriptorKind::Sampler,
                source: DescriptorSource::Sampler { sampler },
            },
        );
        i = i + 1;
        assert(list@ =~= sets@.take(i as int).map_values(|set: u64| sampler_write(set, sampler)));
    }
    assert(sets@.take(i as int) =~= sets@);
    list
}

// ---------------------------------------------------------------------------
// Barriers and declared reads
// ---------------------------------------------------------------------------

/// The barrier that makes a fresh occlusion image readable, before it was ever written.
pub open spec fn first_transition() -> ImageBarrier {
    ImageBarrier {
        base_level: 0,
        level_count: 1,
        old_layout: ImageLayout::Undefined,
        new_layout: ImageLayout::ShaderReadOnly,
        src_stage: PipelineStage::TopOfPipe,
        src_access: Access::NoAccess,
        dst_stage: PipelineStage::FragmentShader,
        dst_access: Access::ShaderRead,
    }
}

/// The barrier that makes an occlusion image readable after it was written.
pub open spec fn written_transition() -> ImageBarrier {
    ImageBarrier {
        base_level: 0,
        level_count: 1,
        old_layout: ImageLayout::ColorAttachment,
        new_layout: ImageLayout::ShaderReadOnly,
        src_stage: PipelineStage::ColorAttachmentOutput,
        src_access: Access::ColorAttachmentWrite,
        dst_stage: PipelineStage::FragmentShader,
        dst_access: Access::ShaderRead,
    }
}

/// One step of creating the pass, or of giving it targets of another size. A slot is a
/// frame in flight.
#[derive(Clone, Copy, Debug, PartialEq, Eq, Structural)]
pub enum AoStep {
    WaitIdle,
    Destroy(Release),
    /// Create an occlusion image.
    CreateImage { slot: u32, extent: Extent2D, format: AttachmentFormat, usage: u32 },
    /// Allocate memory for an occlusion image, with these properties.
    AllocateImage { slot: u32, memory: u32 },
    BindImage { slot: u32 },
    CreateView { slot: u32 },
    /// Create the shared sampler.
    CreateSampler(SamplerInfo),
    CreateSetLayout,
    CreatePool,
    AllocateSets { count: u32 },
    /// Write the shared sampler into one set.
    WriteSampler { set: u32 },
    /// Create a render pass whose only attachment is cleared on load and stored, from an
    /// undefined layout to this one.
    CreateRenderPass { format: AttachmentFormat, final_layout: ImageLayout },
    CreateFramebuffer { slot: u32, extent: Extent2D },
    /// Create the framebuffer of a new image, for the render pass that is there already.
    Reattach { slot: u32, extent: Extent2D, render_pass: u64 },
    AllocateCommands,
    /// Begin the command buffer, which is submitted once.
    BeginCommands,
    /// Record this barrier for both occlusion images.
    Transition { barrier: ImageBarrier },
    EndCommands,
    CreateFence,
    Submit,
    WaitForFence,
    DestroyFence,
    FreeCommands,
}

/// Usage of an occlusion image: it is drawn to, and sampled.
pub const AO_USAGE: u32 = IMAGE_COLOR_ATTACHMENT | IMAGE_SAMPLED;

/// Creates one occlusion image.
pub open spec fn image_creation(slot: u32, extent: Extent2D) -> AoStep {
    AoStep::CreateImage { slot, extent, format: AttachmentFormat::R8Unorm, usage: AO_USAGE }
}

/// Allocates the memory of one occlusion image.
pub open spec fn image_allocation(slot: u32) -> AoStep {
    AoStep::AllocateImage { slot, memory: MEMORY_DEVICE_LOCAL }
}

/// Creates the render pass.
pub open spec fn pass_creation() -> AoStep {
    AoStep::CreateRenderPass {
        format: AttachmentFormat::R8Unorm,
        final_layout: ImageLayout::ColorAttachment,
    }
}

/// Makes one occlusion image.
pub open spec fn image_steps(slot: u32, extent: Extent2D) -> Seq<AoStep> {
    seq![
        image_creation(slot, extent),
        image_allocation(slot),
        AoStep::BindImage { slot },
        AoStep::CreateView { slot },
    ]
}

/// Makes both fresh occlusion images readable, and waits until they are.
pub open spec fn transition_steps() -> Seq<AoStep> {
    seq![
        AoStep::AllocateCommands,
        AoStep::BeginCommands,
        AoStep::Transition { barrier: first_transition() },
        AoStep::EndCommands,
        AoStep::CreateFence,
        AoStep::Submit,
        AoStep::WaitForFence,
        AoStep::DestroyFence,
        AoStep::FreeCommands,
    ]
}

/// All steps that create the pass.
pub open spec fn creation(extent: Extent2D) -> Seq<AoStep> {
    image_steps(0, extent) + image_steps(1, extent) + seq![
        AoStep::CreateSampler(linear_clamp()),
        AoStep::CreateSetLayout,
        AoStep::CreatePool,
        AoStep::AllocateSets { count: 4 },
        AoStep::WriteSampler { set: 0 },
        AoStep::WriteSampler { set: 1 },
        AoStep::WriteSampler { set: 2 },
        AoStep::WriteSampler { set: 3 },
        pass_creation(),
        AoStep::CreateFramebuffer { slot: 0, extent },
        AoStep::CreateFramebuffer { slot: 1, extent },
    ] + transition_steps()
}

/// All steps that make targets of another size, over the render pass that is there.
pub open spec fn retargeting(extent: Extent2D, render_pass: u64) -> Seq<AoStep> {
    image_steps(0, extent) + seq![AoStep::Reattach { slot: 0, extent, render_pass }] + image_steps(
        1,
        extent,
    ) + seq![AoStep::Reattach { slot: 1, extent, render_pass }] + transition_steps()
}

/// The steps that give up the targets.
pub open spec fn targets_release(a: AoTarget, b: AoTarget) -> Seq<AoStep> {
    seq![
        AoStep::Destroy(Release::Framebuffer(a.framebuffer)),
        AoStep::Destroy(Release::Framebuffer(b.framebuffer)),
        AoStep::Destroy(Release::View(a.view)),
        AoStep::Destroy(Release::Memory(a.memory)),
        AoStep::Destroy(Release::BareImage(a.image)),
        AoStep::Destroy(Release::View(b.view)),
        AoStep::Destroy(Release::Memory(b.memory)),
        AoStep::Destroy(Release::BareImage(b.image)),
    ]
}

/// Appends the steps that make an occlusion image.
fn create_ao_image(steps: &mut Vec<AoStep>, slot: u32, extent: Extent2D)
    ensures
        final(steps)@ == old(steps)@ + image_steps(slot, extent),
{
    steps.push(
        AoStep::CreateImage {
            slot,
            extent,
            format: AttachmentFormat::R8Unorm,
            usage: AO_USAGE,
        },
    );
    steps.push(AoStep::AllocateImage { slot, memory: MEMORY_DEVICE_LOCAL });
    steps.push(AoStep::BindImage { slot });
    steps.push(AoStep::CreateView { slot });
    assert(steps@ =~= old(steps)@ + image_steps(slot, extent));
}

/// Appends the steps that make both fresh occlusion images readable.
fn transition_ao_images_to_shader_read(steps: &mut Vec<AoStep>)
    ensures
        final(steps)@ == old(steps)@ + transition_steps(),
{
    steps.push(AoStep::AllocateCommands);
    steps.push(AoStep::BeginCommands);
    steps.push(
        AoStep::Transition {
            barrier: ImageBarrier {
                base_level: 0,
                level_count: 1,
                old_layout: ImageLayout::Undefined,
                new_layout: ImageLayout::ShaderReadOnly,
                src_stage: PipelineStage::TopOfPipe,
                src_access: Access::NoAccess,
                dst_stage: PipelineStage::FragmentShader,
                dst_access: Access::ShaderRead,
            },
        },
    );
    steps.push(AoStep::EndCommands);
    steps.push(AoStep::CreateFence);
    steps.push(AoStep::Submit);
    steps.push(AoStep::WaitForFence);
    steps.push(AoStep::DestroyFence);
    steps.push(AoStep::FreeCommands);
    assert(steps@ =~= old(steps)@ + transition_steps());
}

/// The steps that create the pass for a screen of this size.
pub fn plan_creation(full_extent: Extent2D) -> (r: Vec<AoStep>)
    ensures
        r@ == creation(half_of(full_extent)),
{
    let extent = half_extent(full_extent);
    let mut steps: Vec<AoStep> = Vec::new();
    create_ao_image(&mut steps, 0, extent);
    create_ao_image(&mut steps, 1, extent);
    steps.push(AoStep::CreateSampler(SamplerType::LinearClamp.create_info()));
    steps.push(AoStep::CreateSetLayout);
    steps.push(AoStep::CreatePool);
    steps.push(AoStep::AllocateSets { count: 4 });
    steps.push(AoStep::WriteSampler { set: 0 });
    steps.push(AoStep::WriteSampler { set: 1 });
    steps.push(AoStep::WriteSampler { set: 2 });
    steps.push(AoStep::WriteSampler { set: 3 });
    steps.push(
        AoStep::CreateRenderPass {
            format: AttachmentFormat::R8Unorm,
            final_layout: ImageLayout::ColorAttachment,
        },
    );
    steps.push(AoStep::CreateFramebuffer { slot: 0, extent });
    steps.push(AoStep::CreateFramebuffer { slot: 1, extent });
    transition_ao_images_to_shader_read(&mut steps);
    assert(steps@ =~= creation(extent));
    steps
}

/// What must be done before a step.
pub open spec fn needs(step: AoStep, extent: Extent2D) -> Seq<AoStep> {
    match step {
        AoStep::AllocateImage { slot, .. } => seq![image_creation(slot, extent)],
        AoStep::BindImage { slot } => seq![image_allocation(slot)],
        AoStep::CreateView { slot } => seq![AoStep::BindImage { slot }],
        AoStep::AllocateSets { .. } => seq![AoStep::CreateSetLayout, AoStep::CreatePool],
        AoStep::WriteSampler { .. } => seq![
            AoStep::CreateSampler(linear_clamp()),
            AoStep::AllocateSets { count: 4 },
        ],
        AoStep::CreateFramebuffer { slot, .. } => seq![
            AoStep::CreateView { slot },
            pass_creation(),
        ],
        AoStep::BeginCommands => seq![AoStep::AllocateCommands],
        AoStep::Transition { .. } => seq![
            AoStep::BeginCommands,
            AoStep::BindImage { slot: 0 },
            AoStep::BindImage { slot: 1 },
        ],
        AoStep::EndCommands => seq![AoStep::Transition { barrier: first_transition() }],
        AoStep::Submit => seq![AoStep::EndCommands, AoStep::CreateFence],
        AoStep::WaitForFence => seq![AoStep::Submit],
        AoStep::DestroyFence => seq![AoStep::WaitForFence],
        AoStep::FreeCommands => seq![AoStep::WaitForFence],
        _ => Seq::empty(),
    }
}

/// Where a step stands in the creation that others need.
spec fn place(step: AoStep) -> int {
    match step {
        AoStep::CreateImage { slot, .. } => 4 * slot,
        AoStep::AllocateImage { slot, .. } => 4 * slot + 1,
        AoStep::BindImage { slot } => 4 * slot + 2,
        AoStep::CreateView { slot } => 4 * slot + 3,
        AoStep::CreateSampler(_) => 8,
        AoStep::CreateSetLayout => 9,
        AoStep::CreatePool => 10,
        AoStep::AllocateSets { .. } => 11,
        AoStep::CreateRenderPass { .. } => 16,
        AoStep::AllocateCommands => 19,
        AoStep::BeginCommands => 20,
        AoStep::Transition { .. } => 21,
        AoStep::EndCommands => 22,
        AoStep::CreateFence => 23,
        AoStep::Submit => 24,
        _ => 25,
    }
}

/// While the pass is created, every step comes after all that it needs. So by the end
/// both occlusion images are bound, viewed, attached and readable by shaders, and no
/// command that says so is still under way.
pub proof fn nothing_is_used_before_it_is_there(extent: Extent2D, i: int, k: int)
    requires
        0 <= i < creation(extent).len(),
        0 <= k < needs(creation(extent)[i], extent).len(),
    ensures
        exists|j: int|
            0 <= j < i && #[trigger] creation(extent)[j] == needs(creation(extent)[i], extent)[k],
{
    let needed = needs(creation(extent)[i], extent)[k];
    let j = place(needed);
    assert(creation(extent)[j] == needed);
    assert(j < i);
}

/// How the pass reads a scene output.
pub open spec fn fragment_read(output: SceneOutput, layout: ImageLayout) -> OutputUsage {
    OutputUsage {
        output,
        access: Access::ShaderRead,
        stage: PipelineStage::FragmentShader,
        layout,
    }
}

/// The reads that the pass declares to the render graph, which brings each image into
/// its layout before the pass runs.
pub fn setup() -> (r: [OutputUsage; 2])
    ensures
        r@ == seq![
            fragment_read(SceneOutput::Depth, ImageLayout::DepthStencilReadOnly),
            fragment_read(SceneOutput::Normal, ImageLayout::ShaderReadOnly),
        ],
{
    let list: [OutputUsage; 2] = [
        OutputUsage {
            output: SceneOutput::Depth,
            access: Access::ShaderRead,
            stage: PipelineStage::FragmentShader,
            layout: ImageLayout::DepthStencilReadOnly,
        },
        OutputUsage {
            output: SceneOutput::Normal,
            access: Access::ShaderRead,
            stage: PipelineStage::FragmentShader,
            layout: ImageLayout::ShaderReadOnly,
        },
    ];
    assert(list@ =~= seq![list@[0], list@[1]]);
    list
}

/// The inputs that the pass names to whoever draws the graph.
pub fn graph_inputs() -> (r: [SceneOutput; 2])
    ensures
        r@ == seq![SceneOutput::Depth, SceneOutput::Normal],
{
    let list: [SceneOutput; 2] = [SceneOutput::Depth, SceneOutput::Normal];
    assert(list@ =~= seq![SceneOutput::Depth, SceneOutput::Normal]);
    list
}

// ---------------------------------------------------------------------------
// The pass
// ---------------------------------------------------------------------------

/// One occlusion image with what belongs to it.
#[derive(Clone, Copy, Debug, PartialEq, Eq, Structural)]
pub struct AoTarget {
    pub image: u64,
    pub memory: u64,
    pub view: u64,
    pub framebuffer: u64,
}

/// The sets of one frame in flight, and the views that they were last pointed at.
#[derive(Clone, Copy, Debug, PartialEq, Eq, Structural)]
pub struct AoInputs {
    pub depth_set: u64,
    pub normal_set: u64,
    pub bound_depth: u64,
    pub bound_normal: u64,
}

/// Objects of the pass that outlive its targets.
#[derive(Clone, Copy, Debug, PartialEq, Eq, Structural)]
pub struct AoObjects {
    pub set_layout: u64,
    pub pool: u64,
    pub sampler: u64,
    pub render_pass: Option<u64>,
    pub pipeline: Option<AoPipeline>,
}

/// A pipeline and its layout.
#[derive(Clone, Copy, Debug, PartialEq, Eq, Structural)]
pub struct AoPipeline {
    pub pipeline: u64,
    pub layout: u64,
}

/// The sampling radius in view space: one half, as a bit pattern.
pub const AO_RADIUS: u32 = 0x3f00_0000;

/// Push constants of the pass: the inverse projection, the size of the occlusion image,
/// the sampling radius as a bit pattern, and the mode.
#[derive(Clone, Copy, Debug, PartialEq)]
pub struct AoPush<M> {
    pub inv_proj: M,
    pub viewport: Extent2D,
    pub radius: u32,
    pub mode: u32,
}

/// Commands of the pass.
#[derive(Debug, PartialEq)]
pub enum AoCommand<M> {
    BeginRenderPass { render_pass: u64, framebuffer: u64, extent: Extent2D, clear: ClearColor },
    BindPipeline(u64),
    BindSet { layout: u64, index: u32, set: u64 },
    SetViewport(Extent2D),
    SetScissor(Extent2D),
    PushConstants { layout: u64, push: AoPush<M> },
    Draw { vertices: u32, instances: u32 },
    EndRenderPass,
    Barrier { image: u64, barrier: ImageBarrier },
}

/// Bytes of the constants that the pipeline reserves.
pub const AO_PUSH_SIZE: u32 = 96;

/// A pipeline to be built: it draws without vertex buffers, with one layout for both of
/// its sets, and with constants for the fragment shader.
#[derive(Clone, Copy, Debug, PartialEq, Eq, Structural)]
pub struct AoPipelineSpec {
    pub render_pass: u64,
    pub set_layout: u64,
    pub push_size: u32,
    /// Faces are culled.
    pub cull: bool,
    pub depth_write: bool,
    pub blend: Blend,
}

/// The pipeline: every face is drawn, depth is left alone, and what is drawn replaces
/// what was there.
pub open spec fn pipeline_spec(render_pass: u64, set_layout: u64) -> AoPipelineSpec {
    AoPipelineSpec {
        render_pass,
        set_layout,
        push_size: AO_PUSH_SIZE,
        cull: false,
        depth_write: false,
        blend: Blend::Replace,
    }
}

fn new_pipeline_spec(render_pass: u64, set_layout: u64) -> (r: AoPipelineSpec)
    ensures
        r == pipeline_spec(render_pass, set_layout),
{
    AoPipelineSpec {
        render_pass,
        set_layout,
        push_size: AO_PUSH_SIZE,
        cull: false,
        depth_write: false,
        blend: Blend::Replace,
    }
}

/// What rebuilding the pipeline takes.
#[derive(Clone, Copy, Debug, PartialEq, Eq, Structural)]
pub enum PipelineStep {
    /// The pipeline is there.
    Ready,
    Build(AoPipelineSpec),
    /// There is no render pass to build it over.
    NoRenderPass,
}

/// How a frame of the pass goes on.
#[derive(Debug, PartialEq)]
pub enum AoExecution<M> {
    /// Build the pipeline first, then ask again.
    Build(AoPipelineSpec),
    /// There is no render pass to build the pipeline over.
    NoRenderPass,
    /// Record these commands.
    Record(Vec<AoCommand<M>>),
}

/// What a frame takes before anything is recorded: the descriptor writes, and the push
/// constants.
#[derive(Debug, PartialEq)]
pub struct AoFrame<M> {
    pub writes: Vec<DescriptorWrite>,
    pub push: AoPush<M>,
}

/// What a frame of the pass samples.
#[derive(Clone, Copy, Debug, PartialEq, Eq, Structural)]
pub struct GtaoFrameInputs {
    pub depth_image: u64,
    pub depth_view: u64,
    pub normal_image: u64,
    pub normal_view: u64,
}

/// An output of the scene as it was published to the render graph.
#[derive(Clone, Copy, Debug, PartialEq, Eq, Structural)]
pub struct Published {
    pub image: Option<u64>,
    pub view: Option<u64>,
}

/// The image, or the null handle where none was published.
pub open spec fn image_or_null(p: Published) -> u64 {
    match p.image {
        Some(image) => image,
        None => 0,
    }
}

/// What is sampled of the two published images.
pub open spec fn sampled(depth: Published, normal: Published) -> Option<GtaoFrameInputs> {
    match (depth.view, normal.view) {
        (Some(depth_view), Some(normal_view)) => Some(
            GtaoFrameInputs {
                depth_image: image_or_null(depth),
                depth_view,
                normal_image: image_or_null(normal),
                normal_view,
            },
        ),
        _ => None,
    }
}

/// What a frame samples. Nothing where the scene has published no depth or no normals.
pub fn frame_inputs(depth: Published, normal: Published) -> (r: Option<GtaoFrameInputs>)
    ensures
        r == sampled(depth, normal),
{
    let depth_view: u64 = match depth.view {
        Some(v) => v,
        None => return None,
    };
    let normal_view: u64 = match normal.view {
        Some(v) => v,
        None => return None,
    };
    let depth_image: u64 = match depth.image {
        Some(image) => image,
        None => 0,
    };
    let normal_image: u64 = match normal.image {
        Some(image) => image,
        None => 0,
    };
    Some(GtaoFrameInputs { depth_image, depth_view, normal_image, normal_view })
}

/// The half-resolution occlusion pass.
pub struct GtaoPass {
    extent: Extent2D,
    targets: [AoTarget; 2],
    inputs: [AoInputs; 2],
    objects: AoObjects,
    live: bool,
}

/// The slot that a frame writes.
pub open spec fn write_slot(frame_index: int) -> int {
    frame_index % 2
}

/// The slot that the scene samples in a frame.
pub open spec fn read_slot(frame_index: int) -> int {
    (frame_index + 1) % 2
}

/// The scene samples what the pass wrote a frame earlier, and never what the pass
/// writes in the same frame.
pub proof fn scene_reads_last_frame(frame_index: int)
    requires
        frame_index >= 0,
    ensures
        read_slot(frame_index + 1) == write_slot(frame_index),
        read_slot(frame_index) != write_slot(frame_index),
{
}

/// What is remembered of a target once its objects are destroyed: the framebuffer's
/// handle stays until there is a new one.
pub open spec fn spent_target(before: AoTarget) -> AoTarget {
    AoTarget { image: 0, memory: 0, view: 0, framebuffer: before.framebuffer }
}

/// The writes that point a frame's sets at the scene's depth and normals.
pub open spec fn input_writes(inputs: AoInputs, depth: u64, normal: u64) -> Seq<DescriptorWrite> {
    seq![
        DescriptorWrite {
            set: inputs.depth_set,
            binding: 0,
            kind: DescriptorKind::SampledImage,
            source: DescriptorSource::Image {
                view: depth,
                layout: ImageLayout::DepthStencilReadOnly,
            },
        },
        DescriptorWrite {
            set: inputs.normal_set,
            binding: 0,
            kind: DescriptorKind::SampledImage,
            source: DescriptorSource::Image { view: normal, layout: ImageLayout::ShaderReadOnly },
        },
    ]
}

/// The writes that a frame needs: none where its sets point at these views already.
pub open spec fn needed_writes(inputs: AoInputs, depth: u64, normal: u64) -> Seq<DescriptorWrite> {
    if inputs.bound_depth == depth && inputs.bound_normal == normal {
        Seq::empty()
    } else {
        input_writes(inputs, depth, normal)
    }
}

/// White: a pixel that is not written reads as fully lit.
pub open spec fn unoccluded() -> ClearColor {
    ClearColor { r: FLOAT_ONE, g: FLOAT_ONE, b: FLOAT_ONE, a: FLOAT_ONE }
}

/// The commands of a frame.
pub open spec fn ao_commands<M>(
    target: AoTarget,
    inputs: AoInputs,
    extent: Extent2D,
    render_pass: u64,
    pipeline: AoPipeline,
    push: AoPush<M>,
) -> Seq<AoCommand<M>> {
    seq![
        AoCommand::BeginRenderPass {
            render_pass,
            framebuffer: target.framebuffer,
            extent,
            clear: unoccluded(),
        },
        AoCommand::BindPipeline(pipeline.pipeline),
        AoCommand::BindSet { layout: pipeline.layout, index: 0, set: inputs.depth_set },
        AoCommand::BindSet { layout: pipeline.layout, index: 1, set: inputs.normal_set },
        AoCommand::SetViewport(extent),
        AoCommand::SetScissor(extent),
        AoCommand::PushConstants { layout: pipeline.layout, push },
        AoCommand::Draw { vertices: 3, instances: 1 },
        AoCommand::EndRenderPass,
        AoCommand::Barrier { image: target.image, barrier: written_transition() },
    ]
}

/// What is destroyed with the image of a target, where it was created.
pub open spec fn target_release(t: AoTarget) -> Seq<Release> {
    (if t.view != 0 {
        seq![Release::View(t.view)]
    } else {
        Seq::empty()
    }) + (if t.memory != 0 {
        seq![Release::Memory(t.memory)]
    } else {
        Seq::empty()
    }) + (if t.image != 0 {
        seq![Release::BareImage(t.image)]
    } else {
        Seq::empty()
    })
}

/// What is destroyed with the objects that outlive the targets.
pub open spec fn objects_release(o: AoObjects) -> Seq<Release> {
    (match o.render_pass {
        Some(pass) => seq![Release::RenderPass(pass)],
        None => Seq::empty(),
    }) + (match o.pipeline {
        Some(p) => seq![Release::Pipeline(p.pipeline), Release::PipelineLayout(p.layout)],
        None => Seq::empty(),
    }) + seq![
        Release::SetLayout(o.set_layout),
        Release::Pool(o.pool),
        Release::Sampler(o.sampler),
    ]
}

fn release_objects(list: &mut Vec<Release>, o: AoObjects)
    ensures
        final(list)@ == old(list)@ + objects_release(o),
{
    if let Some(pass) = o.render_pass {
        list.push(Release::RenderPass(pass));
    }
    if let Some(p) = o.pipeline {
        list.push(Release::Pipeline(p.pipeline));
        list.push(Release::PipelineLayout(p.layout));
    }
    list.push(Release::SetLayout(o.set_layout));
    list.push(Release::Pool(o.pool));
    list.push(Release::Sampler(o.sampler));
    assert(list@ =~= old(list)@ + objects_release(o));
}

fn release_target(list: &mut Vec<Release>, t: AoTarget)
    ensures
        final(list)@ == old(list)@ + target_release(t),
{
    if t.view != 0 {
        list.push(Release::View(t.view));
    }
    if t.memory != 0 {
        list.push(Release::Memory(t.memory));
    }
    if t.image != 0 {
        list.push(Release::BareImage(t.image));
    }
    assert(list@ =~= old(list)@ + target_release(t));
}

impl GtaoPass {
    /// The size of the occlusion images.
    pub closed spec fn size(&self) -> Extent2D {
        self.extent
    }

    /// The occlusion image of a slot.
    pub closed spec fn target(&self, slot: int) -> AoTarget {
        self.targets@[slot]
    }

    /// The sets of a slot, and what they point at.
    pub closed spec fn input(&self, slot: int) -> AoInputs {
        self.inputs@[slot]
    }

    /// The objects that outlive the targets.
    pub closed spec fn parts(&self) -> AoObjects {
        self.objects
    }

    /// Not destroyed yet.
    pub closed spec fn is_live(&self) -> bool {
        self.live
    }

    /// A pipeline is only there over a render pass.
    pub open spec fn wf(&self) -> bool {
        self.parts().pipeline is Some ==> self.parts().render_pass is Some
    }

    /// What is destroyed with the pass, in order.
    pub open spec fn owned(&self) -> Seq<Release> {
        seq![
            Release::Framebuffer(self.target(0).framebuffer),
            Release::Framebuffer(self.target(1).framebuffer),
        ] + target_release(self.target(0)) + target_release(self.target(1)) + objects_release(
            self.parts(),
        )
    }

    /// The pass over freshly created objects. Its sets point at no views yet.
    pub fn new(
        full_extent: Extent2D,
        targets: [AoTarget; 2],
        sets: [u64; 4],
        set_layout: u64,
        pool: u64,
        sampler: u64,
        render_pass: u64,
    ) -> (r: Self)
        ensures
            r.size() == half_of(full_extent),
            r.target(0) == targets@[0],
            r.target(1) == targets@[1],
            r.input(0) == (AoInputs {
                depth_set: sets@[0],
                normal_set: sets@[1],
                bound_depth: 0,
                bound_normal: 0,
            }),
            r.input(1) == (AoInputs {
                depth_set: sets@[2],
                normal_set: sets@[3],
                bound_depth: 0,
                bound_normal: 0,
            }),
            r.parts() == (AoObjects {
                set_layout,
                pool,
                sampler,
                render_pass: Some(render_pass),
                pipeline: None,
            }),
            r.is_live(),
            r.wf(),
    {
        let first = AoInputs {
            depth_set: sets[0],
            normal_set: sets[1],
            bound_depth: 0,
            bound_normal: 0,
        };
        let second = AoInputs {
            depth_set: sets[2],
            normal_set: sets[3],
            bound_depth: 0,
            bound_normal: 0,
        };
        GtaoPass {
            extent: half_extent(full_extent),
            targets,
            inputs: [first, second],
            objects: AoObjects {
                set_layout,
                pool,
                sampler,
                render_pass: Some(render_pass),
                pipeline: None,
            },
            live: true,
        }
    }

    /// The size of the occlusion images.
    pub fn extent(&self) -> (r: Extent2D)
        ensures
            r == self.size(),
    {
        self.extent
    }

    /// The format of the occlusion images.
    pub fn ao_format() -> (r: AttachmentFormat)
        ensures
            r == AttachmentFormat::R8Unorm,
    {
        AttachmentFormat::R8Unorm
    }

    /// The view of the occlusion image of a frame in flight.
    pub fn ao_view(&self, frame_index: u32) -> (r: u64)
        ensures
            r == self.target(write_slot(frame_index as int)).view,
    {
        let slot: usize = (frame_index % 2) as usize;
        self.targets[slot].view
    }

    /// Points the sets of a frame at the scene's depth and normals.
    pub fn set_inputs(&mut self, frame_index: u32, depth_view: u64, normal_view: u64) -> (r: Vec<
        DescriptorWrite,
    >)
        ensures
            ({
                let slot = write_slot(frame_index as int);
                let before = old(self).input(slot);
                &&& r@ == needed_writes(before, depth_view, normal_view)
                &&& final(self).input(slot) == (AoInputs {
                    bound_depth: depth_view,
                    bound_normal: normal_view,
                    ..before
                })
                &&& final(self).input(1 - slot) == old(self).input(1 - slot)
                &&& forall|i: int| final(self).target(i) == #[trigger] old(self).target(i)
                &&& final(self).size() == old(self).size()
                &&& final(self).parts() == old(self).parts()
                &&& final(self).is_live() == old(self).is_live()
            }),
    {
        let slot: usize = (frame_index % 2) as usize;
        let before = self.inputs[slot];
        if before.bound_depth == depth_view && before.bound_normal == normal_view {
            return Vec::new();
        }
        self.inputs[slot] =
        AoInputs {
            depth_set: before.depth_set,
            normal_set: before.normal_set,
            bound_depth: depth_view,
            bound_normal: normal_view,
        };
        let mut writes: Vec<DescriptorWrite> = Vec::new();
        writes.push(
            DescriptorWrite {
                set: before.depth_set,
                binding: 0,
                kind: DescriptorKind::SampledImage,
                source: DescriptorSource::Image {
                    view: depth_view,
                    layout: ImageLayout::DepthStencilReadOnly,
                },
            },
        );
        writes.push(
            DescriptorWrite {
                set: before.normal_set,
                binding: 0,
                kind: DescriptorKind::SampledImage,
                source: DescriptorSource::Image {
                    view: normal_view,
                    layout: ImageLayout::ShaderReadOnly,
                },
            },
        );
        writes
    }

    /// A new size of the screen. Where the occlusion images change size, the old ones
    /// are given up, and the sets are forgotten. The new images and framebuffers are put
    /// in place one by one, and the size itself changes once all are.
    pub fn recreate_target(&mut self, full_extent: Extent2D) -> (r: Vec<AoStep>)
        requires
            half_of(full_extent) != old(self).size() ==> old(self).parts().render_pass is Some,
        ensures
            half_of(full_extent) == old(self).size() ==> {
                &&& r@ == seq![AoStep::WaitIdle]
                &&& *final(self) == *old(self)
            },
            half_of(full_extent) != old(self).size() ==> {
                &&& r@ == seq![AoStep::WaitIdle] + targets_release(
                    old(self).target(0),
                    old(self).target(1),
                ) + retargeting(half_of(full_extent), old(self).parts().render_pass->Some_0)
                &&& forall|i: int|
                    0 <= i < 2 ==> #[trigger] final(self).target(i) == spent_target(
                        old(self).target(i),
                    )
                &&& forall|i: int|
                    0 <= i < 2 ==> #[trigger] final(self).input(i) == (AoInputs {
                        bound_depth: 0,
                        bound_normal: 0,
                        ..old(self).input(i)
                    })
            },
            final(self).size() == old(self).size(),
            final(self).parts() == old(self).parts(),
            final(self).is_live() == old(self).is_live(),
    {
        let extent = half_extent(full_extent);
        let mut steps: Vec<AoStep> = Vec::new();
        steps.push(AoStep::WaitIdle);
        if extent.width == self.extent.width && extent.height == self.extent.height {
            assert(steps@ =~= seq![AoStep::WaitIdle]);
            return steps;
        }
        let render_pass: u64 = self.objects.render_pass.unwrap();
        let first = self.targets[0];
        let second = self.targets[1];
        steps.push(AoStep::Destroy(Release::Framebuffer(first.framebuffer)));
        steps.push(AoStep::Destroy(Release::Framebuffer(second.framebuffer)));
        steps.push(AoStep::Destroy(Release::View(first.view)));
        steps.push(AoStep::Destroy(Release::Memory(first.memory)));
        steps.push(AoStep::Destroy(Release::BareImage(first.image)));
        steps.push(AoStep::Destroy(Release::View(second.view)));
        steps.push(AoStep::Destroy(Release::Memory(second.memory)));
        steps.push(AoStep::Destroy(Release::BareImage(second.image)));
        create_ao_image(&mut steps, 0, extent);
        steps.push(AoStep::Reattach { slot: 0, extent, render_pass });
        create_ao_image(&mut steps, 1, extent);
        steps.push(AoStep::Reattach { slot: 1, extent, render_pass });
        transition_ao_images_to_shader_read(&mut steps);
        assert(steps@ =~= seq![AoStep::WaitIdle] + targets_release(first, second) + retargeting(
            extent,
            render_pass,
        ));
        self.targets =
        [
            AoTarget { image: 0, memory: 0, view: 0, framebuffer: first.framebuffer },
            AoTarget { image: 0, memory: 0, view: 0, framebuffer: second.framebuffer },
        ];
        let a = self.inputs[0];
        let b = self.inputs[1];
        self.inputs =
        [
            AoInputs {
                depth_set: a.depth_set,
                normal_set: a.normal_set,
                bound_depth: 0,
                bound_normal: 0,
            },
            AoInputs {
                depth_set: b.depth_set,
                normal_set: b.normal_set,
                bound_depth: 0,
                bound_normal: 0,
            },
        ];
        steps
    }

    /// Puts an image of the new size in place, as soon as it has its view.
    pub fn put_image(&mut self, slot: u32, image: u64, memory: u64, view: u64)
        requires
            slot < 2,
        ensures
            final(self).target(slot as int) == (AoTarget {
                image,
                memory,
                view,
                ..old(self).target(slot as int)
            }),
            final(self).target(1 - slot) == old(self).target(1 - slot),
            forall|i: int| final(self).input(i) == #[trigger] old(self).input(i),
            final(self).size() == old(self).size(),
            final(self).parts() == old(self).parts(),
            final(self).is_live() == old(self).is_live(),
    {
        let framebuffer: u64 = self.targets[slot as usize].framebuffer;
        self.targets[slot as usize] = AoTarget { image, memory, view, framebuffer };
    }

    /// Puts a framebuffer of the new size in place.
    pub fn put_framebuffer(&mut self, slot: u32, framebuffer: u64)
        requires
            slot < 2,
        ensures
            final(self).target(slot as int) == (AoTarget {
                framebuffer,
                ..old(self).target(slot as int)
            }),
            final(self).target(1 - slot) == old(self).target(1 - slot),
            forall|i: int| final(self).input(i) == #[trigger] old(self).input(i),
            final(self).size() == old(self).size(),
            final(self).parts() == old(self).parts(),
            final(self).is_live() == old(self).is_live(),
    {
        let before = self.targets[slot as usize];
        self.targets[slot as usize] =
        AoTarget { image: before.image, memory: before.memory, view: before.view, framebuffer };
    }

    /// The targets have the size that goes with this size of the screen.
    pub fn resized(&mut self, full_extent: Extent2D)
        ensures
            final(self).size() == half_of(full_extent),
            forall|i: int| final(self).target(i) == #[trigger] old(self).target(i),
            forall|i: int| final(self).input(i) == #[trigger] old(self).input(i),
            final(self).parts() == old(self).parts(),
            final(self).is_live() == old(self).is_live(),
    {
        self.extent = half_extent(full_extent);
    }

    /// Whether the pipeline has to be built, and over what.
    pub fn ensure_pipeline(&self) -> (r: PipelineStep)
        ensures
            r == (if self.parts().pipeline is Some {
                PipelineStep::Ready
            } else {
                match self.parts().render_pass {
                    Some(render_pass) => PipelineStep::Build(
                        pipeline_spec(render_pass, self.parts().set_layout),
                    ),
                    None => PipelineStep::NoRenderPass,
                }
            }),
    {
        if self.objects.pipeline.is_some() {
            return PipelineStep::Ready;
        }
        match self.objects.render_pass {
            Some(render_pass) => PipelineStep::Build(
                new_pipeline_spec(render_pass, self.objects.set_layout),
            ),
            None => PipelineStep::NoRenderPass,
        }
    }

    /// Puts the pipeline in place.
    pub fn put_pipeline(&mut self, pipeline: AoPipeline)
        requires
            old(self).parts().render_pass is Some,
        ensures
            final(self).wf(),
            final(self).parts() == (AoObjects { pipeline: Some(pipeline), ..old(self).parts() }),
            final(self).size() == old(self).size(),
            forall|i: int| final(self).target(i) == #[trigger] old(self).target(i),
            forall|i: int| final(self).input(i) == #[trigger] old(self).input(i),
            final(self).is_live() == old(self).is_live(),
    {
        self.objects.pipeline = Some(pipeline);
    }

    /// Points the sets of a frame at what it samples, and gathers its push constants.
    pub fn prepare<M>(&mut self, frame_index: u32, inputs: GtaoFrameInputs, inv_proj: M) -> (r:
        AoFrame<M>)
        ensures
            ({
                let slot = write_slot(frame_index as int);
                let before = old(self).input(slot);
                &&& r.writes@ == needed_writes(before, inputs.depth_view, inputs.normal_view)
                &&& r.push == (AoPush {
                    inv_proj,
                    viewport: old(self).size(),
                    radius: AO_RADIUS,
                    mode: 0,
                })
                &&& final(self).input(slot) == (AoInputs {
                    bound_depth: inputs.depth_view,
                    bound_normal: inputs.normal_view,
                    ..before
                })
                &&& final(self).input(1 - slot) == old(self).input(1 - slot)
            }),
            forall|i: int| final(self).target(i) == #[trigger] old(self).target(i),
            final(self).size() == old(self).size(),
            final(self).parts() == old(self).parts(),
            final(self).is_live() == old(self).is_live(),
    {
        let viewport = self.extent;
        let writes = self.set_inputs(frame_index, inputs.depth_view, inputs.normal_view);
        AoFrame { writes, push: AoPush { inv_proj, viewport, radius: AO_RADIUS, mode: 0 } }
    }

    /// One frame of the pass. The pipeline is built first where there is none.
    pub fn execute<M>(&self, frame_index: u32, push: AoPush<M>) -> (r: AoExecution<M>)
        requires
            self.wf(),
        ensures
            match self.parts().pipeline {
                Some(pipeline) => {
                    let slot = write_slot(frame_index as int);
                    r matches AoExecution::Record(commands) && commands@ == ao_commands(
                        self.target(slot),
                        self.input(slot),
                        self.size(),
                        self.parts().render_pass->0,
                        pipeline,
                        push,
                    )
                },
                None => match self.parts().render_pass {
                    Some(render_pass) => r == AoExecution::<M>::Build(
                        pipeline_spec(render_pass, self.parts().set_layout),
                    ),
                    None => r is NoRenderPass,
                },
            },
    {
        let render_pass: u64 = match self.objects.render_pass {
            Some(render_pass) => render_pass,
            None => return AoExecution::NoRenderPass,
        };
        let pipeline = match self.objects.pipeline {
            Some(pipeline) => pipeline,
            None => return AoExecution::Build(
                new_pipeline_spec(render_pass, self.objects.set_layout),
            ),
        };
        let slot: usize = (frame_index % 2) as usize;
        let target = self.targets[slot];
        let inputs = self.inputs[slot];
        let extent = self.extent;
        let ghost pushed = push;
        let mut commands: Vec<AoCommand<M>> = Vec::new();
        commands.push(
            AoCommand::BeginRenderPass {
                render_pass,
                framebuffer: target.framebuffer,
                extent,
                clear: ClearColor { r: FLOAT_ONE, g: FLOAT_ONE, b: FLOAT_ONE, a: FLOAT_ONE },
            },
        );
        commands.push(AoCommand::BindPipeline(pipeline.pipeline));
        commands.push(
            AoCommand::BindSet { layout: pipeline.layout, index: 0, set: inputs.depth_set },
        );
        commands.push(
            AoCommand::BindSet { layout: pipeline.layout, index: 1, set: inputs.normal_set },
        );
        commands.push(AoCommand::SetViewport(extent));
        commands.push(AoCommand::SetScissor(extent));
        commands.push(AoCommand::PushConstants { layout: pipeline.layout, push });
        commands.push(AoCommand::Draw { vertices: 3, instances: 1 });
        commands.push(AoCommand::EndRenderPass);
        commands.push(
            AoCommand::Barrier {
                image: target.image,
                barrier: ImageBarrier {
                    base_level: 0,
                    level_count: 1,
                    old_layout: ImageLayout::ColorAttachment,
                    new_layout: ImageLayout::ShaderReadOnly,
                    src_stage: PipelineStage::ColorAttachmentOutput,
                    src_access: Access::ColorAttachmentWrite,
                    dst_stage: PipelineStage::FragmentShader,
                    dst_access: Access::ShaderRead,
                },
            },
        );
        assert(commands@ =~= ao_commands(target, inputs, extent, render_pass, pipeline, pushed));
        AoExecution::Record(commands)
    }

    /// Destroys the pass: what it owns is handed out, in order.
    pub fn destroy(&mut self) -> (r: Vec<Release>)
        ensures
            r@ == old(self).owned(),
            final(self).parts() == (AoObjects {
                render_pass: None,
                pipeline: None,
                ..old(self).parts()
            }),
            !final(self).is_live(),
            final(self).wf(),
            final(self).size() == old(self).size(),
            forall|i: int| final(self).target(i) == #[trigger] old(self).target(i),
            forall|i: int| final(self).input(i) == #[trigger] old(self).input(i),
    {
        let mut list: Vec<Release> = Vec::new();
        let first = self.targets[0];
        let second = self.targets[1];
        list.push(Release::Framebuffer(first.framebuffer));
        list.push(Release::Framebuffer(second.framebuffer));
        assert(list@ =~= seq![
            Release::Framebuffer(first.framebuffer),
            Release::Framebuffer(second.framebuffer),
        ]);
        release_target(&mut list, first);
        release_target(&mut list, second);
        release_objects(&mut list, self.objects);
        self.objects.render_pass = None;
        self.objects.pipeline = None;
        self.live = false;
        list
    }

    /// What is destroyed when the pass goes away: everything, unless it was destroyed
    /// before.
    pub fn release(&mut self) -> (r: Vec<Release>)
        ensures
            r@ == (if old(self).is_live() {
                old(self).owned()
            } else {
                Seq::empty()
            }),
            !final(self).is_live(),
            final(self).parts() == (if old(self).is_live() {
                AoObjects { render_pass: None, pipeline: None, ..old(self).parts() }
            } else {
                old(self).parts()
            }),
            final(self).size() == old(self).size(),
            forall|i: int| final(self).target(i) == #[trigger] old(self).target(i),
            forall|i: int| final(self).input(i) == #[trigger] old(self).input(i),
    {
        if self.live {
            self.destroy()
        } else {
            Vec::new()
        }
    }
}

// ---------------------------------------------------------------------------
// Layouts
// ---------------------------------------------------------------------------

/// The layout of the written occlusion image after some commands; nothing where a
/// barrier starts from another layout than the image has.
pub open spec fn layout_after<M>(commands: Seq<AoCommand<M>>, image: u64, start: ImageLayout) -> Option<
    ImageLayout,
>
    decreases commands.len(),
{
    if commands.len() == 0 {
        Some(start)
    } else {
        match layout_after(commands.drop_last(), image, start) {
            None => None,
            Some(at) => match commands.last() {
                AoCommand::EndRenderPass => Some(ImageLayout::ColorAttachment),
                AoCommand::Barrier { image: moved, barrier } => if moved != image {
                    Some(at)
                } else if barrier.old_layout == at {
                    Some(barrier.new_layout)
                } else {
                    None
                },
                _ => Some(at),
            },
        }
    }
}

/// Whatever layout the occlusion image was in, a frame leaves it readable by shaders.
pub proof fn written_image_is_readable<M>(
    target: AoTarget,
    inputs: AoInputs,
    extent: Extent2D,
    render_pass: u64,
    pipeline: AoPipeline,
    push: AoPush<M>,
    start: ImageLayout,
)
    ensures
        layout_after(
            ao_commands(target, inputs, extent, render_pass, pipeline, push),
            target.image,
            start,
        ) == Some(ImageLayout::ShaderReadOnly),
{
    let c = ao_commands(target, inputs, extent, render_pass, pipeline, push);
    reveal_with_fuel(layout_after, 11);
    assert(c.take(9) =~= c.drop_last());
    assert forall|n: int| 0 < n <= 10 implies #[trigger] c.take(n).drop_last() =~= c.take(
        n - 1,
    ) by {}
    lemma_layout_before_end(c, target.image, start, 8);
    assert(c.take(9).drop_last() =~= c.take(8));
}

proof fn lemma_layout_before_end<M>(
    c: Seq<AoCommand<M>>,
    image: u64,
    start: ImageLayout,
    n: int,
)
    requires
        0 <= n <= c.len(),
        forall|k: int|
            0 <= k < n ==> !(#[trigger] c[k] is Barrier) && !(c[k] is EndRenderPass),
    ensures
        layout_after(c.take(n), image, start) == Some(start),
    decreases n,
{
    if n > 0 {
        lemma_layout_before_end(c, image, start, n - 1);
        assert(c.take(n).drop_last() =~= c.take(n - 1));
    }
}

/// The layouts in which the sets expect the scene's depth and normals are those that
/// the pass asks the render graph to bring them into.
pub proof fn sets_expect_declared_layouts(
    declared: Seq<OutputUsage>,
    inputs: AoInputs,
    depth: u64,
    normal: u64,
    i: int,
)
    requires
        declared == seq![
            fragment_read(SceneOutput::Depth, ImageLayout::DepthStencilReadOnly),
            fragment_read(SceneOutput::Normal, ImageLayout::ShaderReadOnly),
        ],
        0 <= i < 2,
    ensures
        input_writes(inputs, depth, normal)[i].source matches DescriptorSource::Image {
            layout,
            ..
        } && layout == declared[i].layout,
{
}

/// Pointing a frame's sets at the views that they point at already takes no write.
pub proof fn same_inputs_need_no_write(inputs: AoInputs, depth: u64, normal: u64)
    ensures
        ({
            let after = AoInputs { bound_depth: depth, bound_normal: normal, ..inputs };
            needed_writes(after, depth, normal) == Seq::<DescriptorWrite>::empty()
        }),
{
}

/// The pass works at half the size of the screen, each side rounded down, and at least at
/// one pixel.
pub proof fn half_is_half_of_each_side(full: Extent2D)
    ensures
        ({
            let half = half_of(full);
            &&& full.width >= 2 ==> 2 * half.width <= full.width < 2 * half.width + 2
            &&& full.height >= 2 ==> 2 * half.height <= full.height < 2 * half.height + 2
            &&& full.width < 2 ==> half.width == 1
            &&& full.height < 2 ==> half.height == 1
        }),
{
}

/// The step, if it makes part of a target, makes it for one of the two slots and in this
/// size, and the image is one that is drawn to and sampled.
pub open spec fn made_in_size(step: AoStep, extent: Extent2D) -> bool {
    match step {
        AoStep::CreateImage { slot, extent: e, format, usage } => {
            &&& slot < 2
            &&& e == extent
            &&& format == AttachmentFormat::R8Unorm
            &&& usage & IMAGE_COLOR_ATTACHMENT != 0
            &&& usage & IMAGE_SAMPLED != 0
        },
        AoStep::CreateFramebuffer { slot, extent: e } => slot < 2 && e == extent,
        AoStep::Reattach { slot, extent: e, .. } => slot < 2 && e == extent,
        AoStep::CreateRenderPass { format, .. } => format == AttachmentFormat::R8Unorm,
        AoStep::Transition { barrier } => barrier.old_layout == ImageLayout::Undefined
            && barrier.new_layout == ImageLayout::ShaderReadOnly,
        _ => true,
    }
}

/// Creation makes both targets in the size that is asked for, image, view and framebuffer,
/// and both are readable before the first frame.
pub proof fn both_targets_are_made(extent: Extent2D, i: int)
    requires
        0 <= i < creation(extent).len(),
    ensures
        made_in_size(creation(extent)[i], extent),
        forall|slot: u32|
            slot < 2 ==> #[trigger] creation(extent).contains(AoStep::CreateView { slot })
                && creation(extent).contains(AoStep::CreateFramebuffer { slot, extent })
                && creation(extent).contains(AoStep::BindImage { slot }),
{
    lemma_ao_usage();
    let steps = creation(extent);
    assert(steps[3] == (AoStep::CreateView { slot: 0 }));
    assert(steps[7] == (AoStep::CreateView { slot: 1 }));
    assert(steps[2] == (AoStep::BindImage { slot: 0 }));
    assert(steps[6] == (AoStep::BindImage { slot: 1 }));
    assert(steps[17] == (AoStep::CreateFramebuffer { slot: 0, extent }));
    assert(steps[18] == (AoStep::CreateFramebuffer { slot: 1, extent }));
}

proof fn lemma_ao_usage()
    ensures
        AO_USAGE & IMAGE_COLOR_ATTACHMENT != 0,
        AO_USAGE & IMAGE_SAMPLED != 0,
{
    assert(AO_USAGE & IMAGE_COLOR_ATTACHMENT != 0 && AO_USAGE & IMAGE_SAMPLED != 0)
        by (bit_vector);
}

/// A new size makes both targets anew in that size, over the render pass that is there.
pub proof fn both_targets_are_made_anew(extent: Extent2D, render_pass: u64, i: int)
    requires
        0 <= i < retargeting(extent, render_pass).len(),
    ensures
        made_in_size(retargeting(extent, render_pass)[i], extent),
        retargeting(extent, render_pass)[i] matches AoStep::Reattach { render_pass: pass, .. }
            ==> pass == render_pass,
        forall|slot: u32|
            slot < 2 ==> #[trigger] retargeting(extent, render_pass).contains(
                AoStep::Reattach { slot, extent, render_pass },
            ),
{
    lemma_ao_usage();
    let steps = retargeting(extent, render_pass);
    assert(steps[4] == (AoStep::Reattach { slot: 0, extent, render_pass }));
    assert(steps[9] == (AoStep::Reattach { slot: 1, extent, render_pass }));
}

/// A frame draws the whole of its own target with the pipeline of the pass, reads the depth
/// through the first set and the normals through the second, and hands over the image that
/// it has drawn.
pub proof fn frame_draws_its_own_target<M>(
    target: AoTarget,
    inputs: AoInputs,
    extent: Extent2D,
    render_pass: u64,
    pipeline: AoPipeline,
    push: AoPush<M>,
    i: int,
)
    requires
        0 <= i < ao_commands(target, inputs, extent, render_pass, pipeline, push).len(),
    ensures
        ({
            let commands = ao_commands(target, inputs, extent, render_pass, pipeline, push);
            &&& match commands[i] {
                AoCommand::BeginRenderPass { render_pass: pass, framebuffer, extent: e, clear } => {
                    &&& i == 0
                    &&& pass == render_pass
                    &&& framebuffer == target.framebuffer
                    &&& e == extent
                    &&& clear.r == FLOAT_ONE
                },
                AoCommand::BindPipeline(p) => p == pipeline.pipeline,
                AoCommand::BindSet { layout, index, set } => {
                    &&& layout == pipeline.layout
                    &&& index == 0 ==> set == inputs.depth_set
                    &&& index == 1 ==> set == inputs.normal_set
                    &&& index < 2
                },
                AoCommand::SetViewport(e) => e == extent,
                AoCommand::SetScissor(e) => e == extent,
                AoCommand::PushConstants { layout, push: p } => layout == pipeline.layout && p
                    == push,
                AoCommand::Barrier { image, barrier } => image == target.image
                    && barrier.new_layout == ImageLayout::ShaderReadOnly,
                _ => true,
            }
            &&& commands[i] is Draw ==> {
                &&& commands.take(i).contains(AoCommand::<M>::BindPipeline(pipeline.pipeline))
                &&& commands.take(i).contains(
                    AoCommand::<M>::BindSet {
                        layout: pipeline.layout,
                        index: 0,
                        set: inputs.depth_set,
                    },
                )
                &&& commands.take(i).contains(
                    AoCommand::<M>::BindSet {
                        layout: pipeline.layout,
                        index: 1,
                        set: inputs.normal_set,
                    },
                )
            }
        }),
{
    let commands = ao_commands(target, inputs, extent, render_pass, pipeline, push);
    if commands[i] is Draw {
        let before = commands.take(i);
        assert(before[1] == AoCommand::<M>::BindPipeline(pipeline.pipeline));
        assert(before[2] == AoCommand::<M>::BindSet {
            layout: pipeline.layout,
            index: 0,
            set: inputs.depth_set,
        });
        assert(before[3] == AoCommand::<M>::BindSet {
            layout: pipeline.layout,
            index: 1,
            set: inputs.normal_set,
        });
    }
}

/// New inputs are bound each to its own set: the depth to the depth set, in the layout that
/// depth is read in, and the normals to the normal set.
pub proof fn inputs_are_bound_to_their_sets(inputs: AoInputs, depth: u64, normal: u64)
    requires
        inputs.bound_depth != depth || inputs.bound_normal != normal,
    ensures
        ({
            let writes = needed_writes(inputs, depth, normal);
            &&& writes.len() == 2
            &&& writes[0].set == inputs.depth_set
            &&& writes[0].source == (DescriptorSource::Image {
                view: depth,
                layout: ImageLayout::DepthStencilReadOnly,
            })
            &&& writes[1].set == inputs.normal_set
            &&& writes[1].source == (DescriptorSource::Image {
                view: normal,
                layout: ImageLayout::ShaderReadOnly,
            })
            &&& writes[0].binding == 0 && writes[1].binding == 0
        }),
{
}

/// A pass gives up everything that it owns: framebuffers first, and of each target what was
/// created.
pub proof fn destroyed_pass_gives_up_everything(pass: GtaoPass, slot: int)
    requires
        0 <= slot < 2,
    ensures
        ({
            let list = pass.owned();
            let t = pass.target(slot);
            let o = pass.parts();
            &&& list.contains(Release::Framebuffer(t.framebuffer))
            &&& t.view != 0 ==> list.contains(Release::View(t.view))
            &&& t.memory != 0 ==> list.contains(Release::Memory(t.memory))
            &&& t.image != 0 ==> list.contains(Release::BareImage(t.image))
            &&& o.render_pass matches Some(p) ==> list.contains(Release::RenderPass(p))
            &&& o.pipeline matches Some(p) ==> list.contains(Release::Pipeline(p.pipeline))
            &&& list.contains(Release::SetLayout(o.set_layout))
            &&& list.contains(Release::Pool(o.pool))
            &&& list.contains(Release::Sampler(o.sampler))
            &&& list[0] is Framebuffer && list[1] is Framebuffer
        }),
{
    let list = pass.owned();
    let t = pass.target(slot);
    let o = pass.parts();
    let a = target_release(pass.target(0));
    let b = target_release(pass.target(1));
    let c = objects_release(o);
    assert(list[slot] == Release::Framebuffer(t.framebuffer));
    let base = if slot == 0 {
        2
    } else {
        2 + a.len() as int
    };
    let own = target_release(t);
    assert forall|k: int| 0 <= k < own.len() implies list[base + k] == #[trigger] own[k] by {}
    assert forall|x: Release| #[trigger] own.contains(x) implies list.contains(x) by {
        let k = choose|k: int| 0 <= k < own.len() && own[k] == x;
        assert(list[base + k] == x);
    }
    let v: int = if t.view != 0 {
        1
    } else {
        0
    };
    let m: int = if t.memory != 0 {
        1
    } else {
        0
    };
    if t.view != 0 {
        assert(own[0] == Release::View(t.view));
        assert(own.contains(Release::View(t.view)));
    }
    if t.memory != 0 {
        assert(own[v] == Release::Memory(t.memory));
        assert(own.contains(Release::Memory(t.memory)));
    }
    if t.image != 0 {
        assert(own[v + m] == Release::BareImage(t.image));
        assert(own.contains(Release::BareImage(t.image)));
    }
    let e = 2 + a.len() + b.len();
    assert forall|k: int| 0 <= k < c.len() implies list[e + k] == #[trigger] c[k] by {}
    assert forall|x: Release| #[trigger] c.contains(x) implies list.contains(x) by {
        let k = choose|k: int| 0 <= k < c.len() && c[k] == x;
        assert(list[e + k] == x);
    }
    let n = c.len() as int;
    assert(c[n - 3] == Release::SetLayout(o.set_layout));
    assert(c[n - 2] == Release::Pool(o.pool));
    assert(c[n - 1] == Release::Sampler(o.sampler));
    assert(c.contains(Release::SetLayout(o.set_layout)) && c.contains(Release::Pool(o.pool))
        && c.contains(Release::Sampler(o.sampler)));
    if let Some(p) = o.render_pass {
        assert(c[0] == Release::RenderPass(p));
        assert(c.contains(Release::RenderPass(p)));
    }
    if let Some(p) = o.pipeline {
        assert(c[n - 5] == Release::Pipeline(p.pipeline));
        assert(c.contains(Release::Pipeline(p.pipeline)));
    }
}

/// A frame samples the two published images, each as what it is, and nothing where one of
/// the views is missing.
pub proof fn frame_samples_what_was_published(depth: Published, normal: Published)
    ensures
        sampled(depth, normal) is Some <==> depth.view is Some && normal.view is Some,
        sampled(depth, normal) matches Some(inputs) ==> {
            &&& depth.view == Some(inputs.depth_view)
            &&& normal.view == Some(inputs.normal_view)
            &&& depth.image matches Some(image) ==> inputs.depth_image == image
            &&& normal.image matches Some(image) ==> inputs.normal_image == image
            &&& depth.image is None ==> inputs.depth_image == 0
            &&& normal.image is None ==> inputs.normal_image == 0
        },
{
}

/// The shared sampler is written into each set, where the layout expects a sampler.
pub proof fn every_set_gets_the_sampler(sets: Seq<u64>, sampler: u64, i: int)
    requires
        0 <= i < sets.len(),
    ensures
        ({
            let writes = sets.map_values(|set: u64| sampler_write(set, sampler));
            &&& writes[i].set == sets[i]
            &&& writes[i].binding == 1
            &&& writes[i].kind == DescriptorKind::Sampler
            &&& writes[i].source == DescriptorSource::Sampler { sampler }
        }),
{
}

/// Fresh images are readable before anything reads them: the transition is recorded and
/// submitted, and the fence waited for before it and the commands go.
pub proof fn fresh_images_are_readable_in_time(i: int, j: int)
    requires
        0 <= i < transition_steps().len(),
        0 <= j < transition_steps().len(),
    ensures
        ({
            let steps = transition_steps();
            &&& steps[i] is BeginCommands && steps[j] is Transition ==> i < j
            &&& steps[i] is Transition && steps[j] is EndCommands ==> i < j
            &&& steps[i] is EndCommands && steps[j] is Submit ==> i < j
            &&& steps[i] is CreateFence && steps[j] is Submit ==> i < j
            &&& steps[i] is Submit && steps[j] is WaitForFence ==> i < j
            &&& steps[i] is WaitForFence && (steps[j] is DestroyFence || steps[j] is FreeCommands)
                ==> i < j
            &&& steps[i] matches AoStep::Transition { barrier } ==> barrier.new_layout
                == ImageLayout::ShaderReadOnly && barrier.old_layout == ImageLayout::Undefined
                && barrier.dst_access == Access::ShaderRead && barrier.dst_stage
                == PipelineStage::FragmentShader
            &&& steps.contains(AoStep::WaitForFence)
            &&& steps.contains(AoStep::Submit)
        }),
{
    assert(transition_steps()[5] == AoStep::Submit);
    assert(transition_steps()[6] == AoStep::WaitForFence);
}

/// Both targets are given up whole, and no image or framebuffer goes before what refers to
/// it is gone.
pub proof fn replaced_targets_are_given_up(a: AoTarget, b: AoTarget, i: int, j: int)
    requires
        0 <= i < targets_release(a, b).len(),
        0 <= j < targets_release(a, b).len(),
    ensures
        ({
            let steps = targets_release(a, b);
            &&& steps.len() == 8
            &&& steps.contains(AoStep::Destroy(Release::Framebuffer(a.framebuffer)))
            &&& steps.contains(AoStep::Destroy(Release::Framebuffer(b.framebuffer)))
            &&& steps.contains(AoStep::Destroy(Release::View(a.view)))
            &&& steps.contains(AoStep::Destroy(Release::View(b.view)))
            &&& steps.contains(AoStep::Destroy(Release::Memory(a.memory)))
            &&& steps.contains(AoStep::Destroy(Release::Memory(b.memory)))
            &&& steps.contains(AoStep::Destroy(Release::BareImage(a.image)))
            &&& steps.contains(AoStep::Destroy(Release::BareImage(b.image)))
            &&& steps[i]->Destroy_0 is Framebuffer && steps[j]->Destroy_0 is View ==> i < j
        }),
{
    let steps = targets_release(a, b);
    assert(steps[0] == AoStep::Destroy(Release::Framebuffer(a.framebuffer)));
    assert(steps[1] == AoStep::Destroy(Release::Framebuffer(b.framebuffer)));
    assert(steps[2] == AoStep::Destroy(Release::View(a.view)));
    assert(steps[3] == AoStep::Destroy(Release::Memory(a.memory)));
    assert(steps[4] == AoStep::Destroy(Release::BareImage(a.image)));
    assert(steps[5] == AoStep::Destroy(Release::View(b.view)));
    assert(steps[6] == AoStep::Destroy(Release::Memory(b.memory)));
    assert(steps[7] == AoStep::Destroy(Release::BareImage(b.image)));
}

/// The pipeline draws in its render pass with its set, over the whole target: nothing is
/// culled, depth stays as it is, and nothing of what was there shines through.
pub proof fn occlusion_replaces_its_target(render_pass: u64, set_layout: u64)
    ensures
        ({
            let spec = pipeline_spec(render_pass, set_layout);
            &&& spec.render_pass == render_pass
            &&& spec.set_layout == set_layout
            &&& spec.push_size == AO_PUSH_SIZE
            &&& !spec.cull && !spec.depth_write
            &&& spec.blend == Blend::Replace
        }),
{
}

/// Both barriers of the occlusion end with fragment shaders reading the image; the first
/// waits for nothing, as nothing used the fresh image, and the other for what was drawn.
pub proof fn occlusion_barriers_end_in_reading()
    ensures
        first_transition().new_layout == written_transition().new_layout,
        first_transition().dst_stage == written_transition().dst_stage,
        first_transition().dst_access == written_transition().dst_access,
        written_transition().new_layout == ImageLayout::ShaderReadOnly,
        written_transition().dst_stage == PipelineStage::FragmentShader,
        written_transition().dst_access == Access::ShaderRead,
        first_transition().old_layout == ImageLayout::Undefined,
        first_transition().src_stage == PipelineStage::TopOfPipe,
        first_transition().src_access == Access::NoAccess,
        first_transition().base_level == 0 && first_transition().level_count == 1,
        written_transition().base_level == 0 && written_transition().level_count == 1,
        written_transition().old_layout == ImageLayout::ColorAttachment,
        written_transition().src_stage == PipelineStage::ColorAttachmentOutput,
        written_transition().src_access == Access::ColorAttachmentWrite,
{
}

/// A new size makes the image and the view of both targets, and each is attached only once
/// it is there.
pub proof fn both_images_are_made_anew(extent: Extent2D, render_pass: u64, i: int, j: int)
    requires
        0 <= i < retargeting(extent, render_pass).len(),
        0 <= j < retargeting(extent, render_pass).len(),
    ensures
        ({
            let steps = retargeting(extent, render_pass);
            &&& forall|slot: u32|
                slot < 2 ==> #[trigger] steps.contains(AoStep::CreateView { slot })
                    && steps.contains(AoStep::BindImage { slot }) && steps.contains(
                    image_creation(slot, extent),
                ) && steps.contains(image_allocation(slot))
            &&& steps[i] is CreateView && steps[j] is Reattach && steps[i]->CreateView_slot
                == steps[j]->Reattach_slot ==> i < j
            &&& steps[i] is CreateImage && steps[j] is BindImage && steps[i]->CreateImage_slot
                == steps[j]->BindImage_slot ==> i < j
        }),
{
    let steps = retargeting(extent, render_pass);
    assert(steps[0] == image_creation(0, extent));
    assert(steps[1] == image_allocation(0));
    assert(steps[2] == (AoStep::BindImage { slot: 0 }));
    assert(steps[3] == (AoStep::CreateView { slot: 0 }));
    assert(steps[5] == image_creation(1, extent));
    assert(steps[6] == image_allocation(1));
    assert(steps[7] == (AoStep::BindImage { slot: 1 }));
    assert(steps[8] == (AoStep::CreateView { slot: 1 }));
}

} // verus!
