//! The single-pass renderer: one render pass over swapchain images, drawn to between the
//! beginning and the end of a frame.
//!
//! Device objects are known by handle. The renderer says which commands a call records
//! and which objects go away; the caller performs them. `M` is a matrix and `F` a
//! number, both of which are only moved.

use vstd::prelude::*;

use crate::descriptor::{
    BufferRange, DescriptorKind, DescriptorSource, DescriptorWrite, FRAME_UBO_SIZE,
};
use crate::forward_pass::commands::MeshBuffers;
use crate::gpu::{
    far_depth, AttachmentFormat, ClearColor, ClearDepth, Extent2D, PipelineStage, FLOAT_ONE,
};
use crate::graph_renderer::{
    is_out_of_date, no_extent, orientation_of, oriented, out_of_date_text, Acquired, Orientation,
    PresentStep, SurfaceTransform, SwapchainState, FRAMES_IN_FLIGHT,
};
use crate::text::holds_text;

verus! {

/// Size in bytes of a matrix.
pub const MATRIX_SIZE: u32 = 64;

/// Size in bytes of the constants of the plain pipeline: the model matrix.
pub const PUSH_CONSTANT_SIZE: u32 = MATRIX_SIZE;

/// Size in bytes of the constants of the pipeline with its own material: the model
/// matrix, color and metalness, roughness, and the two debug switches.
pub const PBR_PUSH_SIZE: u32 = MATRIX_SIZE + 16 + 4 + 4 + 4;

/// Size in bytes of the constants of the bindless pipeline: the model matrix, four
/// handles, and padding.
pub const BINDLESS_PUSH_SIZE: u32 = MATRIX_SIZE + 16 + 16;

/// A handle that stands for no texture.
pub const NO_TEXTURE: u32 = 0xffff_ffff;

// ---------------------------------------------------------------------------
// Pipelines
// ---------------------------------------------------------------------------

/// The set layouts that pipelines are built over.
#[derive(Clone, Copy, Debug, PartialEq, Eq, Structural)]
pub struct RendererLayouts {
    /// The frame's uniform buffer.
    pub frame: u64,
    /// The environment.
    pub ibl: u64,
    /// The frame's uniform buffer together with the materials.
    pub combined: u64,
    /// The bindless table.
    pub table: u64,
}

/// What a pipeline is built from.
pub struct PipelinePlan {
    pub set_layouts: Vec<u64>,
    pub push_size: u32,
    /// The constants are seen by the fragment shader as well as by the vertex shader.
    pub push_in_fragment: bool,
}

/// The three pipelines.
pub struct PipelinePlans {
    pub mesh: PipelinePlan,
    pub pbr: PipelinePlan,
    pub bindless: PipelinePlan,
}

/// The three pipelines are planned over these layouts.
pub open spec fn planned_for(layouts: RendererLayouts, plans: PipelinePlans) -> bool {
    &&& plans.mesh.set_layouts@ == seq![layouts.frame]
    &&& plans.mesh.push_size == PUSH_CONSTANT_SIZE
    &&& !plans.mesh.push_in_fragment
    &&& plans.pbr.set_layouts@ == seq![layouts.frame, layouts.ibl]
    &&& plans.pbr.push_size == PBR_PUSH_SIZE
    &&& plans.pbr.push_in_fragment
    &&& plans.bindless.set_layouts@ == seq![layouts.combined, layouts.table, layouts.ibl]
    &&& plans.bindless.push_size == BINDLESS_PUSH_SIZE
    &&& plans.bindless.push_in_fragment
}

/// Plans the three pipelines.
pub fn plan_pipelines(layouts: RendererLayouts) -> (r: PipelinePlans)
    ensures
        planned_for(layouts, r),
{
    let mut mesh: Vec<u64> = Vec::new();
    mesh.push(layouts.frame);
    let mut pbr: Vec<u64> = Vec::new();
    pbr.push(layouts.frame);
    pbr.push(layouts.ibl);
    let mut bindless: Vec<u64> = Vec::new();
    bindless.push(layouts.combined);
    bindless.push(layouts.table);
    bindless.push(layouts.ibl);
    assert(mesh@ =~= seq![layouts.frame]);
    assert(pbr@ =~= seq![layouts.frame, layouts.ibl]);
    assert(bindless@ =~= seq![layouts.combined, layouts.table, layouts.ibl]);
    PipelinePlans {
        mesh: PipelinePlan {
            set_layouts: mesh,
            push_size: PUSH_CONSTANT_SIZE,
            push_in_fragment: false,
        },
        pbr: PipelinePlan {
            set_layouts: pbr,
            push_size: PBR_PUSH_SIZE,
            push_in_fragment: true,
        },
        bindless: PipelinePlan {
            set_layouts: bindless,
            push_size: BINDLESS_PUSH_SIZE,
            push_in_fragment: true,
        },
    }
}

/// The writes of one combined set: the frame's uniform buffer, then all materials.
pub open spec fn combined_writes(set: u64, ubo: u64, materials: u64) -> Seq<DescriptorWrite> {
    seq![
        DescriptorWrite {
            set,
            binding: 0,
            kind: DescriptorKind::UniformBuffer,
            source: DescriptorSource::Buffer {
                buffer: ubo,
                range: BufferRange::Bytes(FRAME_UBO_SIZE),
            },
        },
        DescriptorWrite {
            set,
            binding: 1,
            kind: DescriptorKind::StorageBuffer,
            source: DescriptorSource::Buffer { buffer: materials, range: BufferRange::Whole },
        },
    ]
}

/// The writes of the first `n` combined sets.
pub open spec fn all_combined_writes(sets: Seq<u64>, ubos: Seq<u64>, materials: u64, n: nat) -> Seq<
    DescriptorWrite,
>
    decreases n,
{
    if n == 0 {
        Seq::empty()
    } else {
        all_combined_writes(sets, ubos, materials, (n - 1) as nat) + combined_writes(
            sets[n - 1],
            ubos[n - 1],
            materials,
        )
    }
}

/// Writes the combined set of every frame in flight.
pub fn plan_combined_writes(sets: &Vec<u64>, ubos: &Vec<u64>, materials: u64) -> (r: Vec<
    DescriptorWrite,
>)
    requires
        sets.len() <= ubos.len(),
    ensures
        r@ == all_combined_writes(sets@, ubos@, materials, sets@.len()),
{
    let mut list: Vec<DescriptorWrite> = Vec::new();
    let mut i: usize = 0;
    while i < sets.len()
        invariant
            i <= sets.len(),
            sets.len() <= ubos.len(),
            list@ == all_combined_writes(sets@, ubos@, materials, i as nat),
        decreases sets.len() - i,
    {
        list.push(
            DescriptorWrite {
                set: sets[i],
                binding: 0,
                kind: DescriptorKind::UniformBuffer,
                source: DescriptorSource::Buffer {
                    buffer: ubos[i],
                    range: BufferRange::Bytes(FRAME_UBO_SIZE),
                },
            },
        );
        list.push(
            DescriptorWrite {
                set: sets[i],
                binding: 1,
                kind: DescriptorKind::StorageBuffer,
                source: DescriptorSource::Buffer { buffer: materials, range: BufferRange::Whole },
            },
        );
        i = i + 1;
        assert(list@ =~= all_combined_writes(sets@, ubos@, materials, i as nat));
    }
    list
}

// ---------------------------------------------------------------------------
// Creation
// ---------------------------------------------------------------------------

/// Number of textures that the bindless table holds.
pub const TABLE_CAPACITY: u32 = 1024;

/// The images of a swapchain: how many there are, their size, and the device's number for
/// their format.
#[derive(Clone, Copy, Debug, PartialEq, Eq, Structural)]
pub struct SwapchainImages {
    pub count: usize,
    pub extent: Extent2D,
    pub format: u32,
}

/// Steps of creating the renderer. A step that fails is the last one.
#[derive(Clone, Copy, Debug, PartialEq, Eq, Structural)]
pub enum CreateStep {
    Context,
    Swapchain,
    VertexShader,
    MeshShader,
    /// Create a depth image for each image of the swapchain.
    DepthImages { count: usize, extent: Extent2D },
    /// Create a render pass with a color attachment and a depth attachment.
    RenderPass { color: u32, depth: AttachmentFormat },
    /// Create a framebuffer for each image of the swapchain.
    Framebuffers { count: usize, extent: Extent2D },
    FrameLayout,
    FramePool { frames: u32 },
    FrameSets { frames: u32 },
    /// Create a uniform buffer for each frame in flight.
    FrameUbos { frames: u32 },
    CommandPool,
    CommandBuffers { frames: u32 },
    Ibl,
    TextureTable { capacity: u32 },
    /// Put the environment into the bindless table.
    RegisterEnvironment,
    MeshPipeline,
    PbrShader,
    PbrPipeline,
    DestroyPbrShader,
    Overlay,
    Gizmo,
    Textures { capacity: u32 },
    Materials,
    Meshes,
    CombinedLayout,
    CombinedPool { frames: u32 },
    CombinedSets { frames: u32 },
    WriteCombinedSets,
    BindlessShader,
    BindlessPipeline,
    DestroyBindlessShader,
}

/// Creates the depth images of a swapchain.
pub open spec fn depth_creation(sw: SwapchainImages) -> CreateStep {
    CreateStep::DepthImages { count: sw.count, extent: sw.extent }
}

/// Creates the render pass that draws to a swapchain.
pub open spec fn pass_creation(sw: SwapchainImages) -> CreateStep {
    CreateStep::RenderPass { color: sw.format, depth: AttachmentFormat::Depth32Float }
}

/// The steps of creating the renderer for a swapchain.
pub open spec fn creation(sw: SwapchainImages) -> Seq<CreateStep> {
    seq![
        CreateStep::Context,
        CreateStep::Swapchain,
        CreateStep::VertexShader,
        CreateStep::MeshShader,
        depth_creation(sw),
        pass_creation(sw),
        CreateStep::Framebuffers { count: sw.count, extent: sw.extent },
        CreateStep::FrameLayout,
        CreateStep::FramePool { frames: FRAMES_IN_FLIGHT },
        CreateStep::FrameSets { frames: FRAMES_IN_FLIGHT },
        CreateStep::FrameUbos { frames: FRAMES_IN_FLIGHT },
        CreateStep::CommandPool,
        CreateStep::CommandBuffers { frames: FRAMES_IN_FLIGHT },
        CreateStep::Ibl,
        CreateStep::TextureTable { capacity: TABLE_CAPACITY },
        CreateStep::RegisterEnvironment,
        CreateStep::MeshPipeline,
        CreateStep::PbrShader,
        CreateStep::PbrPipeline,
        CreateStep::DestroyPbrShader,
        CreateStep::Overlay,
        CreateStep::Gizmo,
        CreateStep::Textures { capacity: TABLE_CAPACITY },
        CreateStep::Materials,
        CreateStep::Meshes,
        CreateStep::CombinedLayout,
        CreateStep::CombinedPool { frames: FRAMES_IN_FLIGHT },
        CreateStep::CombinedSets { frames: FRAMES_IN_FLIGHT },
        CreateStep::WriteCombinedSets,
        CreateStep::BindlessShader,
        CreateStep::BindlessPipeline,
        CreateStep::DestroyBindlessShader,
    ]
}

/// Plans the creation of the renderer for a swapchain.
pub fn plan_creation(sw: SwapchainImages) -> (steps: Vec<CreateStep>)
    ensures
        steps@ == creation(sw),
{
    let mut steps: Vec<CreateStep> = Vec::new();
    steps.push(CreateStep::Context);
    steps.push(CreateStep::Swapchain);
    steps.push(CreateStep::VertexShader);
    steps.push(CreateStep::MeshShader);
    steps.push(CreateStep::DepthImages { count: sw.count, extent: sw.extent });
    steps.push(CreateStep::RenderPass { color: sw.format, depth: AttachmentFormat::Depth32Float });
    steps.push(CreateStep::Framebuffers { count: sw.count, extent: sw.extent });
    steps.push(CreateStep::FrameLayout);
    steps.push(CreateStep::FramePool { frames: FRAMES_IN_FLIGHT });
    steps.push(CreateStep::FrameSets { frames: FRAMES_IN_FLIGHT });
    steps.push(CreateStep::FrameUbos { frames: FRAMES_IN_FLIGHT });
    steps.push(CreateStep::CommandPool);
    steps.push(CreateStep::CommandBuffers { frames: FRAMES_IN_FLIGHT });
    steps.push(CreateStep::Ibl);
    steps.push(CreateStep::TextureTable { capacity: TABLE_CAPACITY });
    steps.push(CreateStep::RegisterEnvironment);
    steps.push(CreateStep::MeshPipeline);
    steps.push(CreateStep::PbrShader);
    steps.push(CreateStep::PbrPipeline);
    steps.push(CreateStep::DestroyPbrShader);
    steps.push(CreateStep::Overlay);
    steps.push(CreateStep::Gizmo);
    steps.push(CreateStep::Textures { capacity: TABLE_CAPACITY });
    steps.push(CreateStep::Materials);
    steps.push(CreateStep::Meshes);
    steps.push(CreateStep::CombinedLayout);
    steps.push(CreateStep::CombinedPool { frames: FRAMES_IN_FLIGHT });
    steps.push(CreateStep::CombinedSets { frames: FRAMES_IN_FLIGHT });
    steps.push(CreateStep::WriteCombinedSets);
    steps.push(CreateStep::BindlessShader);
    steps.push(CreateStep::BindlessPipeline);
    steps.push(CreateStep::DestroyBindlessShader);
    assert(steps@ =~= creation(sw));
    steps
}

/// What has to be there before a step.
pub open spec fn needs(step: CreateStep, sw: SwapchainImages) -> Seq<CreateStep> {
    let frames = FRAMES_IN_FLIGHT;
    match step {
        CreateStep::Context => Seq::empty(),
        CreateStep::Meshes => Seq::empty(),
        CreateStep::DepthImages { .. } => seq![CreateStep::Swapchain],
        CreateStep::RenderPass { .. } => seq![CreateStep::Swapchain],
        CreateStep::Framebuffers { .. } => seq![
            CreateStep::Swapchain,
            depth_creation(sw),
            pass_creation(sw),
        ],
        CreateStep::FrameSets { .. } => seq![
            CreateStep::FrameLayout,
            CreateStep::FramePool { frames },
        ],
        CreateStep::FrameUbos { .. } => seq![CreateStep::FrameSets { frames }],
        CreateStep::CommandBuffers { .. } => seq![CreateStep::CommandPool],
        CreateStep::Ibl => seq![CreateStep::CommandPool],
        CreateStep::RegisterEnvironment => seq![
            CreateStep::Ibl,
            CreateStep::TextureTable { capacity: TABLE_CAPACITY },
        ],
        CreateStep::MeshPipeline => seq![
            CreateStep::VertexShader,
            CreateStep::MeshShader,
            CreateStep::FrameLayout,
            pass_creation(sw),
        ],
        CreateStep::PbrPipeline => seq![
            CreateStep::VertexShader,
            CreateStep::PbrShader,
            CreateStep::FrameLayout,
            CreateStep::Ibl,
            pass_creation(sw),
        ],
        CreateStep::DestroyPbrShader => seq![CreateStep::PbrShader, CreateStep::PbrPipeline],
        CreateStep::Overlay => seq![CreateStep::CommandPool, pass_creation(sw)],
        CreateStep::Gizmo => seq![pass_creation(sw)],
        CreateStep::Textures { .. } => seq![CreateStep::CommandPool],
        CreateStep::CombinedSets { .. } => seq![
            CreateStep::CombinedLayout,
            CreateStep::CombinedPool { frames },
        ],
        CreateStep::WriteCombinedSets => seq![
            CreateStep::FrameUbos { frames },
            CreateStep::Materials,
            CreateStep::CombinedSets { frames },
        ],
        CreateStep::BindlessPipeline => seq![
            CreateStep::VertexShader,
            CreateStep::BindlessShader,
            CreateStep::CombinedLayout,
            CreateStep::Textures { capacity: TABLE_CAPACITY },
            CreateStep::Ibl,
            pass_creation(sw),
        ],
        CreateStep::DestroyBindlessShader => seq![
            CreateStep::BindlessShader,
            CreateStep::BindlessPipeline,
        ],
        _ => seq![CreateStep::Context],
    }
}

/// Where a step stands that others need.
spec fn place(step: CreateStep) -> int {
    match step {
        CreateStep::Context => 0,
        CreateStep::Swapchain => 1,
        CreateStep::VertexShader => 2,
        CreateStep::MeshShader => 3,
        CreateStep::DepthImages { .. } => 4,
        CreateStep::RenderPass { .. } => 5,
        CreateStep::FrameLayout => 7,
        CreateStep::FramePool { .. } => 8,
        CreateStep::FrameSets { .. } => 9,
        CreateStep::FrameUbos { .. } => 10,
        CreateStep::CommandPool => 11,
        CreateStep::Ibl => 13,
        CreateStep::TextureTable { .. } => 14,
        CreateStep::PbrShader => 17,
        CreateStep::PbrPipeline => 18,
        CreateStep::Textures { .. } => 22,
        CreateStep::Materials => 23,
        CreateStep::CombinedLayout => 25,
        CreateStep::CombinedPool { .. } => 26,
        CreateStep::CombinedSets { .. } => 27,
        CreateStep::BindlessShader => 29,
        _ => 30,
    }
}

/// Nothing is used before it is there: every step comes after all that it needs. A
/// shader that only one pipeline needs is destroyed after that pipeline is there.
pub proof fn nothing_is_used_before_it_is_there(sw: SwapchainImages, i: int, k: int)
    requires
        0 <= i < creation(sw).len(),
        0 <= k < needs(creation(sw)[i], sw).len(),
    ensures
        exists|j: int|
            0 <= j < i && #[trigger] creation(sw)[j] == needs(creation(sw)[i], sw)[k],
{
    let needed = needs(creation(sw)[i], sw)[k];
    let j = place(needed);
    assert(creation(sw)[j] == needed);
    assert(j < i);
}

// ---------------------------------------------------------------------------
// Commands
// ---------------------------------------------------------------------------

/// A pipeline and its layout.
#[derive(Clone, Copy, Debug, PartialEq, Eq, Structural)]
pub struct BoundPipeline {
    pub pipeline: u64,
    pub layout: u64,
}

/// Constants of the pipeline with its own material.
#[derive(Debug, PartialEq)]
pub struct PbrPush<M, F> {
    pub model: M,
    pub albedo_metallic: [F; 4],
    pub roughness: F,
    pub debug_mode: u32,
    pub normal_space: u32,
}

/// Constants of the bindless pipeline.
#[derive(Debug, PartialEq)]
pub struct BindlessPush<M> {
    pub model: M,
    pub material_slot: u32,
    pub env_handle: u32,
    pub albedo_idx: u32,
    pub normal_idx: u32,
}

/// Commands of a frame.
#[derive(Debug, PartialEq)]
pub enum FrameCommand<M, F> {
    /// Begin the render pass; color and depth are cleared.
    BeginRenderPass {
        render_pass: u64,
        framebuffer: u64,
        extent: Extent2D,
        color: ClearColor,
        depth: ClearDepth,
    },
    SetViewport(Extent2D),
    SetScissor(Extent2D),
    BindPipeline(u64),
    BindSet { layout: u64, index: u32, set: u64 },
    PushModel { layout: u64, model: M },
    PushPbr { layout: u64, pbr: PbrPush<M, F> },
    PushBindless { layout: u64, bindless: BindlessPush<M> },
    BindVertexBuffer(u64),
    BindIndexBuffer(u64),
    DrawIndexed(u32),
    Draw(u32),
    EndRenderPass,
}

/// One thing to draw in a scene. A mesh that is not uploaded is not drawn.
pub struct SceneDrawItem<M> {
    pub mesh: Option<MeshBuffers>,
    pub material_slot: u32,
    pub model: M,
}

/// Material of one draw.
pub struct PbrMaterial<F> {
    pub albedo: [F; 3],
    pub metallic: F,
    pub roughness: F,
    pub debug_mode: u32,
    pub normal_space: u32,
}

/// The commands that bind the buffers of a mesh and draw it, by its indices where it has
/// them.
pub open spec fn mesh_commands<M, F>(mesh: MeshBuffers) -> Seq<FrameCommand<M, F>> {
    match mesh.index_buffer {
        Some(index_buffer) => seq![
            FrameCommand::BindVertexBuffer(mesh.vertex_buffer),
            FrameCommand::BindIndexBuffer(index_buffer),
            FrameCommand::DrawIndexed(mesh.index_count),
        ],
        None => seq![
            FrameCommand::BindVertexBuffer(mesh.vertex_buffer),
            FrameCommand::Draw(mesh.vertex_count),
        ],
    }
}

fn draw_buffers<M, F>(list: &mut Vec<FrameCommand<M, F>>, mesh: MeshBuffers)
    ensures
        final(list)@ == old(list)@ + mesh_commands(mesh),
{
    list.push(FrameCommand::BindVertexBuffer(mesh.vertex_buffer));
    match mesh.index_buffer {
        Some(index_buffer) => {
            list.push(FrameCommand::BindIndexBuffer(index_buffer));
            list.push(FrameCommand::DrawIndexed(mesh.index_count));
        },
        None => {
            list.push(FrameCommand::Draw(mesh.vertex_count));
        },
    }
    assert(list@ =~= old(list)@ + mesh_commands(mesh));
}

/// The commands of one item of a scene: none where its mesh is not uploaded.
pub open spec fn scene_item_commands<M, F>(item: SceneDrawItem<M>, layout: u64, env_handle: u32) -> Seq<
    FrameCommand<M, F>,
> {
    match item.mesh {
        Some(mesh) => seq![
            FrameCommand::PushBindless {
                layout,
                bindless: BindlessPush {
                    model: item.model,
                    material_slot: item.material_slot,
                    env_handle,
                    albedo_idx: NO_TEXTURE,
                    normal_idx: NO_TEXTURE,
                },
            },
        ] + mesh_commands(mesh),
        None => Seq::empty(),
    }
}

/// The commands of the first `n` items of a scene.
pub open spec fn scene_items_commands<M, F>(
    items: Seq<SceneDrawItem<M>>,
    layout: u64,
    env_handle: u32,
    n: nat,
) -> Seq<FrameCommand<M, F>>
    decreases n,
{
    if n == 0 {
        Seq::empty()
    } else {
        scene_items_commands::<M, F>(items, layout, env_handle, (n - 1) as nat)
            + scene_item_commands::<M, F>(items[n - 1], layout, env_handle)
    }
}

// ---------------------------------------------------------------------------
// The renderer
// ---------------------------------------------------------------------------

/// A frame between its beginning and its end.
#[derive(Clone, Copy, Debug, PartialEq, Eq, Structural)]
pub struct FrameState {
    pub image_index: u32,
    pub frame_index: usize,
    pub image_available: u64,
    pub render_finished: u64,
    pub fence: u64,
    pub command_buffer: u64,
}

/// Objects that outlive every surface.
pub struct DeviceObjects {
    pub command_buffers: Vec<u64>,
    pub render_pass: u64,
    pub pipeline: BoundPipeline,
    pub pbr_pipeline: BoundPipeline,
    pub bindless_pipeline: BoundPipeline,
    /// The set with the uniform buffer of each frame in flight.
    pub frame_sets: Vec<u64>,
    /// The set with the uniform buffer and the materials of each frame in flight.
    pub bindless_frame_sets: Vec<u64>,
    pub table_set: u64,
    pub ibl_set: u64,
    pub ibl_handle: u32,
    /// The number of the color format that the render pass was built for.
    pub color_format: u32,
}

/// A swapchain, and the number of its color format.
#[derive(Clone, Copy, Debug, PartialEq, Eq, Structural)]
pub struct AttachedSwapchain {
    pub state: SwapchainState,
    pub format: u32,
}

/// The renderer.
pub struct Renderer {
    pub objects: DeviceObjects,
    pub swapchain: Option<AttachedSwapchain>,
    pub depth_images: Vec<u64>,
    pub framebuffers: Vec<u64>,
    pub current: Option<FrameState>,
}

/// How a frame begins.
#[derive(Debug, PartialEq)]
pub enum BeginResult<M, F> {
    /// Record these commands; the frame is open.
    Record(Vec<FrameCommand<M, F>>),
    /// Recreate the swapchain and what depends on it; there is no frame to draw.
    Recreate,
    /// Fail with the error that came back.
    Fail,
    /// There is nothing to render to.
    NoSwapchain,
}

/// Why a call is refused.
#[derive(Clone, Copy, Debug, PartialEq, Eq, Structural)]
pub enum RendererError {
    OutsideFrame,
    NoSwapchain,
}

/// Steps around the surface.
#[derive(Clone, Copy, Debug, PartialEq, Eq, Structural)]
pub enum TeardownStep {
    WaitIdle,
    Managers,
    DepthImage(u64),
    Framebuffer(u64),
    ShaderModules,
    CommandPool,
    Swapchain,
}

/// What is built for a swapchain, after the depth images of the one before are destroyed:
/// first a depth image for each image of it, then the framebuffers.
#[derive(Debug, PartialEq)]
pub struct RebuildPlan {
    pub teardown: Vec<TeardownStep>,
    pub count: usize,
    pub extent: Extent2D,
}

/// What the overlay is drawn with.
#[derive(Clone, Copy, Debug, PartialEq, Eq, Structural)]
pub struct OverlayDraw {
    pub command_buffer: u64,
    pub extent: Extent2D,
    pub orientation: Orientation,
    /// Number of the debug mode that is shown.
    pub debug_mode: u32,
    /// Number of the space that normals are shown in.
    pub normal_space: u32,
    pub show_ui: bool,
}

/// A pointer position for the overlay's buttons to be tested against.
#[derive(Clone, Copy, Debug, PartialEq, Eq, Structural)]
pub struct OverlayHit {
    /// The position in pixels, as bit patterns.
    pub px: u32,
    pub py: u32,
    pub extent: Extent2D,
}

/// What follows the presentation of a frame.
#[derive(Clone, Copy, Debug, PartialEq, Eq, Structural)]
pub enum Presented {
    /// The swapchain is good for the next frame.
    Shown,
    /// Recreate the swapchain, then call `Renderer::recreate_swapchain` with it.
    Recreate,
}

/// The submission that ends a frame.
#[derive(Clone, Copy, Debug, PartialEq, Eq, Structural)]
pub struct EndPlan {
    pub command_buffer: u64,
    pub present: PresentStep,
}

/// The submission that ends a frame, which is presented where a swapchain is attached.
pub open spec fn end_plan(frame: FrameState, attached: bool) -> EndPlan {
    EndPlan {
        command_buffer: frame.command_buffer,
        present: if attached {
            PresentStep::SubmitAndPresent {
                fence: frame.fence,
                wait_for: frame.image_available,
                wait_stage: PipelineStage::ColorAttachmentOutput,
                signal: frame.render_finished,
                image_index: frame.image_index,
            }
        } else {
            PresentStep::SubmitAndFail {
                fence: frame.fence,
                wait_for: frame.image_available,
                wait_stage: PipelineStage::ColorAttachmentOutput,
                signal: frame.render_finished,
            }
        },
    }
}

/// The teardown of the swapchain, where one is attached.
pub open spec fn swapchain_teardown(attached: bool) -> Seq<TeardownStep> {
    if attached {
        seq![TeardownStep::Swapchain]
    } else {
        Seq::empty()
    }
}

/// The teardown of what depends on the surface.
pub open spec fn surface_teardown(
    depth_images: Seq<u64>,
    framebuffers: Seq<u64>,
    attached: bool,
) -> Seq<TeardownStep> {
    seq![TeardownStep::WaitIdle] + depth_teardown(depth_images) + framebuffer_teardown(framebuffers)
        + swapchain_teardown(attached)
}

/// The teardown of everything.
pub open spec fn whole_teardown(
    depth_images: Seq<u64>,
    framebuffers: Seq<u64>,
    attached: bool,
) -> Seq<TeardownStep> {
    seq![TeardownStep::WaitIdle, TeardownStep::Managers] + depth_teardown(depth_images)
        + framebuffer_teardown(framebuffers) + seq![
        TeardownStep::ShaderModules,
        TeardownStep::CommandPool,
    ] + swapchain_teardown(attached)
}

/// The teardown of depth images.
pub open spec fn depth_teardown(images: Seq<u64>) -> Seq<TeardownStep> {
    images.map_values(|h: u64| TeardownStep::DepthImage(h))
}

/// The teardown of framebuffers.
pub open spec fn framebuffer_teardown(framebuffers: Seq<u64>) -> Seq<TeardownStep> {
    framebuffers.map_values(|h: u64| TeardownStep::Framebuffer(h))
}

/// The depth images, drained into a teardown.
fn drain_depth_images(list: &mut Vec<TeardownStep>, images: &mut Vec<u64>)
    ensures
        final(list)@ == old(list)@ + depth_teardown(old(images)@),
        final(images)@.len() == 0,
{
    let ghost before = list@;
    let mut i: usize = 0;
    assert(list@ =~= before + depth_teardown(images@.take(0)));
    while i < images.len()
        invariant
            i <= images.len(),
            *images == *old(images),
            list@ == before + depth_teardown(images@.take(i as int)),
        decreases images.len() - i,
    {
        list.push(TeardownStep::DepthImage(images[i]));
        i = i + 1;
        assert(list@ =~= before + depth_teardown(images@.take(i as int)));
    }
    assert(images@.take(i as int) =~= images@);
    images.clear();
}

/// The framebuffers, drained into a teardown.
fn drain_framebuffers(list: &mut Vec<TeardownStep>, framebuffers: &mut Vec<u64>)
    ensures
        final(list)@ == old(list)@ + framebuffer_teardown(old(framebuffers)@),
        final(framebuffers)@.len() == 0,
{
    let ghost before = list@;
    let mut j: usize = 0;
    assert(list@ =~= before + framebuffer_teardown(framebuffers@.take(0)));
    while j < framebuffers.len()
        invariant
            j <= framebuffers.len(),
            *framebuffers == *old(framebuffers),
            list@ == before + framebuffer_teardown(framebuffers@.take(j as int)),
        decreases framebuffers.len() - j,
    {
        list.push(TeardownStep::Framebuffer(framebuffers[j]));
        j = j + 1;
        assert(list@ =~= before + framebuffer_teardown(framebuffers@.take(j as int)));
    }
    assert(framebuffers@.take(j as int) =~= framebuffers@);
    framebuffers.clear();
}

/// The objects of a surface, drained into a teardown.
fn drain_targets(list: &mut Vec<TeardownStep>, images: &mut Vec<u64>, framebuffers: &mut Vec<u64>)
    ensures
        final(list)@ == old(list)@ + depth_teardown(old(images)@) + framebuffer_teardown(
            old(framebuffers)@,
        ),
        final(images)@.len() == 0,
        final(framebuffers)@.len() == 0,
{
    drain_depth_images(list, images);
    drain_framebuffers(list, framebuffers);
}

impl Renderer {
    /// The size of the swapchain images, or nothing.
    pub open spec fn size(&self) -> Extent2D {
        match self.swapchain {
            Some(sw) => sw.state.extent,
            None => no_extent(),
        }
    }

    /// The frame that acquiring an image opens.
    pub open spec fn opened(&self, a: Acquired) -> FrameState {
        FrameState {
            image_index: a.image_index,
            frame_index: a.frame,
            image_available: a.image_available,
            render_finished: a.render_finished,
            fence: a.fence,
            command_buffer: self.objects.command_buffers@[a.frame as int],
        }
    }

    /// The commands that open a frame: the render pass on the acquired image, over its
    /// whole size, with the plain pipeline and the frame's uniform buffer.
    pub open spec fn opening<M, F>(&self, a: Acquired, clear_color: ClearColor) -> Seq<
        FrameCommand<M, F>,
    > {
        seq![
            FrameCommand::BeginRenderPass {
                render_pass: self.objects.render_pass,
                framebuffer: self.framebuffers@[a.image_index as int],
                extent: self.size(),
                color: clear_color,
                depth: far_depth(),
            },
            FrameCommand::SetViewport(self.size()),
            FrameCommand::SetScissor(self.size()),
            FrameCommand::BindPipeline(self.objects.pipeline.pipeline),
            FrameCommand::BindSet {
                layout: self.objects.pipeline.layout,
                index: 0,
                set: self.objects.frame_sets@[a.frame as int],
            },
        ]
    }

    /// The open frame's number is one of the frames in flight.
    pub open spec fn wf(&self) -> bool {
        &&& self.objects.frame_sets@.len() == self.objects.command_buffers@.len()
        &&& self.objects.bindless_frame_sets@.len() == self.objects.command_buffers@.len()
        &&& self.current matches Some(f) ==> f.frame_index < self.objects.command_buffers@.len()
    }

    /// The renderer over freshly created objects. No frame is open.
    pub fn new(
        objects: DeviceObjects,
        swapchain: AttachedSwapchain,
        depth_images: Vec<u64>,
        framebuffers: Vec<u64>,
    ) -> (r: Self)
        requires
            objects.frame_sets@.len() == objects.command_buffers@.len(),
            objects.bindless_frame_sets@.len() == objects.command_buffers@.len(),
        ensures
            r.wf(),
            r.objects == objects,
            r.swapchain == Some(swapchain),
            r.depth_images == depth_images,
            r.framebuffers == framebuffers,
            r.current is None,
    {
        Renderer { objects, swapchain: Some(swapchain), depth_images, framebuffers, current: None }
    }

    /// The size of the swapchain images.
    pub fn extent(&self) -> (r: Extent2D)
        ensures
            r == self.size(),
    {
        match self.swapchain {
            Some(sw) => sw.state.extent,
            None => Extent2D { width: 0, height: 0 },
        }
    }

    /// Whether a swapchain is attached.
    pub fn has_swapchain(&self) -> (r: bool)
        ensures
            r == (self.swapchain is Some),
    {
        self.swapchain.is_some()
    }

    /// Begins a frame, given what acquiring the next image gave.
    pub fn begin_frame<M, F>(
        &mut self,
        outcome: Result<Acquired, &str>,
        clear_color: ClearColor,
    ) -> (r: BeginResult<M, F>)
        requires
            old(self).wf(),
            outcome matches Ok(a) ==> {
                &&& a.frame < old(self).objects.command_buffers@.len()
                &&& a.image_index < old(self).framebuffers@.len()
            },
        ensures
            final(self).wf(),
            final(self).objects == old(self).objects,
            final(self).swapchain == old(self).swapchain,
            final(self).depth_images == old(self).depth_images,
            final(self).framebuffers == old(self).framebuffers,
            old(self).swapchain is None ==> r is NoSwapchain && final(self).current == old(
                self,
            ).current,
            old(self).swapchain is Some ==> match outcome {
                Ok(a) => {
                    &&& r matches BeginResult::Record(list) && list@ == old(self).opening::<M, F>(
                        a,
                        clear_color,
                    )
                    &&& final(self).current == Some(old(self).opened(a))
                },
                Err(message) => {
                    &&& final(self).current == old(self).current
                    &&& if holds_text(message@, out_of_date_text()) {
                        r is Recreate
                    } else {
                        r is Fail
                    }
                },
            },
    {
        if self.swapchain.is_none() {
            return BeginResult::NoSwapchain;
        }
        match outcome {
            Ok(a) => {
                let command_buffer: u64 = self.objects.command_buffers[a.frame];
                let extent = self.extent();
                let mut list: Vec<FrameCommand<M, F>> = Vec::new();
                list.push(
                    FrameCommand::BeginRenderPass {
                        render_pass: self.objects.render_pass,
                        framebuffer: self.framebuffers[a.image_index as usize],
                        extent,
                        color: clear_color,
                        depth: ClearDepth { depth: FLOAT_ONE, stencil: 0 },
                    },
                );
                list.push(FrameCommand::SetViewport(extent));
                list.push(FrameCommand::SetScissor(extent));
                list.push(FrameCommand::BindPipeline(self.objects.pipeline.pipeline));
                list.push(
                    FrameCommand::BindSet {
                        layout: self.objects.pipeline.layout,
                        index: 0,
                        set: self.objects.frame_sets[a.frame],
                    },
                );
                assert(list@ =~= old(self).opening::<M, F>(a, clear_color));
                self.current =
                Some(
                    FrameState {
                        image_index: a.image_index,
                        frame_index: a.frame,
                        image_available: a.image_available,
                        render_finished: a.render_finished,
                        fence: a.fence,
                        command_buffer,
                    },
                );
                BeginResult::Record(list)
            },
            Err(message) => if is_out_of_date(message) {
                BeginResult::Recreate
            } else {
                BeginResult::Fail
            },
        }
    }

    /// Draws a mesh. Outside a frame nothing is recorded.
    pub fn draw_mesh<M, F>(&self, mesh: MeshBuffers, model: M) -> (r: Vec<FrameCommand<M, F>>)
        ensures
            r@ == (if self.current is Some {
                seq![
                    FrameCommand::<M, F>::PushModel { layout: self.objects.pipeline.layout, model },
                ] + mesh_commands(mesh)
            } else {
                Seq::empty()
            }),
    {
        let mut list: Vec<FrameCommand<M, F>> = Vec::new();
        if self.current.is_none() {
            return list;
        }
        list.push(FrameCommand::PushModel { layout: self.objects.pipeline.layout, model });
        draw_buffers(&mut list, mesh);
        assert(list@ =~= seq![
            FrameCommand::<M, F>::PushModel { layout: self.objects.pipeline.layout, model },
        ] + mesh_commands(mesh));
        list
    }

    /// The commands of a draw with its own material.
    pub open spec fn pbr_commands<M, F>(
        &self,
        frame: FrameState,
        mesh: MeshBuffers,
        model: M,
        material: PbrMaterial<F>,
    ) -> Seq<FrameCommand<M, F>> {
        let layout = self.objects.pbr_pipeline.layout;
        seq![
            FrameCommand::BindPipeline(self.objects.pbr_pipeline.pipeline),
            FrameCommand::BindSet {
                layout,
                index: 0,
                set: self.objects.frame_sets@[frame.frame_index as int],
            },
            FrameCommand::BindSet { layout, index: 1, set: self.objects.ibl_set },
            FrameCommand::PushPbr {
                layout,
                pbr: PbrPush {
                    model,
                    albedo_metallic: [
                        material.albedo@[0],
                        material.albedo@[1],
                        material.albedo@[2],
                        material.metallic,
                    ],
                    roughness: material.roughness,
                    debug_mode: material.debug_mode,
                    normal_space: material.normal_space,
                },
            },
        ] + mesh_commands(mesh)
    }

    /// Draws a mesh with a material of its own. Outside a frame nothing is recorded.
    pub fn draw_mesh_pbr<M, F: Copy>(
        &self,
        mesh: MeshBuffers,
        model: M,
        material: PbrMaterial<F>,
    ) -> (r: Vec<FrameCommand<M, F>>)
        requires
            self.wf(),
        ensures
            r@ == (match self.current {
                Some(frame) => self.pbr_commands(frame, mesh, model, material),
                None => Seq::empty(),
            }),
    {
        let mut list: Vec<FrameCommand<M, F>> = Vec::new();
        let frame = match self.current {
            Some(f) => f,
            None => return list,
        };
        let layout: u64 = self.objects.pbr_pipeline.layout;
        list.push(FrameCommand::BindPipeline(self.objects.pbr_pipeline.pipeline));
        list.push(
            FrameCommand::BindSet {
                layout,
                index: 0,
                set: self.objects.frame_sets[frame.frame_index],
            },
        );
        list.push(FrameCommand::BindSet { layout, index: 1, set: self.objects.ibl_set });
        list.push(
            FrameCommand::PushPbr {
                layout,
                pbr: PbrPush {
                    model,
                    albedo_metallic: [
                        material.albedo[0],
                        material.albedo[1],
                        material.albedo[2],
                        material.metallic,
                    ],
                    roughness: material.roughness,
                    debug_mode: material.debug_mode,
                    normal_space: material.normal_space,
                },
            },
        );
        draw_buffers(&mut list, mesh);
        assert(list@ =~= self.pbr_commands(frame, mesh, model, material));
        list
    }

    /// The commands of a whole scene: pipeline and sets once, then each item.
    pub open spec fn scene_commands<M, F>(
        &self,
        frame: FrameState,
        items: Seq<SceneDrawItem<M>>,
    ) -> Seq<FrameCommand<M, F>> {
        let layout = self.objects.bindless_pipeline.layout;
        seq![
            FrameCommand::BindPipeline(self.objects.bindless_pipeline.pipeline),
            FrameCommand::BindSet {
                layout,
                index: 0,
                set: self.objects.bindless_frame_sets@[frame.frame_index as int],
            },
            FrameCommand::BindSet { layout, index: 1, set: self.objects.table_set },
            FrameCommand::BindSet { layout, index: 2, set: self.objects.ibl_set },
        ] + scene_items_commands::<M, F>(items, layout, self.objects.ibl_handle, items.len())
    }

    /// Draws a whole scene. Nothing is recorded outside a frame, nor for no items.
    pub fn draw_scene_pbr<M: Copy, F>(&self, items: &Vec<SceneDrawItem<M>>) -> (r: Vec<
        FrameCommand<M, F>,
    >)
        requires
            self.wf(),
        ensures
            r@ == (match self.current {
                Some(frame) => if items@.len() == 0 {
                    Seq::empty()
                } else {
                    self.scene_commands::<M, F>(frame, items@)
                },
                None => Seq::empty(),
            }),
    {
        let mut list: Vec<FrameCommand<M, F>> = Vec::new();
        let frame = match self.current {
            Some(f) => f,
            None => return list,
        };
        if items.len() == 0 {
            return list;
        }
        let layout: u64 = self.objects.bindless_pipeline.layout;
        list.push(FrameCommand::BindPipeline(self.objects.bindless_pipeline.pipeline));
        list.push(
            FrameCommand::BindSet {
                layout,
                index: 0,
                set: self.objects.bindless_frame_sets[frame.frame_index],
            },
        );
        list.push(FrameCommand::BindSet { layout, index: 1, set: self.objects.table_set });
        list.push(FrameCommand::BindSet { layout, index: 2, set: self.objects.ibl_set });
        let ghost head = list@;
        let env_handle: u32 = self.objects.ibl_handle;
        let mut i: usize = 0;
        assert(list@ =~= head + scene_items_commands::<M, F>(items@, layout, env_handle, 0));
        while i < items.len()
            invariant
                i <= items.len(),
                list@ == head + scene_items_commands::<M, F>(
                    items@,
                    layout,
                    env_handle,
                    i as nat,
                ),
            decreases items.len() - i,
        {
            let ghost before = list@;
            if let Some(mesh) = items[i].mesh {
                list.push(
                    FrameCommand::PushBindless {
                        layout,
                        bindless: BindlessPush {
                            model: items[i].model,
                            material_slot: items[i].material_slot,
                            env_handle,
                            albedo_idx: NO_TEXTURE,
                            normal_idx: NO_TEXTURE,
                        },
                    },
                );
                draw_buffers(&mut list, mesh);
            }
            assert(list@ =~= before + scene_item_commands::<M, F>(
                items@[i as int],
                layout,
                env_handle,
            ));
            i = i + 1;
            assert(list@ =~= head + scene_items_commands::<M, F>(
                items@,
                layout,
                env_handle,
                i as nat,
            ));
        }
        assert(list@ =~= self.scene_commands::<M, F>(frame, items@));
        list
    }

    /// The frame in flight whose uniform buffer is written.
    pub fn set_frame_data(&self) -> (r: Result<usize, RendererError>)
        ensures
            r == (match self.current {
                Some(frame) => Ok::<usize, RendererError>(frame.frame_index),
                None => Err(RendererError::OutsideFrame),
            }),
    {
        match self.current {
            Some(frame) => Ok(frame.frame_index),
            None => Err(RendererError::OutsideFrame),
        }
    }

    /// How the picture is oriented.
    pub fn orientation(&self) -> (r: Orientation)
        ensures
            r == self.oriented(),
    {
        match self.swapchain {
            Some(sw) => orientation_of(Some(sw.state)),
            None => orientation_of(None),
        }
    }

    /// How the picture is oriented.
    pub open spec fn oriented(&self) -> Orientation {
        match self.swapchain {
            Some(sw) => oriented(sw.state.extent, sw.state.transform),
            None => oriented(no_extent(), SurfaceTransform::Identity),
        }
    }

    /// What the overlay is drawn with, where a frame is open.
    pub fn draw_overlay(&self, debug_mode: u32, normal_space: u32, show_ui: bool) -> (r: Option<
        OverlayDraw,
    >)
        ensures
            r == (match self.current {
                Some(frame) => Some(
                    OverlayDraw {
                        command_buffer: frame.command_buffer,
                        extent: self.size(),
                        orientation: self.oriented(),
                        debug_mode,
                        normal_space,
                        show_ui,
                    },
                ),
                None => None,
            }),
    {
        match self.current {
            Some(frame) => Some(
                OverlayDraw {
                    command_buffer: frame.command_buffer,
                    extent: self.extent(),
                    orientation: self.orientation(),
                    debug_mode,
                    normal_space,
                    show_ui,
                },
            ),
            None => None,
        }
    }

    /// What the overlay's buttons are tested against for a pointer at (`px`, `py`).
    pub fn hit_test_overlay(&self, px: u32, py: u32) -> (r: OverlayHit)
        ensures
            r == (OverlayHit { px, py, extent: self.size() }),
    {
        OverlayHit { px, py, extent: self.extent() }
    }

    /// The command buffer that the gizmo is drawn into, where a frame is open.
    pub fn draw_gizmo(&self) -> (r: Option<u64>)
        ensures
            r == (match self.current {
                Some(frame) => Some(frame.command_buffer),
                None => None,
            }),
    {
        match self.current {
            Some(frame) => Some(frame.command_buffer),
            None => None,
        }
    }

    /// Ends the frame: the render pass and the command buffer are ended, the commands
    /// are submitted, and the image is presented.
    pub fn end_frame(&mut self) -> (r: Result<EndPlan, RendererError>)
        requires
            old(self).wf(),
        ensures
            final(self).wf(),
            final(self).current is None,
            final(self).objects == old(self).objects,
            final(self).swapchain == old(self).swapchain,
            final(self).depth_images == old(self).depth_images,
            final(self).framebuffers == old(self).framebuffers,
            r == (match old(self).current {
                None => Err::<EndPlan, RendererError>(RendererError::OutsideFrame),
                Some(frame) => Ok(end_plan(frame, old(self).swapchain is Some)),
            }),
    {
        let frame = match self.current {
            Some(f) => f,
            None => return Err(RendererError::OutsideFrame),
        };
        self.current = None;
        let present = if self.swapchain.is_some() {
            PresentStep::SubmitAndPresent {
                fence: frame.fence,
                wait_for: frame.image_available,
                wait_stage: PipelineStage::ColorAttachmentOutput,
                signal: frame.render_finished,
                image_index: frame.image_index,
            }
        } else {
            PresentStep::SubmitAndFail {
                fence: frame.fence,
                wait_for: frame.image_available,
                wait_stage: PipelineStage::ColorAttachmentOutput,
                signal: frame.render_finished,
            }
        };
        Ok(EndPlan { command_buffer: frame.command_buffer, present })
    }

    /// What follows the presentation of a frame: an answer that the swapchain is out of
    /// date has it recreated. The answer is also what the frame comes to.
    pub fn presented(&self, out_of_date: bool) -> (r: Presented)
        ensures
            r == (if out_of_date {
                Presented::Recreate
            } else {
                Presented::Shown
            }),
    {
        if out_of_date {
            Presented::Recreate
        } else {
            Presented::Shown
        }
    }

    /// What is rebuilt once the swapchain was recreated. The depth images go first; the
    /// framebuffers stay until `rebuild_framebuffers`, and so where a new depth image
    /// cannot be made.
    pub fn rebuild_dependent_resources(&mut self) -> (r: Result<RebuildPlan, RendererError>)
        requires
            old(self).wf(),
        ensures
            final(self).wf(),
            final(self).objects == old(self).objects,
            final(self).swapchain == old(self).swapchain,
            final(self).current == old(self).current,
            final(self).framebuffers == old(self).framebuffers,
            match old(self).swapchain {
                Some(sw) => {
                    &&& r matches Ok(plan) && {
                        &&& plan.teardown@ == depth_teardown(old(self).depth_images@)
                        &&& plan.count == sw.state.image_count
                        &&& plan.extent == sw.state.extent
                    }
                    &&& final(self).depth_images@.len() == 0
                },
                None => {
                    &&& r matches Err(e) && e == RendererError::NoSwapchain
                    &&& final(self).depth_images == old(self).depth_images
                },
            },
    {
        let sw = match self.swapchain {
            Some(sw) => sw,
            None => return Err(RendererError::NoSwapchain),
        };
        let mut teardown: Vec<TeardownStep> = Vec::new();
        drain_depth_images(&mut teardown, &mut self.depth_images);
        assert(teardown@ =~= depth_teardown(old(self).depth_images@));
        Ok(RebuildPlan { teardown, count: sw.state.image_count, extent: sw.state.extent })
    }

    /// What is rebuilt after a swapchain was recreated, as it is now.
    pub fn recreate_swapchain(&mut self, recreated: AttachedSwapchain) -> (r: Result<
        RebuildPlan,
        RendererError,
    >)
        requires
            old(self).wf(),
        ensures
            final(self).wf(),
            final(self).objects == old(self).objects,
            final(self).current == old(self).current,
            final(self).framebuffers == old(self).framebuffers,
            match old(self).swapchain {
                Some(_) => {
                    &&& final(self).swapchain == Some(recreated)
                    &&& r matches Ok(plan) && {
                        &&& plan.teardown@ == depth_teardown(old(self).depth_images@)
                        &&& plan.count == recreated.state.image_count
                        &&& plan.extent == recreated.state.extent
                    }
                    &&& final(self).depth_images@.len() == 0
                },
                None => {
                    &&& final(self).swapchain is None
                    &&& r matches Err(e) && e == RendererError::NoSwapchain
                    &&& final(self).depth_images == old(self).depth_images
                },
            },
    {
        if self.swapchain.is_some() {
            self.swapchain = Some(recreated);
        }
        self.rebuild_dependent_resources()
    }

    /// Puts a new depth image in place, after those that were made before it.
    pub fn add_depth_image(&mut self, image: u64)
        requires
            old(self).wf(),
        ensures
            final(self).wf(),
            final(self).depth_images@ == old(self).depth_images@.push(image),
            final(self).framebuffers == old(self).framebuffers,
            final(self).objects == old(self).objects,
            final(self).swapchain == old(self).swapchain,
            final(self).current == old(self).current,
    {
        self.depth_images.push(image);
    }

    /// Gives up the framebuffers, once all depth images are in place.
    pub fn rebuild_framebuffers(&mut self) -> (r: Vec<TeardownStep>)
        requires
            old(self).wf(),
        ensures
            final(self).wf(),
            r@ == framebuffer_teardown(old(self).framebuffers@),
            final(self).framebuffers@.len() == 0,
            final(self).depth_images == old(self).depth_images,
            final(self).objects == old(self).objects,
            final(self).swapchain == old(self).swapchain,
            final(self).current == old(self).current,
    {
        let mut steps: Vec<TeardownStep> = Vec::new();
        drain_framebuffers(&mut steps, &mut self.framebuffers);
        assert(steps@ =~= framebuffer_teardown(old(self).framebuffers@));
        steps
    }

    /// Puts new framebuffers in place.
    pub fn put_framebuffers(&mut self, framebuffers: Vec<u64>)
        requires
            old(self).wf(),
        ensures
            final(self).wf(),
            final(self).framebuffers == framebuffers,
            final(self).depth_images == old(self).depth_images,
            final(self).objects == old(self).objects,
            final(self).swapchain == old(self).swapchain,
            final(self).current == old(self).current,
    {
        self.framebuffers = framebuffers;
    }

    /// Tears down what depends on the surface, and drops an open frame. Everything that
    /// belongs to the device stays.
    pub fn suspend_surface(&mut self) -> (r: Vec<TeardownStep>)
        requires
            old(self).wf(),
        ensures
            final(self).wf(),
            r@ == surface_teardown(
                old(self).depth_images@,
                old(self).framebuffers@,
                old(self).swapchain is Some,
            ),
            final(self).current is None,
            final(self).swapchain is None,
            final(self).depth_images@.len() == 0,
            final(self).framebuffers@.len() == 0,
            final(self).objects == old(self).objects,
    {
        let mut steps: Vec<TeardownStep> = Vec::new();
        steps.push(TeardownStep::WaitIdle);
        self.current = None;
        drain_targets(&mut steps, &mut self.depth_images, &mut self.framebuffers);
        if self.swapchain.is_some() {
            steps.push(TeardownStep::Swapchain);
            self.swapchain = None;
        }
        assert(steps@ =~= seq![TeardownStep::WaitIdle] + depth_teardown(old(self).depth_images@)
            + framebuffer_teardown(old(self).framebuffers@) + (if old(self).swapchain is Some {
            seq![TeardownStep::Swapchain]
        } else {
            Seq::empty()
        }));
        steps
    }

    /// Attaches what was built for a new surface, and says whether the new swapchain has
    /// another format than the render pass was built for. Where a swapchain is attached
    /// already, nothing changes.
    pub fn resume_surface(
        &mut self,
        swapchain: AttachedSwapchain,
        depth_images: Vec<u64>,
        framebuffers: Vec<u64>,
    ) -> (format_changed: bool)
        requires
            old(self).wf(),
        ensures
            final(self).wf(),
            final(self).objects == old(self).objects,
            final(self).current == old(self).current,
            old(self).swapchain is Some ==> {
                &&& !format_changed
                &&& final(self).swapchain == old(self).swapchain
                &&& final(self).depth_images == old(self).depth_images
                &&& final(self).framebuffers == old(self).framebuffers
            },
            old(self).swapchain is None ==> {
                &&& format_changed == (swapchain.format != old(self).objects.color_format)
                &&& final(self).swapchain == Some(swapchain)
                &&& final(self).depth_images == depth_images
                &&& final(self).framebuffers == framebuffers
            },
    {
        if self.swapchain.is_some() {
            return false;
        }
        let format_changed: bool = swapchain.format != self.objects.color_format;
        self.depth_images = depth_images;
        self.framebuffers = framebuffers;
        self.swapchain = Some(swapchain);
        format_changed
    }

    /// What is torn down when the renderer goes away, in order.
    pub fn release(&mut self) -> (r: Vec<TeardownStep>)
        requires
            old(self).wf(),
        ensures
            final(self).wf(),
            r@ == whole_teardown(
                old(self).depth_images@,
                old(self).framebuffers@,
                old(self).swapchain is Some,
            ),
            final(self).swapchain is None,
            final(self).depth_images@.len() == 0,
            final(self).framebuffers@.len() == 0,
    {
        let mut steps: Vec<TeardownStep> = Vec::new();
        steps.push(TeardownStep::WaitIdle);
        steps.push(TeardownStep::Managers);
        drain_targets(&mut steps, &mut self.depth_images, &mut self.framebuffers);
        steps.push(TeardownStep::ShaderModules);
        steps.push(TeardownStep::CommandPool);
        if self.swapchain.is_some() {
            steps.push(TeardownStep::Swapchain);
            self.swapchain = None;
        }
        assert(steps@ =~= seq![TeardownStep::WaitIdle, TeardownStep::Managers] + depth_teardown(
            old(self).depth_images@,
        ) + framebuffer_teardown(old(self).framebuffers@) + seq![
            TeardownStep::ShaderModules,
            TeardownStep::CommandPool,
        ] + (if old(self).swapchain is Some {
            seq![TeardownStep::Swapchain]
        } else {
            Seq::empty()
        }));
        steps
    }
}

// ---------------------------------------------------------------------------
// Laws
// ---------------------------------------------------------------------------

/// Number of draws in a list of commands.
pub open spec fn draw_count<M, F>(list: Seq<FrameCommand<M, F>>) -> nat
    decreases list.len(),
{
    if list.len() == 0 {
        0
    } else {
        draw_count(list.drop_last()) + if list.last() is Draw || list.last() is DrawIndexed {
            1nat
        } else {
            0nat
        }
    }
}

/// Number of items whose mesh is uploaded, among the first `n`.
pub open spec fn uploaded<M>(items: Seq<SceneDrawItem<M>>, n: nat) -> nat
    decreases n,
{
    if n == 0 {
        0
    } else {
        uploaded(items, (n - 1) as nat) + if items[n - 1].mesh is Some {
            1nat
        } else {
            0nat
        }
    }
}

proof fn lemma_draw_count_add<M, F>(a: Seq<FrameCommand<M, F>>, b: Seq<FrameCommand<M, F>>)
    ensures
        draw_count(a + b) == draw_count(a) + draw_count(b),
    decreases b.len(),
{
    if b.len() == 0 {
        assert(a + b =~= a);
    } else {
        lemma_draw_count_add(a, b.drop_last());
        assert((a + b).drop_last() =~= a + b.drop_last());
    }
}

proof fn lemma_mesh_draws_once<M, F>(mesh: MeshBuffers)
    ensures
        draw_count(mesh_commands::<M, F>(mesh)) == 1,
{
    let c = mesh_commands::<M, F>(mesh);
    reveal_with_fuel(draw_count, 4);
    match mesh.index_buffer {
        Some(_) => {
            assert(c.drop_last() =~= seq![c[0], c[1]]);
            assert(c.drop_last().drop_last() =~= seq![c[0]]);
            assert(c.drop_last().drop_last().drop_last() =~= Seq::empty());
        },
        None => {
            assert(c.drop_last() =~= seq![c[0]]);
            assert(c.drop_last().drop_last() =~= Seq::empty());
        },
    }
}

proof fn lemma_items_draws<M, F>(
    items: Seq<SceneDrawItem<M>>,
    layout: u64,
    env_handle: u32,
    n: nat,
)
    requires
        n <= items.len(),
    ensures
        draw_count(scene_items_commands::<M, F>(items, layout, env_handle, n)) == uploaded(
            items,
            n,
        ),
    decreases n,
{
    if n > 0 {
        lemma_items_draws::<M, F>(items, layout, env_handle, (n - 1) as nat);
        let before = scene_items_commands::<M, F>(items, layout, env_handle, (n - 1) as nat);
        let last = scene_item_commands::<M, F>(items[n - 1], layout, env_handle);
        lemma_draw_count_add(before, last);
        match items[n - 1].mesh {
            Some(mesh) => {
                let body = mesh_commands::<M, F>(mesh);
                let push = last.take(1);
                assert(last =~= push + body);
                lemma_draw_count_add(push, body);
                lemma_mesh_draws_once::<M, F>(mesh);
                reveal_with_fuel(draw_count, 2);
                assert(push.drop_last() =~= Seq::empty());
            },
            None => {},
        }
    }
}

/// Drawing a scene draws each uploaded item exactly once, and nothing else.
pub proof fn every_uploaded_item_is_drawn_once<M, F>(
    r: Renderer,
    frame: FrameState,
    items: Seq<SceneDrawItem<M>>,
)
    ensures
        draw_count(r.scene_commands::<M, F>(frame, items)) == uploaded(items, items.len()),
{
    let layout = r.objects.bindless_pipeline.layout;
    let all = r.scene_commands::<M, F>(frame, items);
    let body = scene_items_commands::<M, F>(items, layout, r.objects.ibl_handle, items.len());
    let head = all.take(4);
    assert(all =~= head + body);
    lemma_draw_count_add(head, body);
    lemma_items_draws::<M, F>(items, layout, r.objects.ibl_handle, items.len());
    reveal_with_fuel(draw_count, 5);
    assert(head.drop_last() =~= all.take(3));
    assert(all.take(3).drop_last() =~= all.take(2));
    assert(all.take(2).drop_last() =~= all.take(1));
    assert(all.take(1).drop_last() =~= Seq::empty());
}

/// Every binding of every frame's combined set is written, with the frame's own uniform
/// buffer and with the materials.
pub proof fn every_combined_set_is_written(
    sets: Seq<u64>,
    ubos: Seq<u64>,
    materials: u64,
    n: nat,
    i: int,
)
    requires
        0 <= i < n <= sets.len(),
        n <= ubos.len(),
    ensures
        all_combined_writes(sets, ubos, materials, n).len() == 2 * n,
        all_combined_writes(sets, ubos, materials, n)[2 * i] == combined_writes(
            sets[i],
            ubos[i],
            materials,
        )[0],
        all_combined_writes(sets, ubos, materials, n)[2 * i + 1] == combined_writes(
            sets[i],
            ubos[i],
            materials,
        )[1],
    decreases n,
{
    lemma_combined_len(sets, ubos, materials, (n - 1) as nat);
    if i < n - 1 {
        every_combined_set_is_written(sets, ubos, materials, (n - 1) as nat, i);
    }
}

proof fn lemma_combined_len(sets: Seq<u64>, ubos: Seq<u64>, materials: u64, n: nat)
    ensures
        all_combined_writes(sets, ubos, materials, n).len() == 2 * n,
    decreases n,
{
    if n > 0 {
        lemma_combined_len(sets, ubos, materials, (n - 1) as nat);
    }
}

/// What draws are made with at some point of a frame.
pub ghost struct SceneBound<M, F> {
    pub pipeline: u64,
    pub vertex_buffer: u64,
    pub index_buffer: u64,
    pub bindless: Option<BindlessPush<M>>,
    pub pbr: Option<PbrPush<M, F>>,
}

/// One draw, as the device makes it.
pub ghost struct SceneDrawn<M, F> {
    pub bound: SceneBound<M, F>,
    /// Vertices are fetched through the bound indices.
    pub indexed: bool,
    pub count: u32,
}

/// What draws are made with after the commands of a list.
pub open spec fn bound_after<M, F>(list: Seq<FrameCommand<M, F>>, start: SceneBound<M, F>) -> SceneBound<
    M,
    F,
>
    decreases list.len(),
{
    if list.len() == 0 {
        start
    } else {
        let before = bound_after(list.drop_last(), start);
        match list.last() {
            FrameCommand::BindPipeline(pipeline) => SceneBound { pipeline, ..before },
            FrameCommand::BindVertexBuffer(b) => SceneBound { vertex_buffer: b, ..before },
            FrameCommand::BindIndexBuffer(b) => SceneBound { index_buffer: b, ..before },
            FrameCommand::PushBindless { bindless, .. } => SceneBound {
                bindless: Some(bindless),
                ..before
            },
            FrameCommand::PushPbr { pbr, .. } => SceneBound { pbr: Some(pbr), ..before },
            _ => before,
        }
    }
}

/// The draws of a list of commands.
pub open spec fn draws_of<M, F>(list: Seq<FrameCommand<M, F>>, start: SceneBound<M, F>) -> Seq<
    SceneDrawn<M, F>,
>
    decreases list.len(),
{
    if list.len() == 0 {
        Seq::empty()
    } else {
        let before = draws_of(list.drop_last(), start);
        let bound = bound_after(list.drop_last(), start);
        match list.last() {
            FrameCommand::Draw(count) => before.push(SceneDrawn { bound, indexed: false, count }),
            FrameCommand::DrawIndexed(count) => before.push(
                SceneDrawn { bound, indexed: true, count },
            ),
            _ => before,
        }
    }
}

proof fn lemma_draws_concat<M, F>(
    a: Seq<FrameCommand<M, F>>,
    b: Seq<FrameCommand<M, F>>,
    start: SceneBound<M, F>,
)
    ensures
        bound_after(a + b, start) == bound_after(b, bound_after(a, start)),
        draws_of(a + b, start) == draws_of(a, start) + draws_of(b, bound_after(a, start)),
    decreases b.len(),
{
    if b.len() == 0 {
        assert(a + b =~= a);
        assert(draws_of(a, start) + draws_of(b, bound_after(a, start)) =~= draws_of(a, start));
    } else {
        lemma_draws_concat(a, b.drop_last(), start);
        assert((a + b).drop_last() =~= a + b.drop_last());
        assert(draws_of(a + b, start) =~= draws_of(a, start) + draws_of(b, bound_after(a, start)));
    }
}

/// The draw is one of the whole mesh, through its indices where it has any.
pub open spec fn draws_mesh<M, F>(d: SceneDrawn<M, F>, mesh: MeshBuffers) -> bool {
    &&& d.bound.vertex_buffer == mesh.vertex_buffer
    &&& match mesh.index_buffer {
        Some(indices) => d.indexed && d.bound.index_buffer == indices && d.count
            == mesh.index_count,
        None => !d.indexed && d.count == mesh.vertex_count,
    }
}

/// The commands of a mesh draw it once, all of it, with whatever is bound besides.
pub proof fn mesh_is_drawn_whole<M, F>(mesh: MeshBuffers, start: SceneBound<M, F>)
    ensures
        ({
            let draws = draws_of(mesh_commands::<M, F>(mesh), start);
            let after = bound_after(mesh_commands::<M, F>(mesh), start);
            &&& draws.len() == 1
            &&& draws_mesh(draws[0], mesh)
            &&& draws[0].bound.pipeline == start.pipeline
            &&& draws[0].bound.bindless == start.bindless
            &&& draws[0].bound.pbr == start.pbr
            &&& after.pipeline == start.pipeline
        }),
{
    let list = mesh_commands::<M, F>(mesh);
    reveal_with_fuel(draws_of, 4);
    reveal_with_fuel(bound_after, 4);
    match mesh.index_buffer {
        Some(_) => {
            assert(list.drop_last() =~= list.take(2));
            assert(list.take(2).drop_last() =~= list.take(1));
        },
        None => {
            assert(list.drop_last() =~= list.take(1));
        },
    }
    assert(list.take(1).drop_last() =~= Seq::empty());
}

/// Places of the items whose mesh is uploaded, among the first `n`.
pub open spec fn uploaded_places<M>(items: Seq<SceneDrawItem<M>>, n: nat) -> Seq<int>
    decreases n,
{
    if n == 0 {
        Seq::empty()
    } else if items[n - 1].mesh is Some {
        uploaded_places(items, (n - 1) as nat).push(n - 1)
    } else {
        uploaded_places(items, (n - 1) as nat)
    }
}

/// The draw is that of the item: its mesh, in its place and with its material, with the
/// environment as its table entry says, and without textures of its own.
pub open spec fn draws_item<M, F>(
    d: SceneDrawn<M, F>,
    item: SceneDrawItem<M>,
    env_handle: u32,
) -> bool {
    &&& item.mesh matches Some(mesh) && draws_mesh(d, mesh)
    &&& d.bound.bindless == Some(
        BindlessPush {
            model: item.model,
            material_slot: item.material_slot,
            env_handle,
            albedo_idx: u32::MAX,
            normal_idx: u32::MAX,
        },
    )
}

/// The draws of a scene's items are the items whose mesh is uploaded, in order, each with
/// its own mesh, place and material.
pub proof fn items_are_drawn_as_they_are<M, F>(
    items: Seq<SceneDrawItem<M>>,
    layout: u64,
    env_handle: u32,
    n: nat,
    start: SceneBound<M, F>,
)
    requires
        n <= items.len(),
    ensures
        ({
            let list = scene_items_commands::<M, F>(items, layout, env_handle, n);
            let draws = draws_of(list, start);
            let places = uploaded_places(items, n);
            &&& draws.len() == places.len()
            &&& forall|k: int|
                0 <= k < draws.len() ==> draws_item(
                    #[trigger] draws[k],
                    items[places[k]],
                    env_handle,
                ) && draws[k].bound.pipeline == start.pipeline
            &&& bound_after(list, start).pipeline == start.pipeline
        }),
    decreases n,
{
    if n > 0 {
        let before = scene_items_commands::<M, F>(items, layout, env_handle, (n - 1) as nat);
        let item = items[n - 1];
        let last = scene_item_commands::<M, F>(item, layout, env_handle);
        items_are_drawn_as_they_are(items, layout, env_handle, (n - 1) as nat, start);
        lemma_draws_concat(before, last, start);
        let mid = bound_after(before, start);
        match item.mesh {
            Some(mesh) => {
                let push = last.take(1);
                let body = mesh_commands::<M, F>(mesh);
                assert(last =~= push + body);
                lemma_draws_concat(push, body, mid);
                reveal_with_fuel(draws_of, 2);
                reveal_with_fuel(bound_after, 2);
                assert(push.drop_last() =~= Seq::empty());
                mesh_is_drawn_whole(mesh, bound_after(push, mid));
                let draws = draws_of(last, mid);
                assert(draws =~= draws_of(body, bound_after(push, mid)));
                assert(draws_item(draws[0], item, env_handle));
                let all = draws_of(before + last, start);
                let old_draws = draws_of(before, start);
                let places = uploaded_places(items, n);
                assert forall|k: int| 0 <= k < all.len() implies draws_item(
                    #[trigger] all[k],
                    items[places[k]],
                    env_handle,
                ) && all[k].bound.pipeline == start.pipeline by {
                    if k < old_draws.len() {
                        assert(all[k] == old_draws[k]);
                    } else {
                        assert(all[k] == draws[0]);
                    }
                }
            },
            None => {
                assert(before + last =~= before);
            },
        }
    }
}

/// Drawing a scene draws its items with the bindless pipeline.
pub proof fn scene_is_drawn_with_its_pipeline<M, F>(
    r: Renderer,
    frame: FrameState,
    items: Seq<SceneDrawItem<M>>,
    start: SceneBound<M, F>,
)
    ensures
        ({
            let draws = draws_of(r.scene_commands::<M, F>(frame, items), start);
            let places = uploaded_places(items, items.len());
            &&& draws.len() == places.len()
            &&& forall|k: int|
                0 <= k < draws.len() ==> draws_item(
                    #[trigger] draws[k],
                    items[places[k]],
                    r.objects.ibl_handle,
                ) && draws[k].bound.pipeline == r.objects.bindless_pipeline.pipeline
        }),
{
    let layout = r.objects.bindless_pipeline.layout;
    let all = r.scene_commands::<M, F>(frame, items);
    let body = scene_items_commands::<M, F>(items, layout, r.objects.ibl_handle, items.len());
    let head = all.take(4);
    assert(all =~= head + body);
    lemma_draws_concat(head, body, start);
    reveal_with_fuel(draws_of, 5);
    reveal_with_fuel(bound_after, 5);
    assert(head.drop_last() =~= all.take(3));
    assert(all.take(3).drop_last() =~= all.take(2));
    assert(all.take(2).drop_last() =~= all.take(1));
    assert(all.take(1).drop_last() =~= Seq::empty());
    items_are_drawn_as_they_are(
        items,
        layout,
        r.objects.ibl_handle,
        items.len(),
        bound_after(head, start),
    );
    assert(draws_of(all, start) =~= draws_of(body, bound_after(head, start)));
}

/// A mesh with a material of its own is drawn once, whole, with the pipeline for materials
/// and with that material, in its place.
pub proof fn mesh_is_drawn_with_its_material<M, F>(
    r: Renderer,
    frame: FrameState,
    mesh: MeshBuffers,
    model: M,
    material: PbrMaterial<F>,
    start: SceneBound<M, F>,
)
    ensures
        ({
            let draws = draws_of(r.pbr_commands(frame, mesh, model, material), start);
            &&& draws.len() == 1
            &&& draws_mesh(draws[0], mesh)
            &&& draws[0].bound.pipeline == r.objects.pbr_pipeline.pipeline
            &&& draws[0].bound.pbr matches Some(pbr) && {
                &&& pbr.model == model
                &&& pbr.albedo_metallic@[0] == material.albedo@[0]
                &&& pbr.albedo_metallic@[1] == material.albedo@[1]
                &&& pbr.albedo_metallic@[2] == material.albedo@[2]
                &&& pbr.albedo_metallic@[3] == material.metallic
                &&& pbr.roughness == material.roughness
                &&& pbr.debug_mode == material.debug_mode
                &&& pbr.normal_space == material.normal_space
            }
        }),
{
    let all = r.pbr_commands(frame, mesh, model, material);
    let head = all.take(4);
    let body = mesh_commands::<M, F>(mesh);
    assert(all =~= head + body);
    lemma_draws_concat(head, body, start);
    reveal_with_fuel(draws_of, 5);
    reveal_with_fuel(bound_after, 5);
    assert(head.drop_last() =~= all.take(3));
    assert(all.take(3).drop_last() =~= all.take(2));
    assert(all.take(2).drop_last() =~= all.take(1));
    assert(all.take(1).drop_last() =~= Seq::empty());
    mesh_is_drawn_whole(mesh, bound_after(head, start));
    assert(draws_of(all, start) =~= draws_of(body, bound_after(head, start)));
}

/// A frame is opened on the image that was acquired: its framebuffer, over the whole of it,
/// cleared to the given color, with the command buffer and the set of its frame in flight.
pub proof fn frame_opens_on_its_image<M, F>(r: Renderer, a: Acquired, clear_color: ClearColor)
    ensures
        ({
            let list = r.opening::<M, F>(a, clear_color);
            let frame = r.opened(a);
            &&& list[0] matches FrameCommand::BeginRenderPass {
                render_pass,
                framebuffer,
                extent,
                color,
                depth,
            } && {
                &&& render_pass == r.objects.render_pass
                &&& framebuffer == r.framebuffers@[a.image_index as int]
                &&& r.swapchain matches Some(sw) ==> extent == sw.state.extent
                &&& color == clear_color
                &&& depth.depth == FLOAT_ONE
            }
            &&& list.contains(
                FrameCommand::<M, F>::BindSet {
                    layout: r.objects.pipeline.layout,
                    index: 0,
                    set: r.objects.frame_sets@[a.frame as int],
                },
            )
            &&& list.contains(FrameCommand::<M, F>::BindPipeline(r.objects.pipeline.pipeline))
            &&& frame.command_buffer == r.objects.command_buffers@[a.frame as int]
            &&& frame.image_index == a.image_index
            &&& frame.image_available == a.image_available
            &&& frame.render_finished == a.render_finished
            &&& frame.fence == a.fence
        }),
{
    let list = r.opening::<M, F>(a, clear_color);
    assert(list[3] == FrameCommand::<M, F>::BindPipeline(r.objects.pipeline.pipeline));
    assert(list[4] == FrameCommand::<M, F>::BindSet {
        layout: r.objects.pipeline.layout,
        index: 0,
        set: r.objects.frame_sets@[a.frame as int],
    });
}

/// A combined set reads the frame's own uniform buffer at binding 0 and the materials at
/// binding 1.
pub proof fn combined_set_reads_its_own_buffers(
    sets: Seq<u64>,
    ubos: Seq<u64>,
    materials: u64,
    n: nat,
    i: int,
)
    requires
        0 <= i < n <= sets.len(),
        n <= ubos.len(),
    ensures
        ({
            let writes = all_combined_writes(sets, ubos, materials, n);
            &&& writes[2 * i].set == sets[i] && writes[2 * i].binding == 0
            &&& writes[2 * i].source == (DescriptorSource::Buffer {
                buffer: ubos[i],
                range: BufferRange::Bytes(272),
            })
            &&& writes[2 * i + 1].set == sets[i] && writes[2 * i + 1].binding == 1
            &&& writes[2 * i + 1].source == (DescriptorSource::Buffer {
                buffer: materials,
                range: BufferRange::Whole,
            })
        }),
{
    every_combined_set_is_written(sets, ubos, materials, n, i);
}

/// The renderer is created for its swapchain: a depth image and a framebuffer for each of
/// its images, of its size, and a render pass of its format.
pub proof fn renderer_is_made_for_its_swapchain(sw: SwapchainImages, i: int)
    requires
        0 <= i < creation(sw).len(),
    ensures
        match creation(sw)[i] {
            CreateStep::DepthImages { count, extent } => count == sw.count && extent == sw.extent,
            CreateStep::Framebuffers { count, extent } => count == sw.count && extent == sw.extent,
            CreateStep::RenderPass { color, depth } => color == sw.format && depth
                == AttachmentFormat::Depth32Float,
            CreateStep::FramePool { frames } => frames == 2,
            CreateStep::FrameSets { frames } => frames == 2,
            CreateStep::FrameUbos { frames } => frames == 2,
            CreateStep::CommandBuffers { frames } => frames == 2,
            _ => true,
        },
{
}

/// A frame ends on what it began with: its own command buffer is submitted, after the
/// image that was acquired is free and with the fence that the next use of the frame
/// waits for, and that image is presented once the rendering is finished.
pub proof fn frame_ends_on_what_it_began_with(r: Renderer, a: Acquired)
    ensures
        ({
            let plan = end_plan(r.opened(a), true);
            &&& plan.command_buffer == r.objects.command_buffers@[a.frame as int]
            &&& plan.present matches PresentStep::SubmitAndPresent {
                fence,
                wait_for,
                wait_stage,
                signal,
                image_index,
            } && {
                &&& fence == a.fence
                &&& wait_for == a.image_available
                &&& wait_stage == PipelineStage::ColorAttachmentOutput
                &&& signal == a.render_finished
                &&& image_index == a.image_index
            }
        }),
        ({
            let plan = end_plan(r.opened(a), false);
            &&& plan.command_buffer == r.objects.command_buffers@[a.frame as int]
            &&& plan.present matches PresentStep::SubmitAndFail {
                fence,
                wait_for,
                wait_stage,
                signal,
            } && {
                &&& fence == a.fence
                &&& wait_for == a.image_available
                &&& wait_stage == PipelineStage::ColorAttachmentOutput
                &&& signal == a.render_finished
            }
        }),
{
}

/// Each depth image and each framebuffer is torn down, and nothing that is not there; the
/// device is idle by then, and the swapchain goes last, where there is one.
pub proof fn every_target_is_torn_down(
    depth_images: Seq<u64>,
    framebuffers: Seq<u64>,
    attached: bool,
    handle: u64,
)
    ensures
        ({
            let steps = surface_teardown(depth_images, framebuffers, attached);
            &&& steps[0] == TeardownStep::WaitIdle
            &&& steps.contains(TeardownStep::DepthImage(handle)) <==> depth_images.contains(handle)
            &&& steps.contains(TeardownStep::Framebuffer(handle)) <==> framebuffers.contains(handle)
            &&& steps.contains(TeardownStep::Swapchain) <==> attached
            &&& attached ==> steps.last() == TeardownStep::Swapchain
            &&& !steps.contains(TeardownStep::Managers)
            &&& !steps.contains(TeardownStep::CommandPool)
            &&& steps.len() == 1 + depth_images.len() + framebuffers.len() + (if attached {
                1int
            } else {
                0
            })
        }),
        ({
            let steps = whole_teardown(depth_images, framebuffers, attached);
            &&& steps[0] == TeardownStep::WaitIdle
            &&& steps.contains(TeardownStep::Managers)
            &&& steps.contains(TeardownStep::ShaderModules)
            &&& steps.contains(TeardownStep::CommandPool)
            &&& steps.contains(TeardownStep::DepthImage(handle)) <==> depth_images.contains(handle)
            &&& steps.contains(TeardownStep::Framebuffer(handle)) <==> framebuffers.contains(handle)
            &&& steps.contains(TeardownStep::Swapchain) <==> attached
            &&& attached ==> steps.last() == TeardownStep::Swapchain
            &&& steps.len() == 4 + depth_images.len() + framebuffers.len() + (if attached {
                1int
            } else {
                0
            })
        }),
{
    let d = depth_images.len() as int;
    let f = framebuffers.len() as int;
    let part = surface_teardown(depth_images, framebuffers, attached);
    let whole = whole_teardown(depth_images, framebuffers, attached);
    if depth_images.contains(handle) {
        let i = choose|i: int| 0 <= i < d && depth_images[i] == handle;
        assert(part[1 + i] == TeardownStep::DepthImage(handle));
        assert(whole[2 + i] == TeardownStep::DepthImage(handle));
    }
    if framebuffers.contains(handle) {
        let i = choose|i: int| 0 <= i < f && framebuffers[i] == handle;
        assert(part[1 + d + i] == TeardownStep::Framebuffer(handle));
        assert(whole[2 + d + i] == TeardownStep::Framebuffer(handle));
    }
    if part.contains(TeardownStep::DepthImage(handle)) {
        let k = choose|k: int| 0 <= k < part.len() && part[k] == TeardownStep::DepthImage(handle);
        assert(depth_images[k - 1] == handle);
    }
    if part.contains(TeardownStep::Framebuffer(handle)) {
        let k = choose|k: int| 0 <= k < part.len() && part[k] == TeardownStep::Framebuffer(handle);
        assert(framebuffers[k - 1 - d] == handle);
    }
    if whole.contains(TeardownStep::DepthImage(handle)) {
        let k = choose|k: int| 0 <= k < whole.len() && whole[k] == TeardownStep::DepthImage(handle);
        assert(depth_images[k - 2] == handle);
    }
    if whole.contains(TeardownStep::Framebuffer(handle)) {
        let k = choose|k: int|
            0 <= k < whole.len() && whole[k] == TeardownStep::Framebuffer(handle);
        assert(framebuffers[k - 2 - d] == handle);
    }
    assert(whole[1] == TeardownStep::Managers);
    assert(whole[2 + d + f] == TeardownStep::ShaderModules);
    assert(whole[3 + d + f] == TeardownStep::CommandPool);
    if attached {
        assert(part[1 + d + f] == TeardownStep::Swapchain);
        assert(whole[4 + d + f] == TeardownStep::Swapchain);
    }
}

/// Every pipeline has the frame's set first, and the sets behind it where they are bound;
/// what both pipelines with materials push reaches the fragments, and each has room for a
/// matrix.
pub proof fn pipelines_have_their_sets(layouts: RendererLayouts, plans: PipelinePlans)
    requires
        planned_for(layouts, plans),
    ensures
        plans.mesh.set_layouts@.len() == 1,
        plans.pbr.set_layouts@.len() == 2,
        plans.bindless.set_layouts@.len() == 3,
        plans.mesh.set_layouts@[0] == layouts.frame,
        plans.pbr.set_layouts@[0] == layouts.frame,
        plans.pbr.set_layouts@[1] == layouts.ibl,
        plans.bindless.set_layouts@[0] == layouts.combined,
        plans.bindless.set_layouts@[1] == layouts.table,
        plans.bindless.set_layouts@[2] == layouts.ibl,
        plans.pbr.push_in_fragment && plans.bindless.push_in_fragment,
        !plans.mesh.push_in_fragment,
        plans.mesh.push_size == MATRIX_SIZE,
        plans.pbr.push_size == MATRIX_SIZE + 28,
        plans.bindless.push_size == MATRIX_SIZE + 32,
{
}

} // verus!
