//! Drawing a frame: what has to be created before the commands can be recorded, step by
//! step.
//!
//! The caller carries out each step and says how it went. An object that was created is
//! given by its handle.

use vstd::prelude::*;

use crate::descriptor::{DescriptorKind, DescriptorSource, DescriptorWrite, GpuLight, LIGHT_MAX};
use crate::forward_pass::commands::{
    drawn_as, draws_of, frame_commands, frame_draws_its_items, plan_frame, uploaded, Bound,
    DrawCommand, DrawItem, FrameOptions,
};
use crate::forward_pass::outputs::{attachments, scene_attachments, Attachment};
use crate::forward_pass::pass::{light_buffer_words, ForwardPass, ScenePipeline};
use crate::forward_pass::resources::{ao_write, ForwardError, SceneResources};
use crate::forward_pass::targets::{published, slot_at, TargetStep};
use crate::gpu::{
    AttachedImage, AttachmentFormat, Blend, ClearColor, Extent2D, ImageLayout, Release,
};

verus! {

/// Bytes of the constants that the scene's pipeline reserves.
pub const SCENE_PUSH_SIZE: u32 = 128;

/// Where the drawing of a frame stands: what it does next, or what it waits for.
#[derive(Clone, Copy, Debug, PartialEq, Eq, Structural)]
pub enum FramePhase {
    /// Look whether there is anything to draw to.
    Begin,
    /// The render pass is being created, before the targets.
    RenderPass,
    /// The gizmo is being created, before the targets.
    Gizmo,
    /// Look for the targets of the image.
    Target,
    ColorImage,
    DepthImage,
    NormalImage,
    Framebuffer,
    /// Bind the ambient occlusion.
    Occlusion,
    /// Fill the light buffer.
    Lights,
    /// Look for the render pass.
    LateBegin,
    LateRenderPass,
    LateGizmo,
    /// Look for the pipeline.
    Pipeline,
    /// The pipeline is being created.
    PipelineCreated,
    /// Record the commands.
    Commands,
    /// Publish what was drawn.
    Publish,
    Finished,
    Failed,
}

/// The frame that is being drawn.
#[derive(Clone, Copy, Debug, PartialEq, Eq, Structural)]
pub struct FrameRun {
    pub phase: FramePhase,
    pub image_index: u32,
    pub frame_index: u32,
    pub extent: Extent2D,
    /// Nothing is drawn: the frame only creates what drawing needs.
    pub warm_up: bool,
}

/// What a frame draws.
pub struct FrameInput<M> {
    pub items: Vec<DrawItem<M>>,
    pub lights: Vec<GpuLight>,
    /// The ambient occlusion of the frame before; null where there is none.
    pub ao_view: u64,
    pub clear_color: ClearColor,
    pub view_proj: M,
    /// The inverse of the view's rotation.
    pub inv_view_rot: M,
    pub has_camera: bool,
    pub debug_flags: u32,
}

/// How a step went.
#[derive(Clone, Copy, Debug, PartialEq, Eq, Structural)]
pub enum FrameOutcome {
    Done,
    Object(u64),
    Image(AttachedImage),
    Pipeline(ScenePipeline),
    Failed,
}

/// Why a frame is not drawn.
#[derive(Clone, Copy, Debug, PartialEq, Eq, Structural)]
pub enum FrameFailure {
    /// A step failed.
    Device,
    /// Something that drawing needs is missing.
    Missing(ForwardError),
}

/// What is done next.
pub enum FrameStep<M> {
    /// Nothing; go on.
    Continue,
    CreateRenderPass([Attachment; 3]),
    CreateGizmo { render_pass: u64 },
    /// Destroy what is given, then create the image.
    CreateColor { release: Vec<Release>, extent: Extent2D, format: AttachmentFormat },
    CreateDepth { release: Vec<Release>, extent: Extent2D, format: AttachmentFormat },
    CreateNormal { release: Vec<Release>, extent: Extent2D, format: AttachmentFormat },
    /// Destroy what is given, then create the framebuffer over these views.
    CreateFramebuffer {
        release: Vec<Release>,
        render_pass: u64,
        views: [u64; 3],
        extent: Extent2D,
    },
    WriteSet(DescriptorWrite),
    /// Fill the light buffer.
    WriteLights { memory: u64, words: Vec<u32> },
    /// Create the pipeline over these set layouts. Color and normals are blended as given.
    CreatePipeline { render_pass: u64, layouts: [u64; 6], push_size: u32, blends: [Blend; 2] },
    Record(Vec<DrawCommand<M>>),
    /// Nothing: the frame is drawn, and its color, depth and normals are these.
    Finished([Option<AttachedImage>; 3]),
    Failed(FrameFailure),
}

/// The outcome is one that the phase can have.
pub open spec fn frame_fits(phase: FramePhase, outcome: FrameOutcome) -> bool {
    match outcome {
        FrameOutcome::Failed => true,
        FrameOutcome::Object(_) => match phase {
            FramePhase::RenderPass => true,
            FramePhase::LateRenderPass => true,
            FramePhase::Framebuffer => true,
            _ => false,
        },
        FrameOutcome::Image(_) => match phase {
            FramePhase::ColorImage => true,
            FramePhase::DepthImage => true,
            FramePhase::NormalImage => true,
            _ => false,
        },
        FrameOutcome::Pipeline(_) => phase == FramePhase::PipelineCreated,
        FrameOutcome::Done => match phase {
            FramePhase::RenderPass => false,
            FramePhase::LateRenderPass => false,
            FramePhase::Framebuffer => false,
            FramePhase::ColorImage => false,
            FramePhase::DepthImage => false,
            FramePhase::NormalImage => false,
            FramePhase::PipelineCreated => false,
            _ => true,
        },
    }
}

/// How far a frame has come.
pub open spec fn frame_rank(phase: FramePhase) -> int {
    match phase {
        FramePhase::Begin => 0,
        FramePhase::RenderPass => 1,
        FramePhase::Gizmo => 2,
        FramePhase::Target => 3,
        FramePhase::ColorImage => 4,
        FramePhase::DepthImage => 5,
        FramePhase::NormalImage => 6,
        FramePhase::Framebuffer => 7,
        FramePhase::Occlusion => 8,
        FramePhase::Lights => 9,
        FramePhase::LateBegin => 10,
        FramePhase::LateRenderPass => 11,
        FramePhase::LateGizmo => 12,
        FramePhase::Pipeline => 13,
        FramePhase::PipelineCreated => 14,
        FramePhase::Commands => 15,
        FramePhase::Publish => 16,
        FramePhase::Finished => 17,
        FramePhase::Failed => 17,
    }
}

/// There is nothing to draw to, or the image is none of the swapchain's.
pub open spec fn nothing_to_draw_to(pass: ForwardPass, run: FrameRun) -> bool {
    run.extent.width == 0 || run.extent.height == 0 || run.image_index >= pass.image_count
}

/// The slots that the frame fills are there, and each image is put in place before the
/// next one; what the commands are drawn with is there before they are recorded.
pub open spec fn frame_in_step(pass: ForwardPass, run: FrameRun) -> bool {
    let i = run.image_index as int;
    &&& pass.targets.wf()
    &&& match run.phase {
        FramePhase::Gizmo => pass.resources.render_pass is Some,
        FramePhase::Target => pass.resources.render_pass is Some,
        FramePhase::ColorImage => pass.resources.render_pass is Some && i
            < pass.targets.colors().len(),
        FramePhase::DepthImage => pass.resources.render_pass is Some && i
            < pass.targets.colors().len() && pass.targets.colors()[i] is Some,
        FramePhase::NormalImage => pass.resources.render_pass is Some && i
            < pass.targets.colors().len() && pass.targets.colors()[i] is Some
            && pass.targets.depths()[i] is Some,
        FramePhase::Framebuffer => i < pass.targets.colors().len(),
        FramePhase::LateGizmo => pass.resources.render_pass is Some,
        FramePhase::Pipeline => pass.resources.render_pass is Some,
        FramePhase::PipelineCreated => pass.resources.render_pass is Some,
        FramePhase::Commands => pass.resources.render_pass is Some && pass.pipeline is Some,
        _ => true,
    }
}

/// What an image replaces.
pub open spec fn replaced(image: Option<AttachedImage>) -> Seq<Release> {
    match image {
        Some(i) => seq![Release::Image(i)],
        None => Seq::empty(),
    }
}

/// What a frame is drawn with.
pub open spec fn options_of<M>(
    pass: ForwardPass,
    run: FrameRun,
    input: FrameInput<M>,
) -> FrameOptions<M> {
    FrameOptions {
        image_index: run.image_index,
        frame_index: run.frame_index,
        render_pass: pass.resources.render_pass->Some_0,
        pipeline: pass.pipeline->Some_0,
        clear_color: input.clear_color,
        view_proj: input.view_proj,
        inv_view_rot: input.inv_view_rot,
        has_camera: input.has_camera,
        has_gizmo: pass.gizmo,
        debug_flags: input.debug_flags,
    }
}

/// Only the run's phase changes, to this one, and the frame goes on.
pub open spec fn goes_on<M>(
    before: ForwardPass,
    run: FrameRun,
    after: ForwardPass,
    run_after: FrameRun,
    step: FrameStep<M>,
    phase: FramePhase,
) -> bool {
    &&& after == before
    &&& run_after == (FrameRun { phase, ..run })
    &&& step is Continue
}

/// Nothing changes and the frame is not drawn.
pub open spec fn gives_up<M>(
    before: ForwardPass,
    run: FrameRun,
    after: ForwardPass,
    run_after: FrameRun,
    step: FrameStep<M>,
    why: FrameFailure,
) -> bool {
    &&& after == before
    &&& run_after == (FrameRun { phase: FramePhase::Failed, ..run })
    &&& step matches FrameStep::Failed(w) && w == why
}

/// The render pass is asked for.
pub open spec fn asks_for_pass<M>(
    before: ForwardPass,
    run: FrameRun,
    after: ForwardPass,
    run_after: FrameRun,
    step: FrameStep<M>,
    phase: FramePhase,
) -> bool {
    &&& after == (ForwardPass { live: true, ..before })
    &&& run_after == (FrameRun { phase, ..run })
    &&& step matches FrameStep::CreateRenderPass(list) && list@ == scene_attachments()
}

/// The render pass is there; the gizmo follows unless it is there too.
pub open spec fn has_pass<M>(
    before: ForwardPass,
    run: FrameRun,
    h: u64,
    after: ForwardPass,
    run_after: FrameRun,
    step: FrameStep<M>,
    gizmo: FramePhase,
    next: FramePhase,
) -> bool {
    &&& after == (ForwardPass {
        resources: SceneResources { render_pass: Some(h), ..before.resources },
        ..before
    })
    &&& if before.gizmo {
        &&& run_after == (FrameRun { phase: next, ..run })
        &&& step is Continue
    } else {
        &&& run_after == (FrameRun { phase: gizmo, ..run })
        &&& step matches FrameStep::CreateGizmo { render_pass } && render_pass == h
    }
}

/// The gizmo is there.
pub open spec fn has_gizmo<M>(
    before: ForwardPass,
    run: FrameRun,
    after: ForwardPass,
    run_after: FrameRun,
    step: FrameStep<M>,
    next: FramePhase,
) -> bool {
    &&& after == (ForwardPass { gizmo: true, ..before })
    &&& run_after == (FrameRun { phase: next, ..run })
    &&& step is Continue
}

/// The targets of the image are looked for. Where they have to be made, the color image
/// comes first.
pub open spec fn finds_target<M>(
    before: ForwardPass,
    run: FrameRun,
    after: ForwardPass,
    run_after: FrameRun,
    step: FrameStep<M>,
) -> bool {
    let outdated = before.targets.outdated(before.image_count, run.extent);
    &&& after == (ForwardPass { targets: after.targets, ..before })
    &&& if nothing_to_draw_to(before, run) {
        &&& after.targets.same(&before.targets)
        &&& run_after == (FrameRun { phase: FramePhase::Occlusion, ..run })
        &&& step is Continue
    } else if outdated {
        &&& after.targets.blank(before.image_count as nat)
        &&& after.targets.size() == run.extent
        &&& run_after == (FrameRun { phase: FramePhase::ColorImage, ..run })
        &&& step matches FrameStep::CreateColor { release, extent, format } && release@
            == before.targets.owned() && extent == run.extent && format
            == AttachmentFormat::Rgba16Float
    } else {
        &&& after.targets.same(&before.targets)
        &&& match before.targets.framebuffers()[run.image_index as int] {
            Some(_) => {
                &&& run_after == (FrameRun { phase: FramePhase::Occlusion, ..run })
                &&& step is Continue
            },
            None => {
                &&& run_after == (FrameRun { phase: FramePhase::ColorImage, ..run })
                &&& step matches FrameStep::CreateColor { release, extent, format }
                    && release@.len() == 0 && extent == run.extent && format
                    == AttachmentFormat::Rgba16Float
            },
        }
    }
}

/// The color image is put in place; the depth image follows.
pub open spec fn has_color<M>(
    before: ForwardPass,
    run: FrameRun,
    image: AttachedImage,
    after: ForwardPass,
    run_after: FrameRun,
    step: FrameStep<M>,
) -> bool {
    let i = run.image_index as int;
    &&& after == (ForwardPass { targets: after.targets, ..before })
    &&& after.targets.colors() == before.targets.colors().update(i, Some(image))
    &&& after.targets.framebuffers() == before.targets.framebuffers()
    &&& after.targets.depths() == before.targets.depths()
    &&& after.targets.normals() == before.targets.normals()
    &&& after.targets.size() == before.targets.size()
    &&& run_after == (FrameRun { phase: FramePhase::DepthImage, ..run })
    &&& step matches FrameStep::CreateDepth { release, extent, format } && release@ == replaced(
        before.targets.colors()[i],
    ) && extent == run.extent && format == AttachmentFormat::Depth32Float
}

/// The depth image is put in place; the normal image follows.
pub open spec fn has_depth<M>(
    before: ForwardPass,
    run: FrameRun,
    image: AttachedImage,
    after: ForwardPass,
    run_after: FrameRun,
    step: FrameStep<M>,
) -> bool {
    let i = run.image_index as int;
    &&& after == (ForwardPass { targets: after.targets, ..before })
    &&& after.targets.depths() == before.targets.depths().update(i, Some(image))
    &&& after.targets.framebuffers() == before.targets.framebuffers()
    &&& after.targets.colors() == before.targets.colors()
    &&& after.targets.normals() == before.targets.normals()
    &&& after.targets.size() == before.targets.size()
    &&& run_after == (FrameRun { phase: FramePhase::NormalImage, ..run })
    &&& step matches FrameStep::CreateNormal { release, extent, format } && release@ == replaced(
        before.targets.depths()[i],
    ) && extent == run.extent && format == AttachmentFormat::Rgba16Float
}

/// The normal image is put in place; the framebuffer over all three follows.
pub open spec fn has_normal<M>(
    before: ForwardPass,
    run: FrameRun,
    image: AttachedImage,
    after: ForwardPass,
    run_after: FrameRun,
    step: FrameStep<M>,
) -> bool {
    let i = run.image_index as int;
    &&& after == (ForwardPass { targets: after.targets, ..before })
    &&& after.targets.normals() == before.targets.normals().update(i, Some(image))
    &&& after.targets.framebuffers() == before.targets.framebuffers()
    &&& after.targets.colors() == before.targets.colors()
    &&& after.targets.depths() == before.targets.depths()
    &&& after.targets.size() == before.targets.size()
    &&& run_after == (FrameRun { phase: FramePhase::Framebuffer, ..run })
    &&& step matches FrameStep::CreateFramebuffer { release, render_pass, views, extent } && {
        &&& Some(render_pass) == before.resources.render_pass
        &&& release@ == replaced(before.targets.normals()[i])
        &&& extent == run.extent
        &&& views@ == seq![
            before.targets.colors()[i]->Some_0.view,
            before.targets.depths()[i]->Some_0.view,
            image.view,
        ]
    }
}

/// The framebuffer is put in place.
pub open spec fn has_framebuffer<M>(
    before: ForwardPass,
    run: FrameRun,
    h: u64,
    after: ForwardPass,
    run_after: FrameRun,
    step: FrameStep<M>,
) -> bool {
    let i = run.image_index as int;
    &&& after == (ForwardPass { targets: after.targets, ..before })
    &&& after.targets.framebuffers() == before.targets.framebuffers().update(i, Some(h))
    &&& after.targets.colors() == before.targets.colors()
    &&& after.targets.depths() == before.targets.depths()
    &&& after.targets.normals() == before.targets.normals()
    &&& after.targets.size() == before.targets.size()
    &&& run_after == (FrameRun { phase: FramePhase::Occlusion, ..run })
    &&& step is Continue
}

/// The ambient occlusion of the frame before is bound, unless it is bound already.
pub open spec fn binds_occlusion<M>(
    before: ForwardPass,
    run: FrameRun,
    input: FrameInput<M>,
    after: ForwardPass,
    run_after: FrameRun,
    step: FrameStep<M>,
) -> bool {
    let res = before.resources;
    let i = run.frame_index as int % res.ao_sets@.len() as int;
    &&& after == (ForwardPass {
        resources: SceneResources { ao_views: after.resources.ao_views, ..res },
        ..before
    })
    &&& after.resources.ao_views@ == res.ao_views@.update(i, input.ao_view)
    &&& run_after == (FrameRun { phase: FramePhase::Lights, ..run })
    &&& if input.ao_view == res.ao_views@[i] || input.ao_view == 0 {
        step is Continue
    } else {
        step matches FrameStep::WriteSet(w) && w == ao_write(
            res.ao_sets@[i],
            input.ao_view,
            res.ao_sampler,
        )
    }
}

/// The light buffer is filled, where there is one.
pub open spec fn fills_lights<M>(
    before: ForwardPass,
    run: FrameRun,
    input: FrameInput<M>,
    after: ForwardPass,
    run_after: FrameRun,
    step: FrameStep<M>,
) -> bool {
    &&& after == before
    &&& run_after == (FrameRun { phase: FramePhase::LateBegin, ..run })
    &&& if before.resources.light_memory == 0 {
        step is Continue
    } else {
        step matches FrameStep::WriteLights { memory, words } && memory
            == before.resources.light_memory && words@ == light_buffer_words(input.lights@)
    }
}

/// The pipeline is looked for, and asked for where it is missing.
pub open spec fn finds_pipeline<M>(
    before: ForwardPass,
    run: FrameRun,
    after: ForwardPass,
    run_after: FrameRun,
    step: FrameStep<M>,
) -> bool {
    let res = before.resources;
    if before.pipeline is Some {
        goes_on(before, run, after, run_after, step, FramePhase::Commands)
    } else {
        match (res.render_pass, res.frame_layout, res.shadow_layout, res.ao_layout) {
            (None, _, _, _) => gives_up(
                before,
                run,
                after,
                run_after,
                step,
                FrameFailure::Missing(ForwardError::NoRenderPass),
            ),
            (_, None, _, _) => gives_up(
                before,
                run,
                after,
                run_after,
                step,
                FrameFailure::Missing(ForwardError::NoFrameLayout),
            ),
            (_, _, None, _) => gives_up(
                before,
                run,
                after,
                run_after,
                step,
                FrameFailure::Missing(ForwardError::NoShadowLayout),
            ),
            (_, _, _, None) => gives_up(
                before,
                run,
                after,
                run_after,
                step,
                FrameFailure::Missing(ForwardError::NoAoLayout),
            ),
            (Some(_), Some(frame), Some(shadow), Some(ao)) => {
                &&& after == before
                &&& run_after == (FrameRun { phase: FramePhase::PipelineCreated, ..run })
                &&& step matches FrameStep::CreatePipeline {
                    render_pass,
                    layouts,
                    push_size,
                    blends,
                } && Some(render_pass) == res.render_pass && blends@ == seq![
                    Blend::Alpha,
                    Blend::Replace,
                ] && push_size
                    == SCENE_PUSH_SIZE && layouts@ == seq![
                    frame,
                    res.bindless_layout,
                    res.ibl_layout,
                    shadow,
                    ao,
                    res.gi_layout,
                ]
            },
        }
    }
}

/// The commands are recorded, on the framebuffer of the image and with the set of the
/// frame.
pub open spec fn records<M>(
    before: ForwardPass,
    run: FrameRun,
    input: FrameInput<M>,
    after: ForwardPass,
    run_after: FrameRun,
    step: FrameStep<M>,
) -> bool {
    let framebuffers = before.targets.framebuffers();
    let framebuffer = if run.image_index < framebuffers.len() {
        framebuffers[run.image_index as int]
    } else {
        None
    };
    if run.warm_up {
        goes_on(before, run, after, run_after, step, FramePhase::Publish)
    } else {
        match framebuffer {
            None => gives_up(
                before,
                run,
                after,
                run_after,
                step,
                FrameFailure::Missing(ForwardError::NoFramebuffer),
            ),
            Some(fb) => if run.frame_index >= before.resources.frame_sets@.len() {
                gives_up(
                    before,
                    run,
                    after,
                    run_after,
                    step,
                    FrameFailure::Missing(ForwardError::NoFrameSet),
                )
            } else {
                &&& after == before
                &&& run_after == (FrameRun { phase: FramePhase::Publish, ..run })
                &&& step matches FrameStep::Record(list) && list@ == frame_commands(
                    &before.resources,
                    fb,
                    before.targets.size(),
                    input.items@,
                    options_of(before, run, input),
                )
            },
        }
    }
}

/// What was drawn is published.
pub open spec fn publishes<M>(
    before: ForwardPass,
    run: FrameRun,
    after: ForwardPass,
    run_after: FrameRun,
    step: FrameStep<M>,
) -> bool {
    &&& after == before
    &&& run_after == (FrameRun { phase: FramePhase::Finished, ..run })
    &&& step matches FrameStep::Finished(list) && list@ == seq![
        slot_at(before.targets.colors(), run.image_index),
        slot_at(before.targets.depths(), run.image_index),
        slot_at(before.targets.normals(), run.image_index),
    ]
}

/// One step of a frame.
pub open spec fn drawn<M>(
    before: ForwardPass,
    run: FrameRun,
    input: FrameInput<M>,
    outcome: FrameOutcome,
    after: ForwardPass,
    run_after: FrameRun,
    step: FrameStep<M>,
) -> bool {
    match (run.phase, outcome) {
        (_, FrameOutcome::Failed) => gives_up(
            before,
            run,
            after,
            run_after,
            step,
            FrameFailure::Device,
        ),
        (FramePhase::Begin, _) => if nothing_to_draw_to(before, run) {
            goes_on(before, run, after, run_after, step, FramePhase::Occlusion)
        } else if before.resources.render_pass is None {
            asks_for_pass(before, run, after, run_after, step, FramePhase::RenderPass)
        } else {
            goes_on(before, run, after, run_after, step, FramePhase::Target)
        },
        (FramePhase::RenderPass, FrameOutcome::Object(h)) => has_pass(
            before,
            run,
            h,
            after,
            run_after,
            step,
            FramePhase::Gizmo,
            FramePhase::Target,
        ),
        (FramePhase::Gizmo, _) => has_gizmo(
            before,
            run,
            after,
            run_after,
            step,
            FramePhase::Target,
        ),
        (FramePhase::Target, _) => finds_target(before, run, after, run_after, step),
        (FramePhase::ColorImage, FrameOutcome::Image(i)) => has_color(
            before,
            run,
            i,
            after,
            run_after,
            step,
        ),
        (FramePhase::DepthImage, FrameOutcome::Image(i)) => has_depth(
            before,
            run,
            i,
            after,
            run_after,
            step,
        ),
        (FramePhase::NormalImage, FrameOutcome::Image(i)) => has_normal(
            before,
            run,
            i,
            after,
            run_after,
            step,
        ),
        (FramePhase::Framebuffer, FrameOutcome::Object(h)) => has_framebuffer(
            before,
            run,
            h,
            after,
            run_after,
            step,
        ),
        (FramePhase::Occlusion, _) => binds_occlusion(before, run, input, after, run_after, step),
        (FramePhase::Lights, _) => fills_lights(before, run, input, after, run_after, step),
        (FramePhase::LateBegin, _) => if before.resources.render_pass is None {
            asks_for_pass(before, run, after, run_after, step, FramePhase::LateRenderPass)
        } else {
            goes_on(before, run, after, run_after, step, FramePhase::Pipeline)
        },
        (FramePhase::LateRenderPass, FrameOutcome::Object(h)) => has_pass(
            before,
            run,
            h,
            after,
            run_after,
            step,
            FramePhase::LateGizmo,
            FramePhase::Pipeline,
        ),
        (FramePhase::LateGizmo, _) => has_gizmo(
            before,
            run,
            after,
            run_after,
            step,
            FramePhase::Pipeline,
        ),
        (FramePhase::Pipeline, _) => finds_pipeline(before, run, after, run_after, step),
        (FramePhase::PipelineCreated, FrameOutcome::Pipeline(p)) => {
            &&& after == (ForwardPass { pipeline: Some(p), ..before })
            &&& run_after == (FrameRun { phase: FramePhase::Commands, ..run })
            &&& step is Continue
        },
        (FramePhase::Commands, _) => records(before, run, input, after, run_after, step),
        (FramePhase::Publish, _) => publishes(before, run, after, run_after, step),
        (FramePhase::Finished, _) => publishes(before, run, after, run_after, step),
        (FramePhase::Failed, _) => gives_up(
            before,
            run,
            after,
            run_after,
            step,
            FrameFailure::Device,
        ),
        _ => false,
    }
}

fn release_of(image: Option<AttachedImage>) -> (r: Vec<Release>)
    ensures
        r@ == replaced(image),
{
    let mut list: Vec<Release> = Vec::new();
    if let Some(i) = image {
        list.push(Release::Image(i));
    }
    assert(list@ =~= replaced(image));
    list
}

impl FrameRun {
    /// A frame that is drawn.
    pub fn new(image_index: u32, frame_index: u32, extent: Extent2D) -> (r: Self)
        ensures
            r == (FrameRun {
                phase: FramePhase::Begin,
                image_index,
                frame_index,
                extent,
                warm_up: false,
            }),
    {
        FrameRun { phase: FramePhase::Begin, image_index, frame_index, extent, warm_up: false }
    }
}

impl ForwardPass {
    /// A frame that only creates what drawing needs, so that the first frame does not
    /// have to. Where the pipeline is there already, there is nothing to do.
    pub fn warmup(&self) -> (r: FrameRun)
        ensures
            r.warm_up,
            r.phase == (if self.pipeline is Some {
                FramePhase::Publish
            } else {
                FramePhase::LateBegin
            }),
    {
        FrameRun {
            phase: if self.pipeline.is_some() {
                FramePhase::Publish
            } else {
                FramePhase::LateBegin
            },
            image_index: u32::MAX,
            frame_index: u32::MAX,
            extent: Extent2D { width: 0, height: 0 },
            warm_up: true,
        }
    }

    /// Draws a frame, one step at a time.
    pub fn execute<M: Copy>(
        &mut self,
        run: &mut FrameRun,
        input: &FrameInput<M>,
        outcome: FrameOutcome,
    ) -> (step: FrameStep<M>)
        requires
            frame_in_step(*old(self), *old(run)),
            frame_fits(old(run).phase, outcome),
            input.lights.len() <= LIGHT_MAX,
            old(run).phase == FramePhase::Occlusion ==> {
                &&& old(self).resources.ao_sets.len() > 0
                &&& old(self).resources.ao_views.len() == old(self).resources.ao_sets.len()
            },
        ensures
            frame_in_step(*final(self), *final(run)),
            drawn(*old(self), *old(run), *input, outcome, *final(self), *final(run), step),
            frame_rank(final(run).phase) > frame_rank(old(run).phase) || frame_rank(
                old(run).phase,
            ) == 17,
    {
        match outcome {
            FrameOutcome::Failed => {
                run.phase = FramePhase::Failed;
                FrameStep::Failed(FrameFailure::Device)
            },
            FrameOutcome::Object(h) => self.object_made(run, h),
            FrameOutcome::Image(i) => self.image_made(run, i),
            FrameOutcome::Pipeline(p) => {
                self.pipeline = Some(p);
                run.phase = FramePhase::Commands;
                FrameStep::Continue
            },
            FrameOutcome::Done => match run.phase {
                FramePhase::Begin => {
                    if run.extent.width == 0 || run.extent.height == 0 || run.image_index as usize
                        >= self.image_count {
                        run.phase = FramePhase::Occlusion;
                        FrameStep::Continue
                    } else {
                        self.find_pass(run, FramePhase::RenderPass, FramePhase::Target)
                    }
                },
                FramePhase::Gizmo => {
                    self.gizmo = true;
                    run.phase = FramePhase::Target;
                    FrameStep::Continue
                },
                FramePhase::Target => self.find_target(run),
                FramePhase::Occlusion => self.bind_occlusion(run, input),
                FramePhase::Lights => {
                    run.phase = FramePhase::LateBegin;
                    match self.update_lights(&input.lights) {
                        Some(w) => FrameStep::WriteLights { memory: w.memory, words: w.words },
                        None => FrameStep::Continue,
                    }
                },
                FramePhase::LateBegin => self.find_pass(
                    run,
                    FramePhase::LateRenderPass,
                    FramePhase::Pipeline,
                ),
                FramePhase::LateGizmo => {
                    self.gizmo = true;
                    run.phase = FramePhase::Pipeline;
                    FrameStep::Continue
                },
                FramePhase::Pipeline => self.find_pipeline(run),
                FramePhase::Commands => self.record(run, input),
                FramePhase::Failed => FrameStep::Failed(FrameFailure::Device),
                _ => {
                    run.phase = FramePhase::Finished;
                    FrameStep::Finished(published(&self.targets, run.image_index))
                },
            },
        }
    }

    fn find_pass<M>(&mut self, run: &mut FrameRun, asked: FramePhase, next: FramePhase) -> (step:
        FrameStep<M>)
        ensures
            if old(self).resources.render_pass is None {
                asks_for_pass(*old(self), *old(run), *final(self), *final(run), step, asked)
            } else {
                goes_on(*old(self), *old(run), *final(self), *final(run), step, next)
            },
    {
        if self.resources.render_pass.is_none() {
            self.live = true;
            run.phase = asked;
            FrameStep::CreateRenderPass(attachments())
        } else {
            run.phase = next;
            FrameStep::Continue
        }
    }

    fn object_made<M>(&mut self, run: &mut FrameRun, h: u64) -> (step: FrameStep<M>)
        requires
            frame_in_step(*old(self), *old(run)),
            frame_fits(old(run).phase, FrameOutcome::Object(h)),
        ensures
            frame_in_step(*final(self), *final(run)),
            frame_rank(final(run).phase) > frame_rank(old(run).phase),
            forall|input: FrameInput<M>| #[trigger]
                drawn(
                    *old(self),
                    *old(run),
                    input,
                    FrameOutcome::Object(h),
                    *final(self),
                    *final(run),
                    step,
                ),
    {
        match run.phase {
            FramePhase::Framebuffer => {
                self.targets.put_framebuffer(run.image_index, h);
                run.phase = FramePhase::Occlusion;
                FrameStep::Continue
            },
            FramePhase::RenderPass => {
                self.resources.render_pass = Some(h);
                if self.gizmo {
                    run.phase = FramePhase::Target;
                    FrameStep::Continue
                } else {
                    run.phase = FramePhase::Gizmo;
                    FrameStep::CreateGizmo { render_pass: h }
                }
            },
            _ => {
                self.resources.render_pass = Some(h);
                if self.gizmo {
                    run.phase = FramePhase::Pipeline;
                    FrameStep::Continue
                } else {
                    run.phase = FramePhase::LateGizmo;
                    FrameStep::CreateGizmo { render_pass: h }
                }
            },
        }
    }

    fn image_made<M>(&mut self, run: &mut FrameRun, image: AttachedImage) -> (step: FrameStep<M>)
        requires
            frame_in_step(*old(self), *old(run)),
            frame_fits(old(run).phase, FrameOutcome::Image(image)),
        ensures
            frame_in_step(*final(self), *final(run)),
            frame_rank(final(run).phase) > frame_rank(old(run).phase),
            forall|input: FrameInput<M>| #[trigger]
                drawn(
                    *old(self),
                    *old(run),
                    input,
                    FrameOutcome::Image(image),
                    *final(self),
                    *final(run),
                    step,
                ),
    {
        let extent = run.extent;
        match run.phase {
            FramePhase::ColorImage => {
                let before = self.targets.put_color(run.image_index, image);
                run.phase = FramePhase::DepthImage;
                FrameStep::CreateDepth {
                    release: release_of(before),
                    extent,
                    format: AttachmentFormat::Depth32Float,
                }
            },
            FramePhase::DepthImage => {
                let before = self.targets.put_depth(run.image_index, image);
                run.phase = FramePhase::NormalImage;
                FrameStep::CreateNormal {
                    release: release_of(before),
                    extent,
                    format: AttachmentFormat::Rgba16Float,
                }
            },
            _ => {
                let before = self.targets.put_normal(run.image_index, image);
                run.phase = FramePhase::Framebuffer;
                let views: [u64; 3] = match self.targets.attachments(run.image_index) {
                    Some(v) => v,
                    None => [0, 0, 0],
                };
                assert(views@ =~= seq![views@[0], views@[1], views@[2]]);
                let render_pass: u64 = self.resources.render_pass.unwrap();
                FrameStep::CreateFramebuffer {
                    release: release_of(before),
                    render_pass,
                    views,
                    extent,
                }
            },
        }
    }

    fn find_target<M>(&mut self, run: &mut FrameRun) -> (step: FrameStep<M>)
        requires
            old(self).targets.wf(),
        ensures
            final(self).targets.wf(),
            final(run).phase == FramePhase::ColorImage ==> run_has_slot(*final(self), *final(run)),
            final(run).phase == FramePhase::ColorImage || final(run).phase
                == FramePhase::Occlusion,
            finds_target(*old(self), *old(run), *final(self), *final(run), step),
    {
        let extent = run.extent;
        match self.targets.set_target(self.image_count, run.image_index, extent) {
            TargetStep::Build(release) => {
                run.phase = FramePhase::ColorImage;
                FrameStep::CreateColor { release, extent, format: AttachmentFormat::Rgba16Float }
            },
            _ => {
                run.phase = FramePhase::Occlusion;
                FrameStep::Continue
            },
        }
    }

    fn bind_occlusion<M>(&mut self, run: &mut FrameRun, input: &FrameInput<M>) -> (step: FrameStep<M>)
        requires
            old(self).resources.ao_sets.len() > 0,
            old(self).resources.ao_views.len() == old(self).resources.ao_sets.len(),
        ensures
            binds_occlusion(*old(self), *old(run), *input, *final(self), *final(run), step),
    {
        let write = self.resources.set_ao(run.frame_index, input.ao_view);
        run.phase = FramePhase::Lights;
        match write {
            Some(w) => FrameStep::WriteSet(w),
            None => FrameStep::Continue,
        }
    }

    fn find_pipeline<M>(&mut self, run: &mut FrameRun) -> (step: FrameStep<M>)
        ensures
            finds_pipeline(*old(self), *old(run), *final(self), *final(run), step),
    {
        if self.pipeline.is_some() {
            run.phase = FramePhase::Commands;
            return FrameStep::Continue;
        }
        match self.resources.pipeline_layouts() {
            Ok(layouts) => {
                run.phase = FramePhase::PipelineCreated;
                let blends: [Blend; 2] = [Blend::Alpha, Blend::Replace];
                assert(blends@ =~= seq![Blend::Alpha, Blend::Replace]);
                FrameStep::CreatePipeline {
                    render_pass: self.resources.render_pass.unwrap(),
                    layouts,
                    push_size: SCENE_PUSH_SIZE,
                    blends,
                }
            },
            Err(e) => {
                run.phase = FramePhase::Failed;
                FrameStep::Failed(FrameFailure::Missing(e))
            },
        }
    }

    fn record<M: Copy>(&mut self, run: &mut FrameRun, input: &FrameInput<M>) -> (step: FrameStep<M>)
        requires
            old(self).resources.render_pass is Some,
            old(self).pipeline is Some,
        ensures
            records(*old(self), *old(run), *input, *final(self), *final(run), step),
    {
        if run.warm_up {
            run.phase = FramePhase::Publish;
            return FrameStep::Continue;
        }
        let options = FrameOptions {
            image_index: run.image_index,
            frame_index: run.frame_index,
            render_pass: self.resources.render_pass.unwrap(),
            pipeline: self.pipeline.unwrap(),
            clear_color: input.clear_color,
            view_proj: input.view_proj,
            inv_view_rot: input.inv_view_rot,
            has_camera: input.has_camera,
            has_gizmo: self.gizmo,
            debug_flags: input.debug_flags,
        };
        match plan_frame(&self.targets, &self.resources, &input.items, options) {
            Ok(list) => {
                run.phase = FramePhase::Publish;
                FrameStep::Record(list)
            },
            Err(e) => {
                run.phase = FramePhase::Failed;
                FrameStep::Failed(FrameFailure::Missing(e))
            },
        }
    }
}

/// The image has slots.
pub open spec fn run_has_slot(pass: ForwardPass, run: FrameRun) -> bool {
    run.image_index < pass.targets.colors().len()
}

/// A frame leaves the targets of all other images alone, which frames in flight may still
/// refer to, unless the swapchain has another size or another number of images.
pub proof fn other_images_are_left_alone<M>(
    before: ForwardPass,
    run: FrameRun,
    input: FrameInput<M>,
    outcome: FrameOutcome,
    after: ForwardPass,
    run_after: FrameRun,
    step: FrameStep<M>,
    j: int,
)
    requires
        frame_in_step(before, run),
        drawn(before, run, input, outcome, after, run_after, step),
        run.phase == FramePhase::Target ==> !before.targets.outdated(
            before.image_count,
            run.extent,
        ),
        0 <= j < before.targets.framebuffers().len(),
        j != run.image_index,
    ensures
        after.targets.framebuffers()[j] == before.targets.framebuffers()[j],
        after.targets.colors()[j] == before.targets.colors()[j],
        after.targets.depths()[j] == before.targets.depths()[j],
        after.targets.normals()[j] == before.targets.normals()[j],
{
}

/// A step of a frame is about the frame's own image and its own sets: images are made in the
/// frame's size and in the formats of the attachments; the framebuffer is made over the
/// color, depth and normal image of the slot; the occlusion goes to the frame's own set; and
/// what is published is what the slot holds.
pub proof fn step_is_about_its_own_image<M>(
    before: ForwardPass,
    run: FrameRun,
    input: FrameInput<M>,
    outcome: FrameOutcome,
    after: ForwardPass,
    run_after: FrameRun,
    step: FrameStep<M>,
)
    requires
        frame_in_step(before, run),
        frame_fits(run.phase, outcome),
        drawn(before, run, input, outcome, after, run_after, step),
    ensures
        ({
            let i = run.image_index as int;
            match step {
                FrameStep::CreateColor { extent, format, .. } => extent == run.extent && format
                    == AttachmentFormat::Rgba16Float,
                FrameStep::CreateDepth { extent, format, .. } => extent == run.extent && format
                    == AttachmentFormat::Depth32Float,
                FrameStep::CreateNormal { extent, format, .. } => extent == run.extent && format
                    == AttachmentFormat::Rgba16Float,
                FrameStep::CreateFramebuffer { render_pass, views, extent, .. } => {
                    &&& Some(render_pass) == after.resources.render_pass
                    &&& extent == run.extent
                    &&& after.targets.colors()[i] matches Some(c) && views@[0] == c.view
                    &&& after.targets.depths()[i] matches Some(d) && views@[1] == d.view
                    &&& after.targets.normals()[i] matches Some(n) && views@[2] == n.view
                },
                FrameStep::CreateGizmo { render_pass } => after.resources.render_pass == Some(
                    render_pass,
                ),
                FrameStep::CreatePipeline { render_pass, layouts, .. } => {
                    &&& Some(render_pass) == before.resources.render_pass
                    &&& before.resources.frame_layout == Some(layouts@[0])
                    &&& layouts@[1] == before.resources.bindless_layout
                    &&& layouts@[2] == before.resources.ibl_layout
                    &&& before.resources.shadow_layout == Some(layouts@[3])
                    &&& before.resources.ao_layout == Some(layouts@[4])
                    &&& layouts@[5] == before.resources.gi_layout
                },
                FrameStep::WriteSet(w) => w.set == before.resources.ao_sets@[run.frame_index as int
                    % before.resources.ao_sets@.len() as int],
                FrameStep::WriteLights { memory, words } => memory == before.resources.light_memory
                    && words@ == light_buffer_words(input.lights@),
                FrameStep::Finished(list) => run.phase == FramePhase::Publish ==> {
                    &&& list@[0] == slot_at(before.targets.colors(), run.image_index)
                    &&& list@[1] == slot_at(before.targets.depths(), run.image_index)
                    &&& list@[2] == slot_at(before.targets.normals(), run.image_index)
                },
                _ => true,
            }
        }),
{
}

/// A frame is recorded on the framebuffer of its own image, over the whole of it, cleared to
/// the color that is asked for, and draws the items that it is given. A warm-up records
/// nothing.
pub proof fn frame_records_its_items<M>(
    before: ForwardPass,
    run: FrameRun,
    input: FrameInput<M>,
    outcome: FrameOutcome,
    after: ForwardPass,
    run_after: FrameRun,
    step: FrameStep<M>,
    start: Bound<M>,
)
    requires
        frame_in_step(before, run),
        frame_fits(run.phase, outcome),
        drawn(before, run, input, outcome, after, run_after, step),
    ensures
        step matches FrameStep::Record(list) ==> {
            &&& !run.warm_up
            &&& run.image_index < before.targets.framebuffers().len()
            &&& list@[0] matches DrawCommand::BeginPass {
                render_pass,
                framebuffer,
                extent,
                color,
                ..
            } && {
                &&& Some(render_pass) == before.resources.render_pass
                &&& before.targets.framebuffers()[run.image_index as int] == Some(framebuffer)
                &&& extent == before.targets.size()
                &&& color == input.clear_color
            }
            &&& (list@[1] is Skybox) == input.has_camera
            &&& draws_of(list@, start) == uploaded(input.items@).map_values(
                |item: DrawItem<M>|
                    drawn_as(item, before.resources.brdf_handle, input.debug_flags),
            )
        },
{
    if let FrameStep::Record(list) = step {
        let fb = before.targets.framebuffers()[run.image_index as int]->Some_0;
        let options = options_of(before, run, input);
        frame_draws_its_items(
            before.resources,
            fb,
            before.targets.size(),
            input.items@,
            options,
            start,
        );
        assert(draws_of(list@, start) =~= uploaded(input.items@).map_values(
            |item: DrawItem<M>| drawn_as(item, before.resources.brdf_handle, input.debug_flags),
        ));
    }
}

/// A frame that gives up names what is missing, and it is missing; a step of the device
/// that failed is told from that.
pub proof fn failure_names_what_is_missing<M>(
    before: ForwardPass,
    run: FrameRun,
    input: FrameInput<M>,
    outcome: FrameOutcome,
    after: ForwardPass,
    run_after: FrameRun,
    step: FrameStep<M>,
    why: FrameFailure,
)
    requires
        frame_in_step(before, run),
        frame_fits(run.phase, outcome),
        drawn(before, run, input, outcome, after, run_after, step),
        step == FrameStep::<M>::Failed(why),
    ensures
        after == before,
        run_after.phase == FramePhase::Failed,
        outcome is Failed ==> why is Device,
        match why {
            FrameFailure::Device => outcome is Failed || run.phase == FramePhase::Failed,
            FrameFailure::Missing(ForwardError::NoRenderPass) => before.resources.render_pass
                is None,
            FrameFailure::Missing(ForwardError::NoFrameLayout) => before.resources.frame_layout
                is None,
            FrameFailure::Missing(ForwardError::NoShadowLayout) => before.resources.shadow_layout
                is None,
            FrameFailure::Missing(ForwardError::NoAoLayout) => before.resources.ao_layout is None,
            FrameFailure::Missing(ForwardError::NoFramebuffer) => run.image_index
                >= before.targets.framebuffers().len()
                || before.targets.framebuffers()[run.image_index as int] is None,
            FrameFailure::Missing(ForwardError::NoFrameSet) => run.frame_index
                >= before.resources.frame_sets@.len(),
        },
{
}

/// A frame makes what is missing and nothing else: the render pass and the gizmo where
/// they are not there, the targets of an image that has pixels and no framebuffer of the
/// right size, the pipeline; and it records, writes and fills where it can.
pub proof fn frame_makes_what_is_missing<M>(
    before: ForwardPass,
    run: FrameRun,
    input: FrameInput<M>,
    outcome: FrameOutcome,
    after: ForwardPass,
    run_after: FrameRun,
    step: FrameStep<M>,
)
    requires
        frame_in_step(before, run),
        frame_fits(run.phase, outcome),
        drawn(before, run, input, outcome, after, run_after, step),
        !(outcome is Failed),
    ensures
        ({
            let visible = run.extent.width > 0 && run.extent.height > 0 && run.image_index
                < before.image_count;
            let res = before.resources;
            let i = run.image_index as int;
            &&& step is CreateRenderPass ==> after.live
            &&& before.live ==> after.live
            &&& match run.phase {
                FramePhase::Begin => {
                    &&& step is CreateRenderPass <==> visible && res.render_pass is None
                    &&& !visible ==> run_after.phase == FramePhase::Occlusion
                    &&& visible && res.render_pass is Some ==> run_after.phase == FramePhase::Target
                },
                FramePhase::LateBegin => {
                    &&& step is CreateRenderPass <==> res.render_pass is None
                    &&& res.render_pass is Some ==> run_after.phase == FramePhase::Pipeline
                },
                FramePhase::RenderPass | FramePhase::LateRenderPass => {
                    &&& outcome == FrameOutcome::Object(after.resources.render_pass->Some_0)
                    &&& step is CreateGizmo <==> !before.gizmo
                },
                FramePhase::Gizmo | FramePhase::LateGizmo => after.gizmo,
                FramePhase::Target => {
                    let kept = before.targets.framebuffers().len() == before.image_count
                        && before.targets.size() == run.extent;
                    &&& step is CreateColor <==> visible && (!kept
                        || before.targets.framebuffers()[i] is None)
                    &&& visible && !kept ==> after.targets.size() == run.extent
                    &&& step matches FrameStep::CreateColor { release, .. } ==> if kept {
                        release@.len() == 0
                    } else {
                        release@ == before.targets.owned()
                    }
                },
                FramePhase::ColorImage => outcome == FrameOutcome::Image(
                    after.targets.colors()[i]->Some_0,
                ) && step is CreateDepth,
                FramePhase::DepthImage => outcome == FrameOutcome::Image(
                    after.targets.depths()[i]->Some_0,
                ) && step is CreateNormal,
                FramePhase::NormalImage => outcome == FrameOutcome::Image(
                    after.targets.normals()[i]->Some_0,
                ) && step is CreateFramebuffer,
                FramePhase::Framebuffer => outcome == FrameOutcome::Object(
                    after.targets.framebuffers()[i]->Some_0,
                ),
                FramePhase::Lights => step is WriteLights <==> res.light_memory != 0,
                FramePhase::Pipeline => step is CreatePipeline <==> before.pipeline is None
                    && res.frame_layout is Some && res.shadow_layout is Some && res.ao_layout
                    is Some,
                FramePhase::PipelineCreated => outcome == FrameOutcome::Pipeline(
                    after.pipeline->Some_0,
                ),
                FramePhase::Commands => step is Record <==> !run.warm_up && i
                    < before.targets.framebuffers().len()
                    && before.targets.framebuffers()[i] is Some && run.frame_index
                    < res.frame_sets@.len(),
                FramePhase::Publish => step is Finished,
                _ => true,
            }
        }),
{
}

/// The occlusion that a frame samples is the one that it is given: the frame's set is
/// rewritten where it names another view, and then names this one.
pub proof fn frame_samples_the_given_occlusion<M>(
    before: ForwardPass,
    run: FrameRun,
    input: FrameInput<M>,
    outcome: FrameOutcome,
    after: ForwardPass,
    run_after: FrameRun,
    step: FrameStep<M>,
)
    requires
        run.phase == FramePhase::Occlusion,
        drawn(before, run, input, outcome, after, run_after, step),
        !(outcome is Failed),
        before.resources.ao_sets@.len() > 0,
        before.resources.ao_views@.len() == before.resources.ao_sets@.len(),
    ensures
        ({
            let i = run.frame_index as int % before.resources.ao_sets@.len() as int;
            &&& after.resources.ao_views@[i] == input.ao_view
            &&& step is WriteSet <==> input.ao_view != 0 && before.resources.ao_views@[i]
                != input.ao_view
            &&& step matches FrameStep::WriteSet(w) ==> {
                &&& w.set == before.resources.ao_sets@[i]
                &&& w.binding == 0
                &&& w.kind == DescriptorKind::CombinedImageSampler
                &&& w.source == (DescriptorSource::SampledImage {
                    view: input.ao_view,
                    sampler: before.resources.ao_sampler,
                    layout: ImageLayout::ShaderReadOnly,
                })
            }
        }),
{
}

} // verus!
