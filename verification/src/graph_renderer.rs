//! The renderer that drives the render graph: what it does at the start of a frame,
//! while a frame is recorded, when it is presented, and when the surface or the
//! renderer itself goes away.
//!
//! The device is driven by the caller, who performs each step and says how it went.

use vstd::prelude::*;
use vstd::string::*;

use crate::bindless::{AddressMode, Comparison, Filter, SamplerInfo};
use crate::float_order::{is_less, less};
use crate::forward_pass::resources::BorrowedSets;
use crate::forward_pass::setup::SceneInputs;
use crate::gpu::{
    Access, ClearColor, Extent2D, ImageBarrier, ImageLayout, PipelineStage, FLOAT_ONE,
};
use crate::text::{contains_text, holds_text, same_text};

verus! {

/// Number of frames in flight.
pub const FRAMES_IN_FLIGHT: u32 = 2;

/// Width and height that a headless frame falls back to.
pub const FALLBACK_SIZE: u32 = 256;

/// The passes of the graph.
#[derive(Clone, Copy, Debug, PartialEq, Eq, Structural)]
pub enum PassKind {
    ShadowMap,
    Scene,
    Gtao,
    PathTrace,
    Post,
}

/// The passes in the order in which they are registered, which is the order in which
/// they run.
pub open spec fn pass_order() -> Seq<PassKind> {
    seq![PassKind::ShadowMap, PassKind::Scene, PassKind::Gtao, PassKind::PathTrace, PassKind::Post]
}

/// The passes in the order in which they run.
pub fn passes() -> (r: [PassKind; 5])
    ensures
        r@ == pass_order(),
{
    let list: [PassKind; 5] = [
        PassKind::ShadowMap,
        PassKind::Scene,
        PassKind::Gtao,
        PassKind::PathTrace,
        PassKind::Post,
    ];
    assert(list@ =~= pass_order());
    list
}

// ---------------------------------------------------------------------------
// Recording a frame
// ---------------------------------------------------------------------------

/// Which step of recording failed.
#[derive(Clone, Copy, Debug, PartialEq, Eq, Structural)]
pub enum RecordError {
    Uniforms,
    Graph,
    CreateOverlay,
    Overlay,
    SwapchainMissing,
    End,
}

/// What is done next while a frame is recorded.
#[derive(Clone, Copy, Debug, PartialEq, Eq, Structural)]
pub enum RecordStep {
    /// Write the frame's uniform buffer.
    UpdateUniforms,
    /// Run the passes; the scene samples the occlusion of this frame in flight.
    ExecuteGraph { ao_frame: u32 },
    /// Create the overlay.
    CreateOverlay,
    /// Draw the overlay, which also hands the image to the presentation engine.
    RecordOverlay,
    /// Hand the image to the presentation engine.
    PresentBarrier { image_index: u32, barrier: ImageBarrier },
    /// End the command buffer.
    EndCommands,
    /// Nothing: the frame is recorded, or failed as given.
    Finished { error: Option<RecordError> },
}

/// What recording a frame depends on.
#[derive(Clone, Copy, Debug, PartialEq, Eq, Structural)]
pub struct RecordInput {
    pub frame_index: u32,
    pub image_index: u32,
    /// There is an overlay to draw.
    pub overlay_frame: bool,
    /// The overlay's device objects are there.
    pub overlay_created: bool,
    pub has_swapchain: bool,
}

/// Recording of one frame.
#[derive(Clone, Copy, Debug, PartialEq, Eq, Structural)]
pub struct FrameRecorder {
    pub input: RecordInput,
    pub at: RecordStep,
    pub error: Option<RecordError>,
}

/// The barrier that hands a rendered image to the presentation engine.
pub open spec fn present_transition() -> ImageBarrier {
    ImageBarrier {
        base_level: 0,
        level_count: 1,
        old_layout: ImageLayout::ColorAttachment,
        new_layout: ImageLayout::PresentSrc,
        src_stage: PipelineStage::ColorAttachmentOutput,
        src_access: Access::ColorAttachmentWrite,
        dst_stage: PipelineStage::BottomOfPipe,
        dst_access: Access::MemoryRead,
    }
}

/// The recorder at its next step, with one more error.
pub open spec fn recorder_at(r: FrameRecorder, at: RecordStep, error: Option<RecordError>) -> FrameRecorder {
    FrameRecorder { input: r.input, at, error }
}

/// What follows the graph: the overlay, or the hand-over to the presentation engine.
pub open spec fn after_graph(r: FrameRecorder) -> FrameRecorder {
    if r.input.overlay_frame {
        if !r.input.overlay_created {
            recorder_at(r, RecordStep::CreateOverlay, None)
        } else {
            after_overlay_exists(r)
        }
    } else if r.input.has_swapchain {
        recorder_at(
            r,
            RecordStep::PresentBarrier {
                image_index: r.input.image_index,
                barrier: present_transition(),
            },
            None,
        )
    } else {
        recorder_at(r, RecordStep::EndCommands, None)
    }
}

/// What follows once the overlay's objects are there: it can only be drawn onto a
/// swapchain image.
pub open spec fn after_overlay_exists(r: FrameRecorder) -> FrameRecorder {
    if r.input.has_swapchain {
        recorder_at(r, RecordStep::RecordOverlay, None)
    } else {
        recorder_at(r, RecordStep::EndCommands, Some(RecordError::SwapchainMissing))
    }
}

/// The recorder after its step went well or failed. A failed step is the last one before
/// the command buffer is ended.
pub open spec fn recorded(r: FrameRecorder, ok: bool) -> FrameRecorder {
    match r.at {
        RecordStep::UpdateUniforms => if ok {
            recorder_at(
                r,
                RecordStep::ExecuteGraph {
                    ao_frame: ((r.input.frame_index + 1) % FRAMES_IN_FLIGHT as int) as u32,
                },
                None,
            )
        } else {
            recorder_at(r, RecordStep::EndCommands, Some(RecordError::Uniforms))
        },
        RecordStep::ExecuteGraph { .. } => if ok {
            after_graph(r)
        } else {
            recorder_at(r, RecordStep::EndCommands, Some(RecordError::Graph))
        },
        RecordStep::CreateOverlay => if ok {
            after_overlay_exists(r)
        } else {
            recorder_at(r, RecordStep::EndCommands, Some(RecordError::CreateOverlay))
        },
        RecordStep::RecordOverlay => recorder_at(
            r,
            RecordStep::EndCommands,
            if ok {
                None
            } else {
                Some(RecordError::Overlay)
            },
        ),
        RecordStep::PresentBarrier { .. } => recorder_at(r, RecordStep::EndCommands, None),
        RecordStep::EndCommands => {
            let error = if !ok && r.error is None {
                Some(RecordError::End)
            } else {
                r.error
            };
            recorder_at(r, RecordStep::Finished { error }, error)
        },
        RecordStep::Finished { .. } => r,
    }
}

/// The recorder of a frame whose recording has not begun.
pub open spec fn unrecorded(input: RecordInput) -> FrameRecorder {
    FrameRecorder { input, at: RecordStep::UpdateUniforms, error: None }
}

impl FrameRecorder {
    /// Begins to record a frame: the first step is to write its uniforms.
    pub fn new(input: RecordInput) -> (r: Self)
        ensures
            r == unrecorded(input),
    {
        FrameRecorder { input, at: RecordStep::UpdateUniforms, error: None }
    }

    /// Goes on after the current step, given whether it went well.
    pub fn advance(&mut self, ok: bool) -> (step: RecordStep)
        ensures
            *final(self) == recorded(*old(self), ok),
            step == final(self).at,
    {
        match self.at {
            RecordStep::UpdateUniforms => {
                if ok {
                    let next: u32 = if self.input.frame_index % 2 == 0 {
                        1
                    } else {
                        0
                    };
                    self.at = RecordStep::ExecuteGraph { ao_frame: next };
                    self.error = None;
                } else {
                    self.at = RecordStep::EndCommands;
                    self.error = Some(RecordError::Uniforms);
                }
            },
            RecordStep::ExecuteGraph { .. } => {
                if ok {
                    self.leave_graph();
                } else {
                    self.at = RecordStep::EndCommands;
                    self.error = Some(RecordError::Graph);
                }
            },
            RecordStep::CreateOverlay => {
                if ok {
                    self.draw_overlay();
                } else {
                    self.at = RecordStep::EndCommands;
                    self.error = Some(RecordError::CreateOverlay);
                }
            },
            RecordStep::RecordOverlay => {
                self.at = RecordStep::EndCommands;
                self.error = if ok {
                    None
                } else {
                    Some(RecordError::Overlay)
                };
            },
            RecordStep::PresentBarrier { .. } => {
                self.at = RecordStep::EndCommands;
                self.error = None;
            },
            RecordStep::EndCommands => {
                if !ok && self.error.is_none() {
                    self.error = Some(RecordError::End);
                }
                self.at = RecordStep::Finished { error: self.error };
            },
            RecordStep::Finished { .. } => {},
        }
        self.at
    }

    fn leave_graph(&mut self)
        ensures
            *final(self) == after_graph(*old(self)),
    {
        if self.input.overlay_frame {
            if !self.input.overlay_created {
                self.at = RecordStep::CreateOverlay;
                self.error = None;
            } else {
                self.draw_overlay();
            }
        } else if self.input.has_swapchain {
            self.at =
            RecordStep::PresentBarrier {
                image_index: self.input.image_index,
                barrier: ImageBarrier {
                    base_level: 0,
                    level_count: 1,
                    old_layout: ImageLayout::ColorAttachment,
                    new_layout: ImageLayout::PresentSrc,
                    src_stage: PipelineStage::ColorAttachmentOutput,
                    src_access: Access::ColorAttachmentWrite,
                    dst_stage: PipelineStage::BottomOfPipe,
                    dst_access: Access::MemoryRead,
                },
            };
            self.error = None;
        } else {
            self.at = RecordStep::EndCommands;
            self.error = None;
        }
    }

    fn draw_overlay(&mut self)
        ensures
            *final(self) == after_overlay_exists(*old(self)),
    {
        if self.input.has_swapchain {
            self.at = RecordStep::RecordOverlay;
            self.error = None;
        } else {
            self.at = RecordStep::EndCommands;
            self.error = Some(RecordError::SwapchainMissing);
        }
    }
}

/// The steps of a recording whose steps go as given.
pub open spec fn steps_taken(r: FrameRecorder, outcomes: Seq<bool>) -> Seq<RecordStep>
    decreases outcomes.len(),
{
    if outcomes.len() == 0 || r.at is Finished {
        Seq::empty()
    } else {
        seq![r.at] + steps_taken(recorded(r, outcomes[0]), outcomes.drop_first())
    }
}

/// The recorder after steps that go as given.
pub open spec fn recorder_after(r: FrameRecorder, outcomes: Seq<bool>) -> FrameRecorder
    decreases outcomes.len(),
{
    if outcomes.len() == 0 {
        r
    } else {
        recorder_after(recorded(r, outcomes[0]), outcomes.drop_first())
    }
}

/// How many steps are left at most before the command buffer is ended.
pub open spec fn steps_left(at: RecordStep) -> nat {
    match at {
        RecordStep::UpdateUniforms => 4,
        RecordStep::ExecuteGraph { .. } => 3,
        RecordStep::CreateOverlay => 2,
        RecordStep::RecordOverlay => 1,
        RecordStep::PresentBarrier { .. } => 1,
        RecordStep::EndCommands => 0,
        RecordStep::Finished { .. } => 0,
    }
}

proof fn lemma_ends_commands(r: FrameRecorder, outcomes: Seq<bool>)
    requires
        !(r.at is Finished),
        outcomes.len() > steps_left(r.at),
    ensures
        recorder_after(r, outcomes).at is Finished,
        steps_taken(r, outcomes).len() > 0,
        steps_taken(r, outcomes).last() == RecordStep::EndCommands,
        forall|i: int|
            0 <= i < steps_taken(r, outcomes).len() - 1 ==> #[trigger] steps_taken(r, outcomes)[i]
                != RecordStep::EndCommands,
    decreases steps_left(r.at),
{
    let next = recorded(r, outcomes[0]);
    let rest = outcomes.drop_first();
    if r.at is EndCommands {
        assert(next.at is Finished);
        lemma_finished_stays(next, rest);
        assert(steps_taken(next, rest) =~= Seq::empty());
        assert(steps_taken(r, outcomes) =~= seq![RecordStep::EndCommands]);
    } else {
        lemma_ends_commands(next, rest);
        let tail = steps_taken(next, rest);
        assert(steps_taken(r, outcomes) == seq![r.at] + tail);
        assert(steps_taken(r, outcomes).last() == tail.last());
        assert forall|i: int|
            0 <= i < steps_taken(r, outcomes).len() - 1 implies #[trigger] steps_taken(
            r,
            outcomes,
        )[i] != RecordStep::EndCommands by {
            if i > 0 {
                assert(steps_taken(r, outcomes)[i] == tail[i - 1]);
            }
        }
    }
}

proof fn lemma_finished_stays(r: FrameRecorder, outcomes: Seq<bool>)
    requires
        r.at is Finished,
    ensures
        recorder_after(r, outcomes) == r,
    decreases outcomes.len(),
{
    if outcomes.len() > 0 {
        lemma_finished_stays(recorded(r, outcomes[0]), outcomes.drop_first());
    }
}

/// However its steps go, recording ends the command buffer exactly once, as the last of
/// at most five steps, so that it can always be submitted.
pub proof fn command_buffer_is_always_ended(input: RecordInput, outcomes: Seq<bool>)
    requires
        outcomes.len() >= 5,
    ensures
        recorder_after(unrecorded(input), outcomes).at is Finished,
        ({
            let steps = steps_taken(unrecorded(input), outcomes);
            &&& steps.len() > 0
            &&& steps.last() == RecordStep::EndCommands
            &&& forall|i: int|
                0 <= i < steps.len() - 1 ==> #[trigger] steps[i] != RecordStep::EndCommands
        }),
{
    lemma_ends_commands(unrecorded(input), outcomes);
}

/// A step that fails is the one whose error the recording ends with: what follows it
/// neither clears nor replaces its error.
pub proof fn first_error_is_reported(r: FrameRecorder, error: RecordError, outcomes: Seq<bool>)
    requires
        r.at is EndCommands,
        r.error == Some(error),
        outcomes.len() > 0,
    ensures
        recorder_after(r, outcomes).at == (RecordStep::Finished { error: Some(error) }),
{
    lemma_finished_stays(recorded(r, outcomes[0]), outcomes.drop_first());
}

/// A recording whose steps all go well fails only for an overlay without a swapchain.
pub proof fn good_recording_succeeds(input: RecordInput, outcomes: Seq<bool>)
    requires
        outcomes.len() >= 5,
        forall|i: int| 0 <= i < outcomes.len() ==> outcomes[i],
    ensures
        recorder_after(unrecorded(input), outcomes).at == (RecordStep::Finished {
            error: if input.overlay_frame && !input.has_swapchain {
                Some(RecordError::SwapchainMissing)
            } else {
                None
            },
        }),
{
    let want = RecordStep::Finished {
        error: if input.overlay_frame && !input.has_swapchain {
            Some(RecordError::SwapchainMissing)
        } else {
            None
        },
    };
    let r0 = unrecorded(input);
    let r1 = recorded(r0, true);
    let r2 = recorded(r1, true);
    let r3 = recorded(r2, true);
    let r4 = recorded(r3, true);
    let r5 = recorded(r4, true);
    let o1 = outcomes.drop_first();
    let o2 = o1.drop_first();
    let o3 = o2.drop_first();
    let o4 = o3.drop_first();
    let o5 = o4.drop_first();
    assert(o1[0] == outcomes[1] && o2[0] == outcomes[2] && o3[0] == outcomes[3] && o4[0]
        == outcomes[4]);
    assert(r5.at == want);
    lemma_finished_stays(r5, o5);
    assert(recorder_after(r4, o4) == recorder_after(r5, o5));
    assert(recorder_after(r3, o3) == recorder_after(r4, o4));
    assert(recorder_after(r2, o2) == recorder_after(r3, o3));
    assert(recorder_after(r1, o1) == recorder_after(r2, o2));
    assert(recorder_after(r0, outcomes) == recorder_after(r1, o1));
}

// ---------------------------------------------------------------------------
// The renderer's surface
// ---------------------------------------------------------------------------

/// How the presentation engine rotates the image.
#[derive(Clone, Copy, Debug, PartialEq, Eq, Structural)]
pub enum SurfaceTransform {
    Identity,
    Rotate90,
    Rotate180,
    Rotate270,
    Other,
}

/// A swapchain, as far as the renderer looks at it.
#[derive(Clone, Copy, Debug, PartialEq, Eq, Structural)]
pub struct SwapchainState {
    pub extent: Extent2D,
    pub image_count: usize,
    pub transform: SurfaceTransform,
}

/// The parts of the renderer that decide what it does.
pub struct GraphRenderer {
    /// There is no window to render to.
    pub headless: bool,
    pub swapchain: Option<SwapchainState>,
    /// The size of the target of a headless renderer.
    pub offscreen: Option<Extent2D>,
    /// The overlay's device objects are there.
    pub overlay: bool,
    /// Number of command buffers.
    pub command_buffers: usize,
    pub settings: GraphSettings,
}

/// What the renderer is set to.
#[derive(Clone, Copy, Debug, PartialEq, Eq, Structural)]
pub struct GraphSettings {
    /// Number of the shadow mode.
    pub shadow_mode: u32,
    pub ray_tracing_enabled: bool,
    /// Where to stop accumulating path-traced samples; 0 is nowhere.
    pub pt_max_iterations: u32,
}

/// The device objects of one frame.
#[derive(Clone, Copy, Debug, PartialEq, Eq, Structural)]
pub struct FrameCtx {
    /// Which command buffer the frame is recorded into.
    pub command_buffer: usize,
    pub image_index: u32,
    pub frame_index: u32,
    pub extent: Extent2D,
    pub fence: u64,
    pub image_available: u64,
    pub render_finished: u64,
}

/// What acquiring the next image gave.
#[derive(Clone, Copy, Debug, PartialEq, Eq, Structural)]
pub struct Acquired {
    pub image_index: u32,
    pub frame: usize,
    pub image_available: u64,
    pub render_finished: u64,
    pub fence: u64,
}

/// There is no image to draw to besides the window's.
#[derive(Clone, Copy, Debug, PartialEq, Eq, Structural)]
pub struct NoOffscreen;

/// Clear the image of a headless renderer, copy it to where the host can read it, and wait
/// for the device.
#[derive(Clone, Copy, Debug, PartialEq, Eq, Structural)]
pub struct OffscreenClear {
    pub extent: Extent2D,
    pub color: ClearColor,
}

/// How a frame begins.
#[derive(Clone, Copy, Debug, PartialEq, Eq, Structural)]
pub enum BeginStep {
    /// Reset and begin the command buffer of this frame.
    Record(FrameCtx),
    /// Acquire the next image first.
    Acquire,
    /// There is nothing to render to.
    NoSwapchain,
}

/// How a frame goes on once the next image was asked for.
#[derive(Clone, Copy, Debug, PartialEq, Eq, Structural)]
pub enum AcquiredStep {
    /// Reset and begin the command buffer of this frame.
    Record(FrameCtx),
    /// Recreate the swapchain and leave this frame out.
    Recreate,
    /// Fail with the error that came back.
    Fail,
}

/// How a recorded frame is handed over.
#[derive(Clone, Copy, Debug, PartialEq, Eq, Structural)]
pub enum PresentStep {
    /// Nothing: a headless target submits its own commands.
    Nothing,
    /// Submit between the two semaphores, then present the image.
    SubmitAndPresent {
        fence: u64,
        wait_for: u64,
        wait_stage: PipelineStage,
        signal: u64,
        image_index: u32,
    },
    /// Submit between the two semaphores, and fail: there is nothing to present to.
    SubmitAndFail { fence: u64, wait_for: u64, wait_stage: PipelineStage, signal: u64 },
}

/// How a frame ended.
#[derive(Clone, Copy, Debug, PartialEq, Eq, Structural)]
pub enum FrameError {
    Record(RecordError),
    Present,
}

/// Steps around the surface.
#[derive(Clone, Copy, Debug, PartialEq, Eq, Structural)]
pub enum SurfaceStep {
    /// Wait until the device is idle; recreation fails where that fails.
    WaitIdle,
    DropSceneTargets,
    SetSceneImageCount(usize),
    DropPostTargets,
    /// Make the occlusion targets anew; a failure is logged only.
    ResizeOcclusion(Extent2D),
    DropOverlayTargets,
    /// Recreate the swapchain, then call `GraphRenderer::swapchain_recreated`.
    RecreateSwapchain,
    ResetLayouts,
    DestroySwapchain,
}

/// Steps of taking the renderer down.
#[derive(Clone, Copy, Debug, PartialEq, Eq, Structural)]
pub enum ShutdownStep {
    WaitIdle,
    Ibl,
    Materials,
    Textures,
    Meshes,
    Pass(PassKind),
    SceneScope,
    Overlay,
    ShadowSampler,
    Graph,
    CommandPool,
    Swapchain,
    Offscreen,
}

/// The size that nothing has.
pub open spec fn no_extent() -> Extent2D {
    Extent2D { width: 0, height: 0 }
}

/// The text of the error by which a swapchain says that it no longer fits its surface.
pub open spec fn out_of_date_text() -> Seq<char> {
    "out of date"@
}

/// Whether an error says that the swapchain no longer fits its surface.
pub fn is_out_of_date(message: &str) -> (r: bool)
    ensures
        r == holds_text(message@, out_of_date_text()),
{
    contains_text(message, "out of date")
}

impl GraphRenderer {
    /// The size of the swapchain images, or nothing.
    pub open spec fn size(&self) -> Extent2D {
        match self.swapchain {
            Some(sw) => sw.extent,
            None => no_extent(),
        }
    }

    /// The frame of a headless renderer: always the first command buffer, with nothing
    /// to wait for.
    pub open spec fn headless_frame(&self) -> FrameCtx {
        FrameCtx {
            command_buffer: 0,
            image_index: 0,
            frame_index: 0,
            extent: match self.offscreen {
                Some(e) => e,
                None => Extent2D { width: FALLBACK_SIZE, height: FALLBACK_SIZE },
            },
            fence: 0,
            image_available: 0,
            render_finished: 0,
        }
    }

    /// The size of the swapchain images.
    pub fn extent(&self) -> (r: Extent2D)
        ensures
            r == self.size(),
    {
        match self.swapchain {
            Some(sw) => sw.extent,
            None => Extent2D { width: 0, height: 0 },
        }
    }

    /// Whether there is a swapchain.
    pub fn has_swapchain(&self) -> (r: bool)
        ensures
            r == (self.swapchain is Some),
    {
        self.swapchain.is_some()
    }

    /// Whether there is no window to render to.
    pub fn is_headless(&self) -> (r: bool)
        ensures
            r == self.headless,
    {
        self.headless
    }

    /// What clearing the image of a headless renderer takes: its size and the color. A
    /// renderer with a window has no such image.
    pub fn clear_offscreen(&self, color: ClearColor) -> (r: Result<OffscreenClear, NoOffscreen>)
        ensures
            r == (match self.offscreen {
                Some(extent) => Ok(OffscreenClear { extent, color }),
                None => Err(NoOffscreen),
            }),
    {
        match self.offscreen {
            Some(extent) => Ok(OffscreenClear { extent, color }),
            None => Err(NoOffscreen),
        }
    }

    /// How many bytes are read back from the image of a headless renderer: four for each
    /// pixel.
    pub fn readback_pixels(&self) -> (r: Result<u64, NoOffscreen>)
        requires
            self.offscreen matches Some(extent) ==> extent.width * extent.height * 4 <= u64::MAX,
        ensures
            match self.offscreen {
                Some(extent) => r matches Ok(bytes) && bytes == extent.width * extent.height * 4,
                None => r is Err,
            },
    {
        match self.offscreen {
            Some(extent) => {
                let width: u64 = extent.width as u64;
                let height: u64 = extent.height as u64;
                assert(width * height <= 0xffff_ffff * 0xffff_ffff) by (nonlinear_arith)
                    requires
                        width <= 0xffff_ffff,
                        height <= 0xffff_ffff,
                ;
                let pixels: u64 = width * height;
                Ok(pixels * 4)
            },
            None => Err(NoOffscreen),
        }
    }

    /// The first phase of a frame.
    pub fn begin_frame(&self) -> (r: BeginStep)
        ensures
            r == (if self.headless {
                BeginStep::Record(self.headless_frame())
            } else if self.swapchain is Some {
                BeginStep::Acquire
            } else {
                BeginStep::NoSwapchain
            }),
    {
        if self.headless {
            let extent = match self.offscreen {
                Some(e) => e,
                None => Extent2D { width: FALLBACK_SIZE, height: FALLBACK_SIZE },
            };
            return BeginStep::Record(
                FrameCtx {
                    command_buffer: 0,
                    image_index: 0,
                    frame_index: 0,
                    extent,
                    fence: 0,
                    image_available: 0,
                    render_finished: 0,
                },
            );
        }
        if self.swapchain.is_some() {
            BeginStep::Acquire
        } else {
            BeginStep::NoSwapchain
        }
    }

    /// The first phase of a frame, once the next image was asked for.
    pub fn acquired(&self, outcome: Result<Acquired, &str>) -> (r: AcquiredStep)
        requires
            outcome matches Ok(a) ==> a.frame < self.command_buffers && a.frame <= u32::MAX,
        ensures
            r == (match outcome {
                Ok(a) => AcquiredStep::Record(
                    FrameCtx {
                        command_buffer: a.frame,
                        image_index: a.image_index,
                        frame_index: a.frame as u32,
                        extent: self.size(),
                        fence: a.fence,
                        image_available: a.image_available,
                        render_finished: a.render_finished,
                    },
                ),
                Err(message) => if holds_text(message@, out_of_date_text()) {
                    AcquiredStep::Recreate
                } else {
                    AcquiredStep::Fail
                },
            }),
    {
        match outcome {
            Ok(a) => AcquiredStep::Record(
                FrameCtx {
                    command_buffer: a.frame,
                    image_index: a.image_index,
                    frame_index: a.frame as u32,
                    extent: self.extent(),
                    fence: a.fence,
                    image_available: a.image_available,
                    render_finished: a.render_finished,
                },
            ),
            Err(message) => if is_out_of_date(message) {
                AcquiredStep::Recreate
            } else {
                AcquiredStep::Fail
            },
        }
    }

    /// The last phase of a frame.
    pub fn present(&self, ctx: &FrameCtx) -> (r: PresentStep)
        ensures
            r == presenting(self.headless, self.swapchain is Some, *ctx),
    {
        if self.headless {
            return PresentStep::Nothing;
        }
        if self.swapchain.is_some() {
            PresentStep::SubmitAndPresent {
                fence: ctx.fence,
                wait_for: ctx.image_available,
                wait_stage: PipelineStage::ColorAttachmentOutput,
                signal: ctx.render_finished,
                image_index: ctx.image_index,
            }
        } else {
            PresentStep::SubmitAndFail {
                fence: ctx.fence,
                wait_for: ctx.image_available,
                wait_stage: PipelineStage::ColorAttachmentOutput,
                signal: ctx.render_finished,
            }
        }
    }

    /// The surface goes away.
    pub fn suspend_surface(&mut self) -> (r: Vec<SurfaceStep>)
        ensures
            r@ == suspension(old(self).headless, old(self).swapchain is Some),
            final(self).swapchain == (if old(self).headless {
                old(self).swapchain
            } else {
                None
            }),
            final(self).headless == old(self).headless,
            final(self).offscreen == old(self).offscreen,
            final(self).overlay == old(self).overlay,
            final(self).command_buffers == old(self).command_buffers,
            final(self).settings == old(self).settings,
    {
        let mut steps: Vec<SurfaceStep> = Vec::new();
        if self.headless {
            return steps;
        }
        steps.push(SurfaceStep::WaitIdle);
        if self.swapchain.is_some() {
            steps.push(SurfaceStep::DestroySwapchain);
            self.swapchain = None;
        }
        steps
    }

    /// Whether a swapchain has to be created now that there is a surface again.
    pub fn resume_surface(&self) -> (r: bool)
        ensures
            r == (!self.headless && self.swapchain is None),
    {
        !self.headless && self.swapchain.is_none()
    }

    /// What follows the presentation of a frame: an answer that the swapchain is out of
    /// date has it recreated. The answer is also what the frame comes to.
    pub fn presented(&self, out_of_date: bool) -> (r: Vec<SurfaceStep>)
        ensures
            r@ == (if out_of_date {
                self.recreate_steps()
            } else {
                Seq::empty()
            }),
    {
        if out_of_date {
            self.recreate_swapchain()
        } else {
            Vec::new()
        }
    }

    /// The steps of recreating the swapchain, up to the recreation itself.
    pub open spec fn recreate_steps(&self) -> Seq<SurfaceStep> {
        if self.headless {
            Seq::empty()
        } else {
            seq![
                SurfaceStep::WaitIdle,
                SurfaceStep::DropSceneTargets,
                SurfaceStep::DropPostTargets,
            ] + (if self.overlay {
                seq![SurfaceStep::DropOverlayTargets]
            } else {
                Seq::empty()
            }) + seq![
                if self.swapchain is Some {
                    SurfaceStep::RecreateSwapchain
                } else {
                    SurfaceStep::ResetLayouts
                },
            ]
        }
    }

    /// Recreates the swapchain: everything that wraps one of its images is dropped
    /// first. After the last step, `swapchain_recreated` takes over; where there is no
    /// swapchain, only the layouts that the graph remembers are forgotten.
    pub fn recreate_swapchain(&self) -> (r: Vec<SurfaceStep>)
        ensures
            r@ == self.recreate_steps(),
    {
        let mut steps: Vec<SurfaceStep> = Vec::new();
        if self.headless {
            return steps;
        }
        steps.push(SurfaceStep::WaitIdle);
        steps.push(SurfaceStep::DropSceneTargets);
        steps.push(SurfaceStep::DropPostTargets);
        if self.overlay {
            steps.push(SurfaceStep::DropOverlayTargets);
        }
        if self.swapchain.is_some() {
            steps.push(SurfaceStep::RecreateSwapchain);
        } else {
            steps.push(SurfaceStep::ResetLayouts);
        }
        assert(steps@ =~= self.recreate_steps());
        steps
    }

    /// The swapchain has been recreated: the passes follow its number of images and its
    /// size, and the layouts that the graph remembers are forgotten last.
    pub fn swapchain_recreated(&mut self, recreated: SwapchainState) -> (r: Vec<SurfaceStep>)
        requires
            !old(self).headless,
            old(self).swapchain is Some,
        ensures
            r@ == recreated_steps(recreated),
            *final(self) == (GraphRenderer { swapchain: Some(recreated), ..*old(self) }),
    {
        self.swapchain = Some(recreated);
        let mut steps: Vec<SurfaceStep> = Vec::new();
        steps.push(SurfaceStep::SetSceneImageCount(recreated.image_count));
        steps.push(SurfaceStep::ResizeOcclusion(recreated.extent));
        steps.push(SurfaceStep::ResetLayouts);
        steps
    }

    /// The steps of taking the renderer down.
    pub open spec fn shutdown_steps(&self) -> Seq<ShutdownStep> {
        seq![
            ShutdownStep::WaitIdle,
            ShutdownStep::Ibl,
            ShutdownStep::Materials,
            ShutdownStep::Textures,
            ShutdownStep::Meshes,
            ShutdownStep::Pass(PassKind::Scene),
            ShutdownStep::SceneScope,
            ShutdownStep::Pass(PassKind::Gtao),
            ShutdownStep::Pass(PassKind::Post),
            ShutdownStep::Pass(PassKind::PathTrace),
            ShutdownStep::Pass(PassKind::ShadowMap),
        ] + (if self.overlay {
            seq![ShutdownStep::Overlay]
        } else {
            Seq::empty()
        }) + seq![ShutdownStep::ShadowSampler, ShutdownStep::Graph, ShutdownStep::CommandPool] + (
        if self.swapchain is Some {
            seq![ShutdownStep::Swapchain]
        } else {
            Seq::empty()
        }) + (if self.offscreen is Some {
            seq![ShutdownStep::Offscreen]
        } else {
            Seq::empty()
        })
    }

    /// Takes the renderer down.
    pub fn destroy(&mut self) -> (r: Vec<ShutdownStep>)
        ensures
            r@ == old(self).shutdown_steps(),
            final(self).swapchain is None,
            final(self).offscreen is None,
            final(self).headless == old(self).headless,
            final(self).overlay == old(self).overlay,
            final(self).command_buffers == old(self).command_buffers,
            final(self).settings == old(self).settings,
    {
        let mut steps: Vec<ShutdownStep> = Vec::new();
        steps.push(ShutdownStep::WaitIdle);
        steps.push(ShutdownStep::Ibl);
        steps.push(ShutdownStep::Materials);
        steps.push(ShutdownStep::Textures);
        steps.push(ShutdownStep::Meshes);
        steps.push(ShutdownStep::Pass(PassKind::Scene));
        steps.push(ShutdownStep::SceneScope);
        steps.push(ShutdownStep::Pass(PassKind::Gtao));
        steps.push(ShutdownStep::Pass(PassKind::Post));
        steps.push(ShutdownStep::Pass(PassKind::PathTrace));
        steps.push(ShutdownStep::Pass(PassKind::ShadowMap));
        if self.overlay {
            steps.push(ShutdownStep::Overlay);
        }
        steps.push(ShutdownStep::ShadowSampler);
        steps.push(ShutdownStep::Graph);
        steps.push(ShutdownStep::CommandPool);
        if self.swapchain.is_some() {
            steps.push(ShutdownStep::Swapchain);
        }
        if self.offscreen.is_some() {
            steps.push(ShutdownStep::Offscreen);
        }
        assert(steps@ =~= old(self).shutdown_steps());
        self.swapchain = None;
        self.offscreen = None;
        steps
    }

    /// Number of path-traced samples, which stands still once accumulation stops;
    /// nothing where the graph has no path tracer.
    pub fn pt_frame_count(&self, counted: Option<u32>) -> (r: Option<u32>)
        ensures
            r == (match counted {
                Some(n) => Some(counted_samples(self.settings.pt_max_iterations, n)),
                None => None,
            }),
    {
        match counted {
            Some(n) => if self.settings.pt_max_iterations > 0 && n > self.settings.pt_max_iterations {
                Some(self.settings.pt_max_iterations)
            } else {
                Some(n)
            },
            None => None,
        }
    }

    /// The second phase of a frame: its recording, which goes on step by step.
    pub fn execute(&self, ctx: &FrameCtx, overlay_frame: bool) -> (r: FrameRecorder)
        ensures
            r == unrecorded(
                RecordInput {
                    frame_index: ctx.frame_index,
                    image_index: ctx.image_index,
                    overlay_frame,
                    overlay_created: self.overlay,
                    has_swapchain: self.swapchain is Some,
                },
            ),
    {
        FrameRecorder::new(
            RecordInput {
                frame_index: ctx.frame_index,
                image_index: ctx.image_index,
                overlay_frame,
                overlay_created: self.overlay,
                has_swapchain: self.swapchain.is_some(),
            },
        )
    }

    /// Whether the overlay's device objects have to be created.
    pub fn ensure_egui_gpu(&self) -> (r: bool)
        ensures
            r == !self.overlay,
    {
        !self.overlay
    }
}

/// What a frame comes to, from its recording and its presentation: a presentation that
/// failed comes first, and a recording that failed is reported even though the frame was
/// presented.
pub fn frame_result(recorded: Option<RecordError>, presented: Result<bool, FrameError>) -> (r:
    Result<bool, FrameError>)
    ensures
        r == came_to(recorded, presented),
{
    match presented {
        Err(e) => Err(e),
        Ok(out_of_date) => match recorded {
            Some(e) => Err(FrameError::Record(e)),
            None => Ok(out_of_date),
        },
    }
}

/// What a frame leaves to its caller besides what is drawn.
#[derive(Clone, Copy, Debug, PartialEq, Eq, Structural)]
pub struct FrameFlags {
    /// The path tracer starts to accumulate afresh.
    pub pt_accum_dirty: bool,
    /// There is a camera: the sky is drawn and rays are traced.
    pub has_camera: bool,
    /// Shows through where nothing is drawn.
    pub clear_color: ClearColor,
    /// The user interface is drawn on top.
    pub ui_overlay: bool,
}

/// The flags of a frame that is drawn in one call: a camera, nothing accumulated, no user
/// interface, and a gray background that tells "nothing drew" from black.
pub fn one_call_flags() -> (r: FrameFlags)
    ensures
        r == (FrameFlags {
            pt_accum_dirty: true,
            has_camera: true,
            clear_color: ClearColor {
                r: 0x3f00_0000,
                g: 0x3f00_0000,
                b: 0x3f00_0000,
                a: FLOAT_ONE,
            },
            ui_overlay: false,
        }),
{
    FrameFlags {
        pt_accum_dirty: true,
        has_camera: true,
        clear_color: ClearColor { r: 0x3f00_0000, g: 0x3f00_0000, b: 0x3f00_0000, a: FLOAT_ONE },
        ui_overlay: false,
    }
}

/// Nothing that wraps a swapchain image is left when the swapchain is recreated, and the
/// device has finished with all of it.
pub proof fn wrappers_go_before_the_swapchain(st: GraphRenderer, i: int)
    requires
        0 <= i < st.recreate_steps().len(),
        st.recreate_steps()[i] == SurfaceStep::RecreateSwapchain,
    ensures
        st.recreate_steps().take(i).contains(SurfaceStep::DropSceneTargets),
        st.recreate_steps().take(i).contains(SurfaceStep::DropPostTargets),
        st.overlay ==> st.recreate_steps().take(i).contains(SurfaceStep::DropOverlayTargets),
        st.recreate_steps()[0] == SurfaceStep::WaitIdle,
        i == st.recreate_steps().len() - 1,
{
    let steps = st.recreate_steps();
    assert(steps[1] == SurfaceStep::DropSceneTargets);
    assert(steps[2] == SurfaceStep::DropPostTargets);
    assert(steps.take(i)[1] == SurfaceStep::DropSceneTargets);
    assert(steps.take(i)[2] == SurfaceStep::DropPostTargets);
    if st.overlay {
        assert(steps[3] == SurfaceStep::DropOverlayTargets);
        assert(steps.take(i)[3] == SurfaceStep::DropOverlayTargets);
    }
}

/// Every pass is taken down before the graph that holds it, and the scene pass before
/// the probe volume that it borrows.
pub proof fn passes_go_before_the_graph(st: GraphRenderer, kind: PassKind)
    ensures
        ({
            let steps = st.shutdown_steps();
            exists|i: int, j: int|
                0 <= i < j < steps.len() && #[trigger] steps[i] == ShutdownStep::Pass(kind)
                    && #[trigger] steps[j] == ShutdownStep::Graph
        }),
        st.shutdown_steps()[5] == ShutdownStep::Pass(PassKind::Scene),
        st.shutdown_steps()[6] == ShutdownStep::SceneScope,
{
    let steps = st.shutdown_steps();
    let g: int = if st.overlay {
        13
    } else {
        12
    };
    let i: int = match kind {
        PassKind::Scene => 5,
        PassKind::Gtao => 7,
        PassKind::Post => 8,
        PassKind::PathTrace => 9,
        PassKind::ShadowMap => 10,
    };
    assert(steps[i] == ShutdownStep::Pass(kind));
    assert(steps[g] == ShutdownStep::Graph);
}

// ---------------------------------------------------------------------------
// Creation
// ---------------------------------------------------------------------------

/// Number of textures that the bindless table holds.
pub const TEXTURE_CAPACITY: u32 = 1024;

/// Number of command buffers of a headless renderer.
pub const HEADLESS_COMMAND_BUFFERS: u32 = 2;

/// Steps of creating the renderer. A step that fails is the last one.
#[derive(Clone, Copy, Debug, PartialEq, Eq, Structural)]
pub enum CreateStep {
    /// Create the device, with what a window needs unless there is none.
    Context { headless: bool },
    Swapchain,
    /// Create the image that a headless renderer draws to.
    Offscreen,
    /// Create the layout and pool of the frame sets, a uniform buffer for each frame in
    /// flight, the command pool and the command buffers.
    Runtime { frames: u32, command_buffers: u32 },
    Ibl,
    Textures { capacity: u32 },
    Materials,
    Meshes,
    /// Create the sampler that compares depths. Its border is white and opaque where
    /// `white_border` says so.
    ShadowSampler { sampler: SamplerInfo, white_border: bool },
    /// Create a pass: for a picture of this size, and with what it needs for each of so
    /// many frames, where the pass asks for it.
    Pass { kind: PassKind, extent: Option<Extent2D>, frames: Option<u32> },
    /// Create the images of the graph, the shadow map among them.
    GraphImages,
    /// Put the table of the reflectance function into the bindless table.
    RegisterBrdf,
    SceneScope,
    /// Hand the scene pass everything that it draws with: what `wire_scene` makes of what
    /// was created.
    WireScene,
    /// Append a pass to the graph.
    Register(PassKind),
}

/// The sampler that shadows are read with.
pub open spec fn shadow_sampler() -> SamplerInfo {
    SamplerInfo {
        filter: Filter::Linear,
        address: AddressMode::ClampToEdge,
        all_levels: false,
        comparison: Comparison::Less,
    }
}

/// Creates a pass that asks for neither a size nor a number of frames.
pub open spec fn plain_pass(kind: PassKind) -> CreateStep {
    CreateStep::Pass { kind, extent: None, frames: None }
}

/// The steps that are the same with and without a window, for a picture of this size.
pub open spec fn common_creation(extent: Extent2D) -> Seq<CreateStep> {
    seq![
        CreateStep::Ibl,
        CreateStep::Textures { capacity: TEXTURE_CAPACITY },
        CreateStep::Materials,
        CreateStep::Meshes,
        CreateStep::ShadowSampler { sampler: shadow_sampler(), white_border: true },
        plain_pass(PassKind::ShadowMap),
        CreateStep::Register(PassKind::ShadowMap),
        CreateStep::GraphImages,
        CreateStep::RegisterBrdf,
        plain_pass(PassKind::Scene),
        CreateStep::SceneScope,
        CreateStep::WireScene,
        CreateStep::Pass { kind: PassKind::Gtao, extent: Some(extent), frames: None },
        CreateStep::Pass { kind: PassKind::Post, extent: None, frames: Some(FRAMES_IN_FLIGHT) },
        plain_pass(PassKind::PathTrace),
        CreateStep::Register(PassKind::Scene),
        CreateStep::Register(PassKind::Gtao),
        CreateStep::Register(PassKind::PathTrace),
        CreateStep::Register(PassKind::Post),
    ]
}

/// The steps of creating a renderer for a window whose swapchain has `image_count`
/// images of this size.
pub open spec fn windowed_creation(image_count: u32, extent: Extent2D) -> Seq<CreateStep> {
    seq![
        CreateStep::Context { headless: false },
        CreateStep::Swapchain,
        CreateStep::Runtime { frames: FRAMES_IN_FLIGHT, command_buffers: image_count },
    ] + common_creation(extent)
}

/// The steps of creating a renderer without a window, which draws to an image of this
/// size.
pub open spec fn headless_creation(extent: Extent2D) -> Seq<CreateStep> {
    seq![
        CreateStep::Context { headless: true },
        CreateStep::Offscreen,
        CreateStep::Runtime {
            frames: FRAMES_IN_FLIGHT,
            command_buffers: HEADLESS_COMMAND_BUFFERS,
        },
    ] + common_creation(extent)
}

fn push_common(steps: &mut Vec<CreateStep>, extent: Extent2D)
    ensures
        final(steps)@ == old(steps)@ + common_creation(extent),
{
    steps.push(CreateStep::Ibl);
    steps.push(CreateStep::Textures { capacity: TEXTURE_CAPACITY });
    steps.push(CreateStep::Materials);
    steps.push(CreateStep::Meshes);
    steps.push(
        CreateStep::ShadowSampler {
            sampler: SamplerInfo {
                filter: Filter::Linear,
                address: AddressMode::ClampToEdge,
                all_levels: false,
                comparison: Comparison::Less,
            },
            white_border: true,
        },
    );
    steps.push(CreateStep::Pass { kind: PassKind::ShadowMap, extent: None, frames: None });
    steps.push(CreateStep::Register(PassKind::ShadowMap));
    steps.push(CreateStep::GraphImages);
    steps.push(CreateStep::RegisterBrdf);
    steps.push(CreateStep::Pass { kind: PassKind::Scene, extent: None, frames: None });
    steps.push(CreateStep::SceneScope);
    steps.push(CreateStep::WireScene);
    steps.push(CreateStep::Pass { kind: PassKind::Gtao, extent: Some(extent), frames: None });
    steps.push(
        CreateStep::Pass { kind: PassKind::Post, extent: None, frames: Some(FRAMES_IN_FLIGHT) },
    );
    steps.push(CreateStep::Pass { kind: PassKind::PathTrace, extent: None, frames: None });
    steps.push(CreateStep::Register(PassKind::Scene));
    steps.push(CreateStep::Register(PassKind::Gtao));
    steps.push(CreateStep::Register(PassKind::PathTrace));
    steps.push(CreateStep::Register(PassKind::Post));
    assert(steps@ =~= old(steps)@ + common_creation(extent));
}

impl GraphRenderer {
    /// Plans a renderer for a window. What it is once all steps went well is given by
    /// its swapchain, and by the default settings and the shadow mode that the device
    /// allows. Ray tracing is off.
    pub fn new(swapchain: SwapchainState, defaults: GraphSettings, shadow_mode: u32) -> (r: (
        Vec<CreateStep>,
        Self,
    ))
        requires
            swapchain.image_count <= u32::MAX,
        ensures
            r.0@ == windowed_creation(swapchain.image_count as u32, swapchain.extent),
            !r.1.headless,
            r.1.swapchain == Some(swapchain),
            r.1.offscreen is None,
            !r.1.overlay,
            r.1.command_buffers == swapchain.image_count,
            r.1.settings == (GraphSettings {
                shadow_mode,
                ray_tracing_enabled: false,
                ..defaults
            }),
    {
        let mut steps: Vec<CreateStep> = Vec::new();
        steps.push(CreateStep::Context { headless: false });
        steps.push(CreateStep::Swapchain);
        steps.push(
            CreateStep::Runtime {
                frames: FRAMES_IN_FLIGHT,
                command_buffers: swapchain.image_count as u32,
            },
        );
        push_common(&mut steps, swapchain.extent);
        assert(steps@ =~= windowed_creation(swapchain.image_count as u32, swapchain.extent));
        let renderer = GraphRenderer {
            headless: false,
            swapchain: Some(swapchain),
            offscreen: None,
            overlay: false,
            command_buffers: swapchain.image_count,
            settings: GraphSettings {
                shadow_mode,
                ray_tracing_enabled: false,
                pt_max_iterations: defaults.pt_max_iterations,
            },
        };
        (steps, renderer)
    }

    /// Plans a renderer without a window, which draws to an image of the given size. Ray
    /// tracing is off.
    pub fn headless_new(offscreen: Extent2D, defaults: GraphSettings, shadow_mode: u32) -> (r: (
        Vec<CreateStep>,
        Self,
    ))
        ensures
            r.0@ == headless_creation(offscreen),
            r.1.headless,
            r.1.swapchain is None,
            r.1.offscreen == Some(offscreen),
            !r.1.overlay,
            r.1.command_buffers == HEADLESS_COMMAND_BUFFERS,
            r.1.settings == (GraphSettings {
                shadow_mode,
                ray_tracing_enabled: false,
                ..defaults
            }),
    {
        let mut steps: Vec<CreateStep> = Vec::new();
        steps.push(CreateStep::Context { headless: true });
        steps.push(CreateStep::Offscreen);
        steps.push(
            CreateStep::Runtime {
                frames: FRAMES_IN_FLIGHT,
                command_buffers: HEADLESS_COMMAND_BUFFERS,
            },
        );
        push_common(&mut steps, offscreen);
        assert(steps@ =~= headless_creation(offscreen));
        let renderer = GraphRenderer {
            headless: true,
            swapchain: None,
            offscreen: Some(offscreen),
            overlay: false,
            command_buffers: HEADLESS_COMMAND_BUFFERS as usize,
            settings: GraphSettings {
                shadow_mode,
                ray_tracing_enabled: false,
                pt_max_iterations: defaults.pt_max_iterations,
            },
        };
        (steps, renderer)
    }
}

/// A descriptor set and its layout.
#[derive(Clone, Copy, Debug, PartialEq, Eq, Structural)]
pub struct SetHandles {
    pub set: u64,
    pub layout: u64,
}

/// What was created for the scene pass to draw with.
pub struct CreatedObjects {
    /// The environment.
    pub ibl: SetHandles,
    /// The view of the shadow map, from the images of the graph.
    pub shadow_view: u64,
    pub shadow_sampler: u64,
    /// The bindless textures.
    pub bindless: SetHandles,
    pub materials: u64,
    /// The uniform buffer of each frame in flight.
    pub frame_ubos: Vec<u64>,
    /// Bindless slot of the table of the reflectance function.
    pub brdf_handle: u32,
    /// The probe volume of the scene.
    pub probes: SetHandles,
}

/// What the scene pass is wired to, from what was created.
pub fn wire_scene(created: CreatedObjects) -> (r: SceneInputs)
    ensures
        r.borrowed == (BorrowedSets {
            bindless_set: created.bindless.set,
            bindless_layout: created.bindless.layout,
            ibl_set: created.ibl.set,
            ibl_layout: created.ibl.layout,
            gi_set: created.probes.set,
            gi_layout: created.probes.layout,
            brdf_handle: created.brdf_handle,
        }),
        r.shadow_view == created.shadow_view,
        r.shadow_sampler == created.shadow_sampler,
        r.materials == created.materials,
        r.ubos == created.frame_ubos,
{
    SceneInputs {
        borrowed: BorrowedSets {
            bindless_set: created.bindless.set,
            bindless_layout: created.bindless.layout,
            ibl_set: created.ibl.set,
            ibl_layout: created.ibl.layout,
            gi_set: created.probes.set,
            gi_layout: created.probes.layout,
            brdf_handle: created.brdf_handle,
        },
        shadow_view: created.shadow_view,
        shadow_sampler: created.shadow_sampler,
        materials: created.materials,
        ubos: created.frame_ubos,
    }
}

/// The step that takes down what a step creates; nothing where it creates nothing that
/// is taken down on its own.
pub open spec fn undone_by(step: CreateStep) -> Option<ShutdownStep> {
    match step {
        CreateStep::Swapchain => Some(ShutdownStep::Swapchain),
        CreateStep::Offscreen => Some(ShutdownStep::Offscreen),
        CreateStep::Runtime { .. } => Some(ShutdownStep::CommandPool),
        CreateStep::Ibl => Some(ShutdownStep::Ibl),
        CreateStep::Textures { .. } => Some(ShutdownStep::Textures),
        CreateStep::Materials => Some(ShutdownStep::Materials),
        CreateStep::Meshes => Some(ShutdownStep::Meshes),
        CreateStep::ShadowSampler { .. } => Some(ShutdownStep::ShadowSampler),
        CreateStep::Pass { kind, .. } => Some(ShutdownStep::Pass(kind)),
        CreateStep::GraphImages => Some(ShutdownStep::Graph),
        CreateStep::SceneScope => Some(ShutdownStep::SceneScope),
        _ => None,
    }
}

/// Everything that was created is taken down, with and without a window.
pub proof fn everything_created_is_taken_down(
    st: GraphRenderer,
    image_count: u32,
    extent: Extent2D,
    i: int,
)
    requires
        st.headless ==> st.swapchain is None && st.offscreen is Some,
        !st.headless ==> st.swapchain is Some && st.offscreen is None,
        0 <= i < windowed_creation(image_count, extent).len(),
    ensures
        ({
            let step = if st.headless {
                headless_creation(extent)[i]
            } else {
                windowed_creation(image_count, extent)[i]
            };
            undone_by(step) matches Some(end) ==> st.shutdown_steps().contains(end)
        }),
{
    let steps = st.shutdown_steps();
    let k: int = if st.overlay {
        1
    } else {
        0
    };
    assert(steps[1] == ShutdownStep::Ibl);
    assert(steps[2] == ShutdownStep::Materials);
    assert(steps[3] == ShutdownStep::Textures);
    assert(steps[4] == ShutdownStep::Meshes);
    assert(steps[5] == ShutdownStep::Pass(PassKind::Scene));
    assert(steps[6] == ShutdownStep::SceneScope);
    assert(steps[7] == ShutdownStep::Pass(PassKind::Gtao));
    assert(steps[8] == ShutdownStep::Pass(PassKind::Post));
    assert(steps[9] == ShutdownStep::Pass(PassKind::PathTrace));
    assert(steps[10] == ShutdownStep::Pass(PassKind::ShadowMap));
    assert(steps[11 + k] == ShutdownStep::ShadowSampler);
    assert(steps[12 + k] == ShutdownStep::Graph);
    assert(steps[13 + k] == ShutdownStep::CommandPool);
    assert(steps[14 + k] == (if st.headless {
        ShutdownStep::Offscreen
    } else {
        ShutdownStep::Swapchain
    }));
}

/// Passes are appended to the graph in the order in which they run.
pub proof fn passes_are_registered_in_order(extent: Extent2D, p: int, q: int)
    requires
        0 <= p < q < pass_order().len(),
    ensures
        exists|i: int, j: int|
            0 <= i < j < common_creation(extent).len() && #[trigger] common_creation(extent)[i]
                == CreateStep::Register(pass_order()[p]) && #[trigger] common_creation(extent)[j]
                == CreateStep::Register(pass_order()[q]),
{
    let i: int = if p == 0 {
        6
    } else {
        14 + p
    };
    let j: int = 14 + q;
    assert(common_creation(extent)[i] == CreateStep::Register(pass_order()[p]));
    assert(common_creation(extent)[j] == CreateStep::Register(pass_order()[q]));
}

// ---------------------------------------------------------------------------
// Baked light and orientation
// ---------------------------------------------------------------------------

/// The bit pattern of the share of rays, 0.05 in single precision, under which a bake
/// has missed the scene.
pub const MIN_HIT_RATIO_BITS: u32 = 0x3d4c_cccd;

/// Why a baked probe volume is not used.
#[derive(Clone, Copy, Debug, PartialEq, Eq, Structural)]
pub enum ProbeRefusal {
    /// It was baked for another scene.
    OtherScene,
    /// Nearly all rays missed.
    AllMissed,
    /// There is no file, or it cannot be read.
    NoFile,
}

/// What a file of a baked probe volume says about itself.
pub struct BakedVolume {
    pub scene_name: String,
    /// The share of rays that hit, as the bit pattern of a single-precision number.
    pub hit_ratio: u32,
}

/// A share of rays that was measured and is too small. A negative number says that
/// nothing was measured.
pub open spec fn too_few_hits(hit_ratio: u32) -> bool {
    !less(hit_ratio, 0) && less(hit_ratio, MIN_HIT_RATIO_BITS)
}

/// The volume says that it belongs to another scene than the one that is loaded.
pub open spec fn other_scene(loaded: Option<Seq<char>>, baked: Seq<char>) -> bool {
    match loaded {
        Some(name) => name.len() > 0 && baked.len() > 0 && baked != name,
        None => false,
    }
}

/// Why a probe volume is not used in the loaded scene; nothing where it is.
pub open spec fn refusal(loaded: Option<Seq<char>>, baked: Seq<char>, hit_ratio: u32) -> Option<
    ProbeRefusal,
> {
    if other_scene(loaded, baked) {
        Some(ProbeRefusal::OtherScene)
    } else if too_few_hits(hit_ratio) {
        Some(ProbeRefusal::AllMissed)
    } else {
        None
    }
}

/// Whether a baked probe volume can be used in the loaded scene. The share of rays that
/// hit is given as the bit pattern of a single-precision number.
pub fn load_probe_volume_data(loaded: Option<&str>, baked: &str, hit_ratio: u32) -> (r: Option<
    ProbeRefusal,
>)
    ensures
        r == refusal(
            match loaded {
                Some(name) => Some(name@),
                None => None,
            },
            baked@,
            hit_ratio,
        ),
{
    if let Some(name) = loaded {
        let named: bool = name.unicode_len() > 0 && baked.unicode_len() > 0;
        if named && !same_text(name, baked) {
            return Some(ProbeRefusal::OtherScene);
        }
    }
    if !is_less(hit_ratio, 0) && is_less(hit_ratio, MIN_HIT_RATIO_BITS) {
        return Some(ProbeRefusal::AllMissed);
    }
    None
}

/// Whether a baked probe volume can be used that was read from a file. Where there is no
/// file, light goes on as it was.
pub fn load_probe_volume_file(loaded: Option<&str>, file: Option<&BakedVolume>) -> (r: Option<
    ProbeRefusal,
>)
    ensures
        r == (match file {
            Some(volume) => refusal(
                match loaded {
                    Some(name) => Some(name@),
                    None => None,
                },
                volume.scene_name@,
                volume.hit_ratio,
            ),
            None => Some(ProbeRefusal::NoFile),
        }),
{
    match file {
        Some(volume) => load_probe_volume_data(
            loaded,
            volume.scene_name.as_str(),
            volume.hit_ratio,
        ),
        None => Some(ProbeRefusal::NoFile),
    }
}

/// Turns of the picture, in quarters of a full turn.
#[derive(Clone, Copy, Debug, PartialEq, Eq, Structural)]
pub enum QuarterTurns {
    Zero,
    Plus,
    Half,
    Minus,
}

/// How the picture is oriented: its aspect ratio as width over height, and how far it is
/// turned. A picture without height has the ratio one to one.
#[derive(Clone, Copy, Debug, PartialEq, Eq, Structural)]
pub struct Orientation {
    pub width: u32,
    pub height: u32,
    pub turn: QuarterTurns,
}

/// The longer side counts as the width.
pub open spec fn landscape(extent: Extent2D) -> (u32, u32) {
    let (w, h) = if extent.width < extent.height {
        (extent.height, extent.width)
    } else {
        (extent.width, extent.height)
    };
    if h == 0 {
        (1u32, 1u32)
    } else {
        (w, h)
    }
}

/// The turn that makes up for what the presentation engine does.
pub open spec fn turn_of(transform: SurfaceTransform) -> QuarterTurns {
    match transform {
        SurfaceTransform::Rotate90 => QuarterTurns::Plus,
        SurfaceTransform::Rotate270 => QuarterTurns::Minus,
        SurfaceTransform::Rotate180 => QuarterTurns::Half,
        _ => QuarterTurns::Zero,
    }
}

/// How the picture of a swapchain of this size is oriented.
pub open spec fn oriented(extent: Extent2D, transform: SurfaceTransform) -> Orientation {
    Orientation {
        width: landscape(extent).0,
        height: landscape(extent).1,
        turn: turn_of(transform),
    }
}

/// How the picture of a swapchain is oriented. Without one there is nothing to turn.
pub fn orientation_of(swapchain: Option<SwapchainState>) -> (r: Orientation)
    ensures
        r == (match swapchain {
            Some(sw) => oriented(sw.extent, sw.transform),
            None => oriented(no_extent(), SurfaceTransform::Identity),
        }),
{
    let (extent, transform) = match swapchain {
        Some(sw) => (sw.extent, sw.transform),
        None => (Extent2D { width: 0, height: 0 }, SurfaceTransform::Identity),
    };
    let (w, h): (u32, u32) = if extent.width < extent.height {
        (extent.height, extent.width)
    } else {
        (extent.width, extent.height)
    };
    let turn = match transform {
        SurfaceTransform::Rotate90 => QuarterTurns::Plus,
        SurfaceTransform::Rotate270 => QuarterTurns::Minus,
        SurfaceTransform::Rotate180 => QuarterTurns::Half,
        _ => QuarterTurns::Zero,
    };
    if h == 0 {
        Orientation { width: 1, height: 1, turn }
    } else {
        Orientation { width: w, height: h, turn }
    }
}

impl GraphRenderer {
    /// How the picture is oriented.
    pub fn orientation(&self) -> (r: Orientation)
        ensures
            r == (match self.swapchain {
                Some(sw) => oriented(sw.extent, sw.transform),
                None => oriented(no_extent(), SurfaceTransform::Identity),
            }),
    {
        orientation_of(self.swapchain)
    }
}

/// The picture is never higher than it is wide.
pub proof fn picture_is_landscape(extent: Extent2D, transform: SurfaceTransform)
    ensures
        oriented(extent, transform).height <= oriented(extent, transform).width,
        oriented(extent, transform).height > 0,
{
}

/// `m` is the transpose of the rotation of `view`, without the translation.
pub open spec fn turned_back<T>(view: [[T; 4]; 4], zero: T, one: T, m: [[T; 4]; 4]) -> bool {
    &&& forall|c: int, r: int|
        0 <= c < 3 && 0 <= r < 3 ==> (#[trigger] m@[c]@[r]) == view@[r]@[c]
    &&& forall|k: int| 0 <= k < 3 ==> (#[trigger] m@[k])@[3] == zero && m@[3]@[k] == zero
    &&& m@[3]@[3] == one
}

/// The inverse of a view's rotation: its transpose, without the translation.
pub fn inv_view_rot<T: Copy>(view: &[[T; 4]; 4], zero: T, one: T) -> (m: [[T; 4]; 4])
    ensures
        turned_back(*view, zero, one, m),
{
    let a: [T; 4] = [view[0][0], view[1][0], view[2][0], zero];
    let b: [T; 4] = [view[0][1], view[1][1], view[2][1], zero];
    let c: [T; 4] = [view[0][2], view[1][2], view[2][2], zero];
    let d: [T; 4] = [zero, zero, zero, one];
    [a, b, c, d]
}

/// The occlusion that a frame reads is that of the frame before: with two frames in flight,
/// the other one.
pub proof fn frame_reads_the_other_occlusion(r: FrameRecorder)
    requires
        r.at == RecordStep::UpdateUniforms,
        r.input.frame_index < 2,
    ensures
        recorded(r, true).at == (RecordStep::ExecuteGraph {
            ao_frame: (1 - r.input.frame_index) as u32,
        }),
{
}

/// What follows the graph of a good frame: with something to draw over it, the overlay, made
/// first where it is missing; else the image of the frame is handed to the presentation
/// engine; and without a swapchain nothing.
pub proof fn graph_is_followed_by_the_overlay_or_the_presentation(r: FrameRecorder, ao: u32)
    requires
        r.at == (RecordStep::ExecuteGraph { ao_frame: ao }),
    ensures
        ({
            let next = recorded(r, true).at;
            let i = r.input;
            &&& i.overlay_frame && !i.overlay_created ==> next == RecordStep::CreateOverlay
            &&& i.overlay_frame && i.overlay_created && i.has_swapchain ==> next
                == RecordStep::RecordOverlay
            &&& !i.overlay_frame && i.has_swapchain ==> {
                &&& next matches RecordStep::PresentBarrier { image_index, barrier }
                    && image_index == i.image_index && barrier.old_layout
                    == ImageLayout::ColorAttachment && barrier.new_layout
                    == ImageLayout::PresentSrc
            }
            &&& !i.overlay_frame && !i.has_swapchain ==> next == RecordStep::EndCommands
        }),
{
}

/// A failed step is reported as what it was, and the command buffer is ended next.
pub proof fn failed_step_is_named(r: FrameRecorder)
    ensures
        ({
            let after = recorded(r, false);
            match r.at {
                RecordStep::UpdateUniforms => after.at == RecordStep::EndCommands && after.error
                    == Some(RecordError::Uniforms),
                RecordStep::ExecuteGraph { .. } => after.at == RecordStep::EndCommands
                    && after.error == Some(RecordError::Graph),
                RecordStep::CreateOverlay => after.at == RecordStep::EndCommands && after.error
                    == Some(RecordError::CreateOverlay),
                RecordStep::RecordOverlay => after.at == RecordStep::EndCommands && after.error
                    == Some(RecordError::Overlay),
                RecordStep::EndCommands => after.at is Finished && after.error is Some,
                _ => true,
            }
        }),
{
}

/// A baked volume is used unless it names another scene than the one that is loaded, or too
/// few of its rays hit anything. A volume or a scene without a name fits any.
pub proof fn volume_of_another_scene_is_refused(
    loaded: Option<Seq<char>>,
    baked: Seq<char>,
    hit_ratio: u32,
)
    ensures
        ({
            let r = refusal(loaded, baked, hit_ratio);
            let named = loaded matches Some(name) && name.len() > 0 && baked.len() > 0;
            let few = !less(hit_ratio, 0) && less(hit_ratio, MIN_HIT_RATIO_BITS);
            &&& named && loaded != Some(baked) ==> r == Some(ProbeRefusal::OtherScene)
            &&& (!named || loaded == Some(baked)) && few ==> r == Some(ProbeRefusal::AllMissed)
            &&& (!named || loaded == Some(baked)) && !few ==> r is None
        }),
{
}

/// The picture has the pixels of the swapchain, its longer side across, and is turned back
/// by as much as the surface is turned.
pub proof fn picture_fits_the_surface(extent: Extent2D, transform: SurfaceTransform)
    requires
        extent.width > 0,
        extent.height > 0,
    ensures
        ({
            let o = oriented(extent, transform);
            &&& o.width >= o.height
            &&& o.width == extent.width && o.height == extent.height || o.width == extent.height
                && o.height == extent.width
            &&& transform == SurfaceTransform::Identity ==> o.turn == QuarterTurns::Zero
            &&& transform == SurfaceTransform::Rotate90 ==> o.turn == QuarterTurns::Plus
            &&& transform == SurfaceTransform::Rotate180 ==> o.turn == QuarterTurns::Half
            &&& transform == SurfaceTransform::Rotate270 ==> o.turn == QuarterTurns::Minus
        }),
{
}

/// A headless frame is drawn to its image, in its size, and waits for nothing.
pub proof fn headless_frame_is_its_image(st: GraphRenderer, size: Extent2D)
    requires
        st.offscreen == Some(size),
    ensures
        ({
            let f = st.headless_frame();
            &&& f.extent == size
            &&& f.command_buffer == 0 && f.image_index == 0 && f.frame_index == 0
            &&& f.fence == 0 && f.image_available == 0 && f.render_finished == 0
        }),
{
}

/// Every pass of a new renderer is created before it is registered, the occlusion pass in
/// the size of the picture and the last pass for two frames in flight, and the scene pass
/// is wired before it is registered.
pub proof fn passes_are_created_before_they_are_registered(extent: Extent2D, i: int)
    requires
        0 <= i < common_creation(extent).len(),
    ensures
        match common_creation(extent)[i] {
            CreateStep::Register(kind) => exists|j: int|
                0 <= j < i && (#[trigger] common_creation(extent)[j] matches CreateStep::Pass {
                    kind: k,
                    ..
                } && k == kind),
            CreateStep::Pass { kind, extent: e, frames } => {
                &&& kind == PassKind::Gtao ==> e == Some(extent)
                &&& kind == PassKind::Post ==> frames == Some(2u32)
            },
            _ => true,
        },
        common_creation(extent)[i] == CreateStep::Register(PassKind::Scene) ==> common_creation(
            extent,
        ).take(i).contains(CreateStep::WireScene),
{
    let steps = common_creation(extent);
    if let CreateStep::Register(kind) = steps[i] {
        let j: int = match kind {
            PassKind::ShadowMap => 5,
            PassKind::Scene => 9,
            PassKind::Gtao => 12,
            PassKind::Post => 13,
            PassKind::PathTrace => 14,
        };
        assert(steps[j] matches CreateStep::Pass { kind: k, .. } && k == kind);
        assert(j < i);
        if kind == PassKind::Scene {
            assert(steps.take(i)[11] == CreateStep::WireScene);
        }
    }
}

// ---------------------------------------------------------------------------
// The ends of a frame and of a surface
// ---------------------------------------------------------------------------

/// The last phase of a frame.
pub open spec fn presenting(headless: bool, attached: bool, ctx: FrameCtx) -> PresentStep {
    if headless {
        PresentStep::Nothing
    } else if attached {
        PresentStep::SubmitAndPresent {
            fence: ctx.fence,
            wait_for: ctx.image_available,
            wait_stage: PipelineStage::ColorAttachmentOutput,
            signal: ctx.render_finished,
            image_index: ctx.image_index,
        }
    } else {
        PresentStep::SubmitAndFail {
            fence: ctx.fence,
            wait_for: ctx.image_available,
            wait_stage: PipelineStage::ColorAttachmentOutput,
            signal: ctx.render_finished,
        }
    }
}

/// A frame is submitted with its own fence and semaphores, and its own image is presented;
/// without a window nothing is submitted here, and without a swapchain nothing presented.
pub proof fn frame_presents_its_own_image(headless: bool, attached: bool, ctx: FrameCtx)
    ensures
        match presenting(headless, attached, ctx) {
            PresentStep::Nothing => headless,
            PresentStep::SubmitAndPresent { fence, wait_for, wait_stage, signal, image_index } => {
                &&& !headless && attached
                &&& image_index == ctx.image_index
                &&& (fence, wait_for, signal) == (
                    ctx.fence,
                    ctx.image_available,
                    ctx.render_finished,
                )
                &&& wait_stage == PipelineStage::ColorAttachmentOutput
            },
            PresentStep::SubmitAndFail { fence, wait_for, wait_stage, signal } => {
                &&& !headless && !attached
                &&& (fence, wait_for, signal) == (
                    ctx.fence,
                    ctx.image_available,
                    ctx.render_finished,
                )
                &&& wait_stage == PipelineStage::ColorAttachmentOutput
            },
        },
{
}

/// The number of samples that is shown for `n` frames under a limit; no limit is zero.
pub open spec fn counted_samples(limit: u32, n: u32) -> u32 {
    if limit > 0 && n > limit {
        limit
    } else {
        n
    }
}

/// The samples are counted up to the limit, where they stand still.
pub proof fn samples_stand_still_at_the_limit(limit: u32, n: u32)
    ensures
        counted_samples(0, n) == n,
        n <= limit ==> counted_samples(limit, n) == n,
        0 < limit <= n ==> counted_samples(limit, n) == limit,
{
}

/// What a frame comes to.
pub open spec fn came_to(
    recorded: Option<RecordError>,
    presented: Result<bool, FrameError>,
) -> Result<bool, FrameError> {
    match presented {
        Err(e) => Err(e),
        Ok(out_of_date) => match recorded {
            Some(e) => Err(FrameError::Record(e)),
            None => Ok(out_of_date),
        },
    }
}

/// A frame is good only if its recording and its presentation were, and then the
/// presentation's answer is handed on; otherwise no error gets lost but behind a
/// presentation that failed.
pub proof fn frame_is_good_only_if_all_of_it_was(
    recorded: Option<RecordError>,
    presented: Result<bool, FrameError>,
)
    ensures
        came_to(recorded, presented) is Ok <==> recorded is None && presented is Ok,
        came_to(recorded, presented) is Ok ==> came_to(recorded, presented) == presented,
        presented is Err ==> came_to(recorded, presented) == presented,
        presented is Ok && recorded is Some ==> came_to(recorded, presented) == Err::<
            bool,
            FrameError,
        >(FrameError::Record(recorded->Some_0)),
{
}

/// The steps with which a surface goes away.
pub open spec fn suspension(headless: bool, attached: bool) -> Seq<SurfaceStep> {
    if headless {
        Seq::empty()
    } else if attached {
        seq![SurfaceStep::WaitIdle, SurfaceStep::DestroySwapchain]
    } else {
        seq![SurfaceStep::WaitIdle]
    }
}

/// A swapchain is destroyed with its surface exactly where there is one, and only once the
/// device is idle.
pub proof fn swapchain_goes_with_its_surface(headless: bool, attached: bool, i: int)
    requires
        0 <= i < suspension(headless, attached).len(),
    ensures
        !headless,
        suspension(headless, attached)[0] == SurfaceStep::WaitIdle,
        suspension(headless, attached)[i] == SurfaceStep::DestroySwapchain ==> attached && i > 0,
        attached ==> suspension(headless, attached).contains(SurfaceStep::DestroySwapchain),
{
    if attached {
        assert(suspension(headless, attached)[1] == SurfaceStep::DestroySwapchain);
    }
}

/// The steps after a swapchain was recreated.
pub open spec fn recreated_steps(recreated: SwapchainState) -> Seq<SurfaceStep> {
    seq![
        SurfaceStep::SetSceneImageCount(recreated.image_count),
        SurfaceStep::ResizeOcclusion(recreated.extent),
        SurfaceStep::ResetLayouts,
    ]
}

/// The passes follow the new swapchain, in its number of images and its size, and the
/// layouts are forgotten once nothing more changes.
pub proof fn passes_follow_the_swapchain(recreated: SwapchainState, count: usize, extent: Extent2D)
    ensures
        recreated_steps(recreated).contains(SurfaceStep::SetSceneImageCount(count)) <==> count
            == recreated.image_count,
        recreated_steps(recreated).contains(SurfaceStep::ResizeOcclusion(extent)) <==> extent
            == recreated.extent,
        recreated_steps(recreated).last() == SurfaceStep::ResetLayouts,
{
    let steps = recreated_steps(recreated);
    assert(steps[0] == SurfaceStep::SetSceneImageCount(recreated.image_count));
    assert(steps[1] == SurfaceStep::ResizeOcclusion(recreated.extent));
}

/// Turning back undoes the rotation: where the axes of `view` are of length one and stand
/// across each other, the two matrices one after the other leave everything in place.
pub proof fn turning_back_undoes_the_view(
    view: [[int; 4]; 4],
    m: [[int; 4]; 4],
    c: int,
    r: int,
)
    requires
        turned_back(view, 0, 1, m),
        0 <= c < 3,
        0 <= r < 3,
        view@[r]@[0] * view@[c]@[0] + view@[r]@[1] * view@[c]@[1] + view@[r]@[2] * view@[c]@[2]
            == (if r == c {
            1int
        } else {
            0
        }),
    ensures
        m@[0]@[r] * view@[c]@[0] + m@[1]@[r] * view@[c]@[1] + m@[2]@[r] * view@[c]@[2] == (if r
            == c {
            1int
        } else {
            0
        }),
        m@[3]@[c] == 0 && m@[c]@[3] == 0 && m@[3]@[3] == 1,
{
    assert(m@[0]@[r] == view@[r]@[0]);
    assert(m@[1]@[r] == view@[r]@[1]);
    assert(m@[2]@[r] == view@[r]@[2]);
    assert(m@[c]@[3] == 0);
}

/// The image is handed over as it was drawn: what wrote its colors is waited for, and
/// nothing more of the frame comes behind.
pub proof fn image_is_handed_over_as_drawn()
    ensures
        present_transition().old_layout == ImageLayout::ColorAttachment,
        present_transition().src_stage == PipelineStage::ColorAttachmentOutput,
        present_transition().src_access == Access::ColorAttachmentWrite,
        present_transition().new_layout == ImageLayout::PresentSrc,
        present_transition().dst_stage == PipelineStage::BottomOfPipe,
        present_transition().dst_access == Access::MemoryRead,
        present_transition().base_level == 0 && present_transition().level_count == 1,
{
}

} // verus!
