use prism::bindless::Comparison;
use prism::gpu::{ClearColor, Extent2D, ImageLayout, PipelineStage};
use prism::graph_renderer::{
    frame_result, inv_view_rot, is_out_of_date, load_probe_volume_data, load_probe_volume_file,
    one_call_flags, passes, wire_scene, Acquired, AcquiredStep, BakedVolume, BeginStep, CreateStep, CreatedObjects, FrameCtx,
    FrameError, FrameRecorder, GraphRenderer, GraphSettings, NoOffscreen, OffscreenClear, Orientation, PassKind,
    PresentStep, ProbeRefusal, QuarterTurns, RecordError, RecordInput, RecordStep, SetHandles, ShutdownStep,
    SurfaceStep, SurfaceTransform, SwapchainState, MIN_HIT_RATIO_BITS,
};

fn extent(width: u32, height: u32) -> Extent2D {
    Extent2D { width, height }
}

fn settings() -> GraphSettings {
    GraphSettings { shadow_mode: 1, ray_tracing_enabled: true, pt_max_iterations: 0 }
}

fn windowed() -> GraphRenderer {
    GraphRenderer {
        headless: false,
        swapchain: Some(SwapchainState {
            extent: extent(800, 600),
            image_count: 3,
            transform: SurfaceTransform::Identity,
        }),
        offscreen: None,
        overlay: false,
        command_buffers: 2,
        settings: settings(),
    }
}

fn headless(offscreen: Option<Extent2D>) -> GraphRenderer {
    GraphRenderer {
        headless: true,
        swapchain: None,
        offscreen,
        overlay: false,
        command_buffers: 1,
        settings: settings(),
    }
}

fn input() -> RecordInput {
    RecordInput {
        frame_index: 1,
        image_index: 2,
        overlay_frame: false,
        overlay_created: false,
        has_swapchain: true,
    }
}

/// The steps of a recording in which the step at place `failing` fails.
fn steps_of(input: RecordInput, failing: usize) -> Vec<RecordStep> {
    let mut recorder = FrameRecorder::new(input);
    let mut steps = vec![recorder.at];
    for i in 0..10 {
        let step = recorder.advance(i != failing);
        steps.push(step);
        if let RecordStep::Finished { .. } = step {
            return steps;
        }
    }
    panic!("the recording does not end");
}

#[test]
fn plain_frame_is_recorded() {
    let steps = steps_of(input(), 99);
    assert_eq!(steps.len(), 5);
    assert_eq!(steps[0], RecordStep::UpdateUniforms);
    assert_eq!(steps[1], RecordStep::ExecuteGraph { ao_frame: 0 });
    assert!(matches!(steps[2], RecordStep::PresentBarrier { image_index: 2, barrier }
        if barrier.old_layout == ImageLayout::ColorAttachment
            && barrier.new_layout == ImageLayout::PresentSrc));
    assert_eq!(steps[3], RecordStep::EndCommands);
    assert_eq!(steps[4], RecordStep::Finished { error: None });
}

#[test]
fn overlay_frame_is_recorded() {
    let mut i = input();
    i.overlay_frame = true;
    assert_eq!(
        steps_of(i, 99)[2..],
        [
            RecordStep::CreateOverlay,
            RecordStep::RecordOverlay,
            RecordStep::EndCommands,
            RecordStep::Finished { error: None },
        ]
    );
    i.overlay_created = true;
    assert_eq!(steps_of(i, 99)[2], RecordStep::RecordOverlay);
}

#[test]
fn command_buffer_is_ended_after_an_error() {
    let mut i = input();
    i.overlay_frame = true;
    let errors = [
        RecordError::Uniforms,
        RecordError::Graph,
        RecordError::CreateOverlay,
        RecordError::Overlay,
        RecordError::End,
    ];
    for (place, error) in errors.iter().enumerate() {
        let steps = steps_of(i, place);
        assert_eq!(*steps.last().unwrap(), RecordStep::Finished { error: Some(*error) });
        assert_eq!(steps[steps.len() - 2], RecordStep::EndCommands);
    }
}

#[test]
fn overlay_needs_a_swapchain() {
    let mut i = input();
    i.overlay_frame = true;
    i.overlay_created = true;
    i.has_swapchain = false;
    assert_eq!(
        *steps_of(i, 99).last().unwrap(),
        RecordStep::Finished { error: Some(RecordError::SwapchainMissing) }
    );
    i.overlay_frame = false;
    assert_eq!(*steps_of(i, 99).last().unwrap(), RecordStep::Finished { error: None });
}

#[test]
fn first_error_stays() {
    let mut recorder = FrameRecorder::new(input());
    recorder.advance(false);
    let last = recorder.advance(false);
    assert_eq!(last, RecordStep::Finished { error: Some(RecordError::Uniforms) });
    assert_eq!(recorder.advance(false), last);
}

#[test]
fn headless_frame_needs_no_image() {
    assert!(matches!(headless(None).begin_frame(), BeginStep::Record(ctx)
        if ctx.extent == extent(256, 256) && ctx.fence == 0));
    let st = headless(Some(extent(64, 32)));
    match st.begin_frame() {
        BeginStep::Record(ctx) => {
            assert_eq!(ctx.extent, extent(64, 32));
            assert_eq!(st.present(&ctx), PresentStep::Nothing);
        }
        _ => panic!("nothing is acquired"),
    }
}

#[test]
fn windowed_frame_acquires_an_image() {
    let mut st = windowed();
    assert_eq!(st.begin_frame(), BeginStep::Acquire);
    let got = Acquired {
        image_index: 2,
        frame: 1,
        image_available: 11,
        render_finished: 12,
        fence: 13,
    };
    let ctx = FrameCtx {
        command_buffer: 1,
        image_index: 2,
        frame_index: 1,
        extent: extent(800, 600),
        fence: 13,
        image_available: 11,
        render_finished: 12,
    };
    assert_eq!(st.acquired(Ok(got)), AcquiredStep::Record(ctx));
    assert_eq!(st.acquired(Err("swapchain out of date")), AcquiredStep::Recreate);
    assert_eq!(st.acquired(Err("device lost")), AcquiredStep::Fail);
    assert_eq!(
        st.present(&ctx),
        PresentStep::SubmitAndPresent {
            fence: 13,
            wait_for: 11,
            wait_stage: PipelineStage::ColorAttachmentOutput,
            signal: 12,
            image_index: 2,
        }
    );
    assert_eq!(
        st.suspend_surface(),
        vec![SurfaceStep::WaitIdle, SurfaceStep::DestroySwapchain]
    );
    assert_eq!(st.suspend_surface(), vec![SurfaceStep::WaitIdle]);
    assert!(st.resume_surface() && !st.has_swapchain());
    assert_eq!(st.extent(), extent(0, 0));
    assert_eq!(st.begin_frame(), BeginStep::NoSwapchain);
    assert!(matches!(st.present(&ctx), PresentStep::SubmitAndFail { signal: 12, .. }));
    let mut none = headless(None);
    assert!(none.suspend_surface().is_empty());
    assert!(!none.resume_surface() && none.is_headless());
}

#[test]
fn passes_follow_the_new_swapchain() {
    let mut st = windowed();
    st.overlay = true;
    let steps = vec![
        SurfaceStep::WaitIdle,
        SurfaceStep::DropSceneTargets,
        SurfaceStep::DropPostTargets,
        SurfaceStep::DropOverlayTargets,
        SurfaceStep::RecreateSwapchain,
    ];
    assert_eq!(st.recreate_swapchain(), steps);
    assert_eq!(st.presented(true), steps);
    assert!(st.presented(false).is_empty());
    let recreated = SwapchainState {
        extent: extent(1024, 768),
        image_count: 2,
        transform: SurfaceTransform::Rotate90,
    };
    assert_eq!(
        st.swapchain_recreated(recreated),
        vec![
            SurfaceStep::SetSceneImageCount(2),
            SurfaceStep::ResizeOcclusion(extent(1024, 768)),
            SurfaceStep::ResetLayouts,
        ]
    );
    assert_eq!(st.extent(), extent(1024, 768));
    assert_eq!(st.swapchain, Some(recreated));
    st.swapchain = None;
    st.overlay = false;
    assert_eq!(
        st.recreate_swapchain(),
        vec![
            SurfaceStep::WaitIdle,
            SurfaceStep::DropSceneTargets,
            SurfaceStep::DropPostTargets,
            SurfaceStep::ResetLayouts,
        ]
    );
    assert!(headless(None).recreate_swapchain().is_empty());
}

#[test]
fn passes_go_before_the_graph_on_shutdown() {
    let mut st = windowed();
    let steps = st.destroy();
    assert_eq!(steps.len(), 15);
    let at = |s: ShutdownStep| steps.iter().position(|x| *x == s).unwrap();
    for p in passes() {
        assert!(at(ShutdownStep::Pass(p)) < at(ShutdownStep::Graph));
    }
    assert_eq!(*steps.last().unwrap(), ShutdownStep::Swapchain);
    assert!(!st.destroy().contains(&ShutdownStep::Swapchain));
    assert_eq!(passes()[0], PassKind::ShadowMap);
    assert_eq!(passes()[4], PassKind::Post);
}

#[test]
fn presentation_errors_come_first() {
    assert_eq!(frame_result(None, Ok(true)), Ok(true));
    assert_eq!(
        frame_result(Some(RecordError::Graph), Ok(false)),
        Err(FrameError::Record(RecordError::Graph))
    );
    assert_eq!(
        frame_result(Some(RecordError::Graph), Err(FrameError::Present)),
        Err(FrameError::Present)
    );
}

#[test]
fn out_of_date_is_found_in_the_message() {
    assert!(is_out_of_date("out of date"));
    assert!(is_out_of_date("present: swapchain is out of date (1)"));
    assert!(!is_out_of_date("out of dat"));
    assert!(!is_out_of_date(""));
}

#[test]
fn sample_count_stands_still() {
    let mut st = windowed();
    assert_eq!(st.pt_frame_count(Some(5000)), Some(5000));
    st.settings.pt_max_iterations = 64;
    assert_eq!(st.pt_frame_count(Some(65)), Some(64));
    assert_eq!(st.pt_frame_count(Some(63)), Some(63));
    assert_eq!(st.pt_frame_count(None), None);
    assert!(st.ensure_egui_gpu());
}

#[test]
fn probe_volumes_are_checked() {
    assert_eq!(MIN_HIT_RATIO_BITS, 0.05f32.to_bits());
    let good = 0.5f32.to_bits();
    assert_eq!(load_probe_volume_data(Some("a"), "a", good), None);
    assert_eq!(load_probe_volume_data(Some("a"), "b", good), Some(ProbeRefusal::OtherScene));
    assert_eq!(load_probe_volume_data(Some(""), "b", good), None);
    assert_eq!(load_probe_volume_data(Some("a"), "", good), None);
    assert_eq!(load_probe_volume_data(None, "b", good), None);
    let poor = 0.04f32.to_bits();
    assert_eq!(load_probe_volume_data(None, "", poor), Some(ProbeRefusal::AllMissed));
    assert_eq!(load_probe_volume_data(None, "", 0.05f32.to_bits()), None);
    assert_eq!(load_probe_volume_data(None, "", (-1.0f32).to_bits()), None);
    assert_eq!(load_probe_volume_data(None, "", (-0.0f32).to_bits()), Some(ProbeRefusal::AllMissed));
}

#[test]
fn longer_side_is_the_width() {
    let mut st = windowed();
    let turned = |st: &mut GraphRenderer, e: Extent2D, transform: SurfaceTransform| {
        st.swapchain = Some(SwapchainState { extent: e, image_count: 2, transform });
        st.orientation()
    };
    assert_eq!(
        turned(&mut st, extent(600, 800), SurfaceTransform::Rotate90),
        Orientation { width: 800, height: 600, turn: QuarterTurns::Plus }
    );
    assert_eq!(
        turned(&mut st, extent(800, 600), SurfaceTransform::Rotate270),
        Orientation { width: 800, height: 600, turn: QuarterTurns::Minus }
    );
    assert_eq!(
        turned(&mut st, extent(800, 0), SurfaceTransform::Rotate180),
        Orientation { width: 1, height: 1, turn: QuarterTurns::Half }
    );
    assert_eq!(
        turned(&mut st, extent(8, 8), SurfaceTransform::Other).turn,
        QuarterTurns::Zero
    );
}

#[test]
fn rotation_is_transposed() {
    let mut view = [[0i32; 4]; 4];
    for c in 0..4 {
        for r in 0..4 {
            view[c][r] = (10 * c + r) as i32;
        }
    }
    let inv = inv_view_rot(&view, 0, 1);
    assert_eq!(inv, [[0, 10, 20, 0], [1, 11, 21, 0], [2, 12, 22, 0], [0, 0, 0, 1]]);
}

#[test]
fn creation_and_shutdown_match() {
    let (steps, mut st) = GraphRenderer::new(SwapchainState {
        extent: extent(800, 600),
        image_count: 3,
        transform: SurfaceTransform::Identity,
    }, settings(), 2);
    assert_eq!(
        st.settings,
        GraphSettings { shadow_mode: 2, ray_tracing_enabled: false, pt_max_iterations: 0 }
    );
    assert_eq!(steps[0], CreateStep::Context { headless: false });
    assert_eq!(steps[1], CreateStep::Swapchain);
    assert_eq!(steps[2], CreateStep::Runtime { frames: 2, command_buffers: 3 });
    assert_eq!(steps.len(), 22);
    assert!(matches!(steps[7], CreateStep::ShadowSampler { sampler, white_border: true }
        if sampler.comparison == Comparison::Less));
    assert!(steps.contains(&CreateStep::Pass {
        kind: PassKind::Gtao,
        extent: Some(extent(800, 600)),
        frames: None,
    }));
    let registered: Vec<PassKind> = steps
        .iter()
        .filter_map(|s| match s {
            CreateStep::Register(p) => Some(*p),
            _ => None,
        })
        .collect();
    assert_eq!(registered, passes().to_vec());
    assert_eq!(st.command_buffers, 3);
    assert!(st.destroy().contains(&ShutdownStep::Swapchain));
    let (steps, mut st) = GraphRenderer::headless_new(extent(256, 256), settings(), 3);
    assert_eq!(steps[1], CreateStep::Offscreen);
    assert_eq!(steps[2], CreateStep::Runtime { frames: 2, command_buffers: 2 });
    assert!(st.is_headless());
    let end = st.destroy();
    assert!(end.contains(&ShutdownStep::Offscreen));
    assert!(!end.contains(&ShutdownStep::Swapchain));
}

#[test]
fn recording_begins_with_what_the_renderer_has() {
    let ctx = FrameCtx {
        command_buffer: 0,
        image_index: 2,
        frame_index: 1,
        extent: extent(800, 600),
        fence: 0,
        image_available: 0,
        render_finished: 0,
    };
    let mut st = windowed();
    st.overlay = true;
    let recorder = st.execute(&ctx, true);
    assert_eq!(recorder.at, RecordStep::UpdateUniforms);
    assert_eq!(
        recorder.input,
        RecordInput { overlay_frame: true, overlay_created: true, ..input() }
    );
    assert!(!headless(None).execute(&ctx, false).input.has_swapchain);
}

#[test]
fn background_of_a_one_call_frame_is_gray() {
    let flags = one_call_flags();
    assert!(flags.pt_accum_dirty && flags.has_camera && !flags.ui_overlay);
    let c = flags.clear_color;
    assert_eq!([c.r, c.g, c.b, c.a].map(f32::from_bits), [0.5, 0.5, 0.5, 1.0]);
}

#[test]
fn only_headless_pictures_are_read_back() {
    let (_, headless) = GraphRenderer::headless_new(extent(256, 256), settings(), 3);
    let black = ClearColor { r: 0, g: 0, b: 0, a: 0 };
    assert_eq!(
        headless.clear_offscreen(black),
        Ok(OffscreenClear { extent: extent(256, 256), color: black })
    );
    assert_eq!(headless.readback_pixels(), Ok(262144));
    assert_eq!(windowed().clear_offscreen(black), Err(NoOffscreen));
    assert_eq!(windowed().readback_pixels(), Err(NoOffscreen));
}

#[test]
fn missing_probe_file_is_refused() {
    let volume = BakedVolume { scene_name: "hall".to_string(), hit_ratio: 0.5f32.to_bits() };
    assert_eq!(load_probe_volume_file(Some("hall"), Some(&volume)), None);
    assert_eq!(load_probe_volume_file(Some("yard"), Some(&volume)), Some(ProbeRefusal::OtherScene));
    assert_eq!(load_probe_volume_file(Some("hall"), None), Some(ProbeRefusal::NoFile));
}

#[test]
fn scene_is_wired_to_what_was_created() {
    let pair = |n: u64| SetHandles { set: n, layout: n + 1 };
    let inputs = wire_scene(CreatedObjects {
        ibl: pair(10),
        shadow_view: 20,
        shadow_sampler: 21,
        bindless: pair(30),
        materials: 40,
        frame_ubos: vec![50, 51],
        brdf_handle: 6,
        probes: pair(70),
    });
    let b = inputs.borrowed;
    assert_eq!((b.ibl_set, b.ibl_layout), (10, 11));
    assert_eq!((b.bindless_set, b.bindless_layout), (30, 31));
    assert_eq!((b.gi_set, b.gi_layout, b.brdf_handle), (70, 71, 6));
    assert_eq!((inputs.shadow_view, inputs.shadow_sampler, inputs.materials), (20, 21, 40));
    assert_eq!(inputs.ubos, vec![50, 51]);
}
