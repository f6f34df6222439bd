use prism::bindless::SamplerType;
use prism::descriptor::{DescriptorKind, DescriptorSource, GpuLight};
use prism::forward_pass::commands::{
    plan_frame, DrawCommand, DrawItem, FrameOptions, MeshBuffers,
};
use prism::forward_pass::frame::{
    FrameFailure, FrameInput, FrameOutcome, FramePhase, FrameRun, FrameStep,
};
use prism::forward_pass::outputs::{attachments, setup, SceneOutput};
use prism::forward_pass::pass::{PassRelease, ScenePipeline};
use prism::forward_pass::resources::{BorrowedSets, ForwardError, SceneResources};
use prism::forward_pass::sets::{
    frame_layout, frame_pool, plan_frame_writes, plan_shadow_writes,
};
use prism::forward_pass::setup::{ResourceSetup, SceneInputs, SetupOutcome, SetupPhase, SetupStep};
use prism::forward_pass::targets::{published, SceneTargets, TargetStep};
use prism::forward_pass::ForwardPass;
use prism::gpu::{
    AttachedImage, AttachmentFormat, Blend, ClearColor, ClearDepth, Extent2D, ImageLayout, Release,
};

fn extent(width: u32, height: u32) -> Extent2D {
    Extent2D { width, height }
}

fn image(n: u64) -> AttachedImage {
    AttachedImage { image: n, view: n + 1 }
}

fn built_targets() -> SceneTargets {
    let mut t = SceneTargets::new();
    assert!(matches!(t.set_target(2, 0, extent(8, 4)), TargetStep::Build(_)));
    assert_eq!(t.put_color(0, image(10)), None);
    assert_eq!(t.put_depth(0, image(20)), None);
    assert_eq!(t.put_normal(0, image(30)), None);
    assert_eq!(t.attachments(0), Some([11, 21, 31]));
    assert_eq!(t.put_framebuffer(0, 99), None);
    t
}

#[test]
fn targets_are_built_once() {
    let mut t = built_targets();
    assert!(matches!(t.set_target(2, 0, extent(8, 4)), TargetStep::Ready(r) if r.is_empty()));
    assert_eq!(t.framebuffer(0), Some(99));
    assert_eq!(t.framebuffer(1), None);
    assert_eq!(t.color(0), Some(image(10)));
    assert_eq!(t.depth(0), Some(image(20)));
    assert_eq!(t.normal(0), Some(image(30)));
    assert_eq!(t.extent(), extent(8, 4));
}

#[test]
fn resize_rebuilds_the_targets() {
    let mut t = built_targets();
    match t.set_target(2, 0, extent(16, 4)) {
        TargetStep::Build(release) => {
            assert!(release.contains(&Release::Framebuffer(99)));
            assert!(release.contains(&Release::Image(image(10))));
            assert!(release.contains(&Release::Image(image(20))));
            assert!(release.contains(&Release::Image(image(30))));
        }
        _ => panic!("the targets are outdated"),
    }
    assert_eq!(t.framebuffer(0), None);
}

#[test]
fn dropped_targets_are_handed_out() {
    let mut t = built_targets();
    assert_eq!(t.drop_target().len(), 4);
    assert!(t.drop_target().is_empty());
}

#[test]
fn replaced_image_comes_back() {
    let mut t = built_targets();
    assert_eq!(t.put_color(0, image(40)), Some(image(10)));
    assert_eq!(t.color(0), Some(image(40)));
}

#[test]
fn published_outputs() {
    let t = built_targets();
    let all = published(&t, 0);
    assert!(all.contains(&Some(image(10))));
    assert!(all.contains(&Some(image(20))));
    assert!(all.contains(&Some(image(30))));
    assert_eq!(published(&t, 1), [None; 3]);
}

#[test]
fn frame_bindings_are_written() {
    let writes = plan_frame_writes(&vec![1, 2], &vec![11, 12], 50, 60);
    assert_eq!(writes.len(), 6);
    assert_eq!(writes[3].set, 2);
    assert!(matches!(writes[3].source, DescriptorSource::Buffer { buffer: 12, .. }));
    assert!(matches!(writes[4].source, DescriptorSource::Buffer { buffer: 50, .. }));
    assert!(matches!(writes[5].source, DescriptorSource::Buffer { buffer: 60, .. }));
    assert_eq!(frame_layout().bindings.len(), 3);
    assert_eq!(frame_pool(2).max_sets, 2);
    assert_eq!(plan_shadow_writes(3, 4, 5).len(), 2);
}

#[test]
fn outputs_are_declared() {
    let a = attachments();
    for u in setup() {
        let found = a.iter().find(|x| x.output == u.output).unwrap();
        assert_eq!(found.final_layout, u.layout);
    }
    assert_eq!(a[1].output, SceneOutput::Depth);
    assert_eq!(a[1].final_layout, ImageLayout::DepthStencilAttachment);
}

fn resources() -> SceneResources {
    let mut r = SceneResources::new();
    r.render_pass = Some(1);
    r.frame_layout = Some(2);
    r.frame_sets = vec![100, 101];
    r.shadow_layout = Some(3);
    r.shadow_set = 103;
    r.borrow_sets(BorrowedSets {
        bindless_set: 104,
        bindless_layout: 4,
        ibl_set: 105,
        ibl_layout: 5,
        gi_set: 106,
        gi_layout: 6,
        brdf_handle: 7,
    });
    r.put_ao(8, 9, 10, vec![107, 108]);
    r
}

fn gray() -> ClearColor {
    let half = 0.5f32.to_bits();
    ClearColor { r: half, g: half, b: half, a: 1.0f32.to_bits() }
}

fn options() -> FrameOptions<u8> {
    FrameOptions {
        image_index: 0,
        frame_index: 1,
        render_pass: 300,
        pipeline: ScenePipeline { pipeline: 301, layout: 302 },
        clear_color: gray(),
        view_proj: 7,
        inv_view_rot: 8,
        has_camera: true,
        has_gizmo: true,
        debug_flags: 3,
    }
}

fn mesh(index_buffer: Option<u64>) -> Option<MeshBuffers> {
    Some(MeshBuffers { vertex_buffer: 70, vertex_count: 12, index_buffer, index_count: 36 })
}

#[test]
fn frame_draws_each_uploaded_item() {
    let items = vec![
        DrawItem { mesh: mesh(Some(71)), model: 1u8, material: Some(4) },
        DrawItem { mesh: None, model: 2u8, material: None },
        DrawItem { mesh: mesh(None), model: 3u8, material: None },
    ];
    let list = plan_frame(&built_targets(), &resources(), &items, options()).expect("ready");
    assert_eq!(
        list[0],
        DrawCommand::BeginPass {
            render_pass: 300,
            framebuffer: 99,
            extent: built_targets().extent(),
            color: gray(),
            depth: ClearDepth { depth: 1.0f32.to_bits(), stencil: 0 },
            normal: ClearColor { r: 0, g: 0, b: 0, a: 0 },
        }
    );
    assert!(matches!(list[1], DrawCommand::Skybox { render_pass: 300, inv_view_rot: 8, .. }));
    assert_eq!(list[2], DrawCommand::BindPipeline(301));
    assert_eq!(*list.last().unwrap(), DrawCommand::EndPass);
    let draws: Vec<&DrawCommand<u8>> = list
        .iter()
        .filter(|c| matches!(c, DrawCommand::Draw(_) | DrawCommand::DrawIndexed(_)))
        .collect();
    assert_eq!(draws, vec![&DrawCommand::DrawIndexed(36), &DrawCommand::Draw(12)]);
    assert_eq!(list.iter().filter(|c| matches!(c, DrawCommand::Skybox { .. })).count(), 1);
    assert_eq!(list.iter().filter(|c| **c == DrawCommand::Gizmo { view_proj: 7 }).count(), 1);
    assert!(list.contains(&DrawCommand::BindSet { layout: 302, index: 0, set: 101 }));
}

#[test]
fn frame_without_a_camera_has_no_sky() {
    let mut o = options();
    o.has_camera = false;
    o.has_gizmo = false;
    let items: Vec<DrawItem<u8>> = Vec::new();
    let list = plan_frame(&built_targets(), &resources(), &items, o).expect("ready");
    assert!(!list.iter().any(|c| matches!(c, DrawCommand::Skybox { .. })));
    assert!(!list.iter().any(|c| matches!(c, DrawCommand::Gizmo { .. })));
}

#[test]
fn frame_needs_its_framebuffer() {
    let items: Vec<DrawItem<u8>> = Vec::new();
    let mut o = options();
    o.image_index = 1;
    assert!(matches!(
        plan_frame(&built_targets(), &resources(), &items, o),
        Err(ForwardError::NoFramebuffer)
    ));
}

#[test]
fn layouts_are_asked_for_in_order() {
    let mut r = resources();
    assert!(r.pipeline_layouts().is_ok());
    r.take_ao();
    assert!(matches!(r.pipeline_layouts(), Err(ForwardError::NoAoLayout)));
    r.take_shadow();
    assert!(matches!(r.pipeline_layouts(), Err(ForwardError::NoShadowLayout)));
    r.take_frame();
    assert!(matches!(r.pipeline_layouts(), Err(ForwardError::NoFrameLayout)));
}

#[test]
fn occlusion_is_bound_once() {
    let mut r = resources();
    assert!(r.set_ao(0, 500).is_some());
    assert!(r.set_ao(0, 500).is_none());
    assert!(r.set_ao(1, 500).is_some());
}

fn borrowed() -> BorrowedSets {
    BorrowedSets {
        bindless_set: 104,
        bindless_layout: 4,
        ibl_set: 105,
        ibl_layout: 5,
        gi_set: 106,
        gi_layout: 6,
        brdf_handle: 7,
    }
}

fn inputs() -> SceneInputs {
    SceneInputs {
        borrowed: borrowed(),
        shadow_view: 61,
        shadow_sampler: 62,
        materials: 63,
        ubos: vec![71, 72],
    }
}

/// Wires a pass; every object that is created gets the next handle.
fn wire(pass: &mut ForwardPass, next: &mut u64, destroyed: &mut Vec<Release>) {
    let inputs = inputs();
    let mut setup = ResourceSetup::new();
    let mut outcome = SetupOutcome::Done;
    for _ in 0..30 {
        let step = pass.set_resources(&mut setup, &inputs, outcome);
        *next += 1;
        outcome = match step {
            SetupStep::CreateLayout(_) => SetupOutcome::Object(*next),
            SetupStep::CreatePool { release, .. } => {
                destroyed.extend(release);
                SetupOutcome::Object(*next)
            }
            SetupStep::AllocateSets { layouts, .. } => {
                SetupOutcome::Sets(layouts.iter().map(|l| l + 1000).collect())
            }
            SetupStep::CreateLightBuffer(buffer) => {
                assert_eq!((buffer.size, buffer.usage, buffer.memory), (256, 0x20, 6));
                *next += 1;
                SetupOutcome::Buffer { buffer: *next - 1, memory: *next }
            }
            SetupStep::ClearMemory { memory, size } => {
                assert_eq!((memory, size), (setup.light_memory, 256));
                SetupOutcome::Done
            }
            SetupStep::WriteSets { release, .. } => {
                destroyed.extend(release);
                SetupOutcome::Done
            }
            SetupStep::CreateSampler { release, sampler } => {
                assert_eq!(sampler, SamplerType::LinearClamp.create_info());
                destroyed.extend(release);
                SetupOutcome::Object(*next)
            }
            SetupStep::Finished => return,
            SetupStep::Failed => panic!("no step fails"),
        };
    }
    panic!("wiring does not end");
}

#[test]
fn pass_is_wired_step_by_step() {
    let mut pass = ForwardPass::new();
    let mut destroyed = Vec::new();
    let mut next = 0;
    wire(&mut pass, &mut next, &mut destroyed);
    assert!(destroyed.is_empty());
    let r = &pass.resources;
    assert_eq!(r.frame_sets.len(), 2);
    assert_eq!(r.ao_views, vec![0, 0]);
    assert_ne!(r.shadow_set, 0);
    assert_eq!((r.ibl_set, r.brdf_handle), (105, 7));
    assert!(r.frame_layout.is_some() && r.shadow_layout.is_some() && r.ao_layout.is_some());
}

#[test]
fn wiring_again_gives_up_what_was_there() {
    let mut pass = ForwardPass::new();
    let mut destroyed = Vec::new();
    let mut next = 0;
    wire(&mut pass, &mut next, &mut destroyed);
    let r = &pass.resources;
    let owned = vec![
        Release::SetLayout(r.frame_layout.unwrap()),
        Release::Pool(r.frame_pool.unwrap()),
        Release::Buffer(r.light_buffer),
        Release::Memory(r.light_memory),
        Release::SetLayout(r.shadow_layout.unwrap()),
        Release::Pool(r.shadow_pool.unwrap()),
        Release::SetLayout(r.ao_layout.unwrap()),
        Release::Pool(r.ao_pool.unwrap()),
        Release::Sampler(r.ao_sampler),
    ];
    wire(&mut pass, &mut next, &mut destroyed);
    assert_eq!(destroyed, owned);
}

#[test]
fn failed_wiring_keeps_what_comes_later() {
    let mut pass = ForwardPass::new();
    let mut next = 0;
    wire(&mut pass, &mut next, &mut Vec::new());
    let shadow = pass.resources.shadow_layout;
    let inputs = inputs();
    let mut setup = ResourceSetup::new();
    let first = pass.set_resources(&mut setup, &inputs, SetupOutcome::Done);
    assert!(matches!(first, SetupStep::CreateLayout(l)
        if l.bindings.len() == 3 && l.bindings[0].kind == DescriptorKind::UniformBuffer));
    assert!(matches!(
        pass.set_resources(&mut setup, &inputs, SetupOutcome::Object(500)),
        SetupStep::CreatePool { .. }
    ));
    assert!(matches!(
        pass.set_resources(&mut setup, &inputs, SetupOutcome::Failed),
        SetupStep::Failed
    ));
    assert_eq!(setup.phase, SetupPhase::Failed);
    assert_eq!(pass.resources.frame_layout, None);
    assert_eq!(pass.resources.shadow_layout, shadow);
}

fn frame_input() -> FrameInput<u8> {
    FrameInput {
        items: vec![DrawItem { mesh: mesh(None), model: 1u8, material: None }],
        lights: vec![GpuLight { position: [1; 4], color: [2; 4] }],
        ao_view: 900,
        clear_color: gray(),
        view_proj: 7,
        inv_view_rot: 8,
        has_camera: true,
        debug_flags: 0,
    }
}

/// Runs a frame; every object that is created gets the next handle.
fn run_frame(pass: &mut ForwardPass, run: &mut FrameRun, next: &mut u64) -> Vec<String> {
    let input = frame_input();
    let mut log = Vec::new();
    let mut outcome = FrameOutcome::Done;
    for _ in 0..40 {
        let step = pass.execute(run, &input, outcome);
        *next += 2;
        let name;
        (name, outcome) = match step {
            FrameStep::Continue => ("", FrameOutcome::Done),
            FrameStep::CreateRenderPass(_) => ("pass", FrameOutcome::Object(*next)),
            FrameStep::CreateGizmo { .. } => ("gizmo", FrameOutcome::Done),
            FrameStep::CreateColor { .. } => ("color", FrameOutcome::Image(image(*next))),
            FrameStep::CreateDepth { .. } => ("depth", FrameOutcome::Image(image(*next))),
            FrameStep::CreateNormal { .. } => ("normal", FrameOutcome::Image(image(*next))),
            FrameStep::CreateFramebuffer { .. } => ("framebuffer", FrameOutcome::Object(*next)),
            FrameStep::WriteSet(_) => ("write", FrameOutcome::Done),
            FrameStep::WriteLights { words, .. } => {
                assert_eq!(words.len(), 64);
                ("lights", FrameOutcome::Done)
            }
            FrameStep::CreatePipeline { push_size, blends, .. } => {
                assert_eq!(push_size, 128);
                assert_eq!(blends, [Blend::Alpha, Blend::Replace]);
                let made = ScenePipeline { pipeline: *next, layout: *next + 1 };
                ("pipeline", FrameOutcome::Pipeline(made))
            }
            FrameStep::Record(list) => {
                assert!(matches!(list[0], DrawCommand::BeginPass { .. }));
                ("record", FrameOutcome::Done)
            }
            FrameStep::Finished(_) => return log,
            FrameStep::Failed(why) => {
                log.push(format!("{:?}", why));
                return log;
            }
        };
        if name != "" {
            log.push(name.to_string());
        }
    }
    panic!("the frame does not end");
}

fn wired_pass() -> (ForwardPass, u64) {
    let mut pass = ForwardPass::new();
    let mut next = 0;
    wire(&mut pass, &mut next, &mut Vec::new());
    pass.set_image_count(2);
    (pass, next)
}

#[test]
fn first_frame_creates_everything() {
    let (mut pass, mut next) = wired_pass();
    let mut run = FrameRun::new(1, 0, extent(8, 4));
    assert_eq!(
        run_frame(&mut pass, &mut run, &mut next),
        vec![
            "pass", "gizmo", "color", "depth", "normal", "framebuffer", "write", "lights",
            "pipeline", "record",
        ]
    );
    assert_eq!(run.phase, FramePhase::Finished);
    assert!(pass.color_view(1).is_some() && pass.depth_image(1).is_some());
    assert_eq!(pass.normal_view(0), None);
    assert_eq!(pass.extent(), extent(8, 4));
    let mut again = FrameRun::new(1, 0, extent(8, 4));
    assert_eq!(run_frame(&mut pass, &mut again, &mut next), vec!["lights", "record"]);
    let mut other = FrameRun::new(0, 1, extent(8, 4));
    assert_eq!(
        run_frame(&mut pass, &mut other, &mut next),
        vec!["color", "depth", "normal", "framebuffer", "write", "lights", "record"]
    );
}

#[test]
fn warm_up_draws_nothing() {
    let (mut pass, mut next) = wired_pass();
    let mut run = pass.warmup();
    assert_eq!(run_frame(&mut pass, &mut run, &mut next), vec!["pass", "gizmo", "pipeline"]);
    let mut run = pass.warmup();
    assert!(run_frame(&mut pass, &mut run, &mut next).is_empty());
}

#[test]
fn minimized_window_has_no_framebuffer() {
    let (mut pass, mut next) = wired_pass();
    let mut run = FrameRun::new(0, 0, extent(0, 4));
    let log = run_frame(&mut pass, &mut run, &mut next);
    let missing = FrameFailure::Missing(ForwardError::NoFramebuffer);
    assert_eq!(*log.last().unwrap(), format!("{:?}", missing));
}

#[test]
fn failed_step_ends_the_frame() {
    let (mut pass, _) = wired_pass();
    let mut run = FrameRun::new(0, 0, extent(8, 4));
    let input = frame_input();
    pass.execute(&mut run, &input, FrameOutcome::Done);
    assert_eq!(run.phase, FramePhase::RenderPass);
    assert!(matches!(
        pass.execute(&mut run, &input, FrameOutcome::Failed),
        FrameStep::Failed(FrameFailure::Device)
    ));
}

#[test]
fn pass_is_torn_down_once() {
    let (mut pass, mut next) = wired_pass();
    let mut run = FrameRun::new(0, 0, extent(8, 4));
    run_frame(&mut pass, &mut run, &mut next);
    let list = pass.destroy();
    assert_eq!(list.len(), 4 + 1 + 2 + 2 + 2 + 2 + 2 + 3);
    assert!(matches!(list[0], PassRelease::Object(Release::Framebuffer(_))));
    assert!(list.contains(&PassRelease::Skybox) && list.contains(&PassRelease::Gizmo));
    assert!(pass.release().is_empty());
    assert_eq!(pass.destroy(), vec![PassRelease::Skybox]);
}

#[test]
fn forgotten_pass_leaves_color_and_normals() {
    let (mut pass, mut next) = wired_pass();
    let mut run = FrameRun::new(0, 0, extent(8, 4));
    run_frame(&mut pass, &mut run, &mut next);
    let color = pass.color_image(0).unwrap();
    let depth = pass.depth_image(0).unwrap();
    let list = pass.release();
    let gone = |n: u64| {
        list.iter().any(|r| matches!(r, PassRelease::Object(Release::Image(i)) if i.image == n))
    };
    assert!(gone(depth) && !gone(color));
    assert!(pass.release().is_empty());
}

#[test]
fn environment_and_outputs() {
    let mut pass = ForwardPass::new();
    pass.set_ibl(5, 6);
    assert_eq!((pass.resources.ibl_set, pass.resources.brdf_handle), (5, 6));
    pass.set_image_count(3);
    assert_eq!(pass.image_count(), 3);
    assert!(pass.update_lights(&Vec::new()).is_none());
    assert_eq!(
        pass.out_handles(),
        [SceneOutput::Color, SceneOutput::Normal, SceneOutput::Depth]
    );
    assert_eq!(
        pass.graph_info(),
        [SceneOutput::Depth, SceneOutput::Normal, SceneOutput::Color]
    );
    assert!(pass.drop_target().is_empty());
}

#[test]
fn pass_prepares_its_targets() {
    let mut pass = ForwardPass::new();
    assert!(matches!(pass.ensure_target(0, extent(8, 4)), TargetStep::Skip));
    pass.set_image_count(2);
    assert!(matches!(pass.ensure_target(0, extent(0, 4)), TargetStep::Skip));
    assert!(matches!(pass.ensure_target(1, extent(8, 4)), TargetStep::Build(r) if r.is_empty()));
    assert!(matches!(pass.set_target(3, 2, extent(8, 4)), TargetStep::Build(_)));
    assert_eq!(pass.color_format(), AttachmentFormat::Rgba16Float);
    assert_eq!(pass.normal_format(), AttachmentFormat::Rgba16Float);
    pass.resources.put_ao(1, 2, 3, vec![4, 5]);
    let write = pass.set_ao(3, 70).unwrap();
    assert_eq!(write.set, 5);
    assert!(pass.set_ao(1, 70).is_none());
    assert!(pass.set_ao(1, 0).is_none());
}
