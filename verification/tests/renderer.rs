use prism::descriptor::{BufferRange, DescriptorSource};
use prism::forward_pass::commands::MeshBuffers;
use prism::gpu::{AttachmentFormat, ClearColor, ClearDepth, Extent2D};
use prism::graph_renderer::{
    Acquired, Orientation, PresentStep, QuarterTurns, SurfaceTransform, SwapchainState,
};
use prism::renderer::{
    plan_combined_writes, plan_creation, plan_pipelines, AttachedSwapchain, BeginResult,
    BindlessPush, BoundPipeline, CreateStep, DeviceObjects, FrameCommand, OverlayDraw,
    OverlayHit, Presented,
    PbrMaterial, PbrPush, Renderer, RendererError, RendererLayouts, SceneDrawItem,
    SwapchainImages, TeardownStep, BINDLESS_PUSH_SIZE, NO_TEXTURE, PBR_PUSH_SIZE,
    PUSH_CONSTANT_SIZE,
};

fn swapchain(format: u32) -> AttachedSwapchain {
    AttachedSwapchain {
        state: SwapchainState {
            extent: Extent2D { width: 32, height: 16 },
            image_count: 2,
            transform: SurfaceTransform::Identity,
        },
        format,
    }
}

fn renderer() -> Renderer {
    let objects = DeviceObjects {
        command_buffers: vec![100, 101],
        render_pass: 1,
        pipeline: BoundPipeline { pipeline: 2, layout: 3 },
        pbr_pipeline: BoundPipeline { pipeline: 4, layout: 5 },
        bindless_pipeline: BoundPipeline { pipeline: 6, layout: 7 },
        frame_sets: vec![110, 111],
        bindless_frame_sets: vec![120, 121],
        table_set: 8,
        ibl_set: 9,
        ibl_handle: 10,
        color_format: 50,
    };
    Renderer::new(objects, swapchain(50), vec![60, 61], vec![70, 71])
}

fn gray() -> ClearColor {
    let half = 0.5f32.to_bits();
    ClearColor { r: half, g: half, b: half, a: 1.0f32.to_bits() }
}

fn acquired() -> Acquired {
    Acquired { image_index: 0, frame: 1, image_available: 11, render_finished: 12, fence: 13 }
}

fn mesh(index_buffer: Option<u64>) -> MeshBuffers {
    MeshBuffers { vertex_buffer: 80, vertex_count: 3, index_buffer, index_count: 6 }
}

fn open(r: &mut Renderer) -> Vec<FrameCommand<char, u8>> {
    match r.begin_frame(Ok(acquired()), gray()) {
        BeginResult::Record(list) => list,
        _ => panic!("the frame opens"),
    }
}

#[test]
fn frame_is_opened_and_ended() {
    let mut r = renderer();
    assert_eq!(r.draw_overlay(1, 0, true), None);
    assert_eq!(r.draw_gizmo(), None);
    let list = open(&mut r);
    let size = Extent2D { width: 32, height: 16 };
    assert_eq!(
        list,
        vec![
            FrameCommand::BeginRenderPass {
                render_pass: 1,
                framebuffer: 70,
                extent: size,
                color: gray(),
                depth: ClearDepth { depth: 1.0f32.to_bits(), stencil: 0 },
            },
            FrameCommand::SetViewport(size),
            FrameCommand::SetScissor(size),
            FrameCommand::BindPipeline(2),
            FrameCommand::BindSet { layout: 3, index: 0, set: 111 },
        ]
    );
    let flat = Orientation { width: 32, height: 16, turn: QuarterTurns::Zero };
    assert_eq!(
        r.draw_overlay(4, 1, true),
        Some(OverlayDraw {
            command_buffer: 101,
            extent: size,
            orientation: flat,
            debug_mode: 4,
            normal_space: 1,
            show_ui: true,
        })
    );
    assert_eq!(r.draw_gizmo(), Some(101));
    assert_eq!(r.set_frame_data(), Ok(1));
    assert_eq!(r.hit_test_overlay(5, 6), OverlayHit { px: 5, py: 6, extent: size });
    assert_eq!(r.presented(false), Presented::Shown);
    assert_eq!(r.presented(true), Presented::Recreate);
    let end = r.end_frame().unwrap();
    assert_eq!(end.command_buffer, 101);
    assert!(matches!(
        end.present,
        PresentStep::SubmitAndPresent { fence: 13, wait_for: 11, signal: 12, image_index: 0, .. }
    ));
    assert_eq!(r.end_frame(), Err(RendererError::OutsideFrame));
    assert_eq!(r.set_frame_data(), Err(RendererError::OutsideFrame));
}

#[test]
fn outdated_swapchain_skips_the_frame() {
    let mut r = renderer();
    let got: BeginResult<char, u8> = r.begin_frame(Err("swapchain out of date"), gray());
    assert_eq!(got, BeginResult::Recreate);
    let got: BeginResult<char, u8> = r.begin_frame(Err("lost"), gray());
    assert_eq!(got, BeginResult::Fail);
    let plan = r.rebuild_dependent_resources().unwrap();
    assert_eq!(
        plan.teardown,
        vec![
            TeardownStep::DepthImage(60),
            TeardownStep::DepthImage(61),
        ]
    );
    assert_eq!((plan.count, plan.extent.width), (2, 32));
    assert!(r.depth_images.is_empty());
    assert_eq!(r.framebuffers, vec![70, 71]);
    r.add_depth_image(62);
    r.add_depth_image(63);
    assert_eq!(r.depth_images, vec![62, 63]);
    assert_eq!(
        r.rebuild_framebuffers(),
        vec![TeardownStep::Framebuffer(70), TeardownStep::Framebuffer(71)]
    );
    assert!(r.framebuffers.is_empty());
    r.put_framebuffers(vec![72, 73]);
    assert_eq!(r.framebuffers, vec![72, 73]);
}

#[test]
fn recreated_swapchain_brings_its_size_and_turn() {
    let mut r = renderer();
    let mut upright = swapchain(50);
    upright.state.extent = Extent2D { width: 9, height: 20 };
    upright.state.image_count = 3;
    upright.state.transform = SurfaceTransform::Rotate90;
    let plan = r.recreate_swapchain(upright).unwrap();
    assert_eq!(plan.teardown.len(), 2);
    assert_eq!((plan.count, plan.extent.height), (3, 20));
    assert_eq!(r.framebuffers.len(), 2);
    assert_eq!(
        r.orientation(),
        Orientation { width: 20, height: 9, turn: QuarterTurns::Plus }
    );
    r.suspend_surface();
    assert_eq!(r.recreate_swapchain(upright), Err(RendererError::NoSwapchain));
    assert!(!r.has_swapchain());
    assert_eq!(
        r.orientation(),
        Orientation { width: 1, height: 1, turn: QuarterTurns::Zero }
    );
}

#[test]
fn surface_comes_and_goes() {
    let mut r = renderer();
    open(&mut r);
    let steps = r.suspend_surface();
    assert_eq!(steps[0], TeardownStep::WaitIdle);
    assert_eq!(*steps.last().unwrap(), TeardownStep::Swapchain);
    assert_eq!(steps.len(), 6);
    assert!(!r.has_swapchain());
    assert_eq!(r.extent(), Extent2D { width: 0, height: 0 });
    assert_eq!(r.draw_overlay(1, 0, true), None);
    let got: BeginResult<char, u8> = r.begin_frame(Err("any"), gray());
    assert_eq!(got, BeginResult::NoSwapchain);
    assert_eq!(r.rebuild_dependent_resources(), Err(RendererError::NoSwapchain));
    assert!(r.resume_surface(swapchain(51), vec![62], vec![72]));
    assert!(!r.resume_surface(swapchain(52), vec![63], vec![73]));
    assert_eq!(r.framebuffers, vec![72]);
    assert_eq!(r.swapchain.unwrap().format, 51);
}

#[test]
fn meshes_are_drawn_inside_a_frame() {
    let mut r = renderer();
    let none: Vec<FrameCommand<char, u8>> = r.draw_mesh(mesh(None), 'm');
    assert!(none.is_empty());
    open(&mut r);
    let list: Vec<FrameCommand<char, u8>> = r.draw_mesh(mesh(None), 'm');
    assert_eq!(
        list,
        vec![
            FrameCommand::PushModel { layout: 3, model: 'm' },
            FrameCommand::BindVertexBuffer(80),
            FrameCommand::Draw(3),
        ]
    );
    let material =
        PbrMaterial { albedo: [1u8, 2, 3], metallic: 4, roughness: 5, debug_mode: 6, normal_space: 7 };
    let list = r.draw_mesh_pbr(mesh(Some(81)), 'm', material);
    assert_eq!(
        list,
        vec![
            FrameCommand::BindPipeline(4),
            FrameCommand::BindSet { layout: 5, index: 0, set: 111 },
            FrameCommand::BindSet { layout: 5, index: 1, set: 9 },
            FrameCommand::PushPbr {
                layout: 5,
                pbr: PbrPush {
                    model: 'm',
                    albedo_metallic: [1, 2, 3, 4],
                    roughness: 5,
                    debug_mode: 6,
                    normal_space: 7,
                },
            },
            FrameCommand::BindVertexBuffer(80),
            FrameCommand::BindIndexBuffer(81),
            FrameCommand::DrawIndexed(6),
        ]
    );
}

#[test]
fn scene_is_drawn_item_by_item() {
    let mut r = renderer();
    open(&mut r);
    let items = vec![
        SceneDrawItem { mesh: None, material_slot: 1, model: 'a' },
        SceneDrawItem { mesh: Some(mesh(Some(81))), material_slot: 2, model: 'b' },
    ];
    let list: Vec<FrameCommand<char, u8>> = r.draw_scene_pbr(&items);
    assert_eq!(
        list,
        vec![
            FrameCommand::BindPipeline(6),
            FrameCommand::BindSet { layout: 7, index: 0, set: 121 },
            FrameCommand::BindSet { layout: 7, index: 1, set: 8 },
            FrameCommand::BindSet { layout: 7, index: 2, set: 9 },
            FrameCommand::PushBindless {
                layout: 7,
                bindless: BindlessPush {
                    model: 'b',
                    material_slot: 2,
                    env_handle: 10,
                    albedo_idx: NO_TEXTURE,
                    normal_idx: NO_TEXTURE,
                },
            },
            FrameCommand::BindVertexBuffer(80),
            FrameCommand::BindIndexBuffer(81),
            FrameCommand::DrawIndexed(6),
        ]
    );
    let nothing: Vec<FrameCommand<char, u8>> = r.draw_scene_pbr(&Vec::new());
    assert!(nothing.is_empty());
}

#[test]
fn renderer_is_released_in_order() {
    let mut r = renderer();
    let steps = r.release();
    assert_eq!(steps[..2], [TeardownStep::WaitIdle, TeardownStep::Managers]);
    assert_eq!(
        steps[6..],
        [TeardownStep::ShaderModules, TeardownStep::CommandPool, TeardownStep::Swapchain]
    );
}

#[test]
fn pipelines_and_their_sets() {
    assert_eq!((PUSH_CONSTANT_SIZE, PBR_PUSH_SIZE, BINDLESS_PUSH_SIZE), (64, 92, 96));
    let plans = plan_pipelines(RendererLayouts { frame: 1, ibl: 2, combined: 3, table: 4 });
    assert_eq!(plans.mesh.set_layouts, vec![1]);
    assert_eq!(plans.pbr.set_layouts, vec![1, 2]);
    assert_eq!(plans.bindless.set_layouts, vec![3, 4, 2]);
    assert!(!plans.mesh.push_in_fragment && plans.bindless.push_in_fragment);
    let writes = plan_combined_writes(&vec![10, 11], &vec![20, 21], 30);
    assert_eq!(writes.len(), 4);
    assert_eq!(
        writes[2].source,
        DescriptorSource::Buffer { buffer: 21, range: BufferRange::Bytes(272) }
    );
    assert_eq!(
        writes[3].source,
        DescriptorSource::Buffer { buffer: 30, range: BufferRange::Whole }
    );
    assert_eq!((writes[3].set, writes[3].binding), (11, 1));
}

#[test]
fn renderer_is_created_in_order() {
    let extent = Extent2D { width: 32, height: 16 };
    let steps = plan_creation(SwapchainImages { count: 3, extent, format: 50 });
    assert_eq!(steps.len(), 32);
    assert_eq!(steps[4], CreateStep::DepthImages { count: 3, extent });
    assert_eq!(steps[12], CreateStep::CommandBuffers { frames: 2 });
    assert_eq!(steps[14], CreateStep::TextureTable { capacity: 1024 });
    let at = |s: CreateStep| steps.iter().position(|x| *x == s).unwrap();
    assert!(at(CreateStep::RenderPass { color: 50, depth: AttachmentFormat::Depth32Float })
        < at(CreateStep::MeshPipeline));
    assert!(at(CreateStep::PbrPipeline) < at(CreateStep::DestroyPbrShader));
    assert!(at(CreateStep::Materials) < at(CreateStep::WriteCombinedSets));
}
