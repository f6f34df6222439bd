use prism::buffer::{BufferSpec, HOST_MEMORY, USAGE_VERTEX_BUFFER};
use prism::egui_overlay::{pass_layouts, EguiGpu, FramebufferStep, OverlayError, OverlayStep};
use prism::external_overlay::{layer_transition, LayoutChange};
use prism::gizmo::{
    buffer_size, generate_gizmo, plan_creation, Axis, Gizmo, GizmoCommand, GizmoPoint, GizmoStep,
    GizmoVertex, HEAD_SEGMENTS,
};
use prism::gpu::{Blend, Extent2D, ImageLayout, Release};

fn extent(width: u32, height: u32) -> Extent2D {
    Extent2D { width, height }
}

#[test]
fn framebuffers_are_built_once() {
    let mut gpu = EguiGpu::new(7);
    let views = vec![1, 2];
    let (gone, step) = gpu.ensure_framebuffer(&views, 1, extent(4, 4));
    assert!(gone.is_empty());
    assert_eq!(step, FramebufferStep::Build { view: 2 });
    gpu.put_framebuffer(1, 22);
    assert_eq!(gpu.ensure_framebuffer(&views, 1, extent(4, 4)).1, FramebufferStep::Use(22));
    assert_eq!(
        gpu.ensure_framebuffer(&views, 0, extent(4, 4)).1,
        FramebufferStep::Build { view: 1 }
    );
    assert_eq!(gpu.ensure_framebuffer(&views, 2, extent(4, 4)).1, FramebufferStep::OutOfRange);
}

#[test]
fn new_swapchain_rebuilds_framebuffers() {
    let mut gpu = EguiGpu::new(7);
    gpu.ensure_framebuffer(&vec![1, 2], 0, extent(4, 4));
    gpu.put_framebuffer(0, 21);
    let (gone, step) = gpu.ensure_framebuffer(&vec![1, 2], 0, extent(5, 4));
    assert_eq!(gone, vec![Release::Framebuffer(21)]);
    assert_eq!(step, FramebufferStep::Build { view: 1 });
    gpu.put_framebuffer(0, 22);
    let (gone, _) = gpu.ensure_framebuffer(&vec![9, 2], 0, extent(5, 4));
    assert_eq!(gone, vec![Release::Framebuffer(22)]);
    gpu.put_framebuffer(0, 23);
    assert_eq!(gpu.drop_target(), vec![Release::Framebuffer(23)]);
    assert_eq!(gpu.check_renderer(), Ok(()));
    assert_eq!(gpu.destroy(), vec![Release::RenderPass(7)]);
    assert_eq!(gpu.check_renderer(), Err(OverlayError::RendererMissing));
    assert!(gpu.destroy().is_empty());
}

#[test]
fn overlay_frees_textures_last() {
    let steps = EguiGpu::new(7).record(21, extent(4, 4), 2);
    assert_eq!(
        steps,
        vec![
            OverlayStep::BeginRenderPass { render_pass: 7, framebuffer: 21, extent: extent(4, 4) },
            OverlayStep::Draw { extent: extent(4, 4) },
            OverlayStep::EndRenderPass,
            OverlayStep::FreeTexture(0),
            OverlayStep::FreeTexture(1),
        ]
    );
    assert_eq!(pass_layouts(), (ImageLayout::ColorAttachment, ImageLayout::PresentSrc));
}

#[test]
fn empty_layer_is_not_drawn() {
    assert_eq!(layer_transition(false), None);
    assert_eq!(
        layer_transition(true),
        Some(LayoutChange { from: ImageLayout::PresentSrc, to: ImageLayout::ColorAttachment })
    );
}

#[test]
fn gizmo_has_three_arrows() {
    let vertices = generate_gizmo();
    assert_eq!(vertices.len(), 468);
    assert_eq!(buffer_size(468), 11232);
    let corner = GizmoPoint::Corner { far: false, first: false, second: false };
    assert_eq!(vertices[0], GizmoVertex { axis: Axis::X, point: corner });
    assert_eq!(vertices[36].point, GizmoPoint::Apex);
    assert_eq!(vertices[37].point, GizmoPoint::Rim(0));
    assert_eq!(vertices[155].point, GizmoPoint::Rim(19));
    assert_eq!(vertices[156].axis, Axis::Y);
    assert_eq!(vertices[467].axis, Axis::Z);
}

#[test]
fn gizmo_surfaces_are_closed() {
    let vertices = generate_gizmo();
    let same = |p: GizmoPoint| match p {
        GizmoPoint::Rim(i) => GizmoPoint::Rim(i % HEAD_SEGMENTS),
        other => other,
    };
    let mut edges = Vec::new();
    for t in vertices[..156].chunks(3) {
        for k in 0..3 {
            edges.push((same(t[k].point), same(t[(k + 1) % 3].point)));
        }
    }
    for (a, b) in edges.iter() {
        let back = edges.iter().filter(|e| e.0 == *b && e.1 == *a).count();
        assert_eq!(back, 1);
    }
}

#[test]
fn gizmo_is_drawn_and_released() {
    let g = Gizmo::new(1, 2, 3, 4);
    assert_eq!(g.vertex_count, 468);
    assert_eq!(
        g.draw('m'),
        [
            GizmoCommand::BindPipeline(1),
            GizmoCommand::PushConstants { layout: 2, view_proj: 'm' },
            GizmoCommand::BindVertexBuffer(3),
            GizmoCommand::Draw(468),
        ]
    );
    assert_eq!(
        g.release(),
        [
            Release::Pipeline(1),
            Release::PipelineLayout(2),
            Release::Buffer(3),
            Release::Memory(4),
        ]
    );
}

#[test]
fn gizmo_is_created_in_order() {
    let (steps, vertices) = plan_creation(9);
    assert_eq!(vertices, generate_gizmo());
    assert_eq!(steps.len(), 8);
    let buffer = BufferSpec { size: 11232, usage: USAGE_VERTEX_BUFFER, memory: HOST_MEMORY };
    assert_eq!(steps[0], GizmoStep::CreateBuffer(buffer));
    assert_eq!(steps[4], GizmoStep::CreateLayout { push_size: 64 });
    assert_eq!(
        steps[5],
        GizmoStep::CreatePipeline {
            render_pass: 9,
            binding: GizmoVertex::binding_description(),
            cull: false,
            depth_test: false,
            depth_write: false,
            blend: Blend::Replace,
        }
    );
    assert_eq!(GizmoVertex::binding_description().stride, 24);
    assert_eq!(GizmoVertex::attribute_descriptions()[1].offset, 12);
}

#[test]
fn gizmo_axes_have_frames_and_colors() {
    let f = Axis::Y.frame();
    assert_eq!((f.dir, f.first, f.second), ([0, 1, 0], [1, 0, 0], [0, 0, 1]));
    let color = |axis: Axis| axis.color().map(f32::from_bits);
    assert_eq!(color(Axis::X), [1.0, 0.25, 0.25]);
    assert_eq!(color(Axis::Y), [0.3, 1.0, 0.3]);
    assert_eq!(color(Axis::Z), [0.3, 0.5, 1.0]);
}
