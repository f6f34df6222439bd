use prism::bindless::SamplerType;
use prism::descriptor::DescriptorSource;
use prism::gpu::{AttachmentFormat, Blend, ClearColor, Extent2D, ImageLayout, Release};
use prism::gtao::{
    frame_inputs, graph_inputs, half_extent, plan_creation, plan_sampler_writes, set_layout,
    set_pool, setup, AoCommand, AoExecution, AoPipeline, AoPipelineSpec, AoStep, AoTarget, GtaoFrameInputs,
    GtaoPass, PipelineStep, Published,
};

fn target(n: u64) -> AoTarget {
    AoTarget { image: n, memory: n + 1, view: n + 2, framebuffer: n + 3 }
}

fn pass() -> GtaoPass {
    GtaoPass::new(
        Extent2D { width: 101, height: 50 },
        [target(10), target(20)],
        [1, 2, 3, 4],
        5,
        6,
        7,
        8,
    )
}

#[test]
fn half_of_a_pixel_is_a_pixel() {
    assert_eq!(
        half_extent(Extent2D { width: 1, height: 7 }),
        Extent2D { width: 1, height: 3 }
    );
    assert_eq!(pass().extent(), Extent2D { width: 50, height: 25 });
}

#[test]
fn scene_reads_the_other_image() {
    let p = pass();
    for frame in 0..4u32 {
        assert_ne!(p.ao_view(frame), p.ao_view((frame + 1) % 2));
        assert_eq!(p.ao_view(frame), p.ao_view(frame + 2));
    }
}

#[test]
fn inputs_are_written_when_they_change() {
    let mut p = pass();
    let writes = p.set_inputs(1, 70, 80);
    assert_eq!(writes.len(), 2);
    assert_eq!((writes[0].set, writes[1].set), (3, 4));
    assert_eq!(
        writes[0].source,
        DescriptorSource::Image { view: 70, layout: ImageLayout::DepthStencilReadOnly }
    );
    assert!(p.set_inputs(1, 70, 80).is_empty());
    assert!(p.set_inputs(3, 70, 80).is_empty());
    assert_eq!(p.set_inputs(0, 70, 80).len(), 2);
    assert_eq!(p.set_inputs(1, 70, 81).len(), 2);
}

fn inputs(depth_view: u64, normal_view: u64) -> GtaoFrameInputs {
    GtaoFrameInputs { depth_image: 0, depth_view, normal_image: 0, normal_view }
}

fn pipeline() -> AoPipelineSpec {
    AoPipelineSpec {
        render_pass: 8,
        set_layout: 5,
        push_size: 96,
        cull: false,
        depth_write: false,
        blend: Blend::Replace,
    }
}

/// An image that is drawn to and sampled.
fn created(slot: u32, extent: Extent2D) -> AoStep {
    AoStep::CreateImage { slot, extent, format: AttachmentFormat::R8Unorm, usage: 0x14 }
}

#[test]
fn frame_ends_readable() {
    let mut p = pass();
    let frame = p.prepare(1, inputs(1, 2), 'm');
    assert_eq!(frame.writes.len(), 2);
    assert_eq!(frame.push.viewport, Extent2D { width: 50, height: 25 });
    assert_eq!(f32::from_bits(frame.push.radius), 0.5);
    assert_eq!(frame.push.inv_proj, 'm');
    assert!(p.prepare(3, inputs(1, 2), 'm').writes.is_empty());

    assert_eq!(p.ensure_pipeline(), PipelineStep::Build(pipeline()));
    assert_eq!(
        p.execute(1, frame.push),
        AoExecution::Build(pipeline())
    );
    p.put_pipeline(AoPipeline { pipeline: 40, layout: 41 });
    assert_eq!(p.ensure_pipeline(), PipelineStep::Ready);
    let commands = match p.execute(1, frame.push) {
        AoExecution::Record(commands) => commands,
        other => panic!("{:?}", other),
    };
    assert_eq!(commands.len(), 10);
    let one = 1.0f32.to_bits();
    assert_eq!(
        commands[0],
        AoCommand::BeginRenderPass {
            render_pass: 8,
            framebuffer: 23,
            extent: Extent2D { width: 50, height: 25 },
            clear: ClearColor { r: one, g: one, b: one, a: one },
        }
    );
    assert_eq!(commands[6], AoCommand::PushConstants { layout: 41, push: frame.push });
    assert_eq!(commands[7], AoCommand::Draw { vertices: 3, instances: 1 });
    assert!(matches!(commands[9], AoCommand::Barrier { image: 20, barrier }
        if barrier.new_layout == ImageLayout::ShaderReadOnly));
    p.destroy();
    assert_eq!(p.execute(1, frame.push), AoExecution::NoRenderPass);
}

#[test]
fn frame_needs_both_outputs() {
    let depth = Published { image: Some(3), view: Some(4) };
    let normal = Published { image: None, view: Some(5) };
    let nothing = Published { image: Some(6), view: None };
    assert_eq!(
        frame_inputs(depth, normal),
        Some(GtaoFrameInputs { depth_image: 3, depth_view: 4, normal_image: 0, normal_view: 5 })
    );
    assert_eq!(frame_inputs(depth, nothing), None);
    assert_eq!(frame_inputs(nothing, normal), None);
    assert_eq!(graph_inputs().len(), 2);
    assert_eq!(GtaoPass::ao_format(), AttachmentFormat::R8Unorm);
}

#[test]
fn resize_replaces_the_targets() {
    let mut p = pass();
    assert_eq!(
        p.recreate_target(Extent2D { width: 100, height: 51 }),
        vec![AoStep::WaitIdle]
    );
    p.set_inputs(0, 70, 80);
    let full = Extent2D { width: 200, height: 50 };
    let half = Extent2D { width: 100, height: 25 };
    let steps = p.recreate_target(full);
    assert_eq!(steps.len(), 28);
    assert_eq!(steps[1], AoStep::Destroy(Release::Framebuffer(13)));
    assert_eq!(steps[3], AoStep::Destroy(Release::View(12)));
    assert_eq!(steps[9], created(0, half));
    assert_eq!(steps[13], AoStep::Reattach { slot: 0, extent: half, render_pass: 8 });
    assert_eq!(p.ao_view(0), 0);
    p.put_image(0, 30, 31, 32);
    p.put_framebuffer(0, 33);
    p.put_image(1, 40, 41, 42);
    p.put_framebuffer(1, 43);
    assert_eq!(p.extent(), Extent2D { width: 50, height: 25 });
    p.resized(full);
    assert_eq!(p.ao_view(0), 32);
    assert_eq!(p.ao_view(1), 42);
    assert_eq!(p.extent(), half);
    assert_eq!(p.set_inputs(0, 70, 80).len(), 2);
}

#[test]
fn pass_is_created_in_order() {
    let steps = plan_creation(Extent2D { width: 64, height: 1 });
    assert_eq!(steps.len(), 28);
    let half = Extent2D { width: 32, height: 1 };
    assert_eq!(steps[4], created(1, half));
    assert_eq!(steps[5], AoStep::AllocateImage { slot: 1, memory: 1 });
    assert_eq!(steps[8], AoStep::CreateSampler(SamplerType::LinearClamp.create_info()));
    assert_eq!(steps[11], AoStep::AllocateSets { count: 4 });
    assert_eq!(
        steps[16],
        AoStep::CreateRenderPass {
            format: AttachmentFormat::R8Unorm,
            final_layout: ImageLayout::ColorAttachment,
        }
    );
    assert_eq!(steps[18], AoStep::CreateFramebuffer { slot: 1, extent: half });
    assert!(matches!(steps[21], AoStep::Transition { barrier }
        if barrier.old_layout == ImageLayout::Undefined
            && barrier.new_layout == ImageLayout::ShaderReadOnly));
    assert_eq!(steps[25], AoStep::WaitForFence);
    assert_eq!(steps[27], AoStep::FreeCommands);
}

#[test]
fn pass_is_destroyed_once() {
    let mut p = pass();
    let list = p.destroy();
    assert_eq!(list.len(), 12);
    assert_eq!(*list.last().unwrap(), Release::Sampler(7));
    assert!(p.release().is_empty());
    assert_eq!(p.ensure_pipeline(), PipelineStep::NoRenderPass);
}

#[test]
fn sets_share_a_sampler() {
    assert_eq!(set_layout().bindings.len(), 2);
    assert_eq!(set_pool().max_sets, 4);
    let writes = plan_sampler_writes(&vec![1, 2, 3, 4], 9);
    assert_eq!(writes.len(), 4);
    assert!(writes.iter().all(|w| w.binding == 1));
    assert_eq!(writes[2].source, DescriptorSource::Sampler { sampler: 9 });
    assert_eq!(setup()[1].layout, ImageLayout::ShaderReadOnly);
}

#[test]
fn failed_resize_keeps_the_framebuffer_handles() {
    let mut p = pass();
    p.recreate_target(Extent2D { width: 200, height: 50 });
    p.put_image(0, 30, 31, 32);
    let list = p.destroy();
    assert!(list.contains(&Release::Framebuffer(13)));
    assert!(list.contains(&Release::View(32)));
    assert!(!list.contains(&Release::View(12)));
}
