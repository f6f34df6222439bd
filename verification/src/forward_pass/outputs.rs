//! What the forward pass writes: its attachments, and how it leaves them for other passes.

use vstd::prelude::*;

use crate::gpu::{Access, AttachmentFormat, ImageLayout, PipelineStage};

verus! {

/// What the pass writes, by the number of the attachment in its render pass.
#[derive(Clone, Copy, Debug, PartialEq, Eq, Structural)]
pub enum SceneOutput {
    Color,
    Depth,
    Normal,
}

/// One attachment of the render pass: cleared on load and stored, from an undefined
/// layout to the final one.
#[derive(Clone, Copy, Debug, PartialEq, Eq, Structural)]
pub struct Attachment {
    pub output: SceneOutput,
    pub format: AttachmentFormat,
    pub final_layout: ImageLayout,
}

/// How the pass leaves an output, for the passes that read it.
#[derive(Clone, Copy, Debug, PartialEq, Eq, Structural)]
pub struct OutputUsage {
    pub output: SceneOutput,
    pub access: Access,
    pub stage: PipelineStage,
    pub layout: ImageLayout,
}

/// The attachments of the render pass, in order.
pub open spec fn scene_attachments() -> Seq<Attachment> {
    seq![
        Attachment {
            output: SceneOutput::Color,
            format: AttachmentFormat::Rgba16Float,
            final_layout: ImageLayout::ColorAttachment,
        },
        Attachment {
            output: SceneOutput::Depth,
            format: AttachmentFormat::Depth32Float,
            final_layout: ImageLayout::DepthStencilAttachment,
        },
        Attachment {
            output: SceneOutput::Normal,
            format: AttachmentFormat::Rgba16Float,
            final_layout: ImageLayout::ColorAttachment,
        },
    ]
}

/// What the pass declares to the render graph about its outputs, in declaration order.
pub open spec fn scene_outputs() -> Seq<OutputUsage> {
    seq![
        OutputUsage {
            output: SceneOutput::Depth,
            access: Access::DepthStencilAttachmentWrite,
            stage: PipelineStage::LateFragmentTests,
            layout: ImageLayout::DepthStencilAttachment,
        },
        OutputUsage {
            output: SceneOutput::Normal,
            access: Access::ColorAttachmentWrite,
            stage: PipelineStage::ColorAttachmentOutput,
            layout: ImageLayout::ColorAttachment,
        },
        OutputUsage {
            output: SceneOutput::Color,
            access: Access::ColorAttachmentWrite,
            stage: PipelineStage::ColorAttachmentOutput,
            layout: ImageLayout::ColorAttachment,
        },
    ]
}

/// The attachments of the render pass, in order.
pub fn attachments() -> (r: [Attachment; 3])
    ensures
        r@ == scene_attachments(),
{
    let list: [Attachment; 3] = [
        Attachment {
            output: SceneOutput::Color,
            format: AttachmentFormat::Rgba16Float,
            final_layout: ImageLayout::ColorAttachment,
        },
        Attachment {
            output: SceneOutput::Depth,
            format: AttachmentFormat::Depth32Float,
            final_layout: ImageLayout::DepthStencilAttachment,
        },
        Attachment {
            output: SceneOutput::Normal,
            format: AttachmentFormat::Rgba16Float,
            final_layout: ImageLayout::ColorAttachment,
        },
    ];
    assert(list@ =~= seq![list@[0], list@[1], list@[2]]);
    list
}

/// What the pass declares to the render graph about its outputs, in declaration order.
pub fn setup() -> (r: [OutputUsage; 3])
    ensures
        r@ == scene_outputs(),
{
    let list: [OutputUsage; 3] = [
        OutputUsage {
            output: SceneOutput::Depth,
            access: Access::DepthStencilAttachmentWrite,
            stage: PipelineStage::LateFragmentTests,
            layout: ImageLayout::DepthStencilAttachment,
        },
        OutputUsage {
            output: SceneOutput::Normal,
            access: Access::ColorAttachmentWrite,
            stage: PipelineStage::ColorAttachmentOutput,
            layout: ImageLayout::ColorAttachment,
        },
        OutputUsage {
            output: SceneOutput::Color,
            access: Access::ColorAttachmentWrite,
            stage: PipelineStage::ColorAttachmentOutput,
            layout: ImageLayout::ColorAttachment,
        },
    ];
    assert(list@ =~= seq![list@[0], list@[1], list@[2]]);
    list
}

/// The layout that the render graph is told for an output is the one that the render
/// pass leaves its attachment in.
pub proof fn declared_layouts_match_attachments(i: int, j: int)
    requires
        0 <= i < scene_outputs().len(),
        0 <= j < scene_attachments().len(),
        scene_outputs()[i].output == scene_attachments()[j].output,
    ensures
        scene_outputs()[i].layout == scene_attachments()[j].final_layout,
{
}

/// Each output is attached once and declared once: depth as a depth attachment that late
/// tests write, the others as color attachments.
pub proof fn every_output_is_attached_once(output: SceneOutput, i: int, j: int)
    requires
        0 <= i < 3,
        0 <= j < 3,
    ensures
        scene_attachments().len() == 3,
        scene_outputs().len() == 3,
        exists|k: int| 0 <= k < 3 && (#[trigger] scene_attachments()[k]).output == output,
        exists|k: int| 0 <= k < 3 && (#[trigger] scene_outputs()[k]).output == output,
        scene_attachments()[i].output == scene_attachments()[j].output ==> i == j,
        scene_outputs()[i].output == scene_outputs()[j].output ==> i == j,
        scene_attachments()[i].format == AttachmentFormat::Depth32Float <==> scene_attachments()[i].output
            is Depth,
        scene_attachments()[i].format == AttachmentFormat::Rgba16Float <==> !(
        scene_attachments()[i].output is Depth),
        scene_attachments()[i].final_layout == ImageLayout::DepthStencilAttachment
            <==> scene_attachments()[i].output is Depth,
        scene_outputs()[i].access == Access::DepthStencilAttachmentWrite && scene_outputs()[i].stage
            == PipelineStage::LateFragmentTests <==> scene_outputs()[i].output is Depth,
        scene_outputs()[i].access == Access::ColorAttachmentWrite && scene_outputs()[i].stage
            == PipelineStage::ColorAttachmentOutput <==> !(scene_outputs()[i].output is Depth),
{
    let (a, o) = (scene_attachments(), scene_outputs());
    assert(a[0].output is Color && a[1].output is Depth && a[2].output is Normal);
    assert(o[0].output is Depth && o[1].output is Normal && o[2].output is Color);
}

} // verus!
