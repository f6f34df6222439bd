//! A further layer over the presented image, drawn by whoever hosts the renderer.

use vstd::prelude::*;

use crate::gpu::ImageLayout;
use crate::graph_renderer::present_transition;

verus! {

/// A change of layout.
#[derive(Clone, Copy, Debug, PartialEq, Eq, Structural)]
pub struct LayoutChange {
    pub from: ImageLayout,
    pub to: ImageLayout,
}

/// The change of layout before the layer is drawn.
pub open spec fn layer_change(has_content: bool) -> Option<LayoutChange> {
    if has_content {
        Some(LayoutChange { from: ImageLayout::PresentSrc, to: ImageLayout::ColorAttachment })
    } else {
        None
    }
}

/// The change of layout before the layer is drawn, which takes the image back from the
/// presentation engine; the layer's own render pass hands it over again. A layer without
/// content is not drawn, and the image is presented as it is.
pub fn layer_transition(has_content: bool) -> (r: Option<LayoutChange>)
    ensures
        r == layer_change(has_content),
{
    if has_content {
        Some(LayoutChange { from: ImageLayout::PresentSrc, to: ImageLayout::ColorAttachment })
    } else {
        None
    }
}

/// Where there is a layer to draw, the image is taken back from where the frame handed it
/// over to, to where the frame had drawn it; otherwise it stays where it is.
pub proof fn layer_takes_the_image_back()
    ensures
        layer_change(false) is None,
        layer_change(true) == Some(
            LayoutChange {
                from: present_transition().new_layout,
                to: present_transition().old_layout,
            },
        ),
{
}

} // verus!
