//! The overlay's framebuffers: one for each swapchain image, built when it is first
//! drawn to and rebuilt when the swapchain changes.

use vstd::prelude::*;

use crate::gpu::{Extent2D, ImageLayout, Release};

verus! {

/// The layouts between which the overlay's render pass moves the image: from the one in
/// which the scene leaves it to the one in which it is presented. What is in the image
/// is kept.
pub fn pass_layouts() -> (r: (ImageLayout, ImageLayout))
    ensures
        r == (ImageLayout::ColorAttachment, ImageLayout::PresentSrc),
{
    (ImageLayout::ColorAttachment, ImageLayout::PresentSrc)
}

/// How the framebuffer of an image is had.
#[derive(Clone, Copy, Debug, PartialEq, Eq, Structural)]
pub enum FramebufferStep {
    /// It is there.
    Use(u64),
    /// It is built over this view.
    Build { view: u64 },
    /// There is no such image.
    OutOfRange,
}

/// Why the overlay is not drawn.
#[derive(Clone, Copy, Debug, PartialEq, Eq, Structural)]
pub enum OverlayError {
    /// The drawing library's renderer is gone.
    RendererMissing,
}

/// What drawing the overlay does, in order. A step that fails is the last one.
#[derive(Clone, Copy, Debug, PartialEq, Eq, Structural)]
pub enum OverlayStep {
    BeginRenderPass { render_pass: u64, framebuffer: u64, extent: Extent2D },
    Draw { extent: Extent2D },
    EndRenderPass,
    /// Free a texture that is no longer used. That this fails does not matter.
    FreeTexture(usize),
}

/// The overlay's device objects.
pub struct EguiGpu {
    /// The drawing library's renderer is there.
    pub renderer: bool,
    pub render_pass: u64,
    pub framebuffers: Vec<Option<u64>>,
    pub target_views: Vec<u64>,
    pub extent: Extent2D,
}

/// What is destroyed with the framebuffers that were built.
pub open spec fn built(framebuffers: Seq<Option<u64>>) -> Seq<Release>
    decreases framebuffers.len(),
{
    if framebuffers.len() == 0 {
        Seq::empty()
    } else {
        match framebuffers.last() {
            Some(fb) => built(framebuffers.drop_last()).push(Release::Framebuffer(fb)),
            None => built(framebuffers.drop_last()),
        }
    }
}

/// The view of image `i`, if there is such an image.
pub open spec fn view_at(views: Seq<u64>, i: int) -> Option<u64> {
    if 0 <= i < views.len() {
        Some(views[i])
    } else {
        None
    }
}

fn get_view(views: &Vec<u64>, i: usize) -> (r: Option<u64>)
    ensures
        r == view_at(views@, i as int),
{
    if i < views.len() {
        Some(views[i])
    } else {
        None
    }
}

fn release_built(framebuffers: &Vec<Option<u64>>) -> (r: Vec<Release>)
    ensures
        r@ == built(framebuffers@),
{
    let mut list: Vec<Release> = Vec::new();
    let mut i: usize = 0;
    while i < framebuffers.len()
        invariant
            i <= framebuffers.len(),
            list@ == built(framebuffers@.take(i as int)),
        decreases framebuffers.len() - i,
    {
        if let Some(fb) = framebuffers[i] {
            list.push(Release::Framebuffer(fb));
        }
        i = i + 1;
        assert(framebuffers@.take(i as int).drop_last() =~= framebuffers@.take(i - 1));
    }
    assert(framebuffers@.take(i as int) =~= framebuffers@);
    list
}

impl EguiGpu {
    /// Every framebuffer belongs to one view.
    pub open spec fn wf(&self) -> bool {
        self.framebuffers@.len() == self.target_views@.len()
    }

    /// The framebuffers were built for another swapchain than this one: another number
    /// of images, another size, or another image in this place.
    pub open spec fn outdated(&self, views: Seq<u64>, image_index: int, extent: Extent2D) -> bool {
        ||| self.framebuffers@.len() != views.len()
        ||| self.extent != extent
        ||| view_at(self.target_views@, image_index) != view_at(views, image_index)
    }

    /// The overlay over freshly created objects. No framebuffer is built yet.
    pub fn new(render_pass: u64) -> (r: Self)
        ensures
            r.wf(),
            r.renderer,
            r.render_pass == render_pass,
            r.framebuffers@.len() == 0,
            r.extent == (Extent2D { width: 0, height: 0 }),
    {
        EguiGpu {
            renderer: true,
            render_pass,
            framebuffers: Vec::new(),
            target_views: Vec::new(),
            extent: Extent2D { width: 0, height: 0 },
        }
    }

    /// The framebuffer of an image. Where the swapchain has changed, all framebuffers
    /// are handed out to be destroyed.
    pub fn ensure_framebuffer(&mut self, views: &Vec<u64>, image_index: u32, extent: Extent2D) -> (r: (
        Vec<Release>,
        FramebufferStep,
    ))
        requires
            old(self).wf(),
        ensures
            final(self).wf(),
            final(self).renderer == old(self).renderer,
            final(self).render_pass == old(self).render_pass,
            final(self).extent == extent,
            final(self).framebuffers@.len() == views@.len(),
            view_at(final(self).target_views@, image_index as int) == view_at(
                views@,
                image_index as int,
            ),
            old(self).outdated(views@, image_index as int, extent) ==> {
                &&& r.0@ == built(old(self).framebuffers@)
                &&& final(self).target_views@ == views@
                &&& forall|i: int|
                    0 <= i < views@.len() ==> #[trigger] final(self).framebuffers@[i] is None
                &&& r.1 == (match view_at(views@, image_index as int) {
                    Some(view) => FramebufferStep::Build { view },
                    None => FramebufferStep::OutOfRange,
                })
            },
            !old(self).outdated(views@, image_index as int, extent) ==> {
                &&& r.0@.len() == 0
                &&& final(self).target_views@ == old(self).target_views@
                &&& final(self).framebuffers@ == old(self).framebuffers@
                &&& r.1 == (match view_at(views@, image_index as int) {
                    Some(view) => match old(self).framebuffers@[image_index as int] {
                        Some(fb) => FramebufferStep::Use(fb),
                        None => FramebufferStep::Build { view },
                    },
                    None => FramebufferStep::OutOfRange,
                })
            },
    {
        let index: usize = image_index as usize;
        let bound: Option<u64> = get_view(&self.target_views, index);
        let wanted: Option<u64> = get_view(views, index);
        let same_view: bool = match (bound, wanted) {
            (Some(a), Some(b)) => a == b,
            (None, None) => true,
            _ => false,
        };
        let mut list: Vec<Release> = Vec::new();
        if self.framebuffers.len() != views.len() || self.extent.width != extent.width
            || self.extent.height != extent.height || !same_view {
            list = release_built(&self.framebuffers);
            let mut slots: Vec<Option<u64>> = Vec::new();
            let mut kept: Vec<u64> = Vec::new();
            let mut i: usize = 0;
            while i < views.len()
                invariant
                    i <= views.len(),
                    slots@.len() == i,
                    kept@ == views@.take(i as int),
                    forall|k: int| 0 <= k < i ==> #[trigger] slots@[k] is None,
                decreases views.len() - i,
            {
                slots.push(None);
                kept.push(views[i]);
                i = i + 1;
                assert(kept@ =~= views@.take(i as int));
            }
            assert(views@.take(i as int) =~= views@);
            self.framebuffers = slots;
            self.target_views = kept;
            self.extent = extent;
        }
        let step = match wanted {
            Some(view) => match self.framebuffers[index] {
                Some(fb) => FramebufferStep::Use(fb),
                None => FramebufferStep::Build { view },
            },
            None => FramebufferStep::OutOfRange,
        };
        (list, step)
    }

    /// Puts a framebuffer in place that was built for an image.
    pub fn put_framebuffer(&mut self, image_index: u32, framebuffer: u64)
        requires
            old(self).wf(),
            image_index < old(self).framebuffers@.len(),
        ensures
            final(self).wf(),
            final(self).framebuffers@ == old(self).framebuffers@.update(
                image_index as int,
                Some(framebuffer),
            ),
            final(self).target_views == old(self).target_views,
            final(self).extent == old(self).extent,
            final(self).renderer == old(self).renderer,
            final(self).render_pass == old(self).render_pass,
    {
        self.framebuffers.set(image_index as usize, Some(framebuffer));
    }

    /// Whether the overlay can be drawn. The textures that are new or have changed are
    /// uploaded first, and only then is the framebuffer looked for.
    pub fn check_renderer(&self) -> (r: Result<(), OverlayError>)
        ensures
            self.renderer ==> r == Ok::<(), OverlayError>(()),
            !self.renderer ==> r == Err::<(), OverlayError>(OverlayError::RendererMissing),
    {
        if self.renderer {
            Ok(())
        } else {
            Err(OverlayError::RendererMissing)
        }
    }

    /// The steps of drawing the overlay into a framebuffer.
    pub fn record(&self, framebuffer: u64, extent: Extent2D, freed: usize) -> (r: Vec<OverlayStep>)
        ensures
            r@ == drawing(self.render_pass, framebuffer, extent, freed),
    {
        let mut steps: Vec<OverlayStep> = Vec::new();
        steps.push(
            OverlayStep::BeginRenderPass { render_pass: self.render_pass, framebuffer, extent },
        );
        steps.push(OverlayStep::Draw { extent });
        steps.push(OverlayStep::EndRenderPass);
        let ghost head = steps@;
        let mut i: usize = 0;
        assert(steps@ =~= head + Seq::new(0, |i: int| OverlayStep::FreeTexture(i as usize)));
        while i < freed
            invariant
                i <= freed,
                steps@ == head + Seq::new(i as nat, |i: int| OverlayStep::FreeTexture(i as usize)),
            decreases freed - i,
        {
            steps.push(OverlayStep::FreeTexture(i));
            i = i + 1;
            assert(steps@ =~= head + Seq::new(
                i as nat,
                |i: int| OverlayStep::FreeTexture(i as usize),
            ));
        }
        steps
    }

    /// Forgets all framebuffers, which are handed out to be destroyed.
    pub fn drop_target(&mut self) -> (r: Vec<Release>)
        requires
            old(self).wf(),
        ensures
            final(self).wf(),
            r@ == built(old(self).framebuffers@),
            final(self).framebuffers@.len() == 0,
            final(self).target_views@.len() == 0,
            final(self).extent == old(self).extent,
            final(self).renderer == old(self).renderer,
            final(self).render_pass == old(self).render_pass,
    {
        let list = release_built(&self.framebuffers);
        self.framebuffers.clear();
        self.target_views.clear();
        list
    }

    /// Destroys the overlay, once the device is idle: the framebuffers, and the render
    /// pass unless it is gone already. The drawing library's renderer goes in between.
    pub fn destroy(&mut self) -> (r: Vec<Release>)
        requires
            old(self).wf(),
        ensures
            final(self).wf(),
            r@ == built(old(self).framebuffers@) + (if old(self).render_pass != 0 {
                seq![Release::RenderPass(old(self).render_pass)]
            } else {
                Seq::empty()
            }),
            final(self).framebuffers@.len() == 0,
            final(self).target_views@.len() == 0,
            final(self).extent == old(self).extent,
            final(self).render_pass == 0,
            !final(self).renderer,
    {
        let mut list = self.drop_target();
        self.renderer = false;
        if self.render_pass != 0 {
            list.push(Release::RenderPass(self.render_pass));
            self.render_pass = 0;
        }
        assert(list@ =~= built(old(self).framebuffers@) + (if old(self).render_pass != 0 {
            seq![Release::RenderPass(old(self).render_pass)]
        } else {
            Seq::empty()
        }));
        list
    }
}

/// Destroying the overlay a second time destroys nothing.
pub proof fn destroyed_overlay_owns_nothing(o: EguiGpu)
    requires
        o.framebuffers@.len() == 0,
        o.render_pass == 0,
    ensures
        built(o.framebuffers@) + (if o.render_pass != 0 {
            seq![Release::RenderPass(o.render_pass)]
        } else {
            Seq::empty()
        }) == Seq::<Release>::empty(),
{
    assert(built(o.framebuffers@) =~= Seq::empty());
}

/// A framebuffer is used again only for the image and the size that it was built for.
pub proof fn reused_framebuffer_fits(o: EguiGpu, views: Seq<u64>, image_index: int, extent: Extent2D)
    requires
        o.wf(),
        !o.outdated(views, image_index, extent),
        0 <= image_index < views.len(),
    ensures
        o.target_views@[image_index] == views[image_index],
        o.extent == extent,
{
    assert(view_at(o.target_views@, image_index) == view_at(views, image_index));
}

/// A framebuffer is built anew exactly where the swapchain has another number of images,
/// another size, or another image in this place.
pub proof fn framebuffer_is_rebuilt_for_a_reason(
    o: EguiGpu,
    views: Seq<u64>,
    image_index: int,
    extent: Extent2D,
)
    requires
        o.wf(),
        0 <= image_index < views.len(),
    ensures
        o.outdated(views, image_index, extent) <==> o.framebuffers@.len() != views.len()
            || o.extent.width != extent.width || o.extent.height != extent.height
            || o.target_views@[image_index] != views[image_index],
{
}

/// Every framebuffer that was built is destroyed, and nothing else is.
pub proof fn every_built_framebuffer_is_destroyed(framebuffers: Seq<Option<u64>>, fb: u64)
    ensures
        built(framebuffers).contains(Release::Framebuffer(fb)) <==> framebuffers.contains(Some(fb)),
        built(framebuffers).len() <= framebuffers.len(),
    decreases framebuffers.len(),
{
    if framebuffers.len() > 0 {
        let before = framebuffers.drop_last();
        every_built_framebuffer_is_destroyed(before, fb);
        let list = built(framebuffers);
        let x = Release::Framebuffer(fb);
        if framebuffers.contains(Some(fb)) {
            let k = choose|k: int| 0 <= k < framebuffers.len() && framebuffers[k] == Some(fb);
            if k < before.len() {
                assert(before[k] == Some(fb));
                let j = choose|j: int| 0 <= j < built(before).len() && built(before)[j] == x;
                assert(list[j] == x);
            } else {
                assert(list[list.len() - 1] == x);
            }
        }
        if list.contains(x) {
            let j = choose|j: int| 0 <= j < list.len() && list[j] == x;
            if j < built(before).len() {
                assert(built(before)[j] == x);
                let k = choose|k: int| 0 <= k < before.len() && before[k] == Some(fb);
                assert(framebuffers[k] == Some(fb));
            } else {
                assert(framebuffers[framebuffers.len() - 1] == Some(fb));
            }
        }
    }
}

/// The steps of drawing the overlay.
pub open spec fn drawing(
    render_pass: u64,
    framebuffer: u64,
    extent: Extent2D,
    freed: usize,
) -> Seq<OverlayStep> {
    seq![
        OverlayStep::BeginRenderPass { render_pass, framebuffer, extent },
        OverlayStep::Draw { extent },
        OverlayStep::EndRenderPass,
    ] + Seq::new(freed as nat, |i: int| OverlayStep::FreeTexture(i as usize))
}

/// The overlay is drawn into its framebuffer, over all of it, within its render pass; each
/// texture that is no longer needed is freed once, and only behind the drawing.
pub proof fn overlay_is_drawn_before_textures_go(
    render_pass: u64,
    framebuffer: u64,
    extent: Extent2D,
    freed: usize,
    i: int,
    texture: usize,
)
    requires
        0 <= i < drawing(render_pass, framebuffer, extent, freed).len(),
    ensures
        ({
            let steps = drawing(render_pass, framebuffer, extent, freed);
            &&& steps[0] == OverlayStep::BeginRenderPass { render_pass, framebuffer, extent }
            &&& steps[i] is Draw ==> steps[i] == OverlayStep::Draw { extent } && 0 < i
            &&& steps.contains(OverlayStep::Draw { extent })
            &&& steps[2] is EndRenderPass
            &&& steps[i] is FreeTexture ==> 2 < i
            &&& steps.contains(OverlayStep::FreeTexture(texture)) <==> texture < freed
            &&& steps.len() == 3 + freed
        }),
{
    let steps = drawing(render_pass, framebuffer, extent, freed);
    assert(steps[1] == OverlayStep::Draw { extent });
    if texture < freed {
        assert(steps[3 + texture] == OverlayStep::FreeTexture(texture));
    }
}

} // verus!
