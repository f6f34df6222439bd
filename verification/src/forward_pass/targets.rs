//! The render targets of the forward pass, one of each kind for every swapchain image.

use vstd::prelude::*;

use crate::gpu::{AttachedImage, Extent2D, Release};

verus! {

/// The framebuffers and attachments that depend on the swapchain.
pub struct SceneTargets {
    framebuffers: Vec<Option<u64>>,
    colors: Vec<Option<AttachedImage>>,
    depths: Vec<Option<AttachedImage>>,
    normals: Vec<Option<AttachedImage>>,
    extent: Extent2D,
}

/// What to do before an image is rendered to.
#[derive(Debug, PartialEq)]
pub enum TargetStep {
    /// There is nothing to render to.
    Skip,
    /// Destroy what is given, then build the targets of this image.
    Build(Vec<Release>),
    /// Destroy what is given; the targets of this image are there.
    Ready(Vec<Release>),
}

/// The images present in `slots`, in order.
pub open spec fn image_releases(slots: Seq<Option<AttachedImage>>) -> Seq<Release>
    decreases slots.len(),
{
    if slots.len() == 0 {
        Seq::empty()
    } else {
        let before = image_releases(slots.drop_last());
        match slots.last() {
            Some(i) => before.push(Release::Image(i)),
            None => before,
        }
    }
}

/// The framebuffers present in `slots`, in order.
pub open spec fn framebuffer_releases(slots: Seq<Option<u64>>) -> Seq<Release>
    decreases slots.len(),
{
    if slots.len() == 0 {
        Seq::empty()
    } else {
        let before = framebuffer_releases(slots.drop_last());
        match slots.last() {
            Some(f) => before.push(Release::Framebuffer(f)),
            None => before,
        }
    }
}

fn push_images(list: &mut Vec<Release>, slots: &Vec<Option<AttachedImage>>)
    ensures
        final(list)@ == old(list)@ + image_releases(slots@),
{
    let ghost start = list@;
    let mut i: usize = 0;
    while i < slots.len()
        invariant
            i <= slots.len(),
            list@ == start + image_releases(slots@.take(i as int)),
        decreases slots.len() - i,
    {
        assert(slots@.take(i + 1).drop_last() =~= slots@.take(i as int));
        if let Some(image) = slots[i] {
            list.push(Release::Image(image));
        }
        assert(list@ =~= start + image_releases(slots@.take(i + 1)));
        i = i + 1;
    }
    assert(slots@.take(i as int) =~= slots@);
}

fn push_framebuffers(list: &mut Vec<Release>, slots: &Vec<Option<u64>>)
    ensures
        final(list)@ == old(list)@ + framebuffer_releases(slots@),
{
    let ghost start = list@;
    let mut i: usize = 0;
    while i < slots.len()
        invariant
            i <= slots.len(),
            list@ == start + framebuffer_releases(slots@.take(i as int)),
        decreases slots.len() - i,
    {
        assert(slots@.take(i + 1).drop_last() =~= slots@.take(i as int));
        if let Some(framebuffer) = slots[i] {
            list.push(Release::Framebuffer(framebuffer));
        }
        assert(list@ =~= start + framebuffer_releases(slots@.take(i + 1)));
        i = i + 1;
    }
    assert(slots@.take(i as int) =~= slots@);
}

/// `count` empty slots.
fn empty_slots<T>(count: usize) -> (r: Vec<Option<T>>)
    ensures
        r@ == Seq::new(count as nat, |i: int| None::<T>),
{
    let mut slots: Vec<Option<T>> = Vec::new();
    let mut i: usize = 0;
    while i < count
        invariant
            i <= count,
            slots@ == Seq::new(i as nat, |k: int| None::<T>),
        decreases count - i,
    {
        slots.push(None);
        assert(slots@ =~= Seq::new((i + 1) as nat, |k: int| None::<T>));
        i = i + 1;
    }
    slots
}

/// The slot of an image is prepared. A screen without pixels and an image that the
/// swapchain does not have are skipped. Where the swapchain changed, all targets are
/// given up, and every slot is empty afterwards; otherwise nothing changes.
pub open spec fn prepared(
    before: SceneTargets,
    image_count: usize,
    image_index: u32,
    extent: Extent2D,
    after: SceneTargets,
    step: TargetStep,
) -> bool {
    if extent.width == 0 || extent.height == 0 || image_index >= image_count {
        &&& step is Skip
        &&& after.same(&before)
    } else if before.outdated(image_count, extent) {
        &&& step matches TargetStep::Build(list) && list@ == before.owned()
        &&& after.blank(image_count as nat)
        &&& after.size() == extent
    } else {
        &&& after.same(&before)
        &&& match before.framebuffers()[image_index as int] {
            Some(_) => step matches TargetStep::Ready(list) && list@.len() == 0,
            None => step matches TargetStep::Build(list) && list@.len() == 0,
        }
    }
}

impl SceneTargets {
    pub closed spec fn framebuffers(&self) -> Seq<Option<u64>> {
        self.framebuffers@
    }

    pub closed spec fn colors(&self) -> Seq<Option<AttachedImage>> {
        self.colors@
    }

    pub closed spec fn depths(&self) -> Seq<Option<AttachedImage>> {
        self.depths@
    }

    pub closed spec fn normals(&self) -> Seq<Option<AttachedImage>> {
        self.normals@
    }

    pub closed spec fn size(&self) -> Extent2D {
        self.extent
    }

    /// There is a slot of each kind for every image.
    pub open spec fn wf(&self) -> bool {
        &&& self.colors().len() == self.framebuffers().len()
        &&& self.depths().len() == self.framebuffers().len()
        &&& self.normals().len() == self.framebuffers().len()
    }

    /// All that the targets own: framebuffers before the images that they refer to.
    pub open spec fn owned(&self) -> Seq<Release> {
        framebuffer_releases(self.framebuffers()) + image_releases(self.colors()) + image_releases(
            self.depths(),
        ) + image_releases(self.normals())
    }

    /// There are no slots.
    pub open spec fn is_empty(&self) -> bool {
        &&& self.framebuffers().len() == 0
        &&& self.colors().len() == 0
        &&& self.depths().len() == 0
        &&& self.normals().len() == 0
    }

    /// There are `count` slots of each kind, and all of them are empty.
    pub open spec fn blank(&self, count: nat) -> bool {
        &&& self.framebuffers() == Seq::new(count, |i: int| None::<u64>)
        &&& self.colors() == Seq::new(count, |i: int| None::<AttachedImage>)
        &&& self.depths() == Seq::new(count, |i: int| None::<AttachedImage>)
        &&& self.normals() == Seq::new(count, |i: int| None::<AttachedImage>)
    }

    /// The same slots and the same size.
    pub open spec fn same(&self, other: &Self) -> bool {
        &&& self.framebuffers() == other.framebuffers()
        &&& self.colors() == other.colors()
        &&& self.depths() == other.depths()
        &&& self.normals() == other.normals()
        &&& self.size() == other.size()
    }

    /// The swapchain is not the one that the slots were made for.
    pub open spec fn outdated(&self, image_count: usize, extent: Extent2D) -> bool {
        self.framebuffers().len() != image_count || self.size() != extent
    }

    /// No targets yet.
    pub fn new() -> (r: Self)
        ensures
            r.wf(),
            r.is_empty(),
            r.size() == (Extent2D { width: 0, height: 0 }),
    {
        SceneTargets {
            framebuffers: Vec::new(),
            colors: Vec::new(),
            depths: Vec::new(),
            normals: Vec::new(),
            extent: Extent2D { width: 0, height: 0 },
        }
    }

    /// Gives up all targets, the framebuffers first.
    pub fn drop_target(&mut self) -> (r: Vec<Release>)
        requires
            old(self).wf(),
        ensures
            r@ == old(self).owned(),
            final(self).wf(),
            final(self).is_empty(),
            final(self).size() == (Extent2D { width: 0, height: 0 }),
    {
        let mut list: Vec<Release> = Vec::new();
        push_framebuffers(&mut list, &self.framebuffers);
        push_images(&mut list, &self.colors);
        push_images(&mut list, &self.depths);
        push_images(&mut list, &self.normals);
        assert(list@ =~= self.owned());
        self.framebuffers.clear();
        self.colors.clear();
        self.depths.clear();
        self.normals.clear();
        self.extent = Extent2D { width: 0, height: 0 };
        list
    }

    /// Gives up the framebuffers alone.
    pub fn take_framebuffers(&mut self) -> (r: Vec<Release>)
        ensures
            r@ == framebuffer_releases(old(self).framebuffers()),
            final(self).framebuffers().len() == 0,
            final(self).colors() == old(self).colors(),
            final(self).depths() == old(self).depths(),
            final(self).normals() == old(self).normals(),
            final(self).size() == old(self).size(),
    {
        let mut list: Vec<Release> = Vec::new();
        push_framebuffers(&mut list, &self.framebuffers);
        assert(list@ =~= framebuffer_releases(self.framebuffers@));
        self.framebuffers.clear();
        list
    }

    /// Gives up the depth images alone.
    pub fn take_depths(&mut self) -> (r: Vec<Release>)
        ensures
            r@ == image_releases(old(self).depths()),
            final(self).depths().len() == 0,
            final(self).framebuffers() == old(self).framebuffers(),
            final(self).colors() == old(self).colors(),
            final(self).normals() == old(self).normals(),
            final(self).size() == old(self).size(),
    {
        let mut list: Vec<Release> = Vec::new();
        push_images(&mut list, &self.depths);
        assert(list@ =~= image_releases(self.depths@));
        self.depths.clear();
        list
    }

    /// Prepares the slot of `image_index`. All targets are given up when the swapchain's
    /// size or number of images changed, and none otherwise.
    pub fn set_target(&mut self, image_count: usize, image_index: u32, extent: Extent2D) -> (r:
        TargetStep)
        requires
            old(self).wf(),
        ensures
            final(self).wf(),
            prepared(*old(self), image_count, image_index, extent, *final(self), r),
    {
        if extent.width == 0 || extent.height == 0 {
            return TargetStep::Skip;
        }
        let idx: usize = image_index as usize;
        if idx >= image_count {
            return TargetStep::Skip;
        }
        if self.framebuffers.len() != image_count || self.extent != extent {
            let list: Vec<Release> = self.drop_target();
            self.extent = extent;
            self.framebuffers = empty_slots(image_count);
            self.colors = empty_slots(image_count);
            self.depths = empty_slots(image_count);
            self.normals = empty_slots(image_count);
            return TargetStep::Build(list);
        }
        if self.framebuffers[idx].is_some() {
            TargetStep::Ready(Vec::new())
        } else {
            TargetStep::Build(Vec::new())
        }
    }

    /// Stores the new color image of a slot and gives up the one before.
    pub fn put_color(&mut self, image_index: u32, image: AttachedImage) -> (r: Option<
        AttachedImage,
    >)
        requires
            old(self).wf(),
            image_index < old(self).colors().len(),
        ensures
            final(self).wf(),
            r == old(self).colors()[image_index as int],
            final(self).colors() == old(self).colors().update(image_index as int, Some(image)),
            final(self).framebuffers() == old(self).framebuffers(),
            final(self).depths() == old(self).depths(),
            final(self).normals() == old(self).normals(),
            final(self).size() == old(self).size(),
    {
        let before: Option<AttachedImage> = self.colors[image_index as usize];
        self.colors.set(image_index as usize, Some(image));
        before
    }

    /// Stores the new depth image of a slot and gives up the one before.
    pub fn put_depth(&mut self, image_index: u32, image: AttachedImage) -> (r: Option<
        AttachedImage,
    >)
        requires
            old(self).wf(),
            image_index < old(self).depths().len(),
        ensures
            final(self).wf(),
            r == old(self).depths()[image_index as int],
            final(self).depths() == old(self).depths().update(image_index as int, Some(image)),
            final(self).framebuffers() == old(self).framebuffers(),
            final(self).colors() == old(self).colors(),
            final(self).normals() == old(self).normals(),
            final(self).size() == old(self).size(),
    {
        let before: Option<AttachedImage> = self.depths[image_index as usize];
        self.depths.set(image_index as usize, Some(image));
        before
    }

    /// Stores the new normal image of a slot and gives up the one before.
    pub fn put_normal(&mut self, image_index: u32, image: AttachedImage) -> (r: Option<
        AttachedImage,
    >)
        requires
            old(self).wf(),
            image_index < old(self).normals().len(),
        ensures
            final(self).wf(),
            r == old(self).normals()[image_index as int],
            final(self).normals() == old(self).normals().update(image_index as int, Some(image)),
            final(self).framebuffers() == old(self).framebuffers(),
            final(self).colors() == old(self).colors(),
            final(self).depths() == old(self).depths(),
            final(self).size() == old(self).size(),
    {
        let before: Option<AttachedImage> = self.normals[image_index as usize];
        self.normals.set(image_index as usize, Some(image));
        before
    }

    /// The views that a slot's framebuffer attaches, in the order of the render pass:
    /// color, depth, normal.
    pub fn attachments(&self, image_index: u32) -> (r: Option<[u64; 3]>)
        requires
            self.wf(),
        ensures
            match r {
                Some(views) => {
                    &&& image_index < self.colors().len()
                    &&& self.colors()[image_index as int] matches Some(c) && views@[0] == c.view
                    &&& self.depths()[image_index as int] matches Some(d) && views@[1] == d.view
                    &&& self.normals()[image_index as int] matches Some(n) && views@[2] == n.view
                },
                None => image_index >= self.colors().len() || self.colors()[image_index as int]
                    is None || self.depths()[image_index as int] is None
                    || self.normals()[image_index as int] is None,
            },
    {
        let idx: usize = image_index as usize;
        if idx >= self.colors.len() {
            return None;
        }
        match (self.colors[idx], self.depths[idx], self.normals[idx]) {
            (Some(c), Some(d), Some(n)) => Some([c.view, d.view, n.view]),
            _ => None,
        }
    }

    /// Stores the framebuffer of a slot and gives up the one before.
    pub fn put_framebuffer(&mut self, image_index: u32, framebuffer: u64) -> (r: Option<u64>)
        requires
            old(self).wf(),
            image_index < old(self).framebuffers().len(),
        ensures
            final(self).wf(),
            r == old(self).framebuffers()[image_index as int],
            final(self).framebuffers() == old(self).framebuffers().update(
                image_index as int,
                Some(framebuffer),
            ),
            final(self).colors() == old(self).colors(),
            final(self).depths() == old(self).depths(),
            final(self).normals() == old(self).normals(),
            final(self).size() == old(self).size(),
    {
        let before: Option<u64> = self.framebuffers[image_index as usize];
        self.framebuffers.set(image_index as usize, Some(framebuffer));
        before
    }

    /// The framebuffer of a slot.
    pub fn framebuffer(&self, image_index: u32) -> (r: Option<u64>)
        ensures
            r == (if image_index < self.framebuffers().len() {
                self.framebuffers()[image_index as int]
            } else {
                None
            }),
    {
        if (image_index as usize) < self.framebuffers.len() {
            self.framebuffers[image_index as usize]
        } else {
            None
        }
    }

    /// The color image of a slot.
    pub fn color(&self, image_index: u32) -> (r: Option<AttachedImage>)
        ensures
            r == slot_at(self.colors(), image_index),
    {
        if (image_index as usize) < self.colors.len() {
            self.colors[image_index as usize]
        } else {
            None
        }
    }

    /// The depth image of a slot.
    pub fn depth(&self, image_index: u32) -> (r: Option<AttachedImage>)
        ensures
            r == slot_at(self.depths(), image_index),
    {
        if (image_index as usize) < self.depths.len() {
            self.depths[image_index as usize]
        } else {
            None
        }
    }

    /// The normal image of a slot.
    pub fn normal(&self, image_index: u32) -> (r: Option<AttachedImage>)
        ensures
            r == slot_at(self.normals(), image_index),
    {
        if (image_index as usize) < self.normals.len() {
            self.normals[image_index as usize]
        } else {
            None
        }
    }

    /// The size that the targets were made for.
    pub fn extent(&self) -> (r: Extent2D)
        ensures
            r == self.size(),
    {
        self.extent
    }
}

/// What a slot holds; nothing where there is no such slot.
pub open spec fn slot_at(slots: Seq<Option<AttachedImage>>, index: u32) -> Option<AttachedImage> {
    if index < slots.len() {
        slots[index as int]
    } else {
        None
    }
}

/// Replacing the image of a slot loses nothing: what the slots own afterwards, together
/// with the image given up, is what they owned before together with the new image.
pub proof fn replaced_image_changes_hands(
    slots: Seq<Option<AttachedImage>>,
    i: int,
    image: AttachedImage,
)
    requires
        0 <= i < slots.len(),
    ensures
        ({
            let before = image_releases(slots).to_multiset();
            let after = image_releases(slots.update(i, Some(image))).to_multiset();
            match slots[i] {
                Some(old_image) => after.insert(Release::Image(old_image)) == before.insert(
                    Release::Image(image),
                ),
                None => after == before.insert(Release::Image(image)),
            }
        }),
    decreases slots.len(),
{
    broadcast use vstd::seq_lib::to_multiset_build;

    let rest = slots.drop_last();
    let changed = slots.update(i, Some(image));
    if i == slots.len() - 1 {
        assert(changed.drop_last() =~= rest);
        let r = image_releases(rest);
        assert(image_releases(changed) == r.push(Release::Image(image)));
        match slots[i] {
            Some(old_image) => {
                assert(image_releases(slots) == r.push(Release::Image(old_image)));
                assert(r.to_multiset().insert(Release::Image(image)).insert(
                    Release::Image(old_image),
                ) =~= r.to_multiset().insert(Release::Image(old_image)).insert(
                    Release::Image(image),
                ));
            },
            None => {},
        }
    } else {
        replaced_image_changes_hands(rest, i, image);
        assert(changed.drop_last() =~= rest.update(i, Some(image)));
        let before = image_releases(rest).to_multiset();
        let after = image_releases(rest.update(i, Some(image))).to_multiset();
        match slots.last() {
            Some(l) => {
                let x = Release::Image(l);
                match slots[i] {
                    Some(old_image) => {
                        let o = Release::Image(old_image);
                        assert(after.insert(x).insert(o) =~= after.insert(o).insert(x));
                        assert(before.insert(x).insert(Release::Image(image)) =~= before.insert(
                            Release::Image(image),
                        ).insert(x));
                    },
                    None => {
                        assert(before.insert(x).insert(Release::Image(image)) =~= before.insert(
                            Release::Image(image),
                        ).insert(x));
                    },
                }
            },
            None => {},
        }
    }
}

/// What a frame publishes: the outputs of the image just rendered, in publishing order,
/// without those that are not there.
pub fn published(targets: &SceneTargets, image_index: u32) -> (r: [Option<AttachedImage>; 3])
    ensures
        r@ == seq![
            slot_at(targets.colors(), image_index),
            slot_at(targets.depths(), image_index),
            slot_at(targets.normals(), image_index),
        ],
{
    let list: [Option<AttachedImage>; 3] = [
        targets.color(image_index),
        targets.depth(image_index),
        targets.normal(image_index),
    ];
    assert(list@ =~= seq![list@[0], list@[1], list@[2]]);
    list
}

/// A target is used again only where it fits: the slots are as many as the swapchain has
/// images, they were made for its size, and the slot of the image is filled. What does not
/// fit is given up, all of it, and a screen without pixels has no target.
pub proof fn reused_target_fits(
    before: SceneTargets,
    image_count: usize,
    image_index: u32,
    extent: Extent2D,
    after: SceneTargets,
    step: TargetStep,
)
    requires
        prepared(before, image_count, image_index, extent, after, step),
        before.wf(),
    ensures
        step is Ready ==> {
            &&& extent.width > 0 && extent.height > 0
            &&& image_index < image_count
            &&& before.framebuffers().len() == image_count
            &&& before.size() == extent
            &&& before.framebuffers()[image_index as int] is Some
            &&& after.framebuffers() == before.framebuffers()
        },
        step is Skip <==> extent.width == 0 || extent.height == 0 || image_index >= image_count,
        step matches TargetStep::Build(list) ==> {
            &&& after.size() == extent
            &&& after.framebuffers().len() == image_count
            &&& after.framebuffers()[image_index as int] is None
            &&& list@.len() > 0 ==> list@ == before.owned()
            &&& before.size() != extent || before.framebuffers().len() != image_count ==> list@
                == before.owned()
        },
{
}

/// Every framebuffer in a slot is given up, and every image.
pub proof fn every_slot_is_given_up(
    framebuffers: Seq<Option<u64>>,
    images: Seq<Option<AttachedImage>>,
    i: int,
)
    ensures
        0 <= i < framebuffers.len() && framebuffers[i] is Some ==> framebuffer_releases(
            framebuffers,
        ).contains(Release::Framebuffer(framebuffers[i]->Some_0)),
        0 <= i < images.len() && images[i] is Some ==> image_releases(images).contains(
            Release::Image(images[i]->Some_0),
        ),
    decreases framebuffers.len() + images.len(),
{
    if framebuffers.len() > 0 {
        let before = framebuffer_releases(framebuffers.drop_last());
        every_slot_is_given_up(framebuffers.drop_last(), images, i);
        let all = framebuffer_releases(framebuffers);
        if 0 <= i < framebuffers.len() - 1 && framebuffers[i] is Some {
            let own = Release::Framebuffer(framebuffers[i]->Some_0);
            let k = choose|k: int| 0 <= k < before.len() && before[k] == own;
            assert(all[k] == own);
        } else if i == framebuffers.len() - 1 && framebuffers[i] is Some {
            assert(all[before.len() as int] == Release::Framebuffer(framebuffers[i]->Some_0));
        }
    }
    if images.len() > 0 {
        let before = image_releases(images.drop_last());
        every_slot_is_given_up(framebuffers, images.drop_last(), i);
        let all = image_releases(images);
        if 0 <= i < images.len() - 1 && images[i] is Some {
            let own = Release::Image(images[i]->Some_0);
            let k = choose|k: int| 0 <= k < before.len() && before[k] == own;
            assert(all[k] == own);
        } else if i == images.len() - 1 && images[i] is Some {
            assert(all[before.len() as int] == Release::Image(images[i]->Some_0));
        }
    }
}

} // verus!
