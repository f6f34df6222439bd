//! The long-lived objects of the forward pass: its descriptor sets and buffers, and what
//! it borrows from others.

use vstd::prelude::*;

use crate::descriptor::{DescriptorKind, DescriptorSource, DescriptorWrite};
use crate::gpu::{ImageLayout, Release};

verus! {

/// The descriptor sets and buffers of the pass, and what it borrows from others.
pub struct SceneResources {
    pub render_pass: Option<u64>,
    pub frame_layout: Option<u64>,
    pub frame_pool: Option<u64>,
    pub frame_sets: Vec<u64>,
    pub shadow_layout: Option<u64>,
    pub shadow_pool: Option<u64>,
    pub shadow_set: u64,
    pub light_buffer: u64,
    pub light_memory: u64,
    pub ao_layout: Option<u64>,
    pub ao_pool: Option<u64>,
    pub ao_sampler: u64,
    pub ao_sets: Vec<u64>,
    pub ao_views: Vec<u64>,
    /// Borrowed: the bindless textures (set 1), the environment (set 2) and the probe
    /// volume (set 5).
    pub bindless_set: u64,
    pub bindless_layout: u64,
    pub ibl_set: u64,
    pub ibl_layout: u64,
    pub gi_set: u64,
    pub gi_layout: u64,
    /// Bindless slot of the BRDF table.
    pub brdf_handle: u32,
}

/// What the pass borrows.
#[derive(Clone, Copy, Debug, PartialEq, Eq, Structural)]
pub struct BorrowedSets {
    pub bindless_set: u64,
    pub bindless_layout: u64,
    pub ibl_set: u64,
    pub ibl_layout: u64,
    pub gi_set: u64,
    pub gi_layout: u64,
    pub brdf_handle: u32,
}

pub open spec fn layout_release(h: Option<u64>) -> Seq<Release> {
    match h {
        Some(x) => seq![Release::SetLayout(x)],
        None => Seq::empty(),
    }
}

pub open spec fn pool_release(h: Option<u64>) -> Seq<Release> {
    match h {
        Some(x) => seq![Release::Pool(x)],
        None => Seq::empty(),
    }
}

pub open spec fn render_pass_release(h: Option<u64>) -> Seq<Release> {
    match h {
        Some(x) => seq![Release::RenderPass(x)],
        None => Seq::empty(),
    }
}

/// One release where the handle is not null.
pub open spec fn handle_release(h: u64, r: Release) -> Seq<Release> {
    if h != 0 {
        seq![r]
    } else {
        Seq::empty()
    }
}

/// Why the pass cannot go on.
#[derive(Clone, Copy, Debug, PartialEq, Eq, Structural)]
pub enum ForwardError {
    /// The render pass has not been created.
    NoRenderPass,
    /// The layout of set 0 is missing.
    NoFrameLayout,
    /// The layout of set 3 is missing.
    NoShadowLayout,
    /// The layout of set 4 is missing.
    NoAoLayout,
    /// The image has no framebuffer.
    NoFramebuffer,
    /// The frame has no set 0.
    NoFrameSet,
}

/// The descriptor write that a change of the ambient-occlusion view calls for.
pub open spec fn ao_write(set: u64, view: u64, sampler: u64) -> DescriptorWrite {
    DescriptorWrite {
        set,
        binding: 0,
        kind: DescriptorKind::CombinedImageSampler,
        source: DescriptorSource::SampledImage {
            view,
            sampler,
            layout: ImageLayout::ShaderReadOnly,
        },
    }
}

impl SceneResources {
    /// What set 0 owns.
    pub open spec fn owned_frame(&self) -> Seq<Release> {
        layout_release(self.frame_layout) + pool_release(self.frame_pool)
    }

    /// What set 3 owns.
    pub open spec fn owned_shadow(&self) -> Seq<Release> {
        layout_release(self.shadow_layout) + pool_release(self.shadow_pool)
    }

    /// What the light buffer owns.
    pub open spec fn owned_lights(&self) -> Seq<Release> {
        handle_release(self.light_buffer, Release::Buffer(self.light_buffer)) + handle_release(
            self.light_memory,
            Release::Memory(self.light_memory),
        )
    }

    /// What set 4 owns.
    pub open spec fn owned_ao(&self) -> Seq<Release> {
        layout_release(self.ao_layout) + pool_release(self.ao_pool) + handle_release(
            self.ao_sampler,
            Release::Sampler(self.ao_sampler),
        )
    }

    /// All that is owned, in the order in which it is given up.
    pub open spec fn owned(&self) -> Seq<Release> {
        render_pass_release(self.render_pass) + self.owned_frame() + self.owned_shadow()
            + self.owned_lights() + self.owned_ao()
    }

    /// Nothing has been created, and nothing is borrowed; the BRDF slot is not a slot.
    pub open spec fn unwired(&self) -> bool {
        &&& self.render_pass is None
        &&& self.frame_layout is None
        &&& self.frame_pool is None
        &&& self.frame_sets@.len() == 0
        &&& self.shadow_layout is None
        &&& self.shadow_pool is None
        &&& self.shadow_set == 0
        &&& self.light_buffer == 0
        &&& self.light_memory == 0
        &&& self.ao_layout is None
        &&& self.ao_pool is None
        &&& self.ao_sampler == 0
        &&& self.ao_sets@.len() == 0
        &&& self.ao_views@.len() == 0
        &&& self.bindless_set == 0
        &&& self.bindless_layout == 0
        &&& self.ibl_set == 0
        &&& self.ibl_layout == 0
        &&& self.gi_set == 0
        &&& self.gi_layout == 0
        &&& self.brdf_handle == u32::MAX
    }

    /// Nothing yet.
    pub fn new() -> (r: Self)
        ensures
            r.unwired(),
            r.owned() == Seq::<Release>::empty(),
    {
        let r = SceneResources {
            render_pass: None,
            frame_layout: None,
            frame_pool: None,
            frame_sets: Vec::new(),
            shadow_layout: None,
            shadow_pool: None,
            shadow_set: 0,
            light_buffer: 0,
            light_memory: 0,
            ao_layout: None,
            ao_pool: None,
            ao_sampler: 0,
            ao_sets: Vec::new(),
            ao_views: Vec::new(),
            bindless_set: 0,
            bindless_layout: 0,
            ibl_set: 0,
            ibl_layout: 0,
            gi_set: 0,
            gi_layout: 0,
            brdf_handle: u32::MAX,
        };
        assert(r.owned() =~= Seq::<Release>::empty());
        r
    }

    /// Takes over what is borrowed from others.
    pub fn borrow_sets(&mut self, b: BorrowedSets)
        ensures
            *final(self) == (SceneResources {
                bindless_set: b.bindless_set,
                bindless_layout: b.bindless_layout,
                ibl_set: b.ibl_set,
                ibl_layout: b.ibl_layout,
                gi_set: b.gi_set,
                gi_layout: b.gi_layout,
                brdf_handle: b.brdf_handle,
                ..*old(self)
            }),
    {
        self.bindless_set = b.bindless_set;
        self.bindless_layout = b.bindless_layout;
        self.ibl_set = b.ibl_set;
        self.ibl_layout = b.ibl_layout;
        self.gi_set = b.gi_set;
        self.gi_layout = b.gi_layout;
        self.brdf_handle = b.brdf_handle;
    }

    /// Changes the environment, as on a change of scene.
    pub fn set_ibl(&mut self, descriptor_set: u64, brdf_handle: u32)
        ensures
            *final(self) == (SceneResources {
                ibl_set: descriptor_set,
                brdf_handle,
                ..*old(self)
            }),
    {
        self.ibl_set = descriptor_set;
        self.brdf_handle = brdf_handle;
    }

    /// Gives up set 0, before a new one is made.
    pub fn take_frame(&mut self) -> (r: Vec<Release>)
        ensures
            r@ == old(self).owned_frame(),
            final(self).frame_layout is None,
            final(self).frame_pool is None,
            final(self).frame_sets@.len() == 0,
            *final(self) == (SceneResources {
                frame_layout: None,
                frame_pool: None,
                frame_sets: final(self).frame_sets,
                ..*old(self)
            }),
    {
        let mut list: Vec<Release> = Vec::new();
        if let Some(layout) = self.frame_layout {
            list.push(Release::SetLayout(layout));
        }
        if let Some(pool) = self.frame_pool {
            list.push(Release::Pool(pool));
        }
        assert(list@ =~= self.owned_frame());
        self.frame_layout = None;
        self.frame_pool = None;
        self.frame_sets.clear();
        list
    }

    /// Gives up set 3, before a new one is made.
    pub fn take_shadow(&mut self) -> (r: Vec<Release>)
        ensures
            r@ == old(self).owned_shadow(),
            *final(self) == (SceneResources {
                shadow_layout: None,
                shadow_pool: None,
                shadow_set: 0,
                ..*old(self)
            }),
    {
        let mut list: Vec<Release> = Vec::new();
        if let Some(layout) = self.shadow_layout {
            list.push(Release::SetLayout(layout));
        }
        if let Some(pool) = self.shadow_pool {
            list.push(Release::Pool(pool));
        }
        assert(list@ =~= self.owned_shadow());
        self.shadow_layout = None;
        self.shadow_pool = None;
        self.shadow_set = 0;
        list
    }

    /// Gives up the light buffer.
    pub fn take_lights(&mut self) -> (r: Vec<Release>)
        ensures
            r@ == old(self).owned_lights(),
            *final(self) == (SceneResources { light_buffer: 0, light_memory: 0, ..*old(self) }),
    {
        let mut list: Vec<Release> = Vec::new();
        if self.light_buffer != 0 {
            list.push(Release::Buffer(self.light_buffer));
        }
        if self.light_memory != 0 {
            list.push(Release::Memory(self.light_memory));
        }
        assert(list@ =~= self.owned_lights());
        self.light_buffer = 0;
        self.light_memory = 0;
        list
    }

    /// Gives up set 4 and its sampler, before new ones are made.
    pub fn take_ao(&mut self) -> (r: Vec<Release>)
        ensures
            r@ == old(self).owned_ao(),
            final(self).ao_sets@.len() == 0,
            final(self).ao_views@.len() == 0,
            *final(self) == (SceneResources {
                ao_layout: None,
                ao_pool: None,
                ao_sampler: 0,
                ao_sets: final(self).ao_sets,
                ao_views: final(self).ao_views,
                ..*old(self)
            }),
    {
        let mut list: Vec<Release> = Vec::new();
        if let Some(layout) = self.ao_layout {
            list.push(Release::SetLayout(layout));
        }
        if let Some(pool) = self.ao_pool {
            list.push(Release::Pool(pool));
        }
        if self.ao_sampler != 0 {
            list.push(Release::Sampler(self.ao_sampler));
        }
        assert(list@ =~= self.owned_ao());
        self.ao_layout = None;
        self.ao_pool = None;
        self.ao_sampler = 0;
        self.ao_sets.clear();
        self.ao_views.clear();
        list
    }

    /// Takes over a new set 0: one descriptor set per frame in flight.
    pub fn put_frame(&mut self, layout: u64, pool: u64, sets: Vec<u64>)
        ensures
            *final(self) == (SceneResources {
                frame_layout: Some(layout),
                frame_pool: Some(pool),
                frame_sets: sets,
                ..*old(self)
            }),
    {
        self.frame_layout = Some(layout);
        self.frame_pool = Some(pool);
        self.frame_sets = sets;
    }

    /// Takes over a new set 3.
    pub fn put_shadow(&mut self, layout: u64, pool: u64, set: u64)
        ensures
            *final(self) == (SceneResources {
                shadow_layout: Some(layout),
                shadow_pool: Some(pool),
                shadow_set: set,
                ..*old(self)
            }),
    {
        self.shadow_layout = Some(layout);
        self.shadow_pool = Some(pool);
        self.shadow_set = set;
    }

    /// Takes over a new light buffer.
    pub fn put_lights(&mut self, buffer: u64, memory: u64)
        ensures
            *final(self) == (SceneResources {
                light_buffer: buffer,
                light_memory: memory,
                ..*old(self)
            }),
    {
        self.light_buffer = buffer;
        self.light_memory = memory;
    }

    /// Takes over a new set 4: one descriptor set per frame in flight, none of them
    /// pointed at a view yet.
    pub fn put_ao(&mut self, layout: u64, pool: u64, sampler: u64, sets: Vec<u64>)
        ensures
            final(self).ao_views@ == Seq::new(sets@.len(), |i: int| 0u64),
            *final(self) == (SceneResources {
                ao_layout: Some(layout),
                ao_pool: Some(pool),
                ao_sampler: sampler,
                ao_sets: sets,
                ao_views: final(self).ao_views,
                ..*old(self)
            }),
    {
        let mut views: Vec<u64> = Vec::new();
        let mut i: usize = 0;
        while i < sets.len()
            invariant
                i <= sets.len(),
                views@ == Seq::new(i as nat, |k: int| 0u64),
            decreases sets.len() - i,
        {
            views.push(0);
            assert(views@ =~= Seq::new((i + 1) as nat, |k: int| 0u64));
            i = i + 1;
        }
        self.ao_layout = Some(layout);
        self.ao_pool = Some(pool);
        self.ao_sampler = sampler;
        self.ao_sets = sets;
        self.ao_views = views;
    }

    /// The place of a frame's ambient occlusion set.
    pub open spec fn ao_slot(&self, frame_index: u32) -> int {
        frame_index as int % self.ao_sets@.len() as int
    }

    /// The write that points a frame's ambient occlusion set at `view`, where there is
    /// one to make.
    pub open spec fn ao_rewrite(&self, frame_index: u32, view: u64) -> Option<DescriptorWrite> {
        let i = self.ao_slot(frame_index);
        if view == self.ao_views@[i] || view == 0 {
            None
        } else {
            Some(ao_write(self.ao_sets@[i], view, self.ao_sampler))
        }
    }

    /// Points the frame's set 4 at `view`, which is the ambient occlusion of the frame
    /// before. There is nothing to write where the view is bound already or is null.
    pub fn set_ao(&mut self, frame_index: u32, view: u64) -> (r: Option<DescriptorWrite>)
        requires
            old(self).ao_sets.len() > 0,
            old(self).ao_views.len() == old(self).ao_sets.len(),
        ensures
            final(self).ao_views@ == old(self).ao_views@.update(
                old(self).ao_slot(frame_index),
                view,
            ),
            r == old(self).ao_rewrite(frame_index, view),
            *final(self) == (SceneResources { ao_views: final(self).ao_views, ..*old(self) }),
    {
        let i: usize = (frame_index as usize) % self.ao_sets.len();
        if view == self.ao_views[i] {
            assert(self.ao_views@ =~= self.ao_views@.update(i as int, view));
            return None;
        }
        self.ao_views.set(i, view);
        if view == 0 {
            return None;
        }
        Some(
            DescriptorWrite {
                set: self.ao_sets[i],
                binding: 0,
                kind: DescriptorKind::CombinedImageSampler,
                source: DescriptorSource::SampledImage {
                    view,
                    sampler: self.ao_sampler,
                    layout: ImageLayout::ShaderReadOnly,
                },
            },
        )
    }

    /// The set layouts in set order.
    pub open spec fn layouts_in_order(&self, frame: u64, shadow: u64, ao: u64) -> Seq<u64> {
        seq![frame, self.bindless_layout, self.ibl_layout, shadow, ao, self.gi_layout]
    }

    /// The set layouts of the pipeline, in set order.
    pub fn pipeline_layouts(&self) -> (r: Result<[u64; 6], ForwardError>)
        ensures
            match (self.render_pass, self.frame_layout, self.shadow_layout, self.ao_layout) {
                (None, _, _, _) => r == Err::<[u64; 6], ForwardError>(ForwardError::NoRenderPass),
                (_, None, _, _) => r == Err::<[u64; 6], ForwardError>(ForwardError::NoFrameLayout),
                (_, _, None, _) => r == Err::<[u64; 6], ForwardError>(ForwardError::NoShadowLayout),
                (_, _, _, None) => r == Err::<[u64; 6], ForwardError>(ForwardError::NoAoLayout),
                (Some(_), Some(frame), Some(shadow), Some(ao)) => r matches Ok(l) && l@
                    == self.layouts_in_order(frame, shadow, ao),
            },
    {
        if self.render_pass.is_none() {
            return Err(ForwardError::NoRenderPass);
        }
        let frame: u64 = match self.frame_layout {
            Some(l) => l,
            None => return Err(ForwardError::NoFrameLayout),
        };
        let shadow: u64 = match self.shadow_layout {
            Some(l) => l,
            None => return Err(ForwardError::NoShadowLayout),
        };
        let ao: u64 = match self.ao_layout {
            Some(l) => l,
            None => return Err(ForwardError::NoAoLayout),
        };
        let layouts: [u64; 6] = [
            frame,
            self.bindless_layout,
            self.ibl_layout,
            shadow,
            ao,
            self.gi_layout,
        ];
        assert(layouts@ =~= seq![
            frame,
            self.bindless_layout,
            self.ibl_layout,
            shadow,
            ao,
            self.gi_layout,
        ]);
        Ok(layouts)
    }

    /// Gives up the render pass.
    pub fn take_render_pass(&mut self) -> (r: Vec<Release>)
        ensures
            r@ == render_pass_release(old(self).render_pass),
            *final(self) == (SceneResources { render_pass: None, ..*old(self) }),
    {
        let mut list: Vec<Release> = Vec::new();
        if let Some(pass) = self.render_pass {
            list.push(Release::RenderPass(pass));
        }
        assert(list@ =~= render_pass_release(self.render_pass));
        self.render_pass = None;
        list
    }

    /// Lets go of the probe volume, which others own.
    pub fn leave_probes(&mut self)
        ensures
            *final(self) == (SceneResources { gi_set: 0, gi_layout: 0, ..*old(self) }),
    {
        self.gi_set = 0;
        self.gi_layout = 0;
    }
}

/// The occlusion that a frame reads is written into the frame's own set, with the sampler
/// of set 4, and only where it is another view than the one bound, and there is one.
pub proof fn occlusion_goes_to_its_own_frame(res: SceneResources, frame_index: u32, view: u64)
    requires
        res.ao_sets@.len() > 0,
    ensures
        ({
            let slot = frame_index as int % res.ao_sets@.len() as int;
            match res.ao_rewrite(frame_index, view) {
                Some(w) => {
                    &&& view != 0 && view != res.ao_views@[slot]
                    &&& w.set == res.ao_sets@[slot]
                    &&& w.source == (DescriptorSource::SampledImage {
                        view,
                        sampler: res.ao_sampler,
                        layout: ImageLayout::ShaderReadOnly,
                    })
                },
                None => view == 0 || view == res.ao_views@[slot],
            }
        }),
{
}

/// Each layout stands at the index at which its set is bound: the frame, the textures, the
/// environment, the shadow, the occlusion and the probes.
pub proof fn layouts_stand_at_the_index_of_their_set(
    res: SceneResources,
    frame: u64,
    shadow: u64,
    ao: u64,
)
    ensures
        ({
            let layouts = res.layouts_in_order(frame, shadow, ao);
            &&& layouts.len() == 6
            &&& layouts[0] == frame && layouts[3] == shadow && layouts[4] == ao
            &&& layouts[1] == res.bindless_layout
            &&& layouts[2] == res.ibl_layout
            &&& layouts[5] == res.gi_layout
        }),
{
}

} // verus!
