//! The forward pass as a whole: what it owns, what it is wired to, and what it gives up.

use vstd::prelude::*;

use crate::descriptor::{
    lemma_lights_len, light_is_in_its_place, lights_words, pack_lights, DescriptorWrite, GpuLight,
    LIGHT_MAX, LIGHT_WORDS,
};
use crate::forward_pass::outputs::SceneOutput;
use crate::forward_pass::resources::{
    handle_release, layout_release, pool_release, render_pass_release, SceneResources,
};
use crate::forward_pass::setup::{
    fits, given_up, in_step, wired, ResourceSetup, SceneInputs, SetupOutcome, SetupStep,
};
use crate::forward_pass::targets::{
    every_slot_is_given_up, framebuffer_releases, image_releases, prepared, slot_at, SceneTargets,
    TargetStep,
};
use crate::gpu::{AttachmentFormat, Extent2D, Release};

verus! {

/// The pipeline of the scene, and its layout.
#[derive(Clone, Copy, Debug, PartialEq, Eq, Structural)]
pub struct ScenePipeline {
    pub pipeline: u64,
    pub layout: u64,
}

/// The forward pass.
pub struct ForwardPass {
    pub targets: SceneTargets,
    pub resources: SceneResources,
    /// Number of swapchain images.
    pub image_count: usize,
    pub pipeline: Option<ScenePipeline>,
    /// The orientation gizmo is there.
    pub gizmo: bool,
    /// The creation of the render pass has been asked for, and nothing was torn down since.
    pub live: bool,
}

/// Something to destroy with the pass.
#[derive(Clone, Copy, Debug, PartialEq, Eq, Structural)]
pub enum PassRelease {
    Object(Release),
    /// What the sky owns.
    Skybox,
    /// What the gizmo owns.
    Gizmo,
}

/// What the light buffer is filled with.
pub struct LightWrite {
    pub memory: u64,
    pub words: Vec<u32>,
}

/// Objects as things to destroy.
pub open spec fn objects(list: Seq<Release>) -> Seq<PassRelease> {
    list.map_values(|r: Release| PassRelease::Object(r))
}

/// What a pipeline owns.
pub open spec fn pipeline_release(p: Option<ScenePipeline>) -> Seq<Release> {
    match p {
        Some(s) => seq![Release::Pipeline(s.pipeline), Release::PipelineLayout(s.layout)],
        None => Seq::empty(),
    }
}

/// What the gizmo owns.
pub open spec fn gizmo_release(there: bool) -> Seq<PassRelease> {
    if there {
        seq![PassRelease::Gizmo]
    } else {
        Seq::empty()
    }
}

fn push_objects(list: &mut Vec<PassRelease>, from: &Vec<Release>)
    ensures
        final(list)@ == old(list)@ + objects(from@),
{
    let ghost before = list@;
    let mut i: usize = 0;
    assert(list@ =~= before + objects(from@).take(0));
    while i < from.len()
        invariant
            i <= from.len(),
            list@ == before + objects(from@).take(i as int),
        decreases from.len() - i,
    {
        list.push(PassRelease::Object(from[i]));
        i = i + 1;
        assert(list@ =~= before + objects(from@).take(i as int));
    }
    assert(objects(from@).take(i as int) =~= objects(from@));
}

impl ForwardPass {
    /// The pipeline as objects to destroy.
    fn take_pipeline(&mut self) -> (r: Vec<Release>)
        ensures
            r@ == pipeline_release(old(self).pipeline),
            *final(self) == (ForwardPass { pipeline: None, ..*old(self) }),
    {
        let mut list: Vec<Release> = Vec::new();
        if let Some(p) = self.pipeline {
            list.push(Release::Pipeline(p.pipeline));
            list.push(Release::PipelineLayout(p.layout));
        }
        assert(list@ =~= pipeline_release(self.pipeline));
        self.pipeline = None;
        list
    }

    /// A pass that owns nothing and is wired to nothing.
    pub fn new() -> (r: Self)
        ensures
            r.targets.wf(),
            r.targets.is_empty(),
            r.targets.size() == (Extent2D { width: 0, height: 0 }),
            r.resources.unwired(),
            r.resources.owned() == Seq::<Release>::empty(),
            r.image_count == 0,
            r.pipeline is None,
            !r.gizmo,
            !r.live,
    {
        ForwardPass {
            targets: SceneTargets::new(),
            resources: SceneResources::new(),
            image_count: 0,
            pipeline: None,
            gizmo: false,
            live: false,
        }
    }

    /// Tells the pass how many images the swapchain has.
    pub fn set_image_count(&mut self, image_count: usize)
        ensures
            *final(self) == (ForwardPass { image_count, ..*old(self) }),
    {
        self.image_count = image_count;
    }

    /// Changes the environment, as on a change of scene. The sky is drawn with the same
    /// set.
    pub fn set_ibl(&mut self, descriptor_set: u64, brdf_handle: u32)
        ensures
            *final(self) == (ForwardPass {
                resources: SceneResources {
                    ibl_set: descriptor_set,
                    brdf_handle,
                    ..old(self).resources
                },
                ..*old(self)
            }),
    {
        self.resources.set_ibl(descriptor_set, brdf_handle);
    }

    /// Wires the pass to what it draws with, one step at a time.
    pub fn set_resources(
        &mut self,
        setup: &mut ResourceSetup,
        inputs: &SceneInputs,
        outcome: SetupOutcome,
    ) -> (step: SetupStep)
        requires
            fits(*old(setup), *inputs, outcome),
            inputs.ubos.len() * 2 <= u32::MAX,
            in_step(*old(setup), *inputs),
        ensures
            in_step(*final(setup), *inputs),
            given_up(old(setup).phase, old(self).resources) ==> given_up(
                final(setup).phase,
                final(self).resources,
            ),
            wired(
                old(self).resources,
                *old(setup),
                *inputs,
                outcome,
                final(self).resources,
                *final(setup),
                step,
            ),
            *final(self) == (ForwardPass { resources: final(self).resources, ..*old(self) }),
    {
        self.resources.set_resources(setup, inputs, outcome)
    }

    /// Prepares the slot of `image_index`, for the number of images that the pass was
    /// told.
    pub fn ensure_target(&mut self, image_index: u32, extent: Extent2D) -> (r: TargetStep)
        requires
            old(self).targets.wf(),
        ensures
            final(self).targets.wf(),
            prepared(
                old(self).targets,
                old(self).image_count,
                image_index,
                extent,
                final(self).targets,
                r,
            ),
            *final(self) == (ForwardPass { targets: final(self).targets, ..*old(self) }),
    {
        let image_count: usize = self.image_count;
        self.set_target(image_count, image_index, extent)
    }

    /// Prepares the slot of `image_index`. All targets are given up when the swapchain's
    /// size or number of images changed, and none otherwise.
    pub fn set_target(&mut self, image_count: usize, image_index: u32, extent: Extent2D) -> (r:
        TargetStep)
        requires
            old(self).targets.wf(),
        ensures
            final(self).targets.wf(),
            prepared(
                old(self).targets,
                image_count,
                image_index,
                extent,
                final(self).targets,
                r,
            ),
            *final(self) == (ForwardPass { targets: final(self).targets, ..*old(self) }),
    {
        self.targets.set_target(image_count, image_index, extent)
    }

    /// Points the frame's ambient occlusion set at `view`, which is what the frame
    /// before left.
    pub fn set_ao(&mut self, frame_index: u32, view: u64) -> (r: Option<DescriptorWrite>)
        requires
            old(self).resources.ao_sets.len() > 0,
            old(self).resources.ao_views.len() == old(self).resources.ao_sets.len(),
        ensures
            r == old(self).resources.ao_rewrite(frame_index, view),
            final(self).resources.ao_views@ == old(self).resources.ao_views@.update(
                old(self).resources.ao_slot(frame_index),
                view,
            ),
            *final(self) == (ForwardPass {
                resources: SceneResources {
                    ao_views: final(self).resources.ao_views,
                    ..old(self).resources
                },
                ..*old(self)
            }),
    {
        self.resources.set_ao(frame_index, view)
    }

    /// The format of the color images.
    pub fn color_format(&self) -> (r: AttachmentFormat)
        ensures
            r == AttachmentFormat::Rgba16Float,
    {
        AttachmentFormat::Rgba16Float
    }

    /// The format of the normal images.
    pub fn normal_format(&self) -> (r: AttachmentFormat)
        ensures
            r == AttachmentFormat::Rgba16Float,
    {
        AttachmentFormat::Rgba16Float
    }

    /// Gives up the targets of all swapchain images. Render pass and pipeline stay.
    pub fn drop_target(&mut self) -> (r: Vec<Release>)
        requires
            old(self).targets.wf(),
        ensures
            r@ == old(self).targets.owned(),
            final(self).targets.wf(),
            final(self).targets.is_empty(),
            final(self).targets.size() == (Extent2D { width: 0, height: 0 }),
            *final(self) == (ForwardPass { targets: final(self).targets, ..*old(self) }),
    {
        self.targets.drop_target()
    }

    /// Everything that the pass owns, in the order in which it is given up.
    pub open spec fn owned(&self) -> Seq<PassRelease> {
        objects(self.targets.owned()) + objects(render_pass_release(self.resources.render_pass))
            + objects(pipeline_release(self.pipeline)) + objects(self.resources.owned_frame())
            + objects(self.resources.owned_shadow()) + objects(self.resources.owned_lights())
            + seq![PassRelease::Skybox] + gizmo_release(self.gizmo) + objects(
            self.resources.owned_ao(),
        )
    }

    /// Tears the pass down, once the device is idle. The probe volume is borrowed, and
    /// stays.
    pub fn destroy(&mut self) -> (r: Vec<PassRelease>)
        requires
            old(self).targets.wf(),
        ensures
            r@ == old(self).owned(),
            final(self).targets.wf(),
            final(self).targets.is_empty(),
            final(self).targets.size() == (Extent2D { width: 0, height: 0 }),
            final(self).resources.owned() == Seq::<Release>::empty(),
            final(self).resources.frame_sets@.len() == 0,
            final(self).resources.ao_sets@.len() == 0,
            final(self).resources.ao_views@.len() == 0,
            final(self).resources.shadow_set == 0,
            final(self).resources.gi_set == 0,
            final(self).resources.gi_layout == 0,
            final(self).resources.bindless_set == old(self).resources.bindless_set,
            final(self).resources.bindless_layout == old(self).resources.bindless_layout,
            final(self).resources.ibl_set == old(self).resources.ibl_set,
            final(self).resources.ibl_layout == old(self).resources.ibl_layout,
            final(self).resources.brdf_handle == old(self).resources.brdf_handle,
            final(self).pipeline is None,
            !final(self).gizmo,
            !final(self).live,
            final(self).image_count == old(self).image_count,
    {
        let mut list: Vec<PassRelease> = Vec::new();
        let targets = self.targets.drop_target();
        push_objects(&mut list, &targets);
        let render_pass = self.resources.take_render_pass();
        push_objects(&mut list, &render_pass);
        let pipeline = self.take_pipeline();
        push_objects(&mut list, &pipeline);
        let frame = self.resources.take_frame();
        push_objects(&mut list, &frame);
        let shadow = self.resources.take_shadow();
        push_objects(&mut list, &shadow);
        let lights = self.resources.take_lights();
        push_objects(&mut list, &lights);
        list.push(PassRelease::Skybox);
        if self.gizmo {
            list.push(PassRelease::Gizmo);
        }
        let ao = self.resources.take_ao();
        push_objects(&mut list, &ao);
        assert(list@ =~= old(self).owned());
        self.resources.leave_probes();
        self.gizmo = false;
        self.live = false;
        assert(self.resources.owned() =~= Seq::<Release>::empty());
        list
    }

    /// What is given up when the pass goes away without having been torn down: the
    /// framebuffers with their depth images, and what was created for the scene. The
    /// color and normal images and set 4 are left to `destroy`.
    pub open spec fn left_over(&self) -> Seq<PassRelease> {
        if self.live {
            objects(framebuffer_releases(self.targets.framebuffers())) + objects(
                image_releases(self.targets.depths()),
            ) + objects(render_pass_release(self.resources.render_pass)) + objects(
                pipeline_release(self.pipeline),
            ) + objects(self.resources.owned_frame()) + objects(self.resources.owned_shadow())
                + objects(self.resources.owned_lights()) + seq![PassRelease::Skybox]
                + gizmo_release(self.gizmo)
        } else {
            Seq::empty()
        }
    }

    /// What is given up when the pass goes away. After it was torn down there is nothing.
    pub fn release(&mut self) -> (r: Vec<PassRelease>)
        requires
            old(self).targets.wf(),
        ensures
            r@ == old(self).left_over(),
            !final(self).live,
            !old(self).live ==> *final(self) == *old(self),
            old(self).live ==> {
                &&& final(self).targets.framebuffers().len() == 0
                &&& final(self).targets.depths().len() == 0
                &&& final(self).resources.render_pass is None
                &&& final(self).pipeline is None
                &&& final(self).resources.owned_frame() == Seq::<Release>::empty()
                &&& final(self).resources.owned_shadow() == Seq::<Release>::empty()
                &&& final(self).resources.owned_lights() == Seq::<Release>::empty()
                &&& !final(self).gizmo
            },
            final(self).targets.colors() == old(self).targets.colors(),
            final(self).targets.normals() == old(self).targets.normals(),
            final(self).resources.owned_ao() == old(self).resources.owned_ao(),
            final(self).image_count == old(self).image_count,
    {
        let mut list: Vec<PassRelease> = Vec::new();
        if !self.live {
            return list;
        }
        let framebuffers = self.targets.take_framebuffers();
        push_objects(&mut list, &framebuffers);
        let depths = self.targets.take_depths();
        push_objects(&mut list, &depths);
        let render_pass = self.resources.take_render_pass();
        push_objects(&mut list, &render_pass);
        let pipeline = self.take_pipeline();
        push_objects(&mut list, &pipeline);
        let frame = self.resources.take_frame();
        push_objects(&mut list, &frame);
        let shadow = self.resources.take_shadow();
        push_objects(&mut list, &shadow);
        let lights = self.resources.take_lights();
        push_objects(&mut list, &lights);
        list.push(PassRelease::Skybox);
        if self.gizmo {
            list.push(PassRelease::Gizmo);
        }
        assert(list@ =~= old(self).left_over());
        self.gizmo = false;
        self.live = false;
        assert(self.resources.owned_frame() =~= Seq::<Release>::empty());
        assert(self.resources.owned_shadow() =~= Seq::<Release>::empty());
        assert(self.resources.owned_lights() =~= Seq::<Release>::empty());
        list
    }

    /// What the light buffer is filled with for a frame; nothing where there is no
    /// buffer yet.
    pub fn update_lights(&self, lights: &Vec<GpuLight>) -> (r: Option<LightWrite>)
        requires
            lights.len() <= LIGHT_MAX,
        ensures
            match r {
                Some(w) => {
                    &&& self.resources.light_memory != 0
                    &&& w.memory == self.resources.light_memory
                    &&& w.words@ == light_buffer_words(lights@)
                },
                None => self.resources.light_memory == 0,
            },
    {
        if self.resources.light_memory == 0 {
            return None;
        }
        Some(LightWrite { memory: self.resources.light_memory, words: pack_lights(lights) })
    }

    /// The view of the color image of a slot.
    pub fn color_view(&self, image_index: u32) -> (r: Option<u64>)
        ensures
            r == (match slot_at(self.targets.colors(), image_index) {
                Some(i) => Some(i.view),
                None => None,
            }),
    {
        match self.targets.color(image_index) {
            Some(i) => Some(i.view),
            None => None,
        }
    }

    /// The color image of a slot.
    pub fn color_image(&self, image_index: u32) -> (r: Option<u64>)
        ensures
            r == (match slot_at(self.targets.colors(), image_index) {
                Some(i) => Some(i.image),
                None => None,
            }),
    {
        match self.targets.color(image_index) {
            Some(i) => Some(i.image),
            None => None,
        }
    }

    /// The view of the depth image of a slot.
    pub fn depth_view(&self, image_index: u32) -> (r: Option<u64>)
        ensures
            r == (match slot_at(self.targets.depths(), image_index) {
                Some(i) => Some(i.view),
                None => None,
            }),
    {
        match self.targets.depth(image_index) {
            Some(i) => Some(i.view),
            None => None,
        }
    }

    /// The depth image of a slot.
    pub fn depth_image(&self, image_index: u32) -> (r: Option<u64>)
        ensures
            r == (match slot_at(self.targets.depths(), image_index) {
                Some(i) => Some(i.image),
                None => None,
            }),
    {
        match self.targets.depth(image_index) {
            Some(i) => Some(i.image),
            None => None,
        }
    }

    /// The view of the normal image of a slot.
    pub fn normal_view(&self, image_index: u32) -> (r: Option<u64>)
        ensures
            r == (match slot_at(self.targets.normals(), image_index) {
                Some(i) => Some(i.view),
                None => None,
            }),
    {
        match self.targets.normal(image_index) {
            Some(i) => Some(i.view),
            None => None,
        }
    }

    /// The normal image of a slot.
    pub fn normal_image(&self, image_index: u32) -> (r: Option<u64>)
        ensures
            r == (match slot_at(self.targets.normals(), image_index) {
                Some(i) => Some(i.image),
                None => None,
            }),
    {
        match self.targets.normal(image_index) {
            Some(i) => Some(i.image),
            None => None,
        }
    }

    /// The size at which the scene is drawn.
    pub fn extent(&self) -> (r: Extent2D)
        ensures
            r == self.targets.size(),
    {
        self.targets.extent()
    }

    /// Number of swapchain images.
    pub fn image_count(&self) -> (r: usize)
        ensures
            r == self.image_count,
    {
        self.image_count
    }

    /// The outputs, in the order in which they are shown.
    pub fn out_handles(&self) -> (r: [SceneOutput; 3])
        ensures
            r@ == seq![SceneOutput::Color, SceneOutput::Normal, SceneOutput::Depth],
    {
        let list: [SceneOutput; 3] = [SceneOutput::Color, SceneOutput::Normal, SceneOutput::Depth];
        assert(list@ =~= seq![list@[0], list@[1], list@[2]]);
        list
    }

    /// The outputs, in the order in which they are declared to the render graph. The pass
    /// declares no inputs: what it reads is bound to it directly.
    pub fn graph_info(&self) -> (r: [SceneOutput; 3])
        ensures
            r@ == seq![SceneOutput::Depth, SceneOutput::Normal, SceneOutput::Color],
    {
        let list: [SceneOutput; 3] = [SceneOutput::Depth, SceneOutput::Normal, SceneOutput::Color];
        assert(list@ =~= seq![list@[0], list@[1], list@[2]]);
        list
    }
}

/// The words of the light buffer: the lights in order, and zeros behind them.
pub open spec fn light_buffer_words(lights: Seq<GpuLight>) -> Seq<u32> {
    lights_words(lights, lights.len()) + Seq::new(
        ((LIGHT_MAX - lights.len()) * LIGHT_WORDS) as nat,
        |i: int| 0u32,
    )
}

/// A pass that was torn down owns nothing more, whichever way it goes away.
pub proof fn torn_down_pass_leaves_nothing(pass: ForwardPass)
    requires
        !pass.live,
    ensures
        pass.left_over() == Seq::<PassRelease>::empty(),
{
}

/// The light buffer is always as long as it was made; each light stands in its place, and
/// what no light takes is zero.
pub proof fn light_buffer_holds_its_lights(lights: Seq<GpuLight>, i: int, c: int)
    requires
        lights.len() <= LIGHT_MAX,
        0 <= i < LIGHT_MAX,
        0 <= c < 4,
    ensures
        light_buffer_words(lights).len() == LIGHT_MAX * 8,
        i < lights.len() ==> {
            &&& light_buffer_words(lights)[8 * i + c] == lights[i].position@[c]
            &&& light_buffer_words(lights)[8 * i + 4 + c] == lights[i].color@[c]
        },
        i >= lights.len() ==> {
            &&& light_buffer_words(lights)[8 * i + c] == 0
            &&& light_buffer_words(lights)[8 * i + 4 + c] == 0
        },
{
    lemma_lights_len(lights, lights.len());
    if i < lights.len() {
        light_is_in_its_place(lights, lights.len(), i, c);
    }
}

proof fn lemma_objects_contain(list: Seq<Release>, x: Release)
    requires
        list.contains(x),
    ensures
        objects(list).contains(PassRelease::Object(x)),
{
    let k = choose|k: int| 0 <= k < list.len() && list[k] == x;
    assert(objects(list)[k] == PassRelease::Object(x));
}

/// A pass that is torn down gives up everything that it owns: the framebuffer and the
/// images of each slot, the render pass, the pipeline with its layout, the layouts and
/// pools of its sets, the light buffer with its memory, the occlusion's sampler, the sky,
/// and the gizmo where there is one.
pub proof fn torn_down_pass_gives_up_everything(pass: ForwardPass, i: int)
    ensures
        ({
            let all = pass.owned();
            let res = pass.resources;
            let t = pass.targets;
            &&& all.contains(PassRelease::Skybox)
            &&& pass.gizmo ==> all.contains(PassRelease::Gizmo)
            &&& 0 <= i < t.framebuffers().len() ==> (t.framebuffers()[i] matches Some(f)
                ==> all.contains(PassRelease::Object(Release::Framebuffer(f))))
            &&& 0 <= i < t.colors().len() ==> (t.colors()[i] matches Some(c) ==> all.contains(
                PassRelease::Object(Release::Image(c)),
            ))
            &&& 0 <= i < t.depths().len() ==> (t.depths()[i] matches Some(d) ==> all.contains(
                PassRelease::Object(Release::Image(d)),
            ))
            &&& 0 <= i < t.normals().len() ==> (t.normals()[i] matches Some(n) ==> all.contains(
                PassRelease::Object(Release::Image(n)),
            ))
            &&& res.render_pass matches Some(h) ==> all.contains(
                PassRelease::Object(Release::RenderPass(h)),
            )
            &&& pass.pipeline matches Some(p) ==> all.contains(
                PassRelease::Object(Release::Pipeline(p.pipeline)),
            ) && all.contains(PassRelease::Object(Release::PipelineLayout(p.layout)))
            &&& res.frame_layout matches Some(h) ==> all.contains(
                PassRelease::Object(Release::SetLayout(h)),
            )
            &&& res.frame_pool matches Some(h) ==> all.contains(
                PassRelease::Object(Release::Pool(h)),
            )
            &&& res.shadow_layout matches Some(h) ==> all.contains(
                PassRelease::Object(Release::SetLayout(h)),
            )
            &&& res.shadow_pool matches Some(h) ==> all.contains(
                PassRelease::Object(Release::Pool(h)),
            )
            &&& res.ao_layout matches Some(h) ==> all.contains(
                PassRelease::Object(Release::SetLayout(h)),
            )
            &&& res.ao_pool matches Some(h) ==> all.contains(PassRelease::Object(Release::Pool(h)))
            &&& res.ao_sampler != 0 ==> all.contains(
                PassRelease::Object(Release::Sampler(res.ao_sampler)),
            )
            &&& res.light_buffer != 0 ==> all.contains(
                PassRelease::Object(Release::Buffer(res.light_buffer)),
            )
            &&& res.light_memory != 0 ==> all.contains(
                PassRelease::Object(Release::Memory(res.light_memory)),
            )
        }),
{
    broadcast use vstd::seq_lib::lemma_seq_concat_contains_all_elements;

    let res = pass.resources;
    let t = pass.targets;
    assert(seq![PassRelease::Skybox][0] == PassRelease::Skybox);
    if pass.gizmo {
        assert(gizmo_release(true)[0] == PassRelease::Gizmo);
    }
    every_slot_is_given_up(t.framebuffers(), t.colors(), i);
    every_slot_is_given_up(t.framebuffers(), t.depths(), i);
    every_slot_is_given_up(t.framebuffers(), t.normals(), i);
    if 0 <= i < t.framebuffers().len() && t.framebuffers()[i] is Some {
        lemma_objects_contain(t.owned(), Release::Framebuffer(t.framebuffers()[i]->Some_0));
    }
    if 0 <= i < t.colors().len() && t.colors()[i] is Some {
        lemma_objects_contain(t.owned(), Release::Image(t.colors()[i]->Some_0));
    }
    if 0 <= i < t.depths().len() && t.depths()[i] is Some {
        lemma_objects_contain(t.owned(), Release::Image(t.depths()[i]->Some_0));
    }
    if 0 <= i < t.normals().len() && t.normals()[i] is Some {
        lemma_objects_contain(t.owned(), Release::Image(t.normals()[i]->Some_0));
    }
    if let Some(h) = res.render_pass {
        assert(render_pass_release(res.render_pass)[0] == Release::RenderPass(h));
        lemma_objects_contain(render_pass_release(res.render_pass), Release::RenderPass(h));
    }
    if let Some(p) = pass.pipeline {
        let list = pipeline_release(pass.pipeline);
        assert(list[0] == Release::Pipeline(p.pipeline));
        assert(list[1] == Release::PipelineLayout(p.layout));
        lemma_objects_contain(list, Release::Pipeline(p.pipeline));
        lemma_objects_contain(list, Release::PipelineLayout(p.layout));
    }
    if let Some(h) = res.frame_layout {
        assert(layout_release(res.frame_layout)[0] == Release::SetLayout(h));
        lemma_objects_contain(res.owned_frame(), Release::SetLayout(h));
    }
    if let Some(h) = res.frame_pool {
        assert(pool_release(res.frame_pool)[0] == Release::Pool(h));
        lemma_objects_contain(res.owned_frame(), Release::Pool(h));
    }
    if let Some(h) = res.shadow_layout {
        assert(layout_release(res.shadow_layout)[0] == Release::SetLayout(h));
        lemma_objects_contain(res.owned_shadow(), Release::SetLayout(h));
    }
    if let Some(h) = res.shadow_pool {
        assert(pool_release(res.shadow_pool)[0] == Release::Pool(h));
        lemma_objects_contain(res.owned_shadow(), Release::Pool(h));
    }
    if let Some(h) = res.ao_layout {
        assert(layout_release(res.ao_layout)[0] == Release::SetLayout(h));
        lemma_objects_contain(res.owned_ao(), Release::SetLayout(h));
    }
    if let Some(h) = res.ao_pool {
        assert(pool_release(res.ao_pool)[0] == Release::Pool(h));
        lemma_objects_contain(res.owned_ao(), Release::Pool(h));
    }
    if res.ao_sampler != 0 {
        let x = Release::Sampler(res.ao_sampler);
        assert(handle_release(res.ao_sampler, x)[0] == x);
        lemma_objects_contain(res.owned_ao(), x);
    }
    if res.light_buffer != 0 {
        let x = Release::Buffer(res.light_buffer);
        assert(handle_release(res.light_buffer, x)[0] == x);
        lemma_objects_contain(res.owned_lights(), x);
    }
    if res.light_memory != 0 {
        let x = Release::Memory(res.light_memory);
        assert(handle_release(res.light_memory, x)[0] == x);
        lemma_objects_contain(res.owned_lights(), x);
    }
}

/// A pass that goes away without having been torn down leaves its color and normal images
/// and what set 4 owns, and gives up all the rest.
pub proof fn rest_is_given_up_without_teardown(pass: ForwardPass)
    requires
        pass.live,
    ensures
        pass.left_over().to_multiset().add(
            objects(image_releases(pass.targets.colors())).to_multiset(),
        ).add(objects(image_releases(pass.targets.normals())).to_multiset()).add(
            objects(pass.resources.owned_ao()).to_multiset(),
        ) == pass.owned().to_multiset(),
{
    broadcast use vstd::seq_lib::lemma_multiset_commutative;

    let t = pass.targets;
    let (f, c, d, n) = (
        framebuffer_releases(t.framebuffers()),
        image_releases(t.colors()),
        image_releases(t.depths()),
        image_releases(t.normals()),
    );
    assert(objects(t.owned()) =~= objects(f) + objects(c) + objects(d) + objects(n));
    let left = pass.left_over().to_multiset().add(objects(c).to_multiset()).add(
        objects(n).to_multiset(),
    ).add(objects(pass.resources.owned_ao()).to_multiset());
    assert(left =~= pass.owned().to_multiset());
}

} // verus!
