//! Wiring the forward pass: its own descriptor sets and its light buffer are made step by
//! step, and what it owned before is given up on the way.
//!
//! The caller carries out each step and says how it went. An object that was created is
//! given by its handle, which is not null.

use vstd::prelude::*;

use crate::bindless::{linear_clamp, SamplerInfo, SamplerType};
use crate::buffer::{BufferSpec, HOST_MEMORY, USAGE_STORAGE_BUFFER};
use crate::descriptor::{
    allocation_layouts, BufferRange, DescriptorLayout, DescriptorPool, DescriptorSource,
    DescriptorWrite, LIGHT_MAX, LIGHT_WORDS,
};
use crate::forward_pass::resources::{
    handle_release, layout_release, pool_release, render_pass_release, BorrowedSets,
    SceneResources,
};
use crate::forward_pass::sets::{
    all_frame_writes, ao_bindings, ao_layout, ao_pool, ao_pool_sizes, frame_bindings,
    frame_layout, frame_pool, frame_pool_sizes, frame_set_reads_its_own_buffers,
    plan_frame_writes, plan_shadow_writes,
    shadow_bindings, shadow_layout, shadow_pool, shadow_pool_sizes, shadow_writes,
};
use crate::gpu::{ImageLayout, Release};

verus! {

/// Bytes of the light buffer.
pub const LIGHT_BUFFER_SIZE: u64 = 256;

/// What the pass is wired to.
pub struct SceneInputs {
    pub borrowed: BorrowedSets,
    pub shadow_view: u64,
    pub shadow_sampler: u64,
    pub materials: u64,
    /// The uniform buffer of each frame in flight.
    pub ubos: Vec<u64>,
}

/// What the last step asked for.
#[derive(Clone, Copy, Debug, PartialEq, Eq, Structural)]
pub enum SetupPhase {
    /// Nothing yet.
    Begin,
    FrameLayout,
    FramePool,
    FrameSets,
    LightBuffer,
    LightsCleared,
    FrameWritten,
    ShadowLayout,
    ShadowPool,
    ShadowSet,
    ShadowWritten,
    AoLayout,
    AoSampler,
    AoPool,
    AoSets,
    Finished,
    Failed,
}

/// The wiring so far. Objects that were created and are not in place yet are kept here;
/// where there is none, the handle is null.
pub struct ResourceSetup {
    pub phase: SetupPhase,
    pub layout: u64,
    pub pool: u64,
    pub sampler: u64,
    pub light_buffer: u64,
    pub light_memory: u64,
    pub sets: Vec<u64>,
}

/// How a step went.
pub enum SetupOutcome {
    Done,
    /// An object was created.
    Object(u64),
    /// Sets were allocated, one for each layout.
    Sets(Vec<u64>),
    /// A buffer was created, and memory bound to it.
    Buffer { buffer: u64, memory: u64 },
    Failed,
}

/// The host-visible buffer that the lights are read from.
pub open spec fn light_buffer() -> BufferSpec {
    BufferSpec { size: LIGHT_BUFFER_SIZE, usage: USAGE_STORAGE_BUFFER, memory: HOST_MEMORY }
}

/// What is done next.
pub enum SetupStep {
    CreateLayout(DescriptorLayout),
    /// Destroy what is given, then create the pool.
    CreatePool { release: Vec<Release>, pool: DescriptorPool },
    AllocateSets { pool: u64, layouts: Vec<u64> },
    /// Create the buffer that the lights are read from.
    CreateLightBuffer(BufferSpec),
    /// Fill memory with zeros.
    ClearMemory { memory: u64, size: u64 },
    /// Destroy what is given, then write the descriptors.
    WriteSets { release: Vec<Release>, writes: Vec<DescriptorWrite> },
    /// Destroy what is given, then create the sampler.
    CreateSampler { release: Vec<Release>, sampler: SamplerInfo },
    /// Nothing: the pass is wired.
    Finished,
    /// Nothing: a step failed.
    Failed,
}

/// The outcome is one that the phase can have.
pub open spec fn fits(setup: ResourceSetup, inputs: SceneInputs, outcome: SetupOutcome) -> bool {
    match outcome {
        SetupOutcome::Failed => true,
        SetupOutcome::Object(h) => h != 0 && match setup.phase {
            SetupPhase::FrameLayout => true,
            SetupPhase::FramePool => true,
            SetupPhase::ShadowLayout => true,
            SetupPhase::ShadowPool => true,
            SetupPhase::AoLayout => true,
            SetupPhase::AoSampler => true,
            SetupPhase::AoPool => true,
            _ => false,
        },
        SetupOutcome::Sets(sets) => match setup.phase {
            SetupPhase::FrameSets => sets@.len() == inputs.ubos@.len(),
            SetupPhase::ShadowSet => sets@.len() == 1,
            SetupPhase::AoSets => sets@.len() == inputs.ubos@.len(),
            _ => false,
        },
        SetupOutcome::Buffer { buffer, memory } => buffer != 0 && memory != 0 && setup.phase
            == SetupPhase::LightBuffer,
        SetupOutcome::Done => match setup.phase {
            SetupPhase::Begin => true,
            SetupPhase::LightsCleared => true,
            SetupPhase::FrameWritten => true,
            SetupPhase::ShadowWritten => true,
            SetupPhase::Finished => true,
            SetupPhase::Failed => true,
            _ => false,
        },
    }
}

/// What is kept fits the phase: an object that has been created and is not in place is
/// there, and no other is.
pub open spec fn in_step(setup: ResourceSetup, inputs: SceneInputs) -> bool {
    let kept = match setup.phase {
        SetupPhase::FramePool => (true, false, false, false),
        SetupPhase::FrameSets => (true, true, false, false),
        SetupPhase::LightBuffer => (true, true, false, false),
        SetupPhase::LightsCleared => (true, true, false, true),
        SetupPhase::FrameWritten => (true, true, false, false),
        SetupPhase::ShadowPool => (true, false, false, false),
        SetupPhase::ShadowSet => (true, true, false, false),
        SetupPhase::ShadowWritten => (true, true, false, false),
        SetupPhase::AoSampler => (true, false, false, false),
        SetupPhase::AoPool => (true, false, true, false),
        SetupPhase::AoSets => (true, true, true, false),
        _ => (false, false, false, false),
    };
    setup.phase == SetupPhase::Failed || {
        &&& (setup.layout != 0) == kept.0
        &&& (setup.pool != 0) == kept.1
        &&& (setup.sampler != 0) == kept.2
        &&& (setup.light_buffer != 0) == kept.3
        &&& (setup.light_memory != 0) == kept.3
        &&& match setup.phase {
            SetupPhase::LightBuffer => setup.sets@.len() == inputs.ubos@.len(),
            SetupPhase::LightsCleared => setup.sets@.len() == inputs.ubos@.len(),
            SetupPhase::FrameWritten => setup.sets@.len() == inputs.ubos@.len(),
            SetupPhase::ShadowWritten => setup.sets@.len() == 1,
            _ => true,
        }
    }
}

/// The place of what is being made is free: it was given up when its layout was created.
pub open spec fn given_up(phase: SetupPhase, res: SceneResources) -> bool {
    match phase {
        SetupPhase::FramePool => res.frame_layout is None && res.frame_pool is None,
        SetupPhase::FrameSets => res.frame_layout is None && res.frame_pool is None,
        SetupPhase::LightBuffer => res.frame_layout is None && res.frame_pool is None,
        SetupPhase::LightsCleared => res.frame_layout is None && res.frame_pool is None,
        SetupPhase::FrameWritten => res.frame_layout is None && res.frame_pool is None,
        SetupPhase::ShadowPool => res.shadow_layout is None && res.shadow_pool is None,
        SetupPhase::ShadowSet => res.shadow_layout is None && res.shadow_pool is None,
        SetupPhase::ShadowWritten => res.shadow_layout is None && res.shadow_pool is None,
        SetupPhase::AoSampler => res.ao_layout is None && res.ao_pool is None,
        SetupPhase::AoPool => res.ao_layout is None && res.ao_pool is None,
        SetupPhase::AoSets => res.ao_layout is None && res.ao_pool is None,
        _ => true,
    }
}

/// So many times the same layout.
pub open spec fn same_layout(layout: u64, count: nat) -> Seq<u64> {
    Seq::new(count, |i: int| layout)
}

/// The step that follows once set 0 has a layout: the set before is given up.
pub open spec fn makes_frame_pool(step: SetupStep, before: SceneResources, frames: u32) -> bool {
    step matches SetupStep::CreatePool { release, pool } && release@ == before.owned_frame()
        && pool.max_sets == frames && pool.sizes@ == frame_pool_sizes(frames)
}

/// The step that follows once set 3 has a layout: the set before is given up.
pub open spec fn makes_shadow_pool(step: SetupStep, before: SceneResources) -> bool {
    step matches SetupStep::CreatePool { release, pool } && release@ == before.owned_shadow()
        && pool.max_sets == 1 && pool.sizes@ == shadow_pool_sizes()
}

/// The step that follows once set 4 has a sampler.
pub open spec fn makes_ao_pool(step: SetupStep, frames: u32) -> bool {
    step matches SetupStep::CreatePool { release, pool } && release@.len() == 0 && pool.max_sets
        == frames && pool.sizes@ == ao_pool_sizes(frames)
}

/// The step allocates so many sets of one layout.
pub open spec fn allocates(step: SetupStep, from: u64, layout: u64, count: nat) -> bool {
    step matches SetupStep::AllocateSets { pool, layouts } && pool == from && layouts@
        == same_layout(layout, count)
}

/// The step writes set 0 of every frame, and gives up the light buffer before.
pub open spec fn writes_frame(
    step: SetupStep,
    before: SceneResources,
    setup: ResourceSetup,
    inputs: SceneInputs,
) -> bool {
    step matches SetupStep::WriteSets { release, writes } && release@ == before.owned_lights()
        && writes@ == all_frame_writes(
        setup.sets@,
        inputs.ubos@,
        inputs.materials,
        setup.light_buffer,
    )
}

/// The step writes set 3.
pub open spec fn writes_shadow(step: SetupStep, set: u64, inputs: SceneInputs) -> bool {
    step matches SetupStep::WriteSets { release, writes } && release@.len() == 0 && writes@
        == shadow_writes(set, inputs.shadow_view, inputs.shadow_sampler)
}

/// The step creates a layout with these bindings.
pub open spec fn makes_layout(
    step: SetupStep,
    bindings: Seq<crate::descriptor::LayoutBinding>,
) -> bool {
    step matches SetupStep::CreateLayout(layout) && layout.bindings@ == bindings
}

/// One step of wiring: set 0 with the lights comes first, then set 3, then set 4. Each
/// object before is given up once the layout that replaces it is there.
pub open spec fn wired(
    before: SceneResources,
    setup: ResourceSetup,
    inputs: SceneInputs,
    outcome: SetupOutcome,
    after: SceneResources,
    setup_after: ResourceSetup,
    step: SetupStep,
) -> bool {
    let frames = inputs.ubos@.len();
    match (setup.phase, outcome) {
        (SetupPhase::Finished, SetupOutcome::Done) => {
            &&& after == before
            &&& setup_after == setup
            &&& step is Finished
        },
        (SetupPhase::Failed, SetupOutcome::Done) => {
            &&& after == before
            &&& setup_after == setup
            &&& step is Failed
        },
        (_, SetupOutcome::Failed) => {
            &&& after == before
            &&& setup_after == (ResourceSetup { phase: SetupPhase::Failed, ..setup })
            &&& step is Failed
        },
        (SetupPhase::Begin, _) => {
            &&& after == (SceneResources {
                bindless_set: inputs.borrowed.bindless_set,
                bindless_layout: inputs.borrowed.bindless_layout,
                ibl_set: inputs.borrowed.ibl_set,
                ibl_layout: inputs.borrowed.ibl_layout,
                gi_set: inputs.borrowed.gi_set,
                gi_layout: inputs.borrowed.gi_layout,
                brdf_handle: inputs.borrowed.brdf_handle,
                ..before
            })
            &&& setup_after == (ResourceSetup { phase: SetupPhase::FrameLayout, ..setup })
            &&& makes_layout(step, frame_bindings())
        },
        (SetupPhase::FrameLayout, SetupOutcome::Object(h)) => {
            &&& after.frame_sets@.len() == 0
            &&& after == (SceneResources {
                frame_layout: None,
                frame_pool: None,
                frame_sets: after.frame_sets,
                ..before
            })
            &&& setup_after == (ResourceSetup {
                phase: SetupPhase::FramePool,
                layout: h,
                ..setup
            })
            &&& makes_frame_pool(step, before, frames as u32)
        },
        (SetupPhase::FramePool, SetupOutcome::Object(h)) => {
            &&& after == before
            &&& setup_after == (ResourceSetup { phase: SetupPhase::FrameSets, pool: h, ..setup })
            &&& allocates(step, h, setup.layout, frames)
        },
        (SetupPhase::FrameSets, SetupOutcome::Sets(sets)) => {
            &&& after == before
            &&& setup_after == (ResourceSetup { phase: SetupPhase::LightBuffer, sets, ..setup })
            &&& step == SetupStep::CreateLightBuffer(light_buffer())
        },
        (SetupPhase::LightBuffer, SetupOutcome::Buffer { buffer, memory }) => {
            &&& after == before
            &&& setup_after == (ResourceSetup {
                phase: SetupPhase::LightsCleared,
                light_buffer: buffer,
                light_memory: memory,
                ..setup
            })
            &&& step matches SetupStep::ClearMemory { memory: cleared, size } && cleared == memory
                && size == LIGHT_BUFFER_SIZE
        },
        (SetupPhase::LightsCleared, _) => {
            &&& after == (SceneResources {
                light_buffer: setup.light_buffer,
                light_memory: setup.light_memory,
                ..before
            })
            &&& setup_after == (ResourceSetup {
                phase: SetupPhase::FrameWritten,
                light_buffer: 0,
                light_memory: 0,
                ..setup
            })
            &&& writes_frame(step, before, setup, inputs)
        },
        (SetupPhase::FrameWritten, _) => {
            &&& after == (SceneResources {
                frame_layout: Some(setup.layout),
                frame_pool: Some(setup.pool),
                frame_sets: setup.sets,
                ..before
            })
            &&& setup_after.sets@.len() == 0
            &&& setup_after == (ResourceSetup {
                phase: SetupPhase::ShadowLayout,
                layout: 0,
                pool: 0,
                sets: setup_after.sets,
                ..setup
            })
            &&& makes_layout(step, shadow_bindings())
        },
        (SetupPhase::ShadowLayout, SetupOutcome::Object(h)) => {
            &&& after == (SceneResources {
                shadow_layout: None,
                shadow_pool: None,
                shadow_set: 0,
                ..before
            })
            &&& setup_after == (ResourceSetup {
                phase: SetupPhase::ShadowPool,
                layout: h,
                ..setup
            })
            &&& makes_shadow_pool(step, before)
        },
        (SetupPhase::ShadowPool, SetupOutcome::Object(h)) => {
            &&& after == before
            &&& setup_after == (ResourceSetup { phase: SetupPhase::ShadowSet, pool: h, ..setup })
            &&& allocates(step, h, setup.layout, 1)
        },
        (SetupPhase::ShadowSet, SetupOutcome::Sets(sets)) => {
            &&& after == before
            &&& setup_after == (ResourceSetup { phase: SetupPhase::ShadowWritten, sets, ..setup })
            &&& writes_shadow(step, sets@[0], inputs)
        },
        (SetupPhase::ShadowWritten, _) => {
            &&& after == (SceneResources {
                shadow_layout: Some(setup.layout),
                shadow_pool: Some(setup.pool),
                shadow_set: setup.sets@[0],
                ..before
            })
            &&& setup_after == (ResourceSetup {
                phase: SetupPhase::AoLayout,
                layout: 0,
                pool: 0,
                ..setup
            })
            &&& makes_layout(step, ao_bindings())
        },
        (SetupPhase::AoLayout, SetupOutcome::Object(h)) => {
            &&& after.ao_sets@.len() == 0
            &&& after.ao_views@.len() == 0
            &&& after == (SceneResources {
                ao_layout: None,
                ao_pool: None,
                ao_sets: after.ao_sets,
                ao_views: after.ao_views,
                ..before
            })
            &&& setup_after == (ResourceSetup {
                phase: SetupPhase::AoSampler,
                layout: h,
                ..setup
            })
            &&& step matches SetupStep::CreateSampler { release, sampler } && release@
                == before.owned_ao() && sampler == linear_clamp()
        },
        (SetupPhase::AoSampler, SetupOutcome::Object(h)) => {
            &&& after == before
            &&& setup_after == (ResourceSetup { phase: SetupPhase::AoPool, sampler: h, ..setup })
            &&& makes_ao_pool(step, frames as u32)
        },
        (SetupPhase::AoPool, SetupOutcome::Object(h)) => {
            &&& after == before
            &&& setup_after == (ResourceSetup { phase: SetupPhase::AoSets, pool: h, ..setup })
            &&& allocates(step, h, setup.layout, frames)
        },
        (SetupPhase::AoSets, SetupOutcome::Sets(sets)) => {
            &&& after.ao_views@ == Seq::new(sets@.len(), |i: int| 0u64)
            &&& after == (SceneResources {
                ao_layout: Some(setup.layout),
                ao_pool: Some(setup.pool),
                ao_sampler: setup.sampler,
                ao_sets: sets,
                ao_views: after.ao_views,
                ..before
            })
            &&& setup_after == (ResourceSetup {
                phase: SetupPhase::Finished,
                layout: 0,
                pool: 0,
                sampler: 0,
                ..setup
            })
            &&& step is Finished
        },
        _ => false,
    }
}

impl ResourceSetup {
    /// The wiring before its first step.
    pub fn new() -> (r: Self)
        ensures
            r.phase == SetupPhase::Begin,
            r.layout == 0,
            r.pool == 0,
            r.sampler == 0,
            r.light_buffer == 0,
            r.light_memory == 0,
            r.sets@.len() == 0,
            forall|inputs: SceneInputs| #[trigger] in_step(r, inputs),
    {
        ResourceSetup {
            phase: SetupPhase::Begin,
            layout: 0,
            pool: 0,
            sampler: 0,
            light_buffer: 0,
            light_memory: 0,
            sets: Vec::new(),
        }
    }
}

impl SceneResources {
    /// Wires the pass, one step at a time.
    pub fn set_resources(
        &mut self,
        setup: &mut ResourceSetup,
        inputs: &SceneInputs,
        outcome: SetupOutcome,
    ) -> (step: SetupStep)
        requires
            fits(*old(setup), *inputs, outcome),
            inputs.ubos.len() * 2 <= u32::MAX,
            in_step(*old(setup), *inputs),
        ensures
            in_step(*final(setup), *inputs),
            given_up(old(setup).phase, *old(self)) ==> given_up(final(setup).phase, *final(self)),
            wired(*old(self), *old(setup), *inputs, outcome, *final(self), *final(setup), step),
    {
        let frames: u32 = inputs.ubos.len() as u32;
        match outcome {
            SetupOutcome::Failed => {
                setup.phase = SetupPhase::Failed;
                SetupStep::Failed
            },
            SetupOutcome::Object(h) => self.object_created(setup, frames, h),
            SetupOutcome::Sets(sets) => self.sets_allocated(setup, inputs, sets),
            SetupOutcome::Buffer { buffer, memory } => {
                setup.light_buffer = buffer;
                setup.light_memory = memory;
                setup.phase = SetupPhase::LightsCleared;
                SetupStep::ClearMemory { memory, size: LIGHT_BUFFER_SIZE }
            },
            SetupOutcome::Done => self.step_done(setup, inputs),
        }
    }

    fn object_created(&mut self, setup: &mut ResourceSetup, frames: u32, h: u64) -> (step: SetupStep)
        requires
            h != 0,
            frames * 2 <= u32::MAX,
            old(setup).phase == SetupPhase::FrameLayout || old(setup).phase
                == SetupPhase::FramePool || old(setup).phase == SetupPhase::ShadowLayout || old(
                setup,
            ).phase == SetupPhase::ShadowPool || old(setup).phase == SetupPhase::AoLayout || old(
                setup,
            ).phase == SetupPhase::AoSampler || old(setup).phase == SetupPhase::AoPool,
        ensures
            forall|inputs: SceneInputs| #[trigger]
                inputs.ubos@.len() == frames ==> wired(
                    *old(self),
                    *old(setup),
                    inputs,
                    SetupOutcome::Object(h),
                    *final(self),
                    *final(setup),
                    step,
                ),
    {
        match setup.phase {
            SetupPhase::FrameLayout => {
                let release = self.take_frame();
                setup.layout = h;
                setup.phase = SetupPhase::FramePool;
                SetupStep::CreatePool { release, pool: frame_pool(frames) }
            },
            SetupPhase::FramePool => {
                setup.pool = h;
                setup.phase = SetupPhase::FrameSets;
                SetupStep::AllocateSets { pool: h, layouts: allocation_layouts(setup.layout, frames) }
            },
            SetupPhase::ShadowLayout => {
                let release = self.take_shadow();
                setup.layout = h;
                setup.phase = SetupPhase::ShadowPool;
                SetupStep::CreatePool { release, pool: shadow_pool() }
            },
            SetupPhase::ShadowPool => {
                setup.pool = h;
                setup.phase = SetupPhase::ShadowSet;
                SetupStep::AllocateSets { pool: h, layouts: allocation_layouts(setup.layout, 1) }
            },
            SetupPhase::AoLayout => {
                let sampler: u64 = self.ao_sampler;
                let release = self.take_ao();
                self.ao_sampler = sampler;
                setup.layout = h;
                setup.phase = SetupPhase::AoSampler;
                SetupStep::CreateSampler {
                    release,
                    sampler: SamplerType::LinearClamp.create_info(),
                }
            },
            SetupPhase::AoSampler => {
                setup.sampler = h;
                setup.phase = SetupPhase::AoPool;
                SetupStep::CreatePool { release: Vec::new(), pool: ao_pool(frames) }
            },
            _ => {
                setup.pool = h;
                setup.phase = SetupPhase::AoSets;
                SetupStep::AllocateSets { pool: h, layouts: allocation_layouts(setup.layout, frames) }
            },
        }
    }

    fn sets_allocated(
        &mut self,
        setup: &mut ResourceSetup,
        inputs: &SceneInputs,
        sets: Vec<u64>,
    ) -> (step: SetupStep)
        requires
            fits(*old(setup), *inputs, SetupOutcome::Sets(sets)),
        ensures
            wired(
                *old(self),
                *old(setup),
                *inputs,
                SetupOutcome::Sets(sets),
                *final(self),
                *final(setup),
                step,
            ),
    {
        match setup.phase {
            SetupPhase::FrameSets => {
                setup.sets = sets;
                setup.phase = SetupPhase::LightBuffer;
                SetupStep::CreateLightBuffer(
                    BufferSpec {
                        size: LIGHT_BUFFER_SIZE,
                        usage: USAGE_STORAGE_BUFFER,
                        memory: HOST_MEMORY,
                    },
                )
            },
            SetupPhase::ShadowSet => {
                let set: u64 = sets[0];
                setup.sets = sets;
                setup.phase = SetupPhase::ShadowWritten;
                SetupStep::WriteSets {
                    release: Vec::new(),
                    writes: plan_shadow_writes(set, inputs.shadow_view, inputs.shadow_sampler),
                }
            },
            _ => {
                self.put_ao(setup.layout, setup.pool, setup.sampler, sets);
                setup.layout = 0;
                setup.pool = 0;
                setup.sampler = 0;
                setup.phase = SetupPhase::Finished;
                SetupStep::Finished
            },
        }
    }

    fn step_done(&mut self, setup: &mut ResourceSetup, inputs: &SceneInputs) -> (step: SetupStep)
        requires
            fits(*old(setup), *inputs, SetupOutcome::Done),
            in_step(*old(setup), *inputs),
        ensures
            wired(
                *old(self),
                *old(setup),
                *inputs,
                SetupOutcome::Done,
                *final(self),
                *final(setup),
                step,
            ),
    {
        match setup.phase {
            SetupPhase::Begin => {
                self.borrow_sets(inputs.borrowed);
                setup.phase = SetupPhase::FrameLayout;
                SetupStep::CreateLayout(frame_layout())
            },
            SetupPhase::LightsCleared => {
                let release = self.take_lights();
                let writes = plan_frame_writes(
                    &setup.sets,
                    &inputs.ubos,
                    inputs.materials,
                    setup.light_buffer,
                );
                self.put_lights(setup.light_buffer, setup.light_memory);
                setup.light_buffer = 0;
                setup.light_memory = 0;
                setup.phase = SetupPhase::FrameWritten;
                SetupStep::WriteSets { release, writes }
            },
            SetupPhase::FrameWritten => {
                let mut sets: Vec<u64> = Vec::new();
                std::mem::swap(&mut sets, &mut setup.sets);
                self.put_frame(setup.layout, setup.pool, sets);
                setup.layout = 0;
                setup.pool = 0;
                setup.phase = SetupPhase::ShadowLayout;
                SetupStep::CreateLayout(shadow_layout())
            },
            SetupPhase::ShadowWritten => {
                let set: u64 = setup.sets[0];
                self.put_shadow(setup.layout, setup.pool, set);
                setup.layout = 0;
                setup.pool = 0;
                setup.phase = SetupPhase::AoLayout;
                SetupStep::CreateLayout(ao_layout())
            },
            SetupPhase::Finished => SetupStep::Finished,
            _ => SetupStep::Failed,
        }
    }
}

/// The light buffer holds as many lights as there may be.
pub proof fn light_buffer_holds_all_lights()
    ensures
        LIGHT_BUFFER_SIZE == LIGHT_MAX * LIGHT_WORDS * 4,
{
}

// ---------------------------------------------------------------------------
// Nothing is lost
// ---------------------------------------------------------------------------

/// The resources without the handle of a destroyed object: while set 4 is made anew, the
/// sampler before is destroyed, and its handle stays until the new one takes its place.
pub open spec fn living(phase: SetupPhase, res: SceneResources) -> SceneResources {
    if phase == SetupPhase::AoSampler || phase == SetupPhase::AoPool || phase
        == SetupPhase::AoSets {
        SceneResources { ao_sampler: 0, ..res }
    } else {
        res
    }
}

/// The objects that have been created and are not in place yet.
pub open spec fn pending(setup: ResourceSetup) -> Seq<Release> {
    handle_release(setup.layout, Release::SetLayout(setup.layout)) + handle_release(
        setup.pool,
        Release::Pool(setup.pool),
    ) + handle_release(setup.sampler, Release::Sampler(setup.sampler)) + handle_release(
        setup.light_buffer,
        Release::Buffer(setup.light_buffer),
    ) + handle_release(setup.light_memory, Release::Memory(setup.light_memory))
}

/// The objects that a step has created. Descriptor sets go with their pool.
pub open spec fn created(phase: SetupPhase, outcome: SetupOutcome) -> Seq<Release> {
    match (phase, outcome) {
        (SetupPhase::FrameLayout, SetupOutcome::Object(h)) => seq![Release::SetLayout(h)],
        (SetupPhase::ShadowLayout, SetupOutcome::Object(h)) => seq![Release::SetLayout(h)],
        (SetupPhase::AoLayout, SetupOutcome::Object(h)) => seq![Release::SetLayout(h)],
        (SetupPhase::FramePool, SetupOutcome::Object(h)) => seq![Release::Pool(h)],
        (SetupPhase::ShadowPool, SetupOutcome::Object(h)) => seq![Release::Pool(h)],
        (SetupPhase::AoPool, SetupOutcome::Object(h)) => seq![Release::Pool(h)],
        (SetupPhase::AoSampler, SetupOutcome::Object(h)) => seq![Release::Sampler(h)],
        (_, SetupOutcome::Buffer { buffer, memory }) => seq![
            Release::Buffer(buffer),
            Release::Memory(memory),
        ],
        _ => Seq::empty(),
    }
}

/// The objects that a step destroys.
pub open spec fn destroyed(step: SetupStep) -> Seq<Release> {
    match step {
        SetupStep::CreatePool { release, .. } => release@,
        SetupStep::WriteSets { release, .. } => release@,
        SetupStep::CreateSampler { release, .. } => release@,
        _ => Seq::empty(),
    }
}

/// How often an object is in a list.
spec fn times(list: Seq<Release>, x: Release) -> int {
    list.to_multiset().count(x) as int
}

spec fn hit(b: bool) -> int {
    if b {
        1
    } else {
        0
    }
}

spec fn hit_layout(h: Option<u64>, x: Release) -> int {
    match h {
        Some(l) => hit(x == Release::SetLayout(l)),
        None => 0,
    }
}

spec fn hit_pool(h: Option<u64>, x: Release) -> int {
    match h {
        Some(p) => hit(x == Release::Pool(p)),
        None => 0,
    }
}

spec fn hit_handle(h: u64, r: Release, x: Release) -> int {
    if h != 0 {
        hit(x == r)
    } else {
        0
    }
}

spec fn hit_frame(r: SceneResources, x: Release) -> int {
    hit_layout(r.frame_layout, x) + hit_pool(r.frame_pool, x)
}

spec fn hit_shadow(r: SceneResources, x: Release) -> int {
    hit_layout(r.shadow_layout, x) + hit_pool(r.shadow_pool, x)
}

spec fn hit_lights(r: SceneResources, x: Release) -> int {
    hit_handle(r.light_buffer, Release::Buffer(r.light_buffer), x) + hit_handle(
        r.light_memory,
        Release::Memory(r.light_memory),
        x,
    )
}

spec fn hit_ao(r: SceneResources, x: Release) -> int {
    hit_layout(r.ao_layout, x) + hit_pool(r.ao_pool, x) + hit_handle(
        r.ao_sampler,
        Release::Sampler(r.ao_sampler),
        x,
    )
}

spec fn hit_pending(s: ResourceSetup, x: Release) -> int {
    hit_handle(s.layout, Release::SetLayout(s.layout), x) + hit_handle(
        s.pool,
        Release::Pool(s.pool),
        x,
    ) + hit_handle(s.sampler, Release::Sampler(s.sampler), x) + hit_handle(
        s.light_buffer,
        Release::Buffer(s.light_buffer),
        x,
    ) + hit_handle(s.light_memory, Release::Memory(s.light_memory), x)
}

proof fn lemma_times_2(a: Seq<Release>, b: Seq<Release>, x: Release)
    ensures
        times(a + b, x) == times(a, x) + times(b, x),
{
    vstd::seq_lib::lemma_multiset_commutative(a, b);
}

proof fn lemma_times_0(x: Release)
    ensures
        times(Seq::empty(), x) == 0,
{
    let none = Seq::<Release>::empty();
    vstd::seq_lib::to_multiset_len(none);
    vstd::multiset::lemma_multiset_empty_len(none.to_multiset());
}

proof fn lemma_times_1(r: Release, x: Release)
    ensures
        times(seq![r], x) == hit(x == r),
{
    let none = Seq::<Release>::empty();
    lemma_times_0(x);
    vstd::seq_lib::to_multiset_build(none, r);
    assert(none.push(r) =~= seq![r]);
}

proof fn lemma_times_layout(h: Option<u64>, x: Release)
    ensures
        times(layout_release(h), x) == hit_layout(h, x),
{
    lemma_times_0(x);
    if let Some(l) = h {
        lemma_times_1(Release::SetLayout(l), x);
    }
}

proof fn lemma_times_pool(h: Option<u64>, x: Release)
    ensures
        times(pool_release(h), x) == hit_pool(h, x),
{
    lemma_times_0(x);
    if let Some(p) = h {
        lemma_times_1(Release::Pool(p), x);
    }
}

proof fn lemma_times_handle(h: u64, r: Release, x: Release)
    ensures
        times(handle_release(h, r), x) == hit_handle(h, r, x),
{
    lemma_times_0(x);
    lemma_times_1(r, x);
}

proof fn lemma_times_pending(s: ResourceSetup, x: Release)
    ensures
        times(pending(s), x) == hit_pending(s, x),
{
    let a = handle_release(s.layout, Release::SetLayout(s.layout));
    let b = handle_release(s.pool, Release::Pool(s.pool));
    let c = handle_release(s.sampler, Release::Sampler(s.sampler));
    let d = handle_release(s.light_buffer, Release::Buffer(s.light_buffer));
    let e = handle_release(s.light_memory, Release::Memory(s.light_memory));
    lemma_times_2(a, b, x);
    lemma_times_2(a + b, c, x);
    lemma_times_2(a + b + c, d, x);
    lemma_times_2(a + b + c + d, e, x);
    lemma_times_handle(s.layout, Release::SetLayout(s.layout), x);
    lemma_times_handle(s.pool, Release::Pool(s.pool), x);
    lemma_times_handle(s.sampler, Release::Sampler(s.sampler), x);
    lemma_times_handle(s.light_buffer, Release::Buffer(s.light_buffer), x);
    lemma_times_handle(s.light_memory, Release::Memory(s.light_memory), x);
}

proof fn lemma_times_parts(r: SceneResources, x: Release)
    ensures
        times(r.owned_frame(), x) == hit_frame(r, x),
        times(r.owned_shadow(), x) == hit_shadow(r, x),
        times(r.owned_lights(), x) == hit_lights(r, x),
        times(r.owned_ao(), x) == hit_ao(r, x),
{
    lemma_times_2(layout_release(r.frame_layout), pool_release(r.frame_pool), x);
    lemma_times_2(layout_release(r.shadow_layout), pool_release(r.shadow_pool), x);
    lemma_times_2(
        handle_release(r.light_buffer, Release::Buffer(r.light_buffer)),
        handle_release(r.light_memory, Release::Memory(r.light_memory)),
        x,
    );
    lemma_times_2(layout_release(r.ao_layout), pool_release(r.ao_pool), x);
    lemma_times_2(
        layout_release(r.ao_layout) + pool_release(r.ao_pool),
        handle_release(r.ao_sampler, Release::Sampler(r.ao_sampler)),
        x,
    );
    lemma_times_layout(r.frame_layout, x);
    lemma_times_layout(r.shadow_layout, x);
    lemma_times_layout(r.ao_layout, x);
    lemma_times_pool(r.frame_pool, x);
    lemma_times_pool(r.shadow_pool, x);
    lemma_times_pool(r.ao_pool, x);
    lemma_times_handle(r.light_buffer, Release::Buffer(r.light_buffer), x);
    lemma_times_handle(r.light_memory, Release::Memory(r.light_memory), x);
    lemma_times_handle(r.ao_sampler, Release::Sampler(r.ao_sampler), x);
}

proof fn lemma_times_owned(r: SceneResources, x: Release)
    ensures
        times(r.owned(), x) == times(render_pass_release(r.render_pass), x) + hit_frame(r, x)
            + hit_shadow(r, x) + hit_lights(r, x) + hit_ao(r, x),
{
    lemma_times_parts(r, x);
    let rp = render_pass_release(r.render_pass);
    lemma_times_2(rp, r.owned_frame(), x);
    lemma_times_2(rp + r.owned_frame(), r.owned_shadow(), x);
    lemma_times_2(rp + r.owned_frame() + r.owned_shadow(), r.owned_lights(), x);
    lemma_times_2(rp + r.owned_frame() + r.owned_shadow() + r.owned_lights(), r.owned_ao(), x);
}

/// How often a step that went well creates an object.
spec fn hit_created(phase: SetupPhase, outcome: SetupOutcome, x: Release) -> int {
    match (phase, outcome) {
        (SetupPhase::FrameLayout, SetupOutcome::Object(h)) => hit(x == Release::SetLayout(h)),
        (SetupPhase::ShadowLayout, SetupOutcome::Object(h)) => hit(x == Release::SetLayout(h)),
        (SetupPhase::AoLayout, SetupOutcome::Object(h)) => hit(x == Release::SetLayout(h)),
        (SetupPhase::FramePool, SetupOutcome::Object(h)) => hit(x == Release::Pool(h)),
        (SetupPhase::ShadowPool, SetupOutcome::Object(h)) => hit(x == Release::Pool(h)),
        (SetupPhase::AoPool, SetupOutcome::Object(h)) => hit(x == Release::Pool(h)),
        (SetupPhase::AoSampler, SetupOutcome::Object(h)) => hit(x == Release::Sampler(h)),
        (_, SetupOutcome::Buffer { buffer, memory }) => hit(x == Release::Buffer(buffer)) + hit(
            x == Release::Memory(memory),
        ),
        _ => 0,
    }
}

proof fn lemma_times_created(phase: SetupPhase, outcome: SetupOutcome, x: Release)
    ensures
        times(created(phase, outcome), x) == hit_created(phase, outcome, x),
{
    lemma_times_0(x);
    match outcome {
        SetupOutcome::Object(h) => {
            lemma_times_1(Release::SetLayout(h), x);
            lemma_times_1(Release::Pool(h), x);
            lemma_times_1(Release::Sampler(h), x);
        },
        SetupOutcome::Buffer { buffer, memory } => {
            lemma_times_1(Release::Buffer(buffer), x);
            lemma_times_1(Release::Memory(memory), x);
            lemma_times_2(seq![Release::Buffer(buffer)], seq![Release::Memory(memory)], x);
            assert(created(phase, outcome) =~= seq![Release::Buffer(buffer)] + seq![
                Release::Memory(memory),
            ]);
        },
        _ => {},
    }
}

/// How often a step destroys an object, by the phase that it ends.
spec fn hit_destroyed(phase: SetupPhase, before: SceneResources, x: Release) -> int {
    match phase {
        SetupPhase::FrameLayout => hit_frame(before, x),
        SetupPhase::LightsCleared => hit_lights(before, x),
        SetupPhase::ShadowLayout => hit_shadow(before, x),
        SetupPhase::AoLayout => hit_ao(before, x),
        _ => 0,
    }
}

proof fn lemma_times_destroyed(
    before: SceneResources,
    setup: ResourceSetup,
    inputs: SceneInputs,
    outcome: SetupOutcome,
    after: SceneResources,
    setup_after: ResourceSetup,
    step: SetupStep,
    x: Release,
)
    requires
        outcome !is Failed,
        wired(before, setup, inputs, outcome, after, setup_after, step),
    ensures
        times(destroyed(step), x) == hit_destroyed(setup.phase, before, x),
{
    lemma_times_parts(before, x);
    lemma_times_0(x);
    assert(destroyed(step).len() == 0 ==> destroyed(step) =~= Seq::<Release>::empty());
}

proof fn lemma_balance(
    before: SceneResources,
    setup: ResourceSetup,
    inputs: SceneInputs,
    outcome: SetupOutcome,
    after: SceneResources,
    setup_after: ResourceSetup,
    step: SetupStep,
    x: Release,
)
    requires
        in_step(setup, inputs),
        fits(setup, inputs, outcome),
        outcome !is Failed,
        given_up(setup.phase, before),
        wired(before, setup, inputs, outcome, after, setup_after, step),
    ensures
        before.render_pass == after.render_pass,
        ({
            let had = living(setup.phase, before);
            let has = living(setup_after.phase, after);
            hit_destroyed(setup.phase, before, x) + hit_frame(has, x) + hit_shadow(has, x)
                + hit_lights(has, x) + hit_ao(has, x) + hit_pending(setup_after, x) == hit_frame(
                had,
                x,
            ) + hit_shadow(had, x) + hit_lights(had, x) + hit_ao(had, x) + hit_pending(setup, x)
                + hit_created(setup.phase, outcome, x)
        }),
{
}

/// Wiring loses no object and destroys none twice: what a step destroys, together with
/// what is owned or pending after it, is what was owned or pending before, together with
/// what was created.
pub proof fn no_object_is_lost(
    before: SceneResources,
    setup: ResourceSetup,
    inputs: SceneInputs,
    outcome: SetupOutcome,
    after: SceneResources,
    setup_after: ResourceSetup,
    step: SetupStep,
)
    requires
        in_step(setup, inputs),
        fits(setup, inputs, outcome),
        outcome !is Failed,
        given_up(setup.phase, before),
        wired(before, setup, inputs, outcome, after, setup_after, step),
    ensures
        destroyed(step).to_multiset().add(living(setup_after.phase, after).owned().to_multiset()).add(
            pending(setup_after).to_multiset(),
        ) == living(setup.phase, before).owned().to_multiset().add(pending(setup).to_multiset()).add(
            created(setup.phase, outcome).to_multiset(),
        ),
{
    let left = destroyed(step).to_multiset().add(living(setup_after.phase, after).owned().to_multiset()).add(
        pending(setup_after).to_multiset(),
    );
    let right = living(setup.phase, before).owned().to_multiset().add(pending(setup).to_multiset()).add(
        created(setup.phase, outcome).to_multiset(),
    );
    assert forall|x: Release| #[trigger] left.count(x) == right.count(x) by {
        lemma_times_owned(living(setup.phase, before), x);
        lemma_times_owned(living(setup_after.phase, after), x);
        lemma_times_pending(setup, x);
        lemma_times_pending(setup_after, x);
        lemma_times_created(setup.phase, outcome, x);
        lemma_times_destroyed(before, setup, inputs, outcome, after, setup_after, step, x);
        lemma_balance(before, setup, inputs, outcome, after, setup_after, step, x);
    }
    assert(left =~= right);
}

/// Wiring puts everything where it belongs: what is borrowed is kept as it was given, sets
/// are allocated with the layout and the pool that were made for them, the frame sets read
/// the frames' own uniform buffers, the materials and the new lights, the shadow set reads
/// the given shadow map, and what was made last is what is used.
pub proof fn wiring_puts_everything_in_place(
    before: SceneResources,
    setup: ResourceSetup,
    inputs: SceneInputs,
    outcome: SetupOutcome,
    after: SceneResources,
    setup_after: ResourceSetup,
    step: SetupStep,
    i: int,
)
    requires
        in_step(setup, inputs),
        fits(setup, inputs, outcome),
        outcome !is Failed,
        wired(before, setup, inputs, outcome, after, setup_after, step),
        0 <= i < inputs.ubos@.len(),
    ensures
        setup.phase == SetupPhase::Begin ==> {
            &&& after.bindless_set == inputs.borrowed.bindless_set
            &&& after.ibl_set == inputs.borrowed.ibl_set
            &&& after.gi_set == inputs.borrowed.gi_set
            &&& after.bindless_layout == inputs.borrowed.bindless_layout
            &&& after.ibl_layout == inputs.borrowed.ibl_layout
            &&& after.gi_layout == inputs.borrowed.gi_layout
            &&& after.brdf_handle == inputs.borrowed.brdf_handle
        },
        step matches SetupStep::AllocateSets { pool, layouts } ==> {
            &&& outcome == SetupOutcome::Object(pool)
            &&& forall|k: int| 0 <= k < layouts@.len() ==> #[trigger] layouts@[k] == setup.layout
            &&& setup.phase == SetupPhase::ShadowPool ==> layouts@.len() == 1
            &&& setup.phase != SetupPhase::ShadowPool ==> layouts@.len() == inputs.ubos@.len()
        },
        setup.phase == SetupPhase::LightsCleared ==> {
            &&& after.light_buffer == setup.light_buffer
            &&& after.light_memory == setup.light_memory
            &&& step matches SetupStep::WriteSets { writes, .. } && {
                &&& writes@[3 * i].set == setup.sets@[i]
                &&& writes@[3 * i].source == (DescriptorSource::Buffer {
                    buffer: inputs.ubos@[i],
                    range: BufferRange::Bytes(272),
                })
                &&& writes@[3 * i + 1].source == (DescriptorSource::Buffer {
                    buffer: inputs.materials,
                    range: BufferRange::Whole,
                })
                &&& writes@[3 * i + 2].source == (DescriptorSource::Buffer {
                    buffer: setup.light_buffer,
                    range: BufferRange::Whole,
                })
            }
        },
        setup.phase == SetupPhase::FrameWritten ==> {
            &&& after.frame_layout == Some(setup.layout)
            &&& after.frame_pool == Some(setup.pool)
            &&& after.frame_sets == setup.sets
        },
        setup.phase == SetupPhase::ShadowSet ==> {
            &&& step matches SetupStep::WriteSets { writes, .. } && {
                &&& writes@[0].source == (DescriptorSource::Image {
                    view: inputs.shadow_view,
                    layout: ImageLayout::DepthStencilReadOnly,
                })
                &&& writes@[1].source == (DescriptorSource::Sampler {
                    sampler: inputs.shadow_sampler,
                })
            }
        },
        setup.phase == SetupPhase::ShadowWritten ==> {
            &&& after.shadow_layout == Some(setup.layout)
            &&& after.shadow_pool == Some(setup.pool)
            &&& after.shadow_set == setup.sets@[0]
        },
        setup.phase == SetupPhase::AoSets ==> {
            &&& after.ao_layout == Some(setup.layout)
            &&& after.ao_pool == Some(setup.pool)
            &&& after.ao_sampler == setup.sampler
            &&& outcome == SetupOutcome::Sets(after.ao_sets)
        },
{
    if setup.phase == SetupPhase::LightsCleared {
        frame_set_reads_its_own_buffers(
            setup.sets@,
            inputs.ubos@,
            inputs.materials,
            setup.light_buffer,
            i,
        );
    }
}

/// Wiring makes what it needs: pools for as many sets as are allocated, a light buffer for
/// all lights, which is cleared whole, and occlusion sets that name no view yet. A step
/// that fails changes nothing.
pub proof fn wiring_makes_what_it_needs(
    before: SceneResources,
    setup: ResourceSetup,
    inputs: SceneInputs,
    outcome: SetupOutcome,
    after: SceneResources,
    setup_after: ResourceSetup,
    step: SetupStep,
    i: int,
)
    requires
        in_step(setup, inputs),
        fits(setup, inputs, outcome),
        wired(before, setup, inputs, outcome, after, setup_after, step),
        inputs.ubos@.len() <= u32::MAX,
    ensures
        outcome is Failed ==> after == before && step is Failed && setup_after.phase
            == SetupPhase::Failed,
        step matches SetupStep::CreatePool { pool, .. } ==> pool.max_sets == (if setup.phase
            == SetupPhase::ShadowLayout {
            1
        } else {
            inputs.ubos@.len()
        }),
        step matches SetupStep::CreateLayout(layout) ==> layout.bindings@ == (if setup.phase
            == SetupPhase::Begin {
            frame_bindings()
        } else if setup.phase == SetupPhase::FrameWritten {
            shadow_bindings()
        } else {
            ao_bindings()
        }),
        step matches SetupStep::CreateLightBuffer(b) ==> {
            &&& b.size == LIGHT_MAX * LIGHT_WORDS * 4
            &&& b.usage == USAGE_STORAGE_BUFFER
            &&& b.memory == HOST_MEMORY
        },
        step matches SetupStep::ClearMemory { memory, size } ==> {
            &&& outcome == (SetupOutcome::Buffer { buffer: setup_after.light_buffer, memory })
            &&& size == LIGHT_MAX * LIGHT_WORDS * 4
            &&& setup_after.light_memory == memory
        },
        setup.phase == SetupPhase::AoSets && outcome !is Failed ==> {
            &&& after.ao_views@.len() == after.ao_sets@.len()
            &&& 0 <= i < after.ao_views@.len() ==> after.ao_views@[i] == 0
            &&& step is Finished
        },
{
}

} // verus!
