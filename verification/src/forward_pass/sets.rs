//! The descriptor sets that the forward pass owns: their layouts, their pools and what is
//! written to them.

use vstd::prelude::*;

use crate::descriptor::{
    fragment_only, lemma_demand_push, lemma_supply_push, lemma_unit_product, one, single,
    vertex_and_fragment, BufferRange, DescriptorKind, DescriptorLayout, DescriptorPool,
    DescriptorSource, DescriptorWrite, LayoutBinding, PoolSize, FRAME_UBO_SIZE,
};
use crate::gpu::ImageLayout;

verus! {

/// The bindings of set 0: the frame's uniform buffer, the materials and the lights.
pub open spec fn frame_bindings() -> Seq<LayoutBinding> {
    seq![
        one(0, DescriptorKind::UniformBuffer, vertex_and_fragment()),
        one(1, DescriptorKind::StorageBuffer, fragment_only()),
        one(2, DescriptorKind::StorageBuffer, fragment_only()),
    ]
}

/// The bindings of set 3: the shadow map and its comparison sampler.
pub open spec fn shadow_bindings() -> Seq<LayoutBinding> {
    seq![
        one(0, DescriptorKind::SampledImage, fragment_only()),
        one(1, DescriptorKind::Sampler, fragment_only()),
    ]
}

/// The bindings of set 4: the ambient occlusion of the frame before.
pub open spec fn ao_bindings() -> Seq<LayoutBinding> {
    seq![one(0, DescriptorKind::CombinedImageSampler, fragment_only())]
}

/// What the pool of set 0 holds, for `frames` frames in flight.
pub open spec fn frame_pool_sizes(frames: u32) -> Seq<PoolSize> {
    seq![
        PoolSize { kind: DescriptorKind::UniformBuffer, count: frames },
        PoolSize { kind: DescriptorKind::StorageBuffer, count: (frames * 2) as u32 },
    ]
}

/// What the pool of set 3 holds.
pub open spec fn shadow_pool_sizes() -> Seq<PoolSize> {
    seq![
        PoolSize { kind: DescriptorKind::SampledImage, count: 1 },
        PoolSize { kind: DescriptorKind::Sampler, count: 1 },
    ]
}

/// What the pool of set 4 holds, for `frames` frames in flight.
pub open spec fn ao_pool_sizes(frames: u32) -> Seq<PoolSize> {
    seq![PoolSize { kind: DescriptorKind::CombinedImageSampler, count: frames }]
}

/// Set 0: the frame's uniform buffer, the materials and the lights.
pub fn frame_layout() -> (r: DescriptorLayout)
    ensures
        r.bindings@ == frame_bindings(),
{
    let mut bindings: Vec<LayoutBinding> = Vec::new();
    bindings.push(single(0, DescriptorKind::UniformBuffer, true));
    bindings.push(single(1, DescriptorKind::StorageBuffer, false));
    bindings.push(single(2, DescriptorKind::StorageBuffer, false));
    DescriptorLayout { bindings }
}

/// The pool of set 0, for `frames` frames in flight.
pub fn frame_pool(frames: u32) -> (r: DescriptorPool)
    requires
        frames * 2 <= u32::MAX,
    ensures
        r.max_sets == frames,
        r.sizes@ == frame_pool_sizes(frames),
{
    let mut sizes: Vec<PoolSize> = Vec::new();
    sizes.push(PoolSize { kind: DescriptorKind::UniformBuffer, count: frames });
    sizes.push(PoolSize { kind: DescriptorKind::StorageBuffer, count: frames * 2 });
    DescriptorPool { max_sets: frames, sizes }
}

/// Set 3: the shadow map and its comparison sampler.
pub fn shadow_layout() -> (r: DescriptorLayout)
    ensures
        r.bindings@ == shadow_bindings(),
{
    let mut bindings: Vec<LayoutBinding> = Vec::new();
    bindings.push(single(0, DescriptorKind::SampledImage, false));
    bindings.push(single(1, DescriptorKind::Sampler, false));
    DescriptorLayout { bindings }
}

/// The pool of set 3, which is one set.
pub fn shadow_pool() -> (r: DescriptorPool)
    ensures
        r.max_sets == 1,
        r.sizes@ == shadow_pool_sizes(),
{
    let mut sizes: Vec<PoolSize> = Vec::new();
    sizes.push(PoolSize { kind: DescriptorKind::SampledImage, count: 1 });
    sizes.push(PoolSize { kind: DescriptorKind::Sampler, count: 1 });
    DescriptorPool { max_sets: 1, sizes }
}

/// Set 4: the ambient occlusion of the frame before.
pub fn ao_layout() -> (r: DescriptorLayout)
    ensures
        r.bindings@ == ao_bindings(),
{
    let mut bindings: Vec<LayoutBinding> = Vec::new();
    bindings.push(single(0, DescriptorKind::CombinedImageSampler, false));
    DescriptorLayout { bindings }
}

/// The pool of set 4, for `frames` frames in flight.
pub fn ao_pool(frames: u32) -> (r: DescriptorPool)
    ensures
        r.max_sets == frames,
        r.sizes@ == ao_pool_sizes(frames),
{
    let mut sizes: Vec<PoolSize> = Vec::new();
    sizes.push(PoolSize { kind: DescriptorKind::CombinedImageSampler, count: frames });
    DescriptorPool { max_sets: frames, sizes }
}

/// The write of one buffer descriptor.
pub open spec fn buffer_write(
    set: u64,
    binding: u32,
    kind: DescriptorKind,
    buffer: u64,
    range: BufferRange,
) -> DescriptorWrite {
    DescriptorWrite { set, binding, kind, source: DescriptorSource::Buffer { buffer, range } }
}

/// The three writes of one frame's set 0.
pub open spec fn frame_set_writes(set: u64, ubo: u64, materials: u64, lights: u64) -> Seq<
    DescriptorWrite,
> {
    seq![
        buffer_write(
            set,
            0,
            DescriptorKind::UniformBuffer,
            ubo,
            BufferRange::Bytes(FRAME_UBO_SIZE),
        ),
        buffer_write(set, 1, DescriptorKind::StorageBuffer, materials, BufferRange::Whole),
        buffer_write(set, 2, DescriptorKind::StorageBuffer, lights, BufferRange::Whole),
    ]
}

/// The writes of all frames' sets.
pub open spec fn all_frame_writes(
    sets: Seq<u64>,
    ubos: Seq<u64>,
    materials: u64,
    lights: u64,
) -> Seq<DescriptorWrite>
    decreases sets.len(),
{
    if sets.len() == 0 {
        Seq::empty()
    } else {
        let last = sets.len() - 1;
        all_frame_writes(sets.drop_last(), ubos, materials, lights) + frame_set_writes(
            sets[last],
            ubos[last],
            materials,
            lights,
        )
    }
}

/// Points each frame's set 0 at the frame's own uniform buffer and at the shared
/// materials and lights.
pub fn plan_frame_writes(sets: &Vec<u64>, ubos: &Vec<u64>, materials: u64, lights: u64) -> (r: Vec<
    DescriptorWrite,
>)
    requires
        sets.len() <= ubos.len(),
    ensures
        r@ == all_frame_writes(sets@, ubos@, materials, lights),
{
    let mut writes: Vec<DescriptorWrite> = Vec::new();
    let mut i: usize = 0;
    while i < sets.len()
        invariant
            i <= sets.len() <= ubos.len(),
            writes@ == all_frame_writes(sets@.take(i as int), ubos@, materials, lights),
        decreases sets.len() - i,
    {
        let ghost before = writes@;
        writes.push(
            DescriptorWrite {
                set: sets[i],
                binding: 0,
                kind: DescriptorKind::UniformBuffer,
                source: DescriptorSource::Buffer {
                    buffer: ubos[i],
                    range: BufferRange::Bytes(FRAME_UBO_SIZE),
                },
            },
        );
        writes.push(
            DescriptorWrite {
                set: sets[i],
                binding: 1,
                kind: DescriptorKind::StorageBuffer,
                source: DescriptorSource::Buffer { buffer: materials, range: BufferRange::Whole },
            },
        );
        writes.push(
            DescriptorWrite {
                set: sets[i],
                binding: 2,
                kind: DescriptorKind::StorageBuffer,
                source: DescriptorSource::Buffer { buffer: lights, range: BufferRange::Whole },
            },
        );
        proof {
            let next = sets@.take(i + 1);
            assert(next.drop_last() =~= sets@.take(i as int));
            assert(writes@ =~= before + frame_set_writes(
                sets@[i as int],
                ubos@[i as int],
                materials,
                lights,
            ));
        }
        i = i + 1;
    }
    assert(sets@.take(i as int) =~= sets@);
    writes
}

/// The two writes of set 3.
pub open spec fn shadow_writes(set: u64, view: u64, sampler: u64) -> Seq<DescriptorWrite> {
    seq![
        DescriptorWrite {
            set,
            binding: 0,
            kind: DescriptorKind::SampledImage,
            source: DescriptorSource::Image { view, layout: ImageLayout::DepthStencilReadOnly },
        },
        DescriptorWrite {
            set,
            binding: 1,
            kind: DescriptorKind::Sampler,
            source: DescriptorSource::Sampler { sampler },
        },
    ]
}

/// Points set 3 at the shadow map and its sampler.
pub fn plan_shadow_writes(set: u64, view: u64, sampler: u64) -> (r: Vec<DescriptorWrite>)
    ensures
        r@ == shadow_writes(set, view, sampler),
{
    let mut writes: Vec<DescriptorWrite> = Vec::new();
    writes.push(
        DescriptorWrite {
            set,
            binding: 0,
            kind: DescriptorKind::SampledImage,
            source: DescriptorSource::Image { view, layout: ImageLayout::DepthStencilReadOnly },
        },
    );
    writes.push(
        DescriptorWrite {
            set,
            binding: 1,
            kind: DescriptorKind::Sampler,
            source: DescriptorSource::Sampler { sampler },
        },
    );
    writes
}

proof fn lemma_frame_writes_len(sets: Seq<u64>, ubos: Seq<u64>, materials: u64, lights: u64)
    ensures
        all_frame_writes(sets, ubos, materials, lights).len() == 3 * sets.len(),
    decreases sets.len(),
{
    if sets.len() > 0 {
        lemma_frame_writes_len(sets.drop_last(), ubos, materials, lights);
    }
}

/// Every binding of every frame's set 0 is written once, with the kind that the layout
/// declares for it: write `3 * i + b` is binding `b` of set `i`.
pub proof fn every_frame_binding_is_written(
    sets: Seq<u64>,
    ubos: Seq<u64>,
    materials: u64,
    lights: u64,
    layout: DescriptorLayout,
    i: int,
    b: int,
)
    requires
        0 <= i < sets.len() <= ubos.len(),
        0 <= b < 3,
        layout.bindings@ == frame_bindings(),
    ensures
        ({
            let writes = all_frame_writes(sets, ubos, materials, lights);
            let w = writes[3 * i + b];
            &&& writes.len() == 3 * sets.len()
            &&& w.set == sets[i]
            &&& w.binding == layout.bindings@[b].binding
            &&& w.kind == layout.bindings@[b].kind
        }),
    decreases sets.len(),
{
    lemma_frame_writes_len(sets, ubos, materials, lights);
    lemma_frame_writes_len(sets.drop_last(), ubos, materials, lights);
    if i < sets.len() - 1 {
        every_frame_binding_is_written(
            sets.drop_last(),
            ubos,
            materials,
            lights,
            layout,
            i,
            b,
        );
    }
}

/// Each of the three pools holds exactly what its sets take.
pub proof fn pools_serve_layouts(
    frame: (DescriptorLayout, DescriptorPool),
    shadow: (DescriptorLayout, DescriptorPool),
    ao: (DescriptorLayout, DescriptorPool),
)
    requires
        frame.1.max_sets * 2 <= u32::MAX,
        frame.0.bindings@ == frame_bindings(),
        frame.1.sizes@ == frame_pool_sizes(frame.1.max_sets),
        shadow.0.bindings@ == shadow_bindings(),
        shadow.1.max_sets == 1,
        shadow.1.sizes@ == shadow_pool_sizes(),
        ao.0.bindings@ == ao_bindings(),
        ao.1.sizes@ == ao_pool_sizes(ao.1.max_sets),
    ensures
        frame.1.serves(&frame.0),
        shadow.1.serves(&shadow.0),
        ao.1.serves(&ao.0),
{
    let none_b = Seq::<LayoutBinding>::empty();
    let none_s = Seq::<PoolSize>::empty();
    assert forall|kind: DescriptorKind| #[trigger]
        crate::descriptor::supply(frame.1.sizes@, kind) == frame.1.max_sets
            * crate::descriptor::demand(frame.0.bindings@, kind) by {
        let b = frame.0.bindings@;
        let s = frame.1.sizes@;
        lemma_supply_push(none_s, s[0], kind);
        lemma_supply_push(none_s.push(s[0]), s[1], kind);
        lemma_demand_push(none_b, b[0], kind);
        lemma_demand_push(none_b.push(b[0]), b[1], kind);
        lemma_demand_push(none_b.push(b[0]).push(b[1]), b[2], kind);
        assert(s =~= none_s.push(s[0]).push(s[1]));
        assert(b =~= none_b.push(b[0]).push(b[1]).push(b[2]));
        lemma_unit_product(frame.1.max_sets);
    }
    assert forall|kind: DescriptorKind| #[trigger]
        crate::descriptor::supply(shadow.1.sizes@, kind) == shadow.1.max_sets
            * crate::descriptor::demand(shadow.0.bindings@, kind) by {
        let b = shadow.0.bindings@;
        let s = shadow.1.sizes@;
        lemma_supply_push(none_s, s[0], kind);
        lemma_supply_push(none_s.push(s[0]), s[1], kind);
        lemma_demand_push(none_b, b[0], kind);
        lemma_demand_push(none_b.push(b[0]), b[1], kind);
        assert(s =~= none_s.push(s[0]).push(s[1]));
        assert(b =~= none_b.push(b[0]).push(b[1]));
    }
    assert forall|kind: DescriptorKind| #[trigger]
        crate::descriptor::supply(ao.1.sizes@, kind) == ao.1.max_sets
            * crate::descriptor::demand(ao.0.bindings@, kind) by {
        let b = ao.0.bindings@;
        let s = ao.1.sizes@;
        lemma_supply_push(none_s, s[0], kind);
        lemma_demand_push(none_b, b[0], kind);
        assert(s =~= none_s.push(s[0]));
        assert(b =~= none_b.push(b[0]));
        lemma_unit_product(ao.1.max_sets);
    }
}

/// Each frame's set reads the frame's own uniform buffer and the shared materials and
/// lights: binding 0 the uniform buffer, binding 1 the materials, binding 2 the lights.
pub proof fn frame_set_reads_its_own_buffers(
    sets: Seq<u64>,
    ubos: Seq<u64>,
    materials: u64,
    lights: u64,
    i: int,
)
    requires
        0 <= i < sets.len() <= ubos.len(),
    ensures
        ({
            let writes = all_frame_writes(sets, ubos, materials, lights);
            &&& writes[3 * i].set == sets[i] && writes[3 * i].binding == 0
            &&& writes[3 * i].source == (DescriptorSource::Buffer {
                buffer: ubos[i],
                range: BufferRange::Bytes(272),
            })
            &&& writes[3 * i + 1].set == sets[i] && writes[3 * i + 1].binding == 1
            &&& writes[3 * i + 1].source == (DescriptorSource::Buffer {
                buffer: materials,
                range: BufferRange::Whole,
            })
            &&& writes[3 * i + 2].set == sets[i] && writes[3 * i + 2].binding == 2
            &&& writes[3 * i + 2].source == (DescriptorSource::Buffer {
                buffer: lights,
                range: BufferRange::Whole,
            })
        }),
    decreases sets.len(),
{
    lemma_frame_writes_len(sets, ubos, materials, lights);
    lemma_frame_writes_len(sets.drop_last(), ubos, materials, lights);
    if i < sets.len() - 1 {
        frame_set_reads_its_own_buffers(sets.drop_last(), ubos, materials, lights, i);
    }
}

/// The shadow set reads the shadow map through the sampler that it is given.
pub proof fn shadow_set_reads_the_shadow_map(set: u64, view: u64, sampler: u64, i: int)
    requires
        0 <= i < shadow_writes(set, view, sampler).len(),
    ensures
        ({
            let w = shadow_writes(set, view, sampler)[i];
            &&& w.set == set
            &&& w.binding == shadow_bindings()[i].binding
            &&& w.kind == shadow_bindings()[i].kind
            &&& w.source == (if i == 0 {
                DescriptorSource::Image { view, layout: ImageLayout::DepthStencilReadOnly }
            } else {
                DescriptorSource::Sampler { sampler }
            })
        }),
        shadow_writes(set, view, sampler).len() == shadow_bindings().len(),
{
}

} // verus!
