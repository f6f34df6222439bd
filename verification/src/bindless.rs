//! The bindless texture table: one array of textures indexed by handle, and a few
//! samplers shared by all of them.

use vstd::prelude::*;

use crate::gpu::{ImageLayout, Release};

verus! {

/// The slot of a texture in the table.
#[derive(Debug, Clone, Copy, PartialEq, Eq, Structural)]
pub struct TextureHandle(pub u32);

impl TextureHandle {
    /// The handle of a texture that is not there; shaders answer it with a fallback
    /// color.
    pub fn invalid() -> (r: TextureHandle)
        ensures
            r == TextureHandle(u32::MAX),
    {
        TextureHandle(u32::MAX)
    }
}

/// The shared samplers, in the order of their array.
#[derive(Debug, Clone, Copy, PartialEq, Eq, Structural)]
pub enum SamplerType {
    LinearWrap,
    LinearClamp,
    Nearest,
    Shadow,
}

/// How texels are combined.
#[derive(Debug, Clone, Copy, PartialEq, Eq, Structural)]
pub enum Filter {
    Nearest,
    Linear,
}

/// What lies outside a texture.
#[derive(Debug, Clone, Copy, PartialEq, Eq, Structural)]
pub enum AddressMode {
    Repeat,
    ClampToEdge,
}

/// Whether samples are compared with a reference, and where the comparison passes.
#[derive(Debug, Clone, Copy, PartialEq, Eq, Structural)]
pub enum Comparison {
    Off,
    /// Where the reference is less.
    Less,
    /// Where the reference is less or equal.
    LessOrEqual,
}

/// How a sampler is made. Everything else is left at its default.
#[derive(Debug, Clone, Copy, PartialEq, Eq, Structural)]
pub struct SamplerInfo {
    /// Filter for magnification, minification and between mip levels.
    pub filter: Filter,
    /// Addressing along all three axes.
    pub address: AddressMode,
    /// Whether all mip levels can be sampled, or only the base level.
    pub all_levels: bool,
    pub comparison: Comparison,
}

/// A sampler that filters linearly, clamps to the edge and samples all mip levels.
pub open spec fn linear_clamp() -> SamplerInfo {
    SamplerInfo {
        filter: Filter::Linear,
        address: AddressMode::ClampToEdge,
        all_levels: true,
        comparison: Comparison::Off,
    }
}

impl SamplerType {
    /// Number of shared samplers.
    pub const COUNT: u32 = 4;

    /// The place of a sampler in the array.
    pub open spec fn spec_index(self) -> u32 {
        match self {
            SamplerType::LinearWrap => 0,
            SamplerType::LinearClamp => 1,
            SamplerType::Nearest => 2,
            SamplerType::Shadow => 3,
        }
    }

    /// The place of a sampler in the array.
    pub fn index(self) -> (r: u32)
        ensures
            r == self.spec_index(),
            r < Self::COUNT,
    {
        match self {
            SamplerType::LinearWrap => 0,
            SamplerType::LinearClamp => 1,
            SamplerType::Nearest => 2,
            SamplerType::Shadow => 3,
        }
    }

    /// How the sampler is made.
    pub fn create_info(self) -> (r: SamplerInfo)
        ensures
            r == sampler_info(self),
    {
        match self {
            SamplerType::LinearWrap => SamplerInfo {
                filter: Filter::Linear,
                address: AddressMode::Repeat,
                all_levels: true,
                comparison: Comparison::Off,
            },
            SamplerType::LinearClamp => SamplerInfo {
                filter: Filter::Linear,
                address: AddressMode::ClampToEdge,
                all_levels: true,
                comparison: Comparison::Off,
            },
            SamplerType::Nearest => SamplerInfo {
                filter: Filter::Nearest,
                address: AddressMode::Repeat,
                all_levels: false,
                comparison: Comparison::Off,
            },
            SamplerType::Shadow => SamplerInfo {
                filter: Filter::Linear,
                address: AddressMode::ClampToEdge,
                all_levels: false,
                comparison: Comparison::LessOrEqual,
            },
        }
    }
}

/// The device features that the table needs.
#[derive(Debug, Clone, Copy, PartialEq, Eq, Structural)]
pub struct BindlessFeatures {
    pub descriptor_indexing: bool,
    pub runtime_descriptor_array: bool,
    pub partially_bound: bool,
    pub sampled_image_update_after_bind: bool,
    pub variable_descriptor_count: bool,
    pub sampled_image_non_uniform_indexing: bool,
}

/// The device features that the table needs: all of them.
pub fn required_features() -> (r: BindlessFeatures)
    ensures
        r == (BindlessFeatures {
            descriptor_indexing: true,
            runtime_descriptor_array: true,
            partially_bound: true,
            sampled_image_update_after_bind: true,
            variable_descriptor_count: true,
            sampled_image_non_uniform_indexing: true,
        }),
{
    BindlessFeatures {
        descriptor_indexing: true,
        runtime_descriptor_array: true,
        partially_bound: true,
        sampled_image_update_after_bind: true,
        variable_descriptor_count: true,
        sampled_image_non_uniform_indexing: true,
    }
}

/// Binding number of the samplers.
pub const BINDING_SAMPLERS: u32 = 0;

/// Binding number of the textures, which must be the highest because its length varies.
pub const BINDING_SRV: u32 = 1;

/// What a binding of the table holds.
#[derive(Debug, Clone, Copy, PartialEq, Eq, Structural)]
pub enum TableEntry {
    Samplers,
    Textures,
}

/// The shaders that see a binding of the table.
#[derive(Debug, Clone, Copy, PartialEq, Eq, Structural)]
pub struct TableStages {
    pub vertex: bool,
    pub fragment: bool,
    pub compute: bool,
}

/// One binding of the table's layout.
#[derive(Debug, Clone, Copy, PartialEq, Eq, Structural)]
pub struct TableBinding {
    pub binding: u32,
    pub entry: TableEntry,
    pub count: u32,
    pub stages: TableStages,
    /// Partially bound, updated after binding, and of variable length.
    pub bindless: bool,
}

/// The bindings of a table for `capacity` textures, in ascending order.
pub open spec fn bindings_for(capacity: u32) -> Seq<TableBinding> {
    seq![
        TableBinding {
            binding: BINDING_SAMPLERS,
            entry: TableEntry::Samplers,
            count: SamplerType::COUNT,
            stages: TableStages { vertex: true, fragment: true, compute: true },
            bindless: false,
        },
        TableBinding {
            binding: BINDING_SRV,
            entry: TableEntry::Textures,
            count: capacity,
            stages: TableStages { vertex: true, fragment: true, compute: true },
            bindless: true,
        },
    ]
}

/// The bindings of a table for `capacity` textures, in ascending order.
pub fn table_bindings(capacity: u32) -> (r: [TableBinding; 2])
    ensures
        r@ == bindings_for(capacity),
{
    let list: [TableBinding; 2] = [
        TableBinding {
            binding: BINDING_SAMPLERS,
            entry: TableEntry::Samplers,
            count: SamplerType::COUNT,
            stages: TableStages { vertex: true, fragment: true, compute: true },
            bindless: false,
        },
        TableBinding {
            binding: BINDING_SRV,
            entry: TableEntry::Textures,
            count: capacity,
            stages: TableStages { vertex: true, fragment: true, compute: true },
            bindless: true,
        },
    ];
    assert(list@ =~= seq![list@[0], list@[1]]);
    list
}

/// How many descriptors the pool of a table holds.
#[derive(Debug, Clone, Copy, PartialEq, Eq, Structural)]
pub struct TablePool {
    pub max_sets: u32,
    pub textures: u32,
    pub samplers: u32,
}

/// The pool of a table for `capacity` textures. Its set is updated after it was bound.
pub fn table_pool(capacity: u32) -> (r: TablePool)
    ensures
        r == (TablePool { max_sets: 1, textures: capacity, samplers: SamplerType::COUNT }),
{
    TablePool { max_sets: 1, textures: capacity, samplers: SamplerType::COUNT }
}

/// One step of creating a table.
#[derive(Debug, Clone, Copy, PartialEq, Eq, Structural)]
pub enum TableStep {
    CreateSampler(SamplerType),
    /// Create the set layout, for a pool whose sets are updated after they were bound.
    CreateLayout,
    CreatePool(TablePool),
    /// Allocate the set, with room for so many textures.
    AllocateSet { textures: u32 },
    /// Write the samplers, from the first one on.
    WriteSamplers { binding: u32, count: u32 },
}

/// All steps that create a table.
pub open spec fn table_creation(capacity: u32) -> Seq<TableStep> {
    seq![
        TableStep::CreateSampler(SamplerType::LinearWrap),
        TableStep::CreateSampler(SamplerType::LinearClamp),
        TableStep::CreateSampler(SamplerType::Nearest),
        TableStep::CreateSampler(SamplerType::Shadow),
        TableStep::CreateLayout,
        TableStep::CreatePool(
            TablePool { max_sets: 1, textures: capacity, samplers: SamplerType::COUNT },
        ),
        TableStep::AllocateSet { textures: capacity },
        TableStep::WriteSamplers { binding: BINDING_SAMPLERS, count: SamplerType::COUNT },
    ]
}

/// The steps that create a table for `capacity` textures.
pub fn plan_creation(capacity: u32) -> (r: Vec<TableStep>)
    ensures
        r@ == table_creation(capacity),
{
    let all = all_samplers();
    let mut steps: Vec<TableStep> = Vec::new();
    let mut i: usize = 0;
    while i < 4
        invariant
            i <= 4,
            all@.len() == 4,
            forall|k: int| 0 <= k < 4 ==> (#[trigger] all@[k]).spec_index() == k,
            steps@ == Seq::new(i as nat, |k: int| TableStep::CreateSampler(all@[k])),
        decreases 4 - i,
    {
        steps.push(TableStep::CreateSampler(all[i]));
        i = i + 1;
        assert(steps@ =~= Seq::new(i as nat, |k: int| TableStep::CreateSampler(all@[k])));
    }
    assert(all@[0].spec_index() == 0);
    assert(all@[1].spec_index() == 1);
    assert(all@[2].spec_index() == 2);
    assert(all@[3].spec_index() == 3);
    steps.push(TableStep::CreateLayout);
    steps.push(TableStep::CreatePool(table_pool(capacity)));
    steps.push(TableStep::AllocateSet { textures: capacity });
    steps.push(TableStep::WriteSamplers { binding: BINDING_SAMPLERS, count: SamplerType::COUNT });
    assert(steps@ =~= table_creation(capacity));
    steps
}

/// The samplers of a table, in array order: entry `i` is the sampler of place `i`.
pub fn all_samplers() -> (r: [SamplerType; 4])
    ensures
        forall|i: int| 0 <= i < 4 ==> (#[trigger] r@[i]).spec_index() == i,
{
    [
        SamplerType::LinearWrap,
        SamplerType::LinearClamp,
        SamplerType::Nearest,
        SamplerType::Shadow,
    ]
}

/// A write of one texture into the table.
#[derive(Debug, Clone, Copy, PartialEq, Eq, Structural)]
pub struct SrvWrite {
    pub set: u64,
    pub binding: u32,
    pub slot: u32,
    pub view: u64,
    pub layout: ImageLayout,
}

/// The write that puts `view` into `slot` of a table.
pub open spec fn srv_write(set: u64, slot: u32, view: u64) -> SrvWrite {
    SrvWrite { set, binding: BINDING_SRV, slot, view, layout: ImageLayout::ShaderReadOnly }
}

/// Why a texture cannot be registered.
#[derive(Debug, Clone, Copy, PartialEq, Eq, Structural)]
pub enum TableError {
    /// All slots are taken.
    Full { next: u32, capacity: u32 },
    /// There is no such slot.
    SlotOutOfRange { slot: u32, capacity: u32 },
}

/// The device objects of a table.
#[derive(Debug, Clone, Copy, PartialEq, Eq, Structural)]
pub struct TableObjects {
    pub layout: u64,
    pub pool: u64,
    pub set: u64,
}

/// The device objects of the table, which of its slots are in use, and its samplers.
pub struct BindlessTextureTable {
    objects: TableObjects,
    capacity: u32,
    next: u32,
    samplers: [u64; 4],
}

/// What is destroyed with the samplers from the given one on: those that were created.
pub open spec fn samplers_release(samplers: Seq<u64>, from: int) -> Seq<Release>
    decreases samplers.len() - from,
{
    if from < 0 || from >= samplers.len() {
        Seq::empty()
    } else {
        (if samplers[from] != 0 {
            seq![Release::Sampler(samplers[from])]
        } else {
            Seq::empty()
        }) + samplers_release(samplers, from + 1)
    }
}

impl BindlessTextureTable {
    pub closed spec fn parts(&self) -> TableObjects {
        self.objects
    }

    pub closed spec fn slots(&self) -> u32 {
        self.capacity
    }

    /// The next slot to hand out: all slots below it count as used.
    pub closed spec fn next_slot(&self) -> u32 {
        self.next
    }

    pub closed spec fn sampler_handles(&self) -> Seq<u64> {
        self.samplers@
    }

    pub open spec fn wf(&self) -> bool {
        self.next_slot() <= self.slots()
    }

    /// A table for `capacity` textures, none of them registered.
    pub fn new(objects: TableObjects, capacity: u32, samplers: [u64; 4]) -> (r: Self)
        ensures
            r.wf(),
            r.parts() == objects,
            r.slots() == capacity,
            r.next_slot() == 0,
            r.sampler_handles() == samplers@,
    {
        BindlessTextureTable { objects, capacity, next: 0, samplers }
    }

    /// Puts a texture into the next slot.
    pub fn register(&mut self, view: u64) -> (r: Result<(TextureHandle, SrvWrite), TableError>)
        requires
            old(self).wf(),
        ensures
            final(self).wf(),
            final(self).slots() == old(self).slots(),
            final(self).sampler_handles() == old(self).sampler_handles(),
            final(self).parts() == old(self).parts(),
            if old(self).next_slot() < old(self).slots() {
                &&& r == Ok::<(TextureHandle, SrvWrite), TableError>(
                    (
                        TextureHandle(old(self).next_slot()),
                        srv_write(old(self).parts().set, old(self).next_slot(), view),
                    ),
                )
                &&& final(self).next_slot() == old(self).next_slot() + 1
            } else {
                &&& r == Err::<(TextureHandle, SrvWrite), TableError>(
                    TableError::Full {
                        next: old(self).next_slot(),
                        capacity: old(self).slots(),
                    },
                )
                &&& final(self).next_slot() == old(self).next_slot()
            },
    {
        if self.next >= self.capacity {
            return Err(TableError::Full { next: self.next, capacity: self.capacity });
        }
        let slot: u32 = self.next;
        self.next = self.next + 1;
        Ok((TextureHandle(slot), self.write_srv(slot, view)))
    }

    /// Puts a texture into a given slot, as the fallback texture into slot 0. Slots up to
    /// it then count as used.
    pub fn register_with_handle(&mut self, slot: u32, view: u64) -> (r: Result<
        (TextureHandle, SrvWrite),
        TableError,
    >)
        requires
            old(self).wf(),
        ensures
            final(self).wf(),
            final(self).slots() == old(self).slots(),
            final(self).sampler_handles() == old(self).sampler_handles(),
            final(self).parts() == old(self).parts(),
            if slot < old(self).slots() {
                &&& r == Ok::<(TextureHandle, SrvWrite), TableError>(
                    (TextureHandle(slot), srv_write(old(self).parts().set, slot, view)),
                )
                &&& final(self).next_slot() == (if slot >= old(self).next_slot() {
                    (slot + 1) as u32
                } else {
                    old(self).next_slot()
                })
            } else {
                &&& r == Err::<(TextureHandle, SrvWrite), TableError>(
                    TableError::SlotOutOfRange { slot, capacity: old(self).slots() },
                )
                &&& final(self).next_slot() == old(self).next_slot()
            },
    {
        if slot >= self.capacity {
            return Err(TableError::SlotOutOfRange { slot, capacity: self.capacity });
        }
        if slot >= self.next {
            self.next = slot + 1;
        }
        Ok((TextureHandle(slot), self.write_srv(slot, view)))
    }

    /// The write that puts `view` into `slot`.
    pub fn write_srv(&self, slot: u32, view: u64) -> (r: SrvWrite)
        ensures
            r == srv_write(self.parts().set, slot, view),
    {
        SrvWrite {
            set: self.objects.set,
            binding: BINDING_SRV,
            slot,
            view,
            layout: ImageLayout::ShaderReadOnly,
        }
    }

    /// Whether `slot` counts as used.
    pub fn is_slot_used(&self, slot: u32) -> (r: bool)
        ensures
            r == (slot < self.next_slot()),
    {
        slot < self.next
    }

    /// The sampler of a type.
    pub fn sampler(&self, ty: SamplerType) -> (r: u64)
        ensures
            r == self.sampler_handles()[ty.spec_index() as int],
    {
        self.samplers[ty.index() as usize]
    }

    /// Number of slots that count as used.
    pub fn len(&self) -> (r: u32)
        ensures
            r == self.next_slot(),
    {
        self.next
    }

    /// Whether no slot counts as used.
    pub fn is_empty(&self) -> (r: bool)
        ensures
            r == (self.next_slot() == 0),
    {
        self.next == 0
    }

    /// Number of slots.
    pub fn capacity(&self) -> (r: u32)
        ensures
            r == self.slots(),
    {
        self.capacity
    }

    /// The layout of the table's set.
    pub fn layout(&self) -> (r: u64)
        ensures
            r == self.parts().layout,
    {
        self.objects.layout
    }

    /// The table's set.
    pub fn set(&self) -> (r: u64)
        ensures
            r == self.parts().set,
    {
        self.objects.set
    }

    /// What is destroyed with the table: its samplers, then the pool with the set, then
    /// the layout.
    pub fn release(&self) -> (r: Vec<Release>)
        ensures
            r@ == samplers_release(self.sampler_handles(), 0) + seq![
                Release::Pool(self.parts().pool),
                Release::SetLayout(self.parts().layout),
            ],
    {
        let mut list: Vec<Release> = Vec::new();
        let mut i: usize = 0;
        while i < 4
            invariant
                i <= 4,
                samplers_release(self.samplers@, 0) == list@ + samplers_release(
                    self.samplers@,
                    i as int,
                ),
            decreases 4 - i,
        {
            if self.samplers[i] != 0 {
                list.push(Release::Sampler(self.samplers[i]));
            }
            i = i + 1;
            assert(samplers_release(self.samplers@, 0) =~= list@ + samplers_release(
                self.samplers@,
                i as int,
            ));
        }
        assert(list@ =~= samplers_release(self.samplers@, 0));
        list.push(Release::Pool(self.objects.pool));
        list.push(Release::SetLayout(self.objects.layout));
        assert(list@ =~= samplers_release(self.sampler_handles(), 0) + seq![
            Release::Pool(self.parts().pool),
            Release::SetLayout(self.parts().layout),
        ]);
        list
    }
}

/// The binding of variable length is the one with the highest number.
pub proof fn varying_binding_is_last(capacity: u32, i: int, j: int)
    requires
        0 <= i < bindings_for(capacity).len(),
        0 <= j < bindings_for(capacity).len(),
        bindings_for(capacity)[i].bindless,
    ensures
        bindings_for(capacity)[j].binding <= bindings_for(capacity)[i].binding,
{
}

/// The pool of a table holds exactly what its set takes.
pub proof fn pool_serves_the_table(capacity: u32, pool: TablePool, i: int)
    requires
        pool == (TablePool { max_sets: 1, textures: capacity, samplers: SamplerType::COUNT }),
        0 <= i < bindings_for(capacity).len(),
    ensures
        bindings_for(capacity)[i].count == (match bindings_for(capacity)[i].entry {
            TableEntry::Samplers => pool.samplers,
            TableEntry::Textures => pool.textures,
        }),
{
}

/// Registration goes on behind a slot that was taken by hand: whatever is registered
/// next gets a later slot, so that the texture put there is not overwritten.
pub proof fn register_goes_on_behind(before: BindlessTextureTable, slot: u32, after: BindlessTextureTable)
    requires
        before.wf(),
        slot < before.slots(),
        after.slots() == before.slots(),
        after.next_slot() == (if slot >= before.next_slot() {
            (slot + 1) as u32
        } else {
            before.next_slot()
        }),
    ensures
        after.next_slot() > slot,
        after.next_slot() >= before.next_slot(),
{
}

/// No slot of a table has the handle of a texture that is not there.
pub proof fn registered_handles_are_valid(table: BindlessTextureTable, slot: u32)
    requires
        slot < table.slots(),
    ensures
        TextureHandle(slot) != TextureHandle(u32::MAX),
{
}

/// A texture is written into its own slot of the table's set, in the layout that shaders read.
pub proof fn texture_goes_into_its_slot(set: u64, slot: u32, view: u64)
    ensures
        ({
            let w = srv_write(set, slot, view);
            &&& w.set == set
            &&& w.slot == slot
            &&& w.view == view
            &&& w.binding == BINDING_SRV
            &&& w.layout == ImageLayout::ShaderReadOnly
        }),
{
}

/// The samplers are created in the order of their places, all four of them, and written from
/// the first one on; the pool and the set have room for every texture.
pub proof fn table_is_created_for_its_capacity(capacity: u32, i: int)
    requires
        0 <= i < table_creation(capacity).len(),
    ensures
        match table_creation(capacity)[i] {
            TableStep::CreateSampler(s) => s.spec_index() == i,
            TableStep::CreatePool(pool) => pool.textures == capacity && pool.samplers == 4
                && pool.max_sets == 1,
            TableStep::AllocateSet { textures } => textures == capacity,
            TableStep::WriteSamplers { binding, count } => binding == BINDING_SAMPLERS && count == 4,
            _ => true,
        },
        forall|k: int| 0 <= k < 4 ==> (#[trigger] table_creation(capacity)[k]) is CreateSampler,
{
}

/// Every sampler that was created is destroyed, and nothing else is.
pub proof fn every_sampler_is_destroyed(samplers: Seq<u64>, from: int, k: int)
    requires
        0 <= from <= k < samplers.len(),
        samplers[k] != 0,
    ensures
        samplers_release(samplers, from).contains(Release::Sampler(samplers[k])),
    decreases samplers.len() - from,
{
    let rest = samplers_release(samplers, from + 1);
    let all = samplers_release(samplers, from);
    let head: int = if samplers[from] != 0 {
        1
    } else {
        0
    };
    if from == k {
        assert(all[0] == Release::Sampler(samplers[k]));
    } else {
        every_sampler_is_destroyed(samplers, from + 1, k);
        let j = choose|j: int| 0 <= j < rest.len() && rest[j] == Release::Sampler(samplers[k]);
        assert(all[head + j] == rest[j]);
    }
}

/// How a sampler of this type is made.
pub open spec fn sampler_info(t: SamplerType) -> SamplerInfo {
    SamplerInfo {
        filter: if t == SamplerType::Nearest {
            Filter::Nearest
        } else {
            Filter::Linear
        },
        address: if t == SamplerType::LinearWrap || t == SamplerType::Nearest {
            AddressMode::Repeat
        } else {
            AddressMode::ClampToEdge
        },
        all_levels: t == SamplerType::LinearWrap || t == SamplerType::LinearClamp,
        comparison: if t == SamplerType::Shadow {
            Comparison::LessOrEqual
        } else {
            Comparison::Off
        },
    }
}

/// A sampler does what its type says: the shadow sampler alone compares, the nearest one
/// alone takes single texels, the wrapping and the nearest one repeat, and the two linear
/// ones use all mip levels.
pub proof fn sampler_does_what_its_type_says(t: SamplerType)
    ensures
        sampler_info(t).comparison == Comparison::LessOrEqual <==> t is Shadow,
        sampler_info(t).comparison == Comparison::Off <==> !(t is Shadow),
        sampler_info(t).filter == Filter::Nearest <==> t is Nearest,
        sampler_info(t).address == AddressMode::ClampToEdge <==> t is LinearClamp || t is Shadow,
        sampler_info(t).all_levels <==> t is LinearWrap || t is LinearClamp,
{
}

} // verus!
