//! Descriptor set layouts, the pools that sets are taken from, and the writes that
//! fill them.

use vstd::prelude::*;

use crate::buffer::{BufferSpec, HOST_MEMORY, USAGE_UNIFORM_BUFFER};
use crate::gpu::{ImageLayout, Release};

verus! {

/// Point lights that the forward pass can hold.
pub const LIGHT_MAX: u32 = 8;

/// Analytic lights that the path tracer can hold.
pub const PT_LIGHT_MAX: u32 = 64;

/// Emissive triangles that the path tracer can hold.
pub const PT_EMISSIVE_MAX: u32 = 1024;

/// Size in bytes of the per-frame uniform data.
pub const FRAME_UBO_SIZE: u64 = 272;

/// Kinds of analytic light, in the order of their numbers on the device.
#[derive(Clone, Copy, Debug, PartialEq, Eq, Structural)]
pub enum PtLightKind {
    Directional,
    Point,
    Spot,
    Area,
}

impl PtLightKind {
    /// The number of this kind on the device.
    pub fn index(self) -> (r: u32)
        ensures
            r == (match self {
                PtLightKind::Directional => 0u32,
                PtLightKind::Point => 1,
                PtLightKind::Spot => 2,
                PtLightKind::Area => 3,
            }),
    {
        match self {
            PtLightKind::Directional => 0,
            PtLightKind::Point => 1,
            PtLightKind::Spot => 2,
            PtLightKind::Area => 3,
        }
    }
}

/// What a binding holds.
#[derive(Clone, Copy, Debug, PartialEq, Eq, Structural)]
pub enum DescriptorKind {
    UniformBuffer,
    StorageBuffer,
    SampledImage,
    Sampler,
    CombinedImageSampler,
}

/// The shader stages that see a binding.
#[derive(Clone, Copy, Debug, PartialEq, Eq, Structural)]
pub struct ShaderStages {
    pub vertex: bool,
    pub fragment: bool,
}

/// One binding of a set layout.
#[derive(Clone, Copy, Debug, PartialEq, Eq, Structural)]
pub struct LayoutBinding {
    pub binding: u32,
    pub kind: DescriptorKind,
    pub count: u32,
    pub stages: ShaderStages,
}

/// How many descriptors of one kind a pool holds.
#[derive(Clone, Copy, Debug, PartialEq, Eq, Structural)]
pub struct PoolSize {
    pub kind: DescriptorKind,
    pub count: u32,
}

/// How much of a buffer a descriptor covers.
#[derive(Clone, Copy, Debug, PartialEq, Eq, Structural)]
pub enum BufferRange {
    Whole,
    Bytes(u64),
}

/// What a descriptor is pointed at.
#[derive(Clone, Copy, Debug, PartialEq, Eq, Structural)]
pub enum DescriptorSource {
    /// A buffer from its start.
    Buffer { buffer: u64, range: BufferRange },
    /// An image view in the layout that shaders find it in.
    Image { view: u64, layout: ImageLayout },
    /// A sampler.
    Sampler { sampler: u64 },
    /// An image view together with a sampler.
    SampledImage { view: u64, sampler: u64, layout: ImageLayout },
}

/// One descriptor write.
#[derive(Clone, Copy, Debug, PartialEq, Eq, Structural)]
pub struct DescriptorWrite {
    pub set: u64,
    pub binding: u32,
    pub kind: DescriptorKind,
    pub source: DescriptorSource,
}

pub open spec fn vertex_and_fragment() -> ShaderStages {
    ShaderStages { vertex: true, fragment: true }
}

pub open spec fn fragment_only() -> ShaderStages {
    ShaderStages { vertex: false, fragment: true }
}

/// A binding of one descriptor.
pub open spec fn one(binding: u32, kind: DescriptorKind, stages: ShaderStages) -> LayoutBinding {
    LayoutBinding { binding, kind, count: 1, stages }
}

/// How many descriptors of `kind` one set with these bindings takes.
pub open spec fn demand(bindings: Seq<LayoutBinding>, kind: DescriptorKind) -> int
    decreases bindings.len(),
{
    if bindings.len() == 0 {
        0
    } else {
        demand(bindings.drop_last(), kind) + if bindings.last().kind == kind {
            bindings.last().count as int
        } else {
            0
        }
    }
}

/// How many descriptors of `kind` a pool with these sizes holds.
pub open spec fn supply(sizes: Seq<PoolSize>, kind: DescriptorKind) -> int
    decreases sizes.len(),
{
    if sizes.len() == 0 {
        0
    } else {
        supply(sizes.drop_last(), kind) + if sizes.last().kind == kind {
            sizes.last().count as int
        } else {
            0
        }
    }
}

/// A descriptor set layout.
pub struct DescriptorLayout {
    pub bindings: Vec<LayoutBinding>,
}

/// A descriptor pool.
pub struct DescriptorPool {
    pub max_sets: u32,
    pub sizes: Vec<PoolSize>,
}

impl DescriptorPool {
    /// The pool holds exactly what `max_sets` sets of this layout take.
    pub open spec fn serves(&self, layout: &DescriptorLayout) -> bool {
        forall|kind: DescriptorKind| #[trigger]
            supply(self.sizes@, kind) == self.max_sets * demand(layout.bindings@, kind)
    }
}

/// A binding of one descriptor.
pub fn single(binding: u32, kind: DescriptorKind, vertex: bool) -> (r: LayoutBinding)
    ensures
        r == one(
            binding,
            kind,
            if vertex {
                vertex_and_fragment()
            } else {
                fragment_only()
            },
        ),
{
    LayoutBinding { binding, kind, count: 1, stages: ShaderStages { vertex, fragment: true } }
}

impl DescriptorLayout {
    /// The frame layout: the frame's uniform buffer, for vertex and fragment shaders.
    pub fn new() -> (r: Self)
        ensures
            r.bindings@ == seq![one(0, DescriptorKind::UniformBuffer, vertex_and_fragment())],
    {
        let mut bindings: Vec<LayoutBinding> = Vec::new();
        bindings.push(single(0, DescriptorKind::UniformBuffer, true));
        DescriptorLayout { bindings }
    }

    /// The combined layout: the frame's uniform buffer and the materials.
    pub fn new_combined() -> (r: Self)
        ensures
            r.bindings@ == seq![
                one(0, DescriptorKind::UniformBuffer, vertex_and_fragment()),
                one(1, DescriptorKind::StorageBuffer, fragment_only()),
            ],
    {
        let mut bindings: Vec<LayoutBinding> = Vec::new();
        bindings.push(single(0, DescriptorKind::UniformBuffer, true));
        bindings.push(single(1, DescriptorKind::StorageBuffer, false));
        DescriptorLayout { bindings }
    }
}

impl DescriptorPool {
    /// A pool for one frame set per frame in flight.
    pub fn new(max_frames: u32) -> (r: Self)
        ensures
            r.max_sets == max_frames,
            r.sizes@ == seq![PoolSize { kind: DescriptorKind::UniformBuffer, count: max_frames }],
    {
        let mut sizes: Vec<PoolSize> = Vec::new();
        sizes.push(PoolSize { kind: DescriptorKind::UniformBuffer, count: max_frames });
        DescriptorPool { max_sets: max_frames, sizes }
    }

    /// A pool for one combined set per frame in flight.
    pub fn new_combined(max_frames: u32) -> (r: Self)
        ensures
            r.max_sets == max_frames,
            r.sizes@ == seq![
                PoolSize { kind: DescriptorKind::UniformBuffer, count: max_frames },
                PoolSize { kind: DescriptorKind::StorageBuffer, count: max_frames },
            ],
    {
        let mut sizes: Vec<PoolSize> = Vec::new();
        sizes.push(PoolSize { kind: DescriptorKind::UniformBuffer, count: max_frames });
        sizes.push(PoolSize { kind: DescriptorKind::StorageBuffer, count: max_frames });
        DescriptorPool { max_sets: max_frames, sizes }
    }
}

/// The layouts with which `count` sets of one layout are allocated.
pub fn allocation_layouts(layout: u64, count: u32) -> (r: Vec<u64>)
    ensures
        r@ == Seq::new(count as nat, |i: int| layout),
{
    let mut layouts: Vec<u64> = Vec::new();
    let mut i: u32 = 0;
    while i < count
        invariant
            i <= count,
            layouts@ == Seq::new(i as nat, |k: int| layout),
        decreases count - i,
    {
        layouts.push(layout);
        assert(layouts@ =~= Seq::new((i + 1) as nat, |k: int| layout));
        i = i + 1;
    }
    layouts
}

/// The write that points a frame set at its uniform buffer.
pub open spec fn frame_write(set: u64, buffer: u64) -> DescriptorWrite {
    DescriptorWrite {
        set,
        binding: 0,
        kind: DescriptorKind::UniformBuffer,
        source: DescriptorSource::Buffer { buffer, range: BufferRange::Bytes(FRAME_UBO_SIZE) },
    }
}

/// The uniform buffer of a frame, and the set that is pointed at it.
#[derive(Clone, Copy, Debug, PartialEq, Eq, Structural)]
pub struct FrameUBO {
    pub buffer: u64,
    pub memory: u64,
    pub size: u64,
    pub descriptor_set: u64,
}

/// Words to copy to the beginning of host-visible memory.
pub struct MemoryFill {
    pub memory: u64,
    pub size: u64,
    pub words: Vec<u32>,
}

impl FrameUBO {
    /// The host-visible buffer that a frame's uniforms are read from.
    pub fn buffer_spec() -> (r: BufferSpec)
        ensures
            r == (BufferSpec {
                size: FRAME_UBO_SIZE,
                usage: USAGE_UNIFORM_BUFFER,
                memory: HOST_MEMORY,
            }),
    {
        BufferSpec { size: FRAME_UBO_SIZE, usage: USAGE_UNIFORM_BUFFER, memory: HOST_MEMORY }
    }

    /// The uniform buffer over a fresh buffer, and the write that points the set at it.
    pub fn new(buffer: u64, memory: u64, descriptor_set: u64) -> (r: (Self, DescriptorWrite))
        ensures
            r.0 == (FrameUBO { buffer, memory, size: FRAME_UBO_SIZE, descriptor_set }),
            r.1 == frame_write(descriptor_set, buffer),
    {
        let write = DescriptorWrite {
            set: descriptor_set,
            binding: 0,
            kind: DescriptorKind::UniformBuffer,
            source: DescriptorSource::Buffer { buffer, range: BufferRange::Bytes(FRAME_UBO_SIZE) },
        };
        (FrameUBO { buffer, memory, size: FRAME_UBO_SIZE, descriptor_set }, write)
    }

    /// What is copied to the device for a frame.
    pub fn update(&self, data: &FrameUBOData) -> (r: MemoryFill)
        ensures
            r.memory == self.memory,
            r.size == self.size,
            r.words@ == data.laid_out(),
            r.words@.len() * 4 == FRAME_UBO_SIZE,
    {
        MemoryFill { memory: self.memory, size: self.size, words: data.words() }
    }

    /// What is destroyed with the uniform buffer.
    pub fn release(&self) -> (r: [Release; 2])
        ensures
            r@ == seq![Release::Buffer(self.buffer), Release::Memory(self.memory)],
    {
        let list: [Release; 2] = [Release::Buffer(self.buffer), Release::Memory(self.memory)];
        assert(list@ =~= seq![list@[0], list@[1]]);
        list
    }
}

// ---------------------------------------------------------------------------
// Laws
// ---------------------------------------------------------------------------

pub proof fn lemma_demand_push(bindings: Seq<LayoutBinding>, b: LayoutBinding, kind: DescriptorKind)
    ensures
        demand(bindings.push(b), kind) == demand(bindings, kind) + if b.kind == kind {
            b.count as int
        } else {
            0
        },
{
    assert(bindings.push(b).drop_last() =~= bindings);
}

pub proof fn lemma_supply_push(sizes: Seq<PoolSize>, s: PoolSize, kind: DescriptorKind)
    ensures
        supply(sizes.push(s), kind) == supply(sizes, kind) + if s.kind == kind {
            s.count as int
        } else {
            0
        },
{
    assert(sizes.push(s).drop_last() =~= sizes);
}

/// A frame pool holds exactly what its frame sets take.
pub proof fn frame_pool_serves_frame_layout(pool: DescriptorPool, layout: DescriptorLayout)
    requires
        layout.bindings@ == seq![one(0, DescriptorKind::UniformBuffer, vertex_and_fragment())],
        pool.sizes@ == seq![
            PoolSize { kind: DescriptorKind::UniformBuffer, count: pool.max_sets },
        ],
    ensures
        pool.serves(&layout),
{
    assert forall|kind: DescriptorKind| #[trigger]
        supply(pool.sizes@, kind) == pool.max_sets * demand(layout.bindings@, kind) by {
        lemma_supply_push(Seq::empty(), pool.sizes@[0], kind);
        lemma_demand_push(Seq::empty(), layout.bindings@[0], kind);
        assert(pool.sizes@ =~= Seq::empty().push(pool.sizes@[0]));
        assert(layout.bindings@ =~= Seq::empty().push(layout.bindings@[0]));
        lemma_unit_product(pool.max_sets);
    }
}

/// A combined pool holds exactly what its combined sets take.
pub proof fn combined_pool_serves_combined_layout(pool: DescriptorPool, layout: DescriptorLayout)
    requires
        layout.bindings@ == seq![
            one(0, DescriptorKind::UniformBuffer, vertex_and_fragment()),
            one(1, DescriptorKind::StorageBuffer, fragment_only()),
        ],
        pool.sizes@ == seq![
            PoolSize { kind: DescriptorKind::UniformBuffer, count: pool.max_sets },
            PoolSize { kind: DescriptorKind::StorageBuffer, count: pool.max_sets },
        ],
    ensures
        pool.serves(&layout),
{
    assert forall|kind: DescriptorKind| #[trigger]
        supply(pool.sizes@, kind) == pool.max_sets * demand(layout.bindings@, kind) by {
        let first = Seq::empty().push(pool.sizes@[0]);
        let bound = Seq::empty().push(layout.bindings@[0]);
        lemma_supply_push(Seq::empty(), pool.sizes@[0], kind);
        lemma_supply_push(first, pool.sizes@[1], kind);
        lemma_demand_push(Seq::empty(), layout.bindings@[0], kind);
        lemma_demand_push(bound, layout.bindings@[1], kind);
        assert(pool.sizes@ =~= first.push(pool.sizes@[1]));
        assert(layout.bindings@ =~= bound.push(layout.bindings@[1]));
        lemma_unit_product(pool.max_sets);
    }
}

pub proof fn lemma_unit_product(n: u32)
    ensures
        n * 0 == 0,
        n * 1 == n,
        n * 2 == n + n,
{
}

// ---------------------------------------------------------------------------
// Data for shaders
// ---------------------------------------------------------------------------
//
// Numbers are bit patterns of single-precision numbers. Data is laid out in words of
// four bytes, one behind the other.

/// Bit pattern of 1.
pub const ONE_BITS: u32 = 0x3f80_0000;

/// Bit pattern of -1.
pub const MINUS_ONE_BITS: u32 = 0xbf80_0000;

/// Words of a light.
pub const LIGHT_WORDS: usize = 8;

/// Words of the frame's uniform buffer.
pub const FRAME_UBO_WORDS: usize = 68;

/// A point light.
#[derive(Clone, Copy, Debug)]
pub struct GpuLight {
    /// Position, and the range over which the light fades.
    pub position: [u32; 4],
    /// Radiant intensity.
    pub color: [u32; 4],
}

/// An analytic light of the path tracer. What its numbers mean depends on its kind.
#[derive(Clone, Copy, Debug)]
pub struct PtAnalyticLight {
    /// Position, and the kind as a number.
    pub position_kind: [u32; 4],
    pub direction_params: [u32; 4],
    pub color_params: [u32; 4],
}

/// What the path tracer remembers of a pixel to sample lights again.
#[derive(Clone, Copy, Debug, PartialEq, Eq, Structural)]
pub struct ReSTIRReservoir {
    /// 0 is the sun, and the analytic lights follow.
    pub light_idx: u32,
    /// How many samples it stands for.
    pub m: u32,
    /// The sum of their weights.
    pub w: u32,
    /// How likely the chosen light was meant to be.
    pub target_pdf: u32,
}

impl Default for ReSTIRReservoir {
    fn default() -> (r: Self)
        ensures
            r == (ReSTIRReservoir { light_idx: 0, m: 0, w: 0, target_pdf: 0 }),
    {
        ReSTIRReservoir { light_idx: 0, m: 0, w: 0, target_pdf: 0 }
    }
}

/// A triangle that emits light.
#[derive(Clone, Copy, Debug)]
pub struct PtEmissiveTri {
    pub v0: [u32; 4],
    pub v1: [u32; 4],
    pub v2: [u32; 4],
    pub normal: [u32; 4],
    pub radiance: [u32; 4],
    pub area: u32,
}

/// What every shader of a frame sees.
#[derive(Clone, Copy, Debug)]
pub struct FrameUBOData {
    pub view_proj: [[u32; 4]; 4],
    /// Position, and the number of lights.
    pub camera_position: [u32; 4],
    /// Direction, and the radiance of the sun.
    pub light_direction: [u32; 4],
    /// Color, and the ambient factor.
    pub light_color: [u32; 4],
    pub view: [[u32; 4]; 4],
    pub light_view_proj: [[u32; 4]; 4],
    /// Which tone mapping is applied.
    pub tonemap_mode: u32,
    pub viewport_size: [u32; 2],
    pub exposure: u32,
}

impl GpuLight {
    /// The words of the light.
    pub open spec fn laid_out(&self) -> Seq<u32> {
        self.position@ + self.color@
    }
}

impl PtAnalyticLight {
    /// A light from far away.
    pub open spec fn is_directional(&self, dir: [u32; 3], radiance: [u32; 3]) -> bool {
        &&& self.position_kind@ == seq![0u32, 0u32, 0u32, 0u32]
        &&& self.direction_params@ == seq![dir@[0], dir@[1], dir@[2], ONE_BITS]
        &&& self.color_params@ == seq![radiance@[0], radiance@[1], radiance@[2], MINUS_ONE_BITS]
    }

    /// A light in one place.
    pub open spec fn is_point(&self, pos: [u32; 3], color: [u32; 3], range: u32) -> bool {
        &&& self.position_kind@ == seq![pos@[0], pos@[1], pos@[2], ONE_BITS]
        &&& self.direction_params@ == seq![0u32, 0u32, 0u32, 0u32]
        &&& self.color_params@ == seq![color@[0], color@[1], color@[2], range]
    }

    /// A light from far away, in one direction.
    pub fn directional(dir: [u32; 3], radiance: [u32; 3]) -> (r: Self)
        ensures
            r.is_directional(dir, radiance),
    {
        let r = PtAnalyticLight {
            position_kind: [0, 0, 0, 0],
            direction_params: [dir[0], dir[1], dir[2], ONE_BITS],
            color_params: [radiance[0], radiance[1], radiance[2], MINUS_ONE_BITS],
        };
        assert(r.position_kind@ =~= seq![0u32, 0u32, 0u32, 0u32]);
        assert(r.direction_params@ =~= seq![dir@[0], dir@[1], dir@[2], ONE_BITS]);
        assert(r.color_params@ =~= seq![
            radiance@[0],
            radiance@[1],
            radiance@[2],
            MINUS_ONE_BITS,
        ]);
        r
    }

    /// A light in one place.
    pub fn point(pos: [u32; 3], color: [u32; 3], range: u32) -> (r: Self)
        ensures
            r.is_point(pos, color, range),
    {
        let r = PtAnalyticLight {
            position_kind: [pos[0], pos[1], pos[2], ONE_BITS],
            direction_params: [0, 0, 0, 0],
            color_params: [color[0], color[1], color[2], range],
        };
        assert(r.position_kind@ =~= seq![pos@[0], pos@[1], pos@[2], ONE_BITS]);
        assert(r.direction_params@ =~= seq![0u32, 0u32, 0u32, 0u32]);
        assert(r.color_params@ =~= seq![color@[0], color@[1], color@[2], range]);
        r
    }
}

fn push_vector(list: &mut Vec<u32>, v: &[u32; 4])
    ensures
        final(list)@ == old(list)@ + v@,
{
    list.push(v[0]);
    list.push(v[1]);
    list.push(v[2]);
    list.push(v[3]);
    assert(list@ =~= old(list)@ + v@);
}

/// The words of a matrix, column by column.
pub open spec fn matrix_words(m: [[u32; 4]; 4]) -> Seq<u32> {
    m@[0]@ + m@[1]@ + m@[2]@ + m@[3]@
}

fn push_matrix(list: &mut Vec<u32>, m: &[[u32; 4]; 4])
    ensures
        final(list)@ == old(list)@ + matrix_words(*m),
{
    push_vector(list, &m[0]);
    push_vector(list, &m[1]);
    push_vector(list, &m[2]);
    push_vector(list, &m[3]);
    assert(list@ =~= old(list)@ + matrix_words(*m));
}

impl FrameUBOData {
    /// The words of the uniform buffer. It is padded to a multiple of four words.
    pub open spec fn laid_out(&self) -> Seq<u32> {
        matrix_words(self.view_proj) + self.camera_position@ + self.light_direction@
            + self.light_color@ + matrix_words(self.view) + matrix_words(self.light_view_proj)
            + seq![
            self.tonemap_mode,
            self.viewport_size@[0],
            self.viewport_size@[1],
            self.exposure,
            0u32,
            0u32,
            0u32,
            0u32,
        ]
    }

    /// The words of the uniform buffer.
    pub fn words(&self) -> (r: Vec<u32>)
        ensures
            r@ == self.laid_out(),
            r@.len() == FRAME_UBO_WORDS,
            r@.len() * 4 == FRAME_UBO_SIZE,
    {
        let mut list: Vec<u32> = Vec::new();
        push_matrix(&mut list, &self.view_proj);
        push_vector(&mut list, &self.camera_position);
        push_vector(&mut list, &self.light_direction);
        push_vector(&mut list, &self.light_color);
        push_matrix(&mut list, &self.view);
        push_matrix(&mut list, &self.light_view_proj);
        list.push(self.tonemap_mode);
        list.push(self.viewport_size[0]);
        list.push(self.viewport_size[1]);
        list.push(self.exposure);
        list.push(0);
        list.push(0);
        list.push(0);
        list.push(0);
        assert(list@ =~= self.laid_out());
        list
    }
}

/// The words from byte `from` to byte `to`.
pub open spec fn between(words: Seq<u32>, from: int, to: int) -> Seq<u32> {
    words.subrange(from / 4, to / 4)
}

/// Each part of the uniform buffer stands where shaders look for it; the places are in
/// bytes.
pub proof fn frame_parts_are_in_place(d: FrameUBOData)
    ensures
        ({
            let w = d.laid_out();
            &&& between(w, 0, 64) == matrix_words(d.view_proj)
            &&& between(w, 64, 80) == d.camera_position@
            &&& between(w, 80, 96) == d.light_direction@
            &&& between(w, 96, 112) == d.light_color@
            &&& between(w, 112, 176) == matrix_words(d.view)
            &&& between(w, 176, 240) == matrix_words(d.light_view_proj)
            &&& between(w, 240, 244) == seq![d.tonemap_mode]
            &&& between(w, 244, 252) == d.viewport_size@
            &&& between(w, 252, 256) == seq![d.exposure]
        }),
{
    let w = d.laid_out();
    assert(w.subrange(0, 16) =~= matrix_words(d.view_proj));
    assert(w.subrange(16, 20) =~= d.camera_position@);
    assert(w.subrange(20, 24) =~= d.light_direction@);
    assert(w.subrange(24, 28) =~= d.light_color@);
    assert(w.subrange(28, 44) =~= matrix_words(d.view));
    assert(w.subrange(44, 60) =~= matrix_words(d.light_view_proj));
    assert(w.subrange(60, 61) =~= seq![d.tonemap_mode]);
    assert(w.subrange(61, 63) =~= d.viewport_size@);
    assert(w.subrange(63, 64) =~= seq![d.exposure]);
}

/// The words of the first `n` lights.
pub open spec fn lights_words(lights: Seq<GpuLight>, n: nat) -> Seq<u32>
    decreases n,
{
    if n == 0 {
        Seq::empty()
    } else {
        lights_words(lights, (n - 1) as nat) + lights[n - 1].laid_out()
    }
}

/// The words of the light buffer: the active lights, then zeros, so that no stale light
/// is left in it.
pub fn pack_lights(lights: &Vec<GpuLight>) -> (r: Vec<u32>)
    requires
        lights@.len() <= LIGHT_MAX,
    ensures
        r@ == lights_words(lights@, lights@.len()) + Seq::new(
            ((LIGHT_MAX - lights@.len()) * LIGHT_WORDS) as nat,
            |i: int| 0u32,
        ),
        r@.len() == LIGHT_MAX * LIGHT_WORDS,
{
    let mut list: Vec<u32> = Vec::new();
    let mut i: usize = 0;
    while i < lights.len()
        invariant
            i <= lights.len(),
            lights@.len() <= LIGHT_MAX,
            list@ == lights_words(lights@, i as nat),
            list@.len() == i * LIGHT_WORDS,
        decreases lights.len() - i,
    {
        push_vector(&mut list, &lights[i].position);
        push_vector(&mut list, &lights[i].color);
        i = i + 1;
        assert(list@ =~= lights_words(lights@, i as nat));
    }
    let ghost active = list@;
    let total: usize = 64;
    assert(list@ =~= active + Seq::new(0, |i: int| 0u32));
    while list.len() < total
        invariant
            total == LIGHT_MAX * LIGHT_WORDS,
            active.len() <= list@.len() <= total,
            list@ == active + Seq::new((list@.len() - active.len()) as nat, |i: int| 0u32),
        decreases total - list.len(),
    {
        list.push(0);
        assert(list@ =~= active + Seq::new((list@.len() - active.len()) as nat, |i: int| 0u32));
    }
    list
}

/// Each light is where shaders look for it: word `c` of light `i` is a word of its position
/// for the first four, and of its color for the next four.
pub proof fn light_is_in_its_place(lights: Seq<GpuLight>, n: nat, i: int, c: int)
    requires
        0 <= i < n <= lights.len(),
        0 <= c < 4,
    ensures
        lights_words(lights, n).len() == 8 * n,
        lights_words(lights, n)[8 * i + c] == lights[i].position@[c],
        lights_words(lights, n)[8 * i + 4 + c] == lights[i].color@[c],
    decreases n,
{
    lemma_lights_len(lights, (n - 1) as nat);
    if i < n - 1 {
        light_is_in_its_place(lights, (n - 1) as nat, i, c);
    }
}

pub(crate) proof fn lemma_lights_len(lights: Seq<GpuLight>, n: nat)
    requires
        n <= lights.len(),
    ensures
        lights_words(lights, n).len() == 8 * n,
    decreases n,
{
    if n > 0 {
        lemma_lights_len(lights, (n - 1) as nat);
    }
}

/// A matrix is laid out column by column.
pub proof fn matrix_is_laid_out_by_columns(m: [[u32; 4]; 4], column: int, row: int)
    requires
        0 <= column < 4,
        0 <= row < 4,
    ensures
        matrix_words(m).len() == 16,
        matrix_words(m)[4 * column + row] == m@[column]@[row],
{
}

/// A frame set is pointed at the whole of its own uniform buffer.
pub proof fn frame_set_reads_its_buffer(set: u64, buffer: u64)
    ensures
        ({
            let w = frame_write(set, buffer);
            &&& w.set == set
            &&& w.binding == 0
            &&& w.kind == DescriptorKind::UniformBuffer
            &&& w.source == (DescriptorSource::Buffer {
                buffer,
                range: BufferRange::Bytes(FRAME_UBO_SIZE),
            })
        }),
{
}

/// A light tells its kind, and keeps what it was made from: a directional one its
/// direction, its radiance and no range, a point its place, its color and its range.
pub proof fn light_keeps_what_it_is_made_from(
    far: PtAnalyticLight,
    near: PtAnalyticLight,
    dir: [u32; 3],
    radiance: [u32; 3],
    pos: [u32; 3],
    color: [u32; 3],
    range: u32,
    c: int,
)
    requires
        far.is_directional(dir, radiance),
        near.is_point(pos, color, range),
        0 <= c < 3,
    ensures
        far.position_kind@[3] != near.position_kind@[3],
        far.position_kind@[3] == 0,
        near.position_kind@[3] == ONE_BITS,
        far.direction_params@[c] == dir@[c],
        far.color_params@[c] == radiance@[c],
        far.position_kind@[c] == 0,
        far.color_params@[3] == MINUS_ONE_BITS,
        near.position_kind@[c] == pos@[c],
        near.color_params@[c] == color@[c],
        near.color_params@[3] == range,
        near.direction_params@[c] == 0,
        near.direction_params@[3] == 0,
        far.direction_params@[3] == ONE_BITS,
{
}

/// The uniform buffer is filled up with zeros behind its last part.
pub proof fn frame_padding_is_zero(d: FrameUBOData, i: int)
    requires
        64 <= i < 68,
    ensures
        d.laid_out().len() == 68,
        d.laid_out()[i] == 0,
{
}

/// What is named for both stages is seen by both, and what is named for fragments by them
/// alone.
pub proof fn stages_are_those_named()
    ensures
        vertex_and_fragment().vertex && vertex_and_fragment().fragment,
        fragment_only().fragment && !fragment_only().vertex,
{
}

} // verus!
