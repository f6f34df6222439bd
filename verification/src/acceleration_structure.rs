//! Ray-tracing acceleration structures: how bottom-level builds are batched, and how
//! the instances of a top-level build are packed.

use vstd::prelude::*;

use crate::buffer::{
    contains_bits, BufferSpec, HOST_MEMORY, MEMORY_DEVICE_LOCAL, USAGE_BUILD_INPUT,
    USAGE_SHADER_DEVICE_ADDRESS, USAGE_STORAGE_BUFFER, USAGE_STRUCTURE_STORAGE, USAGE_TRANSFER_SRC,
};
use crate::gpu::Release;

verus! {

/// How many bottom-level builds one submission holds at most, so that no single burst
/// runs into the driver's timeout.
pub const CHUNK_SIZE: usize = 64;

/// Size in bytes of one packed instance.
pub const INSTANCE_SIZE: usize = 64;

/// What one bottom-level structure is built from.
#[derive(Clone, Copy, Debug, PartialEq, Eq, Structural)]
pub struct BlasBuildParams {
    pub vertex_addr: u64,
    pub index_addr: u64,
    pub vertex_count: u32,
    pub tri_count: u32,
}

/// The triangles of one bottom-level structure.
#[derive(Clone, Copy, Debug, PartialEq, Eq, Structural)]
pub struct TriangleGeometry {
    pub vertex_addr: u64,
    pub vertex_stride: u64,
    pub max_vertex: u32,
    /// Whether vertices are fetched through 32-bit indices.
    pub indexed: bool,
    pub index_addr: u64,
}

/// What the device says a build needs.
#[derive(Clone, Copy, Debug, PartialEq, Eq, Structural)]
pub struct BuildSizes {
    pub structure_size: u64,
    pub scratch_size: u64,
}

/// Why a build is refused.
#[derive(Clone, Copy, Debug, PartialEq, Eq, Structural)]
pub enum BuildError {
    /// The device does not build acceleration structures.
    ExtensionMissing,
    /// There is not one address for each instance.
    LengthMismatch { addresses: usize, instances: usize },
}

/// Triangles of a mesh: a third of the indices, or of the vertices where there are no
/// indices.
pub open spec fn triangles(vertex_count: u32, index_count: u32) -> u32 {
    if index_count > 0 {
        index_count / 3
    } else {
        vertex_count / 3
    }
}

/// What to build from a range of a vertex buffer and a range of an index buffer.
pub fn blas_params(vertex_addr: u64, index_addr: u64, vertex_count: u32, index_count: u32) -> (r:
    BlasBuildParams)
    ensures
        r == (BlasBuildParams {
            vertex_addr,
            index_addr,
            vertex_count,
            tri_count: triangles(vertex_count, index_count),
        }),
{
    let tri_count: u32 = if index_count > 0 {
        index_count / 3
    } else {
        vertex_count / 3
    };
    BlasBuildParams { vertex_addr, index_addr, vertex_count, tri_count }
}

/// The triangles of one build. Without an index buffer they are not indexed.
pub open spec fn triangles_of(p: BlasBuildParams, vertex_stride: u64) -> TriangleGeometry {
    TriangleGeometry {
        vertex_addr: p.vertex_addr,
        vertex_stride,
        max_vertex: if p.vertex_count == 0 {
            0
        } else {
            (p.vertex_count - 1) as u32
        },
        indexed: p.index_addr != 0,
        index_addr: p.index_addr,
    }
}

/// The geometry of one build: its vertices, `vertex_stride` bytes apart, and its indices.
pub fn full_geom(p: &BlasBuildParams, vertex_stride: u64) -> (r: TriangleGeometry)
    ensures
        r == triangles_of(*p, vertex_stride),
{
    TriangleGeometry {
        vertex_addr: p.vertex_addr,
        vertex_stride,
        max_vertex: p.vertex_count.saturating_sub(1),
        indexed: p.index_addr != 0,
        index_addr: p.index_addr,
    }
}

/// Where the device fetches corner `k` of a geometry from, when `memory` holds the 32-bit
/// numbers of the device by their addresses.
pub open spec fn fetched_corner(g: TriangleGeometry, memory: spec_fn(int) -> u32, k: int) -> int {
    let vertex = if g.indexed {
        memory(g.index_addr + 4 * k) as int
    } else {
        k
    };
    g.vertex_addr + g.vertex_stride * vertex
}

/// A build fetches the corners of its mesh: through the index buffer where there is one,
/// and vertex by vertex where there is none. Every vertex of the mesh may be fetched, and
/// none behind it.
pub proof fn build_fetches_the_mesh(
    p: BlasBuildParams,
    vertex_stride: u64,
    memory: spec_fn(int) -> u32,
    k: int,
)
    ensures
        p.index_addr != 0 ==> fetched_corner(triangles_of(p, vertex_stride), memory, k)
            == p.vertex_addr + vertex_stride * memory(p.index_addr + 4 * k),
        p.index_addr == 0 ==> fetched_corner(triangles_of(p, vertex_stride), memory, k)
            == p.vertex_addr + vertex_stride * k,
        p.vertex_count > 0 ==> triangles_of(p, vertex_stride).max_vertex + 1 == p.vertex_count,
{
}

/// The triangles of a mesh use up its corners: its indices where there are any, else its
/// vertices, but for one or two that make no triangle.
pub proof fn triangles_use_up_the_corners(vertex_count: u32, index_count: u32)
    ensures
        ({
            let corners = if index_count > 0 {
                index_count
            } else {
                vertex_count
            };
            3 * triangles(vertex_count, index_count) <= corners < 3 * triangles(
                vertex_count,
                index_count,
            ) + 3
        }),
{
}

// ---------------------------------------------------------------------------
// Single builds
// ---------------------------------------------------------------------------

/// Usage of the buffer that a structure is kept in.
pub const STORAGE_USAGE: u32 = USAGE_STRUCTURE_STORAGE | USAGE_SHADER_DEVICE_ADDRESS;

/// Usage of the buffer that a build works in.
pub const SCRATCH_USAGE: u32 = USAGE_STORAGE_BUFFER | USAGE_SHADER_DEVICE_ADDRESS;

/// Usage of the buffer that holds the instances of a build.
pub const INSTANCES_USAGE: u32 = USAGE_TRANSFER_SRC | USAGE_SHADER_DEVICE_ADDRESS
    | USAGE_BUILD_INPUT;

/// The device-local buffer that a structure is kept in.
pub open spec fn storage_buffer(size: u64) -> BufferSpec {
    BufferSpec { size, usage: STORAGE_USAGE, memory: MEMORY_DEVICE_LOCAL }
}

/// The device-local buffer that a build works in.
pub open spec fn scratch_buffer(size: u64) -> BufferSpec {
    BufferSpec { size, usage: SCRATCH_USAGE, memory: MEMORY_DEVICE_LOCAL }
}

fn new_storage(size: u64) -> (r: BufferSpec)
    ensures
        r == storage_buffer(size),
{
    BufferSpec { size, usage: STORAGE_USAGE, memory: MEMORY_DEVICE_LOCAL }
}

fn new_scratch(size: u64) -> (r: BufferSpec)
    ensures
        r == scratch_buffer(size),
{
    BufferSpec { size, usage: SCRATCH_USAGE, memory: MEMORY_DEVICE_LOCAL }
}

/// Every buffer whose address a build takes can be addressed.
pub proof fn addressed_buffers_can_be_addressed(size: u64)
    ensures
        contains_bits(storage_buffer(size).usage, USAGE_SHADER_DEVICE_ADDRESS),
        contains_bits(scratch_buffer(size).usage, USAGE_SHADER_DEVICE_ADDRESS),
        contains_bits(INSTANCES_USAGE, USAGE_SHADER_DEVICE_ADDRESS),
{
    assert(STORAGE_USAGE & USAGE_SHADER_DEVICE_ADDRESS == USAGE_SHADER_DEVICE_ADDRESS)
        by (bit_vector);
    assert(SCRATCH_USAGE & USAGE_SHADER_DEVICE_ADDRESS == USAGE_SHADER_DEVICE_ADDRESS)
        by (bit_vector);
    assert(INSTANCES_USAGE & USAGE_SHADER_DEVICE_ADDRESS == USAGE_SHADER_DEVICE_ADDRESS)
        by (bit_vector);
}

/// The two levels of acceleration structures.
#[derive(Clone, Copy, Debug, PartialEq, Eq, Structural)]
pub enum StructureLevel {
    /// Built from triangles.
    Bottom,
    /// Built from instances of bottom-level structures.
    Top,
}

/// What a structure is built from.
#[derive(Clone, Copy, Debug, PartialEq, Eq, Structural)]
pub enum BuildGeometry {
    Triangles(TriangleGeometry),
    /// The packed instances at this address.
    Instances { addr: u64 },
}

/// The level of a structure that is built from this.
pub open spec fn level_of(geometry: BuildGeometry) -> StructureLevel {
    match geometry {
        BuildGeometry::Triangles(_) => StructureLevel::Bottom,
        BuildGeometry::Instances { .. } => StructureLevel::Top,
    }
}

/// One step of a build. A step that fails is the last one.
#[derive(Clone, Copy, Debug, PartialEq, Eq, Structural)]
pub enum BuildStep {
    /// Create the buffer that the structure is kept in.
    CreateStorage(BufferSpec),
    /// Create the structure over its whole storage, and ask for its address.
    CreateStructure { level: StructureLevel, size: u64 },
    /// Create the buffer that the build works in, and ask for its address.
    CreateScratch(BufferSpec),
    AllocateCommands,
    /// Begin the command buffer, which is submitted once.
    BeginCommands,
    /// Build the structure, to be traced fast, from so many triangles or instances.
    Build { geometry: BuildGeometry, primitives: u32 },
    /// Make the structure visible to later builds.
    ShowToBuilds,
    /// Make the structure visible to later builds and to compute shaders.
    ShowToBuildsAndCompute,
    EndCommands,
    CreateFence,
    Submit,
    WaitForFence,
    DestroyFence,
    FreeCommands,
    DestroyScratch,
    FreeScratch,
    DestroyInstances,
    FreeInstances,
}

/// The steps of one build, once the device has said what it needs.
pub open spec fn build_steps(geometry: BuildGeometry, needs: BuildSizes, primitives: u32) -> Seq<
    BuildStep,
> {
    let level = level_of(geometry);
    seq![
        BuildStep::CreateStorage(storage_buffer(needs.structure_size)),
        BuildStep::CreateStructure { level, size: needs.structure_size },
        BuildStep::CreateScratch(scratch_buffer(needs.scratch_size)),
        BuildStep::AllocateCommands,
        BuildStep::BeginCommands,
        BuildStep::Build { geometry, primitives },
        match level {
            StructureLevel::Bottom => BuildStep::ShowToBuilds,
            StructureLevel::Top => BuildStep::ShowToBuildsAndCompute,
        },
        BuildStep::EndCommands,
        BuildStep::CreateFence,
        BuildStep::Submit,
        BuildStep::WaitForFence,
        BuildStep::DestroyFence,
        BuildStep::FreeCommands,
        BuildStep::DestroyScratch,
        BuildStep::FreeScratch,
    ]
}

fn push_build(geometry: BuildGeometry, needs: BuildSizes, primitives: u32) -> (steps: Vec<
    BuildStep,
>)
    ensures
        steps@ == build_steps(geometry, needs, primitives),
{
    let level = match geometry {
        BuildGeometry::Triangles(_) => StructureLevel::Bottom,
        BuildGeometry::Instances { .. } => StructureLevel::Top,
    };
    let mut steps: Vec<BuildStep> = Vec::new();
    steps.push(BuildStep::CreateStorage(new_storage(needs.structure_size)));
    steps.push(BuildStep::CreateStructure { level, size: needs.structure_size });
    steps.push(BuildStep::CreateScratch(new_scratch(needs.scratch_size)));
    steps.push(BuildStep::AllocateCommands);
    steps.push(BuildStep::BeginCommands);
    steps.push(BuildStep::Build { geometry, primitives });
    steps.push(
        match level {
            StructureLevel::Bottom => BuildStep::ShowToBuilds,
            StructureLevel::Top => BuildStep::ShowToBuildsAndCompute,
        },
    );
    steps.push(BuildStep::EndCommands);
    steps.push(BuildStep::CreateFence);
    steps.push(BuildStep::Submit);
    steps.push(BuildStep::WaitForFence);
    steps.push(BuildStep::DestroyFence);
    steps.push(BuildStep::FreeCommands);
    steps.push(BuildStep::DestroyScratch);
    steps.push(BuildStep::FreeScratch);
    assert(steps@ =~= build_steps(geometry, needs, primitives));
    steps
}

/// A bottom-level structure, the buffer that it is kept in, and its address.
#[derive(Clone, Copy, Debug, PartialEq, Eq, Structural)]
pub struct BlasEntry {
    pub handle: u64,
    pub device_address: u64,
    pub buffer: u64,
    pub memory: u64,
}

/// A single build is of the geometry that it is given, over as much storage and with as
/// much scratch memory as it needs, and the structure that is created is of the kind that
/// is built: bottom-level from triangles, top-level from instances.
pub proof fn build_has_what_it_needs(
    geometry: BuildGeometry,
    needs: BuildSizes,
    primitives: u32,
    i: int,
)
    requires
        0 <= i < build_steps(geometry, needs, primitives).len(),
    ensures
        match build_steps(geometry, needs, primitives)[i] {
            BuildStep::CreateStorage(storage) => storage.size == needs.structure_size,
            BuildStep::CreateStructure { level, size } => {
                &&& size == needs.structure_size
                &&& level == StructureLevel::Bottom <==> geometry is Triangles
            },
            BuildStep::CreateScratch(scratch) => scratch.size == needs.scratch_size,
            BuildStep::Build { geometry: built, primitives: count } => built == geometry && count
                == primitives,
            _ => true,
        },
        build_steps(geometry, needs, primitives).contains(BuildStep::Build { geometry, primitives }),
{
    assert(build_steps(geometry, needs, primitives)[5] == (BuildStep::Build {
        geometry,
        primitives,
    }));
}

/// The device works on a build only between submission and fence: what the build uses is
/// created before it is recorded, the commands are closed before they are submitted, and
/// the scratch memory goes once the fence has been waited for.
pub proof fn build_is_recorded_in_order(geometry: BuildGeometry, needs: BuildSizes, primitives: u32)
    ensures
        ({
            let steps = build_steps(geometry, needs, primitives);
            let build = BuildStep::Build { geometry, primitives };
            let show = if geometry is Triangles {
                BuildStep::ShowToBuilds
            } else {
                BuildStep::ShowToBuildsAndCompute
            };
            let order = seq![
                BuildStep::BeginCommands,
                build,
                show,
                BuildStep::EndCommands,
                BuildStep::Submit,
                BuildStep::WaitForFence,
                BuildStep::FreeCommands,
                BuildStep::DestroyScratch,
                BuildStep::FreeScratch,
            ];
            forall|a: int, b: int|
                0 <= a < b < order.len() ==> steps.index_of(#[trigger] order[a]) < steps.index_of(
                    #[trigger] order[b],
                )
        }),
{
    let steps = build_steps(geometry, needs, primitives);
    assert(steps.no_duplicates());
    let order = seq![4int, 5, 6, 7, 9, 10, 12, 13, 14];
    assert forall|k: int| 0 <= k < 9 implies steps.index_of(steps[#[trigger] order[k]])
        == order[k] by {
        let x = steps[order[k]];
        assert(steps.contains(x));
    }
}

/// What is destroyed with a bottom-level structure.
pub open spec fn blas_release(b: BlasEntry) -> Seq<Release> {
    seq![
        Release::AccelerationStructure(b.handle),
        Release::Buffer(b.buffer),
        Release::Memory(b.memory),
    ]
}

impl BlasEntry {
    /// Plans the build of a bottom-level structure from a range of a vertex buffer and a
    /// range of an index buffer, once the device has said what it needs.
    pub fn build_at(
        extension: bool,
        vertex_addr: u64,
        index_addr: u64,
        vertex_count: u32,
        index_count: u32,
        vertex_stride: u64,
        needs: BuildSizes,
    ) -> (r: Result<Vec<BuildStep>, BuildError>)
        ensures
            match r {
                Ok(steps) => {
                    let p = BlasBuildParams {
                        vertex_addr,
                        index_addr,
                        vertex_count,
                        tri_count: triangles(vertex_count, index_count),
                    };
                    &&& extension
                    &&& steps@ == build_steps(
                        BuildGeometry::Triangles(triangles_of(p, vertex_stride)),
                        needs,
                        p.tri_count,
                    )
                },
                Err(e) => !extension && e == BuildError::ExtensionMissing,
            },
    {
        let p = blas_params(vertex_addr, index_addr, vertex_count, index_count);
        Self::build_impl(extension, &p, vertex_stride, needs)
    }

    /// Plans the build of a bottom-level structure, once the device has said what it
    /// needs.
    pub fn build_impl(
        extension: bool,
        p: &BlasBuildParams,
        vertex_stride: u64,
        needs: BuildSizes,
    ) -> (r: Result<Vec<BuildStep>, BuildError>)
        ensures
            match r {
                Ok(steps) => extension && steps@ == build_steps(
                    BuildGeometry::Triangles(triangles_of(*p, vertex_stride)),
                    needs,
                    p.tri_count,
                ),
                Err(e) => !extension && e == BuildError::ExtensionMissing,
            },
    {
        if !extension {
            return Err(BuildError::ExtensionMissing);
        }
        let geometry = BuildGeometry::Triangles(full_geom(p, vertex_stride));
        Ok(push_build(geometry, needs, p.tri_count))
    }

    /// What is destroyed with the structure.
    pub fn release(&self) -> (r: [Release; 3])
        ensures
            r@ == blas_release(*self),
    {
        let list: [Release; 3] = [
            Release::AccelerationStructure(self.handle),
            Release::Buffer(self.buffer),
            Release::Memory(self.memory),
        ];
        assert(list@ =~= seq![list@[0], list@[1], list@[2]]);
        list
    }
}

/// The steps that end the build of a top-level structure: the instances are given up
/// behind everything else.
pub open spec fn tlas_steps(needs: BuildSizes, addr: u64, instances: u32) -> Seq<BuildStep> {
    build_steps(BuildGeometry::Instances { addr }, needs, instances) + seq![
        BuildStep::DestroyInstances,
        BuildStep::FreeInstances,
    ]
}

/// A top-level structure, the buffer that it is kept in, and its address. One that was
/// never built has no handle.
#[derive(Clone, Copy, Debug, PartialEq, Eq, Structural)]
pub struct Tlas {
    pub handle: u64,
    pub device_address: u64,
    pub buffer: u64,
    pub memory: u64,
}

/// What is destroyed with a top-level structure. One that was never built owns nothing.
pub open spec fn tlas_release(t: Tlas) -> Seq<Release> {
    if t.handle == 0 {
        Seq::empty()
    } else {
        seq![
            Release::AccelerationStructure(t.handle),
            Release::Buffer(t.buffer),
            Release::Memory(t.memory),
        ]
    }
}

impl Tlas {
    /// Plans the build of a top-level structure whose instances are on the device, at
    /// `addr`, once the device has said what it needs.
    pub fn build_steps(needs: BuildSizes, addr: u64, instances: u32) -> (steps: Vec<BuildStep>)
        ensures
            steps@ == tlas_steps(needs, addr, instances),
    {
        let mut steps = push_build(BuildGeometry::Instances { addr }, needs, instances);
        steps.push(BuildStep::DestroyInstances);
        steps.push(BuildStep::FreeInstances);
        assert(steps@ =~= tlas_steps(needs, addr, instances));
        steps
    }

    /// What is destroyed with the structure.
    pub fn release(&self) -> (r: Vec<Release>)
        ensures
            r@ == tlas_release(*self),
    {
        let mut list: Vec<Release> = Vec::new();
        if self.handle != 0 {
            list.push(Release::AccelerationStructure(self.handle));
            list.push(Release::Buffer(self.buffer));
            list.push(Release::Memory(self.memory));
        }
        assert(list@ =~= tlas_release(*self));
        list
    }
}

/// A build is waited for before anything that it reads or works in is given up, and the
/// structure is visible to what comes after.
pub proof fn build_is_finished_before_its_buffers_go(needs: BuildSizes, addr: u64, instances: u32)
    ensures
        ({
            let steps = tlas_steps(needs, addr, instances);
            &&& steps[5] is Build
            &&& steps[6] == BuildStep::ShowToBuildsAndCompute
            &&& steps[10] == BuildStep::WaitForFence
            &&& forall|i: int|
                0 <= i < steps.len() && (#[trigger] steps[i] is DestroyScratch
                    || steps[i] is FreeScratch || steps[i] is DestroyInstances
                    || steps[i] is FreeInstances) ==> i > 10
        }),
{
}

// ---------------------------------------------------------------------------
// Batches of bottom-level builds
// ---------------------------------------------------------------------------

/// One step of a batch of builds. A step that fails is the last one.
#[derive(Clone, Copy, Debug, PartialEq, Eq, Structural)]
pub enum BatchStep {
    /// Create the buffer that all builds of the batch work in, and ask for its address.
    CreateScratch(BufferSpec),
    /// Create structure `index` of the batch over the whole of a buffer of its own, and
    /// ask for its address.
    Create { index: usize, storage: BufferSpec },
    /// Allocate and begin a command buffer.
    Begin,
    /// Build structure `index` of the batch from so many triangles.
    Build { index: usize, geometry: TriangleGeometry, primitives: u32 },
    /// Make the structure just built visible to later builds.
    Barrier,
    /// End the command buffer, submit it, wait for it and free it.
    Submit,
    /// Destroy the scratch buffer and free its memory.
    DestroyScratch,
}

/// The largest scratch size of a batch.
pub open spec fn largest_scratch(sizes: Seq<BuildSizes>) -> u64
    decreases sizes.len(),
{
    if sizes.len() == 0 {
        0
    } else {
        let before = largest_scratch(sizes.drop_last());
        if sizes.last().scratch_size > before {
            sizes.last().scratch_size
        } else {
            before
        }
    }
}

/// The command that builds structure `i`.
pub open spec fn build_of(params: Seq<BlasBuildParams>, vertex_stride: u64, i: int) -> BatchStep {
    BatchStep::Build {
        index: i as usize,
        geometry: triangles_of(params[i], vertex_stride),
        primitives: params[i].tri_count,
    }
}

/// The commands that build structures `start` to `end`, each with its barrier.
pub open spec fn build_range(
    params: Seq<BlasBuildParams>,
    vertex_stride: u64,
    start: int,
    end: int,
) -> Seq<BatchStep>
    decreases end - start,
{
    if end <= start {
        Seq::empty()
    } else {
        build_range(params, vertex_stride, start, end - 1).push(
            build_of(params, vertex_stride, end - 1),
        ).push(BatchStep::Barrier)
    }
}

/// Where the chunk that begins at `start` ends.
pub open spec fn chunk_end(start: int, count: int) -> int {
    if start + CHUNK_SIZE <= count {
        start + CHUNK_SIZE
    } else {
        count
    }
}

/// The commands that build the structures from `start` on, chunk by chunk.
pub open spec fn chunks_from(params: Seq<BlasBuildParams>, vertex_stride: u64, start: int) -> Seq<
    BatchStep,
>
    decreases params.len() - start,
{
    if start >= params.len() {
        Seq::empty()
    } else {
        let end = chunk_end(start, params.len() as int);
        seq![BatchStep::Begin] + build_range(params, vertex_stride, start, end)
            + seq![BatchStep::Submit] + chunks_from(params, vertex_stride, end)
    }
}

/// The steps that create the first `n` structures.
pub open spec fn created(sizes: Seq<BuildSizes>, n: int) -> Seq<BatchStep> {
    Seq::new(
        n as nat,
        |i: int|
            BatchStep::Create {
                index: i as usize,
                storage: storage_buffer(sizes[i].structure_size),
            },
    )
}

/// The steps of a batch: one scratch buffer that is large enough for every build, all
/// structures, and the builds chunk by chunk. An empty batch does nothing.
pub open spec fn batch_steps(
    params: Seq<BlasBuildParams>,
    vertex_stride: u64,
    sizes: Seq<BuildSizes>,
) -> Seq<BatchStep> {
    if sizes.len() == 0 {
        Seq::empty()
    } else {
        seq![BatchStep::CreateScratch(scratch_buffer(largest_scratch(sizes)))] + created(
            sizes,
            sizes.len() as int,
        ) + chunks_from(params, vertex_stride, 0) + seq![BatchStep::DestroyScratch]
    }
}

fn find_largest_scratch(sizes: &Vec<BuildSizes>) -> (r: u64)
    ensures
        r == largest_scratch(sizes@),
{
    let mut scratch_size: u64 = 0;
    let mut k: usize = 0;
    while k < sizes.len()
        invariant
            k <= sizes.len(),
            scratch_size == largest_scratch(sizes@.take(k as int)),
        decreases sizes.len() - k,
    {
        assert(sizes@.take(k + 1).drop_last() =~= sizes@.take(k as int));
        if sizes[k].scratch_size > scratch_size {
            scratch_size = sizes[k].scratch_size;
        }
        k = k + 1;
    }
    assert(sizes@.take(k as int) =~= sizes@);
    scratch_size
}

fn push_chunks(steps: &mut Vec<BatchStep>, params: &Vec<BlasBuildParams>, vertex_stride: u64)
    requires
        params.len() + CHUNK_SIZE <= usize::MAX,
    ensures
        final(steps)@ == old(steps)@ + chunks_from(params@, vertex_stride, 0),
{
    let count: usize = params.len();
    let ghost head = steps@;
    let mut chunk_start: usize = 0;
    while chunk_start < count
        invariant
            chunk_start <= count,
            count == params.len(),
            count + CHUNK_SIZE <= usize::MAX,
            steps@ + chunks_from(params@, vertex_stride, chunk_start as int) == head + chunks_from(
                params@,
                vertex_stride,
                0,
            ),
        decreases count - chunk_start,
    {
        let end: usize = if chunk_start + CHUNK_SIZE <= count {
            chunk_start + CHUNK_SIZE
        } else {
            count
        };
        let ghost before = steps@;
        steps.push(BatchStep::Begin);
        let mut i: usize = chunk_start;
        while i < end
            invariant
                chunk_start <= i <= end,
                end <= params.len(),
                steps@ == before.push(BatchStep::Begin) + build_range(
                    params@,
                    vertex_stride,
                    chunk_start as int,
                    i as int,
                ),
            decreases end - i,
        {
            let p: BlasBuildParams = params[i];
            let geometry = full_geom(&p, vertex_stride);
            steps.push(BatchStep::Build { index: i, geometry, primitives: p.tri_count });
            steps.push(BatchStep::Barrier);
            assert(steps@ =~= before.push(BatchStep::Begin) + build_range(
                params@,
                vertex_stride,
                chunk_start as int,
                i + 1,
            ));
            i = i + 1;
        }
        steps.push(BatchStep::Submit);
        assert(steps@ + chunks_from(params@, vertex_stride, end as int) =~= before + chunks_from(
            params@,
            vertex_stride,
            chunk_start as int,
        ));
        chunk_start = end;
    }
    assert(steps@ =~= head + chunks_from(params@, vertex_stride, 0));
}

impl BlasEntry {
    /// Plans a batch of bottom-level builds, once the device has said what each of them
    /// needs.
    pub fn build_batch(
        extension: bool,
        params: &Vec<BlasBuildParams>,
        vertex_stride: u64,
        sizes: &Vec<BuildSizes>,
    ) -> (r: Result<Vec<BatchStep>, BuildError>)
        requires
            params.len() == sizes.len(),
            params.len() + CHUNK_SIZE <= usize::MAX,
        ensures
            match r {
                Ok(steps) => extension && steps@ == batch_steps(params@, vertex_stride, sizes@),
                Err(e) => !extension && e == BuildError::ExtensionMissing,
            },
    {
        if !extension {
            return Err(BuildError::ExtensionMissing);
        }
        let mut steps: Vec<BatchStep> = Vec::new();
        if sizes.len() == 0 {
            return Ok(steps);
        }
        steps.push(BatchStep::CreateScratch(new_scratch(find_largest_scratch(sizes))));
        let ghost head = steps@;
        let mut k: usize = 0;
        assert(steps@ =~= head + created(sizes@, 0));
        while k < sizes.len()
            invariant
                k <= sizes.len(),
                steps@ == head + created(sizes@, k as int),
            decreases sizes.len() - k,
        {
            steps.push(
                BatchStep::Create { index: k, storage: new_storage(sizes[k].structure_size) },
            );
            k = k + 1;
            assert(steps@ =~= head + created(sizes@, k as int));
        }
        push_chunks(&mut steps, params, vertex_stride);
        steps.push(BatchStep::DestroyScratch);
        assert(steps@ =~= batch_steps(params@, vertex_stride, sizes@));
        Ok(steps)
    }
}

/// The structures that a list of commands builds, in order.
pub open spec fn built(steps: Seq<BatchStep>) -> Seq<int>
    decreases steps.len(),
{
    if steps.len() == 0 {
        Seq::empty()
    } else {
        let before = built(steps.drop_last());
        match steps.last() {
            BatchStep::Build { index, .. } => before.push(index as int),
            _ => before,
        }
    }
}

proof fn lemma_built_concat(a: Seq<BatchStep>, b: Seq<BatchStep>)
    ensures
        built(a + b) == built(a) + built(b),
    decreases b.len(),
{
    if b.len() == 0 {
        assert(a + b =~= a);
        assert(built(a) + built(b) =~= built(a));
    } else {
        lemma_built_concat(a, b.drop_last());
        assert((a + b).drop_last() =~= a + b.drop_last());
        assert((a + b).last() == b.last());
        assert(built(a + b) =~= built(a) + built(b));
    }
}

proof fn lemma_built_push(a: Seq<BatchStep>, step: BatchStep)
    ensures
        built(a.push(step)) == (match step {
            BatchStep::Build { index, .. } => built(a).push(index as int),
            _ => built(a),
        }),
{
    assert(a.push(step).drop_last() =~= a);
}

proof fn lemma_built_range(
    params: Seq<BlasBuildParams>,
    vertex_stride: u64,
    start: int,
    end: int,
)
    requires
        0 <= start <= end <= usize::MAX,
    ensures
        built(build_range(params, vertex_stride, start, end)) == Seq::new(
            (end - start) as nat,
            |i: int| start + i,
        ),
    decreases end - start,
{
    if start < end {
        let before = build_range(params, vertex_stride, start, end - 1);
        let last = build_of(params, vertex_stride, end - 1);
        lemma_built_range(params, vertex_stride, start, end - 1);
        lemma_built_push(before, last);
        lemma_built_push(before.push(last), BatchStep::Barrier);
    }
    assert(built(build_range(params, vertex_stride, start, end)) =~= Seq::new(
        (end - start) as nat,
        |i: int| start + i,
    ));
}

/// A batch builds every structure once, in order.
pub proof fn batch_builds_each_once(
    params: Seq<BlasBuildParams>,
    vertex_stride: u64,
    start: int,
)
    requires
        0 <= start <= params.len() <= usize::MAX,
    ensures
        built(chunks_from(params, vertex_stride, start)) == Seq::new(
            (params.len() - start) as nat,
            |i: int| start + i,
        ),
    decreases params.len() - start,
{
    if start < params.len() {
        let end = chunk_end(start, params.len() as int);
        let head = seq![BatchStep::Begin];
        let body = build_range(params, vertex_stride, start, end);
        let tail = seq![BatchStep::Submit];
        batch_builds_each_once(params, vertex_stride, end);
        lemma_built_range(params, vertex_stride, start, end);
        lemma_built_push(Seq::empty(), BatchStep::Begin);
        assert(Seq::empty().push(BatchStep::Begin) =~= head);
        lemma_built_push(Seq::empty(), BatchStep::Submit);
        assert(Seq::empty().push(BatchStep::Submit) =~= tail);
        lemma_built_concat(head, body);
        lemma_built_concat(head + body, tail);
        lemma_built_concat(head + body + tail, chunks_from(params, vertex_stride, end));
    }
    assert(built(chunks_from(params, vertex_stride, start)) =~= Seq::new(
        (params.len() - start) as nat,
        |i: int| start + i,
    ));
}

proof fn lemma_created_builds_nothing(sizes: Seq<BuildSizes>, n: int)
    requires
        0 <= n,
    ensures
        built(created(sizes, n)) == Seq::<int>::empty(),
    decreases n,
{
    if n > 0 {
        lemma_created_builds_nothing(sizes, n - 1);
        let step = BatchStep::Create {
            index: (n - 1) as usize,
            storage: storage_buffer(sizes[n - 1].structure_size),
        };
        assert(created(sizes, n) =~= created(sizes, n - 1).push(step));
        lemma_built_push(created(sizes, n - 1), step);
    }
}

/// The whole batch builds every structure once, in order, after all of them have been
/// created, and gives up its scratch buffer at the very end.
pub proof fn batch_is_complete(
    params: Seq<BlasBuildParams>,
    vertex_stride: u64,
    sizes: Seq<BuildSizes>,
)
    requires
        params.len() == sizes.len(),
        0 < sizes.len() <= usize::MAX,
    ensures
        built(batch_steps(params, vertex_stride, sizes)) == Seq::new(sizes.len(), |i: int| i),
        batch_steps(params, vertex_stride, sizes)[0] == BatchStep::CreateScratch(
            scratch_buffer(largest_scratch(sizes)),
        ),
        forall|i: int|
            0 <= i < sizes.len() ==> #[trigger] batch_steps(params, vertex_stride, sizes)[1 + i] == (BatchStep::Create {
                index: i as usize,
                storage: storage_buffer(sizes[i].structure_size),
            }),
        batch_steps(params, vertex_stride, sizes).last() == BatchStep::DestroyScratch,
{
    let n = sizes.len() as int;
    let scratch = BatchStep::CreateScratch(scratch_buffer(largest_scratch(sizes)));
    let head = seq![scratch];
    let made = created(sizes, n);
    let chunks = chunks_from(params, vertex_stride, 0);
    let tail = seq![BatchStep::DestroyScratch];
    batch_builds_each_once(params, vertex_stride, 0);
    lemma_created_builds_nothing(sizes, n);
    lemma_built_push(Seq::empty(), scratch);
    assert(Seq::empty().push(scratch) =~= head);
    lemma_built_push(Seq::empty(), BatchStep::DestroyScratch);
    assert(Seq::empty().push(BatchStep::DestroyScratch) =~= tail);
    lemma_built_concat(head, made);
    lemma_built_concat(head + made, chunks);
    lemma_built_concat(head + made + chunks, tail);
    assert(built(batch_steps(params, vertex_stride, sizes)) =~= Seq::new(sizes.len(), |i: int| i));
}

/// The step, if it is a build, builds a structure of the batch from its own mesh: it fetches
/// the corners of that mesh, and as many triangles as the mesh has.
pub open spec fn builds_its_own_mesh(
    params: Seq<BlasBuildParams>,
    vertex_stride: u64,
    step: BatchStep,
    memory: spec_fn(int) -> u32,
    k: int,
) -> bool {
    match step {
        BatchStep::Build { index, geometry, primitives } => {
            let p = params[index as int];
            &&& index < params.len()
            &&& primitives == p.tri_count
            &&& fetched_corner(geometry, memory, k) == p.vertex_addr + vertex_stride * (if p.index_addr
                != 0 {
                memory(p.index_addr + 4 * k) as int
            } else {
                k
            })
            &&& p.vertex_count > 0 ==> geometry.max_vertex == p.vertex_count - 1
        },
        _ => true,
    }
}

proof fn lemma_range_builds_own(
    params: Seq<BlasBuildParams>,
    vertex_stride: u64,
    start: int,
    end: int,
    j: int,
    memory: spec_fn(int) -> u32,
    k: int,
)
    requires
        0 <= start <= end <= params.len() <= usize::MAX,
        0 <= j < build_range(params, vertex_stride, start, end).len(),
    ensures
        ({
            let steps = build_range(params, vertex_stride, start, end);
            &&& builds_its_own_mesh(params, vertex_stride, steps[j], memory, k)
            &&& steps[j] is Build ==> j + 1 < steps.len() && steps[j + 1] == BatchStep::Barrier
        }),
    decreases end - start,
{
    if start < end {
        let before = build_range(params, vertex_stride, start, end - 1);
        if j < before.len() {
            lemma_range_builds_own(params, vertex_stride, start, end - 1, j, memory, k);
        } else {
            build_fetches_the_mesh(params[end - 1], vertex_stride, memory, k);
        }
    }
}

proof fn lemma_chunks_build_own(
    params: Seq<BlasBuildParams>,
    vertex_stride: u64,
    start: int,
    j: int,
    memory: spec_fn(int) -> u32,
    k: int,
)
    requires
        0 <= start <= params.len() <= usize::MAX,
        0 <= j < chunks_from(params, vertex_stride, start).len(),
    ensures
        ({
            let steps = chunks_from(params, vertex_stride, start);
            &&& builds_its_own_mesh(params, vertex_stride, steps[j], memory, k)
            &&& steps[j] is Build ==> j + 1 < steps.len() && steps[j + 1] == BatchStep::Barrier
        }),
    decreases params.len() - start,
{
    if start < params.len() {
        let end = chunk_end(start, params.len() as int);
        let body = build_range(params, vertex_stride, start, end);
        let rest = chunks_from(params, vertex_stride, end);
        let steps = chunks_from(params, vertex_stride, start);
        let n = body.len() as int;
        assert(steps.len() == n + 2 + rest.len());
        if 1 <= j < n + 1 {
            lemma_range_builds_own(params, vertex_stride, start, end, j - 1, memory, k);
            assert(steps[j] == body[j - 1]);
            if steps[j] is Build {
                assert(steps[j + 1] == body[j]);
            }
        } else if j >= n + 2 {
            lemma_chunks_build_own(params, vertex_stride, end, j - n - 2, memory, k);
            assert(steps[j] == rest[j - n - 2]);
            if steps[j] is Build {
                assert(steps[j + 1] == rest[j - n - 1]);
            }
        }
    }
}

/// Every build of a batch is from the mesh of its own structure, and a barrier follows it,
/// since the next build works in the same scratch buffer.
pub proof fn batch_builds_its_own_meshes(
    params: Seq<BlasBuildParams>,
    vertex_stride: u64,
    sizes: Seq<BuildSizes>,
    j: int,
    memory: spec_fn(int) -> u32,
    k: int,
)
    requires
        params.len() == sizes.len(),
        params.len() <= usize::MAX,
        0 <= j < batch_steps(params, vertex_stride, sizes).len(),
    ensures
        ({
            let steps = batch_steps(params, vertex_stride, sizes);
            &&& builds_its_own_mesh(params, vertex_stride, steps[j], memory, k)
            &&& steps[j] is Build ==> j + 1 < steps.len() && steps[j + 1] == BatchStep::Barrier
        }),
{
    let steps = batch_steps(params, vertex_stride, sizes);
    let n = sizes.len() as int;
    if n > 0 {
        let chunks = chunks_from(params, vertex_stride, 0);
        if 1 <= j < n + 1 {
            assert(steps[j] == created(sizes, n)[j - 1]);
        } else if n + 1 <= j < n + 1 + chunks.len() {
            lemma_chunks_build_own(params, vertex_stride, 0, j - n - 1, memory, k);
            assert(steps[j] == chunks[j - n - 1]);
            if steps[j] is Build {
                assert(steps[j + 1] == chunks[j - n]);
            }
        }
    }
}

/// Each structure of a batch is created over as much storage as it needs, and the scratch
/// buffer is as large as the largest build needs, and no larger.
pub proof fn batch_has_what_it_needs(
    params: Seq<BlasBuildParams>,
    vertex_stride: u64,
    sizes: Seq<BuildSizes>,
    j: int,
)
    requires
        params.len() == sizes.len(),
        params.len() <= usize::MAX,
        0 <= j < batch_steps(params, vertex_stride, sizes).len(),
    ensures
        match batch_steps(params, vertex_stride, sizes)[j] {
            BatchStep::Create { index, storage } => index < sizes.len() && storage.size
                == sizes[index as int].structure_size,
            BatchStep::CreateScratch(scratch) => {
                &&& j == 0
                &&& exists|i: int|
                    0 <= i < sizes.len() && (#[trigger] sizes[i]).scratch_size == scratch.size
                        || scratch.size == 0
                &&& forall|i: int|
                    0 <= i < sizes.len() ==> (#[trigger] sizes[i]).scratch_size <= scratch.size
            },
            _ => true,
        },
{
    let steps = batch_steps(params, vertex_stride, sizes);
    let n = sizes.len() as int;
    if n > 0 {
        let chunks = chunks_from(params, vertex_stride, 0);
        if j == 0 {
            lemma_largest_is_needed(sizes);
            assert forall|i: int| 0 <= i < sizes.len() implies (#[trigger] sizes[i]).scratch_size
                <= largest_scratch(sizes) by {
                scratch_fits_every_build(sizes, i);
            }
        } else if j < n + 1 {
            assert(steps[j] == created(sizes, n)[j - 1]);
        } else if j < n + 1 + chunks.len() {
            lemma_chunks_create_nothing(params, vertex_stride, 0, j - n - 1);
            assert(steps[j] == chunks[j - n - 1]);
        }
    }
}

proof fn lemma_largest_is_needed(sizes: Seq<BuildSizes>)
    requires
        sizes.len() > 0,
    ensures
        exists|i: int|
            0 <= i < sizes.len() && (#[trigger] sizes[i]).scratch_size == largest_scratch(sizes)
                || largest_scratch(sizes) == 0,
    decreases sizes.len(),
{
    let before = sizes.drop_last();
    if sizes.last().scratch_size > largest_scratch(before) {
        assert(sizes[sizes.len() - 1].scratch_size == largest_scratch(sizes));
    } else if before.len() > 0 {
        lemma_largest_is_needed(before);
        let i = choose|i: int|
            0 <= i < before.len() && (#[trigger] before[i]).scratch_size == largest_scratch(before)
                || largest_scratch(before) == 0;
        if largest_scratch(before) != 0 {
            assert(sizes[i].scratch_size == largest_scratch(sizes));
        } else {
            assert(sizes[0].scratch_size == 0 || largest_scratch(sizes) == 0);
        }
    } else {
        assert(sizes[0].scratch_size == 0 || largest_scratch(sizes) == 0);
    }
}

proof fn lemma_range_creates_nothing(
    params: Seq<BlasBuildParams>,
    vertex_stride: u64,
    start: int,
    end: int,
    j: int,
)
    requires
        0 <= j < build_range(params, vertex_stride, start, end).len(),
    ensures
        build_range(params, vertex_stride, start, end)[j] is Build || build_range(
            params,
            vertex_stride,
            start,
            end,
        )[j] is Barrier,
    decreases end - start,
{
    if start < end {
        let before = build_range(params, vertex_stride, start, end - 1);
        if j < before.len() {
            lemma_range_creates_nothing(params, vertex_stride, start, end - 1, j);
        }
    }
}

proof fn lemma_chunks_create_nothing(
    params: Seq<BlasBuildParams>,
    vertex_stride: u64,
    start: int,
    j: int,
)
    requires
        0 <= start,
        0 <= j < chunks_from(params, vertex_stride, start).len(),
    ensures
        chunks_from(params, vertex_stride, start)[j] !is Create,
        chunks_from(params, vertex_stride, start)[j] !is CreateScratch,
    decreases params.len() - start,
{
    if start < params.len() {
        let end = chunk_end(start, params.len() as int);
        let body = build_range(params, vertex_stride, start, end);
        let rest = chunks_from(params, vertex_stride, end);
        let steps = chunks_from(params, vertex_stride, start);
        let n = body.len() as int;
        if 1 <= j < n + 1 {
            lemma_range_creates_nothing(params, vertex_stride, start, end, j - 1);
            assert(steps[j] == body[j - 1]);
        } else if j >= n + 2 {
            lemma_chunks_create_nothing(params, vertex_stride, end, j - n - 2);
            assert(steps[j] == rest[j - n - 2]);
        }
    }
}

/// No submission holds more than a chunk of builds.
pub proof fn chunk_is_bounded(params: Seq<BlasBuildParams>, vertex_stride: u64, start: int)
    requires
        0 <= start < params.len() <= usize::MAX,
    ensures
        ({
            let end = chunk_end(start, params.len() as int);
            &&& start < end <= start + CHUNK_SIZE
            &&& built(build_range(params, vertex_stride, start, end)).len() <= CHUNK_SIZE
        }),
{
    lemma_built_range(params, vertex_stride, start, chunk_end(start, params.len() as int));
}

/// The shared scratch buffer is large enough for every build.
pub proof fn scratch_fits_every_build(sizes: Seq<BuildSizes>, i: int)
    requires
        0 <= i < sizes.len(),
    ensures
        sizes[i].scratch_size <= largest_scratch(sizes),
    decreases sizes.len(),
{
    if i < sizes.len() - 1 {
        scratch_fits_every_build(sizes.drop_last(), i);
    }
}

// ---------------------------------------------------------------------------
// Top-level instances
// ---------------------------------------------------------------------------

/// One instance: a bottom-level structure placed by a transform of type `T`.
#[derive(Clone, Copy)]
pub struct TlasInstance<T> {
    pub transform: T,
    pub custom_index: u32,
    pub mask: u8,
    pub instance_shader_binding_table_record_offset: u32,
    pub flags: u32,
}

/// An instance as the device reads it: each 24-bit field shares a word with the 8-bit
/// field behind it.
pub struct PackedInstance<T> {
    pub transform: T,
    pub custom_index: u32,
    pub mask: u8,
    pub record_offset: u32,
    pub flags: u8,
    pub blas_address: u64,
}

/// The instances of a top-level build, ready to be copied to the device.
pub struct TlasPlan<T> {
    pub packed: Vec<PackedInstance<T>>,
    /// The host-visible buffer that they are copied to.
    pub buffer: BufferSpec,
    pub primitive_count: u32,
}

/// The low 24 bits of a number.
pub open spec fn low_24(x: u32) -> u32 {
    x & 0x00ff_ffff
}

/// How an instance is packed together with the address of its structure.
pub open spec fn packed<T>(inst: TlasInstance<T>, blas_address: u64) -> PackedInstance<T> {
    PackedInstance {
        transform: inst.transform,
        custom_index: low_24(inst.custom_index),
        mask: inst.mask,
        record_offset: low_24(inst.instance_shader_binding_table_record_offset),
        flags: inst.flags as u8,
        blas_address,
    }
}

/// `ash::vk::Packed24_8::new` packs a 24-bit and an 8-bit number into one word. The
/// contract says what the word's two halves are when read back: the low 24 bits of the
/// first number, and the second number.
#[verifier::external_body]
fn pack_24_8(low: u32, high: u8) -> (r: (u32, u8))
    ensures
        r.0 == low_24(low),
        r.1 == high,
{
    let word = ash::vk::Packed24_8::new(low, high);
    (word.low_24(), word.high_8())
}

impl Tlas {
    /// Pairs each instance with its structure's address, by position, and packs them into
    /// what a host-visible buffer of the device is filled with.
    pub fn build<T: Copy>(
        extension: bool,
        instances: &Vec<TlasInstance<T>>,
        blas_addresses: &Vec<u64>,
    ) -> (r: Result<TlasPlan<T>, BuildError>)
        requires
            instances.len() * INSTANCE_SIZE <= usize::MAX,
            instances.len() <= u32::MAX,
        ensures
            match r {
                Ok(plan) => {
                    &&& extension
                    &&& blas_addresses.len() == instances.len()
                    &&& plan.packed@ == Seq::new(
                        instances@.len(),
                        |i: int| packed(instances@[i], blas_addresses@[i]),
                    )
                    &&& plan.buffer == (BufferSpec {
                        size: (instances.len() * INSTANCE_SIZE) as u64,
                        usage: INSTANCES_USAGE,
                        memory: HOST_MEMORY,
                    })
                    &&& plan.primitive_count == instances.len()
                },
                Err(BuildError::ExtensionMissing) => !extension,
                Err(BuildError::LengthMismatch { addresses, instances: count }) => {
                    &&& extension
                    &&& blas_addresses.len() != instances.len()
                    &&& addresses == blas_addresses.len()
                    &&& count == instances.len()
                },
            },
    {
        if !extension {
            return Err(BuildError::ExtensionMissing);
        }
        let count: usize = instances.len();
        if blas_addresses.len() != count {
            return Err(
                BuildError::LengthMismatch { addresses: blas_addresses.len(), instances: count },
            );
        }
        let data_size: u64 = (count * INSTANCE_SIZE) as u64;
        let mut list: Vec<PackedInstance<T>> = Vec::new();
        let mut i: usize = 0;
        while i < count
            invariant
                i <= count,
                count == instances.len(),
                count == blas_addresses.len(),
                list.len() == i,
                forall|k: int|
                    0 <= k < i ==> #[trigger] list@[k] == packed(instances@[k], blas_addresses@[k]),
            decreases count - i,
        {
            let inst: TlasInstance<T> = instances[i];
            let index_and_mask: (u32, u8) = pack_24_8(inst.custom_index, inst.mask);
            let offset_and_flags: (u32, u8) = pack_24_8(
                inst.instance_shader_binding_table_record_offset,
                inst.flags as u8,
            );
            list.push(
                PackedInstance {
                    transform: inst.transform,
                    custom_index: index_and_mask.0,
                    mask: index_and_mask.1,
                    record_offset: offset_and_flags.0,
                    flags: offset_and_flags.1,
                    blas_address: blas_addresses[i],
                },
            );
            i = i + 1;
        }
        assert(list@ =~= Seq::new(
            instances@.len(),
            |i: int| packed(instances@[i], blas_addresses@[i]),
        ));
        let buffer = BufferSpec { size: data_size, usage: INSTANCES_USAGE, memory: HOST_MEMORY };
        Ok(TlasPlan { packed: list, buffer, primitive_count: count as u32 })
    }
}

/// An instance keeps its place, its mask and its structure when it is packed. Of a record
/// offset the low 24 bits are kept, and of the flags the low 8.
pub proof fn instance_survives_packing<T>(inst: TlasInstance<T>, blas_address: u64)
    ensures
        ({
            let p = packed(inst, blas_address);
            &&& p.transform == inst.transform
            &&& p.mask == inst.mask
            &&& p.blas_address == blas_address
            &&& p.custom_index as int == inst.custom_index as int % 0x0100_0000
            &&& p.record_offset as int == inst.instance_shader_binding_table_record_offset as int
                % 0x0100_0000
            &&& p.flags as int == inst.flags as int % 0x100
        }),
{
    let x = inst.custom_index;
    let y = inst.instance_shader_binding_table_record_offset;
    let f = inst.flags;
    assert(x & 0x00ff_ffff == x % 0x0100_0000) by (bit_vector);
    assert(y & 0x00ff_ffff == y % 0x0100_0000) by (bit_vector);
    assert(f as u8 == f % 0x100) by (bit_vector);
}

/// An index of at most 24 bits survives packing, so that shaders read what was written.
pub proof fn small_index_is_kept<T>(inst: TlasInstance<T>, blas_address: u64)
    requires
        inst.custom_index < 0x0100_0000,
    ensures
        packed(inst, blas_address).custom_index == inst.custom_index,
{
    let x = inst.custom_index;
    assert(x & 0x00ff_ffff == x) by (bit_vector)
        requires
            x < 0x0100_0000,
    ;
}

/// The buffers that only the build needs are given up, each once: the scratch and the
/// instances, with their memory.
pub proof fn build_leaves_no_buffer_behind(
    needs: BuildSizes,
    addr: u64,
    instances: u32,
    i: int,
    j: int,
)
    requires
        0 <= i < tlas_steps(needs, addr, instances).len(),
        0 <= j < tlas_steps(needs, addr, instances).len(),
    ensures
        ({
            let steps = tlas_steps(needs, addr, instances);
            &&& steps.contains(BuildStep::DestroyInstances)
            &&& steps.contains(BuildStep::FreeInstances)
            &&& steps.contains(BuildStep::DestroyScratch)
            &&& steps.contains(BuildStep::FreeScratch)
            &&& steps[i] is DestroyInstances && steps[j] is FreeInstances ==> i < j
            &&& steps[i] is FreeInstances && steps[j] is FreeInstances ==> i == j
            &&& steps[i] is FreeScratch && steps[j] is FreeScratch ==> i == j
        }),
{
    let steps = tlas_steps(needs, addr, instances);
    let n = steps.len() as int;
    assert(steps[n - 2] == BuildStep::DestroyInstances);
    assert(steps[n - 1] == BuildStep::FreeInstances);
    assert(steps[13] == BuildStep::DestroyScratch);
    assert(steps[14] == BuildStep::FreeScratch);
}

/// A structure that was built gives up its handle, its buffer and its memory, in this
/// order; a top-level one that was never built owns nothing.
pub proof fn structure_gives_up_everything(t: Tlas, b: BlasEntry)
    ensures
        t.handle == 0 ==> tlas_release(t).len() == 0,
        t.handle != 0 ==> {
            &&& tlas_release(t).len() == 3
            &&& tlas_release(t)[0] == Release::AccelerationStructure(t.handle)
            &&& tlas_release(t)[1] == Release::Buffer(t.buffer)
            &&& tlas_release(t)[2] == Release::Memory(t.memory)
        },
        blas_release(b).len() == 3,
        blas_release(b)[0] == Release::AccelerationStructure(b.handle),
        blas_release(b)[1] == Release::Buffer(b.buffer),
        blas_release(b)[2] == Release::Memory(b.memory),
{
}

} // verus!
