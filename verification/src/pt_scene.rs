//! Ray-traceable scenes: instances combined into one vertex and one index buffer, and
//! what the acceleration structures over them are built from.
//!
//! `V` is a vertex, which is only moved.

use std::collections::HashMap;
use vstd::prelude::*;
use vstd::std_specs::hash::*;

use crate::acceleration_structure::{
    blas_release, build_fetches_the_mesh, fetched_corner, tlas_release, triangles, triangles_of as
    build_geometry, BlasBuildParams, BlasEntry, Tlas, TlasInstance,
};
use crate::buffer::{
    contains_bits, BufferSpec, HOST_MEMORY, USAGE_BUILD_INPUT, USAGE_SHADER_DEVICE_ADDRESS,
    USAGE_STORAGE_BUFFER,
};
use crate::descriptor::PT_EMISSIVE_MAX;
use crate::gpu::Release;

verus! {

/// Size in bytes of an index.
pub const INDEX_STRIDE: u64 = 4;

/// Size in bytes of a material on the device.
pub const MATERIAL_SIZE: usize = 96;

/// Instance flag: triangles are hit from both sides.
pub const CULL_DISABLE: u32 = 0x0000_0001;

/// One instance: its own world-space geometry, and the slot of its material.
pub struct PtGeometryInstance<V> {
    pub vertices: Vec<V>,
    pub indices: Vec<u32>,
    pub material_slot: u32,
}

/// What a shader looks up by instance.
#[derive(Clone, Copy, Debug, PartialEq, Eq, Structural)]
pub struct PtInstanceMeta {
    pub material_slot: u32,
    pub index_base: u32,
    pub vertex_base: u32,
    pub pad: u32,
}

/// All instances in one vertex and one index buffer.
pub struct CombinedGeometry<V> {
    pub vertices: Vec<V>,
    pub indices: Vec<u32>,
    pub meta: Vec<PtInstanceMeta>,
}

/// Why a scene cannot be built.
#[derive(Clone, Copy, Debug, PartialEq, Eq, Structural)]
pub enum SceneError {
    /// There are no instances.
    NoInstances,
    /// The meshes of the scene have no vertices.
    NoGeometry,
}

/// The vertices of the first `n` instances.
pub open spec fn all_vertices<V>(instances: Seq<PtGeometryInstance<V>>, n: nat) -> Seq<V>
    decreases n,
{
    if n == 0 {
        Seq::empty()
    } else {
        all_vertices(instances, (n - 1) as nat) + instances[n - 1].vertices@
    }
}

/// The indices of one instance, moved to where its vertices are.
pub open spec fn moved_indices(indices: Seq<u32>, vertex_base: int) -> Seq<u32> {
    indices.map_values(|ix: u32| (ix + vertex_base) as u32)
}

/// The indices of the first `n` instances.
pub open spec fn all_indices<V>(instances: Seq<PtGeometryInstance<V>>, n: nat) -> Seq<u32>
    decreases n,
{
    if n == 0 {
        Seq::empty()
    } else {
        all_indices(instances, (n - 1) as nat) + moved_indices(
            instances[n - 1].indices@,
            all_vertices(instances, (n - 1) as nat).len() as int,
        )
    }
}

/// What shaders look up for instance `i`.
pub open spec fn meta_of<V>(instances: Seq<PtGeometryInstance<V>>, i: int) -> PtInstanceMeta {
    PtInstanceMeta {
        material_slot: instances[i].material_slot,
        index_base: all_indices(instances, i as nat).len() as u32,
        vertex_base: all_vertices(instances, i as nat).len() as u32,
        pad: 0,
    }
}

/// The combined buffers can be counted and addressed in 32 bits.
pub open spec fn fits<V>(instances: Seq<PtGeometryInstance<V>>) -> bool {
    &&& all_vertices(instances, instances.len()).len() <= u32::MAX
    &&& all_indices(instances, instances.len()).len() <= u32::MAX
    &&& forall|i: int, k: int|
        0 <= i < instances.len() && 0 <= k < instances[i].indices@.len()
            ==> (#[trigger] instances[i].indices@[k]) + all_vertices(instances, i as nat).len()
            <= u32::MAX
}

proof fn lemma_bases_grow<V>(instances: Seq<PtGeometryInstance<V>>, i: nat, n: nat)
    requires
        i <= n <= instances.len(),
    ensures
        all_vertices(instances, i).len() <= all_vertices(instances, n).len(),
        all_indices(instances, i).len() <= all_indices(instances, n).len(),
        all_vertices(instances, i) == all_vertices(instances, n).take(
            all_vertices(instances, i).len() as int,
        ),
        all_indices(instances, i) == all_indices(instances, n).take(
            all_indices(instances, i).len() as int,
        ),
    decreases n - i,
{
    let v = all_vertices(instances, i);
    let x = all_indices(instances, i);
    if i < n {
        lemma_bases_grow(instances, i, (n - 1) as nat);
        let vp = all_vertices(instances, (n - 1) as nat);
        let xp = all_indices(instances, (n - 1) as nat);
        assert(all_vertices(instances, n).take(v.len() as int) =~= vp.take(v.len() as int));
        assert(all_indices(instances, n).take(x.len() as int) =~= xp.take(x.len() as int));
    } else {
        assert(v.take(v.len() as int) =~= v);
        assert(x.take(x.len() as int) =~= x);
    }
}

/// Combines the instances: vertices one behind the other, and each instance's indices
/// moved to its own vertices.
pub fn combine_instances<V: Copy>(instances: &Vec<PtGeometryInstance<V>>) -> (r: Result<
    CombinedGeometry<V>,
    SceneError,
>)
    requires
        fits(instances@),
    ensures
        match r {
            Ok(g) => {
                &&& instances@.len() > 0
                &&& g.vertices@ == all_vertices(instances@, instances@.len())
                &&& g.indices@ == all_indices(instances@, instances@.len())
                &&& g.meta@ == Seq::new(instances@.len(), |i: int| meta_of(instances@, i))
            },
            Err(e) => instances@.len() == 0 && e == SceneError::NoInstances,
        },
{
    if instances.len() == 0 {
        return Err(SceneError::NoInstances);
    }
    let mut vertices: Vec<V> = Vec::new();
    let mut indices: Vec<u32> = Vec::new();
    let mut meta: Vec<PtInstanceMeta> = Vec::new();
    let mut i: usize = 0;
    while i < instances.len()
        invariant
            i <= instances.len(),
            fits(instances@),
            vertices@ == all_vertices(instances@, i as nat),
            indices@ == all_indices(instances@, i as nat),
            meta@ == Seq::new(i as nat, |k: int| meta_of(instances@, k)),
        decreases instances.len() - i,
    {
        proof {
            lemma_bases_grow(instances@, i as nat, instances@.len());
        }
        let inst = &instances[i];
        let vertex_base: u32 = vertices.len() as u32;
        let index_base: u32 = indices.len() as u32;
        let ghost v0 = vertices@;
        let ghost x0 = indices@;
        let mut k: usize = 0;
        while k < inst.vertices.len()
            invariant
                k <= inst.vertices.len(),
                vertices@ == v0 + inst.vertices@.take(k as int),
            decreases inst.vertices.len() - k,
        {
            vertices.push(inst.vertices[k]);
            k = k + 1;
            assert(vertices@ =~= v0 + inst.vertices@.take(k as int));
        }
        assert(inst.vertices@.take(k as int) =~= inst.vertices@);
        let mut j: usize = 0;
        assert(indices@ =~= x0 + moved_indices(inst.indices@.take(0), vertex_base as int));
        while j < inst.indices.len()
            invariant
                j <= inst.indices.len(),
                i < instances.len(),
                fits(instances@),
                *inst == instances@[i as int],
                vertex_base == all_vertices(instances@, i as nat).len(),
                indices@ == x0 + moved_indices(inst.indices@.take(j as int), vertex_base as int),
            decreases inst.indices.len() - j,
        {
            let ix: u32 = inst.indices[j];
            assert(instances@[i as int].indices@[j as int] + all_vertices(
                instances@,
                i as nat,
            ).len() <= u32::MAX);
            indices.push(ix + vertex_base);
            j = j + 1;
            assert(indices@ =~= x0 + moved_indices(
                inst.indices@.take(j as int),
                vertex_base as int,
            ));
        }
        assert(inst.indices@.take(j as int) =~= inst.indices@);
        meta.push(
            PtInstanceMeta { material_slot: inst.material_slot, index_base, vertex_base, pad: 0 },
        );
        i = i + 1;
        assert(meta@ =~= Seq::new(i as nat, |k: int| meta_of(instances@, k)));
    }
    Ok(CombinedGeometry { vertices, indices, meta })
}

/// Combining keeps every triangle: an index of an instance finds, in the combined
/// buffers, the vertex that it found in the instance.
pub proof fn combined_indices_find_their_vertices<V>(
    instances: Seq<PtGeometryInstance<V>>,
    i: int,
    k: int,
)
    requires
        fits(instances),
        0 <= i < instances.len(),
        0 <= k < instances[i].indices@.len(),
        instances[i].indices@[k] < instances[i].vertices@.len(),
    ensures
        ({
            let n = instances.len();
            let m = meta_of(instances, i);
            let moved = all_indices(instances, n)[m.index_base + k];
            &&& m.index_base + k < all_indices(instances, n).len()
            &&& moved < all_vertices(instances, n).len()
            &&& all_vertices(instances, n)[moved as int]
                == instances[i].vertices@[instances[i].indices@[k] as int]
        }),
{
    let n = instances.len();
    let next = (i + 1) as nat;
    lemma_bases_grow(instances, i as nat, n);
    lemma_bases_grow(instances, next, n);
    let ix = instances[i].indices@[k];
    let vb = all_vertices(instances, i as nat).len();
    let xb = all_indices(instances, i as nat).len();
    assert(ix + vb <= u32::MAX);
    assert(all_indices(instances, next)[xb + k] == (ix + vb) as u32);
    assert(all_indices(instances, n)[xb + k] == all_indices(instances, next)[xb + k]);
    assert(all_vertices(instances, next)[vb + ix] == instances[i].vertices@[ix as int]);
    assert(all_vertices(instances, n)[vb + ix] == all_vertices(instances, next)[vb + ix]);
}

/// Number of vertices of the first `n` instances.
pub open spec fn vertex_total<V>(instances: Seq<PtGeometryInstance<V>>, n: nat) -> nat
    decreases n,
{
    if n == 0 {
        0
    } else {
        vertex_total(instances, (n - 1) as nat) + instances[n - 1].vertices@.len()
    }
}

/// Number of indices of the first `n` instances.
pub open spec fn index_total<V>(instances: Seq<PtGeometryInstance<V>>, n: nat) -> nat
    decreases n,
{
    if n == 0 {
        0
    } else {
        index_total(instances, (n - 1) as nat) + instances[n - 1].indices@.len()
    }
}

proof fn lemma_totals<V>(instances: Seq<PtGeometryInstance<V>>, n: nat)
    ensures
        all_vertices(instances, n).len() == vertex_total(instances, n),
        all_indices(instances, n).len() == index_total(instances, n),
    decreases n,
{
    if n > 0 {
        lemma_totals(instances, (n - 1) as nat);
    }
}

/// What shaders look up for an instance is its own: its material, its vertices from its
/// vertex base on, and its indices from its index base on. The combined buffers hold what
/// the instances hold and nothing else.
pub proof fn instance_finds_what_is_its_own<V>(
    instances: Seq<PtGeometryInstance<V>>,
    i: int,
    v: int,
)
    requires
        fits(instances),
        0 <= i < instances.len(),
        0 <= v < instances[i].vertices@.len(),
    ensures
        ({
            let n = instances.len();
            let m = meta_of(instances, i);
            &&& m.material_slot == instances[i].material_slot
            &&& m.vertex_base == vertex_total(instances, i as nat)
            &&& m.index_base == index_total(instances, i as nat)
            &&& all_vertices(instances, n)[m.vertex_base + v] == instances[i].vertices@[v]
            &&& all_vertices(instances, n).len() == vertex_total(instances, n)
            &&& all_indices(instances, n).len() == index_total(instances, n)
        }),
{
    let n = instances.len();
    lemma_totals(instances, n);
    lemma_totals(instances, i as nat);
    lemma_bases_grow(instances, i as nat, n);
    lemma_bases_grow(instances, (i + 1) as nat, n);
    let vb = all_vertices(instances, i as nat).len();
    assert(all_vertices(instances, (i + 1) as nat)[vb + v] == instances[i].vertices@[v]);
    assert(all_vertices(instances, n)[vb + v] == all_vertices(instances, (i + 1) as nat)[vb + v]);
}

/// What the bottom-level structure of an instance is built from: all vertices, and the
/// instance's own range of indices.
pub open spec fn scene_blas<V>(
    instance: PtGeometryInstance<V>,
    meta: PtInstanceMeta,
    total_vertices: u32,
    vertex_addr: u64,
    index_addr: u64,
) -> BlasBuildParams {
    BlasBuildParams {
        vertex_addr,
        index_addr: (index_addr + meta.index_base * INDEX_STRIDE) as u64,
        vertex_count: total_vertices,
        tri_count: triangles(instance.vertices@.len() as u32, instance.indices@.len() as u32),
    }
}

/// The structure of an instance is built from the instance: corner `k` of its build is
/// fetched from where the combined vertices hold the vertex that the instance's index `k`
/// leads to.
pub proof fn scene_builds_its_instances<V>(
    instances: Seq<PtGeometryInstance<V>>,
    i: int,
    k: int,
    vertex_stride: u64,
    vertex_addr: u64,
    index_addr: u64,
    memory: spec_fn(int) -> u32,
)
    requires
        fits(instances),
        0 <= i < instances.len(),
        0 <= k < instances[i].indices@.len(),
        instances[i].indices@[k] < instances[i].vertices@.len(),
        index_addr > 0,
        index_addr + 4 * all_indices(instances, instances.len()).len() <= u64::MAX,
        forall|j: int|
            0 <= j < all_indices(instances, instances.len()).len() ==> memory(index_addr + 4 * j)
                == #[trigger] all_indices(instances, instances.len())[j],
    ensures
        ({
            let n = instances.len();
            let m = meta_of(instances, i);
            let p = scene_blas(
                instances[i],
                m,
                all_vertices(instances, n).len() as u32,
                vertex_addr,
                index_addr,
            );
            let place = m.vertex_base + instances[i].indices@[k];
            &&& fetched_corner(build_geometry(p, vertex_stride), memory, k) == vertex_addr
                + vertex_stride * place
            &&& place < all_vertices(instances, n).len()
            &&& all_vertices(instances, n)[place]
                == instances[i].vertices@[instances[i].indices@[k] as int]
            &&& place <= build_geometry(p, vertex_stride).max_vertex
            &&& 3 * p.tri_count <= instances[i].indices@.len() < 3 * p.tri_count + 3
        }),
{
    let n = instances.len();
    let m = meta_of(instances, i);
    combined_indices_find_their_vertices(instances, i, k);
    instance_finds_what_is_its_own(instances, i, instances[i].indices@[k] as int);
    lemma_bases_grow(instances, i as nat, n);
    lemma_bases_grow(instances, (i + 1) as nat, n);
    let xb = all_indices(instances, i as nat).len();
    let vb = all_vertices(instances, i as nat).len();
    assert(all_indices(instances, (i + 1) as nat)[xb + k] == (instances[i].indices@[k] + vb)
        as u32);
    assert(all_indices(instances, n)[xb + k] == all_indices(instances, (i + 1) as nat)[xb + k]);
    assert(instances[i].indices@[k] + vb <= u32::MAX);
    assert(memory(index_addr + 4 * (xb + k)) == all_indices(instances, n)[xb + k]);
    let p = scene_blas(
        instances[i],
        m,
        all_vertices(instances, n).len() as u32,
        vertex_addr,
        index_addr,
    );
    assert(p.index_addr + 4 * k == index_addr + 4 * (xb + k));
    build_fetches_the_mesh(p, vertex_stride, memory, k);
}

/// What the bottom-level structure of each instance is built from: all vertices, and the
/// instance's own range of indices.
pub fn scene_blas_params<V>(
    instances: &Vec<PtGeometryInstance<V>>,
    meta: &Vec<PtInstanceMeta>,
    total_vertices: u32,
    vertex_addr: u64,
    index_addr: u64,
) -> (r: Vec<BlasBuildParams>)
    requires
        meta.len() == instances.len(),
        forall|i: int|
            0 <= i < meta.len() ==> index_addr + (#[trigger] meta@[i]).index_base * INDEX_STRIDE
                <= u64::MAX,
        forall|i: int|
            0 <= i < instances.len() ==> (#[trigger] instances@[i]).indices@.len() <= u32::MAX
                && instances@[i].vertices@.len() <= u32::MAX,
    ensures
        r@ == Seq::new(
            instances@.len(),
            |i: int|
                scene_blas(instances@[i], meta@[i], total_vertices, vertex_addr, index_addr),
        ),
{
    let mut list: Vec<BlasBuildParams> = Vec::new();
    let mut i: usize = 0;
    while i < instances.len()
        invariant
            i <= instances.len(),
            meta.len() == instances.len(),
            forall|k: int|
                0 <= k < meta.len() ==> index_addr + (#[trigger] meta@[k]).index_base * INDEX_STRIDE
                    <= u64::MAX,
            forall|k: int|
                0 <= k < instances.len() ==> (#[trigger] instances@[k]).indices@.len() <= u32::MAX
                    && instances@[k].vertices@.len() <= u32::MAX,
            list.len() == i,
            forall|k: int|
                0 <= k < i ==> #[trigger] list@[k] == (BlasBuildParams {
                    vertex_addr,
                    index_addr: (index_addr + meta@[k].index_base * INDEX_STRIDE) as u64,
                    vertex_count: total_vertices,
                    tri_count: triangles(
                        instances@[k].vertices@.len() as u32,
                        instances@[k].indices@.len() as u32,
                    ),
                }),
        decreases instances.len() - i,
    {
        assert(index_addr + meta@[i as int].index_base * INDEX_STRIDE <= u64::MAX);
        assert(instances@[i as int].indices@.len() <= u32::MAX);
        let tri_count: u32 = if instances[i].indices.len() > 0 {
            instances[i].indices.len() as u32 / 3
        } else {
            instances[i].vertices.len() as u32 / 3
        };
        list.push(
            BlasBuildParams {
                vertex_addr,
                index_addr: index_addr + (meta[i].index_base as u64) * INDEX_STRIDE,
                vertex_count: total_vertices,
                tri_count,
            },
        );
        i = i + 1;
    }
    assert(list@ =~= Seq::new(
        instances@.len(),
        |i: int| scene_blas(instances@[i], meta@[i], total_vertices, vertex_addr, index_addr),
    )) by {
        assert forall|i: int| 0 <= i < instances@.len() implies #[trigger] list@[i] == scene_blas(
            instances@[i],
            meta@[i],
            total_vertices,
            vertex_addr,
            index_addr,
        ) by {}
    }
    list
}

/// The instances of the top-level structure: each carries its own number, which shaders
/// look its data up by, and none is moved, since the vertices are in world space.
pub fn scene_tlas_instances<T: Copy>(count: u32, identity: T) -> (r: Vec<TlasInstance<T>>)
    ensures
        r@ == Seq::new(
            count as nat,
            |i: int|
                TlasInstance {
                    transform: identity,
                    custom_index: i as u32,
                    mask: 0xffu8,
                    instance_shader_binding_table_record_offset: 0u32,
                    flags: CULL_DISABLE,
                },
        ),
{
    let mut list: Vec<TlasInstance<T>> = Vec::new();
    let mut i: u32 = 0;
    while i < count
        invariant
            i <= count,
            list.len() == i,
            forall|k: int|
                0 <= k < i ==> #[trigger] list@[k] == (TlasInstance {
                    transform: identity,
                    custom_index: k as u32,
                    mask: 0xffu8,
                    instance_shader_binding_table_record_offset: 0u32,
                    flags: CULL_DISABLE,
                }),
        decreases count - i,
    {
        list.push(
            TlasInstance {
                transform: identity,
                custom_index: i,
                mask: 0xff,
                instance_shader_binding_table_record_offset: 0,
                flags: CULL_DISABLE,
            },
        );
        i = i + 1;
    }
    assert(list@ =~= Seq::new(
        count as nat,
        |i: int|
            TlasInstance {
                transform: identity,
                custom_index: i as u32,
                mask: 0xffu8,
                instance_shader_binding_table_record_offset: 0u32,
                flags: CULL_DISABLE,
            },
    ));
    list
}

/// The storage buffers of a scene.
#[derive(Clone, Copy, Debug, PartialEq, Eq, Structural)]
pub enum ScenePart {
    Vertices,
    Indices,
    InstanceMeta,
    Materials,
}

/// One step of building a scene.
#[derive(Clone, Copy, Debug, PartialEq, Eq, Structural)]
pub enum SceneStep {
    /// Create a buffer and fill it.
    CreateStorage { part: ScenePart, buffer: BufferSpec },
    /// Ask for the device address of a buffer.
    TakeAddress { part: ScenePart },
    /// Build a bottom-level structure for each instance, in one batch.
    BuildBlas { count: u32 },
    /// Build the top-level structure over them.
    BuildTlas { count: u32 },
}

/// Usage of the buffers of a scene: shaders read them, and structures are built from them.
pub const SCENE_USAGE: u32 = USAGE_STORAGE_BUFFER | USAGE_SHADER_DEVICE_ADDRESS | USAGE_BUILD_INPUT;

/// A host-visible buffer of a scene.
pub open spec fn scene_buffer(size: u64) -> BufferSpec {
    BufferSpec { size, usage: SCENE_USAGE, memory: HOST_MEMORY }
}

/// A host-visible buffer that shaders read and that structures are built from.
pub fn create_storage_buffer(size: u64) -> (r: BufferSpec)
    ensures
        r == scene_buffer(size),
{
    BufferSpec { size, usage: SCENE_USAGE, memory: HOST_MEMORY }
}

/// The buffers of a scene can be addressed, and structures can be built from them.
pub proof fn scene_can_be_built_from(size: u64)
    ensures
        contains_bits(scene_buffer(size).usage, USAGE_SHADER_DEVICE_ADDRESS),
        contains_bits(scene_buffer(size).usage, USAGE_BUILD_INPUT),
{
    assert(SCENE_USAGE & USAGE_SHADER_DEVICE_ADDRESS == USAGE_SHADER_DEVICE_ADDRESS)
        by (bit_vector);
    assert(SCENE_USAGE & USAGE_BUILD_INPUT == USAGE_BUILD_INPUT) by (bit_vector);
}

/// Size in bytes of what shaders look up by instance.
pub const META_SIZE: u64 = 16;

/// All steps that build a scene of so many vertices, indices and instances.
pub open spec fn scene_steps(
    vertices: nat,
    vertex_size: u64,
    indices: nat,
    instances: nat,
    materials_size: u64,
) -> Seq<SceneStep> {
    seq![
        SceneStep::CreateStorage {
            part: ScenePart::Vertices,
            buffer: scene_buffer((vertices * vertex_size) as u64),
        },
        SceneStep::TakeAddress { part: ScenePart::Vertices },
        SceneStep::CreateStorage {
            part: ScenePart::Indices,
            buffer: scene_buffer((indices * INDEX_STRIDE) as u64),
        },
        SceneStep::TakeAddress { part: ScenePart::Indices },
        SceneStep::CreateStorage {
            part: ScenePart::InstanceMeta,
            buffer: scene_buffer((instances * META_SIZE) as u64),
        },
        SceneStep::CreateStorage { part: ScenePart::Materials, buffer: scene_buffer(materials_size) },
        SceneStep::BuildBlas { count: instances as u32 },
        SceneStep::BuildTlas { count: instances as u32 },
    ]
}

/// Combines the instances of a scene, and gives the steps that build it. The vertices,
/// the indices and what shaders look up go into buffers, and so do the materials.
pub fn build_pt_scene<V: Copy>(
    instances: &Vec<PtGeometryInstance<V>>,
    vertex_size: u64,
    materials_size: u64,
) -> (r: Result<(CombinedGeometry<V>, Vec<SceneStep>), SceneError>)
    requires
        fits(instances@),
        instances@.len() <= u32::MAX,
        all_vertices(instances@, instances@.len()).len() * vertex_size <= u64::MAX,
    ensures
        match r {
            Ok((g, steps)) => {
                &&& instances@.len() > 0
                &&& g.vertices@ == all_vertices(instances@, instances@.len())
                &&& g.indices@ == all_indices(instances@, instances@.len())
                &&& g.meta@ == Seq::new(instances@.len(), |i: int| meta_of(instances@, i))
                &&& steps@ == scene_steps(
                    g.vertices@.len(),
                    vertex_size,
                    g.indices@.len(),
                    instances@.len(),
                    materials_size,
                )
            },
            Err(e) => instances@.len() == 0 && e == SceneError::NoInstances,
        },
{
    let g = match combine_instances(instances) {
        Ok(g) => g,
        Err(e) => return Err(e),
    };
    let count: u32 = instances.len() as u32;
    let mut steps: Vec<SceneStep> = Vec::new();
    steps.push(
        SceneStep::CreateStorage {
            part: ScenePart::Vertices,
            buffer: create_storage_buffer((g.vertices.len() as u64) * vertex_size),
        },
    );
    steps.push(SceneStep::TakeAddress { part: ScenePart::Vertices });
    steps.push(
        SceneStep::CreateStorage {
            part: ScenePart::Indices,
            buffer: create_storage_buffer((g.indices.len() as u64) * INDEX_STRIDE),
        },
    );
    steps.push(SceneStep::TakeAddress { part: ScenePart::Indices });
    steps.push(
        SceneStep::CreateStorage {
            part: ScenePart::InstanceMeta,
            buffer: create_storage_buffer((instances.len() as u64) * META_SIZE),
        },
    );
    steps.push(SceneStep::CreateStorage { part: ScenePart::Materials, buffer: create_storage_buffer(materials_size) });
    steps.push(SceneStep::BuildBlas { count });
    steps.push(SceneStep::BuildTlas { count });
    assert(steps@ =~= scene_steps(
        g.vertices@.len(),
        vertex_size,
        g.indices@.len(),
        instances@.len(),
        materials_size,
    ));
    Ok((g, steps))
}

/// The triangles of an instance with indices are read from within the index buffer.
pub proof fn triangles_are_in_the_index_buffer<V>(instances: Seq<PtGeometryInstance<V>>, i: int)
    requires
        fits(instances),
        0 <= i < instances.len(),
        instances[i].indices@.len() > 0,
    ensures
        meta_of(instances, i).index_base + 3 * triangles(
            instances[i].vertices@.len() as u32,
            instances[i].indices@.len() as u32,
        ) <= all_indices(instances, instances.len()).len(),
{
    lemma_bases_grow(instances, i as nat, instances.len());
    lemma_bases_grow(instances, (i + 1) as nat, instances.len());
    assert(all_indices(instances, (i + 1) as nat).len() == all_indices(instances, i as nat).len()
        + instances[i].indices@.len());
}

// ---------------------------------------------------------------------------
// What a built scene owns
// ---------------------------------------------------------------------------

/// A buffer and the memory that it is bound to.
#[derive(Clone, Copy, Debug, PartialEq, Eq, Structural)]
pub struct OwnedBuffer {
    pub buffer: u64,
    pub memory: u64,
}

/// A built scene, by the handles of what it owns.
pub struct PtScene {
    pub vertices: OwnedBuffer,
    /// Device address of the vertices.
    pub vertex_address: u64,
    pub indices: OwnedBuffer,
    pub instance_meta: OwnedBuffer,
    pub materials: OwnedBuffer,
    pub blas_entries: Vec<BlasEntry>,
    pub tlas: Option<Tlas>,
    pub instance_count: u32,
    pub live: bool,
}

/// What is destroyed with a buffer.
pub open spec fn buffer_release(b: OwnedBuffer) -> Seq<Release> {
    seq![Release::Buffer(b.buffer), Release::Memory(b.memory)]
}

/// What is destroyed with the structures of a list.
pub open spec fn structures_release(list: Seq<BlasEntry>) -> Seq<Release>
    decreases list.len(),
{
    if list.len() == 0 {
        Seq::empty()
    } else {
        structures_release(list.drop_last()) + blas_release(list.last())
    }
}

/// What is destroyed with the top-level structure, where there is one.
pub open spec fn top_release(tlas: Option<Tlas>) -> Seq<Release> {
    match tlas {
        Some(t) => tlas_release(t),
        None => Seq::empty(),
    }
}

fn release_buffer(list: &mut Vec<Release>, b: OwnedBuffer)
    ensures
        final(list)@ == old(list)@ + buffer_release(b),
{
    list.push(Release::Buffer(b.buffer));
    list.push(Release::Memory(b.memory));
}

fn release_structure(list: &mut Vec<Release>, s: BlasEntry)
    ensures
        final(list)@ == old(list)@ + blas_release(s),
{
    list.push(Release::AccelerationStructure(s.handle));
    list.push(Release::Buffer(s.buffer));
    list.push(Release::Memory(s.memory));
    assert(list@ =~= old(list)@ + blas_release(s));
}

impl PtScene {
    /// The scene over freshly built objects.
    pub fn new(
        vertices: OwnedBuffer,
        vertex_address: u64,
        indices: OwnedBuffer,
        instance_meta: OwnedBuffer,
        materials: OwnedBuffer,
        blas_entries: Vec<BlasEntry>,
        tlas: Tlas,
        instance_count: u32,
    ) -> (r: Self)
        ensures
            r == (PtScene {
                vertices,
                vertex_address,
                indices,
                instance_meta,
                materials,
                blas_entries,
                tlas: Some(tlas),
                instance_count,
                live: true,
            }),
    {
        PtScene {
            vertices,
            vertex_address,
            indices,
            instance_meta,
            materials,
            blas_entries,
            tlas: Some(tlas),
            instance_count,
            live: true,
        }
    }

    /// Everything that the scene owns, in the order in which it is destroyed.
    pub open spec fn owned(&self) -> Seq<Release> {
        buffer_release(self.vertices) + buffer_release(self.indices) + buffer_release(
            self.instance_meta,
        ) + buffer_release(self.materials) + structures_release(self.blas_entries@) + top_release(
            self.tlas,
        )
    }

    /// Destroys the scene: what is owned is handed out, and dropping the scene then
    /// destroys nothing more.
    pub fn destroy(&mut self) -> (r: Vec<Release>)
        ensures
            r@ == old(self).owned(),
            final(self).blas_entries@.len() == 0,
            final(self).tlas is None,
            !final(self).live,
            final(self).vertices == old(self).vertices,
            final(self).vertex_address == old(self).vertex_address,
            final(self).indices == old(self).indices,
            final(self).instance_meta == old(self).instance_meta,
            final(self).materials == old(self).materials,
            final(self).instance_count == old(self).instance_count,
    {
        let mut list: Vec<Release> = Vec::new();
        release_buffer(&mut list, self.vertices);
        release_buffer(&mut list, self.indices);
        release_buffer(&mut list, self.instance_meta);
        release_buffer(&mut list, self.materials);
        let ghost buffers = list@;
        let ghost all = self.blas_entries@;
        let mut i: usize = 0;
        assert(list@ =~= buffers + structures_release(all.take(0)));
        while i < self.blas_entries.len()
            invariant
                i <= all.len(),
                self.blas_entries@ == all,
                self.tlas == old(self).tlas,
                self.vertices == old(self).vertices,
                self.vertex_address == old(self).vertex_address,
                self.indices == old(self).indices,
                self.instance_meta == old(self).instance_meta,
                self.materials == old(self).materials,
                self.instance_count == old(self).instance_count,
                list@ == buffers + structures_release(all.take(i as int)),
            decreases all.len() - i,
        {
            release_structure(&mut list, self.blas_entries[i]);
            i = i + 1;
            assert(all.take(i as int).drop_last() =~= all.take(i - 1));
            assert(list@ =~= buffers + structures_release(all.take(i as int)));
        }
        assert(all.take(i as int) =~= all);
        if let Some(t) = self.tlas {
            let mut top = t.release();
            list.append(&mut top);
        }
        assert(list@ =~= old(self).owned());
        self.blas_entries.clear();
        self.tlas = None;
        self.live = false;
        list
    }

    /// What is destroyed when the scene goes away: everything, unless it was destroyed
    /// before.
    pub fn release(&mut self) -> (r: Vec<Release>)
        ensures
            r@ == (if old(self).live {
                old(self).owned()
            } else {
                Seq::empty()
            }),
            !final(self).live,
    {
        if self.live {
            self.destroy()
        } else {
            Vec::new()
        }
    }
}

// ---------------------------------------------------------------------------
// Emissive triangles
// ---------------------------------------------------------------------------

/// One triangle of an emissive instance, by the indices of its corners.
#[derive(Clone, Copy, Debug, PartialEq, Eq, Structural)]
pub struct EmissiveTriangle {
    pub instance: usize,
    pub a: u32,
    pub b: u32,
    pub c: u32,
}

/// Where the emission of a material begins.
pub open spec fn emission_at(material_slot: u32, materials_len: usize) -> Option<usize> {
    if material_slot * MATERIAL_SIZE + 32 <= materials_len {
        Some((material_slot * MATERIAL_SIZE + 24) as usize)
    } else {
        None
    }
}

/// Where the emission of a material begins: its emissive factor, and behind it its
/// strength. Nothing where the material lies outside the materials' bytes.
pub fn emission_offset(material_slot: u32, materials_len: usize) -> (r: Option<usize>)
    requires
        material_slot * MATERIAL_SIZE + 32 <= usize::MAX,
    ensures
        r == emission_at(material_slot, materials_len),
{
    let offset: usize = (material_slot as usize) * MATERIAL_SIZE;
    if offset + 32 > materials_len {
        None
    } else {
        Some(offset + 24)
    }
}

/// Triangle `t` of an instance.
pub open spec fn triangle_at(instance: int, indices: Seq<u32>, t: int) -> EmissiveTriangle {
    EmissiveTriangle {
        instance: instance as usize,
        a: indices[3 * t],
        b: indices[3 * t + 1],
        c: indices[3 * t + 2],
    }
}

/// The first `n` triangles of an instance.
pub open spec fn triangles_of(instance: int, indices: Seq<u32>, n: nat) -> Seq<EmissiveTriangle> {
    Seq::new(n, |t: int| triangle_at(instance, indices, t))
}

/// The triangles of the emissive instances among the first `n`.
pub open spec fn emissive_of(lists: Seq<Seq<u32>>, emissive: Seq<bool>, n: nat) -> Seq<
    EmissiveTriangle,
>
    decreases n,
{
    if n == 0 {
        Seq::empty()
    } else {
        let before = emissive_of(lists, emissive, (n - 1) as nat);
        if emissive[n - 1] {
            before + triangles_of(n - 1, lists[n - 1], lists[n - 1].len() / 3)
        } else {
            before
        }
    }
}

/// At most `limit` of the first elements.
pub open spec fn at_most<T>(s: Seq<T>, limit: nat) -> Seq<T> {
    if s.len() <= limit {
        s
    } else {
        s.take(limit as int)
    }
}

/// The index lists of the instances.
pub open spec fn index_lists<V>(instances: Seq<PtGeometryInstance<V>>) -> Seq<Seq<u32>> {
    instances.map_values(|i: PtGeometryInstance<V>| i.indices@)
}

proof fn lemma_emissive_grows(lists: Seq<Seq<u32>>, emissive: Seq<bool>, i: nat, n: nat)
    requires
        i <= n,
    ensures
        emissive_of(lists, emissive, i).len() <= emissive_of(lists, emissive, n).len(),
        emissive_of(lists, emissive, i) == emissive_of(lists, emissive, n).take(
            emissive_of(lists, emissive, i).len() as int,
        ),
    decreases n - i,
{
    let a = emissive_of(lists, emissive, i);
    if i < n {
        lemma_emissive_grows(lists, emissive, i, (n - 1) as nat);
        let b = emissive_of(lists, emissive, (n - 1) as nat);
        assert(emissive_of(lists, emissive, n).take(a.len() as int) =~= b.take(a.len() as int));
    } else {
        assert(a.take(a.len() as int) =~= a);
    }
}

/// Collects the triangles of the instances that emit light, in order, up to the number
/// that the path tracer can hold.
pub fn collect_emissive<V>(instances: &Vec<PtGeometryInstance<V>>, emissive: &Vec<bool>) -> (r: Vec<
    EmissiveTriangle,
>)
    requires
        emissive.len() == instances.len(),
    ensures
        r@ == at_most(
            emissive_of(index_lists(instances@), emissive@, instances@.len()),
            PT_EMISSIVE_MAX as nat,
        ),
{
    let ghost lists = index_lists(instances@);
    let ghost all = emissive_of(lists, emissive@, instances@.len());
    let mut list: Vec<EmissiveTriangle> = Vec::new();
    let mut i: usize = 0;
    while i < instances.len()
        invariant
            i <= instances.len(),
            emissive.len() == instances.len(),
            lists == index_lists(instances@),
            all == emissive_of(lists, emissive@, instances@.len()),
            list@ == emissive_of(lists, emissive@, i as nat),
            list.len() <= PT_EMISSIVE_MAX,
        decreases instances.len() - i,
    {
        if emissive[i] {
            let indices = &instances[i].indices;
            assert(indices@ == lists[i as int]);
            let count: usize = indices.len() / 3;
            let ghost before = list@;
            let mut t: usize = 0;
            assert(list@ =~= before + triangles_of(i as int, indices@, 0));
            while t < count
                invariant
                    t <= count,
                    count == indices.len() / 3,
                    i < instances.len(),
                    emissive.len() == instances.len(),
                    emissive@[i as int],
                    lists == index_lists(instances@),
                    indices@ == lists[i as int],
                    all == emissive_of(lists, emissive@, instances@.len()),
                    before == emissive_of(lists, emissive@, i as nat),
                    list@ == before + triangles_of(i as int, indices@, t as nat),
                    list.len() <= PT_EMISSIVE_MAX,
                decreases count - t,
            {
                if list.len() >= PT_EMISSIVE_MAX as usize {
                    proof {
                        let next = emissive_of(lists, emissive@, (i + 1) as nat);
                        lemma_emissive_grows(lists, emissive@, (i + 1) as nat, instances@.len());
                        assert(next == before + triangles_of(i as int, indices@, count as nat));
                        assert(list@ =~= next.take(list@.len() as int));
                        assert(list@ =~= all.take(list@.len() as int));
                    }
                    return list;
                }
                let tri = EmissiveTriangle {
                    instance: i,
                    a: indices[3 * t],
                    b: indices[3 * t + 1],
                    c: indices[3 * t + 2],
                };
                list.push(tri);
                t = t + 1;
                assert(list@ =~= before + triangles_of(i as int, indices@, t as nat));
            }
        }
        i = i + 1;
    }
    list
}

/// How many triangles the emissive instances among the first `n` have.
pub open spec fn emissive_total(lists: Seq<Seq<u32>>, emissive: Seq<bool>, n: nat) -> nat
    decreases n,
{
    if n == 0 {
        0
    } else {
        emissive_total(lists, emissive, (n - 1) as nat) + (if emissive[n - 1] {
            lists[n - 1].len() / 3
        } else {
            0
        })
    }
}

proof fn lemma_emissive_place(
    lists: Seq<Seq<u32>>,
    emissive: Seq<bool>,
    n: nat,
    i: int,
    t: int,
)
    requires
        0 <= i < n,
        emissive[i],
        0 <= t < lists[i].len() / 3,
    ensures
        ({
            let all = emissive_of(lists, emissive, n);
            let place = emissive_total(lists, emissive, i as nat) + t;
            &&& place < all.len()
            &&& all[place].instance == i as usize
            &&& all[place].a == lists[i][3 * t]
            &&& all[place].b == lists[i][3 * t + 1]
            &&& all[place].c == lists[i][3 * t + 2]
        }),
    decreases n,
{
    lemma_emissive_len(lists, emissive, (n - 1) as nat);
    if i < n - 1 {
        lemma_emissive_place(lists, emissive, (n - 1) as nat, i, t);
    }
}

proof fn lemma_emissive_len(lists: Seq<Seq<u32>>, emissive: Seq<bool>, n: nat)
    ensures
        emissive_of(lists, emissive, n).len() == emissive_total(lists, emissive, n),
    decreases n,
{
    if n > 0 {
        lemma_emissive_len(lists, emissive, (n - 1) as nat);
    }
}

/// Every lamp counts: each triangle of each emissive instance is collected, as far as there
/// is room for it, in its place behind those of the emissive instances before it.
pub proof fn every_emissive_triangle_is_collected<V>(
    instances: Seq<PtGeometryInstance<V>>,
    emissive: Seq<bool>,
    r: Seq<EmissiveTriangle>,
    i: int,
    t: int,
)
    requires
        emissive.len() == instances.len(),
        r == at_most(
            emissive_of(index_lists(instances), emissive, instances.len()),
            PT_EMISSIVE_MAX as nat,
        ),
        0 <= i < instances.len(),
        emissive[i],
        0 <= t < instances[i].indices@.len() / 3,
    ensures
        ({
            let place = emissive_total(index_lists(instances), emissive, i as nat) + t;
            let triangle = EmissiveTriangle {
                instance: i as usize,
                a: instances[i].indices@[3 * t],
                b: instances[i].indices@[3 * t + 1],
                c: instances[i].indices@[3 * t + 2],
            };
            place < PT_EMISSIVE_MAX ==> place < r.len() && r[place] == triangle && r.contains(
                triangle,
            )
        }),
        emissive_total(index_lists(instances), emissive, instances.len()) <= PT_EMISSIVE_MAX
            ==> emissive_total(index_lists(instances), emissive, i as nat) + t < PT_EMISSIVE_MAX,
{
    let lists = index_lists(instances);
    assert(lists[i] == instances[i].indices@);
    lemma_emissive_len(lists, emissive, instances.len());
    lemma_emissive_place(lists, emissive, instances.len(), i, t);
    let place = emissive_total(lists, emissive, i as nat) + t;
    if place < PT_EMISSIVE_MAX {
        assert(r[place] == emissive_of(lists, emissive, instances.len())[place]);
        assert(r[place] == (EmissiveTriangle {
            instance: i as usize,
            a: instances[i].indices@[3 * t],
            b: instances[i].indices@[3 * t + 1],
            c: instances[i].indices@[3 * t + 2],
        }));
    }
}

/// There are as many collected triangles as the emissive instances have together, up to
/// the limit, and each of them belongs to an emissive instance.
pub proof fn only_emissive_triangles_are_collected<V>(
    instances: Seq<PtGeometryInstance<V>>,
    emissive: Seq<bool>,
    r: Seq<EmissiveTriangle>,
)
    requires
        instances.len() <= usize::MAX,
        emissive.len() == instances.len(),
        r == at_most(
            emissive_of(index_lists(instances), emissive, instances.len()),
            PT_EMISSIVE_MAX as nat,
        ),
    ensures
        ({
            let total = emissive_total(index_lists(instances), emissive, instances.len());
            r.len() == (if total <= PT_EMISSIVE_MAX {
                total
            } else {
                PT_EMISSIVE_MAX as nat
            })
        }),
        forall|k: int|
            0 <= k < r.len() ==> (#[trigger] r[k]).instance < instances.len()
                && emissive[r[k].instance as int],
{
    let lists = index_lists(instances);
    lemma_emissive_len(lists, emissive, instances.len());
    assert forall|k: int| 0 <= k < r.len() implies (#[trigger] r[k]).instance < instances.len()
        && emissive[r[k].instance as int] by {
        lemma_emissive_only(lists, emissive, instances.len(), k);
    }
}

proof fn lemma_emissive_only(lists: Seq<Seq<u32>>, emissive: Seq<bool>, n: nat, k: int)
    requires
        n <= usize::MAX,
        0 <= k < emissive_of(lists, emissive, n).len(),
    ensures
        emissive_of(lists, emissive, n)[k].instance < n,
        emissive[emissive_of(lists, emissive, n)[k].instance as int],
    decreases n,
{
    if n > 0 {
        if k < emissive_of(lists, emissive, (n - 1) as nat).len() {
            lemma_emissive_only(lists, emissive, (n - 1) as nat, k);
        }
    }
}

/// Size in bytes of an emissive triangle on the device.
pub const EMISSIVE_SIZE: u64 = 84;

/// The size of the buffer for the emissive triangles. Where there are none, there is no
/// buffer.
pub fn emissive_buffer_size(count: u32) -> (r: Option<u64>)
    ensures
        r == (if count == 0 {
            None
        } else {
            Some((count * EMISSIVE_SIZE) as u64)
        }),
{
    if count == 0 {
        None
    } else {
        Some((count as u64) * EMISSIVE_SIZE)
    }
}

/// The buffer of the emissive triangles and their number. Where it could not be created,
/// the scene goes without emissive triangles.
pub fn create_emissive_buffer(count: u32, created: Option<OwnedBuffer>) -> (r: (
    Option<OwnedBuffer>,
    u32,
))
    ensures
        r == (if count > 0 && created is Some {
            (created, count)
        } else {
            (None, 0u32)
        }),
{
    if count > 0 && created.is_some() {
        (created, count)
    } else {
        (None, 0)
    }
}

// ---------------------------------------------------------------------------
// Walking a node tree
// ---------------------------------------------------------------------------

/// A node of a scene. `N` is what is known of the node itself.
pub struct SceneNode<N> {
    pub value: N,
    pub children: Vec<SceneNode<N>>,
}

/// A node in the order in which nodes are visited, and the place of its parent in that
/// order. A root has no parent.
#[derive(Clone, Copy, Debug, PartialEq)]
pub struct Visit<N> {
    pub value: N,
    pub parent: Option<usize>,
}

/// A node and all nodes below it, where `at` nodes were visited before: a node comes
/// before its children, and all that is below a child before the next child.
pub open spec fn visits_of<N>(node: SceneNode<N>, parent: Option<usize>, at: nat) -> Seq<Visit<N>>
    decreases node, 0nat,
{
    seq![Visit { value: node.value, parent }] + list_visits(
        node.children@,
        Some(at as usize),
        at + 1,
        node.children@.len(),
    )
}

/// The first `n` nodes of a list and all nodes below them.
pub open spec fn list_visits<N>(
    nodes: Seq<SceneNode<N>>,
    parent: Option<usize>,
    at: nat,
    n: nat,
) -> Seq<Visit<N>>
    decreases nodes, n,
{
    if n == 0 || n > nodes.len() {
        Seq::empty()
    } else {
        let before = list_visits(nodes, parent, at, (n - 1) as nat);
        before + visits_of(nodes[n - 1], parent, at + before.len())
    }
}

fn visit_node<N: Copy>(node: &SceneNode<N>, parent: Option<usize>, list: &mut Vec<Visit<N>>)
    ensures
        final(list)@ == old(list)@ + visits_of(*node, parent, old(list)@.len()),
    decreases node,
{
    let at: usize = list.len();
    let ghost before = list@;
    list.push(Visit { value: node.value, parent });
    let ghost own = list@;
    let mut i: usize = 0;
    assert(list@ =~= own + list_visits(node.children@, Some(at), (at + 1) as nat, 0));
    while i < node.children.len()
        invariant
            i <= node.children.len(),
            own.len() == at + 1,
            list@ == own + list_visits(node.children@, Some(at), (at + 1) as nat, i as nat),
        decreases node.children.len() - i,
    {
        visit_node(&node.children[i], Some(at), list);
        i = i + 1;
        assert(list@ =~= own + list_visits(node.children@, Some(at), (at + 1) as nat, i as nat));
    }
    assert(list@ =~= before + visits_of(*node, parent, before.len()));
}

/// The nodes of a scene in the order in which they are visited.
pub fn visit_scene<N: Copy>(roots: &Vec<SceneNode<N>>) -> (r: Vec<Visit<N>>)
    ensures
        r@ == list_visits(roots@, None, 0, roots@.len()),
{
    let mut list: Vec<Visit<N>> = Vec::new();
    let mut i: usize = 0;
    assert(list@ =~= list_visits(roots@, None, 0, 0));
    while i < roots.len()
        invariant
            i <= roots.len(),
            list@ == list_visits(roots@, None, 0, i as nat),
        decreases roots.len() - i,
    {
        visit_node(&roots[i], None, &mut list);
        i = i + 1;
        assert(list@ =~= list_visits(roots@, None, 0, i as nat));
    }
    list
}

/// Every visit but a root's names a parent that comes before it, where the visits begin
/// at place `at`, and whoever is not below one of them has the given parent.
pub open spec fn parents_first<N>(visits: Seq<Visit<N>>, parent: Option<usize>, at: nat) -> bool {
    forall|i: int|
        0 <= i < visits.len() ==> (#[trigger] visits[i]).parent == parent || (
        visits[i].parent matches Some(p) && at <= p < at + i)
}

proof fn lemma_parents_of_node<N>(node: SceneNode<N>, parent: Option<usize>, at: nat)
    requires
        at + visits_of(node, parent, at).len() <= usize::MAX,
    ensures
        parents_first(visits_of(node, parent, at), parent, at),
    decreases node, 0nat,
{
    lemma_parents_of_list(node.children@, Some(at as usize), at + 1, node.children@.len());
    let below = list_visits(node.children@, Some(at as usize), at + 1, node.children@.len());
    let all = visits_of(node, parent, at);
    assert forall|i: int| 0 <= i < all.len() implies (#[trigger] all[i]).parent == parent || (
    all[i].parent matches Some(p) && at <= p < at + i) by {
        if i > 0 {
            assert(all[i] == below[i - 1]);
        }
    }
}

proof fn lemma_parents_of_list<N>(
    nodes: Seq<SceneNode<N>>,
    parent: Option<usize>,
    at: nat,
    n: nat,
)
    requires
        at + list_visits(nodes, parent, at, n).len() <= usize::MAX,
    ensures
        parents_first(list_visits(nodes, parent, at, n), parent, at),
    decreases nodes, n,
{
    if n > 0 && n <= nodes.len() {
        let before = list_visits(nodes, parent, at, (n - 1) as nat);
        let last = visits_of(nodes[n - 1], parent, at + before.len());
        lemma_parents_of_list(nodes, parent, at, (n - 1) as nat);
        lemma_parents_of_node(nodes[n - 1], parent, at + before.len());
        let all = list_visits(nodes, parent, at, n);
        assert forall|i: int| 0 <= i < all.len() implies (#[trigger] all[i]).parent == parent || (
        all[i].parent matches Some(p) && at <= p < at + i) by {
            if i < before.len() {
                assert(all[i] == before[i]);
            } else {
                assert(all[i] == last[i - before.len()]);
            }
        }
    }
}

/// A node is visited after its parent, so that what it has from its parent is there.
pub proof fn parents_are_visited_first<N>(roots: Seq<SceneNode<N>>, i: int)
    requires
        list_visits(roots, None, 0, roots.len()).len() <= usize::MAX,
        0 <= i < list_visits(roots, None, 0, roots.len()).len(),
    ensures
        list_visits(roots, None, 0, roots.len())[i].parent matches Some(p) ==> p < i,
{
    lemma_parents_of_list(roots, None, 0, roots.len());
}

/// Number of nodes at and below the first `n` nodes of a list.
pub open spec fn node_count<N>(nodes: Seq<SceneNode<N>>, n: nat) -> nat
    decreases nodes, n,
{
    if n == 0 || n > nodes.len() {
        0
    } else {
        node_count(nodes, (n - 1) as nat) + 1 + node_count(
            nodes[n - 1].children@,
            nodes[n - 1].children@.len(),
        )
    }
}

/// Every node is visited once: there are as many visits as nodes.
pub proof fn visits_are_complete<N>(
    nodes: Seq<SceneNode<N>>,
    parent: Option<usize>,
    at: nat,
    n: nat,
)
    ensures
        list_visits(nodes, parent, at, n).len() == node_count(nodes, n),
    decreases nodes, n,
{
    if n > 0 && n <= nodes.len() {
        let before = list_visits(nodes, parent, at, (n - 1) as nat);
        let node = nodes[n - 1];
        visits_are_complete(nodes, parent, at, (n - 1) as nat);
        visits_are_complete(
            node.children@,
            Some((at + before.len()) as usize),
            at + before.len() + 1,
            node.children@.len(),
        );
        reveal_with_fuel(list_visits, 2);
        reveal_with_fuel(visits_of, 2);
        assert(list_visits(nodes, parent, at, n) == before + visits_of(
            node,
            parent,
            at + before.len(),
        ));
    }
}

/// A node is visited first of all that is below it, and each of its children right behind
/// what is below the children before it, with the node named as its parent.
pub proof fn children_name_their_parent<N>(
    node: SceneNode<N>,
    parent: Option<usize>,
    at: nat,
    k: int,
)
    requires
        at + visits_of(node, parent, at).len() <= usize::MAX,
        0 <= k < node.children@.len(),
    ensures
        ({
            let visits = visits_of(node, parent, at);
            let place = 1 + node_count(node.children@, k as nat) as int;
            &&& visits[0].value == node.value
            &&& visits[0].parent == parent
            &&& place < visits.len()
            &&& visits[place].value == node.children@[k].value
            &&& visits[place].parent == Some(at as usize)
        }),
{
    siblings_follow_each_other(
        node.children@,
        Some(at as usize),
        at + 1,
        node.children@.len(),
        k,
    );
    let below = list_visits(node.children@, Some(at as usize), at + 1, node.children@.len());
    let place = node_count(node.children@, k as nat);
    assert(visits_of(node, parent, at)[1 + place as int] == below[place as int]);
}

/// The nodes of a list are visited in their order, each right behind what is below the ones
/// before it, and what is visited from there on is the node and what is below it.
pub proof fn siblings_follow_each_other<N>(
    nodes: Seq<SceneNode<N>>,
    parent: Option<usize>,
    at: nat,
    n: nat,
    k: int,
)
    requires
        n <= nodes.len(),
        0 <= k < n,
    ensures
        ({
            let visits = list_visits(nodes, parent, at, n);
            let place = node_count(nodes, k as nat);
            let own = visits_of(nodes[k], parent, at + place);
            &&& own.len() > 0
            &&& own[0].value == nodes[k].value
            &&& own[0].parent == parent
            &&& place + own.len() <= visits.len()
            &&& visits.subrange(place as int, (place + own.len()) as int) == own
            &&& visits[place as int] == own[0]
        }),
    decreases n,
{
    let before = list_visits(nodes, parent, at, (n - 1) as nat);
    visits_are_complete(nodes, parent, at, (n - 1) as nat);
    let visits = list_visits(nodes, parent, at, n);
    let own = visits_of(nodes[k], parent, at + node_count(nodes, k as nat));
    let place = node_count(nodes, k as nat) as int;
    if k < n - 1 {
        siblings_follow_each_other(nodes, parent, at, (n - 1) as nat, k);
        assert(visits.subrange(place, place + own.len()) =~= before.subrange(
            place,
            place + own.len(),
        ));
        assert(visits[place] == before[place]);
    } else {
        assert(visits.subrange(place, place + own.len()) =~= own);
        assert(visits[place] == own[0]);
    }
}

// ---------------------------------------------------------------------------
// Flattening a scene
// ---------------------------------------------------------------------------

/// One primitive of a mesh, with its vertices already in world space.
pub struct Primitive<V> {
    pub vertices: Vec<V>,
    pub indices: Vec<u32>,
}

/// A whole scene as one mesh.
pub struct FlatMesh<V> {
    pub vertices: Vec<V>,
    pub indices: Vec<u32>,
}

/// The vertices of a mesh's first `n` primitives.
pub open spec fn primitive_vertices<V>(primitives: Seq<Primitive<V>>, n: nat) -> Seq<V>
    decreases n,
{
    if n == 0 {
        Seq::empty()
    } else {
        primitive_vertices(primitives, (n - 1) as nat) + primitives[n - 1].vertices@
    }
}

/// The indices of a mesh's first `n` primitives, each moved by the number of vertices
/// before its primitive: the `base` vertices before the mesh, and those of the mesh's
/// earlier primitives.
pub open spec fn primitive_indices<V>(primitives: Seq<Primitive<V>>, base: int, n: nat) -> Seq<u32>
    decreases n,
{
    if n == 0 {
        Seq::empty()
    } else {
        primitive_indices(primitives, base, (n - 1) as nat) + moved_indices(
            primitives[n - 1].indices@,
            base + primitive_vertices(primitives, (n - 1) as nat).len(),
        )
    }
}

/// The indices of a mesh can be moved in 32 bits.
pub open spec fn primitives_fit<V>(primitives: Seq<Primitive<V>>, base: int) -> bool {
    forall|p: int, k: int|
        0 <= p < primitives.len() && 0 <= k < primitives[p].indices@.len() ==> base
            + primitive_vertices(primitives, p as nat).len() + (
        #[trigger] primitives[p].indices@[k]) <= u32::MAX
}

impl<V: Copy> FlatMesh<V> {
    /// An empty mesh.
    pub fn new() -> (r: Self)
        ensures
            r.vertices@.len() == 0,
            r.indices@.len() == 0,
    {
        FlatMesh { vertices: Vec::new(), indices: Vec::new() }
    }

    /// Appends the mesh of one node.
    pub fn append_mesh(&mut self, primitives: &Vec<Primitive<V>>)
        requires
            primitives_fit(primitives@, old(self).vertices@.len() as int),
        ensures
            final(self).vertices@ == old(self).vertices@ + primitive_vertices(
                primitives@,
                primitives@.len(),
            ),
            final(self).indices@ == old(self).indices@ + primitive_indices(
                primitives@,
                old(self).vertices@.len() as int,
                primitives@.len(),
            ),
    {
        let ghost v0 = self.vertices@;
        let ghost x0 = self.indices@;
        let ghost start = v0.len() as int;
        let mut p: usize = 0;
        assert(self.vertices@ =~= v0 + primitive_vertices(primitives@, 0));
        assert(self.indices@ =~= x0 + primitive_indices(primitives@, start, 0));
        while p < primitives.len()
            invariant
                p <= primitives.len(),
                start == v0.len(),
                primitives_fit(primitives@, start),
                self.vertices@ == v0 + primitive_vertices(primitives@, p as nat),
                self.indices@ == x0 + primitive_indices(primitives@, start, p as nat),
            decreases primitives.len() - p,
        {
            let prim = &primitives[p];
            let base: usize = self.vertices.len();
            let ghost v1 = self.vertices@;
            let ghost x1 = self.indices@;
            let mut k: usize = 0;
            while k < prim.vertices.len()
                invariant
                    k <= prim.vertices.len(),
                    self.vertices@ == v1 + prim.vertices@.take(k as int),
                    self.indices@ == x1,
                decreases prim.vertices.len() - k,
            {
                self.vertices.push(prim.vertices[k]);
                k = k + 1;
                assert(self.vertices@ =~= v1 + prim.vertices@.take(k as int));
            }
            assert(prim.vertices@.take(k as int) =~= prim.vertices@);
            let ghost v2 = self.vertices@;
            let mut j: usize = 0;
            assert(self.indices@ =~= x1 + moved_indices(prim.indices@.take(0), base as int));
            while j < prim.indices.len()
                invariant
                    j <= prim.indices.len(),
                    p < primitives.len(),
                    *prim == primitives@[p as int],
                    primitives_fit(primitives@, start),
                    base == start + primitive_vertices(primitives@, p as nat).len(),
                    self.vertices@ == v2,
                    self.indices@ == x1 + moved_indices(prim.indices@.take(j as int), base as int),
                decreases prim.indices.len() - j,
            {
                assert(base + primitives@[p as int].indices@[j as int] <= u32::MAX);
                self.indices.push((base + prim.indices[j] as usize) as u32);
                j = j + 1;
                assert(self.indices@ =~= x1 + moved_indices(
                    prim.indices@.take(j as int),
                    base as int,
                ));
            }
            assert(prim.indices@.take(j as int) =~= prim.indices@);
            p = p + 1;
            assert(self.vertices@ =~= v0 + primitive_vertices(primitives@, p as nat));
            assert(self.indices@ =~= x0 + primitive_indices(primitives@, start, p as nat));
        }
    }
}

proof fn lemma_primitive_is_kept<V>(
    base: int,
    primitives: Seq<Primitive<V>>,
    p: int,
    n: nat,
    k: int,
)
    requires
        0 <= p < n <= primitives.len(),
        0 <= k < primitives[p].indices@.len(),
        primitives[p].indices@[k] < primitives[p].vertices@.len(),
    ensures
        ({
            let at = primitive_indices(primitives, base, p as nat).len() + k;
            let ix = primitives[p].indices@[k];
            let before = primitive_vertices(primitives, p as nat).len();
            &&& at < primitive_indices(primitives, base, n).len()
            &&& primitive_indices(primitives, base, n)[at as int] == (ix + (base + before)) as u32
            &&& before + ix < primitive_vertices(primitives, n).len()
            &&& primitive_vertices(primitives, n)[before + ix]
                == primitives[p].vertices@[ix as int]
        }),
    decreases n,
{
    if n > p + 1 {
        lemma_primitive_is_kept(base, primitives, p, (n - 1) as nat, k);
    }
}

/// The vertices of the first `n` meshes.
pub open spec fn mesh_vertices<V>(meshes: Seq<Vec<Primitive<V>>>, n: nat) -> Seq<V>
    decreases n,
{
    if n == 0 {
        Seq::empty()
    } else {
        mesh_vertices(meshes, (n - 1) as nat) + primitive_vertices(
            meshes[n - 1]@,
            meshes[n - 1]@.len(),
        )
    }
}

/// The indices of the first `n` meshes, each moved by the number of vertices before it.
pub open spec fn mesh_indices<V>(meshes: Seq<Vec<Primitive<V>>>, n: nat) -> Seq<u32>
    decreases n,
{
    if n == 0 {
        Seq::empty()
    } else {
        mesh_indices(meshes, (n - 1) as nat) + primitive_indices(
            meshes[n - 1]@,
            mesh_vertices(meshes, (n - 1) as nat).len() as int,
            meshes[n - 1]@.len(),
        )
    }
}

/// The indices of the meshes can be moved in 32 bits.
pub open spec fn meshes_fit<V>(meshes: Seq<Vec<Primitive<V>>>) -> bool {
    forall|i: int|
        0 <= i < meshes.len() ==> primitives_fit(
            (#[trigger] meshes[i])@,
            mesh_vertices(meshes, i as nat).len() as int,
        )
}

/// Flattens the meshes of a scene, in the order in which their nodes are visited, into
/// one mesh.
pub fn flatten_meshes<V: Copy>(meshes: &Vec<Vec<Primitive<V>>>) -> (r: Result<
    FlatMesh<V>,
    SceneError,
>)
    requires
        meshes_fit(meshes@),
    ensures
        match r {
            Ok(mesh) => {
                &&& mesh.vertices@ == mesh_vertices(meshes@, meshes@.len())
                &&& mesh.indices@ == mesh_indices(meshes@, meshes@.len())
                &&& mesh.vertices@.len() > 0
            },
            Err(e) => {
                &&& mesh_vertices(meshes@, meshes@.len()).len() == 0
                &&& e == SceneError::NoGeometry
            },
        },
{
    let mut mesh: FlatMesh<V> = FlatMesh::new();
    let mut i: usize = 0;
    assert(mesh.vertices@ =~= mesh_vertices(meshes@, 0));
    assert(mesh.indices@ =~= mesh_indices(meshes@, 0));
    while i < meshes.len()
        invariant
            i <= meshes.len(),
            meshes_fit(meshes@),
            mesh.vertices@ == mesh_vertices(meshes@, i as nat),
            mesh.indices@ == mesh_indices(meshes@, i as nat),
        decreases meshes.len() - i,
    {
        mesh.append_mesh(&meshes[i]);
        i = i + 1;
    }
    if mesh.vertices.len() == 0 {
        return Err(SceneError::NoGeometry);
    }
    Ok(mesh)
}

/// Flattening keeps every triangle: each index of each primitive, where it was moved to,
/// finds the vertex that it found in its own primitive.
pub proof fn flattening_keeps_every_triangle<V>(
    meshes: Seq<Vec<Primitive<V>>>,
    i: int,
    p: int,
    k: int,
)
    requires
        meshes_fit(meshes),
        0 <= i < meshes.len(),
        0 <= p < meshes[i]@.len(),
        0 <= k < meshes[i]@[p].indices@.len(),
        meshes[i]@[p].indices@[k] < meshes[i]@[p].vertices@.len(),
    ensures
        ({
            let n = meshes.len();
            let prim = meshes[i]@[p];
            let base = mesh_vertices(meshes, i as nat).len() as int;
            let at = mesh_indices(meshes, i as nat).len() + primitive_indices(
                meshes[i]@,
                base,
                p as nat,
            ).len() + k;
            let moved = mesh_indices(meshes, n)[at as int];
            &&& at < mesh_indices(meshes, n).len()
            &&& moved < mesh_vertices(meshes, n).len()
            &&& mesh_vertices(meshes, n)[moved as int] == prim.vertices@[prim.indices@[k] as int]
        }),
{
    lemma_mesh_is_kept(meshes, i, meshes.len(), p, k);
    let base = mesh_vertices(meshes, i as nat).len() as int;
    assert(primitives_fit(meshes[i]@, base));
    assert(base + primitive_vertices(meshes[i]@, p as nat).len() + meshes[i]@[p].indices@[k]
        <= u32::MAX);
}

proof fn lemma_mesh_is_kept<V>(meshes: Seq<Vec<Primitive<V>>>, i: int, n: nat, p: int, k: int)
    requires
        0 <= i < n <= meshes.len(),
        0 <= p < meshes[i]@.len(),
        0 <= k < meshes[i]@[p].indices@.len(),
        meshes[i]@[p].indices@[k] < meshes[i]@[p].vertices@.len(),
    ensures
        ({
            let prim = meshes[i]@[p];
            let ix = prim.indices@[k];
            let base = mesh_vertices(meshes, i as nat).len() as int;
            let at = mesh_indices(meshes, i as nat).len() + primitive_indices(
                meshes[i]@,
                base,
                p as nat,
            ).len() + k;
            let before = base + primitive_vertices(meshes[i]@, p as nat).len();
            &&& at < mesh_indices(meshes, n).len()
            &&& mesh_indices(meshes, n)[at as int] == (ix + before) as u32
            &&& before + ix < mesh_vertices(meshes, n).len()
            &&& mesh_vertices(meshes, n)[before + ix] == prim.vertices@[ix as int]
        }),
    decreases n,
{
    if n > i + 1 {
        lemma_mesh_is_kept(meshes, i, (n - 1) as nat, p, k);
    } else {
        lemma_primitive_is_kept(
            mesh_vertices(meshes, i as nat).len() as int,
            meshes[i]@,
            p,
            meshes[i]@.len(),
            k,
        );
    }
}

/// The index list of a primitive: its own, or one index for each vertex where it has
/// none.
pub open spec fn resolved(indices: Seq<u32>, vertex_count: nat) -> Seq<u32> {
    if indices.len() == 0 {
        Seq::new(vertex_count, |i: int| i as u32)
    } else {
        indices
    }
}

/// The index list of a primitive: its own, or one index for each vertex where it has
/// none.
pub fn resolve_indices(indices: &Vec<u32>, vertex_count: u32) -> (r: Vec<u32>)
    ensures
        r@ == resolved(indices@, vertex_count as nat),
{
    let mut list: Vec<u32> = Vec::new();
    if indices.len() > 0 {
        let mut k: usize = 0;
        while k < indices.len()
            invariant
                k <= indices.len(),
                list@ == indices@.take(k as int),
            decreases indices.len() - k,
        {
            list.push(indices[k]);
            k = k + 1;
            assert(list@ =~= indices@.take(k as int));
        }
        assert(indices@.take(k as int) =~= indices@);
        return list;
    }
    let mut i: u32 = 0;
    while i < vertex_count
        invariant
            i <= vertex_count,
            list@ == Seq::new(i as nat, |k: int| k as u32),
        decreases vertex_count - i,
    {
        list.push(i);
        i = i + 1;
        assert(list@ =~= Seq::new(i as nat, |k: int| k as u32));
    }
    list
}

/// The materials of a list in the order in which they are first used, each of them once.
pub open spec fn first_uses(materials: Seq<usize>) -> Seq<usize>
    decreases materials.len(),
{
    if materials.len() == 0 {
        Seq::empty()
    } else {
        let before = first_uses(materials.drop_last());
        if before.contains(materials.last()) {
            before
        } else {
            before.push(materials.last())
        }
    }
}

/// The slots given to the materials of a scene, in the order in which they are first
/// used.
pub struct MaterialSlots {
    slots: HashMap<usize, u32>,
    order: Vec<usize>,
}

impl MaterialSlots {
    /// The materials, by their slots.
    pub closed spec fn materials(&self) -> Seq<usize> {
        self.order@
    }

    closed spec fn map(&self) -> Map<usize, u32> {
        self.slots@
    }

    /// Every material has one slot, and every slot one material.
    pub closed spec fn wf(&self) -> bool {
        &&& self.order@.no_duplicates()
        &&& self.order@.len() <= u32::MAX
        &&& forall|m: usize| #[trigger]
            self.map().contains_key(m) ==> self.map()[m] < self.order@.len()
                && self.order@[self.map()[m] as int] == m
        &&& forall|i: int|
            0 <= i < self.order@.len() ==> self.map().contains_key(#[trigger] self.order@[i])
    }

    /// No slots given out.
    pub fn new() -> (r: Self)
        ensures
            r.wf(),
            r.materials() == Seq::<usize>::empty(),
    {
        broadcast use group_hash_axioms;

        let r = MaterialSlots { slots: HashMap::new(), order: Vec::new() };
        assert(r.materials() =~= Seq::<usize>::empty());
        r
    }

    /// The slot of a material: the one that it has, or else the next one. The default
    /// material shares the slot of material 0.
    pub fn slot_of(&mut self, material: Option<usize>) -> (r: u32)
        requires
            old(self).wf(),
            old(self).materials().len() < u32::MAX,
        ensures
            final(self).wf(),
            ({
                let m = material_of(material);
                &&& final(self).materials() == (if old(self).materials().contains(m) {
                    old(self).materials()
                } else {
                    old(self).materials().push(m)
                })
                &&& r < final(self).materials().len()
                &&& final(self).materials()[r as int] == m
            }),
            final(self).materials().no_duplicates(),
    {
        broadcast use group_hash_axioms;

        let m: usize = match material {
            Some(i) => i,
            None => 0,
        };
        if let Some(slot) = self.slots.get(&m) {
            assert(self.map().contains_key(m));
            assert(self.materials()[*slot as int] == m);
            return *slot;
        }
        let slot: u32 = self.order.len() as u32;
        let ghost before = self.order@;
        proof {
            assert(!before.contains(m)) by {
                if before.contains(m) {
                    let i = choose|i: int| 0 <= i < before.len() && before[i] == m;
                    assert(self.map().contains_key(before[i]));
                }
            }
        }
        self.slots.insert(m, slot);
        self.order.push(m);
        proof {
            assert forall|i: int| 0 <= i < self.order@.len() implies self.map().contains_key(
                #[trigger] self.order@[i],
            ) by {
                if i < before.len() {
                    assert(self.order@[i] == before[i]);
                    assert(old(self).map().contains_key(before[i]));
                }
            }
            assert forall|k: usize| #[trigger] self.map().contains_key(k) implies self.map()[k]
                < self.order@.len() && self.order@[self.map()[k] as int] == k by {
                if k != m {
                    assert(old(self).map().contains_key(k));
                }
            }
        }
        slot
    }
}

/// The number of a material, where the default material counts as material 0.
pub open spec fn material_of(material: Option<usize>) -> usize {
    match material {
        Some(i) => i,
        None => 0,
    }
}

/// One primitive as it was read, with its vertices already in world space.
pub struct ReadPrimitive<V> {
    pub vertices: Vec<V>,
    pub indices: Vec<u32>,
    pub material: Option<usize>,
}

/// The instances of a scene, and its materials by their slots.
pub struct FlatInstances<V> {
    pub instances: Vec<PtGeometryInstance<V>>,
    pub materials: Vec<usize>,
}

/// The materials of the first `n` primitives.
pub open spec fn materials_used<V>(primitives: Seq<ReadPrimitive<V>>, n: nat) -> Seq<usize> {
    Seq::new(n, |i: int| material_of(primitives[i].material))
}

/// The primitives among the first `n` that become instances: those with vertices.
pub open spec fn drawn<V>(primitives: Seq<ReadPrimitive<V>>, n: nat) -> Seq<int>
    decreases n,
{
    if n == 0 {
        Seq::empty()
    } else if primitives[n - 1].vertices@.len() > 0 {
        drawn(primitives, (n - 1) as nat).push(n - 1)
    } else {
        drawn(primitives, (n - 1) as nat)
    }
}

/// The instance stands for the primitive: it has its vertices, its indices and the slot
/// of its material.
pub open spec fn made_from<V>(
    instance: PtGeometryInstance<V>,
    primitive: ReadPrimitive<V>,
    materials: Seq<usize>,
) -> bool {
    &&& instance.vertices@ == primitive.vertices@
    &&& instance.indices@ == resolved(primitive.indices@, primitive.vertices@.len())
    &&& instance.material_slot < materials.len()
    &&& materials[instance.material_slot as int] == material_of(primitive.material)
}

/// The instances stand for the first `n` primitives that have vertices.
pub open spec fn all_made<V>(
    instances: Seq<PtGeometryInstance<V>>,
    primitives: Seq<ReadPrimitive<V>>,
    n: nat,
    materials: Seq<usize>,
) -> bool {
    let kept = drawn(primitives, n);
    &&& instances.len() == kept.len()
    &&& forall|j: int|
        0 <= j < kept.len() ==> made_from(
            #[trigger] instances[j],
            primitives[kept[j]],
            materials,
        )
}

/// Flattens the primitives of a scene, in the order in which their nodes are visited,
/// into one instance each, and gives every material a slot.
pub fn flatten_instances<V: Copy>(primitives: &Vec<ReadPrimitive<V>>) -> (r: FlatInstances<V>)
    requires
        primitives@.len() < u32::MAX,
        forall|i: int|
            0 <= i < primitives@.len() ==> (#[trigger] primitives@[i]).vertices@.len() <= u32::MAX,
    ensures
        r.materials@ == first_uses(materials_used(primitives@, primitives@.len())),
        r.materials@.no_duplicates(),
        all_made(r.instances@, primitives@, primitives@.len(), r.materials@),
{
    let mut slots: MaterialSlots = MaterialSlots::new();
    let mut instances: Vec<PtGeometryInstance<V>> = Vec::new();
    let mut i: usize = 0;
    while i < primitives.len()
        invariant
            i <= primitives.len() < u32::MAX,
            forall|k: int|
                0 <= k < primitives@.len() ==> (#[trigger] primitives@[k]).vertices@.len()
                    <= u32::MAX,
            slots.wf(),
            slots.materials() == first_uses(materials_used(primitives@, i as nat)),
            slots.materials().len() <= i,
            slots.materials().no_duplicates(),
            all_made(instances@, primitives@, i as nat, slots.materials()),
        decreases primitives.len() - i,
    {
        let p = &primitives[i];
        let ghost known = slots.materials();
        let ghost made = instances@;
        let material_slot: u32 = slots.slot_of(p.material);
        proof {
            let used = materials_used(primitives@, (i + 1) as nat);
            assert(used.drop_last() =~= materials_used(primitives@, i as nat));
            assert(used.last() == material_of(p.material));
        }
        assert(primitives@[i as int].vertices@.len() <= u32::MAX);
        let indices = resolve_indices(&p.indices, p.vertices.len() as u32);
        if p.vertices.len() > 0 && indices.len() > 0 {
            let mut vertices: Vec<V> = Vec::new();
            let mut k: usize = 0;
            while k < p.vertices.len()
                invariant
                    k <= p.vertices.len(),
                    vertices@ == p.vertices@.take(k as int),
                decreases p.vertices.len() - k,
            {
                vertices.push(p.vertices[k]);
                k = k + 1;
                assert(vertices@ =~= p.vertices@.take(k as int));
            }
            assert(p.vertices@.take(k as int) =~= p.vertices@);
            instances.push(PtGeometryInstance { vertices, indices, material_slot });
        }
        i = i + 1;
        proof {
            let kept = drawn(primitives@, i as nat);
            let before = drawn(primitives@, (i - 1) as nat);
            assert forall|j: int| 0 <= j < kept.len() implies made_from(
                #[trigger] instances@[j],
                primitives@[kept[j]],
                slots.materials(),
            ) by {
                if j < before.len() {
                    assert(made_from(made[j], primitives@[before[j]], known));
                    assert(kept[j] == before[j]);
                    assert(instances@[j] == made[j]);
                }
            }
        }
    }
    FlatInstances { instances, materials: slots.order }
}

/// How many of the first `n` primitives have vertices.
pub open spec fn visible_count<V>(primitives: Seq<ReadPrimitive<V>>, n: nat) -> nat
    decreases n,
{
    if n == 0 {
        0
    } else {
        visible_count(primitives, (n - 1) as nat) + (if primitives[n - 1].vertices@.len() > 0 {
            1nat
        } else {
            0
        })
    }
}

proof fn lemma_drawn<V>(primitives: Seq<ReadPrimitive<V>>, n: nat)
    ensures
        drawn(primitives, n).len() == visible_count(primitives, n),
        forall|p: int|
            0 <= p < n && (#[trigger] primitives[p]).vertices@.len() > 0 ==> visible_count(
                primitives,
                p as nat,
            ) < drawn(primitives, n).len() && drawn(primitives, n)[visible_count(
                primitives,
                p as nat,
            ) as int] == p,
    decreases n,
{
    if n > 0 {
        lemma_drawn(primitives, (n - 1) as nat);
    }
}

/// Every primitive with vertices becomes an instance of its own, in the order of the
/// primitives: it has the primitive's vertices, corner `k` is the vertex that the
/// primitive's index `k` leads to, or vertex `k` where there are no indices, and its slot
/// holds the primitive's material, or material 0 where it names none. Nothing else becomes
/// an instance.
pub proof fn every_primitive_becomes_an_instance<V>(
    primitives: Seq<ReadPrimitive<V>>,
    instances: Seq<PtGeometryInstance<V>>,
    materials: Seq<usize>,
    p: int,
    k: int,
)
    requires
        all_made(instances, primitives, primitives.len(), materials),
        0 <= p < primitives.len(),
        0 < primitives[p].vertices@.len() <= u32::MAX,
    ensures
        instances.len() == visible_count(primitives, primitives.len()),
        ({
            let prim = primitives[p];
            let inst = instances[visible_count(primitives, p as nat) as int];
            let own = prim.indices@;
            &&& visible_count(primitives, p as nat) < instances.len()
            &&& inst.vertices@ == prim.vertices@
            &&& inst.indices@.len() == (if own.len() > 0 {
                own.len()
            } else {
                prim.vertices@.len()
            })
            &&& 0 <= k < inst.indices@.len() ==> inst.indices@[k] == (if own.len() > 0 {
                own[k] as int
            } else {
                k
            })
            &&& inst.material_slot < materials.len()
            &&& prim.material matches Some(m) ==> materials[inst.material_slot as int] == m
            &&& prim.material is None ==> materials[inst.material_slot as int] == 0
        }),
{
    lemma_drawn(primitives, primitives.len());
    let j = visible_count(primitives, p as nat) as int;
    assert(primitives[p].vertices@.len() > 0);
    assert(drawn(primitives, primitives.len())[j] == p);
    assert(made_from(instances[j], primitives[p], materials));
}

/// Slots are given in the order of first use: what later primitives use does not change
/// the slots that were given before.
pub proof fn slots_are_given_in_order(materials: Seq<usize>, m: usize)
    ensures
        ({
            let before = first_uses(materials);
            let after = first_uses(materials.push(m));
            &&& before.len() <= after.len() <= before.len() + 1
            &&& forall|i: int| 0 <= i < before.len() ==> #[trigger] after[i] == before[i]
            &&& after.len() > before.len() ==> after.last() == m && !materials.contains(m)
            &&& after.len() == before.len() ==> materials.contains(m)
        }),
{
    assert(materials.push(m).drop_last() =~= materials);
    slots_are_the_used_materials(materials, m);
}

/// Every material that a primitive uses has a slot, and a slot is given to nothing else.
pub proof fn slots_are_the_used_materials(materials: Seq<usize>, m: usize)
    ensures
        first_uses(materials).contains(m) == materials.contains(m),
    decreases materials.len(),
{
    if materials.len() > 0 {
        let rest = materials.drop_last();
        slots_are_the_used_materials(rest, m);
        let before = first_uses(rest);
        if materials.contains(m) {
            let k = choose|k: int| 0 <= k < materials.len() && materials[k] == m;
            if k < rest.len() {
                assert(rest[k] == m);
                assert(rest.contains(m));
                let j = choose|j: int| 0 <= j < before.len() && before[j] == m;
                assert(first_uses(materials)[j] == m);
            } else if !before.contains(m) {
                assert(first_uses(materials)[before.len() as int] == m);
            }
        }
        if first_uses(materials).contains(m) {
            let j = choose|j: int|
                0 <= j < first_uses(materials).len() && first_uses(materials)[j] == m;
            if j < before.len() {
                assert(before[j] == m);
                assert(before.contains(m));
                let k = choose|k: int| 0 <= k < rest.len() && rest[k] == m;
                assert(materials[k] == m);
            } else {
                assert(materials[materials.len() - 1] == m);
            }
        }
    }
}

// ---------------------------------------------------------------------------
// The test cube
// ---------------------------------------------------------------------------

/// Corner `i` of a cube of side four around the origin.
pub open spec fn cube_corner(i: int) -> Seq<i32> {
    if i == 0 {
        seq![-2i32, -2i32, -2i32]
    } else if i == 1 {
        seq![2i32, -2i32, -2i32]
    } else if i == 2 {
        seq![2i32, 2i32, -2i32]
    } else if i == 3 {
        seq![-2i32, 2i32, -2i32]
    } else if i == 4 {
        seq![-2i32, -2i32, 2i32]
    } else if i == 5 {
        seq![2i32, -2i32, 2i32]
    } else if i == 6 {
        seq![2i32, 2i32, 2i32]
    } else {
        seq![-2i32, 2i32, 2i32]
    }
}

/// The corners of the six faces.
pub open spec fn cube_faces() -> Seq<int> {
    seq![0, 1, 2, 3, 5, 4, 7, 6, 4, 0, 3, 7, 1, 5, 6, 2, 3, 2, 6, 7, 4, 5, 1, 0]
}

/// Index `k` of the cube: each face is two triangles over its own four vertices.
pub open spec fn cube_index(k: int) -> int {
    4 * (k / 6) + seq![0int, 1, 2, 0, 2, 3][k % 6]
}

/// The corner that index `k` of the cube leads to.
pub open spec fn cube_point(k: int) -> int {
    cube_faces()[cube_index(k)]
}

/// The place of the next corner around a triangle.
pub open spec fn next_corner(e: int) -> int {
    if e % 3 == 2 {
        e - 2
    } else {
        e + 1
    }
}

/// The edge of the cube that runs against the one at `e`.
pub open spec fn cube_partner(e: int) -> int {
    seq![
        34int, 23, 3, 2, 24, 13, 30, 17, 9, 8, 28, 19, 35, 5, 15, 14, 29, 7, 31, 11, 21, 20, 25, 1, 4, 22, 27, 26, 10, 16, 6, 18, 33, 32, 0, 12,
    ][e]
}

/// The cube is a closed surface, turned one way: every edge of a triangle has one that
/// runs against it.
pub proof fn cube_is_closed(e: int)
    requires
        0 <= e < 36,
    ensures
        0 <= cube_partner(e) < 36,
        cube_point(cube_partner(e)) == cube_point(next_corner(e)),
        cube_point(next_corner(cube_partner(e))) == cube_point(e),
{
    assert(cube_faces().len() == 24);
    let t = e / 3;
    assert(e == 3 * t || e == 3 * t + 1 || e == 3 * t + 2);
    assert(0 <= t < 12);
}

/// A closed cube of side four around the origin, four vertices and two triangles for
/// each face.
pub fn test_cube_geometry() -> (r: (Vec<[i32; 3]>, Vec<u32>))
    ensures
        r.0@.len() == 24,
        forall|i: int| 0 <= i < 24 ==> (#[trigger] r.0@[i])@ == cube_corner(cube_faces()[i]),
        r.1@.len() == 36,
        forall|k: int| 0 <= k < 36 ==> #[trigger] r.1@[k] == cube_index(k),
{
    let faces: [usize; 24] = [
        0, 1, 2, 3, 5, 4, 7, 6, 4, 0, 3, 7, 1, 5, 6, 2, 3, 2, 6, 7, 4, 5, 1, 0,
    ];
    let corners: [[i32; 3]; 8] = [
        [-2, -2, -2],
        [2, -2, -2],
        [2, 2, -2],
        [-2, 2, -2],
        [-2, -2, 2],
        [2, -2, 2],
        [2, 2, 2],
        [-2, 2, 2],
    ];
    assert forall|i: int| 0 <= i < 8 implies (#[trigger] corners@[i])@ == cube_corner(i) by {
        assert(corners@[i]@ =~= cube_corner(i));
    }
    assert forall|i: int| 0 <= i < 24 implies #[trigger] faces@[i] == cube_faces()[i] && faces@[i]
        < 8 by {}
    let mut vertices: Vec<[i32; 3]> = Vec::new();
    let mut indices: Vec<u32> = Vec::new();
    let mut i: usize = 0;
    while i < 24
        invariant
            i <= 24,
            vertices.len() == i,
            forall|k: int| 0 <= k < 8 ==> (#[trigger] corners@[k])@ == cube_corner(k),
            forall|k: int|
                0 <= k < 24 ==> #[trigger] faces@[k] == cube_faces()[k] && faces@[k] < 8,
            forall|k: int| 0 <= k < i ==> (#[trigger] vertices@[k])@ == cube_corner(cube_faces()[k]),
        decreases 24 - i,
    {
        assert(faces@[i as int] < 8);
        vertices.push(corners[faces[i]]);
        i = i + 1;
    }
    let mut face: u32 = 0;
    while face < 6
        invariant
            face <= 6,
            indices.len() == 6 * face,
            forall|k: int| 0 <= k < 6 * face ==> #[trigger] indices@[k] == cube_index(k),
        decreases 6 - face,
    {
        let base: u32 = face * 4;
        indices.push(base);
        indices.push(base + 1);
        indices.push(base + 2);
        indices.push(base);
        indices.push(base + 2);
        indices.push(base + 3);
        face = face + 1;
    }
    (vertices, indices)
}

/// The emission of a material lies in the material's own bytes, at the same place in each
/// of them, and every material that is there has one.
pub proof fn emission_is_the_materials_own(slot: u32, other: u32, materials_len: usize)
    requires
        slot * MATERIAL_SIZE + MATERIAL_SIZE <= usize::MAX,
        other * MATERIAL_SIZE + MATERIAL_SIZE <= usize::MAX,
    ensures
        emission_at(slot, materials_len) matches Some(at) ==> {
            &&& slot * MATERIAL_SIZE <= at
            &&& at + 8 <= slot * MATERIAL_SIZE + MATERIAL_SIZE
            &&& at + 8 <= materials_len
            &&& emission_at(other, materials_len) matches Some(there) ==> at - slot * MATERIAL_SIZE
                == there - other * MATERIAL_SIZE
        },
        slot * MATERIAL_SIZE + MATERIAL_SIZE <= materials_len ==> emission_at(
            slot,
            materials_len,
        ) is Some,
        emission_at(slot, materials_len) is Some <==> slot * MATERIAL_SIZE + 24 + 8
            <= materials_len,
        emission_at(slot, materials_len) matches Some(at) ==> at == slot * MATERIAL_SIZE + 24,
{
}

/// A scene's buffers are created as large as what goes into them, the addresses that the
/// structures are built from are taken first, and there is a structure for each instance
/// before the one over all of them.
pub proof fn scene_is_built_from_its_buffers(
    vertices: nat,
    vertex_size: u64,
    indices: nat,
    instances: nat,
    materials_size: u64,
    i: int,
    j: int,
)
    requires
        vertices * vertex_size <= u64::MAX,
        indices * INDEX_STRIDE <= u64::MAX,
        instances <= u32::MAX,
        0 <= i < scene_steps(vertices, vertex_size, indices, instances, materials_size).len(),
        0 <= j < scene_steps(vertices, vertex_size, indices, instances, materials_size).len(),
    ensures
        ({
            let steps = scene_steps(vertices, vertex_size, indices, instances, materials_size);
            &&& match steps[i] {
                SceneStep::CreateStorage { part: ScenePart::Vertices, buffer } => buffer.size
                    == vertices * vertex_size,
                SceneStep::CreateStorage { part: ScenePart::Indices, buffer } => buffer.size
                    == indices * INDEX_STRIDE,
                SceneStep::CreateStorage { part: ScenePart::InstanceMeta, buffer } => buffer.size
                    == instances * META_SIZE,
                SceneStep::CreateStorage { part: ScenePart::Materials, buffer } => buffer.size
                    == materials_size,
                SceneStep::BuildBlas { count } => count == instances,
                SceneStep::BuildTlas { count } => count == instances,
                SceneStep::TakeAddress { .. } => true,
            }
            &&& steps[i] is BuildBlas && steps[j] is BuildTlas ==> i < j
            &&& steps[i] is TakeAddress && steps[j] is BuildBlas ==> i < j
            &&& steps[i] is CreateStorage && steps[j] is TakeAddress
                && steps[i]->CreateStorage_part == steps[j]->TakeAddress_part ==> i < j
            &&& steps.contains(SceneStep::TakeAddress { part: ScenePart::Vertices })
            &&& steps.contains(SceneStep::TakeAddress { part: ScenePart::Indices })
            &&& steps.contains(SceneStep::BuildBlas { count: instances as u32 })
            &&& steps.contains(SceneStep::BuildTlas { count: instances as u32 })
        }),
{
    let steps = scene_steps(vertices, vertex_size, indices, instances, materials_size);
    assert(steps[1] == SceneStep::TakeAddress { part: ScenePart::Vertices });
    assert(steps[3] == SceneStep::TakeAddress { part: ScenePart::Indices });
    assert(steps[6] == SceneStep::BuildBlas { count: instances as u32 });
    assert(steps[7] == SceneStep::BuildTlas { count: instances as u32 });
    let (a, b) = (vertices as int, vertex_size as int);
    assert(0 <= a * b) by (nonlinear_arith)
        requires
            a >= 0,
            b >= 0,
    ;
}

/// The eight corners are those of a cube of side four around the origin: each coordinate
/// is two off, and no two corners are the same.
pub proof fn corners_are_those_of_a_cube(i: int, j: int, axis: int)
    requires
        0 <= i < 8,
        0 <= j < 8,
        0 <= axis < 3,
    ensures
        cube_corner(i).len() == 3,
        cube_corner(i)[axis] == 2 || cube_corner(i)[axis] == -2,
        i != j ==> cube_corner(i) != cube_corner(j),
{
    if i != j {
        let (a, b) = (cube_corner(i), cube_corner(j));
        assert(a[0] != b[0] || a[1] != b[1] || a[2] != b[2]);
    }
}

/// A buffer gives up its handle and its memory.
pub proof fn buffer_gives_up_everything(b: OwnedBuffer)
    ensures
        buffer_release(b).len() == 2,
        buffer_release(b)[0] == Release::Buffer(b.buffer),
        buffer_release(b)[1] == Release::Memory(b.memory),
{
}

} // verus!
