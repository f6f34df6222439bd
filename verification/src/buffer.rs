//! Buffer allocation: which memory type suits a resource, which allocation flags a
//! buffer needs, and how newer barriers are expressed on older devices.

use vstd::prelude::*;

verus! {

/// Buffer usage bit: the buffer can be the source of a transfer.
pub const USAGE_TRANSFER_SRC: u32 = 0x0000_0001;

/// Buffer usage bit: the buffer can be the destination of a transfer.
pub const USAGE_TRANSFER_DST: u32 = 0x0000_0002;

/// Buffer usage bit: the buffer can be bound as a uniform buffer.
pub const USAGE_UNIFORM_BUFFER: u32 = 0x0000_0010;

/// Buffer usage bit: the buffer can be bound as a storage buffer.
pub const USAGE_STORAGE_BUFFER: u32 = 0x0000_0020;

/// Buffer usage bit: vertices can be fetched from the buffer.
pub const USAGE_VERTEX_BUFFER: u32 = 0x0000_0080;

/// Buffer usage bit: shaders can address the buffer by pointer.
pub const USAGE_SHADER_DEVICE_ADDRESS: u32 = 0x0002_0000;

/// Buffer usage bit: acceleration structures can be built from the buffer.
pub const USAGE_BUILD_INPUT: u32 = 0x0008_0000;

/// Buffer usage bit: acceleration structures can be kept in the buffer.
pub const USAGE_STRUCTURE_STORAGE: u32 = 0x0010_0000;

/// Memory property bit: the memory is local to the device.
pub const MEMORY_DEVICE_LOCAL: u32 = 0x0000_0001;

/// Memory property bit: the host can map the memory.
pub const MEMORY_HOST_VISIBLE: u32 = 0x0000_0002;

/// Memory property bit: host writes need no flush.
pub const MEMORY_HOST_COHERENT: u32 = 0x0000_0004;

/// Memory that the host writes to and that needs no flush.
pub const HOST_MEMORY: u32 = MEMORY_HOST_VISIBLE | MEMORY_HOST_COHERENT;

/// A buffer to be created: its size in bytes, its usage bits, and the properties that its
/// memory has to have.
#[derive(Clone, Copy, Debug, PartialEq, Eq, Structural)]
pub struct BufferSpec {
    pub size: u64,
    pub usage: u32,
    pub memory: u32,
}

/// All bits of `wanted` are set in `flags`.
pub open spec fn contains_bits(flags: u32, wanted: u32) -> bool {
    flags & wanted == wanted
}

/// Memory type `i` is allowed by `type_filter` and has all of `properties`.
pub open spec fn suits(types: Seq<u32>, type_filter: u32, properties: u32, i: int) -> bool {
    &&& 0 <= i < types.len()
    &&& type_filter & (1u32 << (i as u32)) != 0
    &&& contains_bits(types[i], properties)
}

/// The first memory type that `type_filter` allows and that has all of `properties`.
/// `types` holds the property flags of each memory type of the device.
pub fn find_memory_type(types: &Vec<u32>, type_filter: u32, properties: u32) -> (r: Option<u32>)
    requires
        types.len() <= 32,
    ensures
        match r {
            Some(i) => {
                &&& suits(types@, type_filter, properties, i as int)
                &&& forall|j: int| j < i ==> !suits(types@, type_filter, properties, j)
            },
            None => forall|j: int| !suits(types@, type_filter, properties, j),
        },
{
    let mut i: u32 = 0;
    while (i as usize) < types.len()
        invariant
            i <= types.len() <= 32,
            forall|j: int| j < i ==> !suits(types@, type_filter, properties, j),
        decreases types.len() - i,
    {
        if (type_filter & (1u32 << i)) != 0 && types[i as usize] & properties == properties {
            return Some(i);
        }
        i = i + 1;
    }
    None
}

/// Whether the memory of a buffer with this usage must be allocated for device
/// addressing.
pub fn needs_device_address(usage: u32) -> (r: bool)
    ensures
        r == contains_bits(usage, USAGE_SHADER_DEVICE_ADDRESS),
{
    usage & USAGE_SHADER_DEVICE_ADDRESS == USAGE_SHADER_DEVICE_ADDRESS
}

/// What the device says of a buffer's memory.
#[derive(Clone, Copy, Debug, PartialEq, Eq, Structural)]
pub struct MemoryRequirements {
    pub size: u64,
    /// The memory types that suit the buffer, one bit for each.
    pub type_bits: u32,
}

/// The memory to allocate for a buffer.
#[derive(Clone, Copy, Debug, PartialEq, Eq, Structural)]
pub struct Allocation {
    pub size: u64,
    pub type_index: u32,
    /// The memory can be addressed by shaders.
    pub device_address: bool,
}

/// Why a buffer cannot be created.
#[derive(Clone, Copy, Debug, PartialEq, Eq, Structural)]
pub enum BufferError {
    NoSuitableMemory,
}

/// The memory of a buffer that is used as `usage` says and has to have all of
/// `properties`.
pub fn create_buffer(
    types: &Vec<u32>,
    needed: MemoryRequirements,
    usage: u32,
    properties: u32,
) -> (r: Result<Allocation, BufferError>)
    requires
        types.len() <= 32,
    ensures
        match r {
            Ok(a) => {
                &&& a.size == needed.size
                &&& a.device_address == contains_bits(usage, USAGE_SHADER_DEVICE_ADDRESS)
                &&& suits(types@, needed.type_bits, properties, a.type_index as int)
                &&& forall|j: int|
                    j < a.type_index ==> !suits(types@, needed.type_bits, properties, j)
            },
            Err(e) => {
                &&& e == BufferError::NoSuitableMemory
                &&& forall|j: int| !suits(types@, needed.type_bits, properties, j)
            },
        },
{
    match find_memory_type(types, needed.type_bits, properties) {
        Some(type_index) => Ok(
            Allocation {
                size: needed.size,
                type_index,
                device_address: needs_device_address(usage),
            },
        ),
        None => Err(BufferError::NoSuitableMemory),
    }
}

/// The 64-bit masks of one barrier.
#[derive(Clone, Copy, Debug, PartialEq, Eq, Structural)]
pub struct WideMasks {
    pub src_stage: u64,
    pub src_access: u64,
    pub dst_stage: u64,
    pub dst_access: u64,
}

/// The access masks of one barrier on a device without 64-bit masks.
#[derive(Clone, Copy, Debug, PartialEq, Eq, Structural)]
pub struct NarrowAccess {
    pub src_access: u32,
    pub dst_access: u32,
}

/// The barriers of one dependency on a device without 64-bit masks, where the stages
/// are given once for all of them.
pub struct NarrowDependency {
    pub src_stages: u32,
    pub dst_stages: u32,
    pub accesses: Vec<NarrowAccess>,
}

/// The low half of a mask.
pub open spec fn low_half(mask: u64) -> u32 {
    mask as u32
}

/// The union of the source stages.
pub open spec fn src_union(masks: Seq<WideMasks>) -> u32
    decreases masks.len(),
{
    if masks.len() == 0 {
        0
    } else {
        src_union(masks.drop_last()) | low_half(masks.last().src_stage)
    }
}

/// The union of the destination stages.
pub open spec fn dst_union(masks: Seq<WideMasks>) -> u32
    decreases masks.len(),
{
    if masks.len() == 0 {
        0
    } else {
        dst_union(masks.drop_last()) | low_half(masks.last().dst_stage)
    }
}

/// The access masks of one barrier.
pub open spec fn narrow_access(m: WideMasks) -> NarrowAccess {
    NarrowAccess { src_access: low_half(m.src_access), dst_access: low_half(m.dst_access) }
}

/// Expresses barriers with 64-bit masks on a device that has only 32-bit ones: the
/// access masks keep their low half, and the stages are joined.
pub fn narrow_barriers(masks: &Vec<WideMasks>) -> (r: NarrowDependency)
    ensures
        r.src_stages == src_union(masks@),
        r.dst_stages == dst_union(masks@),
        r.accesses@ == masks@.map_values(|m: WideMasks| narrow_access(m)),
{
    let mut src_stages: u32 = 0;
    let mut dst_stages: u32 = 0;
    let mut accesses: Vec<NarrowAccess> = Vec::new();
    let mut i: usize = 0;
    while i < masks.len()
        invariant
            i <= masks.len(),
            src_stages == src_union(masks@.take(i as int)),
            dst_stages == dst_union(masks@.take(i as int)),
            accesses.len() == i,
            forall|k: int|
                0 <= k < i ==> #[trigger] accesses@[k] == (NarrowAccess {
                    src_access: low_half(masks@[k].src_access),
                    dst_access: low_half(masks@[k].dst_access),
                }),
        decreases masks.len() - i,
    {
        let m: WideMasks = masks[i];
        assert(masks@.take(i + 1).drop_last() =~= masks@.take(i as int));
        src_stages = src_stages | (m.src_stage as u32);
        dst_stages = dst_stages | (m.dst_stage as u32);
        accesses.push(
            NarrowAccess { src_access: m.src_access as u32, dst_access: m.dst_access as u32 },
        );
        i = i + 1;
    }
    assert(masks@.take(i as int) =~= masks@);
    NarrowDependency { src_stages, dst_stages, accesses }
}

/// A mask without high bits loses nothing.
pub proof fn narrow_mask_is_unchanged(mask: u64)
    requires
        mask <= 0xffff_ffff,
    ensures
        low_half(mask) == mask,
{
    assert(mask as u32 == mask) by (bit_vector)
        requires
            mask <= 0xffff_ffff,
    ;
}

/// Joining stages loses none: every stage bit of a barrier is in the union.
pub proof fn union_holds_every_stage(masks: Seq<WideMasks>, i: int)
    requires
        0 <= i < masks.len(),
    ensures
        contains_bits(src_union(masks), low_half(masks[i].src_stage)),
        contains_bits(dst_union(masks), low_half(masks[i].dst_stage)),
    decreases masks.len(),
{
    let src = src_union(masks.drop_last());
    let dst = dst_union(masks.drop_last());
    let last_src = low_half(masks.last().src_stage);
    let last_dst = low_half(masks.last().dst_stage);
    let a = low_half(masks[i].src_stage);
    let b = low_half(masks[i].dst_stage);
    if i == masks.len() - 1 {
        assert((src | a) & a == a) by (bit_vector);
        assert((dst | b) & b == b) by (bit_vector);
    } else {
        union_holds_every_stage(masks.drop_last(), i);
        assert((src | last_src) & a == a) by (bit_vector)
            requires
                src & a == a,
        ;
        assert((dst | last_dst) & b == b) by (bit_vector)
            requires
                dst & b == b,
        ;
    }
}

/// A memory type suits where its own bit is set in the filter and none of the wanted
/// properties is missing from it.
pub proof fn suitable_type_has_every_property(
    types: Seq<u32>,
    type_filter: u32,
    properties: u32,
    i: u32,
    bit: u32,
)
    requires
        i < types.len(),
        i < 32,
        bit < 32,
    ensures
        suits(types, type_filter, properties, i as int) ==> (type_filter >> i) & 1 == 1 && (
        (properties >> bit) & 1 == 1 ==> (types[i as int] >> bit) & 1 == 1),
        (type_filter >> i) & 1 == 1 && properties & !types[i as int] == 0 ==> suits(
            types,
            type_filter,
            properties,
            i as int,
        ),
{
    let t = types[i as int];
    assert((type_filter & (1u32 << i) != 0) == ((type_filter >> i) & 1 == 1)) by (bit_vector)
        requires
            i < 32,
    ;
    assert(t & properties == properties ==> ((properties >> bit) & 1 == 1 ==> (t >> bit) & 1 == 1))
        by (bit_vector)
        requires
            bit < 32,
    ;
    assert(properties & !t == 0 ==> t & properties == properties) by (bit_vector);
}

/// Joining stages adds none: a stage bit of the union is one of a barrier.
pub proof fn union_holds_no_other_stage(masks: Seq<WideMasks>, bit: u32)
    ensures
        src_union(masks) & bit != 0 ==> exists|i: int|
            0 <= i < masks.len() && low_half((#[trigger] masks[i]).src_stage) & bit != 0,
        dst_union(masks) & bit != 0 ==> exists|i: int|
            0 <= i < masks.len() && low_half((#[trigger] masks[i]).dst_stage) & bit != 0,
    decreases masks.len(),
{
    if masks.len() == 0 {
        assert(0u32 & bit == 0) by (bit_vector);
    } else {
        let rest = masks.drop_last();
        let (a, b) = (src_union(rest), low_half(masks.last().src_stage));
        let (c, d) = (dst_union(rest), low_half(masks.last().dst_stage));
        union_holds_no_other_stage(rest, bit);
        assert(masks[masks.len() - 1] == masks.last());
        assert((a | b) & bit != 0 ==> a & bit != 0 || b & bit != 0) by (bit_vector);
        assert((c | d) & bit != 0 ==> c & bit != 0 || d & bit != 0) by (bit_vector);
        if a & bit != 0 {
            let i = choose|i: int|
                0 <= i < rest.len() && low_half((#[trigger] rest[i]).src_stage) & bit != 0;
            assert(masks[i] == rest[i]);
        }
        if c & bit != 0 {
            let i = choose|i: int|
                0 <= i < rest.len() && low_half((#[trigger] rest[i]).dst_stage) & bit != 0;
            assert(masks[i] == rest[i]);
        }
    }
}

/// A barrier whose access masks have no high bits keeps them, each on its side.
pub proof fn narrow_accesses_are_unchanged(m: WideMasks)
    requires
        m.src_access <= 0xffff_ffff,
        m.dst_access <= 0xffff_ffff,
    ensures
        narrow_access(m).src_access == m.src_access,
        narrow_access(m).dst_access == m.dst_access,
{
    narrow_mask_is_unchanged(m.src_access);
    narrow_mask_is_unchanged(m.dst_access);
}

} // verus!
