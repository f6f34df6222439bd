//! Vocabulary shared by the planning modules: the parts of the Vulkan API that a
//! plan speaks of, as plain values.

use vstd::prelude::*;

verus! {

/// Image layouts that the renderer moves images through.
#[derive(Clone, Copy, Debug, PartialEq, Eq, Structural)]
pub enum ImageLayout {
    Undefined,
    TransferDst,
    TransferSrc,
    /// Written by shaders.
    General,
    ShaderReadOnly,
    ColorAttachment,
    DepthStencilAttachment,
    DepthStencilReadOnly,
    PresentSrc,
}

/// Pipeline stages named by barriers.
#[derive(Clone, Copy, Debug, PartialEq, Eq, Structural)]
pub enum PipelineStage {
    NoStage,
    TopOfPipe,
    Transfer,
    FragmentShader,
    ComputeShader,
    ColorAttachmentOutput,
    LateFragmentTests,
    AccelerationStructureBuild,
    BottomOfPipe,
}

/// Memory accesses named by barriers.
#[derive(Clone, Copy, Debug, PartialEq, Eq, Structural)]
pub enum Access {
    NoAccess,
    TransferRead,
    TransferWrite,
    ShaderRead,
    ShaderWrite,
    ColorAttachmentWrite,
    DepthStencilAttachmentWrite,
    MemoryRead,
}

/// Formats of attachments.
#[derive(Clone, Copy, Debug, PartialEq, Eq, Structural)]
pub enum AttachmentFormat {
    /// Four half-precision channels: lit color, and view-space normals, whose
    /// components can be negative.
    Rgba16Float,
    /// Single-precision depth.
    Depth32Float,
    /// One channel of eight bits: ambient occlusion.
    R8Unorm,
}

/// Image usage bit: transfers can read the image.
pub const IMAGE_TRANSFER_SRC: u32 = 0x0000_0001;

/// Image usage bit: transfers can write the image.
pub const IMAGE_TRANSFER_DST: u32 = 0x0000_0002;

/// Image usage bit: shaders can sample the image.
pub const IMAGE_SAMPLED: u32 = 0x0000_0004;

/// Image usage bit: the image can be a color attachment.
pub const IMAGE_COLOR_ATTACHMENT: u32 = 0x0000_0010;

/// How a pipeline puts a color into its attachment.
#[derive(Clone, Copy, Debug, PartialEq, Eq, Structural)]
pub enum Blend {
    /// The new color replaces the old one.
    Replace,
    /// The new color covers the old one by its alpha, and its alpha replaces the old one.
    Alpha,
}

/// A two-dimensional size in pixels.
#[derive(Clone, Copy, Debug, PartialEq, Eq, Structural)]
pub struct Extent2D {
    pub width: u32,
    pub height: u32,
}

/// The bit pattern of the 32-bit float 1.
pub const FLOAT_ONE: u32 = 0x3f80_0000;

/// What a color attachment is cleared to. Each channel is the bit pattern of a 32-bit
/// float.
#[derive(Clone, Copy, Debug, PartialEq, Eq, Structural)]
pub struct ClearColor {
    pub r: u32,
    pub g: u32,
    pub b: u32,
    pub a: u32,
}

/// What a depth attachment is cleared to: the bit pattern of a 32-bit float, and the
/// stencil value.
#[derive(Clone, Copy, Debug, PartialEq, Eq, Structural)]
pub struct ClearDepth {
    pub depth: u32,
    pub stencil: u32,
}

/// The far end of the depth range.
pub open spec fn far_depth() -> ClearDepth {
    ClearDepth { depth: FLOAT_ONE, stencil: 0 }
}

/// An image memory barrier over a range of mip levels.
#[derive(Clone, Copy, Debug, PartialEq, Eq, Structural)]
pub struct ImageBarrier {
    pub base_level: u32,
    pub level_count: u32,
    pub old_layout: ImageLayout,
    pub new_layout: ImageLayout,
    pub src_stage: PipelineStage,
    pub src_access: Access,
    pub dst_stage: PipelineStage,
    pub dst_access: Access,
}

/// An image and the view through which it is attached and sampled.
#[derive(Clone, Copy, Debug, PartialEq, Eq, Structural)]
pub struct AttachedImage {
    pub image: u64,
    pub view: u64,
}

/// A device object to destroy.
#[derive(Clone, Copy, Debug, PartialEq, Eq, Structural)]
pub enum Release {
    Framebuffer(u64),
    Image(AttachedImage),
    View(u64),
    BareImage(u64),
    RenderPass(u64),
    SetLayout(u64),
    Pool(u64),
    Buffer(u64),
    Memory(u64),
    Sampler(u64),
    Pipeline(u64),
    PipelineLayout(u64),
    AccelerationStructure(u64),
}

/// The larger of two numbers.
pub open spec fn max_u32(a: u32, b: u32) -> u32 {
    if a >= b {
        a
    } else {
        b
    }
}

} // verus!
