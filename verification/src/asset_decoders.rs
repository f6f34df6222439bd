//! Cooked assets: texture (`RTEX`) and mesh (`RMES`) containers, and the upload requests
//! made from them. Floating-point attributes are held as bit patterns.

use vstd::prelude::*;

verus! {

/// Texel formats of an uploaded texture.
#[derive(Clone, Copy, Debug, PartialEq, Eq, Structural)]
pub enum TextureFormat {
    Rgba8,
    Rgba8Srgb,
    Bc7Srgb,
    Astc6x6Srgb,
}

/// A texture ready to be uploaded.
pub struct TextureUploadInput {
    pub width: u32,
    pub height: u32,
    pub format: TextureFormat,
    pub mip_levels: u32,
    pub pixels: Vec<u8>,
}

/// A mesh ready to be uploaded, one vector for each attribute.
pub struct MeshUploadInput {
    pub positions: Vec<[u32; 3]>,
    pub normals: Vec<[u32; 3]>,
    pub colors: Vec<[u32; 4]>,
    pub uvs: Vec<[u32; 2]>,
    pub tangents: Vec<[u32; 4]>,
    pub indices: Vec<u32>,
}

/// A mesh known to the renderer.
#[derive(Clone, Copy, Debug, PartialEq, Eq, Structural)]
pub struct MeshHandle(pub u32);

/// The scalars and textures of a material, textures in the order albedo, normal,
/// metallic and roughness, emissive, occlusion.
pub struct MaterialResolveData {
    pub scalars: [u32; 18],
    pub textures: [Option<TextureUploadInput>; 5],
}

/// What one entity asks the render thread to upload.
pub struct AssetResolveRequest {
    pub mesh: Option<MeshUploadInput>,
    pub material: Option<MaterialResolveData>,
}

/// What the render thread answers once it has uploaded.
#[derive(Clone, Copy, Debug, PartialEq, Eq, Structural)]
pub struct AssetResolveResult {
    pub mesh_handle: Option<MeshHandle>,
    pub material_slot: Option<u32>,
}

/// Why an asset cannot be decoded.
#[derive(Clone, Copy, Debug, PartialEq, Eq, Structural)]
pub enum AssetError {
    /// The texture is shorter than its shortest header.
    RtexTooShort,
    /// The texture does not begin with `RTEX`.
    RtexBadMagic,
    /// The mesh does not begin with `RMES`.
    RmesBadMagic,
}

/// The bytes begin with `RTEX`.
pub open spec fn has_rtex_magic(bytes: Seq<u8>) -> bool {
    bytes.len() >= 4 && bytes.take(4) == seq![0x52u8, 0x54, 0x45, 0x58]
}

/// The bytes begin with `RMES`.
pub open spec fn has_rmes_magic(bytes: Seq<u8>) -> bool {
    bytes.len() >= 4 && bytes.take(4) == seq![0x52u8, 0x4d, 0x45, 0x53]
}

/// The little-endian number in the four bytes from `at` on.
pub open spec fn le_u32(bytes: Seq<u8>, at: int) -> int {
    bytes[at] + 0x100 * bytes[at + 1] + 0x1_0000 * bytes[at + 2] + 0x100_0000 * bytes[at + 3]
}

/// A number, but at least one.
pub open spec fn at_least_one(n: int) -> int {
    if n >= 1 {
        n
    } else {
        1
    }
}

/// The format of a format code.
pub open spec fn format_of(code: u8) -> TextureFormat {
    if code == 1 {
        TextureFormat::Bc7Srgb
    } else if code == 2 {
        TextureFormat::Astc6x6Srgb
    } else {
        TextureFormat::Rgba8Srgb
    }
}

/// What a texture container with a full header holds.
pub ghost struct RtexFields {
    pub width: int,
    pub height: int,
    pub mip_levels: int,
    pub format: TextureFormat,
    pub pixels: Seq<u8>,
}

/// What a texture container with a full header holds: behind the magic its width, its
/// height, the number of its mip levels, its format code and its pixels.
pub open spec fn rtex_fields(bytes: Seq<u8>) -> RtexFields {
    RtexFields {
        width: at_least_one(le_u32(bytes, 4)),
        height: at_least_one(le_u32(bytes, 8)),
        mip_levels: at_least_one(bytes[12] as int),
        format: format_of(bytes[13]),
        pixels: bytes.skip(14),
    }
}

fn read_u32(bytes: &[u8], at: usize) -> (r: u32)
    requires
        at + 4 <= bytes.len(),
    ensures
        r == le_u32(bytes@, at as int),
{
    bytes[at] as u32 + 0x100 * (bytes[at + 1] as u32) + 0x1_0000 * (bytes[at + 2] as u32)
        + 0x100_0000 * (bytes[at + 3] as u32)
}

/// Decodes a texture container: magic, width, height, number of mip levels, format code,
/// pixels. A container that ends before its full header stands for one magenta pixel.
pub fn decode_rtex(bytes: &[u8]) -> (r: Result<TextureUploadInput, AssetError>)
    ensures
        match r {
            Ok(t) => {
                &&& bytes@.len() >= 8
                &&& has_rtex_magic(bytes@)
                &&& if bytes@.len() >= 14 {
                    let fields = rtex_fields(bytes@);
                    &&& t.width == fields.width
                    &&& t.height == fields.height
                    &&& t.mip_levels == fields.mip_levels
                    &&& t.format == fields.format
                    &&& t.pixels@ == fields.pixels
                } else {
                    &&& t.width == 1
                    &&& t.height == 1
                    &&& t.mip_levels == 1
                    &&& t.format == TextureFormat::Rgba8
                    &&& t.pixels@ == seq![255u8, 0, 255, 255]
                }
            },
            Err(e) => if bytes@.len() < 8 {
                e == AssetError::RtexTooShort
            } else {
                e == AssetError::RtexBadMagic && !has_rtex_magic(bytes@)
            },
        },
{
    if bytes.len() < 8 {
        return Err(AssetError::RtexTooShort);
    }
    let magic: bool = bytes[0] == 0x52 && bytes[1] == 0x54 && bytes[2] == 0x45 && bytes[3] == 0x58;
    proof {
        let m = seq![0x52u8, 0x54, 0x45, 0x58];
        if magic {
            assert(bytes@.take(4) =~= m);
        }
        if bytes@.take(4) == m {
            assert(bytes@.take(4)[0] == m[0] && bytes@.take(4)[1] == m[1] && bytes@.take(4)[2]
                == m[2] && bytes@.take(4)[3] == m[3]);
        }
    }
    if !magic {
        return Err(AssetError::RtexBadMagic);
    }
    if bytes.len() >= 14 {
        let w: u32 = read_u32(bytes, 4);
        let h: u32 = read_u32(bytes, 8);
        let mip: u32 = bytes[12] as u32;
        let format: TextureFormat = if bytes[13] == 1 {
            TextureFormat::Bc7Srgb
        } else if bytes[13] == 2 {
            TextureFormat::Astc6x6Srgb
        } else {
            TextureFormat::Rgba8Srgb
        };
        let mut pixels: Vec<u8> = Vec::new();
        let mut i: usize = 14;
        while i < bytes.len()
            invariant
                14 <= i <= bytes.len(),
                pixels@ == bytes@.subrange(14, i as int),
            decreases bytes.len() - i,
        {
            pixels.push(bytes[i]);
            i = i + 1;
            assert(pixels@ =~= bytes@.subrange(14, i as int));
        }
        assert(pixels@ =~= bytes@.skip(14));
        return Ok(
            TextureUploadInput {
                width: if w >= 1 {
                    w
                } else {
                    1
                },
                height: if h >= 1 {
                    h
                } else {
                    1
                },
                format,
                mip_levels: if mip >= 1 {
                    mip
                } else {
                    1
                },
                pixels,
            },
        );
    }
    let mut pixels: Vec<u8> = Vec::new();
    pixels.push(255);
    pixels.push(0);
    pixels.push(255);
    pixels.push(255);
    assert(pixels@ =~= seq![255u8, 0, 255, 255]);
    Ok(
        TextureUploadInput {
            width: 1,
            height: 1,
            format: TextureFormat::Rgba8,
            mip_levels: 1,
            pixels,
        },
    )
}

/// Decodes a mesh container, of which only the magic is read: the mesh is empty.
pub fn decode_rmes(bytes: &[u8]) -> (r: Result<MeshUploadInput, AssetError>)
    ensures
        match r {
            Ok(m) => {
                &&& has_rmes_magic(bytes@)
                &&& m.positions@.len() == 0
                &&& m.normals@.len() == 0
                &&& m.colors@.len() == 0
                &&& m.uvs@.len() == 0
                &&& m.tangents@.len() == 0
                &&& m.indices@.len() == 0
            },
            Err(e) => !has_rmes_magic(bytes@) && e == AssetError::RmesBadMagic,
        },
{
    let magic: bool = bytes.len() >= 4 && bytes[0] == 0x52 && bytes[1] == 0x4d && bytes[2] == 0x45
        && bytes[3] == 0x53;
    proof {
        let m = seq![0x52u8, 0x4d, 0x45, 0x53];
        if magic {
            assert(bytes@.take(4) =~= m);
        }
        if bytes@.len() >= 4 && bytes@.take(4) == m {
            assert(bytes@.take(4)[0] == m[0] && bytes@.take(4)[1] == m[1] && bytes@.take(4)[2]
                == m[2] && bytes@.take(4)[3] == m[3]);
        }
    }
    if !magic {
        return Err(AssetError::RmesBadMagic);
    }
    Ok(
        MeshUploadInput {
            positions: Vec::new(),
            normals: Vec::new(),
            colors: Vec::new(),
            uvs: Vec::new(),
            tangents: Vec::new(),
            indices: Vec::new(),
        },
    )
}

/// A number as it is written, the least significant byte first.
pub open spec fn le_bytes(n: u32) -> Seq<u8> {
    seq![
        (n % 0x100) as u8,
        (n / 0x100 % 0x100) as u8,
        (n / 0x1_0000 % 0x100) as u8,
        (n / 0x100_0000) as u8,
    ]
}

/// A texture container as it is written.
pub open spec fn rtex_bytes(
    width: u32,
    height: u32,
    mip_levels: u8,
    code: u8,
    pixels: Seq<u8>,
) -> Seq<u8> {
    seq![0x52u8, 0x54u8, 0x45u8, 0x58u8] + le_bytes(width) + le_bytes(height) + seq![
        mip_levels,
        code,
    ] + pixels
}

/// A written texture is read back as it was: its size, its mip levels, its format and its
/// pixels. Only a zero counts as one.
pub proof fn written_texture_is_read_back(
    width: u32,
    height: u32,
    mip_levels: u8,
    code: u8,
    pixels: Seq<u8>,
)
    ensures
        ({
            let bytes = rtex_bytes(width, height, mip_levels, code, pixels);
            let fields = rtex_fields(bytes);
            &&& bytes.len() >= 14
            &&& has_rtex_magic(bytes)
            &&& width > 0 ==> fields.width == width
            &&& height > 0 ==> fields.height == height
            &&& mip_levels > 0 ==> fields.mip_levels == mip_levels
            &&& width == 0 ==> fields.width == 1
            &&& height == 0 ==> fields.height == 1
            &&& mip_levels == 0 ==> fields.mip_levels == 1
            &&& fields.format == (match code {
                1 => TextureFormat::Bc7Srgb,
                2 => TextureFormat::Astc6x6Srgb,
                _ => TextureFormat::Rgba8Srgb,
            })
            &&& fields.pixels == pixels
        }),
{
    let bytes = rtex_bytes(width, height, mip_levels, code, pixels);
    let w = le_bytes(width);
    let h = le_bytes(height);
    assert(bytes[4] == w[0] && bytes[5] == w[1] && bytes[6] == w[2] && bytes[7] == w[3]);
    assert(bytes[8] == h[0] && bytes[9] == h[1] && bytes[10] == h[2] && bytes[11] == h[3]);
    assert(bytes[12] == mip_levels && bytes[13] == code);
    assert(bytes.take(4) =~= seq![0x52u8, 0x54u8, 0x45u8, 0x58u8]);
    assert(bytes.skip(14) =~= pixels);
    assert(le_u32(bytes, 4) == width);
    assert(le_u32(bytes, 8) == height);
}

/// Whatever follows the magic of a mesh container, it is one; with any of the four bytes
/// changed it is none.
pub proof fn mesh_magic_is_its_first_four_bytes(bytes: Seq<u8>, i: int, other: u8)
    requires
        0 <= i < 4,
    ensures
        has_rmes_magic(seq!['R' as u8, 'M' as u8, 'E' as u8, 'S' as u8] + bytes),
        has_rmes_magic(bytes) && other != bytes[i] ==> !has_rmes_magic(bytes.update(i, other)),
        has_rmes_magic(bytes) ==> has_rmes_magic(bytes.take(4)),
{
    let magic = seq!['R' as u8, 'M' as u8, 'E' as u8, 'S' as u8];
    assert((magic + bytes).take(4) =~= seq![0x52u8, 0x4d, 0x45, 0x53]);
    if has_rmes_magic(bytes) {
        assert(bytes.take(4)[i] == bytes[i]);
        assert(bytes.update(i, other).take(4)[i] == other);
        assert(bytes.take(4).take(4) =~= bytes.take(4));
    }
}

/// The magic of a texture container is its first four bytes, and no more.
pub proof fn texture_magic_is_its_first_four_bytes(bytes: Seq<u8>, i: int, other: u8)
    requires
        0 <= i < 4,
    ensures
        has_rtex_magic(seq!['R' as u8, 'T' as u8, 'E' as u8, 'X' as u8] + bytes),
        has_rtex_magic(bytes) && other != bytes[i] ==> !has_rtex_magic(bytes.update(i, other)),
        has_rtex_magic(bytes) ==> has_rtex_magic(bytes.take(4)),
{
    let magic = seq!['R' as u8, 'T' as u8, 'E' as u8, 'X' as u8];
    assert((magic + bytes).take(4) =~= seq![0x52u8, 0x54, 0x45, 0x58]);
    if has_rtex_magic(bytes) {
        assert(bytes.take(4)[i] == bytes[i]);
        assert(bytes.update(i, other).take(4)[i] == other);
        assert(bytes.take(4).take(4) =~= bytes.take(4));
    }
}

} // verus!
