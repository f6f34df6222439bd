use prism::asset_decoders::{decode_rmes, decode_rtex, AssetError, TextureFormat};
use prism::scene_manifest::{
    first_existing, manifest_scenes, resolve_given, resolve_listed, scene_manifest,
    split_toml_string, SceneMissing,
};

fn rtex(width: u32, height: u32, mips: u8, code: u8, pixels: &[u8]) -> Vec<u8> {
    let mut v = b"RTEX".to_vec();
    v.extend_from_slice(&width.to_le_bytes());
    v.extend_from_slice(&height.to_le_bytes());
    v.push(mips);
    v.push(code);
    v.extend_from_slice(pixels);
    v
}

#[test]
fn texture_is_decoded() {
    let t = decode_rtex(&rtex(300, 2, 4, 1, &[9, 8, 7])).expect("texture");
    assert_eq!((t.width, t.height, t.mip_levels), (300, 2, 4));
    assert!(t.format == TextureFormat::Bc7Srgb);
    assert_eq!(t.pixels, vec![9, 8, 7]);
    assert!(decode_rtex(&rtex(1, 1, 1, 2, &[])).unwrap().format == TextureFormat::Astc6x6Srgb);
    assert!(decode_rtex(&rtex(1, 1, 1, 0, &[])).unwrap().format == TextureFormat::Rgba8Srgb);
}

#[test]
fn zero_sizes_count_as_one() {
    let t = decode_rtex(&rtex(0, 0, 0, 0, &[])).expect("texture");
    assert_eq!((t.width, t.height, t.mip_levels), (1, 1, 1));
}

#[test]
fn short_texture_is_magenta() {
    let t = decode_rtex(b"RTEX\0\0\0\0\0").expect("texture");
    assert_eq!(t.pixels, vec![255, 0, 255, 255]);
    assert!(t.format == TextureFormat::Rgba8);
}

#[test]
fn broken_assets_are_refused() {
    assert!(matches!(decode_rtex(b"RTEX"), Err(AssetError::RtexTooShort)));
    assert!(matches!(decode_rtex(b"RTEY\0\0\0\0"), Err(AssetError::RtexBadMagic)));
    assert!(matches!(decode_rmes(b"RME"), Err(AssetError::RmesBadMagic)));
    assert!(decode_rmes(b"RMES...").unwrap().indices.is_empty());
}

#[test]
fn assigned_strings() {
    assert_eq!(split_toml_string(" = \"abc\" "), Some("abc".to_string()));
    assert_eq!(split_toml_string("='x y'"), Some("x y".to_string()));
    assert_eq!(split_toml_string("= abc"), None);
    assert_eq!(split_toml_string(" \"abc\""), None);
    assert_eq!(split_toml_string("= \"abc"), None);
}

#[test]
fn manifest_is_read() {
    let text = "# scenes\n[[scenes]]\nname = \"Sponza\"\npath = \"a.gltf\"\n\n[[scenes]]\n  path = 'b.gltf'\n";
    let scenes = manifest_scenes(text);
    assert_eq!(scenes.len(), 2);
    assert_eq!((scenes[0].name.as_str(), scenes[0].path.as_str()), ("Sponza", "a.gltf"));
    assert_eq!((scenes[1].name.as_str(), scenes[1].path.as_str()), ("unnamed", "b.gltf"));
    assert_eq!(scene_manifest(), "assets/scenes.toml");
}

#[test]
fn first_scene_that_exists() {
    assert_eq!(first_existing(&vec![false, true, true]), Some(1));
    assert_eq!(first_existing(&vec![false]), None);
}

#[test]
fn scene_is_resolved() {
    assert_eq!(resolve_given(true, Some("sponza")), Ok("sponza".to_string()));
    assert_eq!(resolve_given(true, None), Ok("unnamed".to_string()));
    assert_eq!(resolve_given(false, Some("sponza")), Err(SceneMissing::GivenPath));
    let text = "[[scenes]]\nname = \"a\"\npath = \"a.gltf\"\n[[scenes]]\npath = 'b.gltf'\n";
    let scenes = manifest_scenes(text);
    assert_eq!(resolve_listed(&scenes, &vec![false, true]), Ok(1));
    assert_eq!(scenes[1].name, "unnamed");
    assert_eq!(resolve_listed(&scenes, &vec![false, false]), Err(SceneMissing::AnyListed));
}
