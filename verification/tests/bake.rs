use prism::bake::{
    drop_alpha, group_count, image_source, output_format, parse_args, parse_probe_args,
    plan_image_bake, plan_probe_bake, probe_source, readback_size, ArgError, BakeStep, Extent3D,
    OutputFormat, SceneSource, DEFAULT_BOUNCES, DEFAULT_HEIGHT, DEFAULT_SAMPLES, DEFAULT_WIDTH,
    IMAGE_GROUP,
};
use prism::buffer::BufferSpec;

fn args(list: &[&str]) -> Vec<String> {
    let mut v = vec!["bake".to_string()];
    v.extend(list.iter().map(|s| s.to_string()));
    v
}

#[test]
fn defaults() {
    let a = parse_args(&args(&[])).unwrap();
    assert_eq!((a.width, a.height), (DEFAULT_WIDTH, DEFAULT_HEIGHT));
    assert_eq!((a.samples, a.bounces), (DEFAULT_SAMPLES, DEFAULT_BOUNCES));
    assert_eq!((a.scene, a.output, a.camera_pos, a.fov), (None, None, None, None));
    assert_eq!(parse_args(&Vec::new()).unwrap(), a);
}

#[test]
fn options_are_read() {
    let raw = args(&[
        "--scene", "s.gltf", "--output", "o.png", "--width", "640", "--height", "x",
        "--camera-pos", "1", "2", "3", "--camera-target", "4", "5", "6", "--fov", "45",
        "--samples", "+8", "--bounces", "2", "--intensity", "0.5", "--verbose",
    ]);
    let a = parse_args(&raw).unwrap();
    assert_eq!(raw[a.scene.unwrap()], "s.gltf");
    assert_eq!(raw[a.output.unwrap()], "o.png");
    assert_eq!((a.width, a.height), (640, DEFAULT_HEIGHT));
    assert_eq!(raw[a.camera_pos.unwrap() + 2], "3");
    assert_eq!(raw[a.camera_target.unwrap()], "4");
    assert_eq!(raw[a.fov.unwrap()], "45");
    assert_eq!((a.samples, a.bounces), (8, 2));
    assert_eq!(raw[a.intensity.unwrap()], "0.5");
}

#[test]
fn last_option_counts() {
    let a = parse_args(&args(&["--width", "1", "--width", "2"])).unwrap();
    assert_eq!(a.width, 2);
}

#[test]
fn missing_values_are_refused() {
    assert_eq!(parse_args(&args(&["--width"])), Err(ArgError::MissingValue(1)));
    assert_eq!(
        parse_args(&args(&["x", "--camera-pos", "1", "2"])),
        Err(ArgError::MissingValue(2))
    );
    assert!(parse_args(&args(&["--other"])).is_ok());
}

#[test]
fn sources_of_a_probe_bake() {
    assert_eq!(probe_source(true, false, true), SceneSource::TestCube);
    assert_eq!(probe_source(false, true, true), SceneSource::TestCube);
    assert_eq!(probe_source(false, false, true), SceneSource::GivenPath);
    assert_eq!(probe_source(false, false, false), SceneSource::Manifest);
}

#[test]
fn formats_by_extension() {
    assert_eq!(output_format(Some("png")), OutputFormat::Png);
    assert_eq!(output_format(Some("PNG")), OutputFormat::Hdr);
    assert_eq!(output_format(Some("hdr")), OutputFormat::Hdr);
    assert_eq!(output_format(None), OutputFormat::Hdr);
}

#[test]
fn groups_cover_the_image() {
    assert_eq!(group_count(1280, IMAGE_GROUP), 80);
    assert_eq!(group_count(1281, IMAGE_GROUP), 81);
    assert_eq!(group_count(1, 16), 1);
    assert_eq!(group_count(0, 16), 0);
    assert_eq!(group_count(u32::MAX, 2), 0x8000_0000);
}

#[test]
fn alpha_is_dropped() {
    assert_eq!(drop_alpha(&vec![1, 2, 3, 4, 5, 6, 7, 8]), vec![1, 2, 3, 5, 6, 7]);
    assert_eq!(readback_size(3, 5, 7), 1680);
}

#[test]
fn sources_of_an_image() {
    assert_eq!(image_source(true), SceneSource::GivenPath);
    assert_eq!(image_source(false), SceneSource::Manifest);
}

#[test]
fn command_line_of_a_probe_bake() {
    let a = parse_probe_args(&args(&[]));
    assert_eq!((a.output.as_str(), a.scene), ("assets/gi/probe_volume.bin", None));
    let a = parse_probe_args(&args(&["out.bin"]));
    assert_eq!((a.output.as_str(), a.scene), ("out.bin", None));
    let a = parse_probe_args(&args(&["out.bin", "s.gltf", "more"]));
    assert_eq!((a.output.as_str(), a.scene), ("out.bin", Some("s.gltf".to_string())));
    assert_eq!(parse_probe_args(&Vec::new()).output, "assets/gi/probe_volume.bin");
}

#[test]
fn bakes_trace_then_read_back() {
    let steps = plan_probe_bake(5, 4, 3);
    assert_eq!(
        steps[5],
        BakeStep::Dispatch { groups: Extent3D { width: 2, height: 1, depth: 3 } }
    );
    assert_eq!(steps[4], BakeStep::PushConstants { size: 56 });
    assert_eq!(
        steps[12],
        BakeStep::CopyImage { extent: Extent3D { width: 5, height: 4, depth: 27 } }
    );
    assert_eq!(steps[16], BakeStep::Read { size: 5 * 4 * 27 * 16 });
    let steps = plan_image_bake(1280, 720);
    assert_eq!(
        steps[5],
        BakeStep::Dispatch { groups: Extent3D { width: 80, height: 45, depth: 1 } }
    );
    assert_eq!(steps[10], BakeStep::CreateReadback(BufferSpec { size: 1280 * 720 * 16, usage: 2, memory: 6 }));
}
