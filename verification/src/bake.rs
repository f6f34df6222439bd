//! Offline baking: command lines, the steps of tracing into an image and reading it back,
//! and pixel layouts.

use vstd::prelude::*;

use crate::buffer::{BufferSpec, HOST_MEMORY, USAGE_TRANSFER_DST};
use crate::gi::{BAKE_GROUP, SH_COEFF_COUNT};
use crate::gpu::{Access, ImageBarrier, ImageLayout, PipelineStage};
use crate::text::{number_of, parse_u32, same_text};

verus! {

/// Size of the rendered image unless it is given.
pub const DEFAULT_WIDTH: u32 = 1280;

pub const DEFAULT_HEIGHT: u32 = 720;

/// Samples of a pixel unless they are given.
pub const DEFAULT_SAMPLES: u32 = 16;

/// Bounces of a path unless they are given.
pub const DEFAULT_BOUNCES: u32 = 3;

/// Size of a compute group along both axes of an image.
pub const IMAGE_GROUP: u32 = 16;

// ---------------------------------------------------------------------------
// Command line
// ---------------------------------------------------------------------------

/// The options of the image renderer.
#[derive(Clone, Copy, Debug, PartialEq, Eq, Structural)]
pub enum BakeOption {
    Scene,
    Output,
    Width,
    Height,
    CameraPos,
    CameraTarget,
    Fov,
    Samples,
    Bounces,
    Intensity,
    /// Anything else, which is passed over.
    Unknown,
}

/// What the command line asks for. Paths and fractional numbers are given by the place
/// of their argument; a camera's three coordinates stand behind one another.
#[derive(Clone, Copy, Debug, PartialEq, Eq, Structural)]
pub struct BakeArgs {
    pub scene: Option<usize>,
    pub output: Option<usize>,
    pub width: u32,
    pub height: u32,
    pub camera_pos: Option<usize>,
    pub camera_target: Option<usize>,
    pub fov: Option<usize>,
    pub samples: u32,
    pub bounces: u32,
    pub intensity: Option<usize>,
}

/// Why a command line is refused.
#[derive(Clone, Copy, Debug, PartialEq, Eq, Structural)]
pub enum ArgError {
    /// The option at this place lacks a value.
    MissingValue(usize),
}

/// What is asked for by default.
pub open spec fn default_args() -> BakeArgs {
    BakeArgs {
        scene: None,
        output: None,
        width: DEFAULT_WIDTH,
        height: DEFAULT_HEIGHT,
        camera_pos: None,
        camera_target: None,
        fov: None,
        samples: DEFAULT_SAMPLES,
        bounces: DEFAULT_BOUNCES,
        intensity: None,
    }
}

/// The option that an argument names.
pub open spec fn option_of(arg: Seq<char>) -> BakeOption {
    if arg == "--scene"@ {
        BakeOption::Scene
    } else if arg == "--output"@ {
        BakeOption::Output
    } else if arg == "--width"@ {
        BakeOption::Width
    } else if arg == "--height"@ {
        BakeOption::Height
    } else if arg == "--camera-pos"@ {
        BakeOption::CameraPos
    } else if arg == "--camera-target"@ {
        BakeOption::CameraTarget
    } else if arg == "--fov"@ {
        BakeOption::Fov
    } else if arg == "--samples"@ {
        BakeOption::Samples
    } else if arg == "--bounces"@ {
        BakeOption::Bounces
    } else if arg == "--intensity"@ {
        BakeOption::Intensity
    } else {
        BakeOption::Unknown
    }
}

/// How many values an option takes.
pub open spec fn value_count(option: BakeOption) -> int {
    match option {
        BakeOption::CameraPos => 3,
        BakeOption::CameraTarget => 3,
        BakeOption::Unknown => 0,
        _ => 1,
    }
}

/// A number, or the default where the argument is none.
pub open spec fn number_or(arg: Seq<char>, default: u32) -> u32 {
    match number_of(arg) {
        Some(n) => n,
        None => default,
    }
}

/// What is asked for once an option has been read whose values begin at place `at`. A
/// number that cannot be read counts as its default.
pub open spec fn with_option(
    args: BakeArgs,
    option: BakeOption,
    raw: Seq<String>,
    at: int,
) -> BakeArgs {
    let place = Some(at as usize);
    match option {
        BakeOption::Scene => BakeArgs { scene: place, ..args },
        BakeOption::Output => BakeArgs { output: place, ..args },
        BakeOption::Width => BakeArgs { width: number_or(raw[at]@, DEFAULT_WIDTH), ..args },
        BakeOption::Height => BakeArgs { height: number_or(raw[at]@, DEFAULT_HEIGHT), ..args },
        BakeOption::CameraPos => BakeArgs { camera_pos: place, ..args },
        BakeOption::CameraTarget => BakeArgs { camera_target: place, ..args },
        BakeOption::Fov => BakeArgs { fov: place, ..args },
        BakeOption::Samples => BakeArgs { samples: number_or(raw[at]@, DEFAULT_SAMPLES), ..args },
        BakeOption::Bounces => BakeArgs { bounces: number_or(raw[at]@, DEFAULT_BOUNCES), ..args },
        BakeOption::Intensity => BakeArgs { intensity: place, ..args },
        BakeOption::Unknown => args,
    }
}

/// What the arguments from place `i` on ask for.
pub open spec fn parsed_from(raw: Seq<String>, i: int, args: BakeArgs) -> Result<BakeArgs, ArgError>
    decreases raw.len() - i,
{
    if i >= raw.len() {
        Ok(args)
    } else {
        let option = option_of(raw[i]@);
        let n = value_count(option);
        if i + n >= raw.len() {
            Err(ArgError::MissingValue(i as usize))
        } else {
            parsed_from(raw, i + 1 + n, with_option(args, option, raw, i + 1))
        }
    }
}

fn read_option(arg: &str) -> (r: BakeOption)
    ensures
        r == option_of(arg@),
{
    if same_text(arg, "--scene") {
        BakeOption::Scene
    } else if same_text(arg, "--output") {
        BakeOption::Output
    } else if same_text(arg, "--width") {
        BakeOption::Width
    } else if same_text(arg, "--height") {
        BakeOption::Height
    } else if same_text(arg, "--camera-pos") {
        BakeOption::CameraPos
    } else if same_text(arg, "--camera-target") {
        BakeOption::CameraTarget
    } else if same_text(arg, "--fov") {
        BakeOption::Fov
    } else if same_text(arg, "--samples") {
        BakeOption::Samples
    } else if same_text(arg, "--bounces") {
        BakeOption::Bounces
    } else if same_text(arg, "--intensity") {
        BakeOption::Intensity
    } else {
        BakeOption::Unknown
    }
}

fn read_number(arg: &str, default: u32) -> (r: u32)
    ensures
        r == number_or(arg@, default),
{
    match parse_u32(arg) {
        Some(n) => n,
        None => default,
    }
}

fn read_values(args: BakeArgs, option: BakeOption, raw: &Vec<String>, at: usize) -> (r: BakeArgs)
    requires
        option != BakeOption::Unknown ==> at < raw@.len(),
    ensures
        r == with_option(args, option, raw@, at as int),
{
    let mut args = args;
    match option {
        BakeOption::Scene => {
            args.scene = Some(at);
        },
        BakeOption::Output => {
            args.output = Some(at);
        },
        BakeOption::Width => {
            args.width = read_number(raw[at].as_str(), DEFAULT_WIDTH);
        },
        BakeOption::Height => {
            args.height = read_number(raw[at].as_str(), DEFAULT_HEIGHT);
        },
        BakeOption::CameraPos => {
            args.camera_pos = Some(at);
        },
        BakeOption::CameraTarget => {
            args.camera_target = Some(at);
        },
        BakeOption::Fov => {
            args.fov = Some(at);
        },
        BakeOption::Samples => {
            args.samples = read_number(raw[at].as_str(), DEFAULT_SAMPLES);
        },
        BakeOption::Bounces => {
            args.bounces = read_number(raw[at].as_str(), DEFAULT_BOUNCES);
        },
        BakeOption::Intensity => {
            args.intensity = Some(at);
        },
        BakeOption::Unknown => {},
    }
    args
}

/// Reads the command line of the image renderer. The first argument is the program.
pub fn parse_args(raw: &Vec<String>) -> (r: Result<BakeArgs, ArgError>)
    ensures
        r == parsed_from(raw@, 1, default_args()),
{
    let mut args = BakeArgs {
        scene: None,
        output: None,
        width: DEFAULT_WIDTH,
        height: DEFAULT_HEIGHT,
        camera_pos: None,
        camera_target: None,
        fov: None,
        samples: DEFAULT_SAMPLES,
        bounces: DEFAULT_BOUNCES,
        intensity: None,
    };
    let mut i: usize = 1;
    while i < raw.len()
        invariant
            1 <= i,
            i <= raw.len() || raw.len() == 0,
            parsed_from(raw@, 1, default_args()) == parsed_from(raw@, i as int, args),
        decreases raw.len() - i,
    {
        let option = read_option(raw[i].as_str());
        let n: usize = match option {
            BakeOption::CameraPos => 3,
            BakeOption::CameraTarget => 3,
            BakeOption::Unknown => 0,
            _ => 1,
        };
        if n >= raw.len() - i {
            return Err(ArgError::MissingValue(i));
        }
        args = read_values(args, option, raw, i + 1);
        i = i + 1 + n;
    }
    Ok(args)
}

/// An option that is given twice counts as it is given last.
pub proof fn last_option_wins(
    args: BakeArgs,
    option: BakeOption,
    raw: Seq<String>,
    first: int,
    second: int,
)
    ensures
        with_option(with_option(args, option, raw, first), option, raw, second) == with_option(
            args,
            option,
            raw,
            second,
        ),
{
}

/// Options do not disturb one another: their order does not matter.
pub proof fn options_are_independent(
    args: BakeArgs,
    a: BakeOption,
    b: BakeOption,
    raw: Seq<String>,
    i: int,
    j: int,
)
    requires
        a != b,
    ensures
        with_option(with_option(args, a, raw, i), b, raw, j) == with_option(
            with_option(args, b, raw, j),
            a,
            raw,
            i,
        ),
{
}

/// Each option sets its own field and nothing else: a number is taken as it is written, and
/// of any other value its place is kept. What stands behind the values is read on.
pub proof fn each_option_sets_its_own_field(raw: Seq<String>, i: int, args: BakeArgs, n: u32)
    requires
        0 <= i,
        i + 3 < raw.len() <= usize::MAX,
        number_of(raw[i + 1]@) == Some(n),
    ensures
        ({
            let arg = raw[i]@;
            let value = Some((i + 1) as usize);
            let here = parsed_from(raw, i, args);
            &&& arg == "--scene"@ ==> here == parsed_from(
                raw,
                i + 2,
                BakeArgs { scene: value, ..args },
            )
            &&& arg == "--output"@ ==> here == parsed_from(
                raw,
                i + 2,
                BakeArgs { output: value, ..args },
            )
            &&& arg == "--width"@ ==> here == parsed_from(raw, i + 2, BakeArgs { width: n, ..args })
            &&& arg == "--height"@ ==> here == parsed_from(raw, i + 2, BakeArgs { height: n, ..args })
            &&& arg == "--camera-pos"@ ==> here == parsed_from(
                raw,
                i + 4,
                BakeArgs { camera_pos: value, ..args },
            )
            &&& arg == "--camera-target"@ ==> here == parsed_from(
                raw,
                i + 4,
                BakeArgs { camera_target: value, ..args },
            )
            &&& arg == "--fov"@ ==> here == parsed_from(raw, i + 2, BakeArgs { fov: value, ..args })
            &&& arg == "--samples"@ ==> here == parsed_from(
                raw,
                i + 2,
                BakeArgs { samples: n, ..args },
            )
            &&& arg == "--bounces"@ ==> here == parsed_from(
                raw,
                i + 2,
                BakeArgs { bounces: n, ..args },
            )
            &&& arg == "--intensity"@ ==> here == parsed_from(
                raw,
                i + 2,
                BakeArgs { intensity: value, ..args },
            )
        }),
{
    reveal_strlit("--scene");
    reveal_strlit("--output");
    reveal_strlit("--width");
    reveal_strlit("--height");
    reveal_strlit("--camera-pos");
    reveal_strlit("--camera-target");
    reveal_strlit("--fov");
    reveal_strlit("--samples");
    reveal_strlit("--bounces");
    reveal_strlit("--intensity");
    assert("--scene"@[2] != "--width"@[2]);
    assert("--output"@[2] != "--height"@[2]);
    assert("--samples"@[2] != "--bounces"@[2]);
    assert("--scene"@.len() == 7 && "--width"@.len() == 7);
    assert("--output"@.len() == 8 && "--height"@.len() == 8);
    assert("--samples"@.len() == 9 && "--bounces"@.len() == 9);
    assert("--camera-pos"@.len() == 12 && "--camera-target"@.len() == 15);
    assert("--fov"@.len() == 5 && "--intensity"@.len() == 11);
    let arg = raw[i]@;
    let option = option_of(arg);
    assert(arg == "--scene"@ ==> option == BakeOption::Scene);
    assert(arg == "--output"@ ==> option == BakeOption::Output);
    assert(arg == "--width"@ ==> option == BakeOption::Width);
    assert(arg == "--height"@ ==> option == BakeOption::Height);
    assert(arg == "--camera-pos"@ ==> option == BakeOption::CameraPos);
    assert(arg == "--camera-target"@ ==> option == BakeOption::CameraTarget);
    assert(arg == "--fov"@ ==> option == BakeOption::Fov);
    assert(arg == "--samples"@ ==> option == BakeOption::Samples);
    assert(arg == "--bounces"@ ==> option == BakeOption::Bounces);
    assert(arg == "--intensity"@ ==> option == BakeOption::Intensity);
    assert(value_count(option) <= 3);
    assert(parsed_from(raw, i, args) == parsed_from(
        raw,
        i + 1 + value_count(option),
        with_option(args, option, raw, i + 1),
    ));
}

/// Where the geometry of a bake comes from.
#[derive(Clone, Copy, Debug, PartialEq, Eq, Structural)]
pub enum SceneSource {
    TestCube,
    /// The path on the command line.
    GivenPath,
    /// The first scene of the manifest that exists.
    Manifest,
}

/// Where the geometry of a probe bake comes from: the test cube where it is asked for,
/// by the environment or by name.
pub fn probe_source(cube_asked: bool, named_cube: bool, has_path: bool) -> (r: SceneSource)
    ensures
        r == source_of(cube_asked || named_cube, has_path),
{
    if cube_asked || named_cube {
        SceneSource::TestCube
    } else if has_path {
        SceneSource::GivenPath
    } else {
        SceneSource::Manifest
    }
}

/// Where the geometry of a rendered image comes from.
pub fn image_source(has_path: bool) -> (r: SceneSource)
    ensures
        r == source_of(false, has_path),
{
    if has_path {
        SceneSource::GivenPath
    } else {
        SceneSource::Manifest
    }
}

/// What a probe bake is asked for on the command line.
pub struct ProbeArgs {
    pub output: String,
    pub scene: Option<String>,
}

/// Reads the command line of a probe bake, which begins with the name of the program:
/// the output path, and then the scene. Both can be left out.
pub fn parse_probe_args(raw: &Vec<String>) -> (r: ProbeArgs)
    ensures
        r.output@ == (if raw@.len() > 1 {
            raw@[1]@
        } else {
            "assets/gi/probe_volume.bin"@
        }),
        match r.scene {
            Some(scene) => raw@.len() > 2 && scene@ == raw@[2]@,
            None => raw@.len() <= 2,
        },
{
    let output: String = if raw.len() > 1 {
        raw[1].clone()
    } else {
        "assets/gi/probe_volume.bin".to_owned()
    };
    let scene: Option<String> = if raw.len() > 2 {
        Some(raw[2].clone())
    } else {
        None
    };
    ProbeArgs { output, scene }
}

/// How the rendered image is written.
#[derive(Clone, Copy, Debug, PartialEq, Eq, Structural)]
pub enum OutputFormat {
    Hdr,
    Png,
}

/// How the rendered image is written, by the extension of its path.
pub fn output_format(extension: Option<&str>) -> (r: OutputFormat)
    ensures
        r == (match extension {
            Some(e) => if e@ == "png"@ {
                OutputFormat::Png
            } else {
                OutputFormat::Hdr
            },
            None => OutputFormat::Hdr,
        }),
{
    match extension {
        Some(e) => if same_text(e, "png") {
            OutputFormat::Png
        } else {
            OutputFormat::Hdr
        },
        None => OutputFormat::Hdr,
    }
}

// ---------------------------------------------------------------------------
// Work groups and pixels
// ---------------------------------------------------------------------------

/// The least number of groups of `size` that cover `n`.
pub open spec fn covering_groups(n: u32, size: u32) -> int {
    if n % size == 0 {
        n as int / size as int
    } else {
        n as int / size as int + 1
    }
}

/// Number of compute groups along an axis.
pub fn group_count(n: u32, size: u32) -> (r: u32)
    requires
        size >= 2,
    ensures
        r == covering_groups(n, size),
{
    let whole: u32 = n / size;
    proof {
        assert(n as int / size as int <= n as int / 2) by (nonlinear_arith)
            requires
                size >= 2,
                n >= 0,
        ;
    }
    if n % size == 0 {
        whole
    } else {
        whole + 1
    }
}

/// The groups cover everything, and none of them is idle.
pub proof fn groups_cover(n: u32, size: u32)
    requires
        size >= 1,
    ensures
        covering_groups(n, size) * size >= n,
        n > 0 ==> (covering_groups(n, size) - 1) * size < n,
{
    let q = n as int / size as int;
    let r = n as int % size as int;
    vstd::arithmetic::div_mod::lemma_fundamental_div_mod(n as int, size as int);
    assert(size * q == q * size) by (nonlinear_arith);
    assert((q + 1) * size == q * size + size) by (nonlinear_arith);
    assert((q - 1) * size == q * size - size) by (nonlinear_arith);
}

/// Leaves the fourth value of every pixel out.
pub fn drop_alpha<T: Copy>(pixels: &Vec<T>) -> (r: Vec<T>)
    requires
        pixels@.len() % 4 == 0,
    ensures
        r@.len() == pixels@.len() / 4 * 3,
        forall|i: int, k: int|
            0 <= i < pixels@.len() / 4 && 0 <= k < 3 ==> #[trigger] r@[3 * i + k] == pixels@[4 * i
                + k],
{
    let mut list: Vec<T> = Vec::new();
    let count: usize = pixels.len() / 4;
    let mut i: usize = 0;
    while i < count
        invariant
            i <= count,
            count == pixels.len() / 4,
            pixels.len() % 4 == 0,
            list@.len() == 3 * i,
            forall|j: int, k: int|
                0 <= j < i && 0 <= k < 3 ==> #[trigger] list@[3 * j + k] == pixels@[4 * j + k],
        decreases count - i,
    {
        list.push(pixels[4 * i]);
        list.push(pixels[4 * i + 1]);
        list.push(pixels[4 * i + 2]);
        i = i + 1;
    }
    list
}

/// Bytes of a readback of four single-precision values for each texel.
pub fn readback_size(width: u32, height: u32, depth: u32) -> (r: u64)
    requires
        width * height * depth * 16 <= u64::MAX,
    ensures
        r == width * height * depth * 16,
{
    proof {
        assert(width as u64 * height as u64 <= u64::MAX) by (nonlinear_arith)
            requires
                width <= 0xffff_ffff,
                height <= 0xffff_ffff,
        ;
        assert(0 <= width * height * depth) by (nonlinear_arith)
            requires
                width >= 0,
                height >= 0,
                depth >= 0,
        ;
    }
    (width as u64) * (height as u64) * (depth as u64) * 16
}

// ---------------------------------------------------------------------------
// Tracing and reading back
// ---------------------------------------------------------------------------

/// Rays that each probe casts.
pub const PROBE_RAYS: u32 = 64;

/// Bounces of each ray of a probe.
pub const PROBE_BOUNCES: u32 = 3;

/// Bytes of the constants of a probe bake: three vectors and two numbers.
pub const PROBE_PUSH_SIZE: u32 = 56;

/// Bytes of the constants of a rendered image: a matrix, three vectors and four numbers.
pub const IMAGE_PUSH_SIZE: u32 = 128;

/// A size in texels.
#[derive(Clone, Copy, Debug, PartialEq, Eq, Structural)]
pub struct Extent3D {
    pub width: u32,
    pub height: u32,
    pub depth: u32,
}

/// One step of tracing into an image and reading it back.
#[derive(Clone, Copy, Debug, PartialEq, Eq, Structural)]
pub enum BakeStep {
    /// Allocate a command buffer, and begin it. It is submitted once.
    BeginCommands,
    Barrier(ImageBarrier),
    BindPipeline,
    BindSet,
    PushConstants { size: u32 },
    Dispatch { groups: Extent3D },
    EndCommands,
    Submit,
    /// Wait until the queue has done everything.
    WaitIdle,
    /// Create the buffer that the image is read back through.
    CreateReadback(BufferSpec),
    /// Copy the image into the readback buffer.
    CopyImage { extent: Extent3D },
    /// Map the readback buffer and copy what is in it.
    Read { size: u64 },
}

/// The barrier that lets shaders write a fresh image.
pub open spec fn before_tracing() -> ImageBarrier {
    ImageBarrier {
        base_level: 0,
        level_count: 1,
        old_layout: ImageLayout::Undefined,
        new_layout: ImageLayout::General,
        src_stage: PipelineStage::TopOfPipe,
        src_access: Access::NoAccess,
        dst_stage: PipelineStage::ComputeShader,
        dst_access: Access::ShaderWrite,
    }
}

/// The barrier that lets a written image be copied.
pub open spec fn after_tracing() -> ImageBarrier {
    ImageBarrier {
        base_level: 0,
        level_count: 1,
        old_layout: ImageLayout::General,
        new_layout: ImageLayout::TransferSrc,
        src_stage: PipelineStage::ComputeShader,
        src_access: Access::ShaderWrite,
        dst_stage: PipelineStage::Transfer,
        dst_access: Access::TransferRead,
    }
}

/// Bytes of a readback.
pub open spec fn texel_bytes(extent: Extent3D) -> u64 {
    (extent.width * extent.height * extent.depth * 16) as u64
}

/// All steps that trace into an image and read it back.
pub open spec fn bake_steps(groups: Extent3D, push_size: u32, extent: Extent3D) -> Seq<BakeStep> {
    let size = texel_bytes(extent);
    seq![
        BakeStep::BeginCommands,
        BakeStep::Barrier(before_tracing()),
        BakeStep::BindPipeline,
        BakeStep::BindSet,
        BakeStep::PushConstants { size: push_size },
        BakeStep::Dispatch { groups },
        BakeStep::Barrier(after_tracing()),
        BakeStep::EndCommands,
        BakeStep::Submit,
        BakeStep::WaitIdle,
        BakeStep::CreateReadback(
            BufferSpec { size, usage: USAGE_TRANSFER_DST, memory: HOST_MEMORY },
        ),
        BakeStep::BeginCommands,
        BakeStep::CopyImage { extent },
        BakeStep::EndCommands,
        BakeStep::Submit,
        BakeStep::WaitIdle,
        BakeStep::Read { size },
    ]
}

fn plan_bake(groups: Extent3D, push_size: u32, extent: Extent3D) -> (r: Vec<BakeStep>)
    requires
        extent.width * extent.height * extent.depth * 16 <= u64::MAX,
    ensures
        r@ == bake_steps(groups, push_size, extent),
{
    let size: u64 = readback_size(extent.width, extent.height, extent.depth);
    let mut steps: Vec<BakeStep> = Vec::new();
    steps.push(BakeStep::BeginCommands);
    steps.push(
        BakeStep::Barrier(
            ImageBarrier {
                base_level: 0,
                level_count: 1,
                old_layout: ImageLayout::Undefined,
                new_layout: ImageLayout::General,
                src_stage: PipelineStage::TopOfPipe,
                src_access: Access::NoAccess,
                dst_stage: PipelineStage::ComputeShader,
                dst_access: Access::ShaderWrite,
            },
        ),
    );
    steps.push(BakeStep::BindPipeline);
    steps.push(BakeStep::BindSet);
    steps.push(BakeStep::PushConstants { size: push_size });
    steps.push(BakeStep::Dispatch { groups });
    steps.push(
        BakeStep::Barrier(
            ImageBarrier {
                base_level: 0,
                level_count: 1,
                old_layout: ImageLayout::General,
                new_layout: ImageLayout::TransferSrc,
                src_stage: PipelineStage::ComputeShader,
                src_access: Access::ShaderWrite,
                dst_stage: PipelineStage::Transfer,
                dst_access: Access::TransferRead,
            },
        ),
    );
    steps.push(BakeStep::EndCommands);
    steps.push(BakeStep::Submit);
    steps.push(BakeStep::WaitIdle);
    steps.push(
        BakeStep::CreateReadback(
            BufferSpec { size, usage: USAGE_TRANSFER_DST, memory: HOST_MEMORY },
        ),
    );
    steps.push(BakeStep::BeginCommands);
    steps.push(BakeStep::CopyImage { extent });
    steps.push(BakeStep::EndCommands);
    steps.push(BakeStep::Submit);
    steps.push(BakeStep::WaitIdle);
    steps.push(BakeStep::Read { size });
    assert(steps@ =~= bake_steps(groups, push_size, extent));
    steps
}

/// The texture of a probe volume: the layers of one coefficient behind those of the one
/// before.
pub open spec fn volume_extent(dx: u32, dy: u32, dz: u32) -> Extent3D {
    Extent3D { width: dx, height: dy, depth: (dz * SH_COEFF_COUNT) as u32 }
}

/// The compute groups of a probe bake.
pub open spec fn probe_groups(dx: u32, dy: u32, dz: u32) -> Extent3D {
    Extent3D {
        width: covering_groups(dx, BAKE_GROUP) as u32,
        height: covering_groups(dy, BAKE_GROUP) as u32,
        depth: dz,
    }
}

/// The compute groups of a rendered image.
pub open spec fn image_groups(width: u32, height: u32) -> Extent3D {
    Extent3D {
        width: covering_groups(width, IMAGE_GROUP) as u32,
        height: covering_groups(height, IMAGE_GROUP) as u32,
        depth: 1,
    }
}

/// The steps of a probe bake over a grid of so many probes along each axis.
pub fn plan_probe_bake(dx: u32, dy: u32, dz: u32) -> (r: Vec<BakeStep>)
    requires
        dz * SH_COEFF_COUNT <= u32::MAX,
        dx * dy * (dz * SH_COEFF_COUNT) * 16 <= u64::MAX,
    ensures
        r@ == bake_steps(
            probe_groups(dx, dy, dz),
            PROBE_PUSH_SIZE,
            volume_extent(dx, dy, dz),
        ),
{
    let groups = Extent3D {
        width: group_count(dx, BAKE_GROUP),
        height: group_count(dy, BAKE_GROUP),
        depth: dz,
    };
    let extent = Extent3D { width: dx, height: dy, depth: dz * (SH_COEFF_COUNT as u32) };
    plan_bake(groups, PROBE_PUSH_SIZE, extent)
}

/// The steps of rendering an image.
pub fn plan_image_bake(width: u32, height: u32) -> (r: Vec<BakeStep>)
    requires
        width * height * 1 * 16 <= u64::MAX,
    ensures
        r@ == bake_steps(
            image_groups(width, height),
            IMAGE_PUSH_SIZE,
            Extent3D { width, height, depth: 1 },
        ),
{
    let groups = Extent3D {
        width: group_count(width, IMAGE_GROUP),
        height: group_count(height, IMAGE_GROUP),
        depth: 1,
    };
    plan_bake(groups, IMAGE_PUSH_SIZE, Extent3D { width, height, depth: 1 })
}

/// The layout of the traced image after the first `n` steps; nothing where a barrier
/// starts from another layout than the image has.
pub open spec fn layout_after(steps: Seq<BakeStep>, n: nat) -> Option<ImageLayout>
    decreases n,
{
    if n == 0 {
        Some(ImageLayout::Undefined)
    } else {
        match layout_after(steps, (n - 1) as nat) {
            None => None,
            Some(at) => match steps[n - 1] {
                BakeStep::Barrier(b) => if b.old_layout == at {
                    Some(b.new_layout)
                } else {
                    None
                },
                _ => Some(at),
            },
        }
    }
}

/// Shaders write the image while it can be written, it is copied while it can be copied,
/// and what is read was copied before.
pub proof fn image_is_read_after_it_is_traced(
    groups: Extent3D,
    push_size: u32,
    extent: Extent3D,
    i: int,
)
    requires
        0 <= i < bake_steps(groups, push_size, extent).len(),
    ensures
        ({
            let steps = bake_steps(groups, push_size, extent);
            &&& steps[i] is Dispatch ==> layout_after(steps, i as nat) == Some(
                ImageLayout::General,
            )
            &&& steps[i] is CopyImage ==> layout_after(steps, i as nat) == Some(
                ImageLayout::TransferSrc,
            )
            &&& steps[i] is Read ==> steps[i - 1] is WaitIdle && exists|j: int|
                0 <= j < i - 1 && #[trigger] steps[j] == (BakeStep::CopyImage { extent })
        }),
{
    let steps = bake_steps(groups, push_size, extent);
    reveal_with_fuel(layout_after, 13);
    assert(steps[12] == (BakeStep::CopyImage { extent }));
}

proof fn lemma_covered(n: u32, size: u32)
    requires
        size >= 2,
    ensures
        n <= covering_groups(n, size) * size < n + size,
        0 <= covering_groups(n, size) <= u32::MAX,
{
    let q = n as int / size as int;
    vstd::arithmetic::div_mod::lemma_fundamental_div_mod(n as int, size as int);
    assert(q <= n) by (nonlinear_arith)
        requires
            q == n as int / size as int,
            size >= 2,
            n >= 0,
    ;
    assert(q * 2 <= n) by (nonlinear_arith)
        requires
            size * q <= n,
            size >= 2,
            q >= 0,
    ;
    assert((q + 1) * size == q * size + size) by (nonlinear_arith);
    assert(size * q == q * size) by (nonlinear_arith);
}

/// Every pixel of an image is in a compute group of its bake, and no group lies beside the
/// image altogether.
pub proof fn every_pixel_is_traced(width: u32, height: u32)
    ensures
        ({
            let groups = image_groups(width, height);
            &&& width <= groups.width * IMAGE_GROUP < width + IMAGE_GROUP
            &&& height <= groups.height * IMAGE_GROUP < height + IMAGE_GROUP
            &&& groups.depth == 1
        }),
{
    lemma_covered(width, IMAGE_GROUP);
    lemma_covered(height, IMAGE_GROUP);
}

/// Every probe of a grid is in a compute group of its bake, one layer of groups for each
/// layer of probes, and the image that is read back has nine layers for each.
pub proof fn every_probe_is_traced(dx: u32, dy: u32, dz: u32)
    requires
        dz * 9 <= u32::MAX,
    ensures
        ({
            let groups = probe_groups(dx, dy, dz);
            let volume = volume_extent(dx, dy, dz);
            &&& dx <= groups.width * BAKE_GROUP < dx + BAKE_GROUP
            &&& dy <= groups.height * BAKE_GROUP < dy + BAKE_GROUP
            &&& groups.depth == dz
            &&& volume.width == dx
            &&& volume.height == dy
            &&& volume.depth == 9 * dz
        }),
{
    lemma_covered(dx, BAKE_GROUP);
    lemma_covered(dy, BAKE_GROUP);
}

/// A bake traces with the given groups and constants and reads back the whole image,
/// sixteen bytes for each texel, once the device has done everything.
pub proof fn bake_reads_back_the_whole_image(
    groups: Extent3D,
    push_size: u32,
    extent: Extent3D,
    i: int,
)
    requires
        0 <= i < bake_steps(groups, push_size, extent).len(),
        extent.width * extent.height * extent.depth * 16 <= u64::MAX,
    ensures
        ({
            let steps = bake_steps(groups, push_size, extent);
            let size = extent.width * extent.height * extent.depth * 16;
            &&& match steps[i] {
                BakeStep::PushConstants { size: s } => s == push_size,
                BakeStep::Dispatch { groups: g } => g == groups,
                BakeStep::CopyImage { extent: e } => e == extent,
                BakeStep::CreateReadback(buffer) => buffer.size == size,
                BakeStep::Read { size: s } => s == size && steps[i - 1] == BakeStep::WaitIdle,
                BakeStep::Submit => steps[i - 1] == BakeStep::EndCommands && steps[i + 1]
                    == BakeStep::WaitIdle,
                _ => true,
            }
            &&& steps.last() is Read
            &&& steps.contains(BakeStep::Dispatch { groups })
            &&& steps.contains(BakeStep::CopyImage { extent })
            &&& steps.contains(BakeStep::PushConstants { size: push_size })
        }),
{
    let steps = bake_steps(groups, push_size, extent);
    assert(steps[4] == (BakeStep::PushConstants { size: push_size }));
    assert(steps[5] == (BakeStep::Dispatch { groups }));
    assert(steps[12] == (BakeStep::CopyImage { extent }));
}

/// The two barriers of a bake fit together: the first waits for nothing, as nothing used
/// the fresh image, and lets compute shaders write it; the second takes the image up as
/// the first left it, waits for those writes, and lets a transfer read it.
pub proof fn bake_barriers_fit_together()
    ensures
        before_tracing().old_layout == ImageLayout::Undefined,
        before_tracing().src_stage == PipelineStage::TopOfPipe,
        before_tracing().src_access == Access::NoAccess,
        before_tracing().dst_stage == PipelineStage::ComputeShader,
        before_tracing().dst_access == Access::ShaderWrite,
        after_tracing().old_layout == before_tracing().new_layout,
        after_tracing().src_stage == before_tracing().dst_stage,
        after_tracing().src_access == before_tracing().dst_access,
        after_tracing().new_layout == ImageLayout::TransferSrc,
        after_tracing().dst_stage == PipelineStage::Transfer,
        after_tracing().dst_access == Access::TransferRead,
        before_tracing().base_level == 0 && before_tracing().level_count == 1,
        after_tracing().base_level == 0 && after_tracing().level_count == 1,
{
}

/// Where geometry comes from.
pub open spec fn source_of(cube: bool, has_path: bool) -> SceneSource {
    if cube {
        SceneSource::TestCube
    } else if has_path {
        SceneSource::GivenPath
    } else {
        SceneSource::Manifest
    }
}

/// The test cube is baked exactly where it is asked for, a path is followed only where one
/// is given, and the manifest is looked into only where nothing else was said.
pub proof fn source_is_what_was_said(cube: bool, has_path: bool)
    ensures
        source_of(cube, has_path) is TestCube <==> cube,
        source_of(cube, has_path) is GivenPath <==> has_path && !cube,
        source_of(cube, has_path) is Manifest <==> !has_path && !cube,
{
}

} // verus!
