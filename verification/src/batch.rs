//! Staged uploads: the commands that fill an image and its mip chain, and the staging
//! buffers that live until the commands have run.

use vstd::arithmetic::power2::{
    lemma2_to64, lemma_pow2_pos, lemma_pow2_strictly_increases, lemma_pow2_unfold, pow2,
};
use vstd::prelude::*;

use crate::gpu::{max_u32, Access, Extent2D, ImageBarrier, ImageLayout, PipelineStage};

verus! {

/// One command of an image upload.
#[derive(Clone, Copy, Debug, PartialEq, Eq, Structural)]
pub enum UploadStep {
    /// Change the layout of a range of levels.
    Barrier(ImageBarrier),
    /// Copy the staged pixels into level 0.
    CopyBase(Extent2D),
    /// Scale one level into the next with a linear filter.
    Blit { src_level: u32, src: Extent2D, dst_level: u32, dst: Extent2D },
}

// ---------------------------------------------------------------------------
// Mip sizes
// ---------------------------------------------------------------------------

/// Number of levels of a full mip chain: one for an image a single pixel wide or
/// high, otherwise one for each halving of the longer side down to one pixel.
pub open spec fn is_mip_level_count(width: u32, height: u32, levels: u32) -> bool {
    if width <= 1 || height <= 1 {
        levels == 1
    } else {
        &&& levels >= 1
        &&& pow2((levels - 1) as nat) <= max_u32(width, height) < pow2(levels as nat)
    }
}

/// One side of a mip level: halved once for each level, but at least one pixel.
pub open spec fn mip_side(side: u32, level: u32) -> int {
    let halved = side as int / pow2(level as nat) as int;
    if halved >= 1 {
        halved
    } else {
        1
    }
}

/// The size of a mip level.
pub open spec fn mip_size(width: u32, height: u32, level: u32) -> Extent2D {
    Extent2D { width: mip_side(width, level) as u32, height: mip_side(height, level) as u32 }
}

/// The number of mip levels for a 2D texture of the given size.
pub fn mip_level_count(width: u32, height: u32) -> (levels: u32)
    ensures
        is_mip_level_count(width, height, levels),
        1 <= levels <= 32,
{
    if width <= 1 || height <= 1 {
        return 1;
    }
    let longer: u32 = if width >= height {
        width
    } else {
        height
    };
    let mut rest: u32 = longer;
    let mut levels: u32 = 1;
    let ghost mut scale: int = 1;
    proof {
        lemma_pow2_unfold(1);
        assert(pow2(0) == 1) by {
            vstd::arithmetic::power2::lemma2_to64();
        }
    }
    while rest > 1
        invariant
            longer == max_u32(width, height),
            1 <= rest <= longer,
            1 <= levels <= 32,
            scale == pow2((levels - 1) as nat),
            1 <= scale,
            rest * scale <= longer,
            longer < (rest + 1) * scale,
        decreases rest,
    {
        let half: u32 = rest / 2;
        proof {
            lemma_pow2_unfold(levels as nat);
            assert(half * (2 * scale) <= rest * scale) by (nonlinear_arith)
                requires
                    half * 2 <= rest,
                    1 <= scale,
            ;
            assert((rest + 1) * scale <= (half + 1) * (2 * scale)) by (nonlinear_arith)
                requires
                    rest + 1 <= (half + 1) * 2,
                    1 <= scale,
            ;
            assert(2 * scale <= half * (2 * scale)) by (nonlinear_arith)
                requires
                    1 <= half,
                    1 <= scale,
            ;
            assert(levels < 32) by {
                vstd::arithmetic::power2::lemma2_to64();
                if levels >= 32 {
                    assert(pow2(levels as nat) == 0x1_0000_0000);
                }
            }
            scale = 2 * scale;
        }
        rest = half;
        levels = levels + 1;
    }
    proof {
        lemma_pow2_unfold(levels as nat);
    }
    levels
}

/// The size of mip level `level` of an image.
pub fn mip_extent(width: u32, height: u32, level: u32) -> (r: Extent2D)
    requires
        level < 32,
    ensures
        r == mip_size(width, height, level),
        r.width == mip_side(width, level),
        r.height == mip_side(height, level),
{
    proof {
        vstd::bits::lemma_u32_shr_is_div(width, level);
        vstd::bits::lemma_u32_shr_is_div(height, level);
        lemma_pow2_pos(level as nat);
        lemma_quotient_bounds(width, level);
        lemma_quotient_bounds(height, level);
    }
    let w: u32 = width >> level;
    let h: u32 = height >> level;
    Extent2D {
        width: if w >= 1 {
            w
        } else {
            1
        },
        height: if h >= 1 {
            h
        } else {
            1
        },
    }
}

proof fn lemma_quotient_bounds(side: u32, level: u32)
    ensures
        0 <= side as int / pow2(level as nat) as int <= side,
        1 <= mip_side(side, level) <= u32::MAX,
{
    lemma_pow2_pos(level as nat);
    let p = pow2(level as nat) as int;
    assert(0 <= side as int / p <= side) by (nonlinear_arith)
        requires
            p >= 1,
            0 <= side,
    ;
}

/// Each level is half the one before it, rounded down, and at least one pixel.
pub proof fn mip_level_halves(side: u32, level: u32)
    requires
        level < 31,
    ensures
        mip_side(side, (level + 1) as u32) == (if mip_side(side, level) >= 2 {
            mip_side(side, level) / 2
        } else {
            1
        }),
{
    let p = pow2(level as nat) as int;
    lemma_pow2_pos(level as nat);
    lemma_pow2_unfold((level + 1) as nat);
    let s = side as int;
    assert(pow2((level + 1) as nat) == 2 * p);
    vstd::arithmetic::div_mod::lemma_div_denominator(s, p, 2);
    assert(s / (2 * p) == (s / p) / 2) by {
        assert(p * 2 == 2 * p);
    }
}

/// A full mip chain ends in a single pixel, and no level before the last one does.
pub proof fn mip_chain_ends_in_one_pixel(width: u32, height: u32, levels: u32)
    requires
        width > 1,
        height > 1,
        is_mip_level_count(width, height, levels),
    ensures
        mip_size(width, height, (levels - 1) as u32) == (Extent2D { width: 1, height: 1 }),
        forall|level: u32|
            level < levels - 1 ==> #[trigger] mip_size(width, height, level) != (Extent2D {
                width: 1,
                height: 1,
            }),
{
    let m = max_u32(width, height) as int;
    let last = (levels - 1) as nat;
    let p = pow2(last) as int;
    lemma_pow2_pos(last);
    lemma_pow2_unfold(levels as nat);
    assert(m < 2 * p);
    assert(forall|s: int| 0 <= s <= m ==> #[trigger] (s / p) <= 1) by (nonlinear_arith)
        requires
            m < 2 * p,
            p >= 1,
    ;
    assert(width as int / p <= 1);
    assert(height as int / p <= 1);
    assert forall|level: u32| level < levels - 1 implies #[trigger] mip_size(width, height, level)
        != (Extent2D { width: 1, height: 1 }) by {
        let q = pow2(level as nat) as int;
        lemma_pow2_pos(level as nat);
        lemma_pow2_unfold((level + 1) as nat);
        if level + 1 < last {
            lemma_pow2_strictly_increases((level + 1) as nat, last);
        }
        assert(2 * q <= p);
        assert(m / q >= 2) by (nonlinear_arith)
            requires
                2 * q <= m,
                q >= 1,
        ;
        lemma_quotient_bounds(width, level);
        lemma_quotient_bounds(height, level);
    }
}

// ---------------------------------------------------------------------------
// The commands of an upload
// ---------------------------------------------------------------------------

/// Makes all levels ready to be written; what they held is lost.
pub open spec fn open_all(levels: u32) -> UploadStep {
    UploadStep::Barrier(
        ImageBarrier {
            base_level: 0,
            level_count: levels,
            old_layout: ImageLayout::Undefined,
            new_layout: ImageLayout::TransferDst,
            src_stage: PipelineStage::NoStage,
            src_access: Access::NoAccess,
            dst_stage: PipelineStage::Transfer,
            dst_access: Access::TransferWrite,
        },
    )
}

/// Turns a level that has been written into the source of the next blit.
pub open spec fn promote(level: u32) -> UploadStep {
    UploadStep::Barrier(
        ImageBarrier {
            base_level: level,
            level_count: 1,
            old_layout: ImageLayout::TransferDst,
            new_layout: ImageLayout::TransferSrc,
            src_stage: PipelineStage::Transfer,
            src_access: Access::TransferWrite,
            dst_stage: PipelineStage::Transfer,
            dst_access: Access::TransferRead,
        },
    )
}

/// Hands a level that served as a blit source to the fragment shader.
pub open spec fn source_done(level: u32) -> UploadStep {
    UploadStep::Barrier(
        ImageBarrier {
            base_level: level,
            level_count: 1,
            old_layout: ImageLayout::TransferSrc,
            new_layout: ImageLayout::ShaderReadOnly,
            src_stage: PipelineStage::Transfer,
            src_access: Access::TransferRead,
            dst_stage: PipelineStage::FragmentShader,
            dst_access: Access::ShaderRead,
        },
    )
}

/// Hands the last level, which no blit reads, to the fragment shader.
pub open spec fn last_done(level: u32) -> UploadStep {
    UploadStep::Barrier(
        ImageBarrier {
            base_level: level,
            level_count: 1,
            old_layout: ImageLayout::TransferDst,
            new_layout: ImageLayout::ShaderReadOnly,
            src_stage: PipelineStage::Transfer,
            src_access: Access::TransferWrite,
            dst_stage: PipelineStage::FragmentShader,
            dst_access: Access::ShaderRead,
        },
    )
}

/// Scales level `mip - 1` into level `mip`.
pub open spec fn blit_to(width: u32, height: u32, mip: u32) -> UploadStep {
    UploadStep::Blit {
        src_level: (mip - 1) as u32,
        src: mip_size(width, height, (mip - 1) as u32),
        dst_level: mip,
        dst: mip_size(width, height, mip),
    }
}

/// The commands that make level `mip` from the one before it.
pub open spec fn mip_steps(width: u32, height: u32, levels: u32, mip: u32) -> Seq<UploadStep> {
    let made = seq![blit_to(width, height, mip), source_done((mip - 1) as u32)];
    if mip + 1 < levels {
        made.push(promote(mip))
    } else {
        made
    }
}

/// The commands that make levels 1 to `n`.
pub open spec fn mip_chain(width: u32, height: u32, levels: u32, n: nat) -> Seq<UploadStep>
    decreases n,
{
    if n == 0 {
        Seq::empty()
    } else {
        mip_chain(width, height, levels, (n - 1) as nat) + mip_steps(width, height, levels, n as u32)
    }
}

/// The commands that fill an image of `levels` mip levels from staged pixels.
pub open spec fn upload_steps(width: u32, height: u32, levels: u32) -> Seq<UploadStep> {
    let base = seq![open_all(levels), UploadStep::CopyBase(Extent2D { width, height })];
    if levels > 1 {
        (base.push(promote(0)) + mip_chain(width, height, levels, (levels - 1) as nat)).push(
            last_done((levels - 1) as u32),
        )
    } else {
        base.push(last_done(0))
    }
}

/// Plans the upload of an image: all levels are opened, level 0 is copied from the
/// staging buffer, each further level is scaled from the one before it, and every
/// level is handed to the fragment shader.
pub fn plan_image_upload(width: u32, height: u32, levels: u32) -> (steps: Vec<UploadStep>)
    requires
        levels <= 32,
    ensures
        steps@ == upload_steps(width, height, levels),
{
    let mut steps: Vec<UploadStep> = Vec::new();
    steps.push(
        UploadStep::Barrier(
            ImageBarrier {
                base_level: 0,
                level_count: levels,
                old_layout: ImageLayout::Undefined,
                new_layout: ImageLayout::TransferDst,
                src_stage: PipelineStage::NoStage,
                src_access: Access::NoAccess,
                dst_stage: PipelineStage::Transfer,
                dst_access: Access::TransferWrite,
            },
        ),
    );
    steps.push(UploadStep::CopyBase(Extent2D { width, height }));
    let ghost base = seq![open_all(levels), UploadStep::CopyBase(Extent2D { width, height })];
    assert(steps@ =~= base);
    if levels > 1 {
        steps.push(
            write_to(0, ImageLayout::TransferSrc, PipelineStage::Transfer, Access::TransferRead),
        );
        let mut mip: u32 = 1;
        while mip < levels
            invariant
                1 <= mip <= levels,
                levels <= 32,
                steps@ == base.push(promote(0)) + mip_chain(
                    width,
                    height,
                    levels,
                    (mip - 1) as nat,
                ),
            decreases levels - mip,
        {
            let src_level: u32 = mip - 1;
            let src: Extent2D = mip_extent(width, height, src_level);
            let dst: Extent2D = mip_extent(width, height, mip);
            let ghost before = steps@;
            steps.push(UploadStep::Blit { src_level, src, dst_level: mip, dst });
            steps.push(
                UploadStep::Barrier(
                    ImageBarrier {
                        base_level: src_level,
                        level_count: 1,
                        old_layout: ImageLayout::TransferSrc,
                        new_layout: ImageLayout::ShaderReadOnly,
                        src_stage: PipelineStage::Transfer,
                        src_access: Access::TransferRead,
                        dst_stage: PipelineStage::FragmentShader,
                        dst_access: Access::ShaderRead,
                    },
                ),
            );
            if mip + 1 < levels {
                steps.push(
                    write_to(
                        mip,
                        ImageLayout::TransferSrc,
                        PipelineStage::Transfer,
                        Access::TransferRead,
                    ),
                );
            }
            assert(steps@ =~= before + mip_steps(width, height, levels, mip));
            assert(steps@ =~= base.push(promote(0)) + mip_chain(
                width,
                height,
                levels,
                mip as nat,
            ));
            mip = mip + 1;
        }
        steps.push(
            write_to(
                levels - 1,
                ImageLayout::ShaderReadOnly,
                PipelineStage::FragmentShader,
                Access::ShaderRead,
            ),
        );
    } else {
        steps.push(
            write_to(
                0,
                ImageLayout::ShaderReadOnly,
                PipelineStage::FragmentShader,
                Access::ShaderRead,
            ),
        );
    }
    steps
}

/// A barrier that hands one level, just written by a transfer, to its next use.
fn write_to(level: u32, layout: ImageLayout, stage: PipelineStage, access: Access) -> (r: UploadStep)
    ensures
        r == UploadStep::Barrier(
            ImageBarrier {
                base_level: level,
                level_count: 1,
                old_layout: ImageLayout::TransferDst,
                new_layout: layout,
                src_stage: PipelineStage::Transfer,
                src_access: Access::TransferWrite,
                dst_stage: stage,
                dst_access: access,
            },
        ),
{
    UploadStep::Barrier(
        ImageBarrier {
            base_level: level,
            level_count: 1,
            old_layout: ImageLayout::TransferDst,
            new_layout: layout,
            src_stage: PipelineStage::Transfer,
            src_access: Access::TransferWrite,
            dst_stage: stage,
            dst_access: access,
        },
    )
}

/// The size of the staging buffer for RGBA pixels.
pub fn staging_size(width: u32, height: u32) -> (size: u64)
    requires
        width * height * 4 <= u64::MAX,
    ensures
        size == width * height * 4,
{
    proof {
        assert(width as u64 * height as u64 <= u64::MAX) by (nonlinear_arith)
            requires
                width <= 0xffff_ffff,
                height <= 0xffff_ffff,
        ;
    }
    (width as u64) * (height as u64) * 4
}

// ---------------------------------------------------------------------------
// What the commands do to the image
// ---------------------------------------------------------------------------

/// What is known of one mip level while commands run: its layout, and whether it
/// holds pixels.
#[derive(Clone, Copy, Debug, PartialEq, Eq, Structural)]
pub struct LevelState {
    pub layout: ImageLayout,
    pub filled: bool,
}

/// The levels after one command; `None` where the command is not valid: a barrier from
/// a layout that the level is not in, a copy to a level that is not open for writing,
/// or a blit from a level that holds nothing or is not a source.
pub open spec fn after_step(levels: Seq<LevelState>, step: UploadStep) -> Option<
    Seq<LevelState>,
> {
    match step {
        UploadStep::Barrier(b) => {
            let end = b.base_level + b.level_count;
            if end <= levels.len() && (b.old_layout == ImageLayout::Undefined || forall|i: int|
                b.base_level <= i < end ==> (#[trigger] levels[i]).layout == b.old_layout) {
                Some(
                    levels.map(
                        |i: int, l: LevelState|
                            if b.base_level <= i < end {
                                LevelState {
                                    layout: b.new_layout,
                                    filled: l.filled && b.old_layout != ImageLayout::Undefined,
                                }
                            } else {
                                l
                            },
                    ),
                )
            } else {
                None
            }
        },
        UploadStep::CopyBase(_) => if levels.len() > 0 && levels[0].layout
            == ImageLayout::TransferDst {
            Some(levels.update(0, LevelState { filled: true, ..levels[0] }))
        } else {
            None
        },
        UploadStep::Blit { src_level, dst_level, .. } => if src_level < levels.len() && dst_level
            < levels.len() && levels[src_level as int].layout == ImageLayout::TransferSrc
            && levels[src_level as int].filled && levels[dst_level as int].layout
            == ImageLayout::TransferDst {
            Some(
                levels.update(
                    dst_level as int,
                    LevelState { filled: true, ..levels[dst_level as int] },
                ),
            )
        } else {
            None
        },
    }
}

/// The levels after all of `steps`; `None` where one of them is not valid.
pub open spec fn after_steps(levels: Seq<LevelState>, steps: Seq<UploadStep>) -> Option<
    Seq<LevelState>,
>
    decreases steps.len(),
{
    if steps.len() == 0 {
        Some(levels)
    } else {
        match after_steps(levels, steps.drop_last()) {
            Some(mid) => after_step(mid, steps.last()),
            None => None,
        }
    }
}

/// Levels of an image that has just been created.
pub open spec fn fresh_levels(levels: nat) -> Seq<LevelState> {
    Seq::new(levels, |i: int| LevelState { layout: ImageLayout::Undefined, filled: false })
}

/// Levels that a fragment shader can sample.
pub open spec fn readable_levels(levels: nat) -> Seq<LevelState> {
    Seq::new(levels, |i: int| LevelState { layout: ImageLayout::ShaderReadOnly, filled: true })
}

/// The levels once level `n` has been made, and promoted where it is not the last.
spec fn chain_levels(levels: nat, n: nat) -> Seq<LevelState> {
    Seq::new(
        levels,
        |i: int|
            if i < n {
                LevelState { layout: ImageLayout::ShaderReadOnly, filled: true }
            } else if i == n && n + 1 < levels {
                LevelState { layout: ImageLayout::TransferSrc, filled: true }
            } else {
                LevelState { layout: ImageLayout::TransferDst, filled: i == n }
            },
    )
}

proof fn lemma_push_step(levels: Seq<LevelState>, steps: Seq<UploadStep>, step: UploadStep)
    ensures
        after_steps(levels, steps.push(step)) == (match after_steps(levels, steps) {
            Some(mid) => after_step(mid, step),
            None => None,
        }),
{
    assert(steps.push(step).drop_last() =~= steps);
}

proof fn lemma_base_steps(width: u32, height: u32, levels: u32)
    requires
        levels >= 1,
    ensures
        after_steps(
            fresh_levels(levels as nat),
            seq![open_all(levels), UploadStep::CopyBase(Extent2D { width, height })],
        ) == Some(
            Seq::new(
                levels as nat,
                |i: int| LevelState { layout: ImageLayout::TransferDst, filled: i == 0 },
            ),
        ),
{
    let start = fresh_levels(levels as nat);
    let none = Seq::<UploadStep>::empty();
    let copy = UploadStep::CopyBase(Extent2D { width, height });
    lemma_push_step(start, none, open_all(levels));
    let opened = Seq::new(
        levels as nat,
        |i: int| LevelState { layout: ImageLayout::TransferDst, filled: false },
    );
    assert(after_step(start, open_all(levels))->Some_0 =~= opened);
    lemma_push_step(start, none.push(open_all(levels)), copy);
    assert(none.push(open_all(levels)).push(copy) =~= seq![open_all(levels), copy]);
    assert(opened.update(0, LevelState { filled: true, ..opened[0] }) =~= Seq::new(
        levels as nat,
        |i: int| LevelState { layout: ImageLayout::TransferDst, filled: i == 0 },
    ));
}

/// One more level of the chain keeps the picture.
proof fn lemma_next_mip(
    width: u32,
    height: u32,
    levels: u32,
    mip: u32,
    start: Seq<LevelState>,
    steps: Seq<UploadStep>,
)
    requires
        1 <= mip < levels,
        after_steps(start, steps) == Some(chain_levels(levels as nat, (mip - 1) as nat)),
    ensures
        after_steps(start, steps + mip_steps(width, height, levels, mip)) == Some(
            chain_levels(levels as nat, mip as nat),
        ),
{
    let n = levels as nat;
    let before = chain_levels(n, (mip - 1) as nat);
    let blit = blit_to(width, height, mip);
    let done = source_done((mip - 1) as u32);
    lemma_push_step(start, steps, blit);
    let blitted = before.update(mip as int, LevelState { filled: true, ..before[mip as int] });
    assert(after_step(before, blit) == Some(blitted));
    lemma_push_step(start, steps.push(blit), done);
    let handed = after_step(blitted, done)->Some_0;
    assert(after_step(blitted, done) is Some);
    if mip + 1 < levels {
        lemma_push_step(start, steps.push(blit).push(done), promote(mip));
        let promoted = after_step(handed, promote(mip))->Some_0;
        assert(after_step(handed, promote(mip)) is Some);
        assert(promoted =~= chain_levels(n, mip as nat));
        assert(steps.push(blit).push(done).push(promote(mip)) =~= steps + mip_steps(
            width,
            height,
            levels,
            mip,
        ));
    } else {
        assert(handed =~= chain_levels(n, mip as nat));
        assert(steps.push(blit).push(done) =~= steps + mip_steps(width, height, levels, mip));
    }
}

proof fn lemma_chain(
    width: u32,
    height: u32,
    levels: u32,
    n: nat,
    start: Seq<LevelState>,
    base: Seq<UploadStep>,
)
    requires
        n < levels,
        levels >= 2,
        after_steps(start, base) == Some(chain_levels(levels as nat, 0)),
    ensures
        after_steps(start, base + mip_chain(width, height, levels, n)) == Some(
            chain_levels(levels as nat, n),
        ),
    decreases n,
{
    if n == 0 {
        assert(base + mip_chain(width, height, levels, n) =~= base);
    } else {
        let prior = (n - 1) as nat;
        lemma_chain(width, height, levels, prior, start, base);
        let steps = base + mip_chain(width, height, levels, prior);
        lemma_next_mip(width, height, levels, n as u32, start, steps);
        assert(steps + mip_steps(width, height, levels, n as u32) =~= base + mip_chain(
            width,
            height,
            levels,
            n,
        ));
    }
}

/// An uploaded image can be sampled: no command of the upload is invalid, and after the
/// last one every mip level holds pixels and is in the layout that shaders read.
pub proof fn uploaded_image_is_readable(width: u32, height: u32, levels: u32)
    requires
        levels >= 1,
    ensures
        after_steps(fresh_levels(levels as nat), upload_steps(width, height, levels)) == Some(
            readable_levels(levels as nat),
        ),
{
    let n = levels as nat;
    let start = fresh_levels(n);
    let base = seq![open_all(levels), UploadStep::CopyBase(Extent2D { width, height })];
    lemma_base_steps(width, height, levels);
    if levels > 1 {
        lemma_push_step(start, base, promote(0));
        let copied = after_steps(start, base)->Some_0;
        assert(after_step(copied, promote(0)) is Some);
        assert(after_step(copied, promote(0))->Some_0 =~= chain_levels(n, 0));
        let last = (levels - 1) as u32;
        let body = base.push(promote(0));
        lemma_chain(width, height, levels, last as nat, start, body);
        let steps = body + mip_chain(width, height, levels, last as nat);
        lemma_push_step(start, steps, last_done(last));
        let made = chain_levels(n, last as nat);
        assert(after_step(made, last_done(last)) is Some);
        assert(after_step(made, last_done(last))->Some_0 =~= readable_levels(n));
    } else {
        lemma_push_step(start, base, last_done(0));
        let copied = after_steps(start, base)->Some_0;
        assert(after_step(copied, last_done(0)) is Some);
        assert(after_step(copied, last_done(0))->Some_0 =~= readable_levels(n));
    }
}

/// The step, if it is a blit, goes from one level to the next and covers both of them
/// whole; if it is the copy, it covers level 0 of a `width` by `height` image.
pub open spec fn covers_levels(width: u32, height: u32, levels: u32, step: UploadStep) -> bool {
    match step {
        UploadStep::Barrier(_) => true,
        UploadStep::CopyBase(size) => size.width == width && size.height == height,
        UploadStep::Blit { src_level, src, dst_level, dst } => {
            let s = pow2(src_level as nat) as int;
            &&& dst_level == src_level + 1
            &&& dst_level < levels
            &&& src.width == (if width < s {
                1int
            } else {
                width as int / s
            })
            &&& src.height == (if height < s {
                1int
            } else {
                height as int / s
            })
            &&& dst.width == (if width < 2 * s {
                1int
            } else {
                width as int / (2 * s)
            })
            &&& dst.height == (if height < 2 * s {
                1int
            } else {
                height as int / (2 * s)
            })
        },
    }
}

proof fn lemma_side(side: u32, level: u32)
    ensures
        ({
            let p = pow2(level as nat) as int;
            &&& p >= 1
            &&& mip_side(side, level) == (if side < p {
                1int
            } else {
                side as int / p
            })
            &&& 1 <= mip_side(side, level) <= u32::MAX
        }),
{
    lemma_quotient_bounds(side, level);
    lemma_pow2_pos(level as nat);
    let p = pow2(level as nat) as int;
    let s = side as int;
    assert(s < p ==> s / p == 0) by (nonlinear_arith)
        requires
            p >= 1,
            s >= 0,
    ;
    assert(s >= p ==> s / p >= 1) by (nonlinear_arith)
        requires
            p >= 1,
            s >= 0,
    ;
}

proof fn lemma_chain_covers(width: u32, height: u32, levels: u32, n: nat, k: int)
    requires
        n < levels,
        0 <= k < mip_chain(width, height, levels, n).len(),
    ensures
        covers_levels(width, height, levels, mip_chain(width, height, levels, n)[k]),
    decreases n,
{
    if n > 0 {
        let prior = mip_chain(width, height, levels, (n - 1) as nat);
        if k < prior.len() {
            lemma_chain_covers(width, height, levels, (n - 1) as nat, k);
        } else {
            lemma_side(width, (n - 1) as u32);
            lemma_side(height, (n - 1) as u32);
            lemma_side(width, n as u32);
            lemma_side(height, n as u32);
            lemma_pow2_unfold(n);
            assert(mip_chain(width, height, levels, n)[k] == mip_steps(
                width,
                height,
                levels,
                n as u32,
            )[k - prior.len()]);
        }
    }
}

/// Every blit of an upload scales the whole of one level into the whole of the next, which
/// is half as wide and half as high, and the copy fills the whole of level 0.
pub proof fn every_level_is_covered(width: u32, height: u32, levels: u32, k: int)
    requires
        levels >= 1,
        0 <= k < upload_steps(width, height, levels).len(),
    ensures
        covers_levels(width, height, levels, upload_steps(width, height, levels)[k]),
{
    if levels > 1 {
        let n = (levels - 1) as nat;
        let base = seq![
            open_all(levels),
            UploadStep::CopyBase(Extent2D { width, height }),
        ].push(promote(0));
        let chain = mip_chain(width, height, levels, n);
        if 3 <= k < 3 + chain.len() {
            lemma_chain_covers(width, height, levels, n, k - 3);
            assert(upload_steps(width, height, levels)[k] == chain[k - 3]);
        } else if k < 3 {
            assert(upload_steps(width, height, levels)[k] == base[k]);
        }
    }
}

/// Who uses a level in this layout during an upload, and how.
pub open spec fn use_of(layout: ImageLayout) -> (PipelineStage, Access) {
    match layout {
        ImageLayout::TransferDst => (PipelineStage::Transfer, Access::TransferWrite),
        ImageLayout::TransferSrc => (PipelineStage::Transfer, Access::TransferRead),
        ImageLayout::ShaderReadOnly => (PipelineStage::FragmentShader, Access::ShaderRead),
        _ => (PipelineStage::NoStage, Access::NoAccess),
    }
}

/// The step, if it is a barrier, waits for the use that ends and holds up the one that
/// begins.
pub open spec fn waits_for_its_users(step: UploadStep) -> bool {
    step matches UploadStep::Barrier(b) ==> {
        &&& (b.src_stage, b.src_access) == use_of(b.old_layout)
        &&& (b.dst_stage, b.dst_access) == use_of(b.new_layout)
    }
}

proof fn lemma_chain_waits(width: u32, height: u32, levels: u32, n: nat, k: int)
    requires
        0 <= k < mip_chain(width, height, levels, n).len(),
    ensures
        waits_for_its_users(mip_chain(width, height, levels, n)[k]),
    decreases n,
{
    if n > 0 {
        let prior = mip_chain(width, height, levels, (n - 1) as nat);
        if k < prior.len() {
            lemma_chain_waits(width, height, levels, (n - 1) as nat, k);
        } else {
            assert(mip_chain(width, height, levels, n)[k] == mip_steps(
                width,
                height,
                levels,
                n as u32,
            )[k - prior.len()]);
        }
    }
}

/// Every barrier of an upload waits for the transfer that used the level before, and the
/// use that comes next waits for the barrier.
pub proof fn every_barrier_waits_for_its_users(width: u32, height: u32, levels: u32, k: int)
    requires
        levels >= 1,
        0 <= k < upload_steps(width, height, levels).len(),
    ensures
        waits_for_its_users(upload_steps(width, height, levels)[k]),
{
    if levels > 1 {
        let n = (levels - 1) as nat;
        let base = seq![
            open_all(levels),
            UploadStep::CopyBase(Extent2D { width, height }),
        ].push(promote(0));
        let chain = mip_chain(width, height, levels, n);
        if 3 <= k < 3 + chain.len() {
            lemma_chain_waits(width, height, levels, n, k - 3);
            assert(upload_steps(width, height, levels)[k] == chain[k - 3]);
        } else if k < 3 {
            assert(upload_steps(width, height, levels)[k] == base[k]);
        }
    }
}

// ---------------------------------------------------------------------------
// Staging buffers
// ---------------------------------------------------------------------------

/// A staging buffer and its memory, by handle.
#[derive(Clone, Copy, Debug, PartialEq, Eq, Structural)]
pub struct StagingBuffer {
    pub buffer: u64,
    pub memory: u64,
}

/// One step of giving up what a batch holds.
#[derive(Clone, Copy, Debug, PartialEq, Eq, Structural)]
pub enum ReleaseStep {
    EndCommands,
    FreeCommands,
    DestroyBuffer(u64),
    FreeMemory(u64),
}

/// What a batch of uploads owns: a command buffer being recorded, and the staging
/// buffers that its commands read.
pub struct BatchUploader {
    deferred: Vec<StagingBuffer>,
    started: bool,
}

/// The steps that give up `staged`, each buffer before its memory.
pub open spec fn release_staged(staged: Seq<StagingBuffer>) -> Seq<ReleaseStep>
    decreases staged.len(),
{
    if staged.len() == 0 {
        Seq::empty()
    } else {
        release_staged(staged.drop_last()) + seq![
            ReleaseStep::DestroyBuffer(staged.last().buffer),
            ReleaseStep::FreeMemory(staged.last().memory),
        ]
    }
}

impl BatchUploader {
    /// The staging buffers that are still alive, oldest first.
    pub closed spec fn staged(&self) -> Seq<StagingBuffer> {
        self.deferred@
    }

    /// The command buffer is being recorded.
    pub closed spec fn recording(&self) -> bool {
        self.started
    }

    /// A batch whose command buffer has just been begun.
    pub fn new() -> (r: Self)
        ensures
            r.staged() == Seq::<StagingBuffer>::empty(),
            r.recording(),
    {
        BatchUploader { deferred: Vec::new(), started: true }
    }

    /// Keeps a staging buffer alive until the batch has run.
    pub fn defer(&mut self, staging: StagingBuffer)
        ensures
            final(self).staged() == old(self).staged().push(staging),
            final(self).recording() == old(self).recording(),
    {
        self.deferred.push(staging);
    }

    /// The command buffer has been ended, to be submitted and then freed by its
    /// submitter.
    pub fn end_recording(&mut self)
        ensures
            final(self).staged() == old(self).staged(),
            !final(self).recording(),
    {
        self.started = false;
    }

    /// The steps that give up everything the batch still owns: the command buffer, if
    /// it was never ended, and all staging buffers.
    pub fn release(&mut self) -> (steps: Vec<ReleaseStep>)
        ensures
            steps@ == (if old(self).recording() {
                seq![ReleaseStep::EndCommands, ReleaseStep::FreeCommands]
            } else {
                Seq::empty()
            }) + release_staged(old(self).staged()),
            final(self).staged() == Seq::<StagingBuffer>::empty(),
            !final(self).recording(),
    {
        let mut steps: Vec<ReleaseStep> = Vec::new();
        let ghost head = if self.started {
            seq![ReleaseStep::EndCommands, ReleaseStep::FreeCommands]
        } else {
            Seq::empty()
        };
        if self.started {
            steps.push(ReleaseStep::EndCommands);
            steps.push(ReleaseStep::FreeCommands);
        }
        assert(steps@ =~= head);
        let mut i: usize = 0;
        while i < self.deferred.len()
            invariant
                i <= self.deferred.len(),
                self.deferred@ == old(self).deferred@,
                steps@ == head + release_staged(self.deferred@.take(i as int)),
            decreases self.deferred.len() - i,
        {
            let staging: StagingBuffer = self.deferred[i];
            proof {
                let seen = self.deferred@.take(i as int);
                let next = self.deferred@.take(i + 1);
                assert(next.drop_last() =~= seen);
                assert(next.last() == staging);
            }
            steps.push(ReleaseStep::DestroyBuffer(staging.buffer));
            steps.push(ReleaseStep::FreeMemory(staging.memory));
            assert(steps@ =~= head + release_staged(self.deferred@.take(i + 1)));
            i = i + 1;
        }
        assert(self.deferred@.take(i as int) =~= self.deferred@);
        self.deferred.clear();
        self.started = false;
        steps
    }
}

/// Every staging buffer of a batch is destroyed and its memory freed, once each, in
/// the order in which they were made.
pub proof fn every_staging_buffer_is_released(staged: Seq<StagingBuffer>, i: int)
    requires
        0 <= i < staged.len(),
    ensures
        release_staged(staged).len() == 2 * staged.len(),
        release_staged(staged)[2 * i] == ReleaseStep::DestroyBuffer(staged[i].buffer),
        release_staged(staged)[2 * i + 1] == ReleaseStep::FreeMemory(staged[i].memory),
    decreases staged.len(),
{
    let last = (staged.len() - 1) as int;
    lemma_release_len(staged.drop_last());
    if i < last {
        every_staging_buffer_is_released(staged.drop_last(), i);
    }
}

proof fn lemma_release_len(staged: Seq<StagingBuffer>)
    ensures
        release_staged(staged).len() == 2 * staged.len(),
    decreases staged.len(),
{
    if staged.len() > 0 {
        lemma_release_len(staged.drop_last());
    }
}

/// Doubling an image adds one level to its chain; the smallest image with more than one
/// level has two, and one that is a single pixel wide or high has one.
pub proof fn doubling_adds_a_level(width: u32, height: u32, levels: u32, wider: u32, higher: u32)
    requires
        is_mip_level_count(width, height, levels),
        wider == 2 * width || wider == 2 * width + 1,
        higher == 2 * height || higher == 2 * height + 1,
    ensures
        width > 1 && height > 1 && levels < u32::MAX ==> is_mip_level_count(
            wider,
            higher,
            (levels + 1) as u32,
        ),
        2 <= width <= 3 && 2 <= height <= 3 ==> levels == 2,
        width <= 1 || height <= 1 ==> levels == 1,
{
    if width > 1 && height > 1 {
        lemma_pow2_unfold(levels as nat);
        lemma_pow2_unfold((levels + 1) as nat);
        if width <= 3 && height <= 3 {
            lemma2_to64();
            if levels > 2 {
                lemma_pow2_strictly_increases(1, (levels - 1) as nat);
                if levels > 3 {
                    lemma_pow2_strictly_increases(2, (levels - 1) as nat);
                }
            }
        }
    }
}

} // verus!
