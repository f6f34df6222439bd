//! One-shot transfers: everything that is done to fill a buffer or an image from the
//! host, from the staging buffer to the wait for the device.
//!
//! The objects of a transfer are known by what they are for: its staging buffer, its
//! command buffer, its fence, and the image that it fills.

use vstd::prelude::*;

use crate::batch::{
    after_steps, fresh_levels, plan_image_upload, readable_levels, staging_size, upload_steps,
    uploaded_image_is_readable, BatchUploader, UploadStep,
};
use crate::buffer::{BufferSpec, HOST_MEMORY, MEMORY_DEVICE_LOCAL, USAGE_TRANSFER_SRC};
use crate::gpu::{Extent2D, IMAGE_SAMPLED, IMAGE_TRANSFER_DST, IMAGE_TRANSFER_SRC};

verus! {

/// One step of a transfer. A step that fails is the last one.
#[derive(Clone, Copy, Debug, PartialEq, Eq, Structural)]
pub enum TransferStep {
    /// Create the image. The format is the device's number for it.
    CreateImage { extent: Extent2D, levels: u32, format: i32, usage: u32 },
    /// Allocate memory for the image, with these properties.
    AllocateImage { memory: u32 },
    BindImage,
    /// Create the staging buffer.
    CreateStaging(BufferSpec),
    /// Map the staging buffer and copy so many bytes to its beginning.
    FillStaging { length: u64 },
    /// The staging buffer lives on until the batch has run.
    KeepStaging,
    AllocateCommands,
    /// Begin the command buffer, which is submitted once.
    BeginCommands,
    /// Record one command of an image upload.
    Record(UploadStep),
    /// Record the copy of the whole staging buffer into the destination.
    CopyBuffer { size: u64 },
    EndCommands,
    CreateFence,
    Submit,
    WaitForFence,
    DestroyFence,
    FreeCommands,
    DestroyStaging,
    FreeStaging,
    /// Create a view of all levels of the image.
    CreateView { levels: u32, format: i32 },
}

/// Usage of an image that is uploaded: its mip levels are copied from each other, and
/// shaders sample it.
pub const TEXTURE_USAGE: u32 = IMAGE_TRANSFER_DST | IMAGE_TRANSFER_SRC | IMAGE_SAMPLED;

/// A host-visible buffer that transfers read from.
pub open spec fn staging(size: u64) -> BufferSpec {
    BufferSpec { size, usage: USAGE_TRANSFER_SRC, memory: HOST_MEMORY }
}

/// Puts bytes into a staging buffer.
pub open spec fn staged(size: u64, length: u64) -> Seq<TransferStep> {
    seq![TransferStep::CreateStaging(staging(size)), TransferStep::FillStaging { length }]
}

/// Opens a command buffer.
pub open spec fn opened() -> Seq<TransferStep> {
    seq![TransferStep::AllocateCommands, TransferStep::BeginCommands]
}

/// Runs the command buffer, and waits for this submission alone.
pub open spec fn run() -> Seq<TransferStep> {
    seq![
        TransferStep::EndCommands,
        TransferStep::CreateFence,
        TransferStep::Submit,
        TransferStep::WaitForFence,
        TransferStep::DestroyFence,
        TransferStep::FreeCommands,
    ]
}

/// Gives up the staging buffer.
pub open spec fn unstaged() -> Seq<TransferStep> {
    seq![TransferStep::DestroyStaging, TransferStep::FreeStaging]
}

/// Makes the image.
pub open spec fn image_made(width: u32, height: u32, levels: u32, format: i32) -> Seq<TransferStep> {
    seq![
        TransferStep::CreateImage {
            extent: Extent2D { width, height },
            levels,
            format,
            usage: TEXTURE_USAGE,
        },
        TransferStep::AllocateImage { memory: MEMORY_DEVICE_LOCAL },
        TransferStep::BindImage,
    ]
}

/// Records the upload of the image.
pub open spec fn recorded(width: u32, height: u32, levels: u32) -> Seq<TransferStep> {
    upload_steps(width, height, levels).map_values(|s: UploadStep| TransferStep::Record(s))
}

/// Bytes of an image's pixels.
pub open spec fn pixel_bytes(width: u32, height: u32) -> u64 {
    (width * height * 4) as u64
}

/// All steps that fill a buffer.
pub open spec fn buffer_transfer(size: u64, length: u64) -> Seq<TransferStep> {
    staged(size, length) + opened() + seq![TransferStep::CopyBuffer { size }] + run() + unstaged()
}

/// All steps that make and fill an image.
pub open spec fn image_transfer(
    width: u32,
    height: u32,
    levels: u32,
    length: u64,
    format: i32,
) -> Seq<TransferStep> {
    image_made(width, height, levels, format) + staged(pixel_bytes(width, height), length) + opened()
        + recorded(width, height, levels) + run() + unstaged() + seq![
        TransferStep::CreateView { levels, format },
    ]
}

/// Format of the images of a batch: four channels of 8 bits, normalised.
pub const BATCH_FORMAT: i32 = 37;

/// The steps by which a batch takes in an image.
pub open spec fn batched_image(width: u32, height: u32, levels: u32, length: u64) -> Seq<
    TransferStep,
> {
    let format = BATCH_FORMAT;
    image_made(width, height, levels, format) + staged(pixel_bytes(width, height), length) + seq![
        TransferStep::KeepStaging,
    ] + recorded(width, height, levels) + seq![TransferStep::CreateView { levels, format }]
}

/// The steps by which a batch takes in a buffer.
pub open spec fn batched_buffer(size: u64, length: u64) -> Seq<TransferStep> {
    staged(size, length) + seq![TransferStep::CopyBuffer { size }, TransferStep::KeepStaging]
}

fn push_staged(steps: &mut Vec<TransferStep>, size: u64, length: u64)
    ensures
        final(steps)@ == old(steps)@ + staged(size, length),
{
    let buffer = BufferSpec { size, usage: USAGE_TRANSFER_SRC, memory: HOST_MEMORY };
    steps.push(TransferStep::CreateStaging(buffer));
    steps.push(TransferStep::FillStaging { length });
    assert(steps@ =~= old(steps)@ + staged(size, length));
}

fn push_opened(steps: &mut Vec<TransferStep>)
    ensures
        final(steps)@ == old(steps)@ + opened(),
{
    steps.push(TransferStep::AllocateCommands);
    steps.push(TransferStep::BeginCommands);
    assert(steps@ =~= old(steps)@ + opened());
}

fn push_run(steps: &mut Vec<TransferStep>)
    ensures
        final(steps)@ == old(steps)@ + run(),
{
    steps.push(TransferStep::EndCommands);
    steps.push(TransferStep::CreateFence);
    steps.push(TransferStep::Submit);
    steps.push(TransferStep::WaitForFence);
    steps.push(TransferStep::DestroyFence);
    steps.push(TransferStep::FreeCommands);
    assert(steps@ =~= old(steps)@ + run());
}

fn push_unstaged(steps: &mut Vec<TransferStep>)
    ensures
        final(steps)@ == old(steps)@ + unstaged(),
{
    steps.push(TransferStep::DestroyStaging);
    steps.push(TransferStep::FreeStaging);
    assert(steps@ =~= old(steps)@ + unstaged());
}

fn push_image(
    steps: &mut Vec<TransferStep>,
    width: u32,
    height: u32,
    levels: u32,
    format: i32,
)
    ensures
        final(steps)@ == old(steps)@ + image_made(width, height, levels, format),
{
    steps.push(
        TransferStep::CreateImage {
            extent: Extent2D { width, height },
            levels,
            format,
            usage: TEXTURE_USAGE,
        },
    );
    steps.push(TransferStep::AllocateImage { memory: MEMORY_DEVICE_LOCAL });
    steps.push(TransferStep::BindImage);
    assert(steps@ =~= old(steps)@ + image_made(width, height, levels, format));
}

fn push_recorded(steps: &mut Vec<TransferStep>, width: u32, height: u32, levels: u32)
    requires
        levels <= 32,
    ensures
        final(steps)@ == old(steps)@ + recorded(width, height, levels),
{
    let ghost before = steps@;
    let commands: Vec<UploadStep> = plan_image_upload(width, height, levels);
    let ghost wanted = recorded(width, height, levels);
    let mut i: usize = 0;
    assert(steps@ =~= before + wanted.take(0));
    while i < commands.len()
        invariant
            i <= commands.len(),
            commands@ == upload_steps(width, height, levels),
            wanted == recorded(width, height, levels),
            steps@ == before + wanted.take(i as int),
        decreases commands.len() - i,
    {
        steps.push(TransferStep::Record(commands[i]));
        i = i + 1;
        assert(steps@ =~= before + wanted.take(i as int));
    }
    assert(wanted.take(i as int) =~= wanted);
}

/// Plans the transfer of `length` bytes into a device-local buffer of `size` bytes.
pub fn upload_to_buffer(size: u64, length: u64) -> (steps: Vec<TransferStep>)
    requires
        length <= size,
    ensures
        steps@ == buffer_transfer(size, length),
{
    let mut steps: Vec<TransferStep> = Vec::new();
    push_staged(&mut steps, size, length);
    push_opened(&mut steps);
    steps.push(TransferStep::CopyBuffer { size });
    push_run(&mut steps);
    push_unstaged(&mut steps);
    assert(steps@ =~= buffer_transfer(size, length));
    steps
}

/// Plans an image of `levels` mip levels that is made, filled from `length` bytes of
/// pixels, and ready to be sampled when the plan has been carried out.
pub fn create_and_upload_image(
    width: u32,
    height: u32,
    levels: u32,
    length: u64,
    format: i32,
) -> (steps: Vec<TransferStep>)
    requires
        levels <= 32,
        width * height * 4 <= u64::MAX,
        length <= width * height * 4,
    ensures
        steps@ == image_transfer(width, height, levels, length, format),
{
    let mut steps: Vec<TransferStep> = Vec::new();
    push_image(&mut steps, width, height, levels, format);
    push_staged(&mut steps, staging_size(width, height), length);
    push_opened(&mut steps);
    push_recorded(&mut steps, width, height, levels);
    push_run(&mut steps);
    push_unstaged(&mut steps);
    steps.push(TransferStep::CreateView { levels, format });
    assert(steps@ =~= image_transfer(width, height, levels, length, format));
    steps
}

impl BatchUploader {
    /// The steps by which a batch is opened.
    pub fn start() -> (steps: Vec<TransferStep>)
        ensures
            steps@ == opened(),
    {
        let mut steps: Vec<TransferStep> = Vec::new();
        push_opened(&mut steps);
        assert(steps@ =~= opened());
        steps
    }

    /// Plans an image that becomes part of the batch.
    pub fn upload_image(
        &self,
        width: u32,
        height: u32,
        levels: u32,
        length: u64,
    ) -> (steps: Vec<TransferStep>)
        requires
            levels <= 32,
            width * height * 4 <= u64::MAX,
            length <= width * height * 4,
        ensures
            steps@ == batched_image(width, height, levels, length),
    {
        let mut steps: Vec<TransferStep> = Vec::new();
        push_image(&mut steps, width, height, levels, BATCH_FORMAT);
        push_staged(&mut steps, staging_size(width, height), length);
        steps.push(TransferStep::KeepStaging);
        push_recorded(&mut steps, width, height, levels);
        steps.push(TransferStep::CreateView { levels, format: BATCH_FORMAT });
        assert(steps@ =~= batched_image(width, height, levels, length));
        steps
    }

    /// Plans a buffer that becomes part of the batch.
    pub fn upload_buffer(&self, size: u64, length: u64) -> (steps: Vec<TransferStep>)
        requires
            length <= size,
        ensures
            steps@ == batched_buffer(size, length),
    {
        let mut steps: Vec<TransferStep> = Vec::new();
        push_staged(&mut steps, size, length);
        steps.push(TransferStep::CopyBuffer { size });
        steps.push(TransferStep::KeepStaging);
        assert(steps@ =~= batched_buffer(size, length));
        steps
    }

    /// The steps by which the batch is run, before its staging buffers are given up.
    pub fn finish(&self) -> (steps: Vec<TransferStep>)
        ensures
            steps@ == run(),
    {
        let mut steps: Vec<TransferStep> = Vec::new();
        push_run(&mut steps);
        assert(steps@ =~= run());
        steps
    }
}

// ---------------------------------------------------------------------------
// Laws
// ---------------------------------------------------------------------------

/// Step `a` comes before step `b` wherever both occur.
pub open spec fn precedes(steps: Seq<TransferStep>, a: TransferStep, b: TransferStep) -> bool {
    forall|i: int, j: int|
        0 <= i < steps.len() && 0 <= j < steps.len() && #[trigger] steps[i] == a && #[trigger] steps[j]
            == b ==> i < j
}

/// The staging buffer of an image outlives its commands: it is filled before they are
/// submitted, and it is destroyed only once the device has finished with them.
pub proof fn staging_outlives_an_image_transfer(
    width: u32,
    height: u32,
    levels: u32,
    length: u64,
    format: i32,
)
    ensures
        ({
            let steps = image_transfer(width, height, levels, length, format);
            &&& precedes(steps, TransferStep::FillStaging { length }, TransferStep::Submit)
            &&& precedes(steps, TransferStep::Submit, TransferStep::WaitForFence)
            &&& precedes(steps, TransferStep::WaitForFence, TransferStep::DestroyStaging)
            &&& steps.contains(TransferStep::DestroyStaging)
            &&& steps.contains(TransferStep::FreeStaging)
        }),
{
    let steps = image_transfer(width, height, levels, length, format);
    let n = recorded(width, height, levels).len();
    assert(steps.len() == n + 16);
    assert(steps[4] == TransferStep::FillStaging { length });
    assert forall|i: int| 7 <= i < 7 + n implies #[trigger] steps[i] is Record by {
        assert(steps[i] == recorded(width, height, levels)[i - 7]);
    }
    assert(steps[7 + n as int] == run()[0]);
    assert(steps[8 + n as int] == run()[1]);
    assert(steps[9 + n as int] == run()[2]);
    assert(steps[10 + n as int] == run()[3]);
    assert(steps[11 + n as int] == run()[4]);
    assert(steps[12 + n as int] == run()[5]);
    assert(steps[13 + n as int] == unstaged()[0]);
    assert(steps[14 + n as int] == unstaged()[1]);
}

/// The staging buffer of a buffer outlives its copy: it is filled before the copy is
/// submitted, and it is destroyed only once the device has finished with it.
pub proof fn staging_outlives_a_buffer_transfer(size: u64, length: u64)
    ensures
        ({
            let steps = buffer_transfer(size, length);
            &&& precedes(steps, TransferStep::FillStaging { length }, TransferStep::Submit)
            &&& precedes(steps, TransferStep::CopyBuffer { size }, TransferStep::Submit)
            &&& precedes(steps, TransferStep::WaitForFence, TransferStep::DestroyStaging)
            &&& steps.contains(TransferStep::DestroyStaging)
            &&& steps.contains(TransferStep::FreeStaging)
        }),
{
    let steps = buffer_transfer(size, length);
    assert(steps =~= seq![
        TransferStep::CreateStaging(staging(size)),
        TransferStep::FillStaging { length },
        TransferStep::AllocateCommands,
        TransferStep::BeginCommands,
        TransferStep::CopyBuffer { size },
        TransferStep::EndCommands,
        TransferStep::CreateFence,
        TransferStep::Submit,
        TransferStep::WaitForFence,
        TransferStep::DestroyFence,
        TransferStep::FreeCommands,
        TransferStep::DestroyStaging,
        TransferStep::FreeStaging,
    ]);
    assert(steps[11] == TransferStep::DestroyStaging);
    assert(steps[12] == TransferStep::FreeStaging);
}

/// A batch never gives up a staging buffer while it takes in images: what it staged is
/// kept instead.
pub proof fn batch_keeps_what_it_stages(width: u32, height: u32, levels: u32, length: u64)
    ensures
        ({
            let steps = batched_image(width, height, levels, length);
            &&& steps[5] == TransferStep::KeepStaging
            &&& !steps.contains(TransferStep::DestroyStaging)
            &&& !steps.contains(TransferStep::FreeStaging)
            &&& !steps.contains(TransferStep::Submit)
        }),
{
    let steps = batched_image(width, height, levels, length);
    let n = recorded(width, height, levels).len();
    assert(steps.len() == n + 7);
    assert forall|i: int| 0 <= i < steps.len() implies {
        &&& #[trigger] steps[i] != TransferStep::DestroyStaging
        &&& steps[i] != TransferStep::FreeStaging
        &&& steps[i] != TransferStep::Submit
    } by {
        if 6 <= i < 6 + n {
            assert(steps[i] == recorded(width, height, levels)[i - 6]);
        }
    }
}

/// The upload commands that a list of steps records, in order.
pub open spec fn commands_of(steps: Seq<TransferStep>) -> Seq<UploadStep>
    decreases steps.len(),
{
    if steps.len() == 0 {
        Seq::empty()
    } else {
        let before = commands_of(steps.drop_last());
        match steps.last() {
            TransferStep::Record(command) => before.push(command),
            _ => before,
        }
    }
}

proof fn lemma_commands_concat(a: Seq<TransferStep>, b: Seq<TransferStep>)
    ensures
        commands_of(a + b) == commands_of(a) + commands_of(b),
    decreases b.len(),
{
    if b.len() == 0 {
        assert(a + b =~= a);
        assert(commands_of(a) + commands_of(b) =~= commands_of(a));
    } else {
        lemma_commands_concat(a, b.drop_last());
        assert((a + b).drop_last() =~= a + b.drop_last());
        assert(commands_of(a + b) =~= commands_of(a) + commands_of(b));
    }
}

proof fn lemma_no_commands(steps: Seq<TransferStep>)
    requires
        forall|i: int| 0 <= i < steps.len() ==> (#[trigger] steps[i]) !is Record,
    ensures
        commands_of(steps) == Seq::<UploadStep>::empty(),
    decreases steps.len(),
{
    if steps.len() > 0 {
        assert(steps[steps.len() - 1] !is Record);
        lemma_no_commands(steps.drop_last());
    }
}

proof fn lemma_recorded_commands(commands: Seq<UploadStep>)
    ensures
        commands_of(commands.map_values(|s: UploadStep| TransferStep::Record(s))) == commands,
    decreases commands.len(),
{
    let steps = commands.map_values(|s: UploadStep| TransferStep::Record(s));
    if commands.len() > 0 {
        lemma_recorded_commands(commands.drop_last());
        assert(steps.drop_last() =~= commands.drop_last().map_values(
            |s: UploadStep| TransferStep::Record(s),
        ));
        assert(commands_of(steps) =~= commands);
    } else {
        assert(commands_of(steps) =~= commands);
    }
}

/// The step, if it makes something, makes it for a `width` by `height` image of `levels`
/// mip levels in `format`: the image and its view have all levels in that format, the
/// image can be copied to, copied from and sampled, and the staging buffer holds four bytes
/// for each pixel and is read by transfers.
pub open spec fn made_for_the_image(
    width: u32,
    height: u32,
    levels: u32,
    length: u64,
    format: i32,
    step: TransferStep,
) -> bool {
    match step {
        TransferStep::CreateImage { extent, levels: l, format: f, usage } => {
            &&& extent.width == width && extent.height == height
            &&& l == levels
            &&& f == format
            &&& usage & IMAGE_TRANSFER_DST != 0
            &&& usage & IMAGE_TRANSFER_SRC != 0
            &&& usage & IMAGE_SAMPLED != 0
        },
        TransferStep::CreateStaging(buffer) => {
            &&& buffer.size == width * height * 4
            &&& buffer.usage & USAGE_TRANSFER_SRC != 0
            &&& buffer.memory == HOST_MEMORY
        },
        TransferStep::FillStaging { length: l } => l == length,
        TransferStep::AllocateImage { memory } => memory == MEMORY_DEVICE_LOCAL,
        TransferStep::CreateView { levels: l, format: f } => l == levels && f == format,
        _ => true,
    }
}

/// A transfer makes the image that it is asked for and leaves it readable: the commands
/// that it records are valid one after the other and end with every level filled.
pub proof fn transferred_image_is_readable(
    width: u32,
    height: u32,
    levels: u32,
    length: u64,
    format: i32,
)
    requires
        levels >= 1,
        width * height * 4 <= u64::MAX,
    ensures
        ({
            let steps = image_transfer(width, height, levels, length, format);
            &&& after_steps(fresh_levels(levels as nat), commands_of(steps)) == Some(
                readable_levels(levels as nat),
            )
            &&& forall|i: int|
                0 <= i < steps.len() ==> made_for_the_image(
                    width,
                    height,
                    levels,
                    length,
                    format,
                    #[trigger] steps[i],
                )
            &&& steps[0] is CreateImage
            &&& steps.last() is CreateView
        }),
{
    let steps = image_transfer(width, height, levels, length, format);
    let head = image_made(width, height, levels, format) + staged(
        pixel_bytes(width, height),
        length,
    ) + opened();
    let body = recorded(width, height, levels);
    let end = run() + unstaged() + seq![TransferStep::CreateView { levels, format }];
    assert(steps =~= head + body + end);
    lemma_no_commands(head);
    lemma_no_commands(end);
    lemma_recorded_commands(upload_steps(width, height, levels));
    lemma_commands_concat(head, body);
    lemma_commands_concat(head + body, end);
    assert(commands_of(steps) =~= upload_steps(width, height, levels));
    uploaded_image_is_readable(width, height, levels);
    lemma_usage_bits();
    assert forall|i: int| 0 <= i < steps.len() implies made_for_the_image(
        width,
        height,
        levels,
        length,
        format,
        #[trigger] steps[i],
    ) by {
        if i < head.len() {
            assert(steps[i] == head[i]);
        } else if i < head.len() + body.len() {
            assert(steps[i] == body[i - head.len()]);
        } else {
            assert(steps[i] == end[i - head.len() - body.len()]);
        }
    }
}

proof fn lemma_usage_bits()
    ensures
        TEXTURE_USAGE & IMAGE_TRANSFER_DST != 0,
        TEXTURE_USAGE & IMAGE_TRANSFER_SRC != 0,
        TEXTURE_USAGE & IMAGE_SAMPLED != 0,
        USAGE_TRANSFER_SRC & USAGE_TRANSFER_SRC != 0,
{
    assert(TEXTURE_USAGE & IMAGE_TRANSFER_DST != 0 && TEXTURE_USAGE & IMAGE_TRANSFER_SRC != 0
        && TEXTURE_USAGE & IMAGE_SAMPLED != 0 && USAGE_TRANSFER_SRC & USAGE_TRANSFER_SRC != 0)
        by (bit_vector);
}

/// An image that a batch takes in is made as it is asked for, and the commands that are
/// recorded for it leave it readable once the batch has run.
pub proof fn batched_image_is_readable(width: u32, height: u32, levels: u32, length: u64)
    requires
        levels >= 1,
        width * height * 4 <= u64::MAX,
    ensures
        ({
            let steps = batched_image(width, height, levels, length);
            &&& after_steps(fresh_levels(levels as nat), commands_of(steps)) == Some(
                readable_levels(levels as nat),
            )
            &&& forall|i: int|
                0 <= i < steps.len() ==> made_for_the_image(
                    width,
                    height,
                    levels,
                    length,
                    37,
                    #[trigger] steps[i],
                )
            &&& steps[0] is CreateImage
            &&& steps.last() is CreateView
        }),
{
    let steps = batched_image(width, height, levels, length);
    let head = image_made(width, height, levels, BATCH_FORMAT) + staged(
        pixel_bytes(width, height),
        length,
    ) + seq![TransferStep::KeepStaging];
    let body = recorded(width, height, levels);
    let end = seq![TransferStep::CreateView { levels, format: BATCH_FORMAT }];
    assert(steps =~= head + body + end);
    lemma_no_commands(head);
    lemma_no_commands(end);
    lemma_recorded_commands(upload_steps(width, height, levels));
    lemma_commands_concat(head, body);
    lemma_commands_concat(head + body, end);
    assert(commands_of(steps) =~= upload_steps(width, height, levels));
    uploaded_image_is_readable(width, height, levels);
    lemma_usage_bits();
    assert forall|i: int| 0 <= i < steps.len() implies made_for_the_image(
        width,
        height,
        levels,
        length,
        37,
        #[trigger] steps[i],
    ) by {
        if i < head.len() {
            assert(steps[i] == head[i]);
        } else if i < head.len() + body.len() {
            assert(steps[i] == body[i - head.len()]);
        }
    }
}

/// A buffer's transfer copies as much as the buffer holds, out of a staging buffer of that
/// size that the given bytes are put into first.
pub proof fn transferred_buffer_is_filled(size: u64, length: u64, i: int)
    requires
        0 <= i < buffer_transfer(size, length).len(),
    ensures
        match buffer_transfer(size, length)[i] {
            TransferStep::CreateStaging(buffer) => buffer.size == size && buffer.memory
                == HOST_MEMORY,
            TransferStep::FillStaging { length: l } => l == length,
            TransferStep::CopyBuffer { size: copied } => copied == size,
            _ => true,
        },
        buffer_transfer(size, length)[1] == (TransferStep::FillStaging { length }),
        buffer_transfer(size, length)[4] == (TransferStep::CopyBuffer { size }),
        batched_buffer(size, length).contains(TransferStep::CopyBuffer { size }),
        batched_buffer(size, length)[1] == (TransferStep::FillStaging { length }),
        batched_buffer(size, length)[0] == TransferStep::CreateStaging(staging(size)),
        batched_buffer(size, length).last() == TransferStep::KeepStaging,
{
    assert(batched_buffer(size, length)[2] == (TransferStep::CopyBuffer { size }));
}

} // verus!
