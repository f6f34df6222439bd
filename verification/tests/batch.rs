use ash::vk::{BufferUsageFlags, ImageUsageFlags, MemoryPropertyFlags};
use prism::batch::{
    mip_extent, mip_level_count, plan_image_upload, staging_size, BatchUploader, ReleaseStep,
    StagingBuffer, UploadStep,
};
use prism::buffer::{
    create_buffer, find_memory_type, narrow_barriers, needs_device_address, Allocation, BufferError,
    BufferSpec, MemoryRequirements, WideMasks, MEMORY_DEVICE_LOCAL, MEMORY_HOST_COHERENT,
    MEMORY_HOST_VISIBLE, USAGE_BUILD_INPUT, USAGE_SHADER_DEVICE_ADDRESS, USAGE_STORAGE_BUFFER,
    USAGE_STRUCTURE_STORAGE, USAGE_TRANSFER_DST, USAGE_TRANSFER_SRC, USAGE_UNIFORM_BUFFER,
    USAGE_VERTEX_BUFFER,
};
use prism::gpu::{
    Extent2D, ImageLayout, IMAGE_COLOR_ATTACHMENT, IMAGE_SAMPLED, IMAGE_TRANSFER_DST,
    IMAGE_TRANSFER_SRC,
};
use prism::transfer::{create_and_upload_image, upload_to_buffer, TransferStep};

#[test]
fn mip_counts() {
    assert_eq!(mip_level_count(1, 1), 1);
    assert_eq!(mip_level_count(1, 512), 1);
    assert_eq!(mip_level_count(2, 2), 2);
    assert_eq!(mip_level_count(256, 128), 9);
    assert_eq!(mip_level_count(1023, 600), 10);
    assert_eq!(mip_level_count(1024, 600), 11);
}

#[test]
fn mip_counts_agree_with_logarithms() {
    for w in 2..2000u32 {
        let want = ((w.max(7) as f32).log2().floor() as u32) + 1;
        assert_eq!(mip_level_count(w, 7), want, "width {}", w);
    }
}

#[test]
fn mip_sizes_halve() {
    assert_eq!(mip_extent(256, 100, 0), Extent2D { width: 256, height: 100 });
    assert_eq!(mip_extent(256, 100, 3), Extent2D { width: 32, height: 12 });
    assert_eq!(mip_extent(256, 100, 8), Extent2D { width: 1, height: 1 });
}

#[test]
fn upload_fills_every_level() {
    let steps = plan_image_upload(4, 4, 3);
    assert_eq!(steps.len(), 9);
    assert!(matches!(steps[0], UploadStep::Barrier(b)
        if b.level_count == 3 && b.old_layout == ImageLayout::Undefined));
    assert_eq!(steps[1], UploadStep::CopyBase(Extent2D { width: 4, height: 4 }));
    assert_eq!(
        steps[3],
        UploadStep::Blit {
            src_level: 0,
            src: Extent2D { width: 4, height: 4 },
            dst_level: 1,
            dst: Extent2D { width: 2, height: 2 },
        }
    );
    let readable: Vec<u32> = steps
        .iter()
        .filter_map(|s| match s {
            UploadStep::Barrier(b) if b.new_layout == ImageLayout::ShaderReadOnly => {
                Some(b.base_level)
            }
            _ => None,
        })
        .collect();
    assert_eq!(readable, vec![0, 1, 2]);
}

#[test]
fn upload_of_one_level_has_no_blit() {
    let steps = plan_image_upload(1, 9, 1);
    assert_eq!(steps.len(), 3);
    assert!(!steps.iter().any(|s| matches!(s, UploadStep::Blit { .. })));
    assert_eq!(staging_size(3, 5), 60);
}

#[test]
fn staging_buffers_are_released() {
    let mut batch = BatchUploader::new();
    batch.defer(StagingBuffer { buffer: 1, memory: 2 });
    batch.defer(StagingBuffer { buffer: 3, memory: 4 });
    let steps = batch.release();
    for s in [
        ReleaseStep::DestroyBuffer(1),
        ReleaseStep::FreeMemory(2),
        ReleaseStep::DestroyBuffer(3),
        ReleaseStep::FreeMemory(4),
    ] {
        assert_eq!(steps.iter().filter(|t| **t == s).count(), 1);
    }
    let again = batch.release();
    assert!(!again.iter().any(|t| matches!(t, ReleaseStep::DestroyBuffer(_))));
}

#[test]
fn ended_batch_keeps_only_its_staging_buffers() {
    let mut open = BatchUploader::new();
    assert_eq!(open.release(), vec![ReleaseStep::EndCommands, ReleaseStep::FreeCommands]);
    let mut ended = BatchUploader::new();
    ended.defer(StagingBuffer { buffer: 1, memory: 2 });
    ended.end_recording();
    assert_eq!(
        ended.release(),
        vec![ReleaseStep::DestroyBuffer(1), ReleaseStep::FreeMemory(2)]
    );
}

#[test]
fn memory_type_has_all_properties() {
    let types = vec![
        MEMORY_DEVICE_LOCAL,
        MEMORY_HOST_VISIBLE,
        MEMORY_HOST_VISIBLE | MEMORY_HOST_COHERENT,
    ];
    let both = MEMORY_HOST_VISIBLE | MEMORY_HOST_COHERENT;
    assert_eq!(find_memory_type(&types, 0b111, both), Some(2));
    assert_eq!(find_memory_type(&types, 0b111, MEMORY_HOST_VISIBLE), Some(1));
    assert_eq!(find_memory_type(&types, 0b101, MEMORY_HOST_VISIBLE), Some(2));
    assert_eq!(find_memory_type(&types, 0b011, both), None);
}

#[test]
fn device_addresses_are_asked_for() {
    assert!(needs_device_address(USAGE_STORAGE_BUFFER | USAGE_SHADER_DEVICE_ADDRESS));
    assert!(!needs_device_address(USAGE_STORAGE_BUFFER));
}

#[test]
fn barrier_masks_are_narrowed() {
    let masks = vec![
        WideMasks { src_stage: 1, src_access: 2, dst_stage: 4, dst_access: 8 },
        WideMasks { src_stage: 16, src_access: 32, dst_stage: 64, dst_access: 128 },
    ];
    let d = narrow_barriers(&masks);
    assert_eq!(d.src_stages, 17);
    assert_eq!(d.dst_stages, 68);
    assert_eq!(d.accesses.len(), 2);
    assert_eq!(d.accesses[1].src_access, 32);
    assert_eq!(d.accesses[1].dst_access, 128);
}

#[test]
fn bits_are_those_of_the_device() {
    assert_eq!(USAGE_TRANSFER_SRC, BufferUsageFlags::TRANSFER_SRC.as_raw());
    assert_eq!(USAGE_TRANSFER_DST, BufferUsageFlags::TRANSFER_DST.as_raw());
    assert_eq!(USAGE_STORAGE_BUFFER, BufferUsageFlags::STORAGE_BUFFER.as_raw());
    assert_eq!(
        USAGE_SHADER_DEVICE_ADDRESS,
        BufferUsageFlags::SHADER_DEVICE_ADDRESS.as_raw()
    );
    assert_eq!(USAGE_UNIFORM_BUFFER, BufferUsageFlags::UNIFORM_BUFFER.as_raw());
    assert_eq!(USAGE_VERTEX_BUFFER, BufferUsageFlags::VERTEX_BUFFER.as_raw());
    assert_eq!(
        USAGE_BUILD_INPUT,
        BufferUsageFlags::ACCELERATION_STRUCTURE_BUILD_INPUT_READ_ONLY_KHR.as_raw()
    );
    assert_eq!(
        USAGE_STRUCTURE_STORAGE,
        BufferUsageFlags::ACCELERATION_STRUCTURE_STORAGE_KHR.as_raw()
    );
    assert_eq!(MEMORY_DEVICE_LOCAL, MemoryPropertyFlags::DEVICE_LOCAL.as_raw());
    assert_eq!(MEMORY_HOST_VISIBLE, MemoryPropertyFlags::HOST_VISIBLE.as_raw());
    assert_eq!(MEMORY_HOST_COHERENT, MemoryPropertyFlags::HOST_COHERENT.as_raw());
    assert_eq!(IMAGE_TRANSFER_SRC, ImageUsageFlags::TRANSFER_SRC.as_raw());
    assert_eq!(IMAGE_TRANSFER_DST, ImageUsageFlags::TRANSFER_DST.as_raw());
    assert_eq!(IMAGE_SAMPLED, ImageUsageFlags::SAMPLED.as_raw());
    assert_eq!(IMAGE_COLOR_ATTACHMENT, ImageUsageFlags::COLOR_ATTACHMENT.as_raw());
}

#[test]
fn memory_is_chosen_for_a_buffer() {
    let types = vec![MEMORY_DEVICE_LOCAL, MEMORY_HOST_VISIBLE | MEMORY_HOST_COHERENT];
    let needed = MemoryRequirements { size: 100, type_bits: 3 };
    assert_eq!(
        create_buffer(&types, needed, USAGE_SHADER_DEVICE_ADDRESS, MEMORY_HOST_VISIBLE),
        Ok(Allocation { size: 100, type_index: 1, device_address: true })
    );
    assert_eq!(
        create_buffer(&types, needed, USAGE_TRANSFER_DST, MEMORY_DEVICE_LOCAL),
        Ok(Allocation { size: 100, type_index: 0, device_address: false })
    );
    let other = MemoryRequirements { size: 100, type_bits: 1 };
    assert_eq!(
        create_buffer(&types, other, USAGE_TRANSFER_SRC, MEMORY_HOST_VISIBLE),
        Err(BufferError::NoSuitableMemory)
    );
}

/// A buffer that transfers read, in memory that the host writes to.
fn staging(size: u64) -> BufferSpec {
    BufferSpec { size, usage: 1, memory: 6 }
}

#[test]
fn buffer_transfer_waits_for_the_device() {
    let steps = upload_to_buffer(64, 60);
    assert_eq!(
        steps,
        vec![
            TransferStep::CreateStaging(staging(64)),
            TransferStep::FillStaging { length: 60 },
            TransferStep::AllocateCommands,
            TransferStep::BeginCommands,
            TransferStep::CopyBuffer { size: 64 },
            TransferStep::EndCommands,
            TransferStep::CreateFence,
            TransferStep::Submit,
            TransferStep::WaitForFence,
            TransferStep::DestroyFence,
            TransferStep::FreeCommands,
            TransferStep::DestroyStaging,
            TransferStep::FreeStaging,
        ]
    );
}

#[test]
fn image_transfer_records_the_upload() {
    let steps = create_and_upload_image(4, 4, 3, 64, 43);
    assert_eq!(
        steps[0],
        TransferStep::CreateImage { extent: Extent2D { width: 4, height: 4 }, levels: 3, format: 43, usage: 7 }
    );
    assert_eq!(steps[3], TransferStep::CreateStaging(staging(64)));
    let recorded: Vec<UploadStep> = steps
        .iter()
        .filter_map(|s| match s {
            TransferStep::Record(r) => Some(*r),
            _ => None,
        })
        .collect();
    assert_eq!(recorded, plan_image_upload(4, 4, 3));
    let at = |s: TransferStep| steps.iter().position(|x| *x == s).unwrap();
    assert!(at(TransferStep::WaitForFence) < at(TransferStep::DestroyStaging));
    assert_eq!(*steps.last().unwrap(), TransferStep::CreateView { levels: 3, format: 43 });
}

#[test]
fn batch_submits_once() {
    let batch = BatchUploader::new();
    assert_eq!(
        BatchUploader::start(),
        vec![TransferStep::AllocateCommands, TransferStep::BeginCommands]
    );
    let image = batch.upload_image(4, 4, 1, 64);
    assert!(!image.contains(&TransferStep::Submit));
    assert_eq!(
        image[0],
        TransferStep::CreateImage { extent: Extent2D { width: 4, height: 4 }, levels: 1, format: 37, usage: 7 }
    );
    assert_eq!(*image.last().unwrap(), TransferStep::CreateView { levels: 1, format: 37 });
    assert_eq!(*batch.upload_buffer(8, 8).last().unwrap(), TransferStep::KeepStaging);
    let run = batch.finish();
    assert_eq!(run.iter().filter(|s| **s == TransferStep::Submit).count(), 1);
    assert_eq!(*run.last().unwrap(), TransferStep::FreeCommands);
}
