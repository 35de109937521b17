use purpl::memory::{
    choose_fmt, copy_buffer, depth_format_candidates, AllocError, CopyStep, FormatProperties,
    GpuAllocator, HostBuffer, ImageTiling, BUFFER_USAGE_TRANSFER_DST, BUFFER_USAGE_UNIFORM,
    FORMAT_D24_UNORM_S8_UINT, FORMAT_D32_SFLOAT_S8_UINT, FORMAT_NONE, MEMORY_HOST_COHERENT,
    MEMORY_HOST_VISIBLE,
};

#[test]
fn mapped_write_then_copy_reads_back_identical_bytes() {
    let mut alloc = GpuAllocator::new();
    let src = alloc
        .create_buffer(8, BUFFER_USAGE_UNIFORM, MEMORY_HOST_VISIBLE | MEMORY_HOST_COHERENT, true)
        .unwrap();
    let mut host = HostBuffer::from_buffer(src, true).unwrap();
    let pattern = [0xDEu8, 0xAD, 0xBE, 0xEF, 0x01, 0x02, 0x03, 0x04];
    host.write_bytes(0, &pattern);

    let mut dst = alloc.create_buffer(8, BUFFER_USAGE_TRANSFER_DST, 0, true).unwrap();
    let steps = copy_buffer(&host.buffer, &mut dst);
    assert_eq!(dst.data, pattern.to_vec());
    assert_eq!(
        steps,
        vec![
            CopyStep::AllocateTransientCommandBuffer,
            CopyStep::BeginCommands,
            CopyStep::RecordFullCopy,
            CopyStep::EndCommands,
            CopyStep::SubmitToQueue,
            CopyStep::WaitQueueIdle,
            CopyStep::FreeCommandBuffer,
        ]
    );

    // Release everything again.
    let b = host.unmap();
    alloc.destroy_buffer(b);
    alloc.destroy_buffer(dst);
    assert_eq!(alloc.live_allocations, 0);
}

#[test]
fn partial_write_touches_only_its_range() {
    let mut alloc = GpuAllocator::new();
    let b = alloc
        .create_buffer(6, BUFFER_USAGE_UNIFORM, MEMORY_HOST_VISIBLE | MEMORY_HOST_COHERENT, true)
        .unwrap();
    let mut host = HostBuffer::from_buffer(b, true).unwrap();
    host.write_bytes(0, &[9, 9, 9, 9, 9, 9]);
    host.write_bytes(2, &[1, 2]);
    assert_eq!(host.buffer.data, vec![9, 9, 1, 2, 9, 9]);
}

#[test]
fn failed_view_creation_releases_the_image_again() {
    let mut alloc = GpuAllocator::new();
    assert!(matches!(
        alloc.create_image(130, 64, 64, 0x20, false, true),
        Err(AllocError::AllocationFailed)
    ));
    assert_eq!(alloc.live_allocations, 0);
    assert!(matches!(
        alloc.create_image(130, 64, 64, 0x20, true, false),
        Err(AllocError::ViewFailed)
    ));
    assert_eq!(alloc.live_allocations, 0);
    let img = alloc.create_image(130, 64, 64, 0x20, true, true).unwrap();
    assert_eq!(alloc.live_allocations, 1);
    alloc.destroy_image(img);
    assert_eq!(alloc.live_allocations, 0);
}

#[test]
fn failed_buffer_creation_leaves_the_allocator_unchanged() {
    let mut alloc = GpuAllocator::new();
    assert!(matches!(
        alloc.create_buffer(16, 0, 0, false),
        Err(AllocError::AllocationFailed)
    ));
    assert_eq!(alloc.live_allocations, 0);
}

#[test]
fn failed_mapping_hands_the_buffer_back() {
    let mut alloc = GpuAllocator::new();
    let b = alloc.create_buffer(4, 0, 0, true).unwrap();
    let b = match HostBuffer::from_buffer(b, false) {
        Ok(_) => panic!("the mapping was refused"),
        Err(b) => b,
    };
    assert_eq!(b.size, 4);
    alloc.destroy_buffer(b);
    assert_eq!(alloc.live_allocations, 0);
}

#[test]
fn format_choice_takes_the_first_qualifying_candidate() {
    let props = vec![
        FormatProperties {
            format: FORMAT_D32_SFLOAT_S8_UINT,
            linear_tiling_features: 0x200,
            optimal_tiling_features: 0,
        },
        FormatProperties {
            format: FORMAT_D24_UNORM_S8_UINT,
            linear_tiling_features: 0,
            optimal_tiling_features: 0x200,
        },
    ];
    // Under optimal tiling only the second qualifies.
    assert_eq!(choose_fmt(&props, ImageTiling::Optimal, 0x200), FORMAT_D24_UNORM_S8_UINT);
    // Under linear tiling only the first does.
    assert_eq!(choose_fmt(&props, ImageTiling::Linear, 0x200), FORMAT_D32_SFLOAT_S8_UINT);
    // No candidate offers this feature set.
    assert_eq!(choose_fmt(&props, ImageTiling::Optimal, 0x600), FORMAT_NONE);
    // Other tilings never match.
    assert_eq!(choose_fmt(&props, ImageTiling::Other, 0), FORMAT_NONE);
    assert_eq!(
        depth_format_candidates(),
        vec![FORMAT_D32_SFLOAT_S8_UINT, FORMAT_D24_UNORM_S8_UINT]
    );
}
