use purpl::FRAME_COUNT;
use purpl::context::{RenderState, ResizeStep, ShutdownStep};
use purpl::device::{rank_devices, DeviceCaps, DeviceType, GpuInfo, QueueFamily, SurfaceFormat};
use purpl::frame::{AcquireOutcome, BeginAction, FrameSync, PresentAction};
use purpl::memory::{FormatProperties, FORMAT_D32_SFLOAT_S8_UINT};

fn ranked_gpu() -> Vec<GpuInfo> {
    let caps = DeviceCaps {
        handle: 7,
        queue_families: vec![
            QueueFamily { queue_count: 1, graphics: true, compute: false },
            QueueFamily { queue_count: 1, graphics: false, compute: true },
        ],
        extensions: vec![
            "VK_KHR_swapchain".to_string(),
            "VK_EXT_shader_object".to_string(),
        ],
        has_surface_support: true,
        surface_formats: vec![SurfaceFormat { format: 44, color_space: 0 }],
        present_modes: vec![2, 1],
        largest_heap_size: 8_000_000,
        max_viewport_width: 4096,
        max_viewport_height: 4096,
        device_type: DeviceType::DiscreteGpu,
    };
    rank_devices(vec![caps]).unwrap()
}

fn depth_props() -> Vec<FormatProperties> {
    vec![
        FormatProperties {
            format: FORMAT_D32_SFLOAT_S8_UINT,
            linear_tiling_features: 0,
            optimal_tiling_features: 0x200,
        },
    ]
}

fn fresh_state() -> RenderState {
    RenderState::init(
        ranked_gpu(),
        800,
        600,
        depth_props(),
        vec![101, 102, 103],
        vec![201, 202, 203],
    )
    .unwrap()
}

#[test]
fn chain_is_created_with_frame_count_images_and_views() {
    let state = fresh_state();
    assert_eq!(state.chain.images.len(), FRAME_COUNT);
    assert_eq!(state.chain.views.len(), FRAME_COUNT);
    assert_eq!(state.chain.width, 800);
    assert_eq!(state.chain.height, 600);
    assert_eq!(state.depth_format, FORMAT_D32_SFLOAT_S8_UINT);
    assert_eq!(state.depth.width, 800);
    assert_eq!(state.depth.height, 600);
    assert_eq!(state.uniform_buffers.len(), FRAME_COUNT);
    assert_eq!(state.descriptor_sets.len(), FRAME_COUNT);
}

#[test]
fn slots_rotate_round_robin_across_three_times_n_frames() {
    let mut state = fresh_state();
    for tick in 0..(3 * FRAME_COUNT) {
        let expected_slot = tick % FRAME_COUNT;
        let action = state.begin_cmds(AcquireOutcome::Image {
            index: expected_slot,
            suboptimal: false,
        });
        match action {
            BeginAction::Record { slot, image_index } => {
                assert_eq!(slot, expected_slot);
                assert_eq!(image_index, expected_slot);
            }
            BeginAction::SkipResize => panic!("no resize was signaled"),
        }
        match state.present() {
            PresentAction::Submit { slot, image_index } => {
                assert_eq!(slot, expected_slot);
                assert_eq!(image_index, expected_slot);
            }
            PresentAction::Skip => panic!("the frame was recorded"),
        }
    }
}

#[test]
fn out_of_date_acquire_triggers_one_resize_and_no_submission() {
    let mut state = fresh_state();
    let action = state.begin_cmds(AcquireOutcome::OutOfDate);
    assert!(matches!(action, BeginAction::SkipResize));

    let steps = state.apply_resize(1024, 768, vec![111, 112, 113], vec![211, 212, 213]);
    assert_eq!(
        steps,
        vec![
            ResizeStep::WaitDeviceIdle,
            ResizeStep::DestroyRenderTargets,
            ResizeStep::DestroyPresentationChain,
            ResizeStep::CreatePresentationChain,
            ResizeStep::CreateRenderTargets,
        ]
    );
    assert_eq!(state.chain.images.len(), FRAME_COUNT);
    assert_eq!(state.chain.views.len(), FRAME_COUNT);
    assert_eq!(state.chain.width, 1024);
    assert_eq!(state.chain.height, 768);
    assert_eq!(state.chain.images, vec![111, 112, 113]);
    assert_eq!(state.depth.width, 1024);
    assert_eq!(state.depth.height, 768);

    // The tick that found the chain stale submits nothing.
    assert!(matches!(state.present(), PresentAction::Skip));

    // The next tick records normally again.
    let action = state.begin_cmds(AcquireOutcome::Image { index: 0, suboptimal: false });
    assert!(matches!(action, BeginAction::Record { .. }));
    assert!(matches!(state.present(), PresentAction::Submit { .. }));
}

#[test]
fn suboptimal_acquire_also_skips_the_frame() {
    let mut state = fresh_state();
    let action = state.begin_cmds(AcquireOutcome::Image { index: 1, suboptimal: true });
    assert!(matches!(action, BeginAction::SkipResize));
    let _ = state.apply_resize(640, 480, vec![1, 2, 3], vec![4, 5, 6]);
    assert!(matches!(state.present(), PresentAction::Skip));
}

#[test]
fn select_device_is_idempotent_on_the_current_index() {
    let mut state = fresh_state();
    let before = state.gpu;
    let previous = state.set_gpu(before);
    assert_eq!(previous, before);
    assert_eq!(state.gpu, before);
    // An out-of-range index changes nothing either.
    let previous = state.set_gpu(99);
    assert_eq!(previous, before);
    assert_eq!(state.gpu, before);
}

#[test]
fn shutdown_after_frames_tears_down_in_strict_reverse_order() {
    let mut state = fresh_state();
    for tick in 0..FRAME_COUNT {
        let _ = state.begin_cmds(AcquireOutcome::Image { index: tick, suboptimal: false });
        let _ = state.present();
    }
    let steps = state.shutdown();
    assert_eq!(
        steps,
        vec![
            ShutdownStep::WaitDeviceIdle,
            ShutdownStep::ReleaseUniformBuffers,
            ShutdownStep::DestroyDescriptorPool,
            ShutdownStep::DestroyDescriptorLayout,
            ShutdownStep::DestroyRenderTargets,
            ShutdownStep::DestroyPresentationChain,
            ShutdownStep::DestroySemaphores,
            ShutdownStep::DestroyFences,
            ShutdownStep::DestroyTransientPool,
            ShutdownStep::DestroyMainPool,
            ShutdownStep::DestroyAllocator,
            ShutdownStep::DestroyDevice,
            ShutdownStep::DestroySurface,
            ShutdownStep::DestroyInstance,
        ]
    );
}

#[test]
fn a_fresh_synchronizer_starts_at_slot_zero_with_signaled_fences() {
    let sync = FrameSync::new();
    assert_eq!(sync.frame_index, 0);
    assert!(!sync.pending_resize);
    assert_eq!(sync.phases.len(), FRAME_COUNT);
}

#[test]
fn resource_loading_is_guarded() {
    let mut state = fresh_state();
    assert!(!state.loaded);
    assert!(state.load_resources());
    assert!(state.loaded);
    assert!(!state.load_resources());
    assert!(state.unload_resources());
    assert!(!state.unload_resources());
}
