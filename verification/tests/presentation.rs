use purpl::FRAME_COUNT;
use purpl::device::{rank_devices, DeviceCaps, DeviceType, GpuInfo, QueueFamily, SurfaceFormat};
use purpl::swapchain::{
    choose_present_mode, choose_surface_format, plan_swapchain, Swapchain, TeardownStep,
    COLOR_SPACE_SRGB_NONLINEAR, FORMAT_B8G8R8A8_UNORM, FORMAT_UNDEFINED, IMAGE_USAGE_COLOR_ATTACHMENT,
    IMAGE_USAGE_TRANSFER_SRC, PRESENT_MODE_FIFO, PRESENT_MODE_MAILBOX,
};

fn gpu_with(formats: Vec<SurfaceFormat>, modes: Vec<u32>, same_family: bool) -> GpuInfo {
    let queue_families = if same_family {
        vec![QueueFamily { queue_count: 1, graphics: true, compute: true }]
    } else {
        vec![
            QueueFamily { queue_count: 1, graphics: true, compute: false },
            QueueFamily { queue_count: 1, graphics: false, compute: true },
        ]
    };
    let caps = DeviceCaps {
        handle: 1,
        queue_families,
        extensions: vec![
            "VK_KHR_swapchain".to_string(),
            "VK_EXT_shader_object".to_string(),
        ],
        has_surface_support: true,
        surface_formats: formats,
        present_modes: modes,
        largest_heap_size: 1_000_000,
        max_viewport_width: 2048,
        max_viewport_height: 2048,
        device_type: DeviceType::IntegratedGpu,
    };
    rank_devices(vec![caps]).unwrap().remove(0)
}

#[test]
fn present_mode_falls_back_to_the_guaranteed_mode() {
    let gpu = gpu_with(
        vec![SurfaceFormat { format: 44, color_space: 0 }],
        vec![PRESENT_MODE_FIFO],
        true,
    );
    assert_eq!(choose_present_mode(&gpu), PRESENT_MODE_FIFO);
}

#[test]
fn present_mode_prefers_low_latency_when_reported() {
    let gpu = gpu_with(
        vec![SurfaceFormat { format: 44, color_space: 0 }],
        vec![PRESENT_MODE_FIFO, PRESENT_MODE_MAILBOX],
        true,
    );
    assert_eq!(choose_present_mode(&gpu), PRESENT_MODE_MAILBOX);
}

#[test]
fn a_single_undefined_format_means_free_choice() {
    let gpu = gpu_with(
        vec![SurfaceFormat { format: FORMAT_UNDEFINED, color_space: 7 }],
        vec![PRESENT_MODE_FIFO],
        true,
    );
    let f = choose_surface_format(&gpu);
    assert_eq!(f.format, FORMAT_B8G8R8A8_UNORM);
    assert_eq!(f.color_space, COLOR_SPACE_SRGB_NONLINEAR);
}

#[test]
fn the_preferred_format_is_taken_when_listed() {
    let gpu = gpu_with(
        vec![
            SurfaceFormat { format: 50, color_space: 0 },
            SurfaceFormat { format: FORMAT_B8G8R8A8_UNORM, color_space: COLOR_SPACE_SRGB_NONLINEAR },
        ],
        vec![PRESENT_MODE_FIFO],
        true,
    );
    let f = choose_surface_format(&gpu);
    assert_eq!(f.format, FORMAT_B8G8R8A8_UNORM);
}

#[test]
fn otherwise_the_first_listed_format_is_taken() {
    let gpu = gpu_with(
        vec![
            SurfaceFormat { format: 50, color_space: 3 },
            SurfaceFormat { format: 51, color_space: 0 },
        ],
        vec![PRESENT_MODE_FIFO],
        true,
    );
    let f = choose_surface_format(&gpu);
    assert_eq!(f.format, 50);
    assert_eq!(f.color_space, 3);
}

#[test]
fn the_chain_plan_reflects_the_family_split() {
    let split = gpu_with(
        vec![SurfaceFormat { format: 44, color_space: 0 }],
        vec![PRESENT_MODE_FIFO],
        false,
    );
    let request = plan_swapchain(&split, 640, 480);
    assert_eq!(request.min_image_count, FRAME_COUNT);
    assert_eq!(request.width, 640);
    assert_eq!(request.height, 480);
    assert_eq!(request.image_array_layers, 1);
    assert_eq!(
        request.image_usage,
        IMAGE_USAGE_COLOR_ATTACHMENT | IMAGE_USAGE_TRANSFER_SRC
    );
    assert!(request.concurrent_sharing);
    assert_eq!(request.sharing_family_indices, vec![0, 1]);

    let unified = gpu_with(
        vec![SurfaceFormat { format: 44, color_space: 0 }],
        vec![PRESENT_MODE_FIFO],
        true,
    );
    let request = plan_swapchain(&unified, 640, 480);
    assert!(!request.concurrent_sharing);
    assert!(request.sharing_family_indices.is_empty());
}

#[test]
fn chain_teardown_destroys_views_before_the_chain() {
    let gpu = gpu_with(
        vec![SurfaceFormat { format: 44, color_space: 0 }],
        vec![PRESENT_MODE_FIFO],
        true,
    );
    let request = plan_swapchain(&gpu, 320, 200);
    let chain = Swapchain::create(&request, vec![1, 2, 3], vec![4, 5, 6]);
    assert_eq!(chain.images.len(), FRAME_COUNT);
    assert_eq!(chain.views.len(), FRAME_COUNT);
    let steps = chain.destroy();
    assert_eq!(
        steps,
        vec![
            TeardownStep::DestroyImageView,
            TeardownStep::DestroyImageView,
            TeardownStep::DestroyImageView,
            TeardownStep::DestroyChain,
        ]
    );
}

#[test]
fn rebuilding_keeps_format_and_mode_and_resizes() {
    let gpu = gpu_with(
        vec![SurfaceFormat { format: 44, color_space: 0 }],
        vec![PRESENT_MODE_FIFO, PRESENT_MODE_MAILBOX],
        true,
    );
    let request = plan_swapchain(&gpu, 320, 200);
    let mut chain = Swapchain::create(&request, vec![1, 2, 3], vec![4, 5, 6]);
    let format = chain.format;
    let mode = chain.present_mode;
    chain.rebuild(1920, 1080, vec![7, 8, 9], vec![10, 11, 12]);
    assert_eq!(chain.width, 1920);
    assert_eq!(chain.height, 1080);
    assert_eq!(chain.images, vec![7, 8, 9]);
    assert_eq!(chain.views, vec![10, 11, 12]);
    assert_eq!(chain.format, format);
    assert_eq!(chain.present_mode, mode);
}
