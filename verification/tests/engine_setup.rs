use purpl::context::{
    create_command_pools, instance_extensions, instance_retry, make_api_version, plan_device,
    validation_layer, InstanceCreateResult, InstanceRetry, Platform, COMMAND_POOL_RESET,
    COMMAND_POOL_TRANSIENT,
};
use purpl::descriptor::{
    allocate_descriptor_sets, create_descriptor_layout, create_descriptor_pool,
    DESCRIPTOR_TYPE_UNIFORM_BUFFER, POOL_CAPACITY_PER_TYPE, SHADER_STAGE_VERTEX,
};
use purpl::device::{rank_devices, DeviceCaps, DeviceType, GpuInfo, QueueFamily, SurfaceFormat};
use purpl::dirs::{normalize_separators, DataDirs, GameDirs};
use purpl::memory::{GpuAllocator, HostBuffer, BUFFER_USAGE_UNIFORM};
use purpl::window::{Window, WindowEvent};
use purpl::{Args, RenderApi, FRAME_COUNT, UNIFORM_BUFFER_SIZE};

fn gpu(same_family: bool) -> GpuInfo {
    let queue_families = if same_family {
        vec![QueueFamily { queue_count: 1, graphics: true, compute: true }]
    } else {
        vec![
            QueueFamily { queue_count: 1, graphics: true, compute: false },
            QueueFamily { queue_count: 1, graphics: false, compute: true },
        ]
    };
    let caps = DeviceCaps {
        handle: 1,
        queue_families,
        extensions: vec![
            "VK_KHR_swapchain".to_string(),
            "VK_EXT_shader_object".to_string(),
        ],
        has_surface_support: true,
        surface_formats: vec![SurfaceFormat { format: 44, color_space: 0 }],
        present_modes: vec![2],
        largest_heap_size: 1_000,
        max_viewport_width: 100,
        max_viewport_height: 100,
        device_type: DeviceType::Other,
    };
    rank_devices(vec![caps]).unwrap().remove(0)
}

#[test]
fn instance_extension_lists_per_platform() {
    assert_eq!(
        instance_extensions(Platform::Unix, false),
        vec!["VK_KHR_surface", "VK_KHR_xcb_surface"]
    );
    assert_eq!(
        instance_extensions(Platform::Windows, false),
        vec!["VK_KHR_surface", "VK_KHR_win32_surface"]
    );
    assert_eq!(
        instance_extensions(Platform::Unix, true),
        vec!["VK_EXT_debug_utils", "VK_KHR_surface", "VK_KHR_xcb_surface"]
    );
    assert_eq!(validation_layer(), "VK_LAYER_KHRONOS_validation");
}

#[test]
fn a_missing_layer_is_retried_once_without_layers() {
    assert_eq!(instance_retry(InstanceCreateResult::Created), InstanceRetry::Done);
    assert_eq!(
        instance_retry(InstanceCreateResult::LayerNotPresent),
        InstanceRetry::RetryWithoutLayers
    );
    assert_eq!(instance_retry(InstanceCreateResult::OtherFailure), InstanceRetry::Fatal);
}

#[test]
fn api_versions_pack_into_bit_fields() {
    assert_eq!(make_api_version(0, 1, 3, 0), 0x403000);
    assert_eq!(make_api_version(0, 1, 0, 0), 0x400000);
    assert_eq!(make_api_version(1, 2, 3, 4), 0x20803004);
}

#[test]
fn one_queue_is_requested_per_distinct_family() {
    let split = plan_device(&gpu(false));
    assert_eq!(split.queue_family_indices, vec![0, 1]);
    assert!(split.dynamic_rendering);
    let unified = plan_device(&gpu(true));
    assert_eq!(unified.queue_family_indices, vec![0]);
}

#[test]
fn both_command_pools_sit_on_the_graphics_family() {
    let (main_pool, transfer_pool) = create_command_pools(&gpu(false));
    assert_eq!(main_pool.flags, COMMAND_POOL_RESET);
    assert_eq!(main_pool.queue_family_index, 0);
    assert_eq!(transfer_pool.flags, COMMAND_POOL_RESET | COMMAND_POOL_TRANSIENT);
    assert_eq!(transfer_pool.queue_family_index, 0);
}

#[test]
fn the_descriptor_pool_is_sized_generously() {
    let plan = create_descriptor_pool();
    assert_eq!(plan.pool_sizes.len(), 11);
    for (i, (ty, count)) in plan.pool_sizes.iter().enumerate() {
        assert_eq!(*ty, i as u32);
        assert_eq!(*count, POOL_CAPACITY_PER_TYPE);
    }
    assert_eq!(plan.max_sets, 11 * POOL_CAPACITY_PER_TYPE);
    assert!(plan.allow_free);

    let binding = create_descriptor_layout();
    assert_eq!(binding.binding, 0);
    assert_eq!(binding.descriptor_type, DESCRIPTOR_TYPE_UNIFORM_BUFFER);
    assert_eq!(binding.descriptor_count, 1);
    assert_eq!(binding.stage_flags, SHADER_STAGE_VERTEX);
}

#[test]
fn each_slot_gets_its_own_descriptor_set() {
    let mut alloc = GpuAllocator::new();
    let mut buffers = Vec::new();
    for _ in 0..FRAME_COUNT {
        let b = alloc
            .create_buffer(UNIFORM_BUFFER_SIZE, BUFFER_USAGE_UNIFORM, 0x6, true)
            .unwrap();
        buffers.push(HostBuffer::from_buffer(b, true).unwrap());
    }
    let sets = allocate_descriptor_sets(&buffers);
    assert_eq!(sets.len(), FRAME_COUNT);
    for (i, set) in sets.iter().enumerate() {
        assert_eq!(set.buffer_index, i);
        assert_eq!(set.binding, 0);
        assert_eq!(set.descriptor_type, DESCRIPTOR_TYPE_UNIFORM_BUFFER);
        assert_eq!(set.offset, 0);
        assert_eq!(set.range, UNIFORM_BUFFER_SIZE);
    }
}

#[test]
fn window_events_drive_the_polled_flags() {
    let mut w = Window::new(800, 600);
    assert_eq!(w.get_size(), (800, 600));
    assert!(!w.focused());
    assert!(w.should_continue());

    w.apply_event(WindowEvent::FocusIn);
    assert!(w.focused());

    // A configure to the same size records nothing.
    w.apply_event(WindowEvent::Configure { width: 800, height: 600 });
    assert!(!w.resized());

    // A real resize raises the flag, readable exactly once.
    w.apply_event(WindowEvent::Configure { width: 1024, height: 768 });
    assert_eq!(w.get_size(), (1024, 768));
    assert!(w.resized());
    assert!(!w.resized());

    w.apply_event(WindowEvent::FocusOut);
    assert!(!w.focused());
    w.apply_event(WindowEvent::Other);
    assert!(w.should_continue());
    w.apply_event(WindowEvent::CloseRequested);
    assert!(!w.should_continue());
}

#[test]
fn game_directories_hang_off_the_game_directory() {
    assert_eq!(GameDirs::base("game"), "game/");
    assert_eq!(GameDirs::models("game"), "game/models/");
    assert_eq!(GameDirs::shaders("game"), "game/shaders/");
    assert_eq!(GameDirs::shader_path("game", "basic"), "game/shaders/basic");
    assert_eq!(
        GameDirs::all("game"),
        vec!["game/".to_string(), "game/models/".to_string(), "game/shaders/".to_string()]
    );
}

#[test]
fn separators_are_normalized() {
    assert_eq!(normalize_separators("C:\\Users\\someone"), "C:/Users/someone");
    assert_eq!(normalize_separators("/already/fine"), "/already/fine");
}

#[test]
fn data_directories_are_consistent_with_each_other() {
    // The platform may or may not report a user data directory; when it
    // does, the three directories agree and carry the engine segment.
    match DataDirs::all() {
        Some(dirs) => {
            assert_eq!(dirs.len(), 3);
            assert!(dirs[0].ends_with("/purpl/"));
            assert_eq!(dirs[1], format!("{}logs/", dirs[0]));
            assert_eq!(dirs[2], format!("{}saves/", dirs[0]));
            assert_eq!(DataDirs::base().unwrap(), dirs[0]);
            assert_eq!(DataDirs::logs().unwrap(), dirs[1]);
            assert_eq!(DataDirs::saves().unwrap(), dirs[2]);
        }
        None => {
            assert!(DataDirs::base().is_none());
            assert!(DataDirs::logs().is_none());
            assert!(DataDirs::saves().is_none());
        }
    }
}

#[test]
fn backend_labels() {
    assert_eq!(RenderApi::Vulkan.label(), Some("Vulkan"));
    assert_eq!(RenderApi::DirectX.label(), Some("DirectX"));
    assert_eq!(RenderApi::Unset.label(), None);

    let args = Args {
        game: "demo".to_string(),
        wait_for_debugger: false,
        render_api: RenderApi::Vulkan,
    };
    assert_eq!(args.game, "demo");
    assert!(!args.wait_for_debugger);
    assert_eq!(args.render_api, RenderApi::Vulkan);
}
