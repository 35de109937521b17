use purpl::device::{
    rank_devices, score_device, device_usable, find_queue_family, get_required_device_exts,
    DeviceCaps, DeviceError, DeviceType, QueueFamily, SurfaceFormat,
};

fn family(graphics: bool, compute: bool) -> QueueFamily {
    QueueFamily { queue_count: 1, graphics, compute }
}

fn usable_caps(handle: u64, heap: u64, device_type: DeviceType) -> DeviceCaps {
    DeviceCaps {
        handle,
        queue_families: vec![family(true, false), family(false, true)],
        extensions: vec![
            "VK_KHR_swapchain".to_string(),
            "VK_EXT_shader_object".to_string(),
            "VK_KHR_maintenance1".to_string(),
        ],
        has_surface_support: true,
        surface_formats: vec![SurfaceFormat { format: 44, color_space: 0 }],
        present_modes: vec![2],
        largest_heap_size: heap,
        max_viewport_width: 1000,
        max_viewport_height: 2000,
        device_type,
    }
}

#[test]
fn score_weights_device_classes() {
    let discrete = usable_caps(1, 10_000_000, DeviceType::DiscreteGpu);
    // (10_000_000 / 1000 + 1000 * 2000 / 1000) * 10
    assert_eq!(score_device(&discrete), (10_000 + 2_000) * 10);
    let integrated = usable_caps(2, 10_000_000, DeviceType::IntegratedGpu);
    assert_eq!(score_device(&integrated), (10_000 + 2_000) * 2);
    let cpu = usable_caps(3, 10_000_000, DeviceType::Cpu);
    assert_eq!(score_device(&cpu), 10_000 + 2_000);
}

#[test]
fn filter_keeps_exactly_the_capable_devices() {
    let good_small = usable_caps(1, 1_000_000, DeviceType::DiscreteGpu);
    let good_big = usable_caps(2, 50_000_000, DeviceType::DiscreteGpu);

    let mut no_queues = usable_caps(3, 99_000_000, DeviceType::DiscreteGpu);
    no_queues.queue_families = vec![];
    let mut no_graphics = usable_caps(4, 99_000_000, DeviceType::DiscreteGpu);
    no_graphics.queue_families = vec![family(false, true)];
    let mut no_compute = usable_caps(5, 99_000_000, DeviceType::DiscreteGpu);
    no_compute.queue_families = vec![family(true, false)];
    let mut missing_ext = usable_caps(6, 99_000_000, DeviceType::DiscreteGpu);
    missing_ext.extensions = vec!["VK_KHR_swapchain".to_string()];
    let mut no_surface = usable_caps(7, 99_000_000, DeviceType::DiscreteGpu);
    no_surface.has_surface_support = false;
    let mut no_formats = usable_caps(8, 99_000_000, DeviceType::DiscreteGpu);
    no_formats.surface_formats = vec![];
    let mut no_modes = usable_caps(9, 99_000_000, DeviceType::DiscreteGpu);
    no_modes.present_modes = vec![];

    assert!(device_usable(&good_small));
    assert!(!device_usable(&no_queues));
    assert!(!device_usable(&no_graphics));
    assert!(!device_usable(&no_compute));
    assert!(!device_usable(&missing_ext));
    assert!(!device_usable(&no_surface));
    assert!(!device_usable(&no_formats));
    assert!(!device_usable(&no_modes));

    let devices = vec![
        good_small, no_queues, no_graphics, no_compute, missing_ext, no_surface, no_formats,
        no_modes, good_big,
    ];
    let ranked = rank_devices(devices).unwrap();
    assert_eq!(ranked.len(), 2);
    // Sorted by non-increasing score: the big heap first.
    assert_eq!(ranked[0].caps.handle, 2);
    assert_eq!(ranked[1].caps.handle, 1);
    assert!(ranked[0].performance_score >= ranked[1].performance_score);
}

#[test]
fn ranking_fails_with_no_usable_device() {
    let mut bad = usable_caps(1, 1_000_000, DeviceType::DiscreteGpu);
    bad.present_modes = vec![];
    assert!(matches!(rank_devices(vec![bad]), Err(DeviceError::NoUsableDevice)));
    assert!(matches!(rank_devices(vec![]), Err(DeviceError::NoUsableDevice)));
}

#[test]
fn first_matching_families_are_reported() {
    let caps = DeviceCaps {
        queue_families: vec![
            QueueFamily { queue_count: 0, graphics: true, compute: true },
            family(false, true),
            family(true, true),
        ],
        ..usable_caps(1, 1_000, DeviceType::Other)
    };
    // The zero-queue family never matches; compute is found before graphics.
    assert_eq!(find_queue_family(&caps.queue_families, true), Some(2));
    assert_eq!(find_queue_family(&caps.queue_families, false), Some(1));
    let ranked = rank_devices(vec![caps]).unwrap();
    assert_eq!(ranked[0].graphics_family_index, 2);
    assert_eq!(ranked[0].compute_family_index, 1);
}

#[test]
fn required_extensions_are_the_two_known_ones() {
    let exts = get_required_device_exts();
    assert_eq!(exts, vec!["VK_KHR_swapchain", "VK_EXT_shader_object"]);
}
