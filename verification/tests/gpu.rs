use pomc::gpu::{
    choose_format, choose_present_mode, find_queue_families, pick_device, sharing_families, swapchain_extent,
    swapchain_image_count, DeviceKind, PresentMode, COLOR_SPACE_SRGB_NONLINEAR, FORMAT_B8G8R8A8_SRGB,
};

#[test]
fn the_best_device_with_queues_is_picked() {
    assert_eq!(pick_device(&vec![Some(DeviceKind::Integrated), Some(DeviceKind::Discrete), None, Some(DeviceKind::Discrete)]), Some(1));
    assert_eq!(pick_device(&vec![None, Some(DeviceKind::Other), Some(DeviceKind::Integrated), Some(DeviceKind::Integrated)]), Some(2));
    assert_eq!(pick_device(&vec![None, None]), None);
    assert_eq!(pick_device(&vec![]), None);
}

#[test]
fn queue_families_are_found() {
    assert_eq!(find_queue_families(&vec![(true, false), (false, true), (true, true)]), Some((0, 1)));
    assert_eq!(find_queue_families(&vec![(false, false), (true, true), (true, true)]), Some((1, 1)));
    assert_eq!(find_queue_families(&vec![(true, false), (true, false)]), None);
}

#[test]
fn swapchain_settings() {
    let srgb = (FORMAT_B8G8R8A8_SRGB, COLOR_SPACE_SRGB_NONLINEAR);
    assert_eq!(choose_format(&vec![(44, 0), srgb]), srgb);
    assert_eq!(choose_format(&vec![(44, 0), (FORMAT_B8G8R8A8_SRGB, 7)]), (44, 0));
    assert_eq!(choose_present_mode(&vec![PresentMode::Fifo, PresentMode::Mailbox]), PresentMode::Mailbox);
    assert_eq!(choose_present_mode(&vec![PresentMode::Immediate, PresentMode::Fifo]), PresentMode::Immediate);
    assert_eq!(choose_present_mode(&vec![PresentMode::Other]), PresentMode::Fifo);
    assert_eq!(swapchain_extent(5000, 10, (1, 20), (4096, 4096)), (4096, 20));
    assert_eq!(swapchain_extent(800, 600, (1, 1), (4096, 4096)), (800, 600));
    assert_eq!(swapchain_image_count(2, 0), 3);
    assert_eq!(swapchain_image_count(2, 2), 2);
    assert_eq!(sharing_families(0, 0), Vec::<u32>::new());
    assert_eq!(sharing_families(0, 2), vec![0, 2]);
}
