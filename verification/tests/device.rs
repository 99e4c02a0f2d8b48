use wayland_session::device::{choose_device, graphics_family, DeviceKind, QueueFamily};

#[test]
fn kinds_are_ranked_by_preference() {
    assert_eq!(DeviceKind::DiscreteGpu.preference(), 0);
    assert_eq!(DeviceKind::IntegratedGpu.preference(), 1);
    assert_eq!(DeviceKind::VirtualGpu.preference(), 2);
    assert_eq!(DeviceKind::Cpu.preference(), 3);
    assert_eq!(DeviceKind::Other.preference(), 4);
    assert_eq!(DeviceKind::Unknown.preference(), 5);
}

#[test]
fn no_device_is_chosen_from_an_empty_list() {
    assert_eq!(choose_device(&Vec::new()), None);
}

#[test]
fn the_only_device_is_chosen() {
    assert_eq!(choose_device(&vec![DeviceKind::Unknown]), Some(0));
}

#[test]
fn the_most_preferred_device_is_chosen() {
    let devices = vec![
        DeviceKind::Cpu,
        DeviceKind::IntegratedGpu,
        DeviceKind::Other,
        DeviceKind::DiscreteGpu,
        DeviceKind::VirtualGpu,
    ];
    assert_eq!(choose_device(&devices), Some(3));
}

#[test]
fn the_first_of_equally_preferred_devices_is_chosen() {
    let devices = vec![
        DeviceKind::Cpu,
        DeviceKind::IntegratedGpu,
        DeviceKind::IntegratedGpu,
        DeviceKind::VirtualGpu,
        DeviceKind::IntegratedGpu,
    ];
    assert_eq!(choose_device(&devices), Some(1));
}

#[test]
fn the_first_drawing_family_is_chosen() {
    let families = vec![
        QueueFamily { graphics: false },
        QueueFamily { graphics: true },
        QueueFamily { graphics: true },
    ];
    assert_eq!(graphics_family(&families), Some(1));
}

#[test]
fn no_family_is_chosen_when_none_draws() {
    assert_eq!(graphics_family(&Vec::new()), None);
    let families = vec![QueueFamily { graphics: false }, QueueFamily { graphics: false }];
    assert_eq!(graphics_family(&families), None);
}
