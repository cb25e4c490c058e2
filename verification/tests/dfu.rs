use odyssey_hub::dfu::{
    determine_target_slot, determine_target_slot_for_device, device_in_dfu_mode, find_alt_for_slot,
    find_dfu_interface, interface_in_dfu_mode, is_device_in_app_mode, dfu_wait_step, AltSetting, DeviceLookup, DfuError, DfuWait,
};

fn alt(iface: u8, alt: u8, class: u8, subclass: u8, protocol: u8, s: Option<&str>) -> AltSetting {
    AltSetting {
        interface_number: iface,
        alternate_setting: alt,
        class,
        subclass,
        protocol,
        string: s.map(|x| x.to_string()),
    }
}

fn dfu_mode_device() -> Vec<AltSetting> {
    vec![
        alt(0, 0, 0x02, 0x02, 0x01, None),
        alt(1, 0, 0xFE, 0x01, 0x02, Some("@Internal Flash /APP_A")),
        alt(1, 1, 0xFE, 0x01, 0x02, Some("@Internal Flash /APP_B")),
    ]
}

fn app_mode_device() -> Vec<AltSetting> {
    vec![alt(0, 0, 0x03, 0x00, 0x00, None), alt(2, 0, 0xFE, 0x01, 0x01, Some("Runtime"))]
}

#[test]
fn dfu_interface_is_first_dfu_alt() {
    assert_eq!(find_dfu_interface(&dfu_mode_device()), Ok(1));
    assert_eq!(find_dfu_interface(&app_mode_device()), Ok(2));
    assert_eq!(find_dfu_interface(&vec![alt(0, 0, 3, 0, 0, None)]), Err(DfuError::DfuInterfaceNotFound));
}

#[test]
fn dfu_mode_is_protocol_two() {
    assert!(interface_in_dfu_mode(&dfu_mode_device(), 1));
    assert!(!interface_in_dfu_mode(&dfu_mode_device(), 0));
    assert!(device_in_dfu_mode(&dfu_mode_device()));
    assert!(!device_in_dfu_mode(&app_mode_device()));
}

#[test]
fn app_mode_needs_a_present_device() {
    assert!(!is_device_in_app_mode(&DeviceLookup::NotFound));
    assert!(!is_device_in_app_mode(&DeviceLookup::UsbFailed("access denied".to_string())));
    assert!(is_device_in_app_mode(&DeviceLookup::Opened(app_mode_device())));
    assert!(!is_device_in_app_mode(&DeviceLookup::Opened(dfu_mode_device())));
    assert!(is_device_in_app_mode(&DeviceLookup::Opened(vec![])));
}

#[test]
fn slot_alt_found_by_descriptor_text() {
    assert_eq!(find_alt_for_slot(&dfu_mode_device(), 1, "APP_B"), Ok(1));
    assert_eq!(
        find_alt_for_slot(&dfu_mode_device(), 1, "APP_C"),
        Err(DfuError::AltInterfaceNotFound("APP_C".to_string()))
    );
    assert_eq!(
        find_alt_for_slot(&dfu_mode_device(), 0, "APP_A"),
        Err(DfuError::AltInterfaceNotFound("APP_A".to_string()))
    );
}

#[test]
fn target_slot_prefers_app_a() {
    assert_eq!(determine_target_slot(&dfu_mode_device(), 1), Ok(("APP_A", "app-a", 0)));
    let only_b = vec![alt(1, 3, 0xFE, 0x01, 0x02, Some("APP_B slot"))];
    assert_eq!(determine_target_slot(&only_b, 1), Ok(("APP_B", "app-b", 3)));
    assert_eq!(
        determine_target_slot(&app_mode_device(), 2),
        Err(DfuError::AltInterfaceNotFound("APP_A or APP_B".to_string()))
    );
}

#[test]
fn target_slot_for_device_errors() {
    assert_eq!(determine_target_slot_for_device(&DeviceLookup::NotFound), Err(DfuError::DeviceNotFound));
    assert_eq!(
        determine_target_slot_for_device(&DeviceLookup::UsbFailed("access denied".to_string())),
        Err(DfuError::Usb("access denied".to_string()))
    );
    assert_eq!(
        determine_target_slot_for_device(&DeviceLookup::Opened(vec![alt(0, 0, 3, 0, 0, None)])),
        Err(DfuError::DfuInterfaceNotFound)
    );
    assert_eq!(
        determine_target_slot_for_device(&DeviceLookup::Opened(dfu_mode_device())),
        Ok(("APP_A", "app-a", 0))
    );
    assert_eq!(
        determine_target_slot_for_device(&DeviceLookup::Opened(app_mode_device())),
        Err(DfuError::AltInterfaceNotFound("APP_A or APP_B".to_string()))
    );
}

#[test]
fn dfu_wait_polls_until_ready_or_timeout() {
    assert_eq!(dfu_wait_step(0, 10_000, &DeviceLookup::NotFound), DfuWait::Retry);
    assert_eq!(dfu_wait_step(500, 10_000, &DeviceLookup::UsbFailed("busy".to_string())), DfuWait::Retry);
    assert_eq!(dfu_wait_step(500, 10_000, &DeviceLookup::Opened(app_mode_device())), DfuWait::Retry);
    assert_eq!(dfu_wait_step(500, 10_000, &DeviceLookup::Opened(dfu_mode_device())), DfuWait::Ready);
    assert_eq!(dfu_wait_step(10_000, 10_000, &DeviceLookup::Opened(dfu_mode_device())), DfuWait::Ready);
    assert_eq!(dfu_wait_step(10_001, 10_000, &DeviceLookup::Opened(dfu_mode_device())), DfuWait::TimedOut);
}
