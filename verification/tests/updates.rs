use odyssey_hub::accessory::{AccessoryInfo, AccessoryType};
use odyssey_hub::accessory_link::{
    assigned_device, connected_flags, is_shot_notification, reconcile_statuses, shot_characteristic,
    MANTIS_SHOT_CHAR_UUID, NUS_TX_UUID,
};
use odyssey_hub::device::{Device, DeviceCapabilities, EventsTransport, Transport};
use odyssey_hub::events::{clip_vendor_data, clipped_vendor_len, vendor_buffer, ImpactEvent};
use odyssey_hub::ffi;
use odyssey_hub::firmware_update::{flashing_percent, FirmwareUpdateManager, FirmwareUpdateState, ProgressReader};
use odyssey_hub::hexkeymap::HexKeyMapN;
use odyssey_hub::paths::{app_root, log_dir, settings_dir, PACK_ID};
use odyssey_hub::uniffi_types;

#[test]
fn update_status_lines() {
    assert_eq!(FirmwareUpdateState::Idle.status_text(), "Idle");
    let available = FirmwareUpdateState::Available {
        current: [0, 1, 0],
        available: "0.2.0".to_string(),
        device_type: "atslite1".to_string(),
        vid: 0x1915,
        pid: 0x5211,
    };
    assert_eq!(available.status_text(), "Update available");
    assert_eq!(FirmwareUpdateState::Downloading.status_text(), "Downloading...");
    assert_eq!(FirmwareUpdateState::Detaching.status_text(), "Preparing device...");
    assert_eq!(FirmwareUpdateState::WaitingForDfu.status_text(), "Waiting for DFU mode...");
    assert_eq!(FirmwareUpdateState::Flashing { progress: 50, total: 200 }.status_text(), "Flashing... 25%");
    assert_eq!(FirmwareUpdateState::Flashing { progress: 5, total: 0 }.status_text(), "Flashing... 0%");
    assert_eq!(FirmwareUpdateState::Rebooting.status_text(), "Rebooting device...");
    assert_eq!(FirmwareUpdateState::Verifying.status_text(), "Verifying update...");
    assert_eq!(FirmwareUpdateState::Complete.status_text(), "Update complete!");
    assert_eq!(FirmwareUpdateState::Failed("timeout".to_string()).status_text(), "Failed: timeout");
    assert!(FirmwareUpdateState::Failed(String::new()).is_error());
    assert!(FirmwareUpdateState::Complete.is_complete());
    assert!(FirmwareUpdateState::Flashing { progress: 0, total: 1 }.is_flashing());
    assert!(!FirmwareUpdateState::Idle.is_flashing());
    assert_eq!(flashing_percent(1, 3), 33);
    assert_eq!(flashing_percent(3, 3), 100);
}

#[test]
fn update_manager_states() {
    let mut m = FirmwareUpdateManager::new();
    let a = [1, 2, 3, 4, 5, 6];
    let b = [6, 5, 4, 3, 2, 1];
    assert!(matches!(m.get_state(&a), FirmwareUpdateState::Idle));
    m.set_state(a, FirmwareUpdateState::Downloading);
    m.set_state(b, FirmwareUpdateState::Failed("x".to_string()));
    assert!(matches!(m.get_state(&a), FirmwareUpdateState::Downloading));
    m.set_state(a, FirmwareUpdateState::Flashing { progress: 1, total: 2 });
    assert!(matches!(m.get_state(&a), FirmwareUpdateState::Flashing { progress: 1, total: 2 }));
    assert!(!m.is_updating(&a));
    m.add_updating(a);
    m.add_updating(a);
    m.add_updating(b);
    assert!(m.is_updating(&a));
    let mut all = m.get_all_updating();
    all.sort();
    assert_eq!(all, vec![a, b]);
    m.remove_updating(&b);
    assert_eq!(m.get_all_updating(), vec![a]);
    m.clear_state(&a);
    assert!(matches!(m.get_state(&a), FirmwareUpdateState::Idle));
    assert!(!m.is_updating(&a));
    assert!(matches!(m.get_state(&b), FirmwareUpdateState::Failed(ref e) if e == "x"));
}

#[test]
fn progress_logged_every_ten_percent() {
    let mut p = ProgressReader::new(1000);
    let s = p.record_read(50);
    assert_eq!((s.bytes_read, s.total_size, s.percent, s.log), (50, 1000, 5, false));
    let s = p.record_read(60);
    assert_eq!((s.percent, s.log), (11, true));
    let s = p.record_read(80);
    assert_eq!((s.percent, s.log), (19, false));
    let s = p.record_read(10);
    assert_eq!((s.percent, s.log), (20, true));
    let s = p.record_read(800);
    assert_eq!((s.percent, s.log), (100, true));
    let s = p.record_read(0);
    assert_eq!((s.percent, s.log), (100, true));
    let mut empty = ProgressReader::new(0);
    let s = empty.record_read(0);
    assert_eq!((s.percent, s.log), (100, true));
}

#[test]
fn accessory_shot_notifications() {
    assert_eq!(shot_characteristic(AccessoryType::DryFireMag), NUS_TX_UUID);
    assert_eq!(shot_characteristic(AccessoryType::BlackbeardX), MANTIS_SHOT_CHAR_UUID);
    assert!(is_shot_notification(AccessoryType::DryFireMag, NUS_TX_UUID, &[0x42, 0x00]));
    assert!(!is_shot_notification(AccessoryType::DryFireMag, MANTIS_SHOT_CHAR_UUID, &[]));
    assert!(is_shot_notification(AccessoryType::BlackbeardX, MANTIS_SHOT_CHAR_UUID, &[0x01]));
    assert!(!is_shot_notification(AccessoryType::BlackbeardX, MANTIS_SHOT_CHAR_UUID, &[0x00]));
    assert!(!is_shot_notification(AccessoryType::BlackbeardX, MANTIS_SHOT_CHAR_UUID, &[0x01, 0x01]));
}

#[test]
fn accessory_statuses_follow_configuration() {
    let mut st: HexKeyMapN<bool, 6> = HexKeyMapN::new();
    st.insert([1; 6], true);
    st.insert([2; 6], true);
    let ids = vec![[2; 6], [3; 6]];
    let r = reconcile_statuses(&st, &ids);
    assert_eq!(r.len(), 2);
    assert_eq!(r.get(&[1; 6]), None);
    assert_eq!(r.get(&[2; 6]), Some(&true));
    assert_eq!(r.get(&[3; 6]), Some(&false));
    assert_eq!(connected_flags(&vec![[3; 6], [2; 6], [9; 6]], &r), vec![false, true, false]);
}

fn dev(uuid: [u8; 6]) -> Device {
    Device {
        uuid,
        transport: Transport::UsbMux,
        capabilities: DeviceCapabilities::empty(),
        firmware_version: [0, 0, 0],
        events_transport: EventsTransport::Bluetooth,
        events_connected: true,
        product_id: 0,
        name: [0; 33],
    }
}

#[test]
fn shots_go_to_the_assigned_device() {
    let devices = vec![dev([9; 6]), dev([1, 2, 3, 4, 5, 6]), dev([1, 2, 3, 4, 5, 6])];
    assert_eq!(assigned_device(Some(0x0000_0605_0403_0201), &devices), Some(1));
    assert_eq!(assigned_device(Some(0xabcd_0605_0403_0201), &devices), Some(1));
    assert_eq!(assigned_device(Some(7), &devices), None);
    assert_eq!(assigned_device(None, &devices), None);
}

#[test]
fn desktop_directories() {
    assert_eq!(PACK_ID, "Odyssey.Desktop");
    assert_eq!(app_root(None), None);
    assert_eq!(log_dir(None), None);
    let root = app_root(Some("C:/Users/a/AppData/Local".to_string())).unwrap();
    assert!(root.starts_with("C:/Users/a/AppData/Local"));
    assert!(root.ends_with("Odyssey.Desktop"));
    assert_eq!(root.len(), "C:/Users/a/AppData/Local".len() + 1 + "Odyssey.Desktop".len());
    let logs = log_dir(Some("C:/Users/a/AppData/Local".to_string())).unwrap();
    assert!(logs.starts_with(&root));
    assert!(logs.ends_with("logs"));
    assert_eq!(logs.len(), root.len() + 1 + 4);
    assert_eq!(settings_dir(Some("/tmp/x/".to_string())), app_root(Some("/tmp/x/".to_string())));
    assert!(settings_dir(Some("/tmp/x/".to_string())).unwrap().ends_with("x/Odyssey.Desktop"));
}

#[test]
fn vendor_payloads_are_clipped_and_padded() {
    assert_eq!(clipped_vendor_len(10), 10);
    assert_eq!(clipped_vendor_len(200), 98);
    let long: Vec<u8> = (0..120u8).collect();
    let clipped = clip_vendor_data(&long);
    assert_eq!(clipped.len(), 98);
    assert_eq!(clipped[97], 97);
    let buf = vendor_buffer(&[1, 2, 3]);
    assert_eq!(&buf[..4], &[1, 2, 3, 0]);
    assert_eq!(buf[97], 0);
    let p = ffi::PacketData::vendor(3, &[7, 8, 9]);
    match p {
        ffi::PacketData::VendorEvent(v) => {
            assert_eq!(v.len, 3);
            assert_eq!(&v.data[..4], &[7, 8, 9, 0]);
        }
        _ => panic!("expected a vendor payload"),
    }
    let p = uniffi_types::PacketData::vendor(2, &buf);
    match p {
        uniffi_types::PacketData::VendorEvent(v) => {
            assert_eq!(v.len, 2);
            assert_eq!(v.data.len(), 98);
            assert_eq!(&v.data[..3], &[1, 2, 3]);
        }
        _ => panic!("expected a vendor payload"),
    }
    assert_eq!(ffi::ImpactEvent::from_common(ImpactEvent { timestamp: 5 }).timestamp, 5);
    assert_eq!(uniffi_types::ClientError::NotConnected.message(), "Not connected to the server");
    assert_eq!(uniffi_types::ClientError::StreamEnd.message(), "Stream ended unexpectedly");
    assert_eq!(
        uniffi_types::accessory_type_from_common(AccessoryType::BlackbeardX),
        uniffi_types::AccessoryType::DryFireMag
    );
}

#[test]
fn accessory_forms_for_bindings() {
    let mut mag = AccessoryInfo::with_defaults("mag".to_string(), AccessoryType::BlackbeardX);
    mag.assignment = Some(0x0605_0403_0201);
    let b = uniffi_types::accessory_info_from_common(mag.clone());
    assert_eq!(b.name, "mag");
    assert_eq!(b.ty, uniffi_types::AccessoryType::DryFireMag);
    assert_eq!(b.assignment, Some(0x0605_0403_0201));
    let back = uniffi_types::accessory_info_to_common(b);
    assert_eq!(back.name, "mag");
    assert_eq!(back.ty, AccessoryType::DryFireMag);
    assert_eq!(back.assignment, Some(0x0605_0403_0201));
    let zero = uniffi_types::AccessoryInfo { name: "z".to_string(), ty: uniffi_types::AccessoryType::DryFireMag, assignment: Some(0) };
    assert_eq!(uniffi_types::accessory_info_to_common(zero).assignment, None);
    let entries = uniffi_types::accessory_map_entries(vec![([1, 2, 3, 4, 5, 6], (mag.clone(), true))]);
    assert_eq!(entries.len(), 1);
    assert_eq!(entries[0].key, 0x0000_0605_0403_0201);
    assert!(entries[0].status.connected);
    assert_eq!(entries[0].status.info.name, "mag");
    let infos = uniffi_types::accessory_info_map_entries(vec![([6, 5, 4, 3, 2, 1], mag)]);
    assert_eq!(infos[0].key, 0x0000_0102_0304_0506);
}

#[test]
fn accelerometer_timing() {
    assert_eq!(odyssey_hub::events::accel_elapsed_us(None, 500), 0);
    assert_eq!(odyssey_hub::events::accel_elapsed_us(Some(100), 500), 400);
    assert_eq!(odyssey_hub::events::accel_elapsed_us(Some(u32::MAX), 4), 5);
    assert_eq!(odyssey_hub::events::imu_step_us(0), 10_000);
    assert_eq!(odyssey_hub::events::imu_step_us(1234), 1234);
}
