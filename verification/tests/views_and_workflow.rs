use odyssey_hub::accessory::{AccessoryInfo, AccessoryType};
use odyssey_hub::accessory_link::{classify_nearby, merge_accessory_infos, BLACKBEARDX_SERVICE_UUID};
use odyssey_hub::config::{collect_screen_calibrations, ConfigRead};
use odyssey_hub::decimal::decimal_string;
use odyssey_hub::device::{Device, DeviceCapabilities, EventsTransport, Transport, CONTROL, EVENTS};
use odyssey_hub::firmware::{DeviceManifest, FileEntry, FirmwareEntry, FirmwareManifest};
use odyssey_hub::firmware_update::{
    available_update_state, check_flash_complete, firmware_file, phase_state, step_error, update_step,
    FirmwareUpdateState, UpdateDirective, UpdatePhase,
};
use odyssey_hub::hexkeymap::HexKeyMapN;
use odyssey_hub::server_status::{corruption_intro, server_status_step, ServerReport, StatusAction};
use odyssey_hub::shot_delay::{get_or_default_shot_delay, set_shot_delay_live, shot_delay_from_request};
use odyssey_hub::tracking_history::TrackingHistory;
use odyssey_hub::update_channel::{channel_file, load_channel, trim, UpdateChannel};
use odyssey_hub::views::{
    address_dot_class, dongle_list_kind, firmware_suffix, pairing_result_status, transport_label, updating_not_listed,
};
use odyssey_hub::zeroing::{
    decrement_shot_delay, increment_shot_delay, key_lookup_timestamp, key_press, save_zero_button,
    shot_delay_from_input, shot_lookup_timestamp, zero_on_key_button,
};

fn device(uuid: [u8; 6], transport: Transport, events: EventsTransport, caps: u8) -> Device {
    Device {
        uuid,
        transport,
        capabilities: DeviceCapabilities::new(caps),
        firmware_version: [0, 1, 0],
        events_transport: events,
        events_connected: true,
        product_id: 0x5211,
        name: [0; 33],
    }
}

#[test]
fn decimal_text() {
    assert_eq!(decimal_string(0), "0");
    assert_eq!(decimal_string(7), "7");
    assert_eq!(decimal_string(1234567890), "1234567890");
    assert_eq!(decimal_string(u64::MAX), u64::MAX.to_string());
}

#[test]
fn transport_labels() {
    assert_eq!(transport_label(&device([1; 6], Transport::Usb, EventsTransport::Wired, CONTROL)), "USB");
    assert_eq!(
        transport_label(&device([1; 6], Transport::Usb, EventsTransport::Bluetooth, CONTROL)),
        "USB (BLE events)"
    );
    assert_eq!(
        transport_label(&device([1; 6], Transport::UsbMux, EventsTransport::Bluetooth, CONTROL | EVENTS)),
        "BLE (USB control)"
    );
    assert_eq!(transport_label(&device([1; 6], Transport::UsbMux, EventsTransport::Bluetooth, EVENTS)), "BLE");
    assert_eq!(transport_label(&device([1; 6], Transport::UdpMux, EventsTransport::Wired, 0)), "UDP");
}

#[test]
fn updating_devices_missing_from_list() {
    let devices = vec![device([1; 6], Transport::Usb, EventsTransport::Wired, CONTROL)];
    assert_eq!(updating_not_listed(&vec![[2; 6], [1; 6], [3; 6]], &devices), vec![[2; 6], [3; 6]]);
}

#[test]
fn dongle_row_text() {
    assert_eq!(firmware_suffix([0, 0, 0]), "");
    assert_eq!(firmware_suffix([1, 20, 3]), " (fw 1.20.3)");
    assert_eq!(dongle_list_kind([0, 1, 1]), (true, "Bonds"));
    assert_eq!(dongle_list_kind([0, 1, 0]), (false, "Connected"));
    assert_eq!(pairing_result_status(true, &[0xab, 0, 1, 2, 3, 4], &String::new()), "Paired with AB:00:01:02:03:04");
    assert_eq!(pairing_result_status(false, &[0; 6], &"timed out".to_string()), "timed out");
    let connected = vec![[1; 6]];
    assert_eq!(address_dot_class(&connected, &[1; 6]), "inline-block w-2 h-2 rounded-full bg-green-500");
    assert_eq!(address_dot_class(&connected, &[2; 6]), "inline-block w-2 h-2 rounded-full bg-red-500");
}

fn entry(version: &str) -> FirmwareEntry {
    FirmwareEntry {
        version: version.to_string(),
        files: vec![
            ("app-a".to_string(), FileEntry { sha256: "aa".to_string(), size: 10 }),
            ("app-b".to_string(), FileEntry { sha256: "bb".to_string(), size: 20 }),
        ],
        released: String::new(),
    }
}

#[test]
fn update_offered_only_when_idle_with_control() {
    let manifest = FirmwareManifest {
        version: 1,
        devices: vec![("atslite1".to_string(), DeviceManifest { firmwares: vec![entry("0.1.4"), entry("0.1.2")] })],
    };
    let d = device([1; 6], Transport::Usb, EventsTransport::Wired, CONTROL);
    let known = Some((0x1915u16, 0x5211u16, "atslite1"));
    match available_update_state(&d, &FirmwareUpdateState::Idle, Some(&manifest), known) {
        Some(FirmwareUpdateState::Available { current, available, device_type, vid, pid }) => {
            assert_eq!(current, [0, 1, 0]);
            assert_eq!(available, "0.1.4");
            assert_eq!(device_type, "atslite1");
            assert_eq!((vid, pid), (0x1915, 0x5211));
        }
        _ => panic!("expected an offered update"),
    }
    assert!(available_update_state(&d, &FirmwareUpdateState::Downloading, Some(&manifest), known).is_none());
    assert!(available_update_state(&d, &FirmwareUpdateState::Idle, None, known).is_none());
    assert!(available_update_state(&d, &FirmwareUpdateState::Idle, Some(&manifest), None).is_none());
    let ble = device([1; 6], Transport::UsbMux, EventsTransport::Bluetooth, EVENTS);
    assert!(available_update_state(&ble, &FirmwareUpdateState::Idle, Some(&manifest), known).is_none());
    let mut newest = d.clone();
    newest.firmware_version = [0, 1, 4];
    assert!(available_update_state(&newest, &FirmwareUpdateState::Idle, Some(&manifest), known).is_none());
}

#[test]
fn update_workflow_messages() {
    let e = entry("0.2.0");
    assert_eq!(firmware_file(&e, "app-b").unwrap().sha256, "bb");
    assert_eq!(firmware_file(&e, "app-c").unwrap_err(), "Firmware file app-c not found in manifest");
    assert_eq!(step_error("DFU detach failed", "pipe"), "DFU detach failed: pipe");
    assert_eq!(check_flash_complete(10, 10), Ok(()));
    assert_eq!(check_flash_complete(7, 10), Err("Flash incomplete: 7/10 bytes written".to_string()));
}

#[test]
fn server_reports() {
    assert_eq!(
        server_status_step(ServerReport::Started { corrupted_files: 0 }),
        StatusAction::Ready { show_corruptions: false }
    );
    assert_eq!(
        server_status_step(ServerReport::Started { corrupted_files: 2 }),
        StatusAction::Ready { show_corruptions: true }
    );
    assert_eq!(
        server_status_step(ServerReport::StartFailed { address_in_use: true }),
        StatusAction::HandOverAndExit
    );
    assert_eq!(server_status_step(ServerReport::StartFailed { address_in_use: false }), StatusAction::Exit);
    assert_eq!(server_status_step(ServerReport::BringToFront), StatusAction::FocusWindow);
    assert_eq!(server_status_step(ServerReport::Stopped), StatusAction::Exit);
    assert_eq!(server_status_step(ServerReport::ChannelClosed), StatusAction::Exit);
    assert!(corruption_intro(1).contains("file was corrupted"));
    assert!(corruption_intro(3).contains("files were corrupted"));
}

#[test]
fn shot_delays_live_then_saved_then_none() {
    let mut live: HexKeyMapN<u16, 6> = HexKeyMapN::new();
    let mut saved: HexKeyMapN<u16, 6> = HexKeyMapN::new();
    saved.insert([1; 6], 40);
    saved.insert([2; 6], 50);
    assert_eq!(get_or_default_shot_delay(&live, Some(&saved), &[1; 6]), 40);
    assert_eq!(get_or_default_shot_delay(&live, None, &[1; 6]), 0);
    set_shot_delay_live(&mut live, [1; 6], 7);
    assert_eq!(get_or_default_shot_delay(&live, Some(&saved), &[1; 6]), 7);
    assert_eq!(get_or_default_shot_delay(&live, Some(&saved), &[2; 6]), 50);
    assert_eq!(get_or_default_shot_delay(&live, Some(&saved), &[3; 6]), 0);
    assert_eq!(shot_delay_from_request(70_000), 4_464);
}

#[test]
fn accessory_merge_and_scan() {
    let mut map: HexKeyMapN<(AccessoryInfo, bool), 6> = HexKeyMapN::new();
    map.insert([1; 6], (AccessoryInfo::with_defaults("old".to_string(), AccessoryType::DryFireMag), true));
    map.insert([9; 6], (AccessoryInfo::with_defaults("kept".to_string(), AccessoryType::DryFireMag), true));
    let fresh = vec![
        ([1; 6], AccessoryInfo::with_defaults("renamed".to_string(), AccessoryType::DryFireMag)),
        ([2; 6], AccessoryInfo::with_defaults("new".to_string(), AccessoryType::BlackbeardX)),
    ];
    merge_accessory_infos(&mut map, fresh);
    assert_eq!(map.len(), 3);
    let (info, connected) = map.get(&[1; 6]).unwrap();
    assert_eq!((info.name.as_str(), *connected), ("renamed", true));
    let (info, connected) = map.get(&[2; 6]).unwrap();
    assert_eq!((info.name.as_str(), *connected), ("new", false));
    assert_eq!(map.get(&[9; 6]).unwrap().0.name, "kept");

    assert_eq!(
        classify_nearby(&Some("DryFireMag".to_string()), &vec![]),
        Some(("DryFireMag", AccessoryType::DryFireMag))
    );
    assert_eq!(
        classify_nearby(&Some("Other".to_string()), &vec![1, BLACKBEARDX_SERVICE_UUID]),
        Some(("BlackbeardX", AccessoryType::BlackbeardX))
    );
    assert_eq!(classify_nearby(&None, &vec![1, 2]), None);
}

#[test]
fn screen_calibration_reads() {
    let reads: Vec<ConfigRead<u32>> = vec![
        ConfigRead::Parsed(10),
        ConfigRead::NotFound,
        ConfigRead::ParseFailed { path: "s2".to_string(), error: "bad".to_string() },
        ConfigRead::Parsed(30),
        ConfigRead::ReadFailed { path: "s4".to_string(), error: "io".to_string() },
        ConfigRead::ExistsCheckFailed,
    ];
    let (cals, bad) = collect_screen_calibrations(reads);
    assert_eq!(cals, vec![(0, 10), (3, 30)]);
    assert_eq!(bad, vec![(2, "s2".to_string(), "bad".to_string()), (4, "s4".to_string(), "io".to_string())]);
}

#[test]
fn channel_file_text() {
    assert_eq!(trim("  beta\n"), "beta");
    assert_eq!(trim("\u{3000}x y\u{a0}"), "x y");
    assert_eq!(trim(" \t"), "");
    assert_eq!(load_channel(Some("nightly\r\n".to_string())), UpdateChannel::Nightly);
    assert_eq!(load_channel(Some("Nightly".to_string())), UpdateChannel::Stable);
    assert_eq!(load_channel(None), UpdateChannel::Stable);
    for c in UpdateChannel::all() {
        assert_eq!(load_channel(Some(c.as_str().to_string())), c);
    }
    assert_eq!(channel_file(None), None);
    let f = channel_file(Some("/home/u/.local".to_string())).unwrap();
    assert_eq!(f, "/home/u/.local/Odyssey.Desktop/update_channel.txt");
}

#[test]
fn zero_lookup_times() {
    assert_eq!(shot_lookup_timestamp(50_000, 20, Some(1)), 30_000);
    assert_eq!(shot_lookup_timestamp(5_000, 20, None), 5_000u32.wrapping_sub(20_000));
    assert_eq!(shot_lookup_timestamp(u32::MAX, 20, Some(90_000)), 70_000);
    assert_eq!(shot_lookup_timestamp(u32::MAX, 20, None), u32::MAX);
    assert_eq!(key_lookup_timestamp(0, Some(12)), 12);
    let mut h: TrackingHistory<u8> = TrackingHistory::new(2);
    assert_eq!(h.latest(), None);
    h.push(1, 10);
    h.push(2, 20);
    h.push(3, 30);
    assert_eq!(h.latest(), Some((3, 30)));
}

#[test]
fn shot_delay_field_and_buttons() {
    assert_eq!(shot_delay_from_input("15", 3), 15);
    assert_eq!(shot_delay_from_input("+15", 3), 15);
    assert_eq!(shot_delay_from_input("-5", 3), 0);
    assert_eq!(shot_delay_from_input("5000", 3), 1023);
    assert_eq!(shot_delay_from_input("abc", 3), 3);
    assert_eq!(shot_delay_from_input("", 3), 3);
    assert_eq!(shot_delay_from_input("-+5", 3), 3);
    assert_eq!(shot_delay_from_input("-2147483648", 3), 0);
    assert_eq!(shot_delay_from_input("-2147483649", 3), 3);
    assert_eq!(shot_delay_from_input("2147483648", 3), 3);
    assert_eq!(increment_shot_delay(1022), 1023);
    assert_eq!(increment_shot_delay(1023), 1023);
    assert_eq!(decrement_shot_delay(1), 0);
    assert_eq!(decrement_shot_delay(0), 0);
}

#[test]
fn zeroing_keys_and_buttons() {
    let armed = vec![true, false, true];
    assert_eq!(key_press("z", &armed), (vec![0, 2], vec![false, false, false]));
    assert_eq!(key_press("Escape", &armed), (vec![], vec![false, false, false]));
    assert_eq!(key_press("x", &armed), (vec![], armed.clone()));
    assert_eq!(zero_on_key_button(true), ("btn-secondary-danger", "Cancel [Z]"));
    assert_eq!(zero_on_key_button(false), ("btn-secondary", "Zero on [Z]"));
    assert_eq!(save_zero_button(&None), ("btn-secondary", "Save Zero".to_string()));
    assert_eq!(save_zero_button(&Some(Ok(()))), ("btn-secondary-success", "Saved".to_string()));
    assert_eq!(
        save_zero_button(&Some(Err("disk".to_string()))),
        ("btn-secondary-danger", "Error: disk".to_string())
    );
}

#[test]
fn update_state_flow() {
    let mut s = odyssey_hub::update_state::UpdateState::new_in_scope(UpdateChannel::Beta);
    assert_eq!(s.status_text(), "Up to date.");
    s.checking = true;
    assert_eq!(s.status_text(), "Checking for updates\u{2026}");
    s.checking = false;
    s.available = true;
    assert_eq!(s.status_text(), "Update available \u{2014} install it from the banner above.");
    assert!(s.begin_update());
    assert!(!s.begin_update());
    assert_eq!(odyssey_hub::update_state::update_button_label(s.busy), "Updating\u{2026}");
    s.finish_update(Err("offline".to_string()));
    assert!(!s.busy);
    assert_eq!(s.status_text(), "Update check failed: offline");
    assert!(s.begin_update());
    assert_eq!(s.error, None);
    s.finish_update(Ok(false));
    assert!(!s.available && !s.busy);
    s.request_check();
    assert_eq!(s.check_tick, 1);
    s.available = true;
    s.dismiss();
    assert!(!s.available);
    assert_eq!(odyssey_hub::update_state::update_button_label(false), "Update & Restart");
    assert_eq!(odyssey_hub::update_state::status_chip(true).0, "Connected");
    assert_eq!(odyssey_hub::update_state::status_chip(false).1, "h-2.5 w-2.5 rounded-full bg-gray-400");
}

#[test]
fn update_sequence_stops_at_first_failure() {
    let ok: Result<(), String> = Ok(());
    let mut phase = UpdatePhase::Detach;
    let mut seen = vec![phase];
    loop {
        match update_step(phase, &ok) {
            UpdateDirective::Run(next) => {
                phase = next;
                seen.push(next);
            }
            UpdateDirective::Complete => break,
            UpdateDirective::Abort(m) => panic!("unexpected abort: {m}"),
        }
    }
    assert_eq!(
        seen,
        vec![
            UpdatePhase::Detach,
            UpdatePhase::WaitForDfu,
            UpdatePhase::ChooseSlot,
            UpdatePhase::Download,
            UpdatePhase::Flash,
            UpdatePhase::Reboot,
            UpdatePhase::Verify,
        ]
    );
    let err: Result<(), String> = Err("timeout".to_string());
    match update_step(UpdatePhase::WaitForDfu, &err) {
        UpdateDirective::Abort(m) => assert_eq!(m, "Device did not enter DFU mode: timeout"),
        other => panic!("expected abort, got {other:?}"),
    }
    match update_step(UpdatePhase::Download, &err) {
        UpdateDirective::Abort(m) => assert_eq!(m, "Download failed: timeout"),
        other => panic!("expected abort, got {other:?}"),
    }
    assert!(matches!(update_step(UpdatePhase::Verify, &err), UpdateDirective::Complete));
    assert!(matches!(phase_state(UpdatePhase::Flash, 1024), Some(FirmwareUpdateState::Flashing { progress: 0, total: 1024 })));
    assert!(phase_state(UpdatePhase::ChooseSlot, 1024).is_none());
    assert!(matches!(phase_state(UpdatePhase::WaitForDfu, 0), Some(FirmwareUpdateState::WaitingForDfu)));
}
