use odyssey_hub::device::{
    device_label, product_name, Device, DeviceCapabilities, EventsTransport, Transport, CONTROL, DFU, EVENTS,
};
use odyssey_hub::device_link::{
    ble_mux_device, classify_usb_listing, link_step, probe_decision, route_command, snapshot_diff,
    split_missing_direct_devices, supports_bulk_config, usb_direct_device, DeviceCommand, LinkAction, LinkEvent,
    LinkState, ProbeDecision, Route, RouteError, UsbDeviceKind,
};
use odyssey_hub::device_list::{device_list_connect, device_list_disconnect, Counter, PeerAddr, PeerMessage};
use odyssey_hub::dongle::{addresses_from_bytes, DongleInfo};
use odyssey_hub::interface::{
    device_from_proto, device_to_proto, uuid_from_bytes, version_from_proto, version_to_proto, ProtoDevice,
    ProtoDongleInfo, ProtoEventsTransport, ProtoFirmwareVersion, ProtoTransport,
};
use odyssey_hub::views::{device_name, format_uuid, slot_color_dot};

fn device(pid: u16, caps: u8) -> Device {
    Device {
        uuid: [0xaa, 0xbb, 0xcc, 0xdd, 0xee, 0x0f],
        transport: Transport::Usb,
        capabilities: DeviceCapabilities::new(caps),
        firmware_version: [0, 1, 2],
        events_transport: EventsTransport::Wired,
        events_connected: true,
        product_id: pid,
        name: [0u8; 33],
    }
}

#[test]
fn capability_flags_insert_remove() {
    let mut c = DeviceCapabilities::empty();
    assert_eq!(c.bits(), 0);
    c.insert(CONTROL);
    c.insert(EVENTS);
    assert!(c.contains(CONTROL) && c.contains(EVENTS) && !c.contains(DFU));
    assert_eq!(c.bits(), 0b11);
    c.remove(CONTROL);
    assert!(!c.contains(CONTROL) && c.contains(EVENTS));
    assert_eq!(DeviceCapabilities::new(0b111).bits(), 0b111);
}

#[test]
fn device_name_round_trip() {
    let mut d = device(0x5211, CONTROL);
    assert_eq!(d.name(), "");
    d.set_name("Left gun");
    assert_eq!(d.name(), "Left gun");
    let long = "abcdefghijklmnopqrstuvwxyz0123456789";
    d.set_name(long);
    assert_eq!(d.name(), &long[..32]);
    // a multi-byte character cut at byte 32 leaves invalid UTF-8: no name
    let cut = "aaaaaaaaaaaaaaaaaaaaaaaaaaaaaaa\u{e9}";
    d.set_name(cut);
    assert_eq!(d.name(), "");
    let bytes = Device::name_bytes("ab");
    assert_eq!(&bytes[..3], &[b'a', b'b', 0]);
}

#[test]
fn device_identity_is_the_uuid() {
    let a = device(0x5211, CONTROL);
    let mut b = device(0x5210, EVENTS);
    b.set_name("renamed");
    assert!(a == b);
    b.uuid[0] = 0;
    assert!(a != b);
}

#[test]
fn device_labels() {
    let mut d = device(0x5211, CONTROL);
    assert_eq!(device_label(&d), "ATS Lite1 (aa:bb:cc:dd:ee:0f)");
    d.set_name("Left");
    assert_eq!(device_label(&d), "ATS Lite1: Left (aa:bb:cc:dd:ee:0f)");
    let dfu = device(0x5210, DFU);
    assert_eq!(device_label(&dfu), "ATS Lite [DFU] (aa:bb:cc:dd:ee:0f)");
    assert_eq!(device_label(&device(0x1234, EVENTS)), "Unknown (aa:bb:cc:dd:ee:0f)");
    assert_eq!(product_name(0x520F), "ATS VM");
}

#[test]
fn pairing_page_text() {
    assert_eq!(format_uuid(&[0xaa, 0x0b, 0x00, 0xff, 0x10, 0x01]), "AA:0B:00:FF:10:01");
    assert_eq!(device_name(&device(0x5210, CONTROL)), "ATS Lite");
    assert_eq!(device_name(&device(0x9999, CONTROL)), "Unknown");
    assert_eq!(slot_color_dot(0), "bg-red-500");
    assert_eq!(slot_color_dot(4), "bg-orange-500");
    assert_eq!(slot_color_dot(5), "bg-gray-400");
    assert_eq!(slot_color_dot(17), "bg-gray-400");
}

#[test]
fn device_wire_round_trip() {
    let mut d = device(0x5211, CONTROL | EVENTS);
    d.transport = Transport::UsbMux;
    d.events_transport = EventsTransport::Bluetooth;
    let p = device_to_proto(&d);
    assert_eq!(p.uuid, vec![0xaa, 0xbb, 0xcc, 0xdd, 0xee, 0x0f]);
    assert_eq!(p.transport, ProtoTransport::UsbMux);
    assert_eq!(p.capabilities, 0b11);
    assert_eq!(p.product_id, 0x5211);
    assert_eq!(p.firmware_version, Some(ProtoFirmwareVersion { major: 0, minor: 1, patch: 2 }));
    let back = device_from_proto(&p);
    assert_eq!(back.uuid, d.uuid);
    assert_eq!(back.transport, d.transport);
    assert_eq!(back.capabilities, d.capabilities);
    assert_eq!(back.firmware_version, d.firmware_version);
    assert_eq!(back.events_transport, d.events_transport);
    assert_eq!(back.events_connected, d.events_connected);
    assert_eq!(back.product_id, d.product_id);
}

#[test]
fn wire_uuid_and_version_conversions() {
    assert_eq!(uuid_from_bytes(&vec![1, 2, 3]), [1, 2, 3, 0, 0, 0]);
    assert_eq!(uuid_from_bytes(&vec![1, 2, 3, 4, 5, 6, 7, 8]), [1, 2, 3, 4, 5, 6]);
    assert_eq!(version_from_proto(None), [0, 0, 0]);
    assert_eq!(version_to_proto([1, 2, 3]), Some(ProtoFirmwareVersion { major: 1, minor: 2, patch: 3 }));
    let p = ProtoDevice {
        uuid: vec![9; 6],
        transport: ProtoTransport::Usb,
        firmware_version: None,
        capabilities: 0x1_01,
        events_transport: ProtoEventsTransport::Wired,
        events_connected: false,
        product_id: 0x1_5210,
    };
    let d = device_from_proto(&p);
    assert_eq!(d.capabilities.bits(), 0x01);
    assert_eq!(d.product_id, 0x5210);
    assert_eq!(d.firmware_version, [0, 0, 0]);
}

#[test]
fn dongle_info_from_wire() {
    let p = ProtoDongleInfo {
        id: "serial".to_string(),
        protocol_version: Some(ProtoFirmwareVersion { major: 1, minor: 0, patch: 0 }),
        control_protocol_version: None,
        firmware_version: Some(ProtoFirmwareVersion { major: 0, minor: 5, patch: 1 }),
        connected_devices: vec![vec![1, 2, 3, 4, 5, 6], vec![1, 2]],
        bonded_devices: vec![vec![6, 5, 4, 3, 2, 1]],
    };
    let d = DongleInfo::from_proto(&p);
    assert_eq!(d.id, "serial");
    assert_eq!(d.protocol_version, [1, 0, 0]);
    assert_eq!(d.control_protocol_version, [0, 0, 0]);
    assert_eq!(d.firmware_version, [0, 5, 1]);
    assert_eq!(d.connected_devices, vec![[1, 2, 3, 4, 5, 6]]);
    assert_eq!(d.bonded_devices, vec![[6, 5, 4, 3, 2, 1]]);
    assert_eq!(addresses_from_bytes(&vec![vec![0; 7]]), Vec::<[u8; 6]>::new());
}

#[test]
fn initial_device_records() {
    let usb = usb_direct_device([1; 6], 0x5211, Some([0, 2, 0]), true);
    assert_eq!(usb.capabilities.bits(), CONTROL | EVENTS);
    assert_eq!(usb.events_transport, EventsTransport::Wired);
    assert!(usb.events_connected);
    let ble_mode = usb_direct_device([1; 6], 0x5211, None, false);
    assert_eq!(ble_mode.capabilities.bits(), CONTROL);
    assert_eq!(ble_mode.firmware_version, [0, 0, 0]);
    assert_eq!(ble_mode.events_transport, EventsTransport::Bluetooth);
    let mux = ble_mux_device([2; 6], [0, 1, 0], 0x5210);
    assert_eq!(mux.transport, Transport::UsbMux);
    assert_eq!(mux.capabilities.bits(), EVENTS);
}

#[test]
fn probe_decisions() {
    assert_eq!(probe_decision(false, false), ProbeDecision::Connect);
    assert_eq!(probe_decision(true, true), ProbeDecision::Skip);
    assert_eq!(probe_decision(true, false), ProbeDecision::MergeControl);
}

#[test]
fn handler_keeps_running_while_a_connection_remains() {
    let mux = ble_mux_device([2; 6], [0, 1, 0], 0x5211);
    let s = LinkState { device: mux, has_control: false, has_events: true };
    let (s, a) = link_step(s, LinkEvent::AddControl { firmware_version: Some([0, 3, 0]), usb_mode: Some(false) });
    assert_eq!(a, LinkAction::Notify);
    assert!(s.has_control && s.has_events);
    assert_eq!(s.device.transport, Transport::Usb);
    assert_eq!(s.device.firmware_version, [0, 3, 0]);
    assert!(s.device.capabilities.contains(CONTROL));
    let (s, a) = link_step(s, LinkEvent::RemoveEvents);
    assert_eq!(a, LinkAction::Notify);
    assert!(!s.device.capabilities.contains(EVENTS));
    assert!(!s.device.events_connected);
    let (s, a) = link_step(s, LinkEvent::RemoveControl);
    assert_eq!(a, LinkAction::Exit);
    assert!(!s.has_control && !s.has_events);
}

#[test]
fn ble_handler_survives_losing_usb_control() {
    let mux = ble_mux_device([3; 6], [0, 1, 0], 0x5211);
    let s = LinkState { device: mux, has_control: true, has_events: true };
    let (s, a) = link_step(s, LinkEvent::RemoveControl);
    assert_eq!(a, LinkAction::Notify);
    assert!(s.has_events && !s.has_control);
    let (_, a) = link_step(s, LinkEvent::TransportModeChanged { had_control: false });
    assert_eq!(a, LinkAction::Continue);
}

#[test]
fn handler_exits_on_closed_channel_or_mode_change() {
    let d = usb_direct_device([4; 6], 0x5211, None, true);
    let s = LinkState { device: d, has_control: true, has_events: true };
    let (_, a) = link_step(s, LinkEvent::ChannelClosed);
    assert_eq!(a, LinkAction::Exit);
    let d = usb_direct_device([4; 6], 0x5211, None, true);
    let s = LinkState { device: d, has_control: true, has_events: true };
    let (_, a) = link_step(s, LinkEvent::TransportModeChanged { had_control: true });
    assert_eq!(a, LinkAction::Exit);
}

#[test]
fn hub_snapshot_differences() {
    let known = vec![[1; 6], [2; 6], [3; 6]];
    let snap = vec![[3; 6], [4; 6], [4; 6], [1; 6], [5; 6]];
    let (added, removed) = snapshot_diff(&known, &snap);
    assert_eq!(added, vec![[4; 6], [5; 6]]);
    assert_eq!(removed, vec![[2; 6]]);
    let (added, removed) = snapshot_diff(&vec![], &vec![]);
    assert!(added.is_empty() && removed.is_empty());
}

#[test]
fn direct_devices_missing_from_scan() {
    let known = vec![("a".to_string(), [1; 6]), ("b".to_string(), [2; 6]), ("c".to_string(), [3; 6])];
    let present = vec!["c".to_string(), "a".to_string()];
    let (kept, missing) = split_missing_direct_devices(&known, &present);
    assert_eq!(kept, vec![("a".to_string(), [1; 6]), ("c".to_string(), [3; 6])]);
    assert_eq!(missing, vec![("b".to_string(), [2; 6])]);
}

#[test]
fn server_device_list_connect_and_disconnect() {
    let a = device(0x5211, CONTROL);
    let mut b = device(0x5210, EVENTS);
    b.uuid[0] = 1;
    let mut list: Vec<(Device, u8)> = Vec::new();
    device_list_connect(&mut list, a.clone(), 1);
    device_list_connect(&mut list, b, 2);
    device_list_connect(&mut list, a.clone(), 3);
    let mut renamed = a.clone();
    renamed.set_name("other name");
    // the first entry equal to the device (same UUID) goes
    device_list_disconnect(&mut list, &renamed);
    assert_eq!(list.iter().map(|e| e.1).collect::<Vec<_>>(), vec![2, 3]);
    let mut absent = a;
    absent.uuid[5] = 0x55;
    device_list_disconnect(&mut list, &absent);
    assert_eq!(list.len(), 2);
}

#[test]
fn peer_list_update() {
    let p1 = PeerAddr::V4 { ip: 0x0a00_0002, port: 23456 };
    let p2 = PeerAddr::V4 { ip: 0x0a00_0003, port: 23456 };
    let mut c = Counter::new();
    c.update(PeerMessage::Connect(p1));
    c.update(PeerMessage::Connect(p2));
    c.update(PeerMessage::Disconnect(PeerAddr::V4 { ip: 0x0a00_0002, port: 1 }));
    assert_eq!(c.device_list, vec![p1, p2]);
    c.update(PeerMessage::Disconnect(p1));
    assert_eq!(c.device_list, vec![p2]);
}

#[test]
fn usb_scan_takes_known_devices_only() {
    assert_eq!(classify_usb_listing(0x1915, 0x520F), Some(UsbDeviceKind::Direct));
    assert_eq!(classify_usb_listing(0x1915, 0x5210), Some(UsbDeviceKind::Direct));
    assert_eq!(classify_usb_listing(0x1915, 0x5211), Some(UsbDeviceKind::Direct));
    assert_eq!(classify_usb_listing(0x1915, 0x5212), Some(UsbDeviceKind::Hub));
    assert_eq!(classify_usb_listing(0x1915, 0x5213), None);
    assert_eq!(classify_usb_listing(0x1234, 0x5212), None);
}

#[test]
fn hub_snapshot_difference_order() {
    let known = vec![[9; 6], [1; 6], [7; 6]];
    let snap = vec![[8; 6], [1; 6], [6; 6], [8; 6]];
    let (added, removed) = snapshot_diff(&known, &snap);
    assert_eq!(added, vec![[8; 6], [6; 6]]);
    assert_eq!(removed, vec![[9; 6], [7; 6]]);
}

#[test]
fn commands_are_routed_by_connection() {
    assert!(supports_bulk_config(0x520F));
    assert!(!supports_bulk_config(0x5210));
    assert!(!supports_bulk_config(0x5211));
    let vm = usb_direct_device([1; 6], 0x520F, None, true);
    let lite = usb_direct_device([2; 6], 0x5211, None, true);
    let both = LinkState { device: vm.clone(), has_control: true, has_events: true };
    let lite_both = LinkState { device: lite.clone(), has_control: true, has_events: true };
    let none = LinkState { device: vm.clone(), has_control: false, has_events: false };
    assert_eq!(route_command(&both, DeviceCommand::SetShotDelay), Route::Hub);
    assert_eq!(route_command(&both, DeviceCommand::ReadConfig { kind: 0 }), Route::Events);
    assert_eq!(route_command(&lite_both, DeviceCommand::ReadConfig { kind: 1 }), Route::Control);
    assert_eq!(
        route_command(&both, DeviceCommand::WriteConfig { kind: 2 }),
        Route::Refused(RouteError::UnknownConfigKind(2))
    );
    assert_eq!(
        route_command(&none, DeviceCommand::FlashSettings),
        Route::Refused(RouteError::NoDeviceForFlashSettings)
    );
    assert_eq!(route_command(&both, DeviceCommand::ReadRegister), Route::Events);
    let mut quiet = vm.clone();
    quiet.events_connected = false;
    let quiet_state = LinkState { device: quiet, has_control: true, has_events: true };
    assert_eq!(
        route_command(&quiet_state, DeviceCommand::WriteRegister),
        Route::Refused(RouteError::EventsNotConnected)
    );
    let ctrl_only = LinkState { device: vm.clone(), has_control: true, has_events: false };
    assert_eq!(
        route_command(&ctrl_only, DeviceCommand::ReadRegister),
        Route::Refused(RouteError::EventsDeviceUnavailable)
    );
    assert_eq!(route_command(&ctrl_only, DeviceCommand::WriteVendor), Route::Dropped);
    assert_eq!(route_command(&ctrl_only, DeviceCommand::StartPairing), Route::Control);
    assert_eq!(
        route_command(&none, DeviceCommand::ClearBond),
        Route::Refused(RouteError::NoControlDevice)
    );
    assert_eq!(RouteError::UnknownConfigKind(7).message(), "unknown config kind: 7");
    assert_eq!(RouteError::EventsNotConnected.message(), "events transport not connected");
    assert_eq!(RouteError::NoDeviceForReadConfig.message(), "no device available for read_config");
}
