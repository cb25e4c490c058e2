//! The wire form of device records and dongle records exchanged between the
//! hub service and its clients, and the conversions both ways.
use crate::device::{Device, DeviceCapabilities, EventsTransport, Transport};
use vstd::prelude::*;

verus! {

/// A version on the wire.
#[derive(Debug, Clone, Copy, PartialEq, Eq, Structural)]
pub struct ProtoFirmwareVersion {
    pub major: u32,
    pub minor: u32,
    pub patch: u32,
}

/// Transport on the wire.
#[derive(Debug, Clone, Copy, PartialEq, Eq, Structural)]
pub enum ProtoTransport {
    Usb,
    UsbMux,
    UdpMux,
}

/// Events transport on the wire.
#[derive(Debug, Clone, Copy, PartialEq, Eq, Structural)]
pub enum ProtoEventsTransport {
    Wired,
    Bluetooth,
}

/// A device record on the wire.
#[derive(Debug, Clone, PartialEq, Eq)]
pub struct ProtoDevice {
    pub uuid: Vec<u8>,
    pub transport: ProtoTransport,
    pub firmware_version: Option<ProtoFirmwareVersion>,
    pub capabilities: u32,
    pub events_transport: ProtoEventsTransport,
    pub events_connected: bool,
    pub product_id: u32,
}

pub fn transport_to_proto(t: Transport) -> (r: ProtoTransport)
    ensures
        t == Transport::Usb ==> r == ProtoTransport::Usb,
        t == Transport::UsbMux ==> r == ProtoTransport::UsbMux,
        t == Transport::UdpMux ==> r == ProtoTransport::UdpMux,
{
    match t {
        Transport::Usb => ProtoTransport::Usb,
        Transport::UsbMux => ProtoTransport::UsbMux,
        Transport::UdpMux => ProtoTransport::UdpMux,
    }
}

pub fn transport_from_proto(t: ProtoTransport) -> (r: Transport)
    ensures
        t == ProtoTransport::Usb ==> r == Transport::Usb,
        t == ProtoTransport::UsbMux ==> r == Transport::UsbMux,
        t == ProtoTransport::UdpMux ==> r == Transport::UdpMux,
{
    match t {
        ProtoTransport::Usb => Transport::Usb,
        ProtoTransport::UsbMux => Transport::UsbMux,
        ProtoTransport::UdpMux => Transport::UdpMux,
    }
}

/// A version read from the wire, each part truncated to 16 bits; none means
/// `[0, 0, 0]`.
pub open spec fn spec_version_from_proto(v: Option<ProtoFirmwareVersion>) -> [u16; 3] {
    match v {
        Some(p) => [p.major as u16, p.minor as u16, p.patch as u16],
        None => [0u16, 0u16, 0u16],
    }
}

pub fn version_from_proto(v: Option<ProtoFirmwareVersion>) -> (r: [u16; 3])
    ensures
        r == spec_version_from_proto(v),
{
    match v {
        Some(p) => [p.major as u16, p.minor as u16, p.patch as u16],
        None => [0, 0, 0],
    }
}

/// A version put on the wire; `[0, 0, 0]` (unknown) is sent as none.
pub open spec fn spec_version_to_proto(v: [u16; 3]) -> Option<ProtoFirmwareVersion> {
    if v[0] == 0 && v[1] == 0 && v[2] == 0 {
        None
    } else {
        Some(ProtoFirmwareVersion { major: v[0] as u32, minor: v[1] as u32, patch: v[2] as u32 })
    }
}

pub fn version_to_proto(v: [u16; 3]) -> (r: Option<ProtoFirmwareVersion>)
    ensures
        r == spec_version_to_proto(v),
{
    if v[0] == 0 && v[1] == 0 && v[2] == 0 {
        None
    } else {
        Some(ProtoFirmwareVersion { major: v[0] as u32, minor: v[1] as u32, patch: v[2] as u32 })
    }
}

/// The UUID read from wire bytes: their first six bytes, zero-padded.
pub open spec fn spec_uuid_from_bytes(b: Seq<u8>) -> Seq<u8> {
    Seq::new(6, |i: int| if i < b.len() { b[i] } else { 0u8 })
}

pub fn uuid_from_bytes(b: &Vec<u8>) -> (r: [u8; 6])
    ensures
        r@ == spec_uuid_from_bytes(b@),
{
    let mut uuid = [0u8; 6];
    let len = if b.len() < 6 {
        b.len()
    } else {
        6
    };
    let mut i: usize = 0;
    while i < len
        invariant
            i <= len <= 6,
            len <= b@.len(),
            len == (if b@.len() < 6 { b@.len() } else { 6 }),
            uuid@.len() == 6,
            forall|j: int| 0 <= j < i ==> uuid@[j] == b@[j],
            forall|j: int| i <= j < 6 ==> uuid@[j] == 0,
        decreases len - i,
    {
        uuid[i] = b[i];
        i = i + 1;
    }
    assert(uuid@ =~= spec_uuid_from_bytes(b@));
    uuid
}

/// The wire record of a device (the name is not sent).
pub fn device_to_proto(d: &Device) -> (r: ProtoDevice)
    ensures
        r.uuid@ == d.uuid@,
        r.transport == transport_spec_to_proto(d.transport),
        r.firmware_version == spec_version_to_proto(d.firmware_version),
        r.capabilities == d.capabilities.spec_bits() as u32,
        r.events_transport == (if d.events_transport == EventsTransport::Wired {
            ProtoEventsTransport::Wired
        } else {
            ProtoEventsTransport::Bluetooth
        }),
        r.events_connected == d.events_connected,
        r.product_id == d.product_id as u32,
{
    let mut uuid: Vec<u8> = Vec::new();
    let mut i: usize = 0;
    while i < 6
        invariant
            i <= 6,
            uuid@ == d.uuid@.subrange(0, i as int),
        decreases 6 - i,
    {
        uuid.push(d.uuid[i]);
        i = i + 1;
        assert(uuid@ =~= d.uuid@.subrange(0, i as int));
    }
    assert(uuid@ =~= d.uuid@);
    ProtoDevice {
        uuid,
        transport: transport_to_proto(d.transport),
        firmware_version: version_to_proto(d.firmware_version),
        capabilities: d.capabilities.bits() as u32,
        events_transport: match d.events_transport {
            EventsTransport::Wired => ProtoEventsTransport::Wired,
            EventsTransport::Bluetooth => ProtoEventsTransport::Bluetooth,
        },
        events_connected: d.events_connected,
        product_id: d.product_id as u32,
    }
}

pub open spec fn transport_spec_to_proto(t: Transport) -> ProtoTransport {
    match t {
        Transport::Usb => ProtoTransport::Usb,
        Transport::UsbMux => ProtoTransport::UsbMux,
        Transport::UdpMux => ProtoTransport::UdpMux,
    }
}

pub open spec fn transport_spec_from_proto(t: ProtoTransport) -> Transport {
    match t {
        ProtoTransport::Usb => Transport::Usb,
        ProtoTransport::UsbMux => Transport::UsbMux,
        ProtoTransport::UdpMux => Transport::UdpMux,
    }
}

/// A device record read from the wire: the UUID from the first six bytes,
/// capabilities and product id truncated to their widths, an empty name.
pub fn device_from_proto(p: &ProtoDevice) -> (r: Device)
    ensures
        r.uuid@ == spec_uuid_from_bytes(p.uuid@),
        r.transport == transport_spec_from_proto(p.transport),
        r.capabilities.spec_bits() == p.capabilities as u8,
        r.firmware_version == spec_version_from_proto(p.firmware_version),
        r.events_transport == (if p.events_transport == ProtoEventsTransport::Wired {
            EventsTransport::Wired
        } else {
            EventsTransport::Bluetooth
        }),
        r.events_connected == p.events_connected,
        r.product_id == p.product_id as u16,
        r.name@ == Seq::new(33, |i: int| 0u8),
{
    let r = Device {
        uuid: uuid_from_bytes(&p.uuid),
        transport: transport_from_proto(p.transport),
        capabilities: DeviceCapabilities::new(p.capabilities as u8),
        firmware_version: version_from_proto(p.firmware_version),
        events_transport: match p.events_transport {
            ProtoEventsTransport::Wired => EventsTransport::Wired,
            ProtoEventsTransport::Bluetooth => EventsTransport::Bluetooth,
        },
        events_connected: p.events_connected,
        product_id: p.product_id as u16,
        name: [0u8; 33],
    };
    assert(r.name@ =~= Seq::new(33, |i: int| 0u8));
    r
}

/// A device record survives the trip over the wire, all but its name.
pub proof fn lemma_device_round_trip(d: Device, p: ProtoDevice, back: Device)
    requires
        p.uuid@ == d.uuid@,
        p.transport == transport_spec_to_proto(d.transport),
        p.firmware_version == spec_version_to_proto(d.firmware_version),
        p.capabilities == d.capabilities.spec_bits() as u32,
        p.events_transport == (if d.events_transport == EventsTransport::Wired {
            ProtoEventsTransport::Wired
        } else {
            ProtoEventsTransport::Bluetooth
        }),
        p.events_connected == d.events_connected,
        p.product_id == d.product_id as u32,
        back.uuid@ == spec_uuid_from_bytes(p.uuid@),
        back.transport == transport_spec_from_proto(p.transport),
        back.capabilities.spec_bits() == p.capabilities as u8,
        back.firmware_version == spec_version_from_proto(p.firmware_version),
        back.events_transport == (if p.events_transport == ProtoEventsTransport::Wired {
            EventsTransport::Wired
        } else {
            EventsTransport::Bluetooth
        }),
        back.events_connected == p.events_connected,
        back.product_id == p.product_id as u16,
    ensures
        back.uuid == d.uuid,
        back.transport == d.transport,
        back.capabilities.spec_bits() == d.capabilities.spec_bits(),
        back.firmware_version == d.firmware_version,
        back.events_transport == d.events_transport,
        back.events_connected == d.events_connected,
        back.product_id == d.product_id,
{
    assert(back.uuid@ =~= d.uuid@);
    assert(back.uuid == d.uuid);
    let v = d.firmware_version;
    if v[0] == 0 && v[1] == 0 && v[2] == 0 {
        assert(back.firmware_version =~= d.firmware_version);
    } else {
        assert(back.firmware_version =~= d.firmware_version);
    }
}

/// A dongle record on the wire.
#[derive(Debug, Clone, PartialEq, Eq)]
pub struct ProtoDongleInfo {
    pub id: String,
    pub protocol_version: Option<ProtoFirmwareVersion>,
    pub control_protocol_version: Option<ProtoFirmwareVersion>,
    pub firmware_version: Option<ProtoFirmwareVersion>,
    pub connected_devices: Vec<Vec<u8>>,
    pub bonded_devices: Vec<Vec<u8>>,
}

} // verus!
