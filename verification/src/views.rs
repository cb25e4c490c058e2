//! Text shown by the desktop views: a device's UUID and product name on the
//! pairing page, and the color of an accessory's slot.
use crate::device::{product_name, spec_product_name, Device, EventsTransport, Transport, CONTROL};
use crate::decimal::{push_decimal, spec_decimal};
use crate::text::{push_byte_hex, spec_byte_hex_upper};
use crate::version::{semver_at_least, spec_version_gt};
use vstd::prelude::*;
use vstd::string::StringExecFns;

verus! {

/// `"{:02X}:{:02X}:...:{:02X}"` of the six UUID bytes.
pub open spec fn spec_format_uuid(u: Seq<u8>) -> Seq<char> {
    spec_byte_hex_upper(u[0]) + ":"@ + spec_byte_hex_upper(u[1]) + ":"@ + spec_byte_hex_upper(u[2])
        + ":"@ + spec_byte_hex_upper(u[3]) + ":"@ + spec_byte_hex_upper(u[4]) + ":"@
        + spec_byte_hex_upper(u[5])
}

/// A UUID as upper-case hex bytes separated by colons, e.g. `"AA:BB:CC:DD:EE:FF"`.
pub fn format_uuid(uuid: &[u8; 6]) -> (r: String)
    ensures
        r@ == spec_format_uuid(uuid@),
{
    let mut s = String::from_str("");
    proof {
        reveal_strlit("");
    }
    push_byte_hex(&mut s, uuid[0], true);
    s.append(":");
    push_byte_hex(&mut s, uuid[1], true);
    s.append(":");
    push_byte_hex(&mut s, uuid[2], true);
    s.append(":");
    push_byte_hex(&mut s, uuid[3], true);
    s.append(":");
    push_byte_hex(&mut s, uuid[4], true);
    s.append(":");
    push_byte_hex(&mut s, uuid[5], true);
    assert(s@ =~= spec_format_uuid(uuid@));
    s
}

/// Product name of a device, as the pairing page shows it.
pub fn device_name(device: &Device) -> (r: String)
    ensures
        r@ == spec_product_name(device.product_id),
{
    String::from_str(product_name(device.product_id))
}

/// CSS class of the color dot of accessory slot `slot` (gray past the sixth).
pub open spec fn spec_slot_color_dot(slot: int) -> Seq<char> {
    if slot == 0 {
        "bg-red-500"@
    } else if slot == 1 {
        "bg-blue-500"@
    } else if slot == 2 {
        "bg-yellow-400"@
    } else if slot == 3 {
        "bg-green-500"@
    } else if slot == 4 {
        "bg-orange-500"@
    } else {
        "bg-gray-400"@
    }
}

pub fn slot_color_dot(slot: usize) -> (r: &'static str)
    ensures
        r@ == spec_slot_color_dot(slot as int),
{
    if slot == 0 {
        "bg-red-500"
    } else if slot == 1 {
        "bg-blue-500"
    } else if slot == 2 {
        "bg-yellow-400"
    } else if slot == 3 {
        "bg-green-500"
    } else if slot == 4 {
        "bg-orange-500"
    } else {
        "bg-gray-400"
    }
}

/// The first five slots each have a color of their own, and every later
/// slot shares the gray that none of the first five uses.
pub proof fn lemma_slot_colors_distinct(a: int, b: int)
    requires
        0 <= a,
        0 <= b,
    ensures
        a != b && a < 5 && b < 5 ==> spec_slot_color_dot(a) != spec_slot_color_dot(b),
        a >= 5 && b >= 5 ==> spec_slot_color_dot(a) == spec_slot_color_dot(b),
        a < 5 && b >= 5 ==> spec_slot_color_dot(a) != spec_slot_color_dot(b),
{
    reveal_strlit("bg-red-500");
    reveal_strlit("bg-blue-500");
    reveal_strlit("bg-yellow-400");
    reveal_strlit("bg-green-500");
    reveal_strlit("bg-orange-500");
    reveal_strlit("bg-gray-400");
    let x = spec_slot_color_dot(a);
    let y = spec_slot_color_dot(b);
    if a < 5 && (b < 5 && a != b || b >= 5) && x.len() == y.len() {
        assert(x[3] != y[3] || x[4] != y[4] || x[7] != y[7]);
    }
}


/// How a device is connected, as the home page shows it: the transport,
/// and where the other half of a split connection goes.
pub open spec fn spec_transport_label(d: Device) -> Seq<char> {
    let base = match d.transport {
        Transport::Usb => "USB"@,
        Transport::UsbMux => "BLE"@,
        Transport::UdpMux => "UDP"@,
    };
    let suffix = if d.transport == Transport::Usb && d.events_transport == EventsTransport::Bluetooth {
        " (BLE events)"@
    } else if d.transport == Transport::UsbMux && d.capabilities.spec_contains(CONTROL) {
        " (USB control)"@
    } else {
        ""@
    };
    base + suffix
}

pub fn transport_label(device: &Device) -> (r: String)
    ensures
        r@ == spec_transport_label(*device),
{
    let mut s = match device.transport {
        Transport::Usb => String::from_str("USB"),
        Transport::UsbMux => String::from_str("BLE"),
        Transport::UdpMux => String::from_str("UDP"),
    };
    let bluetooth_events = match device.events_transport {
        EventsTransport::Bluetooth => true,
        EventsTransport::Wired => false,
    };
    let usb = match device.transport {
        Transport::Usb => true,
        _ => false,
    };
    let mux = match device.transport {
        Transport::UsbMux => true,
        _ => false,
    };
    if usb && bluetooth_events {
        s.append(" (BLE events)");
    } else if mux && device.capabilities.contains(CONTROL) {
        s.append(" (USB control)");
    } else {
        proof {
            reveal_strlit("");
            assert(s@ + ""@ =~= s@);
        }
    }
    s
}

/// Devices being updated that the device list no longer shows (while they
/// reboot), in order.
pub open spec fn spec_updating_not_listed(updating: Seq<[u8; 6]>, devices: Seq<Device>) -> Seq<[u8; 6]>
    decreases updating.len(),
{
    if updating.len() == 0 {
        updating
    } else {
        let rest = spec_updating_not_listed(updating.drop_last(), devices);
        if exists|j: int| 0 <= j < devices.len() && devices[j].uuid@ == updating.last()@ {
            rest
        } else {
            rest.push(updating.last())
        }
    }
}

pub fn updating_not_listed(updating: &Vec<[u8; 6]>, devices: &Vec<Device>) -> (r: Vec<[u8; 6]>)
    ensures
        r@ == spec_updating_not_listed(updating@, devices@),
{
    let mut r: Vec<[u8; 6]> = Vec::new();
    let mut i: usize = 0;
    while i < updating.len()
        invariant
            i <= updating@.len(),
            r@ == spec_updating_not_listed(updating@.take(i as int), devices@),
        decreases updating@.len() - i,
    {
        let u = updating[i];
        let mut listed = false;
        let mut j: usize = 0;
        while j < devices.len()
            invariant
                j <= devices@.len(),
                listed <==> exists|k: int| 0 <= k < j && devices@[k].uuid@ == u@,
            decreases devices@.len() - j,
        {
            if crate::accessory_link::uuid_equal(&devices[j].uuid, &u) {
                listed = true;
            }
            j = j + 1;
        }
        proof {
            assert(updating@.take(i + 1).drop_last() =~= updating@.take(i as int));
            assert(updating@.take(i + 1).last() == u);
        }
        if !listed {
            r.push(u);
        }
        i = i + 1;
    }
    assert(updating@.take(updating@.len() as int) =~= updating@);
    r
}

/// Firmware shown after a dongle's id: nothing when unknown (0.0.0),
/// otherwise `" (fw x.y.z)"`.
pub open spec fn spec_firmware_suffix(fw: [u16; 3]) -> Seq<char> {
    if fw[0] == 0 && fw[1] == 0 && fw[2] == 0 {
        Seq::empty()
    } else {
        " (fw "@ + spec_decimal(fw[0] as nat) + "."@ + spec_decimal(fw[1] as nat) + "."@ + spec_decimal(
            fw[2] as nat,
        ) + ")"@
    }
}

pub fn firmware_suffix(fw: [u16; 3]) -> (r: String)
    ensures
        r@ == spec_firmware_suffix(fw),
{
    proof {
        reveal_strlit("");
    }
    if fw[0] == 0 && fw[1] == 0 && fw[2] == 0 {
        return String::from_str("");
    }
    let mut s = String::from_str(" (fw ");
    push_decimal(&mut s, fw[0] as u64);
    s.append(".");
    push_decimal(&mut s, fw[1] as u64);
    s.append(".");
    push_decimal(&mut s, fw[2] as u64);
    s.append(")");
    s
}

/// Whether a dongle lists its bonds (control protocol 0.1.1 and later) or
/// only its connected devices, and the heading of that list.
pub fn dongle_list_kind(control_protocol_version: [u16; 3]) -> (r: (bool, &'static str))
    ensures
        r.0 == !spec_version_gt([0u16, 1, 1], control_protocol_version),
        r.0 ==> r.1@ == "Bonds"@,
        !r.0 ==> r.1@ == "Connected"@,
{
    let show_bonds = semver_at_least(control_protocol_version, [0, 1, 1]);
    if show_bonds {
        (true, "Bonds")
    } else {
        (false, "Connected")
    }
}

/// Status line after a dongle reports the outcome of pairing: the paired
/// address, or the error it gave.
pub open spec fn spec_pairing_status(success: bool, paired_address: [u8; 6], error: Seq<char>) -> Seq<char> {
    if success {
        "Paired with "@ + spec_format_uuid(paired_address@)
    } else {
        error
    }
}

pub fn pairing_result_status(success: bool, paired_address: &[u8; 6], error: &String) -> (r: String)
    ensures
        r@ == spec_pairing_status(success, *paired_address, error@),
{
    if success {
        let mut s = String::from_str("Paired with ");
        let a = format_uuid(paired_address);
        s.append(a.as_str());
        s
    } else {
        error.clone()
    }
}

/// Color dot of a listed dongle address: green when it is connected.
pub fn address_dot_class(connected: &Vec<[u8; 6]>, addr: &[u8; 6]) -> (r: &'static str)
    ensures
        (exists|i: int| 0 <= i < connected@.len() && connected@[i]@ == addr@) ==> r@
            == "inline-block w-2 h-2 rounded-full bg-green-500"@,
        !(exists|i: int| 0 <= i < connected@.len() && connected@[i]@ == addr@) ==> r@
            == "inline-block w-2 h-2 rounded-full bg-red-500"@,
{
    let mut i: usize = 0;
    while i < connected.len()
        invariant
            i <= connected@.len(),
            forall|j: int| 0 <= j < i ==> connected@[j]@ != addr@,
        decreases connected@.len() - i,
    {
        if crate::accessory_link::uuid_equal(&connected[i], addr) {
            return "inline-block w-2 h-2 rounded-full bg-green-500";
        }
        i = i + 1;
    }
    "inline-block w-2 h-2 rounded-full bg-red-500"
}

} // verus!
