//! Dongles (Bluetooth multiplexers): their record and how it is read from
//! the wire.
use crate::interface::{spec_version_from_proto, version_from_proto, ProtoDongleInfo};
use vstd::prelude::*;

verus! {

/// Dongle metadata returned by the dongle list subscription.
#[derive(Clone, Debug, PartialEq, Eq)]
pub struct DongleInfo {
    /// USB serial number
    pub id: String,
    /// mux endpoint protocol version
    pub protocol_version: [u16; 3],
    /// control endpoint protocol version
    pub control_protocol_version: [u16; 3],
    pub firmware_version: [u16; 3],
    /// BLE addresses of connected ATS devices
    pub connected_devices: Vec<[u8; 6]>,
    /// BLE addresses of bonded ATS devices
    pub bonded_devices: Vec<[u8; 6]>,
}

/// The addresses among the wire byte strings: those of exactly six bytes,
/// in order.
pub open spec fn spec_addresses(bs: Seq<Vec<u8>>) -> Seq<Seq<u8>>
    decreases bs.len(),
{
    if bs.len() == 0 {
        Seq::empty()
    } else if bs.last()@.len() == 6 {
        spec_addresses(bs.drop_last()).push(bs.last()@)
    } else {
        spec_addresses(bs.drop_last())
    }
}

/// The views of a list of addresses.
pub open spec fn address_views(v: Seq<[u8; 6]>) -> Seq<Seq<u8>> {
    v.map_values(|a: [u8; 6]| a@)
}

fn address_of(b: &Vec<u8>) -> (r: [u8; 6])
    requires
        b@.len() == 6,
    ensures
        r@ == b@,
{
    let r = [b[0], b[1], b[2], b[3], b[4], b[5]];
    assert(r@ =~= b@);
    r
}

/// Keeps the byte strings of exactly six bytes, as addresses, in order.
pub fn addresses_from_bytes(bs: &Vec<Vec<u8>>) -> (r: Vec<[u8; 6]>)
    ensures
        address_views(r@) == spec_addresses(bs@),
{
    let mut out: Vec<[u8; 6]> = Vec::new();
    let mut i: usize = 0;
    while i < bs.len()
        invariant
            i <= bs@.len(),
            address_views(out@) == spec_addresses(bs@.subrange(0, i as int)),
        decreases bs@.len() - i,
    {
        let ghost pre = out@;
        assert(bs@.subrange(0, i + 1).drop_last() =~= bs@.subrange(0, i as int));
        if bs[i].len() == 6 {
            let a = address_of(&bs[i]);
            out.push(a);
            assert(address_views(out@) =~= address_views(pre).push(a@));
        }
        i = i + 1;
    }
    assert(bs@.subrange(0, i as int) =~= bs@);
    out
}

impl DongleInfo {
    /// The dongle record read from the wire: versions default to `[0, 0, 0]`
    /// and are truncated to 16 bits; only six-byte addresses are kept.
    pub fn from_proto(d: &ProtoDongleInfo) -> (r: DongleInfo)
        ensures
            r.id@ == d.id@,
            r.protocol_version == spec_version_from_proto(d.protocol_version),
            r.control_protocol_version == spec_version_from_proto(d.control_protocol_version),
            r.firmware_version == spec_version_from_proto(d.firmware_version),
            address_views(r.connected_devices@) == spec_addresses(d.connected_devices@),
            address_views(r.bonded_devices@) == spec_addresses(d.bonded_devices@),
    {
        DongleInfo {
            id: d.id.clone(),
            protocol_version: version_from_proto(d.protocol_version),
            control_protocol_version: version_from_proto(d.control_protocol_version),
            firmware_version: version_from_proto(d.firmware_version),
            connected_devices: addresses_from_bytes(&d.connected_devices),
            bonded_devices: addresses_from_bytes(&d.bonded_devices),
        }
    }
}

} // verus!
