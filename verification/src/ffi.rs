//! The C-ABI forms of client errors, device kinds and events.
use crate::events::{spec_vendor_buffer, vendor_buffer};
use vstd::prelude::*;

verus! {

/// Result of a client call as reported to C callers.
#[derive(Clone, Copy, Debug, PartialEq, Eq, Structural)]
pub enum ClientError {
    /// The call succeeded.
    NoError,
    NotConnected,
    StreamEnd,
    ConnectFailure,
}

/// The kind of a device as reported to C callers.
#[derive(Clone, Copy, Debug, PartialEq, Eq, Structural)]
pub enum DeviceKind {
    Udp,
    Hid,
    Cdc,
}

/// An impact reported by a device.
#[derive(Clone, Copy, Debug, PartialEq, Eq, Structural)]
pub struct ImpactEvent {
    pub timestamp: u32,
}

/// A vendor packet's payload: its length and a 98-byte buffer.
#[derive(Clone, Copy, Debug, PartialEq, Eq)]
pub struct VendorEventPacketData {
    pub len: u8,
    pub data: [u8; 98],
}

/// A packet's payload: vendor data, or a kind not passed on.
#[derive(Clone, Copy, Debug, PartialEq, Eq)]
pub enum PacketData {
    Unsupported,
    VendorEvent(VendorEventPacketData),
}

/// A packet: its type byte and payload.
#[derive(Clone, Copy, Debug, PartialEq, Eq)]
pub struct PacketEvent {
    pub ty: u8,
    pub data: PacketData,
}

impl ImpactEvent {
    pub fn from_common(e: crate::events::ImpactEvent) -> (r: Self)
        ensures
            r.timestamp == e.timestamp,
    {
        ImpactEvent { timestamp: e.timestamp }
    }
}

impl PacketData {
    /// The payload of a vendor packet whose data is `data`: copied into the
    /// 98-byte buffer, zero-padded.
    pub fn vendor(len: u8, data: &[u8]) -> (r: Self)
        requires
            data@.len() <= 98,
        ensures
            r matches PacketData::VendorEvent(v) && v.len == len && v.data@ == spec_vendor_buffer(data@),
    {
        PacketData::VendorEvent(VendorEventPacketData { len, data: vendor_buffer(data) })
    }
}

} // verus!
