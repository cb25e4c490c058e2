//! The forms of client errors, accessories and events handed to generated
//! foreign-language bindings.
use crate::accessory::AccessoryInfo as CommonAccessoryInfo;
use crate::accessory::AccessoryType as CommonAccessoryType;
use crate::accessory::{key_to_u64, spec_key_u64};
use vstd::prelude::*;

verus! {

/// Errors of a client call.
#[derive(Clone, Copy, Debug, PartialEq, Eq, Structural)]
pub enum ClientError {
    NotConnected,
    StreamEnd,
}

impl ClientError {
    /// The message of the error.
    pub fn message(&self) -> (r: &'static str)
        ensures
            *self == ClientError::NotConnected ==> r@ == "Not connected to the server"@,
            *self == ClientError::StreamEnd ==> r@ == "Stream ended unexpectedly"@,
    {
        match self {
            ClientError::NotConnected => "Not connected to the server",
            ClientError::StreamEnd => "Stream ended unexpectedly",
        }
    }
}

/// What happened to an accessory: it connected (with its assignment), it
/// disconnected, or its assignment changed.
#[derive(Clone, Copy, Debug, PartialEq, Eq, Structural)]
pub enum AccessoryEventKind {
    Connect(Option<u64>),
    Disconnect,
    AssignmentChange(Option<u64>),
}

/// Accessory kinds known to the bindings.
#[derive(Clone, Copy, Debug, PartialEq, Eq, Structural)]
pub enum AccessoryType {
    DryFireMag,
}

/// The bindings' kind of an accessory kind: every kind is shown as a dry-fire
/// magazine.
pub fn accessory_type_from_common(t: CommonAccessoryType) -> (r: AccessoryType)
    ensures
        r == AccessoryType::DryFireMag,
{
    match t {
        CommonAccessoryType::DryFireMag => AccessoryType::DryFireMag,
        CommonAccessoryType::BlackbeardX => AccessoryType::DryFireMag,
    }
}

pub fn accessory_type_to_common(t: AccessoryType) -> (r: CommonAccessoryType)
    ensures
        r == CommonAccessoryType::DryFireMag,
{
    match t {
        AccessoryType::DryFireMag => CommonAccessoryType::DryFireMag,
    }
}

/// An impact reported by a device.
#[derive(Clone, Copy, Debug, PartialEq, Eq, Structural)]
pub struct ImpactEvent {
    pub timestamp: u32,
}

/// A vendor packet's payload: its length and the whole 98-byte buffer.
#[derive(Clone, Debug, PartialEq, Eq)]
pub struct VendorEventPacketData {
    pub len: u8,
    pub data: Vec<u8>,
}

/// A packet's payload: vendor data, or a kind not passed on.
#[derive(Clone, Debug, PartialEq, Eq)]
pub enum PacketData {
    Unsupported,
    VendorEvent(VendorEventPacketData),
}

/// A packet: its type byte and payload.
#[derive(Clone, Debug, PartialEq, Eq)]
pub struct PacketEvent {
    pub ty: u8,
    pub data: PacketData,
}

impl PacketData {
    /// The payload of a vendor packet: its length and all 98 buffer bytes.
    pub fn vendor(len: u8, data: &[u8; 98]) -> (r: Self)
        ensures
            r matches PacketData::VendorEvent(v) && v.len == len && v.data@ == data@,
    {
        let mut out: Vec<u8> = Vec::new();
        let mut i: usize = 0;
        while i < 98
            invariant
                i <= 98,
                data@.len() == 98,
                out@ == data@.take(i as int),
            decreases 98 - i,
        {
            out.push(data[i]);
            i = i + 1;
            assert(out@ =~= data@.take(i as int));
        }
        assert(out@ =~= data@);
        PacketData::VendorEvent(VendorEventPacketData { len, data: out })
    }
}

/// An accessory as bindings see it: name, kind and assigned device id.
#[derive(Clone, Debug, PartialEq, Eq)]
pub struct AccessoryInfo {
    pub name: String,
    pub ty: AccessoryType,
    pub assignment: Option<u64>,
}

/// An accessory with its connection flag.
#[derive(Clone, Debug, PartialEq, Eq)]
pub struct AccessoryStatus {
    pub info: AccessoryInfo,
    pub connected: bool,
}

/// One entry of the accessory status map, keyed by the packed address.
#[derive(Clone, Debug, PartialEq, Eq)]
pub struct AccessoryMapEntry {
    pub key: u64,
    pub status: AccessoryStatus,
}

/// One entry of the accessory settings map, keyed by the packed address.
#[derive(Clone, Debug, PartialEq, Eq)]
pub struct AccessoryInfoMapEntry {
    pub key: u64,
    pub info: AccessoryInfo,
}

/// The bindings' form of an accessory: features are not passed on.
pub fn accessory_info_from_common(info: CommonAccessoryInfo) -> (r: AccessoryInfo)
    ensures
        r.name@ == info.name@,
        r.ty == AccessoryType::DryFireMag,
        r.assignment == info.assignment,
{
    AccessoryInfo { name: info.name, ty: accessory_type_from_common(info.ty), assignment: info.assignment }
}

/// An assignment from the bindings: zero means none.
pub open spec fn spec_assignment_to_common(a: Option<u64>) -> Option<u64> {
    match a {
        Some(v) => if v != 0 {
            Some(v)
        } else {
            None::<u64>
        },
        None => None::<u64>,
    }
}

/// An accessory from the bindings: the kind's default features, and no
/// assignment where the id is zero.
pub fn accessory_info_to_common(info: AccessoryInfo) -> (r: CommonAccessoryInfo)
    ensures
        r.wf(),
        r.name@ == info.name@,
        r.ty == CommonAccessoryType::DryFireMag,
        r.assignment == spec_assignment_to_common(info.assignment),
        r.features@ == CommonAccessoryInfo::default_features(r.ty),
{
    let ty = accessory_type_to_common(info.ty);
    let mut r = CommonAccessoryInfo::with_defaults(info.name, ty);
    r.assignment = match info.assignment {
        Some(v) => if v != 0 {
            Some(v)
        } else {
            None
        },
        None => None,
    };
    r
}

/// The status map as bindings receive it: one entry per accessory, keyed by
/// its address packed into a `u64`, in order.
pub fn accessory_map_entries(map: Vec<([u8; 6], (CommonAccessoryInfo, bool))>) -> (r: Vec<AccessoryMapEntry>)
    ensures
        r@.len() == map@.len(),
        forall|i: int|
            0 <= i < map@.len() ==> {
                let e = #[trigger] r@[i];
                &&& e.key == spec_key_u64(map@[i].0)
                &&& e.status.connected == map@[i].1.1
                &&& e.status.info.name@ == map@[i].1.0.name@
                &&& e.status.info.ty == AccessoryType::DryFireMag
                &&& e.status.info.assignment == map@[i].1.0.assignment
            },
{
    let ghost all = map@;
    let mut rest = map;
    let mut out: Vec<AccessoryMapEntry> = Vec::new();
    while rest.len() > 0
        invariant
            rest@.len() <= all.len(),
            rest@ == all.skip(all.len() - rest@.len()),
            out@.len() == all.len() - rest@.len(),
            forall|i: int|
                0 <= i < out@.len() ==> {
                    let e = #[trigger] out@[i];
                    &&& e.key == spec_key_u64(all[i].0)
                    &&& e.status.connected == all[i].1.1
                    &&& e.status.info.name@ == all[i].1.0.name@
                    &&& e.status.info.ty == AccessoryType::DryFireMag
                    &&& e.status.info.assignment == all[i].1.0.assignment
                },
        decreases rest@.len(),
    {
        let ghost k = all.len() - rest@.len();
        let (key, (info, connected)) = rest.remove(0);
        proof {
            assert(all[k] == all.skip(k)[0]);
            assert(rest@ =~= all.skip(k + 1));
        }
        out.push(
            AccessoryMapEntry {
                key: key_to_u64(key),
                status: AccessoryStatus { info: accessory_info_from_common(info), connected },
            },
        );
    }
    out
}

/// The settings map as bindings receive it, keyed like the status map.
pub fn accessory_info_map_entries(map: Vec<([u8; 6], CommonAccessoryInfo)>) -> (r: Vec<AccessoryInfoMapEntry>)
    ensures
        r@.len() == map@.len(),
        forall|i: int|
            0 <= i < map@.len() ==> {
                let e = #[trigger] r@[i];
                &&& e.key == spec_key_u64(map@[i].0)
                &&& e.info.name@ == map@[i].1.name@
                &&& e.info.ty == AccessoryType::DryFireMag
                &&& e.info.assignment == map@[i].1.assignment
            },
{
    let ghost all = map@;
    let mut rest = map;
    let mut out: Vec<AccessoryInfoMapEntry> = Vec::new();
    while rest.len() > 0
        invariant
            rest@.len() <= all.len(),
            rest@ == all.skip(all.len() - rest@.len()),
            out@.len() == all.len() - rest@.len(),
            forall|i: int|
                0 <= i < out@.len() ==> {
                    let e = #[trigger] out@[i];
                    &&& e.key == spec_key_u64(all[i].0)
                    &&& e.info.name@ == all[i].1.name@
                    &&& e.info.ty == AccessoryType::DryFireMag
                    &&& e.info.assignment == all[i].1.assignment
                },
        decreases rest@.len(),
    {
        let ghost k = all.len() - rest@.len();
        let (key, info) = rest.remove(0);
        proof {
            assert(all[k] == all.skip(k)[0]);
            assert(rest@ =~= all.skip(k + 1));
        }
        out.push(AccessoryInfoMapEntry { key: key_to_u64(key), info: accessory_info_from_common(info) });
    }
    out
}

/// A valid accessory's assignment survives the trip to the bindings and
/// back (its name is kept both ways; its kind comes back as a magazine).
pub proof fn lemma_accessory_assignment_round_trip(info: CommonAccessoryInfo)
    requires
        info.wf(),
    ensures
        spec_assignment_to_common(info.assignment) == info.assignment,
{
}

} // verus!
