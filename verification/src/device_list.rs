//! The lists of connected devices kept by the hub server and by the desktop
//! prototype, and how connect and disconnect messages change them.
use crate::accessory_link::uuid_equal;
use crate::device::Device;
use crate::seqs::{first_index, is_first, lemma_first_index_none, lemma_first_index_some};
use vstd::prelude::*;

verus! {

/// The entry is the one of the device with this UUID (devices are equal
/// when their UUIDs are).
pub open spec fn entry_is<C>(uuid: Seq<u8>) -> spec_fn((Device, C)) -> bool {
    |e: (Device, C)| e.0.uuid@ == uuid
}

/// What a disconnect of the device with `uuid` leaves of `list`: its first
/// entry is removed; the list is unchanged when it has none.
pub open spec fn spec_after_disconnect<C>(list: Seq<(Device, C)>, uuid: Seq<u8>) -> Seq<(Device, C)> {
    match first_index(list, entry_is::<C>(uuid)) {
        Some(i) => list.remove(i),
        None => list,
    }
}

/// A device connected: its entry, with the channels that reach it, is
/// appended to the server's device list.
pub fn device_list_connect<C>(list: &mut Vec<(Device, C)>, device: Device, channels: C)
    ensures
        final(list)@ == old(list)@.push((device, channels)),
{
    list.push((device, channels));
}

/// A device disconnected: the first entry of the server's device list that
/// equals it is removed.
pub fn device_list_disconnect<C>(list: &mut Vec<(Device, C)>, device: &Device)
    ensures
        final(list)@ == spec_after_disconnect(old(list)@, device.uuid@),
{
    let ghost p = entry_is::<C>(device.uuid@);
    let mut i: usize = 0;
    let mut found: bool = false;
    while i < list.len()
        invariant_except_break
            i <= list@.len(),
            !found,
            forall|j: int| 0 <= j < i ==> !p(#[trigger] list@[j]),
        invariant
            p == entry_is::<C>(device.uuid@),
        ensures
            found ==> is_first(list@, p, i as int),
            !found ==> forall|j: int| 0 <= j < list@.len() ==> !p(#[trigger] list@[j]),
        decreases list@.len() - i,
    {
        if uuid_equal(&list[i].0.uuid, &device.uuid) {
            found = true;
            break;
        }
        i = i + 1;
    }
    if found {
        proof {
            lemma_first_index_some(list@, p, i as int);
        }
        list.remove(i);
    } else {
        proof {
            lemma_first_index_none(list@, p);
        }
    }
}

/// A socket address as plain values: an IPv4 address and port, or an IPv6
/// address, port, flow info and scope id. Two addresses are equal when all
/// their fields are, as for `std::net::SocketAddr`.
#[derive(Clone, Copy, Debug, PartialEq, Eq, Structural)]
pub enum PeerAddr {
    V4 { ip: u32, port: u16 },
    V6 { ip: u128, port: u16, flowinfo: u32, scope_id: u32 },
}

/// A device answered the discovery ping, or stopped answering it.
#[derive(Clone, Copy, Debug, PartialEq, Eq, Structural)]
pub enum PeerMessage {
    Connect(PeerAddr),
    Disconnect(PeerAddr),
}

/// The addresses of the devices that answer, in the order they appeared.
pub struct Counter {
    pub device_list: Vec<PeerAddr>,
}

/// The address is `a`.
pub open spec fn is_addr(a: PeerAddr) -> spec_fn(PeerAddr) -> bool {
    |x: PeerAddr| x == a
}

/// Position of the first occurrence of `a` in `list`, if any.
pub open spec fn spec_position(list: Seq<PeerAddr>, a: PeerAddr) -> Option<int> {
    first_index(list, is_addr(a))
}

/// What a message makes of the address list: a connect appends the address;
/// a disconnect removes its first occurrence, if there is one.
pub open spec fn spec_counter_update(list: Seq<PeerAddr>, message: PeerMessage) -> Seq<PeerAddr> {
    match message {
        PeerMessage::Connect(a) => list.push(a),
        PeerMessage::Disconnect(a) => match spec_position(list, a) {
            Some(i) => list.remove(i),
            None => list,
        },
    }
}

/// Removes the first occurrence of `a` from `list`, if there is one.
fn remove_first_peer(list: &mut Vec<PeerAddr>, a: PeerAddr)
    ensures
        final(list)@ == match spec_position(old(list)@, a) {
            Some(i) => old(list)@.remove(i),
            None => old(list)@,
        },
{
    let ghost p = is_addr(a);
    let mut i: usize = 0;
    let mut found: bool = false;
    while i < list.len()
        invariant_except_break
            i <= list@.len(),
            !found,
            forall|j: int| 0 <= j < i ==> !p(#[trigger] list@[j]),
        invariant
            p == is_addr(a),
        ensures
            found ==> is_first(list@, p, i as int),
            !found ==> forall|j: int| 0 <= j < list@.len() ==> !p(#[trigger] list@[j]),
        decreases list@.len() - i,
    {
        if list[i] == a {
            found = true;
            break;
        }
        i = i + 1;
    }
    if found {
        proof {
            lemma_first_index_some(list@, p, i as int);
        }
        list.remove(i);
    } else {
        proof {
            lemma_first_index_none(list@, p);
        }
    }
}

impl Counter {
    /// No device answers yet.
    pub fn new() -> (r: Self)
        ensures
            r.device_list@ == Seq::<PeerAddr>::empty(),
    {
        Counter { device_list: Vec::new() }
    }

    /// Applies a connect or disconnect message to the address list.
    pub fn update(&mut self, message: PeerMessage)
        ensures
            final(self).device_list@ == spec_counter_update(old(self).device_list@, message),
    {
        match message {
            PeerMessage::Connect(a) => self.device_list.push(a),
            PeerMessage::Disconnect(a) => remove_first_peer(&mut self.device_list, a),
        }
    }
}

} // verus!
