//! Shot delays kept by the server per device: the live value set by
//! clients, falling back to the saved configuration, then to none.
use crate::hexkeymap::HexKeyMapN;
use vstd::prelude::*;

verus! {

/// Delay, in milliseconds, of a device without one: no delay.
pub const DEFAULT_SHOT_DELAY_MS: u16 = 0;

/// Delay of `uuid` in a map, if it has one.
pub open spec fn delay_in(m: Map<Seq<u8>, u16>, uuid: Seq<u8>) -> Option<u16> {
    if m.dom().contains(uuid) {
        Some(m[uuid])
    } else {
        None
    }
}

/// The delay in force for a device: the live one, else the saved one
/// (`saved` is `None` when the saved delays could not be loaded), else none.
pub open spec fn spec_shot_delay(live: Map<Seq<u8>, u16>, saved: Option<Map<Seq<u8>, u16>>, uuid: Seq<u8>) -> u16 {
    match delay_in(live, uuid) {
        Some(v) => v,
        None => match saved {
            Some(m) => match delay_in(m, uuid) {
                Some(v) => v,
                None => DEFAULT_SHOT_DELAY_MS,
            },
            None => DEFAULT_SHOT_DELAY_MS,
        },
    }
}

pub fn get_or_default_shot_delay(live: &HexKeyMapN<u16, 6>, saved: Option<&HexKeyMapN<u16, 6>>, uuid: &[u8; 6]) -> (r: u16)
    requires
        live.wf(),
        saved matches Some(m) ==> m.wf(),
    ensures
        r == spec_shot_delay(
            live.spec_map(),
            match saved {
                Some(m) => Some(m.spec_map()),
                None => None,
            },
            uuid@,
        ),
{
    if let Some(v) = live.get(uuid) {
        return *v;
    }
    match saved {
        Some(m) => match m.get(uuid) {
            Some(v) => *v,
            None => DEFAULT_SHOT_DELAY_MS,
        },
        None => DEFAULT_SHOT_DELAY_MS,
    }
}

/// The delay a request asks for: its low 16 bits (`delay_ms as u16`).
pub fn shot_delay_from_request(delay_ms: u32) -> (r: u16)
    ensures
        r == delay_ms % 65536,
{
    (delay_ms % 65536) as u16
}

/// Sets the live delay of a device, as setting or resetting it does
/// (resetting sets `DEFAULT_SHOT_DELAY_MS`); the value is then in force.
pub fn set_shot_delay_live(live: &mut HexKeyMapN<u16, 6>, uuid: [u8; 6], ms: u16)
    requires
        old(live).wf(),
    ensures
        final(live).wf(),
        final(live).spec_map() == old(live).spec_map().insert(uuid@, ms),
{
    live.insert(uuid, ms);
}

/// After a device's live delay is set, that delay is in force for it,
/// whatever was saved, and other devices keep theirs.
pub proof fn lemma_set_delay_in_force(
    live: Map<Seq<u8>, u16>,
    saved: Option<Map<Seq<u8>, u16>>,
    uuid: Seq<u8>,
    other: Seq<u8>,
    ms: u16,
)
    requires
        other != uuid,
    ensures
        spec_shot_delay(live.insert(uuid, ms), saved, uuid) == ms,
        spec_shot_delay(live.insert(uuid, ms), saved, other) == spec_shot_delay(live, saved, other),
{
}

} // verus!
