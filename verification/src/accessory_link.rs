//! Decisions of the accessory manager: which BLE characteristic carries an
//! accessory's shots and which notifications are shots, the connection
//! status kept for each configured accessory across configuration changes
//! and scans, and the device a shot is forwarded to.
use crate::accessory::{key_from_u64, AccessoryInfo, AccessoryType};
use crate::device::Device;
use crate::hexkeymap::{distinct_keys, HexKeyMapN};
use vstd::prelude::*;
use vstd::string::StringExecFns;

verus! {

/// Nordic UART TX characteristic, on which dry-fire magazines notify.
pub const NUS_TX_UUID: u128 = 0x6e400003_b5a3_f393_e0a9_e50e24dcca9e;

/// Shot characteristic of the second accessory kind.
pub const MANTIS_SHOT_CHAR_UUID: u128 = 0x6e40000e_204d_616e_7469_732054656368;

pub open spec fn spec_shot_characteristic(ty: AccessoryType) -> u128 {
    match ty {
        AccessoryType::DryFireMag => NUS_TX_UUID,
        AccessoryType::BlackbeardX => MANTIS_SHOT_CHAR_UUID,
    }
}

/// The characteristic subscribed to for an accessory kind.
pub fn shot_characteristic(ty: AccessoryType) -> (r: u128)
    ensures
        r == spec_shot_characteristic(ty),
{
    match ty {
        AccessoryType::DryFireMag => NUS_TX_UUID,
        AccessoryType::BlackbeardX => MANTIS_SHOT_CHAR_UUID,
    }
}

/// The two accessory kinds listen on different characteristics, so a
/// notification is a shot for at most one kind; and every notification on a
/// magazine's characteristic is a shot, whatever it holds.
pub proof fn lemma_shot_characteristics_distinct(a: AccessoryType, b: AccessoryType, c: u128, v: Seq<u8>)
    ensures
        a != b ==> spec_shot_characteristic(a) != spec_shot_characteristic(b),
        a != b ==> !(spec_is_shot(a, c, v) && spec_is_shot(b, c, v)),
        spec_is_shot(a, c, v) ==> c == spec_shot_characteristic(a),
        spec_is_shot(AccessoryType::DryFireMag, spec_shot_characteristic(AccessoryType::DryFireMag), v),
{
}


/// A notification is a shot when it comes on the kind's characteristic and,
/// for the second kind, is the single byte 0x01 (every magazine
/// notification is a shot).
pub open spec fn spec_is_shot(ty: AccessoryType, characteristic: u128, value: Seq<u8>) -> bool {
    characteristic == spec_shot_characteristic(ty) && match ty {
        AccessoryType::DryFireMag => true,
        AccessoryType::BlackbeardX => value.len() == 1 && value[0] == 0x01,
    }
}

pub fn is_shot_notification(ty: AccessoryType, characteristic: u128, value: &[u8]) -> (r: bool)
    ensures
        r == spec_is_shot(ty, characteristic, value@),
{
    if characteristic != shot_characteristic(ty) {
        return false;
    }
    match ty {
        AccessoryType::DryFireMag => true,
        AccessoryType::BlackbeardX => value.len() == 1 && value[0] == 0x01,
    }
}

/// Key bytes of the configured accessory addresses.
pub open spec fn id_set(ids: Seq<[u8; 6]>) -> Set<Seq<u8>> {
    Set::new(|k: Seq<u8>| exists|i: int| 0 <= i < ids.len() && ids[i]@ == k)
}

/// Status of `k` in `statuses`: its entry, or not connected.
pub open spec fn status_of(statuses: Map<Seq<u8>, bool>, k: Seq<u8>) -> bool {
    if statuses.dom().contains(k) {
        statuses[k]
    } else {
        false
    }
}

/// Statuses after the configuration changed to the accessories `ids`:
/// accessories no longer configured are dropped, new ones start as not
/// connected, the others keep their status.
pub fn reconcile_statuses(statuses: &HexKeyMapN<bool, 6>, ids: &Vec<[u8; 6]>) -> (r: HexKeyMapN<bool, 6>)
    requires
        statuses.wf(),
    ensures
        r.wf(),
        r.spec_map().dom() == id_set(ids@),
        forall|k: Seq<u8>| #[trigger] r.spec_map().dom().contains(k) ==> r.spec_map()[k] == status_of(statuses.spec_map(), k),
{
    let mut out: HexKeyMapN<bool, 6> = HexKeyMapN::new();
    let mut i: usize = 0;
    while i < ids.len()
        invariant
            statuses.wf(),
            out.wf(),
            i <= ids@.len(),
            out.spec_map().dom() == id_set(ids@.take(i as int)),
            forall|k: Seq<u8>| #[trigger] out.spec_map().dom().contains(k) ==> out.spec_map()[k] == status_of(statuses.spec_map(), k),
        decreases ids@.len() - i,
    {
        let id = ids[i];
        let connected = match statuses.get(&id) {
            Some(c) => *c,
            None => false,
        };
        out.insert(id, connected);
        i = i + 1;
        proof {
            let t = ids@.take(i as int);
            let p = ids@.take(i - 1);
            assert forall|k: Seq<u8>| id_set(t).contains(k) <==> id_set(p).insert(id@).contains(k) by {
                if id_set(t).contains(k) {
                    let j = choose|j: int| 0 <= j < t.len() && t[j]@ == k;
                    if j < i - 1 {
                        assert(p[j] == t[j]);
                    }
                }
                if id_set(p).contains(k) {
                    let j = choose|j: int| 0 <= j < p.len() && p[j]@ == k;
                    assert(t[j] == p[j]);
                }
                if k == id@ {
                    assert(t[i - 1] == id);
                }
            }
            assert(id_set(t) =~= id_set(p).insert(id@));
        }
    }
    assert(ids@.take(ids@.len() as int) =~= ids@);
    out
}

/// Connection flag reported for each configured accessory, in order: its
/// recorded status, or not connected when none is recorded.
pub fn connected_flags(ids: &Vec<[u8; 6]>, statuses: &HexKeyMapN<bool, 6>) -> (r: Vec<bool>)
    requires
        statuses.wf(),
    ensures
        r@.len() == ids@.len(),
        forall|i: int| 0 <= i < ids@.len() ==> r@[i] == status_of(statuses.spec_map(), #[trigger] ids@[i]@),
{
    let mut r: Vec<bool> = Vec::new();
    let mut i: usize = 0;
    while i < ids.len()
        invariant
            statuses.wf(),
            i <= ids@.len(),
            r@.len() == i,
            forall|j: int| 0 <= j < i ==> r@[j] == status_of(statuses.spec_map(), #[trigger] ids@[j]@),
        decreases ids@.len() - i,
    {
        let c = match statuses.get(&ids[i]) {
            Some(c) => *c,
            None => false,
        };
        r.push(c);
        i = i + 1;
    }
    r
}

/// Index of the first listed device whose UUID is the assigned device id
/// (the low six bytes of the assignment), if the accessory is assigned.
pub open spec fn is_assigned_device(assignment: u64, devices: Seq<Device>, i: int) -> bool {
    &&& 0 <= i < devices.len()
    &&& devices[i].uuid@ == spec_key_bytes(assignment)
    &&& forall|j: int| 0 <= j < i ==> devices[j].uuid@ != spec_key_bytes(assignment)
}

/// The six address bytes packed in an assignment, least significant first.
pub open spec fn spec_key_bytes(v: u64) -> Seq<u8> {
    seq![
        (v & 0xff) as u8,
        ((v >> 8u64) & 0xff) as u8,
        ((v >> 16u64) & 0xff) as u8,
        ((v >> 24u64) & 0xff) as u8,
        ((v >> 32u64) & 0xff) as u8,
        ((v >> 40u64) & 0xff) as u8,
    ]
}

/// The device a shot of an accessory is forwarded to.
pub fn assigned_device(assignment: Option<u64>, devices: &Vec<Device>) -> (r: Option<usize>)
    ensures
        match assignment {
            None => r is None,
            Some(a) => match r {
                Some(i) => is_assigned_device(a, devices@, i as int),
                None => forall|j: int| 0 <= j < devices@.len() ==> devices@[j].uuid@ != spec_key_bytes(a),
            },
        },
{
    match assignment {
        None => None,
        Some(a) => {
            let key = key_from_u64(a);
            assert(key@ =~= spec_key_bytes(a));
            let mut i: usize = 0;
            while i < devices.len()
                invariant
                    i <= devices@.len(),
                    assignment == Some(a),
                    key@ == spec_key_bytes(a),
                    forall|j: int| 0 <= j < i ==> devices@[j].uuid@ != spec_key_bytes(a),
                decreases devices@.len() - i,
            {
                if uuid_equal(&devices[i].uuid, &key) {
                    return Some(i);
                }
                i = i + 1;
            }
            None
        },
    }
}

pub(crate) fn uuid_equal(a: &[u8; 6], b: &[u8; 6]) -> (r: bool)
    ensures
        r == (a@ == b@),
{
    let mut i: usize = 0;
    while i < 6
        invariant
            i <= 6,
            a@.len() == 6,
            b@.len() == 6,
            forall|j: int| 0 <= j < i ==> a@[j] == b@[j],
        decreases 6 - i,
    {
        if a[i] != b[i] {
            return false;
        }
        i = i + 1;
    }
    assert(a@ =~= b@);
    true
}

/// Connection flag recorded for `k` in an accessory map, or not connected.
pub open spec fn connected_of(map: Map<Seq<u8>, (AccessoryInfo, bool)>, k: Seq<u8>) -> bool {
    if map.dom().contains(k) {
        map[k].1
    } else {
        false
    }
}

/// `fresh` has an entry for `k`.
pub open spec fn fresh_has(fresh: Seq<([u8; 6], AccessoryInfo)>, k: Seq<u8>) -> bool {
    exists|i: int| 0 <= i < fresh.len() && fresh[i].0@ == k
}

/// Merges newly saved accessory settings into the status map: each
/// accessory in `fresh` gets its new settings and keeps its connection flag
/// (not connected if it is new); accessories not in `fresh` stay as they were.
pub fn merge_accessory_infos(map: &mut HexKeyMapN<(AccessoryInfo, bool), 6>, fresh: Vec<([u8; 6], AccessoryInfo)>)
    requires
        old(map).wf(),
        distinct_keys(fresh@),
    ensures
        final(map).wf(),
        forall|k: Seq<u8>|
            #[trigger] final(map).spec_map().dom().contains(k) <==> (old(map).spec_map().dom().contains(k)
                || fresh_has(fresh@, k)),
        forall|i: int|
            0 <= i < fresh@.len() ==> final(map).spec_map()[#[trigger] fresh@[i].0@] == (
                fresh@[i].1,
                connected_of(old(map).spec_map(), fresh@[i].0@),
            ),
        forall|k: Seq<u8>|
            old(map).spec_map().dom().contains(k) && !fresh_has(fresh@, k) ==> #[trigger] final(map).spec_map()[k]
                == old(map).spec_map()[k],
{
    let ghost before = old(map).spec_map();
    let ghost all = fresh@;
    let mut rest = fresh;
    while rest.len() > 0
        invariant
            map.wf(),
            distinct_keys(all),
            rest@.len() <= all.len(),
            rest@ == all.take(rest@.len() as int),
            forall|k: Seq<u8>|
                #[trigger] map.spec_map().dom().contains(k) <==> (before.dom().contains(k) || fresh_has(
                    all.skip(rest@.len() as int),
                    k,
                )),
            forall|i: int|
                rest@.len() <= i < all.len() ==> map.spec_map()[#[trigger] all[i].0@] == (
                    all[i].1,
                    connected_of(before, all[i].0@),
                ),
            forall|k: Seq<u8>|
                before.dom().contains(k) && !fresh_has(all.skip(rest@.len() as int), k) ==> #[trigger] map.spec_map()[k]
                    == before[k],
        decreases rest@.len(),
    {
        let ghost n = rest@.len() as int;
        let ghost prev = rest@;
        let (key, info) = rest.pop().unwrap();
        proof {
            assert(prev[n - 1] == all.take(n)[n - 1]);
            assert(all[n - 1] == (key, info));
            assert(rest@ =~= all.take(n - 1));
            assert forall|i: int| n <= i < all.len() implies all[i].0@ != key@ by {
                assert(all[n - 1].0@ == key@);
            }
            assert(!fresh_has(all.skip(n), key@)) by {
                if fresh_has(all.skip(n), key@) {
                    let j = choose|j: int| 0 <= j < all.skip(n).len() && all.skip(n)[j].0@ == key@;
                    assert(all.skip(n)[j] == all[n + j]);
                }
            }
        }
        let connected = match map.get(&key) {
            Some(entry) => entry.1,
            None => false,
        };
        map.insert(key, (info, connected));
        proof {
            let done = all.skip(n - 1);
            assert forall|k: Seq<u8>| fresh_has(done, k) <==> (fresh_has(all.skip(n), k) || k == key@) by {
                if fresh_has(done, k) {
                    let j = choose|j: int| 0 <= j < done.len() && done[j].0@ == k;
                    if j > 0 {
                        assert(done[j] == all.skip(n)[j - 1]);
                    } else {
                        assert(done[0] == all[n - 1]);
                    }
                }
                if fresh_has(all.skip(n), k) {
                    let j = choose|j: int| 0 <= j < all.skip(n).len() && all.skip(n)[j].0@ == k;
                    assert(all.skip(n)[j] == done[j + 1]);
                }
                if k == key@ {
                    assert(done[0] == all[n - 1]);
                }
            }
        }
    }
    proof {
        assert(all.skip(0) =~= all);
    }
}

/// Service advertised by the second accessory kind (BlackbeardX).
pub const BLACKBEARDX_SERVICE_UUID: u128 = 0x6e400001_204d_616e_7469_732054656368;

/// The kind of a nearby BLE peripheral found by a scan: a magazine names
/// itself "DryFireMag"; the other kind advertises its service.
pub open spec fn spec_classify_nearby(local_name: Option<Seq<char>>, services: Seq<u128>) -> Option<AccessoryType> {
    if local_name == Some("DryFireMag"@) {
        Some(AccessoryType::DryFireMag)
    } else if services.contains(BLACKBEARDX_SERVICE_UUID) {
        Some(AccessoryType::BlackbeardX)
    } else {
        None
    }
}

/// Kind and default label of a nearby peripheral, from its advertised local
/// name and services.
pub fn classify_nearby(local_name: &Option<String>, services: &Vec<u128>) -> (r: Option<(&'static str, AccessoryType)>)
    ensures
        r matches Some(x) ==> Some(x.1) == spec_classify_nearby(
            match local_name {
                Some(n) => Some(n@),
                None => None,
            },
            services@,
        ) && x.0@ == (match x.1 {
            AccessoryType::DryFireMag => "DryFireMag"@,
            AccessoryType::BlackbeardX => "BlackbeardX"@,
        }),
        r is None ==> spec_classify_nearby(
            match local_name {
                Some(n) => Some(n@),
                None => None,
            },
            services@,
        ) is None,
{
    let is_mag = match local_name {
        Some(n) => {
            let mag = String::from_str("DryFireMag");
            *n == mag
        },
        None => false,
    };
    if is_mag {
        return Some(("DryFireMag", AccessoryType::DryFireMag));
    }
    let mut i: usize = 0;
    while i < services.len()
        invariant
            i <= services@.len(),
            match local_name {
                Some(n) => n@ != "DryFireMag"@,
                None => true,
            },
            forall|j: int| 0 <= j < i ==> services@[j] != BLACKBEARDX_SERVICE_UUID,
        decreases services@.len() - i,
    {
        if services[i] == BLACKBEARDX_SERVICE_UUID {
            assert(services@.contains(BLACKBEARDX_SERVICE_UUID)) by {
                assert(services@[i as int] == BLACKBEARDX_SERVICE_UUID);
            }
            return Some(("BlackbeardX", AccessoryType::BlackbeardX));
        }
        i = i + 1;
    }
    None
}

} // verus!
