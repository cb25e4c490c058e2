//! Accessories (dry-fire magazines, ...): their kind, features and the
//! device they are assigned to, and the 6-byte addresses that key them,
//! packed into `u64` keys on the wire.
use vstd::prelude::*;

verus! {

#[derive(Clone, Copy, Debug, PartialEq, Eq, Structural)]
pub enum AccessoryType {
    DryFireMag,
    BlackbeardX,
}

#[derive(Debug, Clone, Copy, PartialEq, Eq, Hash, PartialOrd, Ord, Structural)]
pub enum AccessoryFeature {
    Impact,
}

/// An accessory: its name, kind, the id of the device it is assigned to
/// (`Some` is never zero), and its features (each at most once).
#[derive(Debug, Clone, PartialEq, Eq)]
pub struct AccessoryInfo {
    pub name: String,
    pub ty: AccessoryType,
    pub assignment: Option<u64>,
    pub features: Vec<AccessoryFeature>,
}

impl AccessoryInfo {
    /// An assignment is never zero; no feature is listed twice.
    pub open spec fn wf(&self) -> bool {
        &&& self.assignment != Some(0u64)
        &&& forall|i: int, j: int|
            0 <= i < j < self.features@.len() ==> self.features@[i] != self.features@[j]
    }

    /// The default features of an accessory kind: every kind reports impacts.
    pub open spec fn default_features(ty: AccessoryType) -> Seq<AccessoryFeature> {
        seq![AccessoryFeature::Impact]
    }

    /// A new, unassigned accessory with the default features of its kind.
    pub fn with_defaults(name: String, ty: AccessoryType) -> (r: Self)
        ensures
            r.wf(),
            r.name@ == name@,
            r.ty == ty,
            r.assignment is None,
            r.features@ == Self::default_features(ty),
    {
        let mut features: Vec<AccessoryFeature> = Vec::new();
        match ty {
            AccessoryType::DryFireMag => {
                features.push(AccessoryFeature::Impact);
            },
            AccessoryType::BlackbeardX => {
                features.push(AccessoryFeature::Impact);
            },
        }
        Self { name, ty, assignment: None, features }
    }
}

/// The `u64` key of a 6-byte address: its bytes little-endian, upper two
/// bytes zero.
pub open spec fn spec_key_u64(k: [u8; 6]) -> u64 {
    (k[0] as u64) | ((k[1] as u64) << 8u64) | ((k[2] as u64) << 16u64) | ((k[3] as u64) << 24u64) | ((
    k[4] as u64) << 32u64) | ((k[5] as u64) << 40u64)
}

/// Packs a 6-byte address into a `u64` key (`u64::from_le_bytes` of the
/// address followed by two zero bytes).
pub fn key_to_u64(k: [u8; 6]) -> (r: u64)
    ensures
        r == spec_key_u64(k),
{
    (k[0] as u64) | ((k[1] as u64) << 8u64) | ((k[2] as u64) << 16u64) | ((k[3] as u64) << 24u64) | ((
    k[4] as u64) << 32u64) | ((k[5] as u64) << 40u64)
}

/// Unpacks a `u64` key into a 6-byte address: the low six bytes of its
/// little-endian form (the upper two bytes are dropped).
pub fn key_from_u64(v: u64) -> (r: [u8; 6])
    ensures
        r[0] == (v & 0xff) as u8,
        r[1] == ((v >> 8u64) & 0xff) as u8,
        r[2] == ((v >> 16u64) & 0xff) as u8,
        r[3] == ((v >> 24u64) & 0xff) as u8,
        r[4] == ((v >> 32u64) & 0xff) as u8,
        r[5] == ((v >> 40u64) & 0xff) as u8,
{
    [
        (v & 0xff) as u8,
        ((v >> 8u64) & 0xff) as u8,
        ((v >> 16u64) & 0xff) as u8,
        ((v >> 24u64) & 0xff) as u8,
        ((v >> 32u64) & 0xff) as u8,
        ((v >> 40u64) & 0xff) as u8,
    ]
}

/// Unpacking a packed address gives it back, and every packed address is
/// below 2^48.
pub proof fn lemma_key_round_trip(k0: u8, k1: u8, k2: u8, k3: u8, k4: u8, k5: u8)
    ensures
        ({
            let v = spec_key_u64([k0, k1, k2, k3, k4, k5]);
            &&& (v & 0xff) as u8 == k0
            &&& ((v >> 8u64) & 0xff) as u8 == k1
            &&& ((v >> 16u64) & 0xff) as u8 == k2
            &&& ((v >> 24u64) & 0xff) as u8 == k3
            &&& ((v >> 32u64) & 0xff) as u8 == k4
            &&& ((v >> 40u64) & 0xff) as u8 == k5
            &&& v < 0x1_0000_0000_0000u64
        }),
{
    let v = spec_key_u64([k0, k1, k2, k3, k4, k5]);
    assert(v == (k0 as u64) | ((k1 as u64) << 8u64) | ((k2 as u64) << 16u64) | ((k3 as u64) << 24u64)
        | ((k4 as u64) << 32u64) | ((k5 as u64) << 40u64));
    assert({
        &&& (v & 0xff) as u8 == k0
        &&& ((v >> 8u64) & 0xff) as u8 == k1
        &&& ((v >> 16u64) & 0xff) as u8 == k2
        &&& ((v >> 24u64) & 0xff) as u8 == k3
        &&& ((v >> 32u64) & 0xff) as u8 == k4
        &&& ((v >> 40u64) & 0xff) as u8 == k5
        &&& v < 0x1_0000_0000_0000u64
    }) by (bit_vector)
        requires
            v == (k0 as u64) | ((k1 as u64) << 8u64) | ((k2 as u64) << 16u64) | ((k3 as u64) << 24u64)
                | ((k4 as u64) << 32u64) | ((k5 as u64) << 40u64),
    ;
}

/// Packing the address unpacked from a key below 2^48 gives the key back.
pub proof fn lemma_u64_key_round_trip(v: u64)
    requires
        v < 0x1_0000_0000_0000u64,
    ensures
        spec_key_u64(
            [
                (v & 0xff) as u8,
                ((v >> 8u64) & 0xff) as u8,
                ((v >> 16u64) & 0xff) as u8,
                ((v >> 24u64) & 0xff) as u8,
                ((v >> 32u64) & 0xff) as u8,
                ((v >> 40u64) & 0xff) as u8,
            ],
        ) == v,
{
    let k0 = (v & 0xff) as u8;
    let k1 = ((v >> 8u64) & 0xff) as u8;
    let k2 = ((v >> 16u64) & 0xff) as u8;
    let k3 = ((v >> 24u64) & 0xff) as u8;
    let k4 = ((v >> 32u64) & 0xff) as u8;
    let k5 = ((v >> 40u64) & 0xff) as u8;
    assert((k0 as u64) | ((k1 as u64) << 8u64) | ((k2 as u64) << 16u64) | ((k3 as u64) << 24u64) | ((
    k4 as u64) << 32u64) | ((k5 as u64) << 40u64) == v) by (bit_vector)
        requires
            v < 0x1_0000_0000_0000u64,
            k0 == (v & 0xff) as u8,
            k1 == ((v >> 8u64) & 0xff) as u8,
            k2 == ((v >> 16u64) & 0xff) as u8,
            k3 == ((v >> 24u64) & 0xff) as u8,
            k4 == ((v >> 32u64) & 0xff) as u8,
            k5 == ((v >> 40u64) & 0xff) as u8,
    ;
    assert([k0, k1, k2, k3, k4, k5][0] == k0);
}

/// The assignment on the wire: the device id, or 0 for none.
pub fn assignment_to_wire(a: Option<u64>) -> (r: u64)
    ensures
        r == (match a {
            Some(v) => v,
            None => 0u64,
        }),
{
    match a {
        Some(v) => v,
        None => 0,
    }
}

/// The assignment read from the wire: 0 means none.
pub fn assignment_from_wire(v: u64) -> (r: Option<u64>)
    ensures
        r == (if v != 0 { Some(v) } else { None::<u64> }),
{
    if v != 0 {
        Some(v)
    } else {
        None
    }
}

/// An assignment that is never zero survives the trip over the wire.
pub proof fn lemma_assignment_round_trip(a: Option<u64>)
    requires
        a != Some(0u64),
    ensures
        (if (match a {
            Some(v) => v,
            None => 0u64,
        }) != 0 {
            Some(match a {
                Some(v) => v,
                None => 0u64,
            })
        } else {
            None::<u64>
        }) == a,
{
}

} // verus!
