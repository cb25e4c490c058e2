//! Devices as the hub reports them: transport, capability flags, firmware
//! version and a fixed-size UTF-8 name, and their human-readable label.
use crate::text::{push_byte_hex, spec_byte_hex_lower};
use vstd::prelude::*;
use vstd::std_specs::cmp::PartialEqSpec;
use vstd::string::StringExecFns;

verus! {

/// How the hub is connected to a device.
#[derive(Debug, Clone, Copy, PartialEq, Eq, Hash, Structural)]
pub enum Transport {
    /// Direct USB connection
    Usb,
    /// BLE connection via mux/dongle
    UsbMux,
    /// UDP connection via mux (not yet implemented)
    UdpMux,
}

/// How events/sensor data are transmitted from the device.
#[derive(Debug, Clone, Copy, PartialEq, Eq, Hash, Structural)]
pub enum EventsTransport {
    /// Events transmitted via wired USB connection
    Wired,
    /// Events transmitted via BLE (wireless)
    Bluetooth,
}

/// Device capabilities indicate what operations are available for a device.
#[derive(Debug, Clone, Copy, PartialEq, Eq, Hash, Structural)]
pub struct DeviceCapabilities {
    bits: u8,
}

/// Device has USB control interface (pairing, config, DFU).
pub const CONTROL: u8 = 0b01;

/// Device has packet/event streams.
pub const EVENTS: u8 = 0b10;

/// Device is enumerated by its DFU bootloader.
pub const DFU: u8 = 0b100;

impl DeviceCapabilities {
    /// The flag bits.
    pub closed spec fn spec_bits(self) -> u8 {
        self.bits
    }

    pub open spec fn spec_contains(self, flag: u8) -> bool {
        self.spec_bits() & flag == flag
    }

    /// The flags whose bits are `bits`.
    pub closed spec fn from_bits(bits: u8) -> Self {
        DeviceCapabilities { bits }
    }

    pub fn empty() -> (r: Self)
        ensures
            r.spec_bits() == 0,
    {
        Self { bits: 0 }
    }

    pub fn new(bits: u8) -> (r: Self)
        ensures
            r.spec_bits() == bits,
            r == Self::from_bits(bits),
    {
        Self { bits }
    }

    /// Whether every bit of `flag` is set.
    pub fn contains(&self, flag: u8) -> (r: bool)
        ensures
            r == self.spec_contains(flag),
    {
        (self.bits & flag) == flag
    }

    pub fn insert(&mut self, flag: u8)
        ensures
            final(self).spec_bits() == old(self).spec_bits() | flag,
            *final(self) == Self::from_bits(old(self).spec_bits() | flag),
    {
        self.bits = self.bits | flag;
    }

    pub fn remove(&mut self, flag: u8)
        ensures
            final(self).spec_bits() == old(self).spec_bits() & !flag,
            *final(self) == Self::from_bits(old(self).spec_bits() & !flag),
    {
        self.bits = self.bits & !flag;
    }

    pub fn bits(&self) -> (r: u8)
        ensures
            r == self.spec_bits(),
    {
        self.bits
    }
}

/// Flags are their bits: building flags from bits gives those bits back,
/// and flags are those built from their own bits.
pub proof fn lemma_from_bits(bits: u8, c: DeviceCapabilities)
    ensures
        DeviceCapabilities::from_bits(bits).spec_bits() == bits,
        DeviceCapabilities::from_bits(c.spec_bits()) == c,
{
}

/// After inserting a flag it is contained; after removing a non-empty flag it
/// is not; flags that share no bit with the inserted or removed one keep
/// their state.
pub proof fn lemma_capability_flags(bits: u8, flag: u8, other: u8)
    ensures
        (bits | flag) & flag == flag,
        flag != 0 ==> (bits & !flag) & flag != flag,
        other & flag == 0 ==> (((bits | flag) & other == other) <==> (bits & other == other)),
        other & flag == 0 ==> (((bits & !flag) & other == other) <==> (bits & other == other)),
        (bits & !flag) | flag == bits | flag,
{
    assert((bits | flag) & flag == flag) by (bit_vector);
    assert(flag != 0 ==> (bits & !flag) & flag != flag) by (bit_vector);
    assert(other & flag == 0 ==> (((bits | flag) & other == other) <==> (bits & other == other)))
        by (bit_vector);
    assert(other & flag == 0 ==> (((bits & !flag) & other == other) <==> (bits & other == other)))
        by (bit_vector);
    assert((bits & !flag) | flag == bits | flag) by (bit_vector);
}

/// A device as listed by the hub. Identity is the UUID alone.
#[derive(Debug, Clone)]
pub struct Device {
    pub uuid: [u8; 6],
    pub transport: Transport,
    pub capabilities: DeviceCapabilities,
    /// Firmware version [major, minor, patch], [0,0,0] if unknown
    pub firmware_version: [u16; 3],
    pub events_transport: EventsTransport,
    /// Whether events/sensor data are currently being received
    pub events_connected: bool,
    /// USB Product ID (e.g. 0x520F=AtsVm, 0x5210=AtsLite, 0x5211=Lite1, 0x5212=Mux), 0 if unknown
    pub product_id: u16,
    /// Human-readable device name, null-terminated, up to 32 UTF-8 bytes + null.
    pub name: [u8; 33],
}

/// Two device records are the same device when their UUIDs are equal; the
/// name and connection details do not enter into it.
impl PartialEq for Device {
    fn eq(&self, other: &Self) -> (r: bool) {
        crate::accessory_link::uuid_equal(&self.uuid, &other.uuid)
    }
}

impl vstd::std_specs::cmp::PartialEqSpecImpl for Device {
    open spec fn obeys_eq_spec() -> bool {
        true
    }

    open spec fn eq_spec(&self, other: &Device) -> bool {
        self.uuid@ == other.uuid@
    }
}

impl Eq for Device {}

/// Renaming a device (or changing anything but its UUID) leaves it the
/// same device: a record with the same UUID is equal to it.
pub proof fn lemma_identity_ignores_name(before: Device, after: Device)
    requires
        after.uuid == before.uuid,
    ensures
        before.eq_spec(&after),
        after.eq_spec(&before),
{
}

/// The name buffer for the UTF-8 bytes `b`: the first `min(32, len)` bytes,
/// then zeros up to 33 bytes.
pub open spec fn spec_name_buffer(b: Seq<u8>) -> Seq<u8> {
    Seq::new(33, |i: int| if i < 32 && i < b.len() { b[i] } else { 0u8 })
}

/// Length of the name: the position of the first zero byte, 33 if none.
pub open spec fn spec_name_len(name: Seq<u8>) -> int {
    if exists|i: int| 0 <= i < name.len() && name[i] == 0 {
        choose|i: int| 0 <= i < name.len() && name[i] == 0 && forall|j: int| 0 <= j < i ==> name[j] != 0
    } else {
        name.len() as int
    }
}

/// The name as text: the bytes before the first zero, decoded as UTF-8, or
/// the empty string when they are not valid UTF-8.
pub open spec fn spec_device_name(name: Seq<u8>) -> Seq<char> {
    let prefix = name.take(spec_name_len(name));
    if vstd::utf8::valid_utf8(prefix) {
        vstd::utf8::decode_utf8(prefix)
    } else {
        Seq::empty()
    }
}

/// `std::str::from_utf8` on the first `len` bytes of `bytes`: a string whose
/// UTF-8 bytes are exactly those when they are valid UTF-8, and none (the
/// error) when they are not.
#[verifier::external_body]
fn utf8_prefix(bytes: &[u8; 33], len: usize) -> (r: Option<&str>)
    requires
        len <= 33,
    ensures
        r is Some <==> vstd::utf8::valid_utf8(bytes@.take(len as int)),
        r matches Some(s) ==> vstd::utf8::encode_utf8(s@) == bytes@.take(len as int),
{
    std::str::from_utf8(&bytes[..len]).ok()
}

/// Position of the first zero byte of the name, 33 if none.
fn name_len(name: &[u8; 33]) -> (r: usize)
    ensures
        r as int == spec_name_len(name@),
        r <= 33,
{
    let mut i: usize = 0;
    while i < 33
        invariant
            i <= 33,
            name@.len() == 33,
            forall|j: int| 0 <= j < i ==> name@[j] != 0,
        decreases 33 - i,
    {
        if name[i] == 0 {
            proof {
                let c = choose|c: int|
                    0 <= c < name@.len() && name@[c] == 0 && forall|j: int| 0 <= j < c ==> name@[j] != 0;
                assert(name@[i as int] == 0);
                if c > i {
                    assert(name@[i as int] != 0);
                }
            }
            return i;
        }
        i = i + 1;
    }
    33
}

impl Device {
    /// Builds a `[u8; 33]` name buffer from a `&str`: its first 32 UTF-8 bytes
    /// at most, then zeros.
    pub fn name_bytes(s: &str) -> (r: [u8; 33])
        ensures
            r@ == spec_name_buffer(vstd::utf8::encode_utf8(s@)),
    {
        let mut buf = [0u8; 33];
        let bytes = s.as_bytes();
        let len = if bytes.len() < 32 {
            bytes.len()
        } else {
            32
        };
        let mut i: usize = 0;
        while i < len
            invariant
                len <= 32,
                len <= bytes@.len(),
                bytes@ == vstd::utf8::encode_utf8(s@),
                i <= len,
                len == (if bytes@.len() < 32 { bytes@.len() } else { 32 }),
                buf@.len() == 33,
                forall|j: int| 0 <= j < i ==> buf@[j] == bytes@[j],
                forall|j: int| i <= j < 33 ==> buf@[j] == 0,
            decreases len - i,
        {
            buf[i] = bytes[i];
            i = i + 1;
        }
        assert(buf@ =~= spec_name_buffer(vstd::utf8::encode_utf8(s@)));
        buf
    }

    /// The name: the bytes before the first zero as UTF-8 text, or the empty
    /// string when they are not valid UTF-8.
    pub fn name(&self) -> (r: &str)
        ensures
            r@ == spec_device_name(self.name@),
    {
        let nul = name_len(&self.name);
        match utf8_prefix(&self.name, nul) {
            Some(s) => {
                proof {
                    let prefix = self.name@.take(nul as int);
                    vstd::utf8::encode_utf8_valid_utf8(s@);
                    vstd::utf8::encode_utf8_decode_utf8(s@);
                }
                s
            },
            None => {
                proof {
                    reveal_strlit("");
                }
                ""
            },
        }
    }

    /// Replaces the name with the first 32 UTF-8 bytes of `s` at most.
    pub fn set_name(&mut self, s: &str)
        ensures
            final(self).name@ == spec_name_buffer(vstd::utf8::encode_utf8(s@)),
            final(self).uuid == old(self).uuid,
            final(self).transport == old(self).transport,
            final(self).capabilities == old(self).capabilities,
            final(self).firmware_version == old(self).firmware_version,
            final(self).events_transport == old(self).events_transport,
            final(self).events_connected == old(self).events_connected,
            final(self).product_id == old(self).product_id,
    {
        self.name = Self::name_bytes(s);
    }
}

/// No byte of the UTF-8 encoding of a non-NUL character is zero.
proof fn lemma_scalar_bytes_nonzero(c: char)
    requires
        c != '\0',
    ensures
        forall|i: int|
            0 <= i < vstd::utf8::encode_scalar(c as u32).len() ==> #[trigger] vstd::utf8::encode_scalar(
                c as u32,
            )[i] != 0,
{
    let v = c as u32;
    vstd::utf8::char_is_scalar(c);
    assert(v != 0);
    let e = vstd::utf8::encode_scalar(v);
    let l1 = (v & 0x7F) as u8;
    let l2 = 0xC0u8 | ((v >> 6) & 0x1F) as u8;
    let l3 = 0xE0u8 | ((v >> 12) & 0x0F) as u8;
    let l4 = 0xF0u8 | ((v >> 18) & 0x7) as u8;
    let c1 = 0x80u8 | (v & 0x3F) as u8;
    let c2 = 0x80u8 | ((v >> 6) & 0x3F) as u8;
    let c3 = 0x80u8 | ((v >> 12) & 0x3F) as u8;
    assert(1 <= v <= 0x7F ==> l1 != 0) by (bit_vector)
        requires
            l1 == (v & 0x7F) as u8,
    ;
    assert(l2 != 0) by (bit_vector)
        requires
            l2 == 0xC0u8 | ((v >> 6) & 0x1F) as u8,
    ;
    assert(l3 != 0) by (bit_vector)
        requires
            l3 == 0xE0u8 | ((v >> 12) & 0x0F) as u8,
    ;
    assert(l4 != 0) by (bit_vector)
        requires
            l4 == 0xF0u8 | ((v >> 18) & 0x7) as u8,
    ;
    assert(c1 != 0) by (bit_vector)
        requires
            c1 == 0x80u8 | (v & 0x3F) as u8,
    ;
    assert(c2 != 0) by (bit_vector)
        requires
            c2 == 0x80u8 | ((v >> 6) & 0x3F) as u8,
    ;
    assert(c3 != 0) by (bit_vector)
        requires
            c3 == 0x80u8 | ((v >> 12) & 0x3F) as u8,
    ;
    if vstd::utf8::has_width_1_encoding(v) {
        assert(e =~= seq![l1]);
    } else if vstd::utf8::has_width_2_encoding(v) {
        assert(e =~= seq![l2, c1]);
    } else if vstd::utf8::has_width_3_encoding(v) {
        assert(e =~= seq![l3, c2, c1]);
    } else {
        assert(e =~= seq![l4, c3, c2, c1]);
    }
}

/// No byte of the UTF-8 encoding of a text without NUL characters is zero.
proof fn lemma_utf8_bytes_nonzero(s: Seq<char>)
    requires
        forall|i: int| 0 <= i < s.len() ==> s[i] != '\0',
    ensures
        forall|i: int|
            0 <= i < vstd::utf8::encode_utf8(s).len() ==> #[trigger] vstd::utf8::encode_utf8(s)[i] != 0,
    decreases s.len(),
{
    if s.len() > 0 {
        let head = vstd::utf8::encode_scalar(s[0] as u32);
        let rest = s.drop_first();
        lemma_scalar_bytes_nonzero(s[0]);
        lemma_utf8_bytes_nonzero(rest);
        let whole = vstd::utf8::encode_utf8(s);
        assert(whole == head + vstd::utf8::encode_utf8(rest));
        assert forall|i: int| 0 <= i < whole.len() implies #[trigger] whole[i] != 0 by {
            if i < head.len() {
                assert(whole[i] == head[i]);
            } else {
                assert(whole[i] == vstd::utf8::encode_utf8(rest)[i - head.len()]);
            }
        }
    }
}

/// A name of at most 32 UTF-8 bytes without NUL characters reads back
/// unchanged from the buffer that `set_name` / `name_bytes` store.
pub proof fn lemma_name_round_trip(s: Seq<char>)
    requires
        vstd::utf8::encode_utf8(s).len() <= 32,
        forall|i: int| 0 <= i < s.len() ==> s[i] != '\0',
    ensures
        spec_device_name(spec_name_buffer(vstd::utf8::encode_utf8(s))) == s,
{
    let b = vstd::utf8::encode_utf8(s);
    let buf = spec_name_buffer(b);
    lemma_utf8_bytes_nonzero(s);
    let l = b.len() as int;
    assert(buf[l] == 0);
    let c = choose|c: int| 0 <= c < buf.len() && buf[c] == 0 && forall|j: int| 0 <= j < c ==> buf[j] != 0;
    assert(forall|j: int| 0 <= j < l ==> buf[j] == b[j]);
    assert(0 <= l < buf.len() && buf[l] == 0 && forall|j: int| 0 <= j < l ==> buf[j] != 0);
    if c < l {
        assert(buf[c] == b[c]);
    } else if c > l {
        assert(buf[l] != 0);
    }
    assert(spec_name_len(buf) == l);
    assert(buf.take(l) =~= b);
    vstd::utf8::encode_utf8_valid_utf8(s);
    vstd::utf8::encode_utf8_decode_utf8(s);
}

/// `"{:02x}:{:02x}:...:{:02x}"` of the six UUID bytes.
pub open spec fn spec_uuid_label(u: Seq<u8>) -> Seq<char> {
    spec_byte_hex_lower(u[0]) + ":"@ + spec_byte_hex_lower(u[1]) + ":"@ + spec_byte_hex_lower(u[2])
        + ":"@ + spec_byte_hex_lower(u[3]) + ":"@ + spec_byte_hex_lower(u[4]) + ":"@
        + spec_byte_hex_lower(u[5])
}

/// Display name of a product id.
pub open spec fn spec_product_name(pid: u16) -> Seq<char> {
    if pid == 0x520F {
        "ATS VM"@
    } else if pid == 0x5210 {
        "ATS Lite"@
    } else if pid == 0x5211 {
        "ATS Lite1"@
    } else {
        "Unknown"@
    }
}

/// Display name of a product id: "ATS VM", "ATS Lite", "ATS Lite1" or "Unknown".
pub fn product_name(pid: u16) -> (r: &'static str)
    ensures
        r@ == spec_product_name(pid),
{
    if pid == 0x520F {
        "ATS VM"
    } else if pid == 0x5210 {
        "ATS Lite"
    } else if pid == 0x5211 {
        "ATS Lite1"
    } else {
        "Unknown"
    }
}

/// The label shown for a device in the UI.
pub open spec fn spec_device_label(d: Device) -> Seq<char> {
    let addr = spec_uuid_label(d.uuid@);
    let ty = spec_product_name(d.product_id);
    let name = spec_device_name(d.name@);
    if d.capabilities.spec_contains(DFU) && !d.capabilities.spec_contains(CONTROL) {
        ty + " [DFU] ("@ + addr + ")"@
    } else if name.len() == 0 {
        ty + " ("@ + addr + ")"@
    } else {
        ty + ": "@ + name + " ("@ + addr + ")"@
    }
}

/// Appends `"{:02x}:...:{:02x}"` of the UUID.
fn push_uuid_label(s: &mut String, uuid: &[u8; 6])
    ensures
        final(s)@ == old(s)@ + spec_uuid_label(uuid@),
{
    push_byte_hex(s, uuid[0], false);
    s.append(":");
    push_byte_hex(s, uuid[1], false);
    s.append(":");
    push_byte_hex(s, uuid[2], false);
    s.append(":");
    push_byte_hex(s, uuid[3], false);
    s.append(":");
    push_byte_hex(s, uuid[4], false);
    s.append(":");
    push_byte_hex(s, uuid[5], false);
    assert(s@ =~= old(s)@ + spec_uuid_label(uuid@));
}

/// The label shown for a device: its type, its name or a DFU marker, and its
/// address, e.g. `"ATS Lite1: Left (aa:bb:cc:dd:ee:ff)"`.
pub fn device_label(device: &Device) -> (r: String)
    ensures
        r@ == spec_device_label(*device),
{
    let device_type = product_name(device.product_id);
    let is_dfu = device.capabilities.contains(DFU) && !device.capabilities.contains(CONTROL);
    let name = device.name();
    let mut s = String::from_str(device_type);
    let ghost ty = s@;
    if is_dfu {
        s.append(" [DFU] (");
    } else if name.unicode_len() == 0 {
        s.append(" (");
    } else {
        s.append(": ");
        s.append(name);
        s.append(" (");
    }
    push_uuid_label(&mut s, &device.uuid);
    s.append(")");
    s
}

} // verus!
