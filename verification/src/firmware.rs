//! Firmware manifests, the table of known devices, selection of the firmware
//! to offer a device, download URLs, digest checks, and the DFU decisions
//! taken from a device's USB interface descriptors.
use crate::text::{
    chars_of, contains_chars, push_bytes_hex, spec_bytes_hex_lower, spec_bytes_hex_upper, spec_contains,
};
use crate::decimal::{lemma_decimal_chars, spec_decimal, spec_decimal_bytes};
use crate::hexkeymap::lemma_ascii_utf8;
use crate::numparse::{is_radix_digit, spec_parse_radix};
use crate::version::{
    dot, parse_version_bytes, spec_version_gt, two_dots_at, spec_version_parts, spec_versions_compatible,
    version_newer, versions_compatible,
};
use vstd::prelude::*;
use vstd::string::StringExecFns;

verus! {

/// GitHub releases download base URL.
pub const RELEASES_BASE_URL: &'static str = "https://github.com/odysseyarm/donger/releases/download";

/// Manifest URL for alpha channel firmware releases.
pub const MANIFEST_URL: &'static str =
    "https://raw.githubusercontent.com/odysseyarm/donger/main/manifests/releases.alpha.json";

/// Top-level firmware manifest: per device type name, its firmware list.
/// Device type names are meant to be distinct (see `wf`).
#[derive(Clone, Debug)]
pub struct FirmwareManifest {
    pub version: u32,
    pub devices: Vec<(String, DeviceManifest)>,
}

/// Per-device firmware information, newest first.
#[derive(Clone, Debug)]
pub struct DeviceManifest {
    pub firmwares: Vec<FirmwareEntry>,
}

/// A single firmware version entry; file names are meant to be distinct.
#[derive(Clone, Debug)]
pub struct FirmwareEntry {
    pub version: String,
    pub files: Vec<(String, FileEntry)>,
    pub released: String,
}

/// A single file within a firmware entry.
#[derive(Clone, Debug)]
pub struct FileEntry {
    pub sha256: String,
    pub size: u64,
}

impl FirmwareManifest {
    /// Device type names are distinct, as the keys of a map.
    pub open spec fn wf(&self) -> bool {
        forall|i: int, j: int|
            0 <= i < j < self.devices@.len() ==> self.devices@[i].0@ != self.devices@[j].0@
    }
}

/// UTF-8 bytes of a string.
pub open spec fn utf8_of(s: Seq<char>) -> Seq<u8> {
    vstd::utf8::encode_utf8(s)
}

impl FirmwareEntry {
    /// Parses the version string into `[major, minor, patch]`.
    pub fn version_parts(&self) -> (r: Option<[u16; 3]>)
        ensures
            r == spec_version_parts(utf8_of(self.version@)),
    {
        let bytes = self.version.as_str().as_bytes();
        parse_version_bytes(bytes)
    }
}

/// The version text written as `format!("{}.{}.{}", v[0], v[1], v[2])`.
pub open spec fn spec_version_text(v: [u16; 3]) -> Seq<char> {
    spec_decimal(v[0] as nat) + seq!['.'] + spec_decimal(v[1] as nat) + seq!['.'] + spec_decimal(
        v[2] as nat,
    )
}

/// Decimal digits parse as a `u16` to their value when it fits.
proof fn lemma_decimal_bytes_parse(n: nat)
    requires
        n <= 0xffff,
    ensures
        spec_parse_radix(spec_decimal_bytes(n), 10, 0xffff) == Some(n),
        forall|i: int| 0 <= i < spec_decimal_bytes(n).len() ==> #[trigger] spec_decimal_bytes(n)[i] != dot(),
{
    lemma_decimal_chars(n);
    let d = spec_decimal_bytes(n);
    assert forall|i: int| 0 <= i < d.len() implies #[trigger] d[i] != dot() by {
        assert(is_radix_digit(d[i], 10));
    }
}

/// A version written as `a.b.c` parses back to `[a, b, c]`.
pub proof fn lemma_version_text_parses_back(v: [u16; 3])
    ensures
        spec_version_parts(utf8_of(spec_version_text(v))) == Some(v),
{
    let da = spec_decimal_bytes(v[0] as nat);
    let db = spec_decimal_bytes(v[1] as nat);
    let dc = spec_decimal_bytes(v[2] as nat);
    lemma_decimal_chars(v[0] as nat);
    lemma_decimal_chars(v[1] as nat);
    lemma_decimal_chars(v[2] as nat);
    lemma_decimal_bytes_parse(v[0] as nat);
    lemma_decimal_bytes_parse(v[1] as nat);
    lemma_decimal_bytes_parse(v[2] as nat);
    let ca = spec_decimal(v[0] as nat);
    let cb = spec_decimal(v[1] as nat);
    let cc = spec_decimal(v[2] as nat);
    let t = spec_version_text(v);
    let s = da + seq![dot()] + db + seq![dot()] + dc;
    let la = da.len() as int;
    let lb = db.len() as int;
    let i0 = la;
    let j0 = la + 1 + lb;
    assert(t.len() == s.len());
    assert forall|k: int| 0 <= k < t.len() implies (#[trigger] t[k] as u32) < 0x80 && t[k] as u32 as u8 == s[k] by {
        if k < i0 {
            assert(t[k] == ca[k] && s[k] == da[k]);
        } else if k == i0 {
            assert(t[k] == '.' && s[k] == dot());
        } else if k < j0 {
            assert(t[k] == cb[k - i0 - 1] && s[k] == db[k - i0 - 1]);
        } else if k == j0 {
            assert(t[k] == '.' && s[k] == dot());
        } else {
            assert(t[k] == cc[k - j0 - 1] && s[k] == dc[k - j0 - 1]);
        }
    }
    lemma_ascii_utf8(t);
    assert(utf8_of(t) =~= s);
    assert forall|k: int| 0 <= k < s.len() && k != i0 && k != j0 implies #[trigger] s[k] != dot() by {
        if k < i0 {
            assert(s[k] == da[k]);
        } else if k < j0 {
            assert(s[k] == db[k - i0 - 1]);
        } else {
            assert(s[k] == dc[k - j0 - 1]);
        }
    }
    assert(two_dots_at(s, i0, j0));
    let (i, j) = choose|i: int, j: int| two_dots_at(s, i, j);
    assert(i == i0 && j == j0) by {
        if i != i0 && i != j0 {
            assert(s[i] != dot());
        }
        if j != i0 && j != j0 {
            assert(s[j] != dot());
        }
    }
    assert(s.subrange(0, i0) =~= da);
    assert(s.subrange(i0 + 1, j0) =~= db);
    assert(s.subrange(j0 + 1, s.len() as int) =~= dc);
    assert([v[0] as nat as u16, v[1] as nat as u16, v[2] as nat as u16] =~= v);
}

/// `i` is the first position of a device entry named `name`.
pub open spec fn is_first_named(devices: Seq<(String, DeviceManifest)>, name: Seq<char>, i: int) -> bool {
    &&& 0 <= i < devices.len()
    &&& devices[i].0@ == name
    &&& forall|j: int| 0 <= j < i ==> devices[j].0@ != name
}

/// Index of the first device entry named `name`, if any (under `wf`, the only one).
pub open spec fn spec_device_index(devices: Seq<(String, DeviceManifest)>, name: Seq<char>) -> Option<int> {
    if exists|i: int| is_first_named(devices, name, i) {
        Some(choose|i: int| is_first_named(devices, name, i))
    } else {
        None
    }
}

/// A firmware entry is offered to a device running `device_version` when its
/// version parses, is compatible, and is newer.
pub open spec fn spec_eligible(e: FirmwareEntry, device_version: [u16; 3]) -> bool {
    match spec_version_parts(utf8_of(e.version@)) {
        Some(fw) => spec_versions_compatible(device_version, fw) && spec_version_gt(fw, device_version),
        None => false,
    }
}

/// `e` is the first eligible entry of `fws`.
pub open spec fn is_first_eligible(fws: Seq<FirmwareEntry>, device_version: [u16; 3], e: FirmwareEntry) -> bool {
    exists|k: int|
        0 <= k < fws.len() && fws[k] == e && spec_eligible(fws[k], device_version) && forall|j: int|
            0 <= j < k ==> !spec_eligible(#[trigger] fws[j], device_version)
}

fn find_device_index(devices: &Vec<(String, DeviceManifest)>, name: &str) -> (r: Option<usize>)
    ensures
        r is None <==> spec_device_index(devices@, name@) is None,
        r matches Some(x) ==> spec_device_index(devices@, name@) == Some(x as int),
{
    let key = String::from_str(name);
    let mut i: usize = 0;
    while i < devices.len()
        invariant
            i <= devices@.len(),
            key@ == name@,
            forall|j: int| 0 <= j < i ==> devices@[j].0@ != name@,
        decreases devices@.len() - i,
    {
        if devices[i].0 == key {
            proof {
                assert(is_first_named(devices@, name@, i as int));
                let c = choose|c: int| is_first_named(devices@, name@, c);
                if c > i {
                    assert(devices@[i as int].0@ != name@);
                }
            }
            return Some(i);
        }
        i = i + 1;
    }
    None
}

/// Finds the latest compatible firmware for a device: the first entry, in
/// manifest order (newest first), whose version parses, is compatible with
/// the device's version and is newer than it.
pub fn find_compatible_firmware<'a>(
    manifest: &'a FirmwareManifest,
    device_type: &str,
    device_version: [u16; 3],
) -> (r: Option<&'a FirmwareEntry>)
    ensures
        match spec_device_index(manifest.devices@, device_type@) {
            None => r is None,
            Some(d) => {
                let fws = manifest.devices@[d].1.firmwares@;
                match r {
                    None => forall|k: int| 0 <= k < fws.len() ==> !spec_eligible(#[trigger] fws[k], device_version),
                    Some(e) => is_first_eligible(fws, device_version, *e),
                }
            },
        },
{
    let d = match find_device_index(&manifest.devices, device_type) {
        Some(d) => d,
        None => return None,
    };
    let fws = &manifest.devices[d].1.firmwares;
    let mut k: usize = 0;
    while k < fws.len()
        invariant
            k <= fws@.len(),
            d < manifest.devices@.len(),
            spec_device_index(manifest.devices@, device_type@) == Some(d as int),
            fws@ == manifest.devices@[d as int].1.firmwares@,
            forall|j: int| 0 <= j < k ==> !spec_eligible(#[trigger] fws@[j], device_version),
        decreases fws@.len() - k,
    {
        let firmware = &fws[k];
        if let Some(fw_version) = firmware.version_parts() {
            if versions_compatible(device_version, fw_version) && version_newer(device_version, fw_version) {
                assert(spec_eligible(fws@[k as int], device_version));
                assert(is_first_eligible(fws@, device_version, *firmware));
                return Some(firmware);
            }
        }
        k = k + 1;
    }
    None
}

/// The download URL of a firmware file.
pub open spec fn spec_download_url(device_type: Seq<char>, version: Seq<char>, filename: Seq<char>) -> Seq<char> {
    RELEASES_BASE_URL@ + "/"@ + device_type + "-v"@ + version + "/"@ + filename + ".bin"@
}

/// Builds the download URL for a firmware file:
/// `{RELEASES_BASE_URL}/{device_type}-v{version}/{filename}.bin`.
pub fn build_download_url(device_type: &str, version: &str, filename: &str) -> (r: String)
    ensures
        r@ == spec_download_url(device_type@, version@, filename@),
{
    let mut s = String::from_str(RELEASES_BASE_URL);
    s.append("/");
    s.append(device_type);
    s.append("-v");
    s.append(version);
    s.append("/");
    s.append(filename);
    s.append(".bin");
    s
}


/// Known device types: `(vendor id, product id, device type name)`.
pub open spec fn spec_device_map() -> Seq<(u16, u16, Seq<char>)> {
    seq![
        (0x1915u16, 0x5210u16, "legacy-atslite1"@),
        (0x1915u16, 0x5211u16, "atslite1"@),
        (0x1915u16, 0x5212u16, "dongle"@),
    ]
}

/// The table of known device types mapped by VID:PID.
pub fn device_map() -> (r: Vec<(u16, u16, &'static str)>)
    ensures
        r@.len() == spec_device_map().len(),
        forall|i: int|
            0 <= i < r@.len() ==> (#[trigger] r@[i]).0 == spec_device_map()[i].0 && r@[i].1
                == spec_device_map()[i].1 && r@[i].2@ == spec_device_map()[i].2,
{
    vec![(0x1915, 0x5210, "legacy-atslite1"), (0x1915, 0x5211, "atslite1"), (0x1915, 0x5212, "dongle")]
}

/// No two known devices share a product id (so neither a VID:PID pair).
pub proof fn lemma_device_map_pids_distinct()
    ensures
        forall|i: int, j: int|
            0 <= i < j < spec_device_map().len() ==> spec_device_map()[i].1 != spec_device_map()[j].1,
{
}

/// Gets the device type name from VID/PID.
pub fn device_type_from_vid_pid(vid: u16, pid: u16) -> (r: Option<&'static str>)
    ensures
        r is Some <==> exists|i: int|
            0 <= i < spec_device_map().len() && spec_device_map()[i].0 == vid && spec_device_map()[i].1
                == pid,
        r matches Some(name) ==> exists|i: int|
            0 <= i < spec_device_map().len() && spec_device_map()[i].0 == vid && spec_device_map()[i].1
                == pid && name@ == spec_device_map()[i].2,
{
    let map = device_map();
    let mut i: usize = 0;
    while i < map.len()
        invariant
            i <= map@.len(),
            map@.len() == spec_device_map().len(),
            forall|k: int|
                0 <= k < map@.len() ==> (#[trigger] map@[k]).0 == spec_device_map()[k].0 && map@[k].1
                    == spec_device_map()[k].1 && map@[k].2@ == spec_device_map()[k].2,
            forall|k: int| 0 <= k < i ==> !(spec_device_map()[k].0 == vid && spec_device_map()[k].1 == pid),
        decreases map@.len() - i,
    {
        let (v, p, name) = map[i];
        if v == vid && p == pid {
            return Some(name);
        }
        i = i + 1;
    }
    None
}

/// Gets the device type name and VID/PID from the product ID alone.
pub fn device_info_from_pid(pid: u16) -> (r: Option<(u16, u16, &'static str)>)
    ensures
        r is Some <==> exists|i: int| 0 <= i < spec_device_map().len() && spec_device_map()[i].1 == pid,
        r matches Some(e) ==> exists|i: int|
            0 <= i < spec_device_map().len() && spec_device_map()[i].1 == pid && e.0
                == spec_device_map()[i].0 && e.1 == pid && e.2@ == spec_device_map()[i].2,
{
    let map = device_map();
    let mut i: usize = 0;
    while i < map.len()
        invariant
            i <= map@.len(),
            map@.len() == spec_device_map().len(),
            forall|k: int|
                0 <= k < map@.len() ==> (#[trigger] map@[k]).0 == spec_device_map()[k].0 && map@[k].1
                    == spec_device_map()[k].1 && map@[k].2@ == spec_device_map()[k].2,
            forall|k: int| 0 <= k < i ==> spec_device_map()[k].1 != pid,
        decreases map@.len() - i,
    {
        let (v, p, name) = map[i];
        if p == pid {
            return Some((v, p, name));
        }
        i = i + 1;
    }
    None
}

/// Whether the pair `(vid, pid)` is in `present`.
pub open spec fn pair_present(present: Seq<(u16, u16)>, vid: u16, pid: u16) -> bool {
    exists|k: int| 0 <= k < present.len() && present[k] == (vid, pid)
}

fn contains_pair(present: &Vec<(u16, u16)>, vid: u16, pid: u16) -> (r: bool)
    ensures
        r == pair_present(present@, vid, pid),
{
    let mut k: usize = 0;
    while k < present.len()
        invariant
            k <= present@.len(),
            forall|j: int| 0 <= j < k ==> present@[j] != (vid, pid),
        decreases present@.len() - k,
    {
        let (v, p) = present[k];
        if v == vid && p == pid {
            assert(present@[k as int] == (vid, pid));
            return true;
        }
        k = k + 1;
    }
    false
}

/// Gets the device type and VID/PID of the first known device type (in table
/// order) of which a device is connected; `present` lists the VID/PID of every
/// connected USB device.
pub fn find_any_known_device(present: &Vec<(u16, u16)>) -> (r: Option<(u16, u16, &'static str)>)
    ensures
        r is None <==> forall|i: int|
            0 <= i < spec_device_map().len() ==> !pair_present(
                present@,
                #[trigger] spec_device_map()[i].0,
                spec_device_map()[i].1,
            ),
        r matches Some(e) ==> exists|i: int|
            0 <= i < spec_device_map().len() && pair_present(
                present@,
                spec_device_map()[i].0,
                spec_device_map()[i].1,
            ) && e.0 == spec_device_map()[i].0 && e.1 == spec_device_map()[i].1 && e.2@
                == spec_device_map()[i].2 && forall|j: int|
                0 <= j < i ==> !pair_present(
                    present@,
                    #[trigger] spec_device_map()[j].0,
                    spec_device_map()[j].1,
                ),
{
    let map = device_map();
    let mut i: usize = 0;
    while i < map.len()
        invariant
            i <= map@.len(),
            map@.len() == spec_device_map().len(),
            forall|k: int|
                0 <= k < map@.len() ==> (#[trigger] map@[k]).0 == spec_device_map()[k].0 && map@[k].1
                    == spec_device_map()[k].1 && map@[k].2@ == spec_device_map()[k].2,
            forall|k: int|
                0 <= k < i ==> !pair_present(
                    present@,
                    #[trigger] spec_device_map()[k].0,
                    spec_device_map()[k].1,
                ),
        decreases map@.len() - i,
    {
        let (v, p, name) = map[i];
        if contains_pair(present, v, p) {
            return Some((v, p, name));
        }
        i = i + 1;
    }
    None
}

/// A connected USB device as the system lists it.
#[derive(Clone, Debug)]
pub struct UsbDeviceListing {
    pub vendor_id: u16,
    pub product_id: u16,
    pub serial_number: Option<String>,
}

/// ASCII hexadecimal digit.
pub open spec fn is_hex_char(c: char) -> bool {
    ('0' <= c && c <= '9') || ('a' <= c && c <= 'f') || ('A' <= c && c <= 'F')
}

/// The hexadecimal digits of `s`, in order (separators such as colons or
/// dashes dropped).
pub open spec fn hex_chars_of(s: Seq<char>) -> Seq<char>
    decreases s.len(),
{
    if s.len() == 0 {
        s
    } else {
        hex_chars_of(s.drop_last()) + if is_hex_char(s.last()) {
            seq![s.last()]
        } else {
            Seq::<char>::empty()
        }
    }
}

/// ASCII lower case of a character (others unchanged).
pub open spec fn ascii_lower(c: char) -> char {
    if 'A' <= c && c <= 'Z' {
        ((c as u32) + 32) as char
    } else {
        c
    }
}

/// Equality up to ASCII case (`str::eq_ignore_ascii_case`).
pub open spec fn eq_ignore_ascii_case(a: Seq<char>, b: Seq<char>) -> bool {
    &&& a.len() == b.len()
    &&& forall|i: int| 0 <= i < a.len() ==> ascii_lower(#[trigger] a[i]) == ascii_lower(b[i])
}

/// A serial number names the UUID when its hex digits spell the UUID's
/// bytes, in either case.
pub open spec fn serial_matches(serial: Seq<char>, uuid: Seq<u8>) -> bool {
    eq_ignore_ascii_case(hex_chars_of(serial), spec_bytes_hex_upper(uuid))
}

/// VID:PID is one of the known device types.
pub open spec fn is_known_pair(vid: u16, pid: u16) -> bool {
    exists|i: int| 0 <= i < spec_device_map().len() && spec_device_map()[i].0 == vid && spec_device_map()[i].1 == pid
}

/// A listed device is a known device type whose serial number names the UUID.
pub open spec fn listing_matches(d: UsbDeviceListing, uuid: Seq<u8>) -> bool {
    &&& is_known_pair(d.vendor_id, d.product_id)
    &&& d.serial_number matches Some(s) && serial_matches(s@, uuid)
}

fn is_hex_char_exec(c: char) -> (r: bool)
    ensures
        r == is_hex_char(c),
{
    ('0' <= c && c <= '9') || ('a' <= c && c <= 'f') || ('A' <= c && c <= 'F')
}

fn ascii_lower_exec(c: char) -> (r: char)
    ensures
        r == ascii_lower(c),
{
    if 'A' <= c && c <= 'Z' {
        let v = c as u32;
        ((v + 32) as u8) as char
    } else {
        c
    }
}

/// The hexadecimal digits of `s`.
fn hex_chars(s: &Vec<char>) -> (r: Vec<char>)
    ensures
        r@ == hex_chars_of(s@),
{
    let mut r: Vec<char> = Vec::new();
    let mut i: usize = 0;
    while i < s.len()
        invariant
            i <= s@.len(),
            r@ == hex_chars_of(s@.take(i as int)),
        decreases s@.len() - i,
    {
        let c = s[i];
        proof {
            assert(s@.take(i + 1).drop_last() =~= s@.take(i as int));
            assert(s@.take(i + 1).last() == c);
        }
        if is_hex_char_exec(c) {
            r.push(c);
        }
        i = i + 1;
        proof {
            let t = s@.take(i as int);
            if is_hex_char(c) {
                assert(r@ =~= hex_chars_of(t.drop_last()) + seq![c]);
            } else {
                assert(r@ =~= hex_chars_of(t.drop_last()) + Seq::<char>::empty());
            }
        }
    }
    assert(s@.take(s@.len() as int) =~= s@);
    r
}

fn eq_ignore_case(a: &Vec<char>, b: &Vec<char>) -> (r: bool)
    ensures
        r == eq_ignore_ascii_case(a@, b@),
{
    if a.len() != b.len() {
        return false;
    }
    let mut i: usize = 0;
    while i < a.len()
        invariant
            i <= a@.len(),
            a@.len() == b@.len(),
            forall|j: int| 0 <= j < i ==> ascii_lower(#[trigger] a@[j]) == ascii_lower(b@[j]),
        decreases a@.len() - i,
    {
        if ascii_lower_exec(a[i]) != ascii_lower_exec(b[i]) {
            return false;
        }
        i = i + 1;
    }
    true
}

fn is_known_pair_exec(vid: u16, pid: u16) -> (r: bool)
    ensures
        r == is_known_pair(vid, pid),
{
    device_type_from_vid_pid(vid, pid).is_some()
}

/// VID/PID of the first listed device of a known type whose serial number
/// (which encodes the BLE MAC address in hex, e.g. `"AABBCCDDEEFF"`) names
/// the UUID, ignoring case and separators.
pub fn find_device_vid_pid_by_uuid(uuid: &[u8; 6], devices: &Vec<UsbDeviceListing>) -> (r: Option<(u16, u16)>)
    ensures
        match r {
            None => forall|k: int| 0 <= k < devices@.len() ==> !listing_matches(#[trigger] devices@[k], uuid@),
            Some(p) => exists|k: int|
                0 <= k < devices@.len() && listing_matches(devices@[k], uuid@) && p == (
                    devices@[k].vendor_id,
                    devices@[k].product_id,
                ) && forall|j: int| 0 <= j < k ==> !listing_matches(#[trigger] devices@[j], uuid@),
        },
{
    let mut hex = String::from_str("");
    proof {
        reveal_strlit("");
    }
    push_bytes_hex(&mut hex, uuid, true);
    let uuid_hex = chars_of(hex.as_str());
    assert(uuid_hex@ =~= spec_bytes_hex_upper(uuid@));
    let mut k: usize = 0;
    while k < devices.len()
        invariant
            k <= devices@.len(),
            uuid_hex@ == spec_bytes_hex_upper(uuid@),
            forall|j: int| 0 <= j < k ==> !listing_matches(#[trigger] devices@[j], uuid@),
        decreases devices@.len() - k,
    {
        let d = &devices[k];
        if is_known_pair_exec(d.vendor_id, d.product_id) {
            match &d.serial_number {
                Some(serial) => {
                    let clean = hex_chars(&chars_of(serial.as_str()));
                    if eq_ignore_case(&clean, &uuid_hex) {
                        return Some((d.vendor_id, d.product_id));
                    }
                },
                None => {},
            }
        }
        k = k + 1;
    }
    None
}

} // verus!
