//! DFU decisions taken from a device's USB interface descriptors: which
//! interface is the DFU one, whether the device is in DFU or application
//! mode, and which bank (alt setting) to flash.
use crate::seqs::{first_index, is_first, lemma_first_index_none, lemma_first_index_some};
use crate::text::{contains_chars, chars_of, spec_contains};
use vstd::prelude::*;
use vstd::string::StringExecFns;

verus! {

/// DFU interface class.
pub const DFU_CLASS: u8 = 0xFE;

/// DFU interface subclass.
pub const DFU_SUBCLASS: u8 = 0x01;

/// DFU interface protocol of a device in DFU mode (runtime mode is 0x01).
pub const DFU_PROTOCOL_DFU_MODE: u8 = 0x02;

/// One alternate setting of one interface, as read from the device's
/// configuration descriptors (in configuration, interface, alt setting order).
/// `string` is the alt setting's string descriptor where it has one and it
/// could be read.
#[derive(Debug, Clone)]
pub struct AltSetting {
    pub interface_number: u8,
    pub alternate_setting: u8,
    pub class: u8,
    pub subclass: u8,
    pub protocol: u8,
    pub string: Option<String>,
}

/// What looking up a device by VID/PID on the USB bus gave.
#[derive(Debug, Clone)]
pub enum DeviceLookup {
    /// The bus was listed and holds no device with this VID/PID.
    NotFound,
    /// Listing the bus, or opening the listed device, failed; holds the
    /// USB error's message.
    UsbFailed(String),
    /// The device was opened; its alt settings in descriptor order.
    Opened(Vec<AltSetting>),
}

/// DFU-related errors. The last three carry the message of an error of the
/// USB stack, of the DFU protocol layer, or of I/O.
#[derive(Debug, Clone, PartialEq, Eq)]
pub enum DfuError {
    DeviceNotFound,
    AltInterfaceNotFound(String),
    DfuInterfaceNotFound,
    Dfu(String),
    Usb(String),
    Io(String),
}

pub open spec fn is_dfu_alt(a: AltSetting) -> bool {
    a.class == DFU_CLASS && a.subclass == DFU_SUBCLASS
}

pub open spec fn is_dfu_alt_pred() -> spec_fn(AltSetting) -> bool {
    |a: AltSetting| is_dfu_alt(a)
}

/// An alt setting of interface `iface` that reports DFU mode.
pub open spec fn is_dfu_mode_alt(a: AltSetting, iface: u8) -> bool {
    a.interface_number == iface && is_dfu_alt(a) && a.protocol == DFU_PROTOCOL_DFU_MODE
}

/// The interface number of the first DFU alt setting.
pub open spec fn spec_dfu_interface(alts: Seq<AltSetting>) -> Option<u8> {
    match first_index(alts, is_dfu_alt_pred()) {
        Some(k) => Some(alts[k].interface_number),
        None => None,
    }
}

/// Finds the DFU interface number on a device.
pub fn find_dfu_interface(alts: &Vec<AltSetting>) -> (r: Result<u8, DfuError>)
    ensures
        match spec_dfu_interface(alts@) {
            Some(n) => r == Ok::<u8, DfuError>(n),
            None => r == Err::<u8, DfuError>(DfuError::DfuInterfaceNotFound),
        },
{
    let mut k: usize = 0;
    while k < alts.len()
        invariant
            k <= alts@.len(),
            forall|j: int| 0 <= j < k ==> !is_dfu_alt_pred()(#[trigger] alts@[j]),
        decreases alts@.len() - k,
    {
        if alts[k].class == DFU_CLASS && alts[k].subclass == DFU_SUBCLASS {
            proof {
                assert(is_first(alts@, is_dfu_alt_pred(), k as int));
                lemma_first_index_some(alts@, is_dfu_alt_pred(), k as int);
            }
            return Ok(alts[k].interface_number);
        }
        k = k + 1;
    }
    proof {
        lemma_first_index_none(alts@, is_dfu_alt_pred());
    }
    Err(DfuError::DfuInterfaceNotFound)
}

/// Some alt setting of interface `iface` reports DFU mode.
pub open spec fn spec_in_dfu_mode(alts: Seq<AltSetting>, iface: u8) -> bool {
    exists|k: int| 0 <= k < alts.len() && is_dfu_mode_alt(alts[k], iface)
}

/// Whether interface `iface` has an alt setting in DFU mode.
pub fn interface_in_dfu_mode(alts: &Vec<AltSetting>, iface: u8) -> (r: bool)
    ensures
        r == spec_in_dfu_mode(alts@, iface),
{
    let mut k: usize = 0;
    while k < alts.len()
        invariant
            k <= alts@.len(),
            forall|j: int| 0 <= j < k ==> !is_dfu_mode_alt(#[trigger] alts@[j], iface),
        decreases alts@.len() - k,
    {
        let a = &alts[k];
        if a.interface_number == iface && a.class == DFU_CLASS && a.subclass == DFU_SUBCLASS
            && a.protocol == DFU_PROTOCOL_DFU_MODE {
            assert(is_dfu_mode_alt(alts@[k as int], iface));
            return true;
        }
        k = k + 1;
    }
    false
}

/// A device that was found and opened is in DFU mode when its DFU interface
/// has an alt setting with the DFU-mode protocol.
pub open spec fn spec_device_in_dfu_mode(alts: Seq<AltSetting>) -> bool {
    match spec_dfu_interface(alts) {
        Some(i) => spec_in_dfu_mode(alts, i),
        None => false,
    }
}

/// Whether the device whose descriptors are `alts` is in DFU mode (the check
/// made on each poll while waiting for a device to enter DFU mode).
pub fn device_in_dfu_mode(alts: &Vec<AltSetting>) -> (r: bool)
    ensures
        r == spec_device_in_dfu_mode(alts@),
{
    match find_dfu_interface(alts) {
        Ok(i) => interface_in_dfu_mode(alts, i),
        Err(_) => false,
    }
}

/// Checks if a device is present and in application mode (not DFU mode).
/// Returns true if the device was found and opened and is in app mode,
/// false otherwise (a USB failure counts as not present).
pub fn is_device_in_app_mode(device: &DeviceLookup) -> (r: bool)
    ensures
        match device {
            DeviceLookup::Opened(alts) => r == !spec_device_in_dfu_mode(alts@),
            _ => !r,
        },
{
    match device {
        DeviceLookup::Opened(alts) => !device_in_dfu_mode(alts),
        _ => false,
    }
}

/// An alt setting of interface `iface` whose string descriptor names `slot`.
pub open spec fn is_slot_alt(a: AltSetting, iface: u8, slot: Seq<char>) -> bool {
    &&& a.interface_number == iface
    &&& is_dfu_alt(a)
    &&& a.string matches Some(desc) && spec_contains(desc@, slot)
}

pub open spec fn is_slot_alt_pred(iface: u8, slot: Seq<char>) -> spec_fn(AltSetting) -> bool {
    |a: AltSetting| is_slot_alt(a, iface, slot)
}

/// The alt setting number of the first alt setting naming `slot`.
pub open spec fn spec_alt_for_slot(alts: Seq<AltSetting>, iface: u8, slot: Seq<char>) -> Option<u8> {
    match first_index(alts, is_slot_alt_pred(iface, slot)) {
        Some(k) => Some(alts[k].alternate_setting),
        None => None,
    }
}

/// Finds the alt setting for a given slot name (e.g. "APP_A" or "APP_B"):
/// the first DFU alt setting of interface `interface_num` whose string
/// descriptor contains the slot name.
pub fn find_alt_for_slot(alts: &Vec<AltSetting>, interface_num: u8, slot: &str) -> (r: Result<u8, DfuError>)
    ensures
        match spec_alt_for_slot(alts@, interface_num, slot@) {
            Some(n) => r == Ok::<u8, DfuError>(n),
            None => r matches Err(DfuError::AltInterfaceNotFound(s)) && s@ == slot@,
        },
{
    let needle = chars_of(slot);
    let mut k: usize = 0;
    while k < alts.len()
        invariant
            k <= alts@.len(),
            needle@ == slot@,
            forall|j: int| 0 <= j < k ==> !is_slot_alt_pred(interface_num, slot@)(#[trigger] alts@[j]),
        decreases alts@.len() - k,
    {
        let a = &alts[k];
        if a.interface_number == interface_num && a.class == DFU_CLASS && a.subclass == DFU_SUBCLASS {
            match &a.string {
                Some(desc) => {
                    let hay = chars_of(desc.as_str());
                    if contains_chars(&hay, &needle) {
                        proof {
                            assert(is_first(alts@, is_slot_alt_pred(interface_num, slot@), k as int));
                            lemma_first_index_some(alts@, is_slot_alt_pred(interface_num, slot@), k as int);
                        }
                        return Ok(a.alternate_setting);
                    }
                },
                None => {},
            }
        }
        k = k + 1;
    }
    proof {
        lemma_first_index_none(alts@, is_slot_alt_pred(interface_num, slot@));
    }
    Err(DfuError::AltInterfaceNotFound(String::from_str(slot)))
}

/// The bank to flash: the bootloader exposes the inactive bank, so APP_A is
/// chosen when it is exposed, APP_B otherwise.
pub open spec fn spec_target_slot(alts: Seq<AltSetting>, iface: u8) -> Option<(Seq<char>, Seq<char>, u8)> {
    match spec_alt_for_slot(alts, iface, "APP_A"@) {
        Some(alt) => Some(("APP_A"@, "app-a"@, alt)),
        None => match spec_alt_for_slot(alts, iface, "APP_B"@) {
            Some(alt) => Some(("APP_B"@, "app-b"@, alt)),
            None => None,
        },
    }
}

/// Determines which slot to flash by reading the DFU interface alt settings.
/// Returns (slot name "APP_A"/"APP_B", firmware file "app-a"/"app-b", alt setting).
pub fn determine_target_slot(alts: &Vec<AltSetting>, interface_num: u8) -> (r: Result<
    (&'static str, &'static str, u8),
    DfuError,
>)
    ensures
        match spec_target_slot(alts@, interface_num) {
            Some(t) => r matches Ok(v) && v.0@ == t.0 && v.1@ == t.1 && v.2 == t.2,
            None => r matches Err(DfuError::AltInterfaceNotFound(s)) && s@ == "APP_A or APP_B"@,
        },
{
    let app_a = find_alt_for_slot(alts, interface_num, "APP_A");
    let app_b = find_alt_for_slot(alts, interface_num, "APP_B");
    match (app_a, app_b) {
        (Ok(alt), _) => Ok(("APP_A", "app-a", alt)),
        (_, Ok(alt)) => Ok(("APP_B", "app-b", alt)),
        _ => Err(DfuError::AltInterfaceNotFound(String::from_str("APP_A or APP_B"))),
    }
}

/// Determines which slot to flash for a device from what looking it up gave:
/// a device that is not listed is `DeviceNotFound`, a failed listing or open
/// is the USB error, and an opened device is judged by its DFU interface's
/// alt settings.
pub fn determine_target_slot_for_device(device: &DeviceLookup) -> (r: Result<
    (&'static str, &'static str, u8),
    DfuError,
>)
    ensures
        match device {
            DeviceLookup::NotFound => r == Err::<(&'static str, &'static str, u8), DfuError>(
                DfuError::DeviceNotFound,
            ),
            DeviceLookup::UsbFailed(m) => r matches Err(DfuError::Usb(s)) && s@ == m@,
            DeviceLookup::Opened(alts) => match spec_dfu_interface(alts@) {
                None => r == Err::<(&'static str, &'static str, u8), DfuError>(
                    DfuError::DfuInterfaceNotFound,
                ),
                Some(i) => match spec_target_slot(alts@, i) {
                    Some(t) => r matches Ok(v) && v.0@ == t.0 && v.1@ == t.1 && v.2 == t.2,
                    None => r matches Err(DfuError::AltInterfaceNotFound(s)) && s@ == "APP_A or APP_B"@,
                },
            },
        },
{
    match device {
        DeviceLookup::NotFound => Err(DfuError::DeviceNotFound),
        DeviceLookup::UsbFailed(m) => Err(DfuError::Usb(m.clone())),
        DeviceLookup::Opened(alts) => {
            let interface_num = match find_dfu_interface(alts) {
                Ok(n) => n,
                Err(e) => return Err(e),
            };
            determine_target_slot(alts, interface_num)
        },
    }
}


/// What one poll while waiting for a device to enter DFU mode decides.
#[derive(Debug, Clone, Copy, PartialEq, Eq, Structural)]
pub enum DfuWait {
    /// The device is there and in DFU mode.
    Ready,
    /// Not yet: poll again after a pause.
    Retry,
    /// The wait took longer than allowed; the device counts as not found.
    TimedOut,
}

/// One poll of the wait for DFU mode: past the timeout the wait gives up
/// (before looking at the bus); otherwise it is over once the device is found,
/// opened and in DFU mode, and goes on in every other case.
pub open spec fn spec_dfu_wait_step(elapsed_ms: u64, timeout_ms: u64, device: DeviceLookup) -> DfuWait {
    if elapsed_ms > timeout_ms {
        DfuWait::TimedOut
    } else {
        match device {
            DeviceLookup::Opened(alts) => if spec_device_in_dfu_mode(alts@) {
                DfuWait::Ready
            } else {
                DfuWait::Retry
            },
            _ => DfuWait::Retry,
        }
    }
}

/// Decides one poll of the wait for a device to enter DFU mode, from the
/// time waited so far, the time allowed, and what the bus showed.
pub fn dfu_wait_step(elapsed_ms: u64, timeout_ms: u64, device: &DeviceLookup) -> (r: DfuWait)
    ensures
        r == spec_dfu_wait_step(elapsed_ms, timeout_ms, *device),
{
    if elapsed_ms > timeout_ms {
        DfuWait::TimedOut
    } else {
        match device {
            DeviceLookup::Opened(alts) => if device_in_dfu_mode(alts) {
                DfuWait::Ready
            } else {
                DfuWait::Retry
            },
            _ => DfuWait::Retry,
        }
    }
}


/// Where some alt setting names a slot, the first one naming it is found.
proof fn lemma_alt_for_slot_found(alts: Seq<AltSetting>, iface: u8, slot: Seq<char>)
    ensures
        match spec_alt_for_slot(alts, iface, slot) {
            Some(n) => exists|k: int|
                0 <= k < alts.len() && is_slot_alt(#[trigger] alts[k], iface, slot) && alts[k].alternate_setting == n,
            None => forall|k: int| 0 <= k < alts.len() ==> !is_slot_alt(#[trigger] alts[k], iface, slot),
        },
{
    let p = is_slot_alt_pred(iface, slot);
    if exists|k: int| 0 <= k < alts.len() && is_slot_alt(alts[k], iface, slot) {
        let k = choose|k: int| 0 <= k < alts.len() && is_slot_alt(alts[k], iface, slot);
        assert(p(alts[k]));
        crate::seqs::lemma_has_first(alts, p, k);
    }
}

/// The bank chosen to flash is named by a DFU alt setting of the interface:
/// the slot and the firmware file always belong together (APP_A with app-a,
/// APP_B with app-b), the alt setting returned is one whose string names the
/// slot, APP_A is chosen whenever some alt setting names it, APP_B only when
/// none names APP_A, and nothing is chosen only when no alt setting names
/// either.
pub proof fn lemma_target_slot_is_named(alts: Seq<AltSetting>, iface: u8)
    ensures
        match spec_target_slot(alts, iface) {
            Some(t) => {
                &&& (t.0 == "APP_A"@ && t.1 == "app-a"@) || (t.0 == "APP_B"@ && t.1 == "app-b"@)
                &&& exists|k: int|
                    0 <= k < alts.len() && is_slot_alt(#[trigger] alts[k], iface, t.0) && alts[k].alternate_setting
                        == t.2
            },
            None => forall|k: int|
                0 <= k < alts.len() ==> !is_slot_alt(#[trigger] alts[k], iface, "APP_A"@) && !is_slot_alt(
                    alts[k],
                    iface,
                    "APP_B"@,
                ),
        },
        (exists|k: int| 0 <= k < alts.len() && is_slot_alt(#[trigger] alts[k], iface, "APP_A"@)) ==> (
        spec_target_slot(alts, iface) matches Some(t) && t.0 == "APP_A"@),
        (spec_target_slot(alts, iface) matches Some(t) && t.0 == "APP_B"@) ==> forall|k: int|
            0 <= k < alts.len() ==> !is_slot_alt(#[trigger] alts[k], iface, "APP_A"@),
{
    lemma_alt_for_slot_found(alts, iface, "APP_A"@);
    lemma_alt_for_slot_found(alts, iface, "APP_B"@);
    reveal_strlit("APP_A");
    reveal_strlit("APP_B");
    assert("APP_A"@ != "APP_B"@) by {
        assert("APP_A"@[4] != "APP_B"@[4]);
    }
}

} // verus!
