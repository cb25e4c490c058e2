//! Progress of firmware updates: the per-device update state and its status
//! text, the registry of states and of devices being updated, and the
//! progress counter that reports flashing in steps of ten percent.
use crate::decimal::{push_decimal, spec_decimal};
use crate::device::{Device, CONTROL};
use crate::firmware::{
    find_compatible_firmware, is_first_eligible, spec_device_index, spec_eligible, FileEntry, FirmwareEntry,
    FirmwareManifest,
};
use crate::hexkeymap::HexKeyMapN;
use vstd::prelude::*;
use vstd::string::StringExecFns;

verus! {

/// State of one device's firmware update.
#[derive(Debug)]
pub enum FirmwareUpdateState {
    /// No update available or not yet checked.
    Idle,
    /// An update is available.
    Available { current: [u16; 3], available: String, device_type: String, vid: u16, pid: u16 },
    /// Downloading the firmware.
    Downloading,
    /// Sending the DFU detach command.
    Detaching,
    /// Waiting for the device to enter DFU mode.
    WaitingForDfu,
    /// Flashing: bytes written so far and in all.
    Flashing { progress: usize, total: usize },
    /// Waiting for the device to reboot after flashing.
    Rebooting,
    /// Checking the new firmware version.
    Verifying,
    /// The update completed.
    Complete,
    /// The update failed, with the reason.
    Failed(String),
}

impl Clone for FirmwareUpdateState {
    fn clone(&self) -> (r: Self)
        ensures
            r == *self,
    {
        match self {
            FirmwareUpdateState::Idle => FirmwareUpdateState::Idle,
            FirmwareUpdateState::Available { current, available, device_type, vid, pid } => {
                FirmwareUpdateState::Available {
                    current: *current,
                    available: available.clone(),
                    device_type: device_type.clone(),
                    vid: *vid,
                    pid: *pid,
                }
            },
            FirmwareUpdateState::Downloading => FirmwareUpdateState::Downloading,
            FirmwareUpdateState::Detaching => FirmwareUpdateState::Detaching,
            FirmwareUpdateState::WaitingForDfu => FirmwareUpdateState::WaitingForDfu,
            FirmwareUpdateState::Flashing { progress, total } => FirmwareUpdateState::Flashing {
                progress: *progress,
                total: *total,
            },
            FirmwareUpdateState::Rebooting => FirmwareUpdateState::Rebooting,
            FirmwareUpdateState::Verifying => FirmwareUpdateState::Verifying,
            FirmwareUpdateState::Complete => FirmwareUpdateState::Complete,
            FirmwareUpdateState::Failed(e) => FirmwareUpdateState::Failed(e.clone()),
        }
    }
}

/// Whole percent of `progress` out of `total` (0 when `total` is 0).
pub open spec fn spec_flashing_percent(progress: nat, total: nat) -> nat {
    if total > 0 {
        progress * 100 / total
    } else {
        0
    }
}

pub fn flashing_percent(progress: usize, total: usize) -> (r: usize)
    requires
        progress * 100 <= usize::MAX,
    ensures
        r == spec_flashing_percent(progress as nat, total as nat),
{
    if total > 0 {
        (progress * 100) / total
    } else {
        0
    }
}

/// Status line shown for a state.
pub open spec fn spec_status_text(s: FirmwareUpdateState) -> Seq<char> {
    match s {
        FirmwareUpdateState::Idle => "Idle"@,
        FirmwareUpdateState::Available { .. } => "Update available"@,
        FirmwareUpdateState::Downloading => "Downloading..."@,
        FirmwareUpdateState::Detaching => "Preparing device..."@,
        FirmwareUpdateState::WaitingForDfu => "Waiting for DFU mode..."@,
        FirmwareUpdateState::Flashing { progress, total } => "Flashing... "@ + spec_decimal(
            spec_flashing_percent(progress as nat, total as nat),
        ) + "%"@,
        FirmwareUpdateState::Rebooting => "Rebooting device..."@,
        FirmwareUpdateState::Verifying => "Verifying update..."@,
        FirmwareUpdateState::Complete => "Update complete!"@,
        FirmwareUpdateState::Failed(e) => "Failed: "@ + e@,
    }
}

impl FirmwareUpdateState {
    /// The status line of this state.
    pub fn status_text(&self) -> (r: String)
        requires
            self matches FirmwareUpdateState::Flashing { progress, .. } ==> progress * 100 <= usize::MAX,
        ensures
            r@ == spec_status_text(*self),
    {
        match self {
            FirmwareUpdateState::Idle => String::from_str("Idle"),
            FirmwareUpdateState::Available { .. } => String::from_str("Update available"),
            FirmwareUpdateState::Downloading => String::from_str("Downloading..."),
            FirmwareUpdateState::Detaching => String::from_str("Preparing device..."),
            FirmwareUpdateState::WaitingForDfu => String::from_str("Waiting for DFU mode..."),
            FirmwareUpdateState::Flashing { progress, total } => {
                let percent = flashing_percent(*progress, *total);
                let mut s = String::from_str("Flashing... ");
                push_decimal(&mut s, percent as u64);
                s.append("%");
                s
            },
            FirmwareUpdateState::Rebooting => String::from_str("Rebooting device..."),
            FirmwareUpdateState::Verifying => String::from_str("Verifying update..."),
            FirmwareUpdateState::Complete => String::from_str("Update complete!"),
            FirmwareUpdateState::Failed(e) => {
                let mut s = String::from_str("Failed: ");
                s.append(e.as_str());
                s
            },
        }
    }

    /// Whether the update failed.
    pub fn is_error(&self) -> (r: bool)
        ensures
            r == (*self is Failed),
    {
        matches!(self, FirmwareUpdateState::Failed(_))
    }

    /// Whether the update completed.
    pub fn is_complete(&self) -> (r: bool)
        ensures
            r == (*self is Complete),
    {
        matches!(self, FirmwareUpdateState::Complete)
    }

    /// Whether the device is being flashed.
    pub fn is_flashing(&self) -> (r: bool)
        ensures
            r == (*self is Flashing),
    {
        matches!(self, FirmwareUpdateState::Flashing { .. })
    }
}

/// The update state of each device (by UUID) and the set of devices whose
/// update is running.
pub struct FirmwareUpdateManager {
    states: HexKeyMapN<FirmwareUpdateState, 6>,
    updating: HexKeyMapN<(), 6>,
}

impl FirmwareUpdateManager {
    pub closed spec fn wf(&self) -> bool {
        self.states.wf() && self.updating.wf()
    }

    /// Recorded state of each device UUID.
    pub closed spec fn spec_states(&self) -> Map<Seq<u8>, FirmwareUpdateState> {
        self.states.spec_map()
    }

    /// UUIDs whose update is running.
    pub closed spec fn spec_updating(&self) -> Set<Seq<u8>> {
        self.updating.spec_map().dom()
    }

    /// State of `uuid` as readers see it: `Idle` when none is recorded.
    pub open spec fn spec_state_of(&self, uuid: Seq<u8>) -> FirmwareUpdateState {
        state_in(self.spec_states(), uuid)
    }

    pub fn new() -> (r: Self)
        ensures
            r.wf(),
            r.spec_states() == Map::<Seq<u8>, FirmwareUpdateState>::empty(),
            r.spec_updating() == Set::<Seq<u8>>::empty(),
    {
        let r = FirmwareUpdateManager { states: HexKeyMapN::new(), updating: HexKeyMapN::new() };
        assert(r.updating.spec_map().dom() =~= Set::<Seq<u8>>::empty());
        r
    }

    /// State of `uuid`, `Idle` when none is recorded.
    pub fn get_state(&self, uuid: &[u8; 6]) -> (r: FirmwareUpdateState)
        requires
            self.wf(),
        ensures
            r == self.spec_state_of(uuid@),
    {
        match self.states.get(uuid) {
            Some(s) => s.clone(),
            None => FirmwareUpdateState::Idle,
        }
    }

    /// Records the state of `uuid`.
    pub fn set_state(&mut self, uuid: [u8; 6], state: FirmwareUpdateState)
        requires
            old(self).wf(),
        ensures
            final(self).wf(),
            final(self).spec_states() == old(self).spec_states().insert(uuid@, state),
            final(self).spec_updating() == old(self).spec_updating(),
    {
        self.states.insert(uuid, state);
    }

    /// Whether the update of `uuid` is running.
    pub fn is_updating(&self, uuid: &[u8; 6]) -> (r: bool)
        requires
            self.wf(),
        ensures
            r == self.spec_updating().contains(uuid@),
    {
        self.updating.get(uuid).is_some()
    }

    /// Marks the update of `uuid` as running.
    pub fn add_updating(&mut self, uuid: [u8; 6])
        requires
            old(self).wf(),
        ensures
            final(self).wf(),
            final(self).spec_updating() == old(self).spec_updating().insert(uuid@),
            final(self).spec_states() == old(self).spec_states(),
    {
        self.updating.insert(uuid, ());
        assert(self.updating.spec_map().dom() =~= old(self).updating.spec_map().dom().insert(uuid@));
    }

    /// Marks the update of `uuid` as no longer running.
    pub fn remove_updating(&mut self, uuid: &[u8; 6])
        requires
            old(self).wf(),
        ensures
            final(self).wf(),
            final(self).spec_updating() == old(self).spec_updating().remove(uuid@),
            final(self).spec_states() == old(self).spec_states(),
    {
        let _ = self.updating.remove(uuid);
        assert(self.updating.spec_map().dom() =~= old(self).updating.spec_map().dom().remove(uuid@));
    }

    /// UUIDs whose update is running, each once.
    pub fn get_all_updating(&self) -> (r: Vec<[u8; 6]>)
        requires
            self.wf(),
        ensures
            forall|k: Seq<u8>| self.spec_updating().contains(k) <==> exists|i: int| 0 <= i < r@.len() && r@[i]@ == k,
            forall|i: int, j: int| 0 <= i < j < r@.len() ==> r@[i]@ != r@[j]@,
    {
        self.updating.keys()
    }

    /// Forgets the state of `uuid` and its running mark.
    pub fn clear_state(&mut self, uuid: &[u8; 6])
        requires
            old(self).wf(),
        ensures
            final(self).wf(),
            final(self).spec_states() == old(self).spec_states().remove(uuid@),
            final(self).spec_updating() == old(self).spec_updating().remove(uuid@),
    {
        let _ = self.states.remove(uuid);
        let _ = self.updating.remove(uuid);
        assert(self.updating.spec_map().dom() =~= old(self).updating.spec_map().dom().remove(uuid@));
    }
}

/// State recorded for `uuid` in `states`, `Idle` when none is.
pub open spec fn state_in(states: Map<Seq<u8>, FirmwareUpdateState>, uuid: Seq<u8>) -> FirmwareUpdateState {
    if states.dom().contains(uuid) {
        states[uuid]
    } else {
        FirmwareUpdateState::Idle
    }
}

/// Reading the state of a device gives the last state recorded for it, and
/// `Idle` once it is cleared; recording or clearing one device leaves every
/// other device's state as it was.
pub proof fn lemma_update_state_read_after_write(
    states: Map<Seq<u8>, FirmwareUpdateState>,
    uuid: Seq<u8>,
    other: Seq<u8>,
    state: FirmwareUpdateState,
)
    requires
        other != uuid,
    ensures
        state_in(states.insert(uuid, state), uuid) == state,
        state_in(states.remove(uuid), uuid) == FirmwareUpdateState::Idle,
        state_in(states.insert(uuid, state), other) == state_in(states, other),
        state_in(states.remove(uuid), other) == state_in(states, other),
{
}

// --- Flashing progress ---

/// Progress of reading a firmware image into the DFU writer: counts the
/// bytes read and decides when progress is logged, at every ten percent
/// and at completion. The reader that feeds the writer calls `record_read`
/// after each read.
pub struct ProgressReader {
    total_size: usize,
    bytes_read: usize,
    last_logged_percent: usize,
}

/// Outcome of one read: bytes so far, size in all, percent, and whether
/// this read is logged.
#[derive(Clone, Copy, Debug, PartialEq, Eq, Structural)]
pub struct ProgressStep {
    pub bytes_read: usize,
    pub total_size: usize,
    pub percent: usize,
    pub log: bool,
}

/// Percent read: bytes * 100 / size, or 100 for an empty image.
pub open spec fn spec_read_percent(bytes_read: nat, total_size: nat) -> nat {
    if total_size > 0 {
        bytes_read * 100 / total_size
    } else {
        100
    }
}

impl ProgressReader {
    pub closed spec fn spec_total_size(&self) -> nat {
        self.total_size as nat
    }

    pub closed spec fn spec_bytes_read(&self) -> nat {
        self.bytes_read as nat
    }

    pub closed spec fn spec_last_logged_percent(&self) -> nat {
        self.last_logged_percent as nat
    }

    /// The last logged percent is a multiple of ten, at most the percent of
    /// the bytes read so far.
    pub open spec fn wf(&self) -> bool {
        &&& self.spec_last_logged_percent() % 10 == 0
        &&& self.spec_last_logged_percent() <= spec_read_percent(self.spec_bytes_read(), self.spec_total_size())
    }

    pub fn new(total_size: usize) -> (r: Self)
        ensures
            r.wf(),
            r.spec_total_size() == total_size,
            r.spec_bytes_read() == 0,
            r.spec_last_logged_percent() == 0,
    {
        ProgressReader { total_size, bytes_read: 0, last_logged_percent: 0 }
    }

    /// Accounts for `n` more bytes read. The read is logged when the percent
    /// is ten or more above the last logged one, or is 100; the logged
    /// percent is then rounded down to a multiple of ten.
    pub fn record_read(&mut self, n: usize) -> (step: ProgressStep)
        requires
            old(self).spec_bytes_read() + n <= usize::MAX,
            old(self).spec_total_size() > 0 ==> (old(self).spec_bytes_read() + n) * 100 <= usize::MAX,
        ensures
            final(self).spec_total_size() == old(self).spec_total_size(),
            final(self).spec_bytes_read() == old(self).spec_bytes_read() + n,
            step.bytes_read == final(self).spec_bytes_read(),
            step.total_size == old(self).spec_total_size(),
            step.percent == spec_read_percent(final(self).spec_bytes_read(), old(self).spec_total_size()),
            step.log == (step.percent >= old(self).spec_last_logged_percent() + 10 || step.percent == 100),
            step.log ==> final(self).spec_last_logged_percent() == (step.percent / 10) * 10,
            !step.log ==> final(self).spec_last_logged_percent() == old(self).spec_last_logged_percent(),
            old(self).wf() ==> final(self).wf(),
    {
        let ghost before = spec_read_percent(self.bytes_read as nat, self.total_size as nat);
        self.bytes_read = self.bytes_read + n;
        let percent = if self.total_size > 0 {
            (self.bytes_read * 100) / self.total_size
        } else {
            100
        };
        proof {
            if self.total_size > 0 {
                lemma_percent_monotone(old(self).bytes_read as nat, self.bytes_read as nat, self.total_size as nat);
            }
        }
        let log = (percent >= 10 && percent - 10 >= self.last_logged_percent) || percent == 100;
        if log {
            self.last_logged_percent = (percent / 10) * 10;
        }
        ProgressStep { bytes_read: self.bytes_read, total_size: self.total_size, percent, log }
    }
}

proof fn lemma_percent_monotone(a: nat, b: nat, t: nat)
    requires
        a <= b,
        t > 0,
    ensures
        a * 100 / t <= b * 100 / t,
{
    assert(a * 100 <= b * 100);
    vstd::arithmetic::div_mod::lemma_div_is_ordered((a * 100) as int, (b * 100) as int, t as int);
}

// --- Update workflow decisions ---

/// The update to offer a device whose state may change (idle, or already
/// offered an update) and that has its USB control interface: the first
/// compatible newer firmware for its type in the manifest. `known` is the
/// connected known device type (VID, PID, type name).
pub fn available_update_state(
    device: &Device,
    current_state: &FirmwareUpdateState,
    manifest: Option<&FirmwareManifest>,
    known: Option<(u16, u16, &str)>,
) -> (r: Option<FirmwareUpdateState>)
    ensures
        !device.capabilities.spec_contains(CONTROL) ==> r is None,
        !(*current_state is Idle || *current_state is Available) ==> r is None,
        manifest is None || known is None ==> r is None,
        r matches Some(st) ==> ({
            &&& device.capabilities.spec_contains(CONTROL)
            &&& (*current_state is Idle || *current_state is Available)
            &&& manifest matches Some(m) && known matches Some(k) && spec_device_index(m.devices@, k.2@) matches Some(
                d,
            ) && st matches FirmwareUpdateState::Available { current, available, device_type, vid, pid } && current
                == device.firmware_version && device_type@ == k.2@ && vid == k.0 && pid == k.1 && exists|e: FirmwareEntry|
                is_first_eligible(m.devices@[d].1.firmwares@, device.firmware_version, e) && available@ == e.version@
        }),
        r is None && device.capabilities.spec_contains(CONTROL) && (*current_state is Idle
            || *current_state is Available) ==> match (manifest, known) {
            (Some(m), Some(k)) => match spec_device_index(m.devices@, k.2@) {
                Some(d) => forall|j: int|
                    0 <= j < m.devices@[d].1.firmwares@.len() ==> !spec_eligible(
                        #[trigger] m.devices@[d].1.firmwares@[j],
                        device.firmware_version,
                    ),
                None => true,
            },
            _ => true,
        },
{
    if !device.capabilities.contains(CONTROL) {
        return None;
    }
    let may_change = match current_state {
        FirmwareUpdateState::Idle => true,
        FirmwareUpdateState::Available { .. } => true,
        _ => false,
    };
    if !may_change {
        return None;
    }
    let m = match manifest {
        Some(m) => m,
        None => return None,
    };
    let (vid, pid, device_type) = match known {
        Some(k) => k,
        None => return None,
    };
    let version = device.firmware_version;
    match find_compatible_firmware(m, device_type, version) {
        Some(fw) => Some(
            FirmwareUpdateState::Available {
                current: version,
                available: fw.version.clone(),
                device_type: String::from_str(device_type),
                vid,
                pid,
            },
        ),
        None => None,
    }
}

/// The file of a firmware entry with the given name (the first such).
pub fn firmware_file<'a>(entry: &'a FirmwareEntry, name: &str) -> (r: Result<&'a FileEntry, String>)
    ensures
        match r {
            Ok(f) => exists|i: int|
                0 <= i < entry.files@.len() && entry.files@[i].0@ == name@ && entry.files@[i].1 == *f && forall|j: int|
                    0 <= j < i ==> entry.files@[j].0@ != name@,
            Err(msg) => forall|i: int| 0 <= i < entry.files@.len() ==> entry.files@[i].0@ != name@
                && msg@ == "Firmware file "@ + name@ + " not found in manifest"@,
        },
{
    let key = String::from_str(name);
    let mut i: usize = 0;
    while i < entry.files.len()
        invariant
            i <= entry.files@.len(),
            key@ == name@,
            forall|j: int| 0 <= j < i ==> entry.files@[j].0@ != name@,
        decreases entry.files@.len() - i,
    {
        if entry.files[i].0 == key {
            return Ok(&entry.files[i].1);
        }
        i = i + 1;
    }
    let mut msg = String::from_str("Firmware file ");
    msg.append(name);
    msg.append(" not found in manifest");
    Err(msg)
}

/// The failure of a step: the step's description, a colon, and the error.
pub fn step_error(step: &str, error: &str) -> (r: String)
    ensures
        r@ == step@ + ": "@ + error@,
{
    let mut s = String::from_str(step);
    s.append(": ");
    s.append(error);
    s
}

/// After flashing, the update may go on only if every byte was written.
pub fn check_flash_complete(written: usize, total: usize) -> (r: Result<(), String>)
    ensures
        r is Ok <==> written >= total,
        r matches Err(msg) ==> msg@ == "Flash incomplete: "@ + spec_decimal(written as nat) + "/"@ + spec_decimal(
            total as nat,
        ) + " bytes written"@,
{
    if written < total {
        let mut s = String::from_str("Flash incomplete: ");
        push_decimal(&mut s, written as u64);
        s.append("/");
        push_decimal(&mut s, total as u64);
        s.append(" bytes written");
        Err(s)
    } else {
        Ok(())
    }
}


/// A step of a firmware update, in the order the steps run.
#[derive(Debug, Clone, Copy, PartialEq, Eq, Structural)]
pub enum UpdatePhase {
    Detach,
    WaitForDfu,
    ChooseSlot,
    Download,
    Flash,
    Reboot,
    Verify,
}

/// What the update does after a step.
#[derive(Debug)]
pub enum UpdateDirective {
    /// Run this step next.
    Run(UpdatePhase),
    /// The update is complete.
    Complete,
    /// Stop: the update failed with this message.
    Abort(String),
}

/// The step after `p`, or `None` after the last.
pub open spec fn spec_next_phase(p: UpdatePhase) -> Option<UpdatePhase> {
    match p {
        UpdatePhase::Detach => Some(UpdatePhase::WaitForDfu),
        UpdatePhase::WaitForDfu => Some(UpdatePhase::ChooseSlot),
        UpdatePhase::ChooseSlot => Some(UpdatePhase::Download),
        UpdatePhase::Download => Some(UpdatePhase::Flash),
        UpdatePhase::Flash => Some(UpdatePhase::Reboot),
        UpdatePhase::Reboot => Some(UpdatePhase::Verify),
        UpdatePhase::Verify => None,
    }
}

/// How the failure of a step is described; rebooting and verifying cannot
/// fail the update (a device that does not come back in time still counts
/// as updated).
pub open spec fn spec_failure_text(p: UpdatePhase) -> Option<Seq<char>> {
    match p {
        UpdatePhase::Detach => Some("DFU detach failed"@),
        UpdatePhase::WaitForDfu => Some("Device did not enter DFU mode"@),
        UpdatePhase::ChooseSlot => Some("Failed to determine target slot"@),
        UpdatePhase::Download => Some("Download failed"@),
        UpdatePhase::Flash => Some("Flash failed"@),
        UpdatePhase::Reboot => None,
        UpdatePhase::Verify => None,
    }
}

/// What the update shows while a step runs (choosing the slot shows no
/// state of its own); `total` is the size of the firmware being flashed.
pub open spec fn spec_phase_state(p: UpdatePhase, total: usize) -> Option<FirmwareUpdateState> {
    match p {
        UpdatePhase::Detach => Some(FirmwareUpdateState::Detaching),
        UpdatePhase::WaitForDfu => Some(FirmwareUpdateState::WaitingForDfu),
        UpdatePhase::ChooseSlot => None,
        UpdatePhase::Download => Some(FirmwareUpdateState::Downloading),
        UpdatePhase::Flash => Some(FirmwareUpdateState::Flashing { progress: 0, total }),
        UpdatePhase::Reboot => Some(FirmwareUpdateState::Rebooting),
        UpdatePhase::Verify => Some(FirmwareUpdateState::Verifying),
    }
}

/// The state shown while a step runs.
pub fn phase_state(phase: UpdatePhase, total: usize) -> (r: Option<FirmwareUpdateState>)
    ensures
        r == spec_phase_state(phase, total),
{
    match phase {
        UpdatePhase::Detach => Some(FirmwareUpdateState::Detaching),
        UpdatePhase::WaitForDfu => Some(FirmwareUpdateState::WaitingForDfu),
        UpdatePhase::ChooseSlot => None,
        UpdatePhase::Download => Some(FirmwareUpdateState::Downloading),
        UpdatePhase::Flash => Some(FirmwareUpdateState::Flashing { progress: 0, total }),
        UpdatePhase::Reboot => Some(FirmwareUpdateState::Rebooting),
        UpdatePhase::Verify => Some(FirmwareUpdateState::Verifying),
    }
}

fn failure_text(phase: UpdatePhase) -> (r: Option<&'static str>)
    ensures
        match spec_failure_text(phase) {
            Some(t) => r matches Some(s) && s@ == t,
            None => r is None,
        },
{
    match phase {
        UpdatePhase::Detach => Some("DFU detach failed"),
        UpdatePhase::WaitForDfu => Some("Device did not enter DFU mode"),
        UpdatePhase::ChooseSlot => Some("Failed to determine target slot"),
        UpdatePhase::Download => Some("Download failed"),
        UpdatePhase::Flash => Some("Flash failed"),
        UpdatePhase::Reboot => None,
        UpdatePhase::Verify => None,
    }
}

/// The update's sequencing: after a step that failed, the update stops at
/// once with the step's failure text, a colon and the error (for a step
/// that can fail); otherwise the next step runs, and after verifying the
/// update is complete.
pub fn update_step(phase: UpdatePhase, outcome: &Result<(), String>) -> (r: UpdateDirective)
    ensures
        outcome is Err && phase != UpdatePhase::Reboot && phase != UpdatePhase::Verify ==> r is Abort,
        outcome is Ok ==> !(r is Abort),
        match (outcome, spec_failure_text(phase)) {
            (Err(e), Some(t)) => r matches UpdateDirective::Abort(m) && m@ == t + ": "@ + e@,
            _ => match spec_next_phase(phase) {
                Some(n) => r == UpdateDirective::Run(n),
                None => r is Complete,
            },
        },
{
    if let Err(e) = outcome {
        if let Some(t) = failure_text(phase) {
            return UpdateDirective::Abort(step_error(t, e.as_str()));
        }
    }
    match phase {
        UpdatePhase::Detach => UpdateDirective::Run(UpdatePhase::WaitForDfu),
        UpdatePhase::WaitForDfu => UpdateDirective::Run(UpdatePhase::ChooseSlot),
        UpdatePhase::ChooseSlot => UpdateDirective::Run(UpdatePhase::Download),
        UpdatePhase::Download => UpdateDirective::Run(UpdatePhase::Flash),
        UpdatePhase::Flash => UpdateDirective::Run(UpdatePhase::Reboot),
        UpdatePhase::Reboot => UpdateDirective::Run(UpdatePhase::Verify),
        UpdatePhase::Verify => UpdateDirective::Complete,
    }
}

/// Every step up to and including flashing can fail the update, each with
/// its own description (no two the same), and only rebooting and verifying
/// cannot; the steps run in a fixed order that ends after verifying, and no
/// step runs twice.
pub proof fn lemma_update_failures_stop(p: UpdatePhase, q: UpdatePhase)
    ensures
        spec_failure_text(p) is None <==> (p == UpdatePhase::Reboot || p == UpdatePhase::Verify),
        p != q && spec_failure_text(p) is Some && spec_failure_text(q) is Some ==> spec_failure_text(p)
            != spec_failure_text(q),
        spec_next_phase(p) is None <==> p == UpdatePhase::Verify,
        spec_next_phase(p) == Some(UpdatePhase::Detach) ==> false,
        spec_next_phase(p) == spec_next_phase(q) && spec_next_phase(p) is Some ==> p == q,
{
    reveal_strlit("DFU detach failed");
    reveal_strlit("Device did not enter DFU mode");
    reveal_strlit("Failed to determine target slot");
    reveal_strlit("Download failed");
    reveal_strlit("Flash failed");
    if p != q && spec_failure_text(p) is Some && spec_failure_text(q) is Some {
        let a = spec_failure_text(p)->0;
        let b = spec_failure_text(q)->0;
        if a.len() == b.len() {
            assert(a[0] != b[0] || a[1] != b[1]);
        }
    }
}

} // verus!
