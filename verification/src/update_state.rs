//! The app's own update state, shared by the settings page and the update
//! banner: the channel, whether an update is available, whether one is
//! being installed, the last error, and requests to check again.
use crate::update_channel::UpdateChannel;
use vstd::prelude::*;
use vstd::string::StringExecFns;

verus! {

pub struct UpdateState {
    pub channel: UpdateChannel,
    pub available: bool,
    pub busy: bool,
    pub error: Option<String>,
    pub checking: bool,
    /// Bumped to request a re-check.
    pub check_tick: u32,
}

/// Status line of the settings page.
pub open spec fn spec_update_status_text(s: UpdateState) -> Seq<char> {
    if s.checking {
        "Checking for updates\u{2026}"@
    } else if s.error is Some {
        "Update check failed: "@ + s.error->0@
    } else if s.available {
        "Update available \u{2014} install it from the banner above."@
    } else {
        "Up to date."@
    }
}

impl UpdateState {
    /// The state at start-up, on the stored channel: nothing known yet.
    pub fn new_in_scope(channel: UpdateChannel) -> (r: Self)
        ensures
            r.channel == channel,
            !r.available && !r.busy && !r.checking,
            r.error is None,
            r.check_tick == 0,
    {
        UpdateState { channel, available: false, busy: false, error: None, checking: false, check_tick: 0 }
    }

    /// Asks for another check: the tick moves on.
    pub fn request_check(&mut self)
        requires
            old(self).check_tick < u32::MAX,
        ensures
            final(self).check_tick == old(self).check_tick + 1,
            final(self).channel == old(self).channel,
            final(self).available == old(self).available,
            final(self).busy == old(self).busy,
            final(self).error == old(self).error,
            final(self).checking == old(self).checking,
    {
        self.check_tick = self.check_tick + 1;
    }

    pub fn status_text(&self) -> (r: String)
        ensures
            r@ == spec_update_status_text(*self),
    {
        if self.checking {
            String::from_str("Checking for updates\u{2026}")
        } else if let Some(err) = &self.error {
            let mut s = String::from_str("Update check failed: ");
            s.append(err.as_str());
            s
        } else if self.available {
            String::from_str("Update available \u{2014} install it from the banner above.")
        } else {
            String::from_str("Up to date.")
        }
    }

    /// The banner's update button was pressed: an install starts unless one
    /// is running. Returns whether it started.
    pub fn begin_update(&mut self) -> (started: bool)
        ensures
            started == !old(self).busy,
            started ==> final(self).busy && final(self).error is None,
            !started ==> final(self).busy == old(self).busy && final(self).error == old(self).error,
            final(self).available == old(self).available,
            final(self).channel == old(self).channel,
            final(self).checking == old(self).checking,
            final(self).check_tick == old(self).check_tick,
    {
        if self.busy {
            return false;
        }
        self.busy = true;
        self.error = None;
        true
    }

    /// An install finished: `Ok(true)` when the app is restarting into the
    /// update (nothing changes), `Ok(false)` when there was no update after
    /// all, or the error.
    pub fn finish_update(&mut self, result: Result<bool, String>)
        ensures
            final(self).channel == old(self).channel,
            final(self).checking == old(self).checking,
            final(self).check_tick == old(self).check_tick,
            match result {
                Ok(true) => final(self).available == old(self).available && final(self).busy == old(self).busy
                    && final(self).error == old(self).error,
                Ok(false) => !final(self).available && !final(self).busy && final(self).error == old(self).error,
                Err(e) => final(self).error == Some(e) && !final(self).busy && final(self).available
                    == old(self).available,
            },
    {
        match result {
            Ok(true) => {},
            Ok(false) => {
                self.available = false;
                self.busy = false;
            },
            Err(e) => {
                self.error = Some(e);
                self.busy = false;
            },
        }
    }

    /// "Later" hides the banner.
    pub fn dismiss(&mut self)
        ensures
            !final(self).available,
            final(self).busy == old(self).busy,
            final(self).error == old(self).error,
            final(self).channel == old(self).channel,
            final(self).checking == old(self).checking,
            final(self).check_tick == old(self).check_tick,
    {
        self.available = false;
    }
}

/// Label of the banner's update button.
pub fn update_button_label(busy: bool) -> (r: &'static str)
    ensures
        busy ==> r@ == "Updating\u{2026}"@,
        !busy ==> r@ == "Update & Restart"@,
{
    if busy {
        "Updating\u{2026}"
    } else {
        "Update & Restart"
    }
}

/// Label and classes (dot, pill) of an accessory's connection chip.
pub fn status_chip(connected: bool) -> (r: (&'static str, &'static str, &'static str))
    ensures
        connected ==> r.0@ == "Connected"@ && r.1@ == "h-2.5 w-2.5 rounded-full bg-emerald-500 animate-pulse"@
            && r.2@ == "bg-emerald-50 text-emerald-700 border-emerald-200"@,
        !connected ==> r.0@ == "Disconnected"@ && r.1@ == "h-2.5 w-2.5 rounded-full bg-gray-400"@ && r.2@
            == "bg-gray-50 text-gray-700 border-gray-200"@,
{
    if connected {
        (
            "Connected",
            "h-2.5 w-2.5 rounded-full bg-emerald-500 animate-pulse",
            "bg-emerald-50 text-emerald-700 border-emerald-200",
        )
    } else {
        ("Disconnected", "h-2.5 w-2.5 rounded-full bg-gray-400", "bg-gray-50 text-gray-700 border-gray-200")
    }
}

} // verus!
