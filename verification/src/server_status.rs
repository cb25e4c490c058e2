//! How the desktop app reacts to what its embedded server reports: start-up
//! success (with any configuration files that had to be replaced by
//! defaults), start-up failure, requests to come to the front, and stop.
use vstd::prelude::*;

verus! {

/// A report of the embedded server, as the app's status loop sees it.
#[derive(Clone, Copy, Debug, PartialEq, Eq, Structural)]
pub enum ServerReport {
    /// The server started; this many configuration files were corrupted.
    Started { corrupted_files: usize },
    /// The server could not start; `address_in_use` when another instance
    /// already holds its address.
    StartFailed { address_in_use: bool },
    /// Another launch asked this instance to come to the front.
    BringToFront,
    /// The server stopped.
    Stopped,
    /// The report channel closed.
    ChannelClosed,
}

/// What the status loop does with a report.
#[derive(Clone, Copy, Debug, PartialEq, Eq, Structural)]
pub enum StatusAction {
    /// Mark the server ready (and show the corrupted-files dialog if
    /// `show_corruptions`), then keep listening.
    Ready { show_corruptions: bool },
    /// Focus and show the window, then keep listening.
    FocusWindow,
    /// Ask the running instance to come to the front, then stop, telling
    /// the caller another instance runs.
    HandOverAndExit,
    /// Stop listening; no other instance runs.
    Exit,
}

pub fn server_status_step(report: ServerReport) -> (r: StatusAction)
    ensures
        match report {
            ServerReport::Started { corrupted_files } => r == StatusAction::Ready { show_corruptions: corrupted_files > 0 },
            ServerReport::StartFailed { address_in_use } => r == (if address_in_use {
                StatusAction::HandOverAndExit
            } else {
                StatusAction::Exit
            }),
            ServerReport::BringToFront => r == StatusAction::FocusWindow,
            ServerReport::Stopped => r == StatusAction::Exit,
            ServerReport::ChannelClosed => r == StatusAction::Exit,
        },
{
    match report {
        ServerReport::Started { corrupted_files } => StatusAction::Ready { show_corruptions: corrupted_files > 0 },
        ServerReport::StartFailed { address_in_use } => if address_in_use {
            StatusAction::HandOverAndExit
        } else {
            StatusAction::Exit
        },
        ServerReport::BringToFront => StatusAction::FocusWindow,
        ServerReport::Stopped => StatusAction::Exit,
        ServerReport::ChannelClosed => StatusAction::Exit,
    }
}

/// Opening sentence of the corrupted-files dialog, singular or plural.
pub fn corruption_intro(count: usize) -> (r: &'static str)
    ensures
        count == 1 ==> r@
            == "The following configuration file was corrupted and could not be loaded. Default values are being used instead:"@,
        count != 1 ==> r@
            == "The following configuration files were corrupted and could not be loaded. Default values are being used instead:"@,
{
    if count == 1 {
        "The following configuration file was corrupted and could not be loaded. Default values are being used instead:"
    } else {
        "The following configuration files were corrupted and could not be loaded. Default values are being used instead:"
    }
}

} // verus!
