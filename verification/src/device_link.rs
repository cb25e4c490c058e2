//! The decisions of a device's handler: the device record a new connection
//! starts with, whether a newly probed connection starts a handler or is
//! merged into a running one, and how the record changes as control and
//! event connections come and go.
use crate::device::{
    lemma_from_bits, Device, DeviceCapabilities, EventsTransport, Transport, CONTROL, EVENTS,
};
use crate::accessory_link::uuid_equal;
use crate::decimal::{push_decimal, spec_decimal};
use vstd::prelude::*;
use vstd::string::StringExecFns;

verus! {

/// Vendor id of the hub's own USB devices.
pub const ATS_VENDOR_ID: u16 = 0x1915;

/// Product id of the hub (dongle), whose devices are reached through its mux.
pub const HUB_PRODUCT_ID: u16 = 0x5212;

/// How the USB scan takes a listed device.
#[derive(Debug, Clone, Copy, PartialEq, Eq, Structural)]
pub enum UsbDeviceKind {
    /// A device handled directly over USB (ATS VM, ATS Lite, Lite1).
    Direct,
    /// The hub: its devices are managed through its mux.
    Hub,
}

/// The kind of a listed USB device, or `None` for one the scan skips:
/// only the vendor's ATS VM (0x520F), ATS Lite (0x5210), Lite1 (0x5211) and
/// hub (0x5212) are taken.
pub open spec fn spec_classify_usb_listing(vid: u16, pid: u16) -> Option<UsbDeviceKind> {
    if vid != ATS_VENDOR_ID {
        None
    } else if pid == 0x520F || pid == 0x5210 || pid == 0x5211 {
        Some(UsbDeviceKind::Direct)
    } else if pid == HUB_PRODUCT_ID {
        Some(UsbDeviceKind::Hub)
    } else {
        None
    }
}

/// Decides whether the USB scan takes a listed device, and how.
pub fn classify_usb_listing(vid: u16, pid: u16) -> (r: Option<UsbDeviceKind>)
    ensures
        r == spec_classify_usb_listing(vid, pid),
{
    if vid != ATS_VENDOR_ID {
        None
    } else if pid == 0x520F || pid == 0x5210 || pid == 0x5211 {
        Some(UsbDeviceKind::Direct)
    } else if pid == HUB_PRODUCT_ID {
        Some(UsbDeviceKind::Hub)
    } else {
        None
    }
}

/// The record of a device reached directly over USB: it has the control
/// interface; in USB transport mode it also streams events over the wire,
/// otherwise its events go over Bluetooth.
pub fn usb_direct_device(uuid: [u8; 6], product_id: u16, version: Option<[u16; 3]>, usb_mode: bool) -> (r: Device)
    ensures
        r.uuid == uuid,
        r.product_id == product_id,
        r.transport == Transport::Usb,
        r.capabilities.spec_bits() == (if usb_mode { CONTROL | EVENTS } else { CONTROL }),
        r.firmware_version == (match version {
            Some(v) => v,
            None => [0u16, 0, 0],
        }),
        r.events_transport == (if usb_mode { EventsTransport::Wired } else { EventsTransport::Bluetooth }),
        r.events_connected == usb_mode,
        r.name@ == Seq::new(33, |i: int| 0u8),
{
    let mut capabilities = DeviceCapabilities::new(CONTROL);
    if usb_mode {
        capabilities.insert(EVENTS);
    }
    let firmware_version = match version {
        Some(v) => v,
        None => [0, 0, 0],
    };
    let r = Device {
        uuid,
        transport: Transport::Usb,
        capabilities,
        firmware_version,
        events_transport: if usb_mode {
            EventsTransport::Wired
        } else {
            EventsTransport::Bluetooth
        },
        events_connected: usb_mode,
        product_id,
        name: [0u8; 33],
    };
    assert(r.name@ =~= Seq::new(33, |i: int| 0u8));
    r
}

/// The record of a device reached over Bluetooth through a dongle: it
/// streams events and has no control interface.
pub fn ble_mux_device(uuid: [u8; 6], firmware_version: [u16; 3], product_id: u16) -> (r: Device)
    ensures
        r.uuid == uuid,
        r.product_id == product_id,
        r.transport == Transport::UsbMux,
        r.capabilities.spec_bits() == EVENTS,
        r.firmware_version == firmware_version,
        r.events_transport == EventsTransport::Bluetooth,
        r.events_connected,
        r.name@ == Seq::new(33, |i: int| 0u8),
{
    let r = Device {
        uuid,
        transport: Transport::UsbMux,
        capabilities: DeviceCapabilities::new(EVENTS),
        firmware_version,
        events_transport: EventsTransport::Bluetooth,
        events_connected: true,
        product_id,
        name: [0u8; 33],
    };
    assert(r.name@ =~= Seq::new(33, |i: int| 0u8));
    r
}

/// What to do with a device just probed over direct USB.
#[derive(Debug, Clone, Copy, PartialEq, Eq, Structural)]
pub enum ProbeDecision {
    /// No handler runs for it yet: start one.
    Connect,
    /// A Bluetooth handler runs for it: hand it this control connection.
    MergeControl,
    /// A direct-USB handler already runs for it: nothing to do.
    Skip,
}

/// Decides what to do with a device probed over direct USB, from whether a
/// handler runs for its UUID and whether that handler was started over
/// direct USB.
pub fn probe_decision(handler_running: bool, handler_is_direct: bool) -> (r: ProbeDecision)
    ensures
        !handler_running ==> r == ProbeDecision::Connect,
        handler_running && handler_is_direct ==> r == ProbeDecision::Skip,
        handler_running && !handler_is_direct ==> r == ProbeDecision::MergeControl,
{
    if !handler_running {
        ProbeDecision::Connect
    } else if handler_is_direct {
        ProbeDecision::Skip
    } else {
        ProbeDecision::MergeControl
    }
}

/// A device's handler: its record and which connections it holds.
pub struct LinkState {
    pub device: Device,
    pub has_control: bool,
    pub has_events: bool,
}

/// What happened to a device's connections, with what the handler read
/// from the device on the way.
#[derive(Debug, Clone, Copy, PartialEq, Eq)]
pub enum LinkEvent {
    /// A Bluetooth events connection was added.
    AddEvents,
    /// A direct USB control connection was added; the firmware version and
    /// transport mode (USB or not) it reported, where they could be read.
    AddControl { firmware_version: Option<[u16; 3]>, usb_mode: Option<bool> },
    /// The direct USB control connection went away.
    RemoveControl,
    /// The Bluetooth events connection went away.
    RemoveEvents,
    /// The transport mode was changed; `had_control` tells whether the handler
    /// held a control connection to make the change (the device then reboots).
    TransportModeChanged { had_control: bool },
    /// The command channel closed.
    ChannelClosed,
    /// The sensor streams ended.
    StreamsEnded,
}

/// What the handler does after a step.
#[derive(Debug, Clone, Copy, PartialEq, Eq, Structural)]
pub enum LinkAction {
    /// Keep running.
    Continue,
    /// Keep running, after telling clients the device record changed.
    Notify,
    /// Stop; the device is reported disconnected.
    Exit,
}

/// Whether the device takes configuration over its events connection (bulk
/// packets): all but the ATS Lite (0x5210) and Lite1 (0x5211), whose bulk
/// handler only runs in USB transport mode, and which are configured over
/// the control connection.
pub open spec fn spec_supports_bulk_config(product_id: u16) -> bool {
    product_id != 0x5210 && product_id != 0x5211
}

pub fn supports_bulk_config(product_id: u16) -> (r: bool)
    ensures
        r == spec_supports_bulk_config(product_id),
{
    product_id != 0x5210 && product_id != 0x5211
}

/// A command sent to a device's handler, as far as where it goes.
#[derive(Debug, Clone, Copy, PartialEq, Eq, Structural)]
pub enum DeviceCommand {
    ResetZero,
    SaveZero,
    ClearZero,
    Zero,
    SetShotDelay,
    WriteVendor,
    ReadRegister,
    WriteRegister,
    ReadConfig { kind: u8 },
    WriteConfig { kind: u8 },
    FlashSettings,
    StartPairing,
    CancelPairing,
    ClearBond,
    SetTransportMode,
}

/// Why a command is answered with an error instead of being sent.
#[derive(Debug, Clone, Copy, PartialEq, Eq, Structural)]
pub enum RouteError {
    EventsNotConnected,
    EventsDeviceUnavailable,
    NoDeviceForReadConfig,
    NoDeviceForWriteConfig,
    NoDeviceForFlashSettings,
    UnknownConfigKind(u8),
    NoControlDevice,
}

/// Where a command goes.
#[derive(Debug, Clone, Copy, PartialEq, Eq, Structural)]
pub enum Route {
    /// Handled by the hub alone (zero offsets, shot delay).
    Hub,
    /// Sent over the events connection.
    Events,
    /// Sent over the control connection.
    Control,
    /// Dropped without a reply (a vendor packet with no events connection).
    Dropped,
    /// Answered with this error.
    Refused(RouteError),
}

/// Configuration commands (read, write, flash) go over the events
/// connection when the device takes bulk configuration and that connection
/// is there, else over the control connection, else are refused.
pub open spec fn spec_config_route(state: LinkState, refused: RouteError) -> Route {
    if state.has_events && spec_supports_bulk_config(state.device.product_id) {
        Route::Events
    } else if state.has_control {
        Route::Control
    } else {
        Route::Refused(refused)
    }
}

/// Where the handler sends a command:
/// - zero offsets and the shot delay are the hub's own;
/// - a vendor packet goes over the events connection, or is dropped;
/// - register access needs events connected and an events connection;
/// - configuration names kind 0 (impact threshold) or 1 (suppress time),
///   and goes as `spec_config_route` says; flashing the settings too;
/// - pairing, bonds and the transport mode need the control connection.
pub open spec fn spec_route(state: LinkState, cmd: DeviceCommand) -> Route {
    match cmd {
        DeviceCommand::ResetZero | DeviceCommand::SaveZero | DeviceCommand::ClearZero
        | DeviceCommand::Zero | DeviceCommand::SetShotDelay => Route::Hub,
        DeviceCommand::WriteVendor => if state.has_events {
            Route::Events
        } else {
            Route::Dropped
        },
        DeviceCommand::ReadRegister | DeviceCommand::WriteRegister => if !state.device.events_connected {
            Route::Refused(RouteError::EventsNotConnected)
        } else if state.has_events {
            Route::Events
        } else {
            Route::Refused(RouteError::EventsDeviceUnavailable)
        },
        DeviceCommand::ReadConfig { kind } => if kind <= 1 {
            spec_config_route(state, RouteError::NoDeviceForReadConfig)
        } else {
            Route::Refused(RouteError::UnknownConfigKind(kind))
        },
        DeviceCommand::WriteConfig { kind } => if kind <= 1 {
            spec_config_route(state, RouteError::NoDeviceForWriteConfig)
        } else {
            Route::Refused(RouteError::UnknownConfigKind(kind))
        },
        DeviceCommand::FlashSettings => spec_config_route(state, RouteError::NoDeviceForFlashSettings),
        DeviceCommand::StartPairing | DeviceCommand::CancelPairing | DeviceCommand::ClearBond
        | DeviceCommand::SetTransportMode => if state.has_control {
            Route::Control
        } else {
            Route::Refused(RouteError::NoControlDevice)
        },
    }
}

fn config_route(state: &LinkState, refused: RouteError) -> (r: Route)
    ensures
        r == spec_config_route(*state, refused),
{
    if state.has_events && supports_bulk_config(state.device.product_id) {
        Route::Events
    } else if state.has_control {
        Route::Control
    } else {
        Route::Refused(refused)
    }
}

/// Decides where the handler sends a command.
pub fn route_command(state: &LinkState, cmd: DeviceCommand) -> (r: Route)
    ensures
        r == spec_route(*state, cmd),
{
    match cmd {
        DeviceCommand::ResetZero | DeviceCommand::SaveZero | DeviceCommand::ClearZero
        | DeviceCommand::Zero | DeviceCommand::SetShotDelay => Route::Hub,
        DeviceCommand::WriteVendor => if state.has_events {
            Route::Events
        } else {
            Route::Dropped
        },
        DeviceCommand::ReadRegister | DeviceCommand::WriteRegister => if !state.device.events_connected {
            Route::Refused(RouteError::EventsNotConnected)
        } else if state.has_events {
            Route::Events
        } else {
            Route::Refused(RouteError::EventsDeviceUnavailable)
        },
        DeviceCommand::ReadConfig { kind } => if kind <= 1 {
            config_route(state, RouteError::NoDeviceForReadConfig)
        } else {
            Route::Refused(RouteError::UnknownConfigKind(kind))
        },
        DeviceCommand::WriteConfig { kind } => if kind <= 1 {
            config_route(state, RouteError::NoDeviceForWriteConfig)
        } else {
            Route::Refused(RouteError::UnknownConfigKind(kind))
        },
        DeviceCommand::FlashSettings => config_route(state, RouteError::NoDeviceForFlashSettings),
        DeviceCommand::StartPairing | DeviceCommand::CancelPairing | DeviceCommand::ClearBond
        | DeviceCommand::SetTransportMode => if state.has_control {
            Route::Control
        } else {
            Route::Refused(RouteError::NoControlDevice)
        },
    }
}

/// A command is only ever sent over a connection the handler holds:
/// - what goes over the events connection needs one, and what goes over the
///   control connection needs one;
/// - zero offsets and the shot delay never use a connection;
/// - pairing, bonds and the transport mode go over the control connection
///   exactly when there is one, and are refused for lack of it otherwise;
/// - register access goes over the events connection exactly when events
///   are connected and the connection is there;
/// - configuration of an unknown kind is refused whatever the connections;
///   configuration of a known kind (and flashing the settings) is refused
///   only when neither usable connection is there, and goes over the events
///   connection only for a device that takes bulk configuration;
/// - a vendor packet is dropped exactly when there is no events connection.
pub proof fn lemma_route_uses_held_connections(state: LinkState, cmd: DeviceCommand)
    ensures
        spec_route(state, cmd) == Route::Events ==> state.has_events,
        spec_route(state, cmd) == Route::Control ==> state.has_control,
        (cmd is ResetZero || cmd is SaveZero || cmd is ClearZero || cmd is Zero || cmd is SetShotDelay)
            <==> spec_route(state, cmd) == Route::Hub,
        (cmd is StartPairing || cmd is CancelPairing || cmd is ClearBond || cmd is SetTransportMode) ==> {
            &&& (spec_route(state, cmd) == Route::Control <==> state.has_control)
            &&& (spec_route(state, cmd) == Route::Refused(RouteError::NoControlDevice) <==> !state.has_control)
        },
        (cmd is ReadRegister || cmd is WriteRegister) ==> {
            &&& (spec_route(state, cmd) == Route::Events <==> (state.device.events_connected && state.has_events))
            &&& (!state.device.events_connected ==> spec_route(state, cmd) == Route::Refused(
                RouteError::EventsNotConnected,
            ))
        },
        match cmd {
            DeviceCommand::ReadConfig { kind } | DeviceCommand::WriteConfig { kind } => kind > 1 ==> spec_route(
                state,
                cmd,
            ) == Route::Refused(RouteError::UnknownConfigKind(kind)),
            _ => true,
        },
        (match cmd {
            DeviceCommand::ReadConfig { kind } | DeviceCommand::WriteConfig { kind } => kind <= 1,
            DeviceCommand::FlashSettings => true,
            _ => false,
        }) ==> {
            &&& (spec_route(state, cmd) is Refused <==> !state.has_control && !(state.has_events
                && spec_supports_bulk_config(state.device.product_id)))
            &&& (spec_route(state, cmd) == Route::Events ==> spec_supports_bulk_config(state.device.product_id))
            &&& (state.has_events && spec_supports_bulk_config(state.device.product_id) ==> spec_route(state, cmd)
                == Route::Events)
        },
        cmd is WriteVendor ==> (spec_route(state, cmd) == Route::Dropped <==> !state.has_events),
        spec_route(state, cmd) == Route::Dropped ==> cmd is WriteVendor,
{
}

impl RouteError {
    /// The text of the error the command is answered with.
    pub fn message(&self) -> (r: String)
        ensures
            *self == RouteError::EventsNotConnected ==> r@ == "events transport not connected"@,
            *self == RouteError::EventsDeviceUnavailable ==> r@ == "events device not available"@,
            *self == RouteError::NoDeviceForReadConfig ==> r@ == "no device available for read_config"@,
            *self == RouteError::NoDeviceForWriteConfig ==> r@ == "no device available for write_config"@,
            *self == RouteError::NoDeviceForFlashSettings ==> r@ == "no device available for flash_settings"@,
            *self == RouteError::NoControlDevice ==> r@ == "no control device available"@,
            self matches RouteError::UnknownConfigKind(k) ==> r@ == "unknown config kind: "@ + spec_decimal(
                k as nat,
            ),
    {
        match self {
            RouteError::EventsNotConnected => String::from_str("events transport not connected"),
            RouteError::EventsDeviceUnavailable => String::from_str("events device not available"),
            RouteError::NoDeviceForReadConfig => String::from_str("no device available for read_config"),
            RouteError::NoDeviceForWriteConfig => String::from_str("no device available for write_config"),
            RouteError::NoDeviceForFlashSettings => String::from_str("no device available for flash_settings"),
            RouteError::NoControlDevice => String::from_str("no control device available"),
            RouteError::UnknownConfigKind(k) => {
                let mut s = String::from_str("unknown config kind: ");
                push_decimal(&mut s, *k as u64);
                s
            },
        }
    }
}

/// Flag bits after inserting or removing `flag`.
pub open spec fn with_flag(bits: u8, flag: u8, on: bool) -> u8 {
    if on {
        bits | flag
    } else {
        bits & !flag
    }
}

/// The flags `bits` as capabilities.
pub open spec fn caps(bits: u8) -> DeviceCapabilities {
    DeviceCapabilities::from_bits(bits)
}

/// What one event does to a handler's state, and what the handler does
/// next:
/// - a Bluetooth events connection adds EVENTS and marks events connected;
/// - a direct USB control connection adds CONTROL, makes the transport USB,
///   takes the firmware version it reported, and, where it reported its
///   transport mode, moves events to the wire (USB mode, EVENTS set) or to
///   Bluetooth (EVENTS cleared);
/// - losing control clears CONTROL; a Bluetooth handler that still has its
///   events keeps running, any other stops;
/// - losing events clears EVENTS; a handler that still has control keeps
///   running (a Bluetooth record becoming a USB one), any other stops;
/// - a transport mode change stops a handler that held control (the device
///   reboots); a closed command channel or ended streams stop it.
pub open spec fn spec_link_step(state: LinkState, event: LinkEvent) -> (LinkState, LinkAction) {
    let d = state.device;
    let b = d.capabilities.spec_bits();
    match event {
        LinkEvent::AddEvents => (
            LinkState {
                device: Device { capabilities: caps(b | EVENTS), events_connected: true, ..d },
                has_events: true,
                ..state
            },
            LinkAction::Notify,
        ),
        LinkEvent::AddControl { firmware_version, usb_mode } => {
            let fw = match firmware_version {
                Some(v) => v,
                None => d.firmware_version,
            };
            let d1 = match usb_mode {
                Some(m) => Device {
                    events_transport: if m {
                        EventsTransport::Wired
                    } else {
                        EventsTransport::Bluetooth
                    },
                    events_connected: m,
                    capabilities: caps(with_flag(b, EVENTS, m) | CONTROL),
                    ..d
                },
                None => Device { capabilities: caps(b | CONTROL), ..d },
            };
            (
                LinkState {
                    device: Device { firmware_version: fw, transport: Transport::Usb, ..d1 },
                    has_control: true,
                    ..state
                },
                LinkAction::Notify,
            )
        },
        LinkEvent::RemoveControl => {
            let dev = Device { capabilities: caps(b & !CONTROL), ..d };
            if state.has_events && d.transport == Transport::UsbMux {
                (LinkState { device: dev, has_control: false, ..state }, LinkAction::Notify)
            } else {
                (LinkState { device: dev, has_control: false, has_events: false }, LinkAction::Exit)
            }
        },
        LinkEvent::RemoveEvents => {
            let dev = Device { capabilities: caps(b & !EVENTS), events_connected: false, ..d };
            if state.has_control {
                let t = if d.transport == Transport::UsbMux {
                    Transport::Usb
                } else {
                    d.transport
                };
                (LinkState { device: Device { transport: t, ..dev }, has_events: false, ..state }, LinkAction::Notify)
            } else {
                (LinkState { device: dev, has_events: false, ..state }, LinkAction::Exit)
            }
        },
        LinkEvent::TransportModeChanged { had_control } => (
            state,
            if had_control {
                LinkAction::Exit
            } else {
                LinkAction::Continue
            },
        ),
        LinkEvent::ChannelClosed => (state, LinkAction::Exit),
        LinkEvent::StreamsEnded => (state, LinkAction::Exit),
    }
}

/// Applies one event to a handler's state: the new state and what to do.
pub fn link_step(state: LinkState, event: LinkEvent) -> (r: (LinkState, LinkAction))
    ensures
        r == spec_link_step(state, event),
{
    let mut s = state;
    match event {
        LinkEvent::AddEvents => {
            s.has_events = true;
            s.device.capabilities.insert(EVENTS);
            s.device.events_connected = true;
            (s, LinkAction::Notify)
        },
        LinkEvent::AddControl { firmware_version, usb_mode } => {
            if let Some(v) = firmware_version {
                s.device.firmware_version = v;
            }
            if let Some(m) = usb_mode {
                s.device.events_transport = if m {
                    EventsTransport::Wired
                } else {
                    EventsTransport::Bluetooth
                };
                s.device.events_connected = m;
                if m {
                    s.device.capabilities.insert(EVENTS);
                } else {
                    s.device.capabilities.remove(EVENTS);
                }
            }
            s.has_control = true;
            s.device.capabilities.insert(CONTROL);
            s.device.transport = Transport::Usb;
            (s, LinkAction::Notify)
        },
        LinkEvent::RemoveControl => {
            s.has_control = false;
            s.device.capabilities.remove(CONTROL);
            let independent = s.has_events && s.device.transport == Transport::UsbMux;
            if independent {
                (s, LinkAction::Notify)
            } else {
                s.has_events = false;
                (s, LinkAction::Exit)
            }
        },
        LinkEvent::RemoveEvents => {
            s.has_events = false;
            s.device.capabilities.remove(EVENTS);
            s.device.events_connected = false;
            if s.has_control {
                if s.device.transport == Transport::UsbMux {
                    s.device.transport = Transport::Usb;
                }
                (s, LinkAction::Notify)
            } else {
                (s, LinkAction::Exit)
            }
        },
        LinkEvent::TransportModeChanged { had_control } => {
            if had_control {
                (s, LinkAction::Exit)
            } else {
                (s, LinkAction::Continue)
            }
        },
        LinkEvent::ChannelClosed => (s, LinkAction::Exit),
        LinkEvent::StreamsEnded => (s, LinkAction::Exit),
    }
}

/// The handler's control flag and the record's CONTROL capability agree.
pub open spec fn control_consistent(s: LinkState) -> bool {
    s.device.capabilities.spec_contains(CONTROL) == s.has_control
}

/// What each event does to a handler's record, whatever it held before:
/// - the device's UUID and product id never change;
/// - an added events connection marks the device events-connected with the
///   EVENTS capability, keeps the control side as it was, and is announced;
/// - an added control connection gives the CONTROL capability and the USB
///   transport, takes the firmware version reported (else keeps the old
///   one), and where the transport mode was reported, makes events
///   connected and the EVENTS capability follow it (else keeps them); it is
///   announced and keeps the events side as it was;
/// - a lost control connection drops CONTROL; the handler stops unless it
///   is a Bluetooth mux handler that still has its events connection;
/// - a lost events connection drops EVENTS and the events-connected mark;
///   the handler stops exactly when it has no control connection;
/// - a transport mode change leaves the record alone and stops the handler
///   exactly when it held control; a closed channel or ended streams stop
///   it with the record unchanged.
pub proof fn lemma_link_step_effects(state: LinkState, event: LinkEvent)
    ensures
        ({
            let (s, a) = spec_link_step(state, event);
            let caps0 = state.device.capabilities;
            let caps1 = s.device.capabilities;
            &&& s.device.uuid == state.device.uuid
            &&& s.device.product_id == state.device.product_id
            &&& (event is AddEvents ==> {
                &&& s.has_events && s.device.events_connected && caps1.spec_contains(EVENTS)
                &&& s.has_control == state.has_control
                &&& (caps1.spec_contains(CONTROL) <==> caps0.spec_contains(CONTROL))
                &&& a == LinkAction::Notify
            })
            &&& (event matches LinkEvent::AddControl { firmware_version, usb_mode } ==> {
                &&& s.has_control && caps1.spec_contains(CONTROL) && s.device.transport == Transport::Usb
                &&& s.has_events == state.has_events
                &&& a == LinkAction::Notify
                &&& (firmware_version matches Some(v) ==> s.device.firmware_version == v)
                &&& (firmware_version is None ==> s.device.firmware_version == state.device.firmware_version)
                &&& (usb_mode matches Some(m) ==> s.device.events_connected == m && (caps1.spec_contains(EVENTS)
                    <==> m))
                &&& (usb_mode is None ==> s.device.events_connected == state.device.events_connected && (
                caps1.spec_contains(EVENTS) <==> caps0.spec_contains(EVENTS)))
            })
            &&& (event is RemoveControl ==> {
                &&& !s.has_control && !caps1.spec_contains(CONTROL)
                &&& (a == LinkAction::Exit <==> !(state.has_events && state.device.transport == Transport::UsbMux))
            })
            &&& (event is RemoveEvents ==> {
                &&& !s.has_events && !s.device.events_connected && !caps1.spec_contains(EVENTS)
                &&& s.has_control == state.has_control
                &&& (a == LinkAction::Exit <==> !state.has_control)
            })
            &&& (event matches LinkEvent::TransportModeChanged { had_control } ==> s == state && (a
                == LinkAction::Exit <==> had_control))
            &&& (event is ChannelClosed || event is StreamsEnded ==> s == state && a == LinkAction::Exit)
        }),
{
    let b = state.device.capabilities.spec_bits();
    lemma_from_bits(b | EVENTS, state.device.capabilities);
    lemma_from_bits(b & !EVENTS, state.device.capabilities);
    lemma_from_bits(b & !CONTROL, state.device.capabilities);
    lemma_from_bits(b | CONTROL, state.device.capabilities);
    lemma_from_bits((b | EVENTS) | CONTROL, state.device.capabilities);
    lemma_from_bits((b & !EVENTS) | CONTROL, state.device.capabilities);
    assert(CONTROL == 1u8 && EVENTS == 2u8);
    assert((b | 2u8) & 2u8 == 2u8) by (bit_vector);
    assert(((b | 2u8) & 1u8 == 1u8) <==> (b & 1u8 == 1u8)) by (bit_vector);
    assert(((b & !2u8) & 1u8 == 1u8) <==> (b & 1u8 == 1u8)) by (bit_vector);
    assert((b & !2u8) & 2u8 != 2u8) by (bit_vector);
    assert((b & !1u8) & 1u8 != 1u8) by (bit_vector);
    assert((b | 1u8) & 1u8 == 1u8) by (bit_vector);
    assert(((b | 1u8) & 2u8 == 2u8) <==> (b & 2u8 == 2u8)) by (bit_vector);
    assert(((b | 2u8) | 1u8) & 1u8 == 1u8) by (bit_vector);
    assert(((b | 2u8) | 1u8) & 2u8 == 2u8) by (bit_vector);
    assert(((b & !2u8) | 1u8) & 1u8 == 1u8) by (bit_vector);
    assert(((b & !2u8) | 1u8) & 2u8 != 2u8) by (bit_vector);
}

/// Every step keeps the CONTROL capability in step with the control
/// connection, and a handler that keeps running holds a control or an
/// events connection.
pub proof fn lemma_link_step_invariants(state: LinkState, event: LinkEvent)
    requires
        control_consistent(state),
        state.has_control || state.has_events,
    ensures
        control_consistent(spec_link_step(state, event).0),
        spec_link_step(state, event).1 != LinkAction::Exit ==> spec_link_step(state, event).0.has_control
            || spec_link_step(state, event).0.has_events,
{
    let b = state.device.capabilities.spec_bits();
    lemma_from_bits(b | EVENTS, state.device.capabilities);
    lemma_from_bits(b & !EVENTS, state.device.capabilities);
    lemma_from_bits(b & !CONTROL, state.device.capabilities);
    lemma_from_bits(b | CONTROL, state.device.capabilities);
    lemma_from_bits((b | EVENTS) | CONTROL, state.device.capabilities);
    lemma_from_bits((b & !EVENTS) | CONTROL, state.device.capabilities);
    assert((b | EVENTS) & CONTROL == CONTROL <==> b & CONTROL == CONTROL) by (bit_vector);
    assert((b & !EVENTS) & CONTROL == CONTROL <==> b & CONTROL == CONTROL) by (bit_vector);
    assert((b | EVENTS | CONTROL) & CONTROL == CONTROL) by (bit_vector);
    assert(((b & !EVENTS) | CONTROL) & CONTROL == CONTROL) by (bit_vector);
    assert((b | CONTROL) & CONTROL == CONTROL) by (bit_vector);
    assert((b & !CONTROL) & CONTROL != CONTROL) by (bit_vector);
}

/// Handlers start consistent: a direct-USB record has CONTROL (its handler
/// holds the control connection), a Bluetooth one does not (its handler holds
/// only the events connection).
pub proof fn lemma_initial_records_consistent(usb_mode: bool)
    ensures
        (if usb_mode { CONTROL | EVENTS } else { CONTROL }) & CONTROL == CONTROL,
        EVENTS & CONTROL != CONTROL,
{
    assert(CONTROL == 1u8 && EVENTS == 2u8);
    assert((1u8 | 2u8) & 1u8 == 1u8) by (bit_vector);
    assert(1u8 & 1u8 == 1u8) by (bit_vector);
    assert(2u8 & 1u8 != 1u8) by (bit_vector);
}

/// Whether some element of `s` has the key bytes `k`.
pub open spec fn has_key(s: Seq<[u8; 6]>, k: Seq<u8>) -> bool {
    exists|i: int| 0 <= i < s.len() && s[i]@ == k
}

/// No key occurs twice in `s`.
pub open spec fn keys_distinct(s: Seq<[u8; 6]>) -> bool {
    forall|i: int, j: int| 0 <= i < j < s.len() ==> s[i]@ != s[j]@
}

fn position_of(s: &Vec<[u8; 6]>, k: &[u8; 6]) -> (r: bool)
    ensures
        r == has_key(s@, k@),
{
    let mut i: usize = 0;
    while i < s.len()
        invariant
            i <= s@.len(),
            forall|j: int| 0 <= j < i ==> s@[j]@ != k@,
        decreases s@.len() - i,
    {
        if uuid_equal(&s[i], k) {
            return true;
        }
        i = i + 1;
    }
    false
}

/// The keys of `snap` that are not in `known`, each at its first
/// occurrence, in the order of `snap`.
pub open spec fn spec_new_keys(snap: Seq<[u8; 6]>, known: Seq<[u8; 6]>) -> Seq<[u8; 6]>
    decreases snap.len(),
{
    if snap.len() == 0 {
        Seq::empty()
    } else {
        let prev = spec_new_keys(snap.drop_last(), known);
        let a = snap.last();
        if has_key(known, a@) || has_key(prev, a@) {
            prev
        } else {
            prev.push(a)
        }
    }
}

/// The keys of `known` that are not in `snap`, in the order of `known`.
pub open spec fn spec_gone_keys(known: Seq<[u8; 6]>, snap: Seq<[u8; 6]>) -> Seq<[u8; 6]>
    decreases known.len(),
{
    if known.len() == 0 {
        Seq::empty()
    } else {
        let prev = spec_gone_keys(known.drop_last(), snap);
        if has_key(snap, known.last()@) {
            prev
        } else {
            prev.push(known.last())
        }
    }
}

/// Devices a hub reports that are not known yet (each once, in the order
/// reported), and known devices the hub no longer reports (in their order).
pub fn snapshot_diff(known: &Vec<[u8; 6]>, snapshot: &Vec<[u8; 6]>) -> (r: (Vec<[u8; 6]>, Vec<[u8; 6]>))
    ensures
        r.0@ == spec_new_keys(snapshot@, known@),
        r.1@ == spec_gone_keys(known@, snapshot@),
        forall|k: Seq<u8>| has_key(r.0@, k) <==> (has_key(snapshot@, k) && !has_key(known@, k)),
        keys_distinct(r.0@),
        forall|k: Seq<u8>| has_key(r.1@, k) <==> (has_key(known@, k) && !has_key(snapshot@, k)),
        keys_distinct(known@) ==> keys_distinct(r.1@),
{
    let mut added: Vec<[u8; 6]> = Vec::new();
    let mut i: usize = 0;
    while i < snapshot.len()
        invariant
            i <= snapshot@.len(),
            forall|k: Seq<u8>| has_key(added@, k) <==> (has_key(snapshot@.take(i as int), k) && !has_key(known@, k)),
            keys_distinct(added@),
            added@ == spec_new_keys(snapshot@.take(i as int), known@),
        decreases snapshot@.len() - i,
    {
        let a = snapshot[i];
        let ghost before = added@;
        if !position_of(known, &a) && !position_of(&added, &a) {
            added.push(a);
        }
        i = i + 1;
        proof {
            let t = snapshot@.take(i as int);
            let p = snapshot@.take(i - 1);
            assert(t.drop_last() =~= p);
            assert(t.last() == a);
            assert(added@ == spec_new_keys(t, known@));
            assert forall|k: Seq<u8>| has_key(added@, k) <==> (has_key(t, k) && !has_key(known@, k)) by {
                if has_key(t, k) {
                    let j = choose|j: int| 0 <= j < t.len() && t[j]@ == k;
                    if j < i - 1 {
                        assert(p[j] == t[j]);
                    }
                }
                if has_key(p, k) {
                    let j = choose|j: int| 0 <= j < p.len() && p[j]@ == k;
                    assert(t[j] == p[j]);
                }
                if k == a@ {
                    assert(t[i - 1] == a);
                }
                if has_key(added@, k) {
                    let j = choose|j: int| 0 <= j < added@.len() && added@[j]@ == k;
                    if j < before.len() {
                        assert(before[j] == added@[j]);
                    }
                }
                if has_key(before, k) {
                    let j = choose|j: int| 0 <= j < before.len() && before[j]@ == k;
                    assert(added@[j] == before[j]);
                }
                if added@.len() > before.len() && k == a@ {
                    assert(added@[before.len() as int] == a);
                }
            }
        }
    }
    assert(snapshot@.take(snapshot@.len() as int) =~= snapshot@);
    let mut removed: Vec<[u8; 6]> = Vec::new();
    let mut j: usize = 0;
    while j < known.len()
        invariant
            j <= known@.len(),
            forall|k: Seq<u8>| has_key(removed@, k) <==> (has_key(known@.take(j as int), k) && !has_key(snapshot@, k)),
            keys_distinct(known@) ==> keys_distinct(removed@),
            keys_distinct(known@) ==> forall|x: int| 0 <= x < removed@.len() ==> has_key(known@.take(j as int), #[trigger] removed@[x]@),
            removed@ == spec_gone_keys(known@.take(j as int), snapshot@),
        decreases known@.len() - j,
    {
        let a = known[j];
        let ghost before = removed@;
        if !position_of(snapshot, &a) {
            removed.push(a);
        }
        j = j + 1;
        proof {
            let t = known@.take(j as int);
            let p = known@.take(j - 1);
            assert(t.drop_last() =~= p);
            assert(t.last() == a);
            assert(removed@ == spec_gone_keys(t, snapshot@));
            assert forall|k: Seq<u8>| has_key(p, k) implies has_key(t, k) by {
                let x = choose|x: int| 0 <= x < p.len() && p[x]@ == k;
                assert(t[x] == p[x]);
            }
            assert(t[j - 1] == a);
            assert forall|k: Seq<u8>| has_key(removed@, k) <==> (has_key(t, k) && !has_key(snapshot@, k)) by {
                if has_key(t, k) {
                    let x = choose|x: int| 0 <= x < t.len() && t[x]@ == k;
                    if x < j - 1 {
                        assert(p[x] == t[x]);
                    }
                }
                if has_key(removed@, k) {
                    let x = choose|x: int| 0 <= x < removed@.len() && removed@[x]@ == k;
                    if x < before.len() {
                        assert(before[x] == removed@[x]);
                    }
                }
                if has_key(before, k) {
                    let x = choose|x: int| 0 <= x < before.len() && before[x]@ == k;
                    assert(removed@[x] == before[x]);
                }
                if removed@.len() > before.len() && k == a@ {
                    assert(removed@[before.len() as int] == a);
                }
            }
            if keys_distinct(known@) {
                assert forall|x: int| 0 <= x < removed@.len() implies has_key(t, #[trigger] removed@[x]@) by {
                    if x < before.len() {
                        assert(before[x] == removed@[x]);
                        assert(has_key(p, before[x]@));
                    }
                }
                if removed@.len() > before.len() {
                    assert forall|x: int| 0 <= x < before.len() implies removed@[x]@ != a@ by {
                        assert(before[x] == removed@[x]);
                        assert(has_key(p, before[x]@));
                        let y = choose|y: int| 0 <= y < p.len() && p[y]@ == before[x]@;
                        assert(known@[y] == p[y]);
                        assert(known@[j - 1] == a);
                    }
                    assert forall|x: int, y: int| 0 <= x < y < removed@.len() implies removed@[x]@ != removed@[y]@ by {
                        if y < before.len() {
                            assert(before[x] == removed@[x]);
                            assert(before[y] == removed@[y]);
                        } else {
                            assert(removed@[y] == a);
                            assert(before[x] == removed@[x]);
                        }
                    }
                }
            }
        }
    }
    assert(known@.take(known@.len() as int) =~= known@);
    (added, removed)
}

/// Whether the text `id` occurs in `ids`.
pub open spec fn id_present(ids: Seq<String>, id: Seq<char>) -> bool {
    exists|i: int| 0 <= i < ids.len() && ids[i]@ == id
}

/// The entries of `known` whose USB id is (`keep`) or is not (`!keep`)
/// among the ids present in a scan, in order.
pub open spec fn partition_by_presence(known: Seq<(String, [u8; 6])>, present: Seq<String>, keep: bool) -> Seq<(String, [u8; 6])>
    decreases known.len(),
{
    if known.len() == 0 {
        known
    } else {
        partition_by_presence(known.drop_last(), present, keep) + if id_present(present, known.last().0@) == keep {
            seq![known.last()]
        } else {
            Seq::<(String, [u8; 6])>::empty()
        }
    }
}

fn id_in(ids: &Vec<String>, id: &String) -> (r: bool)
    ensures
        r == id_present(ids@, id@),
{
    let mut i: usize = 0;
    while i < ids.len()
        invariant
            i <= ids@.len(),
            forall|j: int| 0 <= j < i ==> ids@[j]@ != id@,
        decreases ids@.len() - i,
    {
        if ids[i] == *id {
            return true;
        }
        i = i + 1;
    }
    false
}

/// Splits the directly connected devices known by USB id into those seen in
/// the latest scan and those missing from it (whose handlers lose their
/// control connection), each in order.
pub fn split_missing_direct_devices(known: &Vec<(String, [u8; 6])>, present: &Vec<String>) -> (r: (
    Vec<(String, [u8; 6])>,
    Vec<(String, [u8; 6])>,
))
    ensures
        r.0@ == partition_by_presence(known@, present@, true),
        r.1@ == partition_by_presence(known@, present@, false),
{
    let mut kept: Vec<(String, [u8; 6])> = Vec::new();
    let mut missing: Vec<(String, [u8; 6])> = Vec::new();
    let mut i: usize = 0;
    while i < known.len()
        invariant
            i <= known@.len(),
            kept@ == partition_by_presence(known@.take(i as int), present@, true),
            missing@ == partition_by_presence(known@.take(i as int), present@, false),
        decreases known@.len() - i,
    {
        let id = known[i].0.clone();
        let entry = (id, known[i].1);
        proof {
            assert(known@.take(i + 1).drop_last() =~= known@.take(i as int));
            assert(known@.take(i + 1).last() == known@[i as int]);
            assert(entry == known@[i as int]);
        }
        let present_now = id_in(present, &entry.0);
        if present_now {
            kept.push(entry);
        } else {
            missing.push(entry);
        }
        i = i + 1;
        proof {
            let t = known@.take(i as int);
            if present_now {
                assert(kept@ =~= partition_by_presence(t.drop_last(), present@, true) + seq![t.last()]);
                assert(missing@ =~= partition_by_presence(t.drop_last(), present@, false) + Seq::<(String, [u8; 6])>::empty());
            } else {
                assert(kept@ =~= partition_by_presence(t.drop_last(), present@, true) + Seq::<(String, [u8; 6])>::empty());
                assert(missing@ =~= partition_by_presence(t.drop_last(), present@, false) + seq![t.last()]);
            }
        }
    }
    assert(known@.take(known@.len() as int) =~= known@);
    (kept, missing)
}

} // verus!
