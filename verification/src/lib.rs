//! Verified logic of the Odyssey hub, its clients and its desktop app.

// Text, numbers and sequences used throughout.
pub mod decimal;
pub mod numparse;
pub mod seqs;
pub mod text;

// Devices, accessories and their records on the wire.
pub mod accessory;
pub mod device;
pub mod dongle;
pub mod events;
pub mod interface;

// The hub's server side.
pub mod accessory_link;
pub mod config;
pub mod device_link;
pub mod device_list;
pub mod hexkeymap;
pub mod shot_delay;

// Firmware: manifests, versions, DFU and updates.
pub mod dfu;
pub mod digest;
pub mod firmware;
pub mod firmware_update;
pub mod version;

// Clients and their bindings.
pub mod ffi;
pub mod tracking_history;
pub mod uniffi_types;

// The desktop app.
pub mod paths;
pub mod sensor_settings;
pub mod server_status;
pub mod update_channel;
pub mod update_state;
pub mod views;
pub mod zeroing;
