//! Core logic of TUFF-OS: a hardware-bound, key-gated storage platform.
//!
//! The crate gathers the trust-establishing pieces of the platform: the
//! index-chunk codec and its validation rules, the crash-safe index-chunk
//! store, the master-key fingerprint binding, the USB key monitor's
//! decision logic, the daemon state machine with its boot driver, and the
//! key-provisioning ceremony. All I/O (mounts, file reads, sleeps) lives
//! in the surrounding binaries; this crate holds the rules they follow.

pub mod boot;
pub mod ceremony;
pub mod crypto;
pub mod errors;
pub mod events;
pub mod fs_manager;
pub mod hex;
pub mod mk_fingerprint;
pub mod schemas;
pub mod state_machine;
pub mod time;
pub mod usb_monitor;
pub mod usb_storage;
pub mod util;
