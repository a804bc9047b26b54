//! Ketikin's core: settings, templates, storage policy, hotkey bookkeeping
//! and the typing engine's decisions, each stated as a contract and proved.
//!
//! The operating system, the file system, the clock and the keyboard are the
//! caller's: functions here take what those returned as plain values and
//! decide what happens next.

use vstd::prelude::*;

pub mod error;
pub mod hotkeys;
pub mod icons;
pub mod settings;
pub mod storage;
pub mod templates;
pub mod text;
pub mod tray;
pub mod typing;
pub mod updater;

pub use tray::{hide_to_tray_allowed, TrayUnavailable};
