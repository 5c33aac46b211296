//! rnd — a notification daemon for the FDO Desktop Notifications interface.
//!
//! This crate holds the daemon's decisions: which notifications are on
//! screen and what each request does to them, the history and what is kept
//! of it, the settings, how icons are found, and what the command-line tools
//! compute. Drawing, the bus connection and file access call into it.
use vstd::prelude::*;

pub mod app;
pub mod cli;
pub mod config;
pub mod ctl;
pub mod dbus;
pub mod history;
pub mod icon;
pub mod installer;
pub mod notification;
pub mod text;

verus! {

/// The well-known bus name of the notification service.
pub const DBUS_DESTINATION: &'static str = "org.freedesktop.Notifications";

/// The object path of the notification service.
pub const DBUS_PATH: &'static str = "/org/freedesktop/Notifications";

/// The interface of the notification service.
pub const DBUS_INTERFACE: &'static str = "org.freedesktop.Notifications";

/// The object path of the daemon's control interface.
pub const CONTROL_PATH: &'static str = "/org/rnd/Control";

/// The daemon's control interface.
pub const CONTROL_INTERFACE: &'static str = "org.rnd.Control";

/// The application id the daemon registers with GTK.
pub const APP_ID: &'static str = "org.rnd.NotificationDaemon";

} // verus!
