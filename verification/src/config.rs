//! The daemon's settings. Every key is optional in the user's TOML file;
//! a missing key takes the value that `Default` gives here.
use vstd::prelude::*;

verus! {

// ── Top-level config ──────────────────────────────────────────────────────────

#[derive(Debug, Clone, Copy)]
pub struct Config {
    pub general: GeneralConfig,
    pub timeouts: TimeoutConfig,
    pub appearance: AppearanceConfig,
}

impl Default for Config {
    fn default() -> (r: Self)
        ensures
            r.general == spec_default_general(),
            r.timeouts == spec_default_timeouts(),
            r.appearance == spec_default_appearance(),
    {
        Config {
            general: GeneralConfig::default(),
            timeouts: TimeoutConfig::default(),
            appearance: AppearanceConfig::default(),
        }
    }
}

// ── Sub-sections ─────────────────────────────────────────────────────────────

#[derive(Debug, Clone, Copy)]
pub struct GeneralConfig {
    /// Maximum simultaneous on-screen notifications (oldest removed first).
    pub max_visible: usize,
    /// How many entries to keep in history.
    pub history_size: usize,
    /// Write history to disk.
    pub persist_history: bool,
    /// Corner to anchor notifications.
    pub anchor: Anchor,
    /// Gap between the screen edge and the first notification (pixels).
    pub margin: i32,
    /// Vertical gap between notification cards (pixels).
    pub gap: i32,
}

/// The built-in general settings.
pub open spec fn spec_default_general() -> GeneralConfig {
    GeneralConfig {
        max_visible: 5,
        history_size: 100,
        persist_history: false,
        anchor: Anchor::TopRight,
        margin: 12,
        gap: 6,
    }
}

impl Default for GeneralConfig {
    fn default() -> (r: Self)
        ensures
            r == spec_default_general(),
    {
        GeneralConfig {
            max_visible: 5,
            history_size: 100,
            persist_history: false,
            anchor: Anchor::TopRight,
            margin: 12,
            gap: 6,
        }
    }
}

#[derive(Debug, Clone, Copy)]
pub struct TimeoutConfig {
    /// Default timeout for low-urgency notifications (ms).
    pub low: u32,
    /// Default timeout for normal-urgency notifications (ms).
    pub normal: u32,
    // Critical notifications never auto-dismiss unless expire_timeout is set.
}

/// The built-in timeouts.
pub open spec fn spec_default_timeouts() -> TimeoutConfig {
    TimeoutConfig { low: 4_000, normal: 6_000 }
}

impl Default for TimeoutConfig {
    fn default() -> (r: Self)
        ensures
            r == spec_default_timeouts(),
    {
        TimeoutConfig { low: 4_000, normal: 6_000 }
    }
}

#[derive(Debug, Clone, Copy)]
pub struct AppearanceConfig {
    /// Minimum width of the notification popup (pixels).
    pub min_width: i32,
    /// Maximum width of the notification popup (pixels).
    pub max_width: i32,
    /// Show the application name inside each card.
    pub show_app_name: bool,
    /// Show action buttons on the card.
    pub show_actions: bool,
}

/// The built-in appearance settings.
pub open spec fn spec_default_appearance() -> AppearanceConfig {
    AppearanceConfig { min_width: 300, max_width: 420, show_app_name: true, show_actions: true }
}

impl Default for AppearanceConfig {
    fn default() -> (r: Self)
        ensures
            r == spec_default_appearance(),
    {
        AppearanceConfig { min_width: 300, max_width: 420, show_app_name: true, show_actions: true }
    }
}

// ── Anchor ────────────────────────────────────────────────────────────────────

/// Screen corner or edge centre the popup column is attached to.
#[derive(Debug, Clone, Copy, PartialEq, Eq, Structural)]
pub enum Anchor {
    TopRight,
    TopLeft,
    TopCenter,
    BottomRight,
    BottomLeft,
    BottomCenter,
}

} // verus!
