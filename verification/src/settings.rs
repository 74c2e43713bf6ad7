//! The `config.toml` schema: the settings structs the engine and the
//! settings window read, their defaults, and the clamps applied at read
//! time so a hand-edited value cannot break the app.

use std::time::Duration;
use vstd::prelude::*;

use crate::layout::LayoutId;
use crate::text::{chars_of, string_of};

verus! {

/// `Duration::from_secs(secs)`: a duration of exactly `secs` seconds.
pub uninterp spec fn secs_duration(secs: u64) -> Duration;

/// Calls `std::time::Duration::from_secs`.
#[verifier::external_body]
pub(crate) fn duration_from_secs(secs: u64) -> (d: Duration)
    ensures
        d == secs_duration(secs),
{
    Duration::from_secs(secs)
}

fn owned(s: &str) -> (r: String)
    ensures
        r@ == s@,
{
    let v = chars_of(s);
    string_of(&v)
}

/// Never check for updates more often than this.
pub const MIN_UPDATE_INTERVAL_HOURS: u64 = 1;

#[derive(Debug, Clone, PartialEq)]
pub struct GeneralSettings {
    pub autostart: bool,
    pub sound_on_correct: bool,
    pub show_notifications: bool,
    pub ui_language: String,
    /// `"system"`, `"light"` or `"dark"`.
    pub ui_theme: String,
    pub log_level: String,
}

impl Default for GeneralSettings {
    fn default() -> (r: Self)
        ensures
            r.autostart && r.sound_on_correct && !r.show_notifications,
            r.ui_language@ == "system"@,
            r.ui_theme@ == "system"@,
            r.log_level@ == "info"@,
    {
        GeneralSettings {
            autostart: true,
            sound_on_correct: true,
            show_notifications: false,
            ui_language: owned("system"),
            ui_theme: owned("system"),
            log_level: owned("info"),
        }
    }
}

#[derive(Debug, Clone, Default, PartialEq)]
pub struct LanguageSettings {
    /// Layouts the engine considers. Empty = every layout the OS knows.
    pub active: Vec<LayoutId>,
    /// Layouts the engine never switches to.
    pub ignored: Vec<LayoutId>,
}

#[derive(Debug, Clone, Default, PartialEq)]
pub struct ExceptionSettings {
    /// Foreground apps where auto-switching is disabled, matched
    /// case-insensitively against the executable basename. Empty by
    /// default: the app does not decide for the user where they may type.
    pub disabled_apps: Vec<String>,
    /// Words that should never be auto-corrected.
    pub word_whitelist: Vec<String>,
}

#[derive(Debug, Clone, PartialEq)]
pub struct HotkeySettings {
    pub pause_toggle: String,
    pub manual_switch_last: String,
}

impl Default for HotkeySettings {
    fn default() -> (r: Self)
        ensures
            r.pause_toggle@ == "Ctrl+Shift+Space"@,
            r.manual_switch_last@ == "Ctrl+Shift+Backspace"@,
    {
        HotkeySettings {
            pause_toggle: owned("Ctrl+Shift+Space"),
            manual_switch_last: owned("Ctrl+Shift+Backspace"),
        }
    }
}

/// Spelling suggestions for mistyped words.
#[derive(Debug, Clone, PartialEq)]
pub struct SuggestionSettings {
    pub enabled: bool,
    /// Most suggestions ever offered at once; clamped to 1..=9 at read
    /// time — each entry is addressed by one digit key.
    pub max_suggestions: usize,
    /// Seconds the tooltip stays up; clamped to 3..=600 at read time.
    pub tooltip_timeout_secs: u64,
    /// Modifier half of the keyboard-accept chord. Empty disables it.
    pub accept_modifiers: String,
}

impl Default for SuggestionSettings {
    fn default() -> (r: Self)
        ensures
            r.enabled,
            r.max_suggestions == 5,
            r.tooltip_timeout_secs == 30,
            r.accept_modifiers@ == "Ctrl+Shift"@,
    {
        SuggestionSettings {
            enabled: true,
            max_suggestions: 5,
            tooltip_timeout_secs: 30,
            accept_modifiers: owned("Ctrl+Shift"),
        }
    }
}

pub open spec fn clamp_nat(v: int, lo: int, hi: int) -> int {
    if v < lo {
        lo
    } else if v > hi {
        hi
    } else {
        v
    }
}

impl SuggestionSettings {
    /// `max_suggestions` clamped to 1..=9.
    pub fn max_clamped(&self) -> (r: usize)
        ensures
            r == clamp_nat(self.max_suggestions as int, 1, 9),
    {
        if self.max_suggestions < 1 {
            1
        } else if self.max_suggestions > 9 {
            9
        } else {
            self.max_suggestions
        }
    }

    /// Tooltip lifetime with a floor of 3 s (a sub-second tooltip is
    /// unusable) and a ceiling of 600 s (an hour-long one is a leak).
    pub fn timeout(&self) -> (r: Duration)
        ensures
            r == secs_duration(clamp_nat(self.tooltip_timeout_secs as int, 3, 600) as u64),
    {
        let secs = if self.tooltip_timeout_secs < 3 {
            3
        } else if self.tooltip_timeout_secs > 600 {
            600
        } else {
            self.tooltip_timeout_secs
        };
        duration_from_secs(secs)
    }
}

/// Automatic updates from GitHub Releases — the one network access a
/// default build performs.
#[derive(Debug, Clone, PartialEq)]
pub struct UpdateSettings {
    pub enabled: bool,
    /// Hours between checks; floored at read time.
    pub check_interval_hours: u64,
}

impl Default for UpdateSettings {
    fn default() -> (r: Self)
        ensures
            r.enabled,
            r.check_interval_hours == 24,
    {
        UpdateSettings { enabled: true, check_interval_hours: 24 }
    }
}

impl UpdateSettings {
    /// The check interval with the hand-edit floor applied: a `0` (a
    /// typo, or a user reading zero as "off") means hourly, never a
    /// request loop. Intervals whose seconds overflow `u64` are out.
    pub fn interval(&self) -> (r: Duration)
        requires
            self.check_interval_hours <= u64::MAX / 3600,
        ensures
            r == secs_duration(
                ((if self.check_interval_hours < MIN_UPDATE_INTERVAL_HOURS {
                    MIN_UPDATE_INTERVAL_HOURS
                } else {
                    self.check_interval_hours
                }) * 3600) as u64,
            ),
    {
        let hours = if self.check_interval_hours < MIN_UPDATE_INTERVAL_HOURS {
            MIN_UPDATE_INTERVAL_HOURS
        } else {
            self.check_interval_hours
        };
        duration_from_secs(hours * 60 * 60)
    }
}

/// Reserved for the AI subsystem. Network calls stay blocked until both
/// toggles are on.
#[derive(Debug, Clone, Default, PartialEq)]
pub struct AiSettings {
    pub enabled: bool,
    pub allow_remote: bool,
}

} // verus!
