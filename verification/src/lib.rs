//! PolterType's decision logic: the key gates that hold the user's
//! keystrokes back during a correction, spelling-suggestion offers and
//! the run loop's per-event decisions, the emitter's key plans, the
//! suggestion tooltip's anchoring and bookkeeping, the focus-tracker
//! parsers, the settings schema and the settings window's helpers.

pub mod clock;
pub mod text;

pub mod hold;
pub mod evdev_gate;
pub mod key_gate;
pub mod rescan;

pub mod engine_types;
pub mod engine_loop;
pub mod suggestions;
pub mod emit_plan;

pub mod anchor;
pub mod popup;
pub mod hyprland;

pub mod layout;
pub mod settings;
pub mod settings_ui;
pub mod commands;
pub mod autostart;
