//! Settings defaults and clamps, layout tables, banners, overlay names,
//! keycaps, the LaunchAgent body, the popup model and the key gate.

use std::time::Duration;

use poltertype::anchor::PopupAnchor;
use poltertype::autostart::{plist_body, xml_escape, PLIST_HEAD, PLIST_TAIL};
use poltertype::engine_types::{AcceptModifiers, SuggestionAction, SuggestionEntry};
use poltertype::hold::HookGate;
use poltertype::key_gate::{GateBackend, HeldKeys, KeyGate};
use poltertype::layout::{
    bcp47_to_tis_id, layout_id_for_source, mac_keycode_to_sc1, tis_id_to_bcp47, LayoutId,
};
use poltertype::popup::{build_popup_model, layout_badge, mac_hint};
use poltertype::settings::{GeneralSettings, HotkeySettings, SuggestionSettings, UpdateSettings};
use poltertype::settings_ui::{
    accept_modifiers_enable_keyboard, banner_for_auto_save, banner_for_wordlist_save,
    display_key_token, display_key_token_macos, format_hotkey, is_modifier_key, key_to_string,
    layout_id_to_stem, overlay_file_name, overlay_file_text, HotkeyModifiers, KeyInput, NamedKey, SaveBanner,
    WordlistFlushOutcome, WordlistKind,
};

#[test]
fn suggestion_settings_are_clamped_when_read() {
    let mut s = SuggestionSettings::default();
    assert_eq!(s.max_clamped(), 5);
    assert_eq!(s.timeout(), Duration::from_secs(30));
    s.max_suggestions = 0;
    s.tooltip_timeout_secs = 1;
    assert_eq!(s.max_clamped(), 1);
    assert_eq!(s.timeout(), Duration::from_secs(3));
    s.max_suggestions = 50;
    s.tooltip_timeout_secs = 7200;
    assert_eq!(s.max_clamped(), 9);
    assert_eq!(s.timeout(), Duration::from_secs(600));
}

#[test]
fn update_interval_has_an_hourly_floor() {
    let mut u = UpdateSettings::default();
    assert_eq!(u.interval(), Duration::from_secs(24 * 3600));
    u.check_interval_hours = 0;
    assert_eq!(u.interval(), Duration::from_secs(3600));
}

#[test]
fn defaults_match_the_shipped_config() {
    let g = GeneralSettings::default();
    assert!(g.autostart && g.sound_on_correct && !g.show_notifications);
    assert_eq!(g.log_level, "info");
    let h = HotkeySettings::default();
    assert_eq!(h.manual_switch_last, "Ctrl+Shift+Backspace");
    assert_eq!(SuggestionSettings::default().accept_modifiers, "Ctrl+Shift");
}

#[test]
fn accept_modifiers_parse() {
    assert_eq!(
        AcceptModifiers::parse(" ctrl + Shift "),
        Some(AcceptModifiers { ctrl: true, shift: true, alt: false, meta: false })
    );
    assert_eq!(
        AcceptModifiers::parse("Option+Win"),
        Some(AcceptModifiers { ctrl: false, shift: false, alt: true, meta: true })
    );
    assert_eq!(AcceptModifiers::parse("Shift"), None);
    assert_eq!(AcceptModifiers::parse(""), None);
    assert_eq!(AcceptModifiers::parse("Ctrl+Hyper"), None);
    assert!(accept_modifiers_enable_keyboard("Ctrl+Meta"));
    assert!(!accept_modifiers_enable_keyboard("Shift"));
}

#[test]
fn tis_tables_round_trip_the_preferred_sources() {
    assert_eq!(tis_id_to_bcp47("com.apple.keylayout.US"), Some("en-US".to_string()));
    assert_eq!(tis_id_to_bcp47("com.apple.keylayout.UkrainianWin"), Some("uk-UA".to_string()));
    assert_eq!(tis_id_to_bcp47("com.apple.keylayout.Dvorak"), None);
    assert_eq!(bcp47_to_tis_id("uk-UA"), Some("com.apple.keylayout.Ukrainian-PC".to_string()));
    assert_eq!(bcp47_to_tis_id("xx-XX"), None);
    for id in ["en-US", "en-GB", "uk-UA", "ru-RU", "de-DE", "fr-FR", "es-ES", "pl-PL", "el-GR"] {
        let tis = bcp47_to_tis_id(id).expect("mapped");
        assert_eq!(tis_id_to_bcp47(&tis), Some(id.to_string()));
    }
}

#[test]
fn mac_keycodes_map_to_set_one() {
    assert_eq!(mac_keycode_to_sc1(0x00), 0x1E);
    assert_eq!(mac_keycode_to_sc1(0x24), 0x1C);
    assert_eq!(mac_keycode_to_sc1(0x31), 0x39);
    assert_eq!(mac_keycode_to_sc1(0x7A), 0x7A);
}

#[test]
fn wordlist_banners() {
    assert_eq!(
        banner_for_wordlist_save(WordlistFlushOutcome::Nothing),
        SaveBanner { text: "Nothing to save (buffer is unchanged).".into(), is_error: false }
    );
    assert_eq!(
        banner_for_wordlist_save(WordlistFlushOutcome::NoLayout),
        SaveBanner { text: "No layout selected.".into(), is_error: true }
    );
    assert_eq!(
        banner_for_wordlist_save(WordlistFlushOutcome::Saved("/c/en_us.txt".into())),
        SaveBanner { text: "Saved to /c/en_us.txt. Close this window to apply.".into(), is_error: false }
    );
    assert_eq!(
        banner_for_wordlist_save(WordlistFlushOutcome::Failed("disk full".into())),
        SaveBanner { text: "Save failed: disk full".into(), is_error: true }
    );
    assert_eq!(banner_for_auto_save(WordlistFlushOutcome::Nothing), None);
    assert_eq!(banner_for_auto_save(WordlistFlushOutcome::NoLayout), None);
    assert_eq!(
        banner_for_auto_save(WordlistFlushOutcome::Saved("/c/x.txt".into())),
        Some(SaveBanner { text: "Auto-saved unsaved edit to /c/x.txt.".into(), is_error: false })
    );
    assert_eq!(
        banner_for_auto_save(WordlistFlushOutcome::Failed("denied".into())),
        Some(SaveBanner { text: "Auto-save failed: denied".into(), is_error: true })
    );
}

#[test]
fn overlay_names_follow_the_stem_convention() {
    let id = LayoutId::new("kk-Cyrl-KZ".into());
    assert_eq!(layout_id_to_stem(&id), "kk_cyrl_kz");
    assert_eq!(overlay_file_name(&id, WordlistKind::Main), "kk_cyrl_kz.txt");
    assert_eq!(overlay_file_name(&LayoutId::new("uk-UA".into()), WordlistKind::Extras), "uk_ua-extras.txt");
    assert_eq!(WordlistKind::Stop.suffix(), "-stop");
}

#[test]
fn keycaps() {
    assert_eq!(display_key_token("Ctrl"), "Ctrl");
    assert_eq!(display_key_token_macos("ctrl"), "⌃");
    assert_eq!(display_key_token_macos("Command"), "⌘");
    assert_eq!(display_key_token_macos("Backspace"), "⌫");
    assert_eq!(display_key_token_macos("F5"), "F5");
    assert_eq!(mac_hint("Ctrl+Shift"), "⌃⇧");
    assert_eq!(mac_hint("Alt + Meta + Bogus"), "⌥⌘");
}

#[test]
fn launch_agent_body_escapes_the_path() {
    assert_eq!(xml_escape("a<b>&\"c'"), "a&lt;b&gt;&amp;\"c'");
    let body = plist_body("/Apps/P&T.app");
    assert_eq!(body, format!("{PLIST_HEAD}/Apps/P&amp;T.app{PLIST_TAIL}"));
}

#[test]
fn popup_rows_carry_badges_and_the_dictionary_label() {
    assert_eq!(layout_badge(&LayoutId::new("uk-UA".into())), "UK");
    let entries = vec![
        SuggestionEntry {
            text: "привіт".into(),
            switch_to: Some(LayoutId::new("uk-UA".into())),
            action: SuggestionAction::Replace,
        },
        SuggestionEntry { text: "ghbdsn".into(), switch_to: None, action: SuggestionAction::AddToDictionary },
    ];
    let m = build_popup_model(
        7,
        "ghbdsn".into(),
        &entries,
        Duration::from_secs(30),
        String::new(),
        PopupAnchor::ScreenBottom { output: None },
    );
    assert_eq!(m.generation, 7);
    assert_eq!(m.entries[0].badge.as_deref(), Some("UK"));
    assert_eq!(m.entries[0].text, "привіт");
    assert!(!m.entries[0].is_action);
    assert_eq!(m.entries[1].text, "Add to dictionary");
    assert!(m.entries[1].is_action);
    assert_eq!(m.accept_hint, None);
}

#[test]
fn a_disabled_gate_never_holds() {
    let mut gate: KeyGate<HookGate> = KeyGate::disabled();
    assert!(!gate.available());
    assert!(!gate.hold());
    let mut held = HeldKeys::acquire(&mut gate);
    assert!(!held.active());
    held.release(&mut gate);
    assert!(gate.backend().is_none());
}

#[test]
fn held_keys_release_once() {
    let mut hook = HookGate::new(true);
    hook.set_hook_running(true);
    let mut gate = KeyGate::with_backend(hook);
    let mut held = HeldKeys::acquire(&mut gate);
    assert!(held.active());
    assert!(gate.backend().expect("backend").is_holding());
    held.release(&mut gate);
    assert!(!gate.backend().expect("backend").is_holding());
    // A second release leaves a hold taken since alone.
    assert!(gate.hold());
    held.release(&mut gate);
    assert!(!held.active());
    assert!(gate.backend().expect("backend").is_holding());
    gate.release();
    assert!(!gate.backend().expect("backend").is_holding());
}

#[test]
fn a_hook_gate_holds_only_while_on_and_hooked() {
    let mut gate = KeyGate::with_backend(HookGate::new(true));
    assert!(!gate.available(), "no hook running yet");
    assert!(!gate.hold());
    let mut hook = HookGate::new(true);
    hook.set_hook_running(true);
    let mut gate = KeyGate::with_backend(hook);
    assert!(gate.available());
    let mut held = HeldKeys::acquire(&mut gate);
    assert!(held.active());
    held.release(&mut gate);
    assert!(!held.active());

    let mut off = HookGate::new(false);
    off.set_hook_running(true);
    assert!(!off.wants_active_hook());
    let mut gate = KeyGate::with_backend(off);
    assert!(!gate.available());
    assert!(!HeldKeys::acquire(&mut gate).active());
}

#[test]
fn a_hook_gate_swallows_foreign_keys_only_while_holding() {
    let mut hook = HookGate::new(true);
    hook.set_hook_running(true);
    assert!(!hook.swallow(false), "nothing is held yet");
    assert!(hook.hold());
    assert!(hook.swallow(false), "a foreign keystroke is held back");
    assert!(!hook.swallow(true), "our own keystrokes always pass");
    hook.release();
    assert!(!hook.swallow(false));
    assert!(hook.hold());
    hook.set_hook_running(false);
    assert!(!hook.swallow(false), "a stopped hook clears the hold");
    assert!(!hook.available());
}

#[test]
fn captured_hotkeys_render_in_canonical_order() {
    let space = KeyInput::Named { key: NamedKey::Space, rendered: "Space".into() };
    let all = HotkeyModifiers { control: true, alt: true, shift: true, logo: true };
    assert_eq!(format_hotkey(&space, all), "Ctrl+Alt+Shift+Meta+Space");
    let ctrl_shift = HotkeyModifiers { control: true, shift: true, ..HotkeyModifiers::default() };
    assert_eq!(format_hotkey(&KeyInput::Character("a".into()), ctrl_shift), "Ctrl+Shift+A");
    let f4 = KeyInput::Named { key: NamedKey::F4, rendered: "F4".into() };
    assert_eq!(format_hotkey(&f4, HotkeyModifiers { alt: true, ..HotkeyModifiers::default() }), "Alt+F4");
}

#[test]
fn key_names() {
    assert_eq!(key_to_string(&KeyInput::Named { key: NamedKey::ArrowUp, rendered: "ArrowUp".into() }), "Up");
    assert_eq!(
        key_to_string(&KeyInput::Named { key: NamedKey::Unlisted, rendered: "PrintScreen".into() }),
        "PrintScreen"
    );
    assert_eq!(key_to_string(&KeyInput::Other { rendered: "Unidentified".into() }), "Unidentified");
    assert_eq!(key_to_string(&KeyInput::Character("ß".into())), "SS");
    assert!(is_modifier_key(&KeyInput::Named { key: NamedKey::AltGraph, rendered: "AltGraph".into() }));
    assert!(!is_modifier_key(&KeyInput::Named { key: NamedKey::Tab, rendered: "Tab".into() }));
    assert!(!is_modifier_key(&KeyInput::Character("x".into())));
}

#[test]
fn unmapped_sources_keep_their_tis_id() {
    assert_eq!(layout_id_for_source("com.apple.keylayout.German").as_str(), "de-DE");
    assert_eq!(
        layout_id_for_source("com.apple.keylayout.Colemak").as_str(),
        "com.apple.keylayout.Colemak"
    );
}

#[test]
fn overlay_files_end_in_exactly_one_added_newline() {
    assert_eq!(overlay_file_text("привіт\nсвіт"), "привіт\nсвіт\n");
    assert_eq!(overlay_file_text("word\n"), "word\n");
    assert_eq!(overlay_file_text(""), "\n");
    assert_eq!(overlay_file_text("a\n\n"), "a\n\n");
}

#[test]
fn accept_modifiers_skip_blank_segments_and_repeat_groups() {
    assert_eq!(
        AcceptModifiers::parse("+ CMD ++ super +"),
        Some(AcceptModifiers { ctrl: false, shift: false, alt: false, meta: true })
    );
    assert_eq!(
        AcceptModifiers::parse("control+CTRL+shift"),
        Some(AcceptModifiers { ctrl: true, shift: true, alt: false, meta: false })
    );
    assert_eq!(AcceptModifiers::parse("+ + "), None);
    assert_eq!(AcceptModifiers::parse("Alt+Shift+x"), None);
}
