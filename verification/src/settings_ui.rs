//! Pure helpers of the settings window: save banners, overlay file
//! names, the accept-chord hint and hotkey keycap labels.

use vstd::prelude::*;

use crate::engine_types::{accept_modifiers_of, AcceptModifiers};
use crate::layout::LayoutId;
use crate::text::{
    append_chars, append_str, ascii_lower_chars, ascii_lower_seq, chars_of, is_word, join_chars,
    join_with, lowercase, str_to_lowercase, str_to_uppercase, string_of, uppercase, views,
};

verus! {

/// What flushing the wordlist editor did.
#[derive(Debug, Clone, PartialEq, Eq)]
pub enum WordlistFlushOutcome {
    /// The buffer was unchanged.
    Nothing,
    /// No layout is selected.
    NoLayout,
    /// Saved; the path as displayed.
    Saved(String),
    /// The write failed; the error as displayed.
    Failed(String),
}

/// A status line for the wordlist pane.
#[derive(Debug, Clone, PartialEq, Eq)]
pub struct SaveBanner {
    pub text: String,
    pub is_error: bool,
}

/// Which overlay file of a layout is being edited.
#[derive(Debug, Clone, Copy, PartialEq, Eq)]
pub enum WordlistKind {
    /// `<stem>.txt` — extra words of the layout.
    Main,
    /// `<stem>-extras.txt` — the same, kept separately.
    Extras,
    /// `<stem>-stop.txt` — short words.
    Stop,
}

pub open spec fn kind_suffix(k: WordlistKind) -> Seq<char> {
    match k {
        WordlistKind::Main => Seq::empty(),
        WordlistKind::Extras => "-extras"@,
        WordlistKind::Stop => "-stop"@,
    }
}

impl WordlistKind {
    /// The part of the file name after the layout stem.
    pub fn suffix(&self) -> (r: &'static str)
        ensures
            r@ == kind_suffix(*self),
    {
        match self {
            WordlistKind::Main => {
                proof {
                    reveal_strlit("");
                }
                ""
            },
            WordlistKind::Extras => "-extras",
            WordlistKind::Stop => "-stop",
        }
    }
}

pub open spec fn explicit_banner(o: WordlistFlushOutcome) -> (Seq<char>, bool) {
    match o {
        WordlistFlushOutcome::Nothing => ("Nothing to save (buffer is unchanged)."@, false),
        WordlistFlushOutcome::NoLayout => ("No layout selected."@, true),
        WordlistFlushOutcome::Saved(p) => ("Saved to "@ + p@ + ". Close this window to apply."@, false),
        WordlistFlushOutcome::Failed(e) => ("Save failed: "@ + e@, true),
    }
}

pub open spec fn auto_banner(o: WordlistFlushOutcome) -> Option<(Seq<char>, bool)> {
    match o {
        WordlistFlushOutcome::Nothing => None,
        WordlistFlushOutcome::NoLayout => None,
        WordlistFlushOutcome::Saved(p) => Some(("Auto-saved unsaved edit to "@ + p@ + "."@, false)),
        WordlistFlushOutcome::Failed(e) => Some(("Auto-save failed: "@ + e@, true)),
    }
}

fn banner(parts: Vec<char>, is_error: bool) -> (b: SaveBanner)
    ensures
        b.text@ == parts@,
        b.is_error == is_error,
{
    SaveBanner { text: string_of(&parts), is_error }
}

/// Banner text for the explicit per-pane Save button.
pub fn banner_for_wordlist_save(outcome: WordlistFlushOutcome) -> (b: SaveBanner)
    ensures
        (b.text@, b.is_error) == explicit_banner(outcome),
{
    match outcome {
        WordlistFlushOutcome::Nothing => banner(chars_of("Nothing to save (buffer is unchanged)."), false),
        WordlistFlushOutcome::NoLayout => banner(chars_of("No layout selected."), true),
        WordlistFlushOutcome::Saved(path) => {
            let mut t = chars_of("Saved to ");
            append_str(&mut t, path.as_str());
            append_str(&mut t, ". Close this window to apply.");
            banner(t, false)
        },
        WordlistFlushOutcome::Failed(e) => {
            let mut t = chars_of("Save failed: ");
            append_str(&mut t, e.as_str());
            banner(t, true)
        },
    }
}

/// Banner text for the auto-save path (layout / profile / kind
/// switch); `None` when nothing happened, so navigation stays quiet.
pub fn banner_for_auto_save(outcome: WordlistFlushOutcome) -> (b: Option<SaveBanner>)
    ensures
        match b {
            Some(b) => auto_banner(outcome) == Some((b.text@, b.is_error)),
            None => auto_banner(outcome) is None,
        },
{
    match outcome {
        WordlistFlushOutcome::Nothing => None,
        WordlistFlushOutcome::NoLayout => None,
        WordlistFlushOutcome::Saved(path) => {
            let mut t = chars_of("Auto-saved unsaved edit to ");
            append_str(&mut t, path.as_str());
            append_str(&mut t, ".");
            Some(banner(t, false))
        },
        WordlistFlushOutcome::Failed(e) => {
            let mut t = chars_of("Auto-save failed: ");
            append_str(&mut t, e.as_str());
            Some(banner(t, true))
        },
    }
}

/// The on-disk stem of a layout's overlay files: lowercased, `-` → `_`
/// (`en-US` → `en_us`, `kk-Cyrl-KZ` → `kk_cyrl_kz`).
pub open spec fn stem_of(id: Seq<char>) -> Seq<char> {
    lowercase(id).map_values(|c: char| if c == '-' { '_' } else { c })
}

pub fn layout_id_to_stem(id: &LayoutId) -> (r: String)
    ensures
        r@ == stem_of(id@),
{
    let lower = str_to_lowercase(id.as_str());
    let v = chars_of(lower.as_str());
    let n = v.len();
    let mut out: Vec<char> = Vec::new();
    let mut i: usize = 0;
    while i < n
        invariant
            n == v.len(),
            v@ == lowercase(id@),
            0 <= i <= n,
            out@ =~= v@.take(i as int).map_values(|c: char| if c == '-' { '_' } else { c }),
        decreases n - i,
    {
        let c = v[i];
        out.push(if c == '-' { '_' } else { c });
        assert(v@.take(i as int + 1).map_values(|c: char| if c == '-' { '_' } else { c }) =~= v@.take(
            i as int,
        ).map_values(|c: char| if c == '-' { '_' } else { c }).push(if c == '-' { '_' } else { c }));
        i += 1;
    }
    assert(v@.take(n as int) =~= v@);
    string_of(&out)
}

/// The overlay file's name inside the wordlist directory:
/// `<stem><suffix>.txt`.
pub fn overlay_file_name(id: &LayoutId, kind: WordlistKind) -> (r: String)
    ensures
        r@ == stem_of(id@) + kind_suffix(kind) + ".txt"@,
{
    let stem = layout_id_to_stem(id);
    let mut v = chars_of(stem.as_str());
    append_str(&mut v, kind.suffix());
    append_str(&mut v, ".txt");
    string_of(&v)
}

/// The text an overlay file is saved with: the editor buffer, ending in
/// a newline like the bundled files (one is added when missing).
pub fn overlay_file_text(text: &str) -> (r: String)
    ensures
        r@ == if text@.len() > 0 && text@.last() == '\n' {
            text@
        } else {
            text@.push('\n')
        },
{
    let mut v = chars_of(text);
    let n = v.len();
    if n == 0 || v[n - 1] != '\n' {
        v.push('\n');
    }
    string_of(&v)
}

/// Whether `[suggestions].accept_modifiers` arms the keyboard-accept
/// chord — exactly when the engine's own parse accepts it, so the pane's
/// hint can never contradict the engine.
pub fn accept_modifiers_enable_keyboard(s: &str) -> (r: bool)
    ensures
        r == accept_modifiers_of(s@) is Some,
{
    AcceptModifiers::parse(s).is_some()
}

/// Display form of a stored hotkey token for keycap chips. Off macOS
/// the portable names are shown as stored.
pub fn display_key_token(tok: &str) -> (r: String)
    ensures
        r@ == tok@,
{
    let v = chars_of(tok);
    string_of(&v)
}

/// The macOS keycap for a stored token: the platform's glyphs for
/// modifiers and named keys, matched ASCII-case-insensitively; other
/// tokens as stored.
pub open spec fn mac_keycap(tok: Seq<char>) -> Seq<char> {
    let l = ascii_lower_seq(tok);
    if l == "ctrl"@ || l == "control"@ {
        "⌃"@
    } else if l == "alt"@ || l == "option"@ {
        "⌥"@
    } else if l == "shift"@ {
        "⇧"@
    } else if l == "meta"@ || l == "cmd"@ || l == "command"@ || l == "super"@ || l == "win"@ {
        "⌘"@
    } else if l == "backspace"@ {
        "⌫"@
    } else if l == "enter"@ || l == "return"@ {
        "↩"@
    } else if l == "tab"@ {
        "⇥"@
    } else if l == "esc"@ || l == "escape"@ {
        "⎋"@
    } else if l == "space"@ {
        "Space"@
    } else if l == "up"@ {
        "↑"@
    } else if l == "down"@ {
        "↓"@
    } else if l == "left"@ {
        "←"@
    } else if l == "right"@ {
        "→"@
    } else {
        tok
    }
}

pub fn display_key_token_macos(tok: &str) -> (r: String)
    ensures
        r@ == mac_keycap(tok@),
{
    let v = chars_of(tok);
    let l = ascii_lower_chars(&v);
    let glyph = if is_word(&l, "ctrl") || is_word(&l, "control") {
        "⌃"
    } else if is_word(&l, "alt") || is_word(&l, "option") {
        "⌥"
    } else if is_word(&l, "shift") {
        "⇧"
    } else if is_word(&l, "meta") || is_word(&l, "cmd") || is_word(&l, "command") || is_word(
        &l,
        "super",
    ) || is_word(&l, "win") {
        "⌘"
    } else if is_word(&l, "backspace") {
        "⌫"
    } else if is_word(&l, "enter") || is_word(&l, "return") {
        "↩"
    } else if is_word(&l, "tab") {
        "⇥"
    } else if is_word(&l, "esc") || is_word(&l, "escape") {
        "⎋"
    } else if is_word(&l, "space") {
        "Space"
    } else if is_word(&l, "up") {
        "↑"
    } else if is_word(&l, "down") {
        "↓"
    } else if is_word(&l, "left") {
        "←"
    } else if is_word(&l, "right") {
        "→"
    } else {
        return string_of(&v);
    };
    let g = chars_of(glyph);
    string_of(&g)
}

/// A named key of a captured hotkey, as the settings window's key
/// events report it.
#[derive(Debug, Clone, Copy, PartialEq, Eq)]
pub enum NamedKey {
    Space,
    Backspace,
    Enter,
    Tab,
    ArrowUp,
    ArrowDown,
    ArrowLeft,
    ArrowRight,
    Home,
    End,
    PageUp,
    PageDown,
    Insert,
    Delete,
    Escape,
    F1,
    F2,
    F3,
    F4,
    F5,
    F6,
    F7,
    F8,
    F9,
    F10,
    F11,
    F12,
    Control,
    Shift,
    Alt,
    AltGraph,
    Meta,
    Super,
    Hyper,
    /// Any other named key.
    Unlisted,
}

/// A key captured by the hotkey field: a character, a named key, or
/// something else, carried with the name the toolkit renders for it.
#[derive(Debug, Clone, PartialEq, Eq)]
pub enum KeyInput {
    Character(String),
    Named { key: NamedKey, rendered: String },
    Other { rendered: String },
}

/// The modifiers held with a captured key.
#[derive(Debug, Clone, Copy, PartialEq, Eq, Default)]
pub struct HotkeyModifiers {
    pub control: bool,
    pub alt: bool,
    pub shift: bool,
    pub logo: bool,
}

/// Whether a captured key is itself a modifier (the field waits for the
/// key that completes the combo).
pub open spec fn is_modifier(k: KeyInput) -> bool {
    k matches KeyInput::Named { key, .. } && (match key {
        NamedKey::Control | NamedKey::Shift | NamedKey::Alt | NamedKey::AltGraph | NamedKey::Meta | NamedKey::Super | NamedKey::Hyper => true,
        _ => false,
    })
}

pub fn is_modifier_key(key: &KeyInput) -> (r: bool)
    ensures
        r == is_modifier(*key),
{
    match key {
        KeyInput::Named { key, .. } => match key {
            NamedKey::Control | NamedKey::Shift | NamedKey::Alt | NamedKey::AltGraph | NamedKey::Meta | NamedKey::Super | NamedKey::Hyper => true,
            _ => false,
        },
        _ => false,
    }
}

/// The canonical hotkey name of a named key, where it has one.
pub open spec fn named_token(k: NamedKey) -> Option<Seq<char>> {
    match k {
        NamedKey::Space => Some("Space"@),
        NamedKey::Backspace => Some("Backspace"@),
        NamedKey::Enter => Some("Enter"@),
        NamedKey::Tab => Some("Tab"@),
        NamedKey::ArrowUp => Some("Up"@),
        NamedKey::ArrowDown => Some("Down"@),
        NamedKey::ArrowLeft => Some("Left"@),
        NamedKey::ArrowRight => Some("Right"@),
        NamedKey::Home => Some("Home"@),
        NamedKey::End => Some("End"@),
        NamedKey::PageUp => Some("PageUp"@),
        NamedKey::PageDown => Some("PageDown"@),
        NamedKey::Insert => Some("Insert"@),
        NamedKey::Delete => Some("Delete"@),
        NamedKey::Escape => Some("Escape"@),
        NamedKey::F1 => Some("F1"@),
        NamedKey::F2 => Some("F2"@),
        NamedKey::F3 => Some("F3"@),
        NamedKey::F4 => Some("F4"@),
        NamedKey::F5 => Some("F5"@),
        NamedKey::F6 => Some("F6"@),
        NamedKey::F7 => Some("F7"@),
        NamedKey::F8 => Some("F8"@),
        NamedKey::F9 => Some("F9"@),
        NamedKey::F10 => Some("F10"@),
        NamedKey::F11 => Some("F11"@),
        NamedKey::F12 => Some("F12"@),
        _ => None,
    }
}

fn named_token_str(k: NamedKey) -> (r: Option<&'static str>)
    ensures
        match r {
            Some(t) => named_token(k) == Some(t@),
            None => named_token(k) is None,
        },
{
    match k {
        NamedKey::Space => Some("Space"),
        NamedKey::Backspace => Some("Backspace"),
        NamedKey::Enter => Some("Enter"),
        NamedKey::Tab => Some("Tab"),
        NamedKey::ArrowUp => Some("Up"),
        NamedKey::ArrowDown => Some("Down"),
        NamedKey::ArrowLeft => Some("Left"),
        NamedKey::ArrowRight => Some("Right"),
        NamedKey::Home => Some("Home"),
        NamedKey::End => Some("End"),
        NamedKey::PageUp => Some("PageUp"),
        NamedKey::PageDown => Some("PageDown"),
        NamedKey::Insert => Some("Insert"),
        NamedKey::Delete => Some("Delete"),
        NamedKey::Escape => Some("Escape"),
        NamedKey::F1 => Some("F1"),
        NamedKey::F2 => Some("F2"),
        NamedKey::F3 => Some("F3"),
        NamedKey::F4 => Some("F4"),
        NamedKey::F5 => Some("F5"),
        NamedKey::F6 => Some("F6"),
        NamedKey::F7 => Some("F7"),
        NamedKey::F8 => Some("F8"),
        NamedKey::F9 => Some("F9"),
        NamedKey::F10 => Some("F10"),
        NamedKey::F11 => Some("F11"),
        NamedKey::F12 => Some("F12"),
        _ => None,
    }
}

/// One key as the hotkey parser reads it: a character uppercased, a
/// named key by its canonical name, anything else as the toolkit
/// renders it.
pub open spec fn key_token(k: KeyInput) -> Seq<char> {
    match k {
        KeyInput::Character(c) => uppercase(c@),
        KeyInput::Named { key, rendered } => match named_token(key) {
            Some(t) => t,
            None => rendered@,
        },
        KeyInput::Other { rendered } => rendered@,
    }
}

pub fn key_to_string(key: &KeyInput) -> (r: String)
    ensures
        r@ == key_token(*key),
{
    match key {
        KeyInput::Character(c) => str_to_uppercase(c.as_str()),
        KeyInput::Named { key, rendered } => match named_token_str(*key) {
            Some(t) => {
                let v = chars_of(t);
                string_of(&v)
            },
            None => {
                let v = chars_of(rendered.as_str());
                string_of(&v)
            },
        },
        KeyInput::Other { rendered } => {
            let v = chars_of(rendered.as_str());
            string_of(&v)
        },
    }
}

/// The held modifiers in canonical order (`Ctrl`, `Alt`, `Shift`,
/// `Meta`), then the key.
pub open spec fn hotkey_parts(key: KeyInput, m: HotkeyModifiers) -> Seq<Seq<char>> {
    (if m.control { seq!["Ctrl"@] } else { seq![] }) + (if m.alt { seq!["Alt"@] } else { seq![] })
        + (if m.shift { seq!["Shift"@] } else { seq![] }) + (if m.logo { seq!["Meta"@] } else { seq![] })
        + seq![key_token(key)]
}

/// Render a captured combo as the hotkey string the hotkey parser
/// accepts: `Ctrl+Shift+Space`, `Alt+F4`.
pub fn format_hotkey(key: &KeyInput, modifiers: HotkeyModifiers) -> (r: String)
    ensures
        r@ == join_with(hotkey_parts(*key, modifiers), "+"@),
{
    let mut parts: Vec<Vec<char>> = Vec::new();
    let ghost mut want: Seq<Seq<char>> = seq![];
    if modifiers.control {
        parts.push(chars_of("Ctrl"));
        proof { want = want.push("Ctrl"@); }
    }
    if modifiers.alt {
        parts.push(chars_of("Alt"));
        proof { want = want.push("Alt"@); }
    }
    if modifiers.shift {
        parts.push(chars_of("Shift"));
        proof { want = want.push("Shift"@); }
    }
    if modifiers.logo {
        parts.push(chars_of("Meta"));
        proof { want = want.push("Meta"@); }
    }
    let k = key_to_string(key);
    parts.push(chars_of(k.as_str()));
    proof { want = want.push(key_token(*key)); }
    assert(views(parts@) =~= want);
    assert(want =~= hotkey_parts(*key, modifiers));
    let sep = chars_of("+");
    let out = join_chars(&parts, &sep);
    string_of(&out)
}

} // verus!
