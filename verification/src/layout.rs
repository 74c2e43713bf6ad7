//! Keyboard-layout identifiers and the macOS translation tables.
//!
//! A [`LayoutId`] is a BCP-47-ish string (`en-US`, `uk-UA`,
//! `kk-Cyrl-KZ`). On macOS the Text Input Services name layouts by
//! reverse-DNS ids (`com.apple.keylayout.US`); a small table maps the
//! ones most likely to be enabled, and anything unmapped falls through
//! as the raw TIS id.

use vstd::prelude::*;

use crate::text::{chars_of, string_of};

verus! {

/// A keyboard layout identifier.
#[derive(Debug, Clone, PartialEq, Eq, Hash)]
pub struct LayoutId(String);

impl View for LayoutId {
    type V = Seq<char>;

    closed spec fn view(&self) -> Seq<char> {
        self.0@
    }
}

impl LayoutId {
    pub fn new(id: String) -> (r: Self)
        ensures
            r@ == id@,
    {
        LayoutId(id)
    }

    pub fn as_str(&self) -> (r: &str)
        ensures
            r@ == self@,
    {
        self.0.as_str()
    }
}

/// Whether `a` and `b` hold the same text.
pub fn str_eq(a: &str, b: &str) -> (r: bool)
    ensures
        r == (a@ == b@),
{
    let x = chars_of(a);
    let y = chars_of(b);
    crate::text::eq_chars(&x, &y)
}

fn owned(s: &str) -> (r: String)
    ensures
        r@ == s@,
{
    let v = chars_of(s);
    string_of(&v)
}

/// The TIS → BCP-47 table.
pub open spec fn tis_to_bcp47(id: Seq<char>) -> Option<Seq<char>> {
    if id == "com.apple.keylayout.US"@ || id == "com.apple.keylayout.ABC"@ || id
        == "com.apple.keylayout.USInternational-PC"@ {
        Some("en-US"@)
    } else if id == "com.apple.keylayout.British"@ {
        Some("en-GB"@)
    } else if id == "com.apple.keylayout.Ukrainian"@ || id == "com.apple.keylayout.Ukrainian-PC"@
        || id == "com.apple.keylayout.UkrainianWin"@ {
        Some("uk-UA"@)
    } else if id == "com.apple.keylayout.Russian"@ || id == "com.apple.keylayout.Russian-Phonetic"@
        || id == "com.apple.keylayout.RussianWin"@ {
        Some("ru-RU"@)
    } else if id == "com.apple.keylayout.German"@ {
        Some("de-DE"@)
    } else if id == "com.apple.keylayout.French"@ {
        Some("fr-FR"@)
    } else if id == "com.apple.keylayout.Spanish"@ {
        Some("es-ES"@)
    } else if id == "com.apple.keylayout.Polish"@ {
        Some("pl-PL"@)
    } else if id == "com.apple.keylayout.Greek"@ {
        Some("el-GR"@)
    } else {
        None
    }
}

/// The BCP-47 → TIS table: the preferred TIS source per language.
pub open spec fn bcp47_to_tis(id: Seq<char>) -> Option<Seq<char>> {
    if id == "en-US"@ {
        Some("com.apple.keylayout.US"@)
    } else if id == "en-GB"@ {
        Some("com.apple.keylayout.British"@)
    } else if id == "uk-UA"@ {
        Some("com.apple.keylayout.Ukrainian-PC"@)
    } else if id == "ru-RU"@ {
        Some("com.apple.keylayout.Russian"@)
    } else if id == "de-DE"@ {
        Some("com.apple.keylayout.German"@)
    } else if id == "fr-FR"@ {
        Some("com.apple.keylayout.French"@)
    } else if id == "es-ES"@ {
        Some("com.apple.keylayout.Spanish"@)
    } else if id == "pl-PL"@ {
        Some("com.apple.keylayout.Polish"@)
    } else if id == "el-GR"@ {
        Some("com.apple.keylayout.Greek"@)
    } else {
        None
    }
}

pub open spec fn opt_view(o: Option<String>) -> Option<Seq<char>> {
    match o {
        Some(s) => Some(s@),
        None => None,
    }
}

/// The two tables agree: the TIS source preferred for a language maps
/// back to that language.
pub proof fn lemma_tis_round_trip(id: Seq<char>)
    ensures
        bcp47_to_tis(id) is Some ==> tis_to_bcp47(bcp47_to_tis(id)->0) == Some(id),
{
    reveal_strlit("com.apple.keylayout.ABC");
    reveal_strlit("com.apple.keylayout.British");
    reveal_strlit("com.apple.keylayout.French");
    reveal_strlit("com.apple.keylayout.German");
    reveal_strlit("com.apple.keylayout.Greek");
    reveal_strlit("com.apple.keylayout.Polish");
    reveal_strlit("com.apple.keylayout.Russian");
    reveal_strlit("com.apple.keylayout.Russian-Phonetic");
    reveal_strlit("com.apple.keylayout.RussianWin");
    reveal_strlit("com.apple.keylayout.Spanish");
    reveal_strlit("com.apple.keylayout.US");
    reveal_strlit("com.apple.keylayout.USInternational-PC");
    reveal_strlit("com.apple.keylayout.Ukrainian");
    reveal_strlit("com.apple.keylayout.Ukrainian-PC");
    reveal_strlit("com.apple.keylayout.UkrainianWin");
    if id == "en-US"@ {
        reveal_strlit("en-US");
        assert(tis_to_bcp47("com.apple.keylayout.US"@) == Some("en-US"@));
    } else if id == "en-GB"@ {
        reveal_strlit("en-GB");
        assert("com.apple.keylayout.British"@.len() != "com.apple.keylayout.US"@.len());
        assert("com.apple.keylayout.British"@.len() != "com.apple.keylayout.ABC"@.len());
        assert("com.apple.keylayout.British"@.len() != "com.apple.keylayout.USInternational-PC"@.len());
        assert(tis_to_bcp47("com.apple.keylayout.British"@) == Some("en-GB"@));
    } else if id == "uk-UA"@ {
        reveal_strlit("uk-UA");
        assert("com.apple.keylayout.Ukrainian-PC"@.len() != "com.apple.keylayout.US"@.len());
        assert("com.apple.keylayout.Ukrainian-PC"@.len() != "com.apple.keylayout.ABC"@.len());
        assert("com.apple.keylayout.Ukrainian-PC"@.len() != "com.apple.keylayout.USInternational-PC"@.len());
        assert("com.apple.keylayout.Ukrainian-PC"@.len() != "com.apple.keylayout.British"@.len());
        assert("com.apple.keylayout.Ukrainian-PC"@.len() != "com.apple.keylayout.Ukrainian"@.len());
        assert(tis_to_bcp47("com.apple.keylayout.Ukrainian-PC"@) == Some("uk-UA"@));
    } else if id == "ru-RU"@ {
        reveal_strlit("ru-RU");
        assert("com.apple.keylayout.Russian"@.len() != "com.apple.keylayout.US"@.len());
        assert("com.apple.keylayout.Russian"@.len() != "com.apple.keylayout.ABC"@.len());
        assert("com.apple.keylayout.Russian"@.len() != "com.apple.keylayout.USInternational-PC"@.len());
        assert("com.apple.keylayout.Russian"@[20] != "com.apple.keylayout.British"@[20]);
        assert("com.apple.keylayout.Russian"@.len() != "com.apple.keylayout.Ukrainian"@.len());
        assert("com.apple.keylayout.Russian"@.len() != "com.apple.keylayout.Ukrainian-PC"@.len());
        assert("com.apple.keylayout.Russian"@.len() != "com.apple.keylayout.UkrainianWin"@.len());
        assert(tis_to_bcp47("com.apple.keylayout.Russian"@) == Some("ru-RU"@));
    } else if id == "de-DE"@ {
        reveal_strlit("de-DE");
        assert("com.apple.keylayout.German"@.len() != "com.apple.keylayout.US"@.len());
        assert("com.apple.keylayout.German"@.len() != "com.apple.keylayout.ABC"@.len());
        assert("com.apple.keylayout.German"@.len() != "com.apple.keylayout.USInternational-PC"@.len());
        assert("com.apple.keylayout.German"@.len() != "com.apple.keylayout.British"@.len());
        assert("com.apple.keylayout.German"@.len() != "com.apple.keylayout.Ukrainian"@.len());
        assert("com.apple.keylayout.German"@.len() != "com.apple.keylayout.Ukrainian-PC"@.len());
        assert("com.apple.keylayout.German"@.len() != "com.apple.keylayout.UkrainianWin"@.len());
        assert("com.apple.keylayout.German"@.len() != "com.apple.keylayout.Russian"@.len());
        assert("com.apple.keylayout.German"@.len() != "com.apple.keylayout.Russian-Phonetic"@.len());
        assert("com.apple.keylayout.German"@.len() != "com.apple.keylayout.RussianWin"@.len());
        assert(tis_to_bcp47("com.apple.keylayout.German"@) == Some("de-DE"@));
    } else if id == "fr-FR"@ {
        reveal_strlit("fr-FR");
        assert("com.apple.keylayout.French"@.len() != "com.apple.keylayout.US"@.len());
        assert("com.apple.keylayout.French"@.len() != "com.apple.keylayout.ABC"@.len());
        assert("com.apple.keylayout.French"@.len() != "com.apple.keylayout.USInternational-PC"@.len());
        assert("com.apple.keylayout.French"@.len() != "com.apple.keylayout.British"@.len());
        assert("com.apple.keylayout.French"@.len() != "com.apple.keylayout.Ukrainian"@.len());
        assert("com.apple.keylayout.French"@.len() != "com.apple.keylayout.Ukrainian-PC"@.len());
        assert("com.apple.keylayout.French"@.len() != "com.apple.keylayout.UkrainianWin"@.len());
        assert("com.apple.keylayout.French"@.len() != "com.apple.keylayout.Russian"@.len());
        assert("com.apple.keylayout.French"@.len() != "com.apple.keylayout.Russian-Phonetic"@.len());
        assert("com.apple.keylayout.French"@.len() != "com.apple.keylayout.RussianWin"@.len());
        assert("com.apple.keylayout.French"@[20] != "com.apple.keylayout.German"@[20]);
        assert(tis_to_bcp47("com.apple.keylayout.French"@) == Some("fr-FR"@));
    } else if id == "es-ES"@ {
        reveal_strlit("es-ES");
        assert("com.apple.keylayout.Spanish"@.len() != "com.apple.keylayout.US"@.len());
        assert("com.apple.keylayout.Spanish"@.len() != "com.apple.keylayout.ABC"@.len());
        assert("com.apple.keylayout.Spanish"@.len() != "com.apple.keylayout.USInternational-PC"@.len());
        assert("com.apple.keylayout.Spanish"@[20] != "com.apple.keylayout.British"@[20]);
        assert("com.apple.keylayout.Spanish"@.len() != "com.apple.keylayout.Ukrainian"@.len());
        assert("com.apple.keylayout.Spanish"@.len() != "com.apple.keylayout.Ukrainian-PC"@.len());
        assert("com.apple.keylayout.Spanish"@.len() != "com.apple.keylayout.UkrainianWin"@.len());
        assert("com.apple.keylayout.Spanish"@[20] != "com.apple.keylayout.Russian"@[20]);
        assert("com.apple.keylayout.Spanish"@.len() != "com.apple.keylayout.Russian-Phonetic"@.len());
        assert("com.apple.keylayout.Spanish"@.len() != "com.apple.keylayout.RussianWin"@.len());
        assert("com.apple.keylayout.Spanish"@.len() != "com.apple.keylayout.German"@.len());
        assert("com.apple.keylayout.Spanish"@.len() != "com.apple.keylayout.French"@.len());
        assert(tis_to_bcp47("com.apple.keylayout.Spanish"@) == Some("es-ES"@));
    } else if id == "pl-PL"@ {
        reveal_strlit("pl-PL");
        assert("com.apple.keylayout.Polish"@.len() != "com.apple.keylayout.US"@.len());
        assert("com.apple.keylayout.Polish"@.len() != "com.apple.keylayout.ABC"@.len());
        assert("com.apple.keylayout.Polish"@.len() != "com.apple.keylayout.USInternational-PC"@.len());
        assert("com.apple.keylayout.Polish"@.len() != "com.apple.keylayout.British"@.len());
        assert("com.apple.keylayout.Polish"@.len() != "com.apple.keylayout.Ukrainian"@.len());
        assert("com.apple.keylayout.Polish"@.len() != "com.apple.keylayout.Ukrainian-PC"@.len());
        assert("com.apple.keylayout.Polish"@.len() != "com.apple.keylayout.UkrainianWin"@.len());
        assert("com.apple.keylayout.Polish"@.len() != "com.apple.keylayout.Russian"@.len());
        assert("com.apple.keylayout.Polish"@.len() != "com.apple.keylayout.Russian-Phonetic"@.len());
        assert("com.apple.keylayout.Polish"@.len() != "com.apple.keylayout.RussianWin"@.len());
        assert("com.apple.keylayout.Polish"@[20] != "com.apple.keylayout.German"@[20]);
        assert("com.apple.keylayout.Polish"@[20] != "com.apple.keylayout.French"@[20]);
        assert("com.apple.keylayout.Polish"@.len() != "com.apple.keylayout.Spanish"@.len());
        assert(tis_to_bcp47("com.apple.keylayout.Polish"@) == Some("pl-PL"@));
    } else if id == "el-GR"@ {
        reveal_strlit("el-GR");
        assert("com.apple.keylayout.Greek"@.len() != "com.apple.keylayout.US"@.len());
        assert("com.apple.keylayout.Greek"@.len() != "com.apple.keylayout.ABC"@.len());
        assert("com.apple.keylayout.Greek"@.len() != "com.apple.keylayout.USInternational-PC"@.len());
        assert("com.apple.keylayout.Greek"@.len() != "com.apple.keylayout.British"@.len());
        assert("com.apple.keylayout.Greek"@.len() != "com.apple.keylayout.Ukrainian"@.len());
        assert("com.apple.keylayout.Greek"@.len() != "com.apple.keylayout.Ukrainian-PC"@.len());
        assert("com.apple.keylayout.Greek"@.len() != "com.apple.keylayout.UkrainianWin"@.len());
        assert("com.apple.keylayout.Greek"@.len() != "com.apple.keylayout.Russian"@.len());
        assert("com.apple.keylayout.Greek"@.len() != "com.apple.keylayout.Russian-Phonetic"@.len());
        assert("com.apple.keylayout.Greek"@.len() != "com.apple.keylayout.RussianWin"@.len());
        assert("com.apple.keylayout.Greek"@.len() != "com.apple.keylayout.German"@.len());
        assert("com.apple.keylayout.Greek"@.len() != "com.apple.keylayout.French"@.len());
        assert("com.apple.keylayout.Greek"@.len() != "com.apple.keylayout.Spanish"@.len());
        assert("com.apple.keylayout.Greek"@.len() != "com.apple.keylayout.Polish"@.len());
        assert(tis_to_bcp47("com.apple.keylayout.Greek"@) == Some("el-GR"@));
    }
}

/// `"com.apple.keylayout.US"` → `"en-US"`; `None` for unmapped ids.
pub fn tis_id_to_bcp47(id: &str) -> (r: Option<String>)
    ensures
        opt_view(r) == tis_to_bcp47(id@),
{
    let out = if str_eq(id, "com.apple.keylayout.US") || str_eq(id, "com.apple.keylayout.ABC")
        || str_eq(id, "com.apple.keylayout.USInternational-PC") {
        "en-US"
    } else if str_eq(id, "com.apple.keylayout.British") {
        "en-GB"
    } else if str_eq(id, "com.apple.keylayout.Ukrainian") || str_eq(
        id,
        "com.apple.keylayout.Ukrainian-PC",
    ) || str_eq(id, "com.apple.keylayout.UkrainianWin") {
        "uk-UA"
    } else if str_eq(id, "com.apple.keylayout.Russian") || str_eq(
        id,
        "com.apple.keylayout.Russian-Phonetic",
    ) || str_eq(id, "com.apple.keylayout.RussianWin") {
        "ru-RU"
    } else if str_eq(id, "com.apple.keylayout.German") {
        "de-DE"
    } else if str_eq(id, "com.apple.keylayout.French") {
        "fr-FR"
    } else if str_eq(id, "com.apple.keylayout.Spanish") {
        "es-ES"
    } else if str_eq(id, "com.apple.keylayout.Polish") {
        "pl-PL"
    } else if str_eq(id, "com.apple.keylayout.Greek") {
        "el-GR"
    } else {
        return None;
    };
    Some(owned(out))
}

/// The layout id of a TIS input source id: its BCP-47 name where the
/// table has one, the raw TIS id otherwise.
pub fn layout_id_for_source(id: &str) -> (r: LayoutId)
    ensures
        r@ == (match tis_to_bcp47(id@) {
            Some(b) => b,
            None => id@,
        }),
{
    match tis_id_to_bcp47(id) {
        Some(b) => LayoutId::new(b),
        None => LayoutId::new(owned(id)),
    }
}

/// Inverse of [`tis_id_to_bcp47`] — best-effort reverse lookup so a
/// switch to `uk-UA` finds the right TIS source.
pub fn bcp47_to_tis_id(id: &str) -> (r: Option<String>)
    ensures
        opt_view(r) == bcp47_to_tis(id@),
{
    let out = if str_eq(id, "en-US") {
        "com.apple.keylayout.US"
    } else if str_eq(id, "en-GB") {
        "com.apple.keylayout.British"
    } else if str_eq(id, "uk-UA") {
        "com.apple.keylayout.Ukrainian-PC"
    } else if str_eq(id, "ru-RU") {
        "com.apple.keylayout.Russian"
    } else if str_eq(id, "de-DE") {
        "com.apple.keylayout.German"
    } else if str_eq(id, "fr-FR") {
        "com.apple.keylayout.French"
    } else if str_eq(id, "es-ES") {
        "com.apple.keylayout.Spanish"
    } else if str_eq(id, "pl-PL") {
        "com.apple.keylayout.Polish"
    } else if str_eq(id, "el-GR") {
        "com.apple.keylayout.Greek"
    } else {
        return None;
    };
    Some(owned(out))
}

/// Apple virtual keycode → Win SC Set-1 scancode.
pub open spec fn mac_to_sc1(kvk: u16) -> u32 {
    match kvk {
        0x00 => 0x1E,
        0x01 => 0x1F,
        0x02 => 0x20,
        0x03 => 0x21,
        0x04 => 0x23,
        0x05 => 0x22,
        0x06 => 0x2C,
        0x07 => 0x2D,
        0x08 => 0x2E,
        0x09 => 0x2F,
        0x0B => 0x30,
        0x0C => 0x10,
        0x0D => 0x11,
        0x0E => 0x12,
        0x0F => 0x13,
        0x10 => 0x15,
        0x11 => 0x14,
        0x1F => 0x18,
        0x20 => 0x16,
        0x22 => 0x17,
        0x23 => 0x19,
        0x25 => 0x26,
        0x26 => 0x24,
        0x28 => 0x25,
        0x2D => 0x31,
        0x2E => 0x32,
        0x12 => 0x02,
        0x13 => 0x03,
        0x14 => 0x04,
        0x15 => 0x05,
        0x17 => 0x06,
        0x16 => 0x07,
        0x1A => 0x08,
        0x1C => 0x09,
        0x19 => 0x0A,
        0x1D => 0x0B,
        0x24 => 0x1C,
        0x30 => 0x0F,
        0x31 => 0x39,
        0x33 => 0x0E,
        0x35 => 0x01,
        0x2B => 0x33,
        0x2F => 0x34,
        0x2C => 0x35,
        0x29 => 0x27,
        0x27 => 0x28,
        0x21 => 0x1A,
        0x1E => 0x1B,
        0x2A => 0x2B,
        0x32 => 0x29,
        0x18 => 0x0D,
        0x1B => 0x0C,
        _ => kvk as u32,
    }
}

/// Apple virtual keycode → the Win SC Set-1 scancode the engine works
/// in: letters, digits, boundaries and punctuation; anything else
/// passes through unchanged.
pub fn mac_keycode_to_sc1(kvk: u16) -> (r: u32)
    ensures
        r == mac_to_sc1(kvk),
{
    match kvk {
        0x00 => 0x1E,
        0x01 => 0x1F,
        0x02 => 0x20,
        0x03 => 0x21,
        0x04 => 0x23,
        0x05 => 0x22,
        0x06 => 0x2C,
        0x07 => 0x2D,
        0x08 => 0x2E,
        0x09 => 0x2F,
        0x0B => 0x30,
        0x0C => 0x10,
        0x0D => 0x11,
        0x0E => 0x12,
        0x0F => 0x13,
        0x10 => 0x15,
        0x11 => 0x14,
        0x1F => 0x18,
        0x20 => 0x16,
        0x22 => 0x17,
        0x23 => 0x19,
        0x25 => 0x26,
        0x26 => 0x24,
        0x28 => 0x25,
        0x2D => 0x31,
        0x2E => 0x32,
        0x12 => 0x02,
        0x13 => 0x03,
        0x14 => 0x04,
        0x15 => 0x05,
        0x17 => 0x06,
        0x16 => 0x07,
        0x1A => 0x08,
        0x1C => 0x09,
        0x19 => 0x0A,
        0x1D => 0x0B,
        0x24 => 0x1C,
        0x30 => 0x0F,
        0x31 => 0x39,
        0x33 => 0x0E,
        0x35 => 0x01,
        0x2B => 0x33,
        0x2F => 0x34,
        0x2C => 0x35,
        0x29 => 0x27,
        0x27 => 0x28,
        0x21 => 0x1A,
        0x1E => 0x1B,
        0x2A => 0x2B,
        0x32 => 0x29,
        0x18 => 0x0D,
        0x1B => 0x0C,
        _ => kvk as u32,
    }
}

/// The macOS layout switcher. Its work is Text Input Services calls on
/// the main dispatch queue; the translation tables above are its logic.
pub struct MacosLayoutSwitcher;

impl MacosLayoutSwitcher {
    pub fn new() -> Self {
        MacosLayoutSwitcher
    }
}

/// Every TIS input source of the table names the language it types:
/// the US, ABC (macOS's default English source) and US International
/// sources are `en-US`; British `en-GB`; the three Ukrainian sources
/// `uk-UA`; the three Russian sources `ru-RU`; German, French, Spanish,
/// Polish and Greek their languages.
pub proof fn lemma_tis_sources_name_their_language()
    ensures
        tis_to_bcp47("com.apple.keylayout.US"@) == Some("en-US"@),
        tis_to_bcp47("com.apple.keylayout.ABC"@) == Some("en-US"@),
        tis_to_bcp47("com.apple.keylayout.USInternational-PC"@) == Some("en-US"@),
        tis_to_bcp47("com.apple.keylayout.British"@) == Some("en-GB"@),
        tis_to_bcp47("com.apple.keylayout.Ukrainian"@) == Some("uk-UA"@),
        tis_to_bcp47("com.apple.keylayout.Ukrainian-PC"@) == Some("uk-UA"@),
        tis_to_bcp47("com.apple.keylayout.UkrainianWin"@) == Some("uk-UA"@),
        tis_to_bcp47("com.apple.keylayout.Russian"@) == Some("ru-RU"@),
        tis_to_bcp47("com.apple.keylayout.Russian-Phonetic"@) == Some("ru-RU"@),
        tis_to_bcp47("com.apple.keylayout.RussianWin"@) == Some("ru-RU"@),
        tis_to_bcp47("com.apple.keylayout.German"@) == Some("de-DE"@),
        tis_to_bcp47("com.apple.keylayout.French"@) == Some("fr-FR"@),
        tis_to_bcp47("com.apple.keylayout.Spanish"@) == Some("es-ES"@),
        tis_to_bcp47("com.apple.keylayout.Polish"@) == Some("pl-PL"@),
        tis_to_bcp47("com.apple.keylayout.Greek"@) == Some("el-GR"@),
{
    reveal_strlit("com.apple.keylayout.US");
    reveal_strlit("com.apple.keylayout.ABC");
    reveal_strlit("com.apple.keylayout.USInternational-PC");
    reveal_strlit("com.apple.keylayout.British");
    reveal_strlit("com.apple.keylayout.Ukrainian");
    reveal_strlit("com.apple.keylayout.Ukrainian-PC");
    reveal_strlit("com.apple.keylayout.UkrainianWin");
    reveal_strlit("com.apple.keylayout.Russian");
    reveal_strlit("com.apple.keylayout.Russian-Phonetic");
    reveal_strlit("com.apple.keylayout.RussianWin");
    reveal_strlit("com.apple.keylayout.German");
    reveal_strlit("com.apple.keylayout.French");
    reveal_strlit("com.apple.keylayout.Spanish");
    reveal_strlit("com.apple.keylayout.Polish");
    reveal_strlit("com.apple.keylayout.Greek");
    assert("com.apple.keylayout.US"@.len() == 22);
    assert("com.apple.keylayout.ABC"@.len() == 23);
    assert("com.apple.keylayout.USInternational-PC"@.len() == 38);
    assert("com.apple.keylayout.British"@.len() == 27);
    assert("com.apple.keylayout.Ukrainian"@.len() == 29);
    assert("com.apple.keylayout.Ukrainian-PC"@.len() == 32);
    assert("com.apple.keylayout.UkrainianWin"@.len() == 32);
    assert("com.apple.keylayout.Russian"@.len() == 27);
    assert("com.apple.keylayout.Russian-Phonetic"@.len() == 36);
    assert("com.apple.keylayout.RussianWin"@.len() == 30);
    assert("com.apple.keylayout.German"@.len() == 26);
    assert("com.apple.keylayout.French"@.len() == 26);
    assert("com.apple.keylayout.Spanish"@.len() == 27);
    assert("com.apple.keylayout.Polish"@.len() == 26);
    assert("com.apple.keylayout.Greek"@.len() == 25);
    assert("com.apple.keylayout.British"@[20] != "com.apple.keylayout.Russian"@[20]);
    assert("com.apple.keylayout.British"@[20] != "com.apple.keylayout.Spanish"@[20]);
    assert("com.apple.keylayout.Russian"@[20] != "com.apple.keylayout.Spanish"@[20]);
    assert("com.apple.keylayout.German"@[20] != "com.apple.keylayout.French"@[20]);
    assert("com.apple.keylayout.German"@[20] != "com.apple.keylayout.Polish"@[20]);
    assert("com.apple.keylayout.French"@[20] != "com.apple.keylayout.Polish"@[20]);
    assert("com.apple.keylayout.Ukrainian-PC"@[29] != "com.apple.keylayout.UkrainianWin"@[29]);
}

/// A physical key of an ANSI keyboard, named by what it types on a US
/// layout.
#[derive(Debug, Clone, Copy, PartialEq, Eq)]
pub enum PhysicalKey {
    A,
    B,
    C,
    D,
    E,
    F,
    G,
    H,
    I,
    J,
    K,
    L,
    M,
    N,
    O,
    P,
    Q,
    R,
    S,
    T,
    U,
    V,
    W,
    X,
    Y,
    Z,
    Digit0,
    Digit1,
    Digit2,
    Digit3,
    Digit4,
    Digit5,
    Digit6,
    Digit7,
    Digit8,
    Digit9,
    Return,
    Tab,
    Space,
    Backspace,
    Escape,
    Minus,
    Equal,
    LeftBracket,
    RightBracket,
    Backslash,
    Semicolon,
    Quote,
    Grave,
    Comma,
    Period,
    Slash,
}

/// The physical key behind an Apple virtual keycode (the `kVK_ANSI_*`,
/// `kVK_Return`, `kVK_Tab`, `kVK_Space`, `kVK_Delete` and `kVK_Escape`
/// constants of `Events.h`).
pub open spec fn apple_key(kvk: u16) -> Option<PhysicalKey> {
    match kvk {
        0x00 => Some(PhysicalKey::A),
        0x01 => Some(PhysicalKey::S),
        0x02 => Some(PhysicalKey::D),
        0x03 => Some(PhysicalKey::F),
        0x04 => Some(PhysicalKey::H),
        0x05 => Some(PhysicalKey::G),
        0x06 => Some(PhysicalKey::Z),
        0x07 => Some(PhysicalKey::X),
        0x08 => Some(PhysicalKey::C),
        0x09 => Some(PhysicalKey::V),
        0x0B => Some(PhysicalKey::B),
        0x0C => Some(PhysicalKey::Q),
        0x0D => Some(PhysicalKey::W),
        0x0E => Some(PhysicalKey::E),
        0x0F => Some(PhysicalKey::R),
        0x10 => Some(PhysicalKey::Y),
        0x11 => Some(PhysicalKey::T),
        0x12 => Some(PhysicalKey::Digit1),
        0x13 => Some(PhysicalKey::Digit2),
        0x14 => Some(PhysicalKey::Digit3),
        0x15 => Some(PhysicalKey::Digit4),
        0x16 => Some(PhysicalKey::Digit6),
        0x17 => Some(PhysicalKey::Digit5),
        0x18 => Some(PhysicalKey::Equal),
        0x19 => Some(PhysicalKey::Digit9),
        0x1A => Some(PhysicalKey::Digit7),
        0x1B => Some(PhysicalKey::Minus),
        0x1C => Some(PhysicalKey::Digit8),
        0x1D => Some(PhysicalKey::Digit0),
        0x1E => Some(PhysicalKey::RightBracket),
        0x1F => Some(PhysicalKey::O),
        0x20 => Some(PhysicalKey::U),
        0x21 => Some(PhysicalKey::LeftBracket),
        0x22 => Some(PhysicalKey::I),
        0x23 => Some(PhysicalKey::P),
        0x24 => Some(PhysicalKey::Return),
        0x25 => Some(PhysicalKey::L),
        0x26 => Some(PhysicalKey::J),
        0x27 => Some(PhysicalKey::Quote),
        0x28 => Some(PhysicalKey::K),
        0x29 => Some(PhysicalKey::Semicolon),
        0x2A => Some(PhysicalKey::Backslash),
        0x2B => Some(PhysicalKey::Comma),
        0x2C => Some(PhysicalKey::Slash),
        0x2D => Some(PhysicalKey::N),
        0x2E => Some(PhysicalKey::M),
        0x2F => Some(PhysicalKey::Period),
        0x30 => Some(PhysicalKey::Tab),
        0x31 => Some(PhysicalKey::Space),
        0x32 => Some(PhysicalKey::Grave),
        0x33 => Some(PhysicalKey::Backspace),
        0x35 => Some(PhysicalKey::Escape),
        _ => None,
    }
}

/// The physical key behind a scancode of PC scan code set 1.
pub open spec fn set1_key(sc: u32) -> Option<PhysicalKey> {
    match sc {
        0x01 => Some(PhysicalKey::Escape),
        0x02 => Some(PhysicalKey::Digit1),
        0x03 => Some(PhysicalKey::Digit2),
        0x04 => Some(PhysicalKey::Digit3),
        0x05 => Some(PhysicalKey::Digit4),
        0x06 => Some(PhysicalKey::Digit5),
        0x07 => Some(PhysicalKey::Digit6),
        0x08 => Some(PhysicalKey::Digit7),
        0x09 => Some(PhysicalKey::Digit8),
        0x0A => Some(PhysicalKey::Digit9),
        0x0B => Some(PhysicalKey::Digit0),
        0x0C => Some(PhysicalKey::Minus),
        0x0D => Some(PhysicalKey::Equal),
        0x0E => Some(PhysicalKey::Backspace),
        0x0F => Some(PhysicalKey::Tab),
        0x10 => Some(PhysicalKey::Q),
        0x11 => Some(PhysicalKey::W),
        0x12 => Some(PhysicalKey::E),
        0x13 => Some(PhysicalKey::R),
        0x14 => Some(PhysicalKey::T),
        0x15 => Some(PhysicalKey::Y),
        0x16 => Some(PhysicalKey::U),
        0x17 => Some(PhysicalKey::I),
        0x18 => Some(PhysicalKey::O),
        0x19 => Some(PhysicalKey::P),
        0x1A => Some(PhysicalKey::LeftBracket),
        0x1B => Some(PhysicalKey::RightBracket),
        0x1C => Some(PhysicalKey::Return),
        0x1E => Some(PhysicalKey::A),
        0x1F => Some(PhysicalKey::S),
        0x20 => Some(PhysicalKey::D),
        0x21 => Some(PhysicalKey::F),
        0x22 => Some(PhysicalKey::G),
        0x23 => Some(PhysicalKey::H),
        0x24 => Some(PhysicalKey::J),
        0x25 => Some(PhysicalKey::K),
        0x26 => Some(PhysicalKey::L),
        0x27 => Some(PhysicalKey::Semicolon),
        0x28 => Some(PhysicalKey::Quote),
        0x29 => Some(PhysicalKey::Grave),
        0x2B => Some(PhysicalKey::Backslash),
        0x2C => Some(PhysicalKey::Z),
        0x2D => Some(PhysicalKey::X),
        0x2E => Some(PhysicalKey::C),
        0x2F => Some(PhysicalKey::V),
        0x30 => Some(PhysicalKey::B),
        0x31 => Some(PhysicalKey::N),
        0x32 => Some(PhysicalKey::M),
        0x33 => Some(PhysicalKey::Comma),
        0x34 => Some(PhysicalKey::Period),
        0x35 => Some(PhysicalKey::Slash),
        0x39 => Some(PhysicalKey::Space),
        _ => None,
    }
}

/// Translating an Apple keycode keeps the physical key: every keycode of
/// a known key becomes the Set-1 scancode of that same key, and any other
/// keycode passes through unchanged.
pub proof fn lemma_mac_keycodes_keep_the_physical_key(kvk: u16)
    ensures
        apple_key(kvk) matches Some(k) ==> set1_key(mac_to_sc1(kvk)) == Some(k),
        apple_key(kvk) is None ==> mac_to_sc1(kvk) == kvk as u32,
{
}

/// The TIS source preferred for each language of the table: the US
/// source for `en-US`, British for `en-GB`, Ukrainian-PC for `uk-UA`,
/// Russian for `ru-RU`, and the same-named source for German, French,
/// Spanish, Polish and Greek.
pub proof fn lemma_languages_prefer_their_source()
    ensures
        bcp47_to_tis("en-US"@) == Some("com.apple.keylayout.US"@),
        bcp47_to_tis("en-GB"@) == Some("com.apple.keylayout.British"@),
        bcp47_to_tis("uk-UA"@) == Some("com.apple.keylayout.Ukrainian-PC"@),
        bcp47_to_tis("ru-RU"@) == Some("com.apple.keylayout.Russian"@),
        bcp47_to_tis("de-DE"@) == Some("com.apple.keylayout.German"@),
        bcp47_to_tis("fr-FR"@) == Some("com.apple.keylayout.French"@),
        bcp47_to_tis("es-ES"@) == Some("com.apple.keylayout.Spanish"@),
        bcp47_to_tis("pl-PL"@) == Some("com.apple.keylayout.Polish"@),
        bcp47_to_tis("el-GR"@) == Some("com.apple.keylayout.Greek"@),
{
    reveal_strlit("en-US");
    reveal_strlit("en-GB");
    reveal_strlit("uk-UA");
    reveal_strlit("ru-RU");
    reveal_strlit("de-DE");
    reveal_strlit("fr-FR");
    reveal_strlit("es-ES");
    reveal_strlit("pl-PL");
    reveal_strlit("el-GR");
    assert("en-US"@.len() == 5);
    assert("en-GB"@.len() == 5);
    assert("uk-UA"@.len() == 5);
    assert("ru-RU"@.len() == 5);
    assert("de-DE"@.len() == 5);
    assert("fr-FR"@.len() == 5);
    assert("es-ES"@.len() == 5);
    assert("pl-PL"@.len() == 5);
    assert("el-GR"@.len() == 5);
    assert("en-GB"@[3] != "en-US"@[3]);
    assert("uk-UA"@[0] != "en-US"@[0]);
    assert("uk-UA"@[0] != "en-GB"@[0]);
    assert("ru-RU"@[0] != "en-US"@[0]);
    assert("ru-RU"@[0] != "en-GB"@[0]);
    assert("ru-RU"@[0] != "uk-UA"@[0]);
    assert("de-DE"@[0] != "en-US"@[0]);
    assert("de-DE"@[0] != "en-GB"@[0]);
    assert("de-DE"@[0] != "uk-UA"@[0]);
    assert("de-DE"@[0] != "ru-RU"@[0]);
    assert("fr-FR"@[0] != "en-US"@[0]);
    assert("fr-FR"@[0] != "en-GB"@[0]);
    assert("fr-FR"@[0] != "uk-UA"@[0]);
    assert("fr-FR"@[0] != "ru-RU"@[0]);
    assert("fr-FR"@[0] != "de-DE"@[0]);
    assert("es-ES"@[1] != "en-US"@[1]);
    assert("es-ES"@[1] != "en-GB"@[1]);
    assert("es-ES"@[0] != "uk-UA"@[0]);
    assert("es-ES"@[0] != "ru-RU"@[0]);
    assert("es-ES"@[0] != "de-DE"@[0]);
    assert("es-ES"@[0] != "fr-FR"@[0]);
    assert("pl-PL"@[0] != "en-US"@[0]);
    assert("pl-PL"@[0] != "en-GB"@[0]);
    assert("pl-PL"@[0] != "uk-UA"@[0]);
    assert("pl-PL"@[0] != "ru-RU"@[0]);
    assert("pl-PL"@[0] != "de-DE"@[0]);
    assert("pl-PL"@[0] != "fr-FR"@[0]);
    assert("pl-PL"@[0] != "es-ES"@[0]);
    assert("el-GR"@[1] != "en-US"@[1]);
    assert("el-GR"@[1] != "en-GB"@[1]);
    assert("el-GR"@[0] != "uk-UA"@[0]);
    assert("el-GR"@[0] != "ru-RU"@[0]);
    assert("el-GR"@[0] != "de-DE"@[0]);
    assert("el-GR"@[0] != "fr-FR"@[0]);
    assert("el-GR"@[1] != "es-ES"@[1]);
    assert("el-GR"@[0] != "pl-PL"@[0]);
}

} // verus!
