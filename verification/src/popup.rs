//! The suggestion tooltip's model: what one offer shows, how its rows
//! are labelled, and the accept-chord hint in macOS notation.

use std::time::Duration;
use vstd::prelude::*;

use crate::anchor::{PopupAnchor, PopupUiEvent};
use crate::engine_types::{SuggestionAction, SuggestionEntry};
use crate::layout::LayoutId;
use crate::text::{
    chars_of, is_word, lowercase, split_chars, split_on, str_to_lowercase, str_to_uppercase,
    string_of, trim, trim_chars, uppercase, views,
};

verus! {

/// One row of the tooltip.
#[derive(Debug, Clone, PartialEq, Eq)]
pub struct PopupEntry {
    /// Short language tag for a row that also switches layout.
    pub badge: Option<String>,
    pub text: String,
    /// An action row ("Add to dictionary") rather than a replacement.
    pub is_action: bool,
}

/// Everything one tooltip shows.
#[derive(Debug, PartialEq, Eq)]
pub struct PopupModel {
    /// Ties clicks back to this exact offer.
    pub generation: u64,
    /// The mistyped word, shown struck through.
    pub original: String,
    pub entries: Vec<PopupEntry>,
    /// The accept chord's modifiers, when keyboard accept is on.
    pub accept_hint: Option<String>,
    pub timeout: Duration,
    pub anchor: PopupAnchor,
}

/// Badge of a cross-layout row: the language subtag, uppercased —
/// `uk-UA` → `UK`.
pub open spec fn badge_of(id: Seq<char>) -> Seq<char> {
    uppercase(split_on(id, '-')[0])
}

pub fn layout_badge(id: &LayoutId) -> (r: String)
    ensures
        r@ == badge_of(id@),
{
    let v = chars_of(id.as_str());
    let pieces = split_chars(&v, '-');
    proof {
        crate::text::lemma_split_on_non_empty(id@, '-');
    }
    let first = string_of(&pieces[0]);
    assert(first@ == split_on(id@, '-')[0]);
    str_to_uppercase(first.as_str())
}

pub type EntryView = (Option<Seq<char>>, Seq<char>, bool);

pub open spec fn entry_view(e: PopupEntry) -> EntryView {
    (
        match e.badge {
            Some(b) => Some(b@),
            None => None,
        },
        e.text@,
        e.is_action,
    )
}

/// The row for one engine entry: a replacement shows its text (badged
/// when it switches layout); "add to dictionary" shows its label — the
/// word itself is already in the header.
pub open spec fn row_of(e: SuggestionEntry) -> EntryView {
    match e.action {
        SuggestionAction::Replace => (
            match e.switch_to {
                Some(l) => Some(badge_of(l@)),
                None => None,
            },
            e.text@,
            false,
        ),
        SuggestionAction::AddToDictionary => (None, "Add to dictionary"@, true),
    }
}

fn row(e: &SuggestionEntry) -> (r: PopupEntry)
    ensures
        entry_view(r) == row_of(*e),
{
    match e.action {
        SuggestionAction::Replace => PopupEntry {
            badge: match &e.switch_to {
                Some(l) => Some(layout_badge(l)),
                None => None,
            },
            text: e.text.clone(),
            is_action: false,
        },
        SuggestionAction::AddToDictionary => {
            let t = chars_of("Add to dictionary");
            PopupEntry { badge: None, text: string_of(&t), is_action: true }
        },
    }
}

/// Build the tooltip model for one offer. The accept hint is shown only
/// when keyboard accept is on (non-empty modifiers).
pub fn build_popup_model(
    generation: u64,
    original: String,
    entries: &Vec<SuggestionEntry>,
    timeout: Duration,
    accept_modifiers: String,
    anchor: PopupAnchor,
) -> (m: PopupModel)
    ensures
        m.generation == generation,
        m.original@ == original@,
        m.entries@.map_values(|e: PopupEntry| entry_view(e)) == entries@.map_values(
            |e: SuggestionEntry| row_of(e),
        ),
        m.accept_hint == (if accept_modifiers@.len() == 0 {
            None::<String>
        } else {
            Some(accept_modifiers)
        }),
        m.timeout == timeout,
        m.anchor == anchor,
{
    let n = entries.len();
    let mut rows: Vec<PopupEntry> = Vec::new();
    let mut i: usize = 0;
    while i < n
        invariant
            n == entries.len(),
            0 <= i <= n,
            rows.len() == i,
            forall|j: int| 0 <= j < i ==> entry_view(#[trigger] rows@[j]) == row_of(entries@[j]),
        decreases n - i,
    {
        rows.push(row(&entries[i]));
        i += 1;
    }
    assert(rows@.map_values(|e: PopupEntry| entry_view(e)) =~= entries@.map_values(
        |e: SuggestionEntry| row_of(e),
    ));
    let hint_chars = chars_of(accept_modifiers.as_str());
    let accept_hint = if hint_chars.len() == 0 {
        None
    } else {
        Some(accept_modifiers)
    };
    PopupModel { generation, original, entries: rows, accept_hint, timeout, anchor }
}

/// One token of the accept hint in macOS shortcut notation; unknown
/// tokens are dropped rather than shown half-translated.
pub open spec fn mac_glyph(token: Seq<char>) -> Seq<char> {
    let l = lowercase(trim(token));
    if l == "ctrl"@ || l == "control"@ {
        seq!['⌃']
    } else if l == "shift"@ {
        seq!['⇧']
    } else if l == "alt"@ || l == "option"@ {
        seq!['⌥']
    } else if l == "cmd"@ || l == "command"@ || l == "meta"@ || l == "super"@ || l == "win"@ {
        seq!['⌘']
    } else {
        Seq::empty()
    }
}

pub open spec fn mac_glyphs(tokens: Seq<Seq<char>>) -> Seq<char>
    decreases tokens.len(),
{
    if tokens.len() == 0 {
        Seq::empty()
    } else {
        mac_glyphs(tokens.drop_last()) + mac_glyph(tokens.last())
    }
}

/// The accept-chord hint in macOS notation: `"Ctrl+Shift"` → `⌃⇧`.
pub fn mac_hint(hint: &str) -> (r: String)
    ensures
        r@ == mac_glyphs(split_on(hint@, '+')),
{
    let v = chars_of(hint);
    let parts = split_chars(&v, '+');
    let n = parts.len();
    let mut out: Vec<char> = Vec::new();
    let mut i: usize = 0;
    while i < n
        invariant
            n == parts.len(),
            0 <= i <= n,
            views(parts@) == split_on(hint@, '+'),
            out@ == mac_glyphs(views(parts@).take(i as int)),
        decreases n - i,
    {
        let ghost ts = views(parts@).take(i as int + 1);
        assert(ts.drop_last() =~= views(parts@).take(i as int));
        assert(ts.last() == parts@[i as int]@);
        let t = trim_chars(&parts[i]);
        let ts_ = string_of(&t);
        let lower = str_to_lowercase(ts_.as_str());
        let l = chars_of(lower.as_str());
        let ghost before = out@;
        if is_word(&l, "ctrl") || is_word(&l, "control") {
            out.push('⌃');
        } else if is_word(&l, "shift") {
            out.push('⇧');
        } else if is_word(&l, "alt") || is_word(&l, "option") {
            out.push('⌥');
        } else if is_word(&l, "cmd") || is_word(&l, "command") || is_word(&l, "meta") || is_word(
            &l,
            "super",
        ) || is_word(&l, "win") {
            out.push('⌘');
        }
        assert(out@ =~= before + mac_glyph(parts@[i as int]@));
        i += 1;
    }
    assert(views(parts@).take(n as int) =~= views(parts@));
    string_of(&out)
}

/// The tooltip backends' shared bookkeeping: which offer is on screen
/// and until when. Times are milliseconds on the backend's clock.
pub struct TooltipState {
    shown: Option<(u64, u64)>,
}

impl View for TooltipState {
    /// The generation shown and its deadline, if anything is shown.
    type V = Option<(u64, u64)>;

    closed spec fn view(&self) -> Option<(u64, u64)> {
        self.shown
    }
}

impl TooltipState {
    pub fn new() -> (t: Self)
        ensures
            t@ is None,
    {
        TooltipState { shown: None }
    }

    /// Show the offer of `generation` until `deadline_ms`, replacing
    /// whatever was shown.
    pub fn show(&mut self, generation: u64, deadline_ms: u64)
        ensures
            final(self)@ == Some((generation, deadline_ms)),
    {
        self.shown = Some((generation, deadline_ms));
    }

    /// Take the tooltip down. Idempotent.
    pub fn close(&mut self)
        ensures
            final(self)@ is None,
    {
        self.shown = None;
    }

    /// The generation on screen, if any.
    pub fn shown_generation(&self) -> (r: Option<u64>)
        ensures
            r == (match self@ {
                Some((g, _)) => Some(g),
                None => None,
            }),
    {
        match self.shown {
            Some((g, _)) => Some(g),
            None => None,
        }
    }

    /// A self-hide timer armed for `generation` fired. Stale timers (a
    /// newer offer replaced the one that armed them) do nothing.
    pub fn timeout_fired(&mut self, generation: u64) -> (r: Option<PopupUiEvent>)
        ensures
            match old(self)@ {
                Some((g, _)) => if g == generation {
                    final(self)@ is None && r == Some(PopupUiEvent::TimedOut { generation })
                } else {
                    final(self)@ == old(self)@ && r is None
                },
                None => final(self)@ is None && r is None,
            },
    {
        match self.shown {
            Some((g, _)) => {
                if g == generation {
                    self.shown = None;
                    Some(PopupUiEvent::TimedOut { generation })
                } else {
                    None
                }
            },
            None => None,
        }
    }

    /// The polling backend's deadline check at `now_ms`: the tooltip on
    /// screen hides itself once its deadline has come.
    pub fn check_deadline(&mut self, now_ms: u64) -> (r: Option<PopupUiEvent>)
        ensures
            match old(self)@ {
                Some((g, d)) => if now_ms < d {
                    final(self)@ == old(self)@ && r is None
                } else {
                    final(self)@ is None && r == Some(PopupUiEvent::TimedOut { generation: g })
                },
                None => final(self)@ is None && r is None,
            },
    {
        match self.shown {
            Some((g, d)) => {
                if now_ms < d {
                    None
                } else {
                    self.shown = None;
                    Some(PopupUiEvent::TimedOut { generation: g })
                }
            },
            None => None,
        }
    }

    /// A click on the tooltip, on row `row` (`None`: padding). A row
    /// click hides the tooltip first, so it vanishes the instant the
    /// engine starts retyping, and reports the accept.
    pub fn click(&mut self, row: Option<usize>) -> (r: Option<PopupUiEvent>)
        ensures
            match (old(self)@, row) {
                (Some((g, _)), Some(index)) => final(self)@ is None && r == Some(
                    PopupUiEvent::Accepted { generation: g, index },
                ),
                _ => final(self)@ == old(self)@ && r is None,
            },
    {
        match (self.shown, row) {
            (Some((g, _)), Some(index)) => {
                self.shown = None;
                Some(PopupUiEvent::Accepted { generation: g, index })
            },
            _ => None,
        }
    }
}

} // verus!
