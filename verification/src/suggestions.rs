//! Spelling-suggestion offers: which entries an offer carries, the
//! single in-flight offer and its generation stamps, how an accept is
//! validated, and the key arithmetic of applying the chosen
//! replacement.
//!
//! Lifecycle of one offer: a kept, unknown word passes [`offer_allowed`];
//! [`offer_entries`] builds the rows; [`SuggestionSlot::stash`] stamps a
//! generation. An accept ([`SuggestionSlot::accept`]) first takes the
//! offer out of the slot, then [`accept_outcome`] decides what the
//! accept does, and [`plan_replacement`] works out the deletion and the
//! replay. Anything that invalidates the word's screen
//! position dismisses the offer ([`SuggestionSlot::dismiss`]).

use vstd::prelude::*;

use crate::engine_types::{
    AcceptModifiers, KeyDirection, KeyEvent, ReplayKey, SuggestionAction, SuggestionEntry, WordKey,
};
use crate::layout::LayoutId;
use crate::text::{chars_of, eq_chars, lowercase, str_to_lowercase, string_of};

verus! {

/// Most rows an offer shows before the "add to dictionary" row: the
/// whole tooltip stays addressable by the digits 1..=9.
pub const MAX_REPLACE_ROWS: usize = 8;

/// How long a click-frozen offer stays acceptable, in milliseconds.
pub const CLICK_GRACE_MS: u64 = 500;

/// Scancode of Space, replayed in place of a submission key.
pub const SC_SPACE: u32 = 0x39;

/// Scancode of Enter.
pub const SC_ENTER: u32 = 0x1C;

/// Scancode of Tab.
pub const SC_TAB: u32 = 0x0F;

/// An entry as plain values: text, layout to switch to, action.
pub type EntryView = (Seq<char>, Option<Seq<char>>, SuggestionAction);

pub open spec fn layout_view(l: Option<LayoutId>) -> Option<Seq<char>> {
    match l {
        Some(id) => Some(id@),
        None => None,
    }
}

pub open spec fn entry_view(e: SuggestionEntry) -> EntryView {
    (e.text@, layout_view(e.switch_to), e.action)
}

pub open spec fn entries_view(es: Seq<SuggestionEntry>) -> Seq<EntryView> {
    es.map_values(|e: SuggestionEntry| entry_view(e))
}

/// Some row of `acc` already carries the text `t`.
pub open spec fn has_text(acc: Seq<EntryView>, t: Seq<char>) -> bool {
    exists|i: int| 0 <= i < acc.len() && (#[trigger] acc[i]).0 == t
}

/// One same-layout candidate considered: taken unless the offer is
/// full or already shows that text.
pub open spec fn gather_step(acc: Seq<EntryView>, t: Seq<char>, max: int) -> Seq<EntryView> {
    if acc.len() >= max || has_text(acc, t) {
        acc
    } else {
        acc.push((t, None, SuggestionAction::Replace))
    }
}

pub open spec fn gather(start: Seq<EntryView>, cands: Seq<Seq<char>>, max: int) -> Seq<EntryView>
    decreases cands.len(),
{
    if cands.len() == 0 {
        start
    } else {
        gather_step(gather(start, cands.drop_last(), max), cands.last(), max)
    }
}

/// The cross-layout candidate, when there is one, leads the list.
pub open spec fn offer_start(alt: Option<(Seq<char>, Seq<char>)>) -> Seq<EntryView> {
    match alt {
        Some((layout, text)) => seq![(text, Some(layout), SuggestionAction::Replace)],
        None => seq![],
    }
}

/// The rows of an offer: the cross-layout candidate, then the distinct
/// same-layout candidates while fewer than `max` rows are taken; at
/// most eight of those, then the "add to dictionary" row carrying the
/// typed word. No candidate at all means no offer (no rows).
pub open spec fn offer_rows(
    alt: Option<(Seq<char>, Seq<char>)>,
    cands: Seq<Seq<char>>,
    max: int,
    typed: Seq<char>,
) -> Seq<EntryView> {
    let g = gather(offer_start(alt), cands, max);
    if g.len() == 0 {
        seq![]
    } else {
        let kept = if g.len() <= MAX_REPLACE_ROWS {
            g
        } else {
            g.take(MAX_REPLACE_ROWS as int)
        };
        kept.push((typed, None, SuggestionAction::AddToDictionary))
    }
}

pub open spec fn alt_view(alt: Option<(LayoutId, String)>) -> Option<(Seq<char>, Seq<char>)> {
    match alt {
        Some((l, t)) => Some((l@, t@)),
        None => None,
    }
}

pub open spec fn strings_view(v: Seq<String>) -> Seq<Seq<char>> {
    v.map_values(|s: String| s@)
}

fn owned_str(s: &str) -> (r: String)
    ensures
        r@ == s@,
{
    let v = chars_of(s);
    string_of(&v)
}

fn shows_text(entries: &Vec<SuggestionEntry>, t: &str) -> (r: bool)
    ensures
        r == has_text(entries_view(entries@), t@),
{
    let tv = chars_of(t);
    let mut j: usize = 0;
    while j < entries.len()
        invariant
            0 <= j <= entries.len(),
            tv@ == t@,
            forall|k: int| 0 <= k < j ==> entries@[k].text@ != t@,
        decreases entries.len() - j,
    {
        let ev = chars_of(entries[j].text.as_str());
        if eq_chars(&ev, &tv) {
            assert(entries_view(entries@)[j as int].0 == t@);
            return true;
        }
        j += 1;
    }
    assert forall|i: int| 0 <= i < entries_view(entries@).len() implies
        (#[trigger] entries_view(entries@)[i]).0 != t@ by {
        assert(entries_view(entries@)[i] == entry_view(entries@[i]));
    }
    false
}

/// Build the rows of an offer for the typed word `current_text`: the
/// below-threshold cross-layout candidate first, then the provider's
/// candidates (already fetched, best first) without duplicates while
/// fewer than `max` rows are taken; trimmed to eight, and closed by the
/// "add to dictionary" row. Empty when there is nothing to offer.
pub fn offer_entries(
    low_conf_alt: Option<(LayoutId, String)>,
    candidates: Vec<String>,
    max: usize,
    current_text: &str,
) -> (r: Vec<SuggestionEntry>)
    ensures
        entries_view(r@) == offer_rows(
            alt_view(low_conf_alt),
            strings_view(candidates@),
            max as int,
            current_text@,
        ),
{
    let ghost alt = alt_view(low_conf_alt);
    let ghost cands = strings_view(candidates@);
    let mut entries: Vec<SuggestionEntry> = Vec::new();
    match low_conf_alt {
        Some((alt_layout, alt_text)) => {
            entries.push(
                SuggestionEntry {
                    text: alt_text,
                    switch_to: Some(alt_layout),
                    action: SuggestionAction::Replace,
                },
            );
        },
        None => {},
    }
    assert(entries_view(entries@) =~= gather(offer_start(alt), cands.take(0), max as int));
    let n = candidates.len();
    let mut i: usize = 0;
    while i < n
        invariant
            n == candidates.len(),
            0 <= i <= n,
            cands == strings_view(candidates@),
            entries_view(entries@) == gather(offer_start(alt), cands.take(i as int), max as int),
        decreases n - i,
    {
        let ghost before = entries_view(entries@);
        assert(cands.take(i as int + 1).drop_last() =~= cands.take(i as int));
        assert(cands.take(i as int + 1).last() == candidates@[i as int]@);
        if entries.len() < max && !shows_text(&entries, candidates[i].as_str()) {
            let text = owned_str(candidates[i].as_str());
            entries.push(
                SuggestionEntry { text, switch_to: None, action: SuggestionAction::Replace },
            );
            assert(entries_view(entries@) =~= before.push(
                (candidates@[i as int]@, None, SuggestionAction::Replace),
            ));
        }
        i += 1;
    }
    assert(cands.take(n as int) =~= cands);
    if entries.len() == 0 {
        assert(entries_view(entries@) =~= seq![]);
        return entries;
    }
    let ghost g = entries_view(entries@);
    entries.truncate(MAX_REPLACE_ROWS);
    let ghost kept = entries_view(entries@);
    assert(kept =~= (if g.len() <= MAX_REPLACE_ROWS {
        g
    } else {
        g.take(MAX_REPLACE_ROWS as int)
    }));
    entries.push(
        SuggestionEntry {
            text: owned_str(current_text),
            switch_to: None,
            action: SuggestionAction::AddToDictionary,
        },
    );
    assert(entries_view(entries@) =~= kept.push(
        (current_text@, None, SuggestionAction::AddToDictionary),
    ));
    entries
}

/// Whether suggestions are worth offering for a kept word: the feature
/// is on, the word (letters only, lowercased: `stripped`) has at least
/// three letters, the user has not whitelisted it (whitelist entries
/// compared lowercased), and the dictionary does not know it (`known`).
pub fn offer_allowed(enabled: bool, stripped: &str, whitelist: &Vec<String>, known: bool) -> (r:
    bool)
    ensures
        r == (enabled && stripped@.len() >= 3 && !(exists|i: int|
            0 <= i < whitelist@.len() && lowercase(#[trigger] whitelist@[i]@) == stripped@)
            && !known),
{
    if !enabled {
        return false;
    }
    let sv = chars_of(stripped);
    if sv.len() < 3 {
        return false;
    }
    let mut i: usize = 0;
    while i < whitelist.len()
        invariant
            0 <= i <= whitelist.len(),
            sv@ == stripped@,
            forall|k: int| 0 <= k < i ==> lowercase(#[trigger] whitelist@[k]@) != stripped@,
        decreases whitelist.len() - i,
    {
        let low = str_to_lowercase(whitelist[i].as_str());
        let lv = chars_of(low.as_str());
        if eq_chars(&lv, &sv) {
            return false;
        }
        i += 1;
    }
    !known
}

/// The same keys, compared by scancode and shift (timestamps aside).
pub open spec fn same_keys(a: Seq<WordKey>, b: Seq<WordKey>) -> bool {
    &&& a.len() == b.len()
    &&& forall|i: int|
        0 <= i < a.len() ==> (#[trigger] a[i]).scancode == b[i].scancode && a[i].shift == b[i].shift
}

/// Whether the buffer's last completed word is still the offered one.
pub fn same_word(completed: &Vec<WordKey>, offered: &Vec<WordKey>) -> (r: bool)
    ensures
        r == same_keys(completed@, offered@),
{
    if completed.len() != offered.len() {
        return false;
    }
    let mut i: usize = 0;
    while i < completed.len()
        invariant
            completed.len() == offered.len(),
            0 <= i <= completed.len(),
            forall|k: int|
                0 <= k < i ==> (#[trigger] completed@[k]).scancode == offered@[k].scancode
                    && completed@[k].shift == offered@[k].shift,
        decreases completed.len() - i,
    {
        if completed[i].scancode != offered[i].scancode || completed[i].shift != offered[i].shift {
            return false;
        }
        i += 1;
    }
    true
}

fn copy_run(v: &Vec<(u32, bool)>) -> (r: Vec<(u32, bool)>)
    ensures
        r@ == v@,
{
    let mut r: Vec<(u32, bool)> = Vec::new();
    let mut i: usize = 0;
    while i < v.len()
        invariant
            0 <= i <= v.len(),
            r@ == v@.take(i as int),
        decreases v.len() - i,
    {
        r.push(v[i]);
        i += 1;
        assert(r@ =~= v@.take(i as int));
    }
    assert(v@.take(v.len() as int) =~= v@);
    r
}

fn copy_keys(v: &Vec<WordKey>) -> (r: Vec<WordKey>)
    ensures
        r@ == v@,
{
    let mut r: Vec<WordKey> = Vec::new();
    let mut i: usize = 0;
    while i < v.len()
        invariant
            0 <= i <= v.len(),
            r@ == v@.take(i as int),
        decreases v.len() - i,
    {
        r.push(v[i]);
        i += 1;
        assert(r@ =~= v@.take(i as int));
    }
    assert(v@.take(v.len() as int) =~= v@);
    r
}

/// The screen to the right of an offered word, captured the instant a
/// pointer press was seen: the separators after the word, the next
/// word's keys so far, and the end of the grace window.
pub struct FrozenScreen {
    pub run: Vec<(u32, bool)>,
    pub tail: Vec<WordKey>,
    pub until_ms: u64,
}

/// An offer awaiting the user's accept. Times are milliseconds on the
/// engine's clock.
pub struct PendingSuggestion {
    /// Ties accepts and dismissals to this exact offer.
    pub generation: u64,
    pub keys: Vec<WordKey>,
    pub rendered: String,
    pub layout: LayoutId,
    pub entries: Vec<SuggestionEntry>,
    /// Accepts after this instant are ignored.
    pub deadline_ms: u64,
    /// Parsed accept chord; `None` = click-to-apply only.
    pub accept: Option<AcceptModifiers>,
    /// Screen state frozen at a pointer press; `None` until a click.
    pub frozen: Option<FrozenScreen>,
}

/// The one in-flight offer and the generation counter that stamps
/// offers.
pub struct SuggestionSlot {
    pending: Option<PendingSuggestion>,
    stamp: u64,
}

impl SuggestionSlot {
    /// The offer in flight was stamped no later than the latest stamp.
    #[verifier::type_invariant]
    spec fn stamped(self) -> bool {
        self.pending matches Some(p) ==> p.generation <= self.stamp
    }

    /// Move the offer in flight out, leaving none.
    fn take_pending(&mut self) -> (r: Option<PendingSuggestion>)
        ensures
            r == old(self).pending,
            final(self).pending is None,
            final(self).stamp == old(self).stamp,
    {
        let mut cur: Option<PendingSuggestion> = None;
        std::mem::swap(&mut cur, &mut self.pending);
        cur
    }

    /// The offer in flight, if any.
    pub closed spec fn offer(&self) -> Option<PendingSuggestion> {
        self.pending
    }

    /// The generation of the latest offer stashed (0 before any).
    pub closed spec fn stamp(&self) -> u64 {
        self.stamp
    }

    pub fn new() -> (s: Self)
        ensures
            s.offer() is None,
            s.stamp() == 0,
    {
        SuggestionSlot { pending: None, stamp: 0 }
    }

    /// Stamp a new offer with the next generation and make it the one
    /// in flight, replacing any earlier offer. Its generation is larger
    /// than that of every offer stashed before, so an accept meant for
    /// an earlier offer can never take this one.
    pub fn stash(
        &mut self,
        keys: Vec<WordKey>,
        rendered: String,
        layout: LayoutId,
        entries: Vec<SuggestionEntry>,
        deadline_ms: u64,
        accept: Option<AcceptModifiers>,
    ) -> (g: u64)
        requires
            old(self).stamp() < u64::MAX,
        ensures
            g == old(self).stamp() + 1,
            old(self).offer() matches Some(p) ==> p.generation < g,
            final(self).stamp() == g,
            final(self).offer() == Some(
                PendingSuggestion {
                    generation: g,
                    keys,
                    rendered,
                    layout,
                    entries,
                    deadline_ms,
                    accept,
                    frozen: None,
                },
            ),
    {
        proof {
            use_type_invariant(&*self);
        }
        let g = self.stamp + 1;
        self.stamp = g;
        self.pending = Some(
            PendingSuggestion {
                generation: g,
                keys,
                rendered,
                layout,
                entries,
                deadline_ms,
                accept,
                frozen: None,
            },
        );
        g
    }

    /// An offer is in flight and its deadline has not passed.
    pub fn is_live(&self, now_ms: u64) -> (r: bool)
        ensures
            r == (self.offer() is Some && now_ms <= self.offer()->0.deadline_ms),
    {
        match &self.pending {
            Some(p) => now_ms <= p.deadline_ms,
            None => false,
        }
    }

    /// A pointer press is about to abandon the buffer: freeze the screen
    /// to the right of the word into the live offer, while the buffer's
    /// last completed word (`completed`) is still the offered one.
    pub fn freeze_for_click(
        &mut self,
        completed: &Vec<WordKey>,
        run: &Vec<(u32, bool)>,
        tail: &Vec<WordKey>,
        now_ms: u64,
    )
        requires
            now_ms <= u64::MAX - CLICK_GRACE_MS,
        ensures
            final(self).stamp() == old(self).stamp(),
            match old(self).offer() {
                Some(p) => if now_ms <= p.deadline_ms && same_keys(completed@, p.keys@) {
                    final(self).offer() == Some(
                        PendingSuggestion {
                            frozen: Some(
                                FrozenScreen {
                                    run: final(self).offer()->0.frozen->0.run,
                                    tail: final(self).offer()->0.frozen->0.tail,
                                    until_ms: (now_ms + CLICK_GRACE_MS) as u64,
                                },
                            ),
                            ..p
                        },
                    ) && final(self).offer()->0.frozen->0.run@ == run@
                        && final(self).offer()->0.frozen->0.tail@ == tail@
                } else {
                    final(self).offer() == old(self).offer()
                },
                None => final(self).offer() is None,
            },
    {
        proof {
            use_type_invariant(&*self);
        }
        match self.take_pending() {
            Some(p) => {
                if now_ms <= p.deadline_ms && same_word(completed, &p.keys) {
                    let frozen = FrozenScreen {
                        run: copy_run(run),
                        tail: copy_keys(tail),
                        until_ms: now_ms + CLICK_GRACE_MS,
                    };
                    self.pending = Some(PendingSuggestion { frozen: Some(frozen), ..p });
                } else {
                    self.pending = Some(p);
                }
            },
            None => {},
        }
    }

    /// A click-grace window is open.
    pub fn has_click_grace(&self, now_ms: u64) -> (r: bool)
        ensures
            r == (self.offer() is Some && self.offer()->0.frozen is Some && now_ms
                <= self.offer()->0.frozen->0.until_ms),
    {
        match &self.pending {
            Some(p) => match &p.frozen {
                Some(f) => now_ms <= f.until_ms,
                None => false,
            },
            None => false,
        }
    }

    /// Drop the offer in flight, if any, and report its generation;
    /// `only_generation` restricts this to that one offer.
    pub fn dismiss(&mut self, only_generation: Option<u64>) -> (r: Option<u64>)
        ensures
            final(self).stamp() == old(self).stamp(),
            match old(self).offer() {
                Some(p) => if only_generation is None || only_generation == Some(p.generation) {
                    r == Some(p.generation) && final(self).offer() is None
                } else {
                    r is None && final(self).offer() == old(self).offer()
                },
                None => r is None && final(self).offer() is None,
            },
    {
        let hit = match &self.pending {
            Some(p) => match only_generation {
                Some(g) => g == p.generation,
                None => true,
            },
            None => false,
        };
        if hit {
            match self.take_pending() {
                Some(p) => Some(p.generation),
                None => None,
            }
        } else {
            None
        }
    }

    /// Per-event grace bookkeeping: a frozen offer dies on the first
    /// physical keypress that is not the pointer (`pointer_scancode`),
    /// or once its grace window has lapsed. Reports the generation
    /// dismissed.
    pub fn click_grace_tick(&mut self, ev: &KeyEvent, pointer_scancode: u32, now_ms: u64) -> (r:
        Option<u64>)
        ensures
            final(self).stamp() == old(self).stamp(),
            ({
                let stale = old(self).offer() is Some && old(self).offer()->0.frozen is Some && (
                now_ms > old(self).offer()->0.frozen->0.until_ms || (!ev.injected && ev.direction
                    == KeyDirection::Press && ev.scancode != pointer_scancode));
                if stale {
                    r == Some(old(self).offer()->0.generation) && final(self).offer() is None
                } else {
                    r is None && final(self).offer() == old(self).offer()
                }
            }),
    {
        let stale = match &self.pending {
            Some(p) => match &p.frozen {
                Some(f) => now_ms > f.until_ms || (!ev.injected && matches!(ev.direction, KeyDirection::Press)
                    && ev.scancode != pointer_scancode),
                None => false,
            },
            None => false,
        };
        if stale {
            self.dismiss(None)
        } else {
            None
        }
    }

    /// Take the offer out for an accept, when it is the offer of
    /// `generation`; a stale accept finds nothing and changes nothing.
    pub fn take_for_accept(&mut self, generation: u64) -> (r: Option<PendingSuggestion>)
        ensures
            final(self).stamp() == old(self).stamp(),
            if old(self).offer() is Some && old(self).offer()->0.generation == generation {
                r == old(self).offer() && final(self).offer() is None
            } else {
                r is None && final(self).offer() == old(self).offer()
            },
    {
        let hit = match &self.pending {
            Some(p) => p.generation == generation,
            None => false,
        };
        if hit {
            self.take_pending()
        } else {
            None
        }
    }
}

/// What an accept of an offer that was taken out of the slot does.
pub enum AcceptOutcome {
    /// The engine is paused: nothing happens.
    Paused,
    /// The offer's deadline has passed.
    Expired,
    /// No row has that index.
    BadIndex,
    /// Add the typed word to the dictionary of its language; no text
    /// changes.
    AddToDictionary { layout: LayoutId, word: String },
    /// The offered word is no longer the last thing the engine can
    /// vouch for on screen.
    NotOnScreen,
    /// Replace the word; `run` and `tail` are the separators and the
    /// next word's keys to the right of it.
    Replace { run: Vec<(u32, bool)>, tail: Vec<WordKey> },
}

/// What an accept of row `index` of `pending` comes to: paused, expired,
/// no such row, the dictionary request, a replacement over the screen
/// the buffer or a frozen copy vouches for, or nothing on screen.
pub open spec fn accept_decided(
    pending: PendingSuggestion,
    index: usize,
    paused: bool,
    now_ms: u64,
    completed: Seq<WordKey>,
    run: Seq<(u32, bool)>,
    tail: Seq<WordKey>,
    r: AcceptOutcome,
) -> bool {
    if paused {
        r is Paused
    } else if now_ms > pending.deadline_ms {
        r is Expired
    } else if index >= pending.entries@.len() {
        r is BadIndex
    } else {
        let e = pending.entries@[index as int];
        if e.action == SuggestionAction::AddToDictionary {
            r matches AcceptOutcome::AddToDictionary { layout, word } && layout@ == pending.layout@
                && word@ == e.text@
        } else if same_keys(completed, pending.keys@) {
            r matches AcceptOutcome::Replace { run: rr, tail: rt } && rr@ == run && rt@ == tail
        } else if pending.frozen is Some && now_ms <= pending.frozen->0.until_ms {
            r matches AcceptOutcome::Replace { run: rr, tail: rt } && rr@ == pending.frozen->0.run@
                && rt@ == pending.frozen->0.tail@
        } else {
            r is NotOnScreen
        }
    }
}

/// Decide an accept of row `index` of `pending` (already taken out of
/// the slot). The screen is vouched for by the live buffer when its
/// last completed word (`completed`) is still the offered one, with
/// `run` and `tail` read from it; otherwise by a frozen screen whose
/// grace window is still open.
pub fn accept_outcome(
    pending: &PendingSuggestion,
    index: usize,
    paused: bool,
    now_ms: u64,
    completed: &Vec<WordKey>,
    run: &Vec<(u32, bool)>,
    tail: &Vec<WordKey>,
) -> (r: AcceptOutcome)
    ensures
        accept_decided(*pending, index, paused, now_ms, completed@, run@, tail@, r),
{
    if paused {
        return AcceptOutcome::Paused;
    }
    if now_ms > pending.deadline_ms {
        return AcceptOutcome::Expired;
    }
    if index >= pending.entries.len() {
        return AcceptOutcome::BadIndex;
    }
    let entry = &pending.entries[index];
    if matches!(entry.action, SuggestionAction::AddToDictionary) {
        return AcceptOutcome::AddToDictionary {
            layout: LayoutId::new(owned_str(pending.layout.as_str())),
            word: owned_str(entry.text.as_str()),
        };
    }
    if same_word(completed, &pending.keys) {
        return AcceptOutcome::Replace { run: copy_run(run), tail: copy_keys(tail) };
    }
    match &pending.frozen {
        Some(f) => {
            if now_ms <= f.until_ms {
                AcceptOutcome::Replace { run: copy_run(&f.run), tail: copy_keys(&f.tail) }
            } else {
                AcceptOutcome::NotOnScreen
            }
        },
        None => AcceptOutcome::NotOnScreen,
    }
}

impl SuggestionSlot {
    /// Handle an accept (tooltip click or digit chord) of row `index` of
    /// the offer of `generation`. A stale generation finds nothing and
    /// changes nothing; otherwise the offer is consumed whatever the
    /// outcome, and comes back with it.
    pub fn accept(
        &mut self,
        generation: u64,
        index: usize,
        paused: bool,
        now_ms: u64,
        completed: &Vec<WordKey>,
        run: &Vec<(u32, bool)>,
        tail: &Vec<WordKey>,
    ) -> (r: Option<(PendingSuggestion, AcceptOutcome)>)
        ensures
            final(self).stamp() == old(self).stamp(),
            if old(self).offer() is Some && old(self).offer()->0.generation == generation {
                &&& final(self).offer() is None
                &&& r matches Some((p, o)) && old(self).offer() == Some(p) && accept_decided(
                    p,
                    index,
                    paused,
                    now_ms,
                    completed@,
                    run@,
                    tail@,
                    o,
                )
            } else {
                r is None && final(self).offer() == old(self).offer()
            },
    {
        match self.take_for_accept(generation) {
            Some(p) => {
                let o = accept_outcome(&p, index, paused, now_ms, completed, run, tail);
                Some((p, o))
            },
            None => None,
        }
    }
}

/// Enter and Tab: re-pressing them would submit a line or move focus.
pub open spec fn submission(sc: u32) -> bool {
    sc == SC_ENTER || sc == SC_TAB
}

/// A separator as replayed: Enter and Tab come back as Space.
pub open spec fn boundary_replay(k: (u32, bool)) -> ReplayKey {
    if submission(k.0) {
        ReplayKey { scancode: SC_SPACE, shift: false }
    } else {
        ReplayKey { scancode: k.0, shift: k.1 }
    }
}

pub open spec fn key_replay(k: WordKey) -> ReplayKey {
    ReplayKey { scancode: k.scancode, shift: k.shift }
}

/// What follows the replaced word: the separators, then the next
/// word's keys so far.
pub open spec fn extra_replay(run: Seq<(u32, bool)>, tail: Seq<WordKey>) -> Seq<ReplayKey> {
    run.map_values(|k: (u32, bool)| boundary_replay(k)) + tail.map_values(
        |k: WordKey| key_replay(k),
    )
}

/// The keys re-emitted after a replaced word: each separator (Enter and
/// Tab as Space), then the next word's keys so far.
pub fn extra_keys(run: &Vec<(u32, bool)>, tail: &Vec<WordKey>) -> (r: Vec<ReplayKey>)
    ensures
        r@ == extra_replay(run@, tail@),
{
    let mut r: Vec<ReplayKey> = Vec::new();
    let mut i: usize = 0;
    while i < run.len()
        invariant
            0 <= i <= run.len(),
            r@ == run@.take(i as int).map_values(|k: (u32, bool)| boundary_replay(k)),
        decreases run.len() - i,
    {
        let (sc, shift) = run[i];
        if sc == SC_ENTER || sc == SC_TAB {
            r.push(ReplayKey { scancode: SC_SPACE, shift: false });
        } else {
            r.push(ReplayKey { scancode: sc, shift });
        }
        i += 1;
        assert(r@ =~= run@.take(i as int).map_values(|k: (u32, bool)| boundary_replay(k)));
    }
    assert(run@.take(run.len() as int) =~= run@);
    let ghost head = r@;
    let mut j: usize = 0;
    while j < tail.len()
        invariant
            0 <= j <= tail.len(),
            head == run@.map_values(|k: (u32, bool)| boundary_replay(k)),
            r@ == head + tail@.take(j as int).map_values(|k: WordKey| key_replay(k)),
        decreases tail.len() - j,
    {
        r.push(ReplayKey { scancode: tail[j].scancode, shift: tail[j].shift });
        j += 1;
        assert(r@ =~= head + tail@.take(j as int).map_values(|k: WordKey| key_replay(k)));
    }
    assert(tail@.take(tail.len() as int) =~= tail@);
    r
}

/// Every character of a spelling has a key under the target layout.
pub open spec fn all_spelled(sp: Seq<Option<(u32, bool)>>) -> bool {
    forall|i: int| 0 <= i < sp.len() ==> (#[trigger] sp[i]) is Some
}

pub open spec fn spelled_replay(sp: Seq<Option<(u32, bool)>>) -> Seq<ReplayKey> {
    sp.map_values(|o: Option<(u32, bool)>| ReplayKey { scancode: o.unwrap().0, shift: o.unwrap().1 })
}

/// The keys that type a spelled word, when every character has one.
pub fn spelled_keys(spelled: &Vec<Option<(u32, bool)>>) -> (r: Option<Vec<ReplayKey>>)
    ensures
        match r {
            Some(keys) => all_spelled(spelled@) && keys@ == spelled_replay(spelled@),
            None => !all_spelled(spelled@),
        },
{
    let mut keys: Vec<ReplayKey> = Vec::new();
    let mut i: usize = 0;
    while i < spelled.len()
        invariant
            0 <= i <= spelled.len(),
            forall|k: int| 0 <= k < i ==> (#[trigger] spelled@[k]) is Some,
            keys@ == spelled_replay(spelled@.take(i as int)),
        decreases spelled.len() - i,
    {
        match spelled[i] {
            Some((scancode, shift)) => {
                keys.push(ReplayKey { scancode, shift });
            },
            None => {
                return None;
            },
        }
        i += 1;
        assert(keys@ =~= spelled_replay(spelled@.take(i as int)));
    }
    assert(spelled@.take(spelled.len() as int) =~= spelled@);
    Some(keys)
}

/// The word part of a replacement: a cross-layout row replays the
/// typed keys under the other layout; a spelling row types its text,
/// when the target layout has a key for every character (otherwise the
/// text goes in by text injection).
pub open spec fn word_replay(
    cross_layout: bool,
    typed: Seq<WordKey>,
    spelled: Seq<Option<(u32, bool)>>,
) -> Option<Seq<ReplayKey>> {
    if cross_layout {
        Some(typed.map_values(|k: WordKey| key_replay(k)))
    } else if all_spelled(spelled) {
        Some(spelled_replay(spelled))
    } else {
        None
    }
}

pub open spec fn rendered_char(o: Option<char>) -> char {
    match o {
        Some(c) => c,
        None => ' ',
    }
}

/// The rendered replacement: the row's text, then each re-emitted key
/// as the target layout renders it (a space where it renders nothing).
pub open spec fn rendered_replacement(text: Seq<char>, extra_chars: Seq<Option<char>>) -> Seq<
    char,
> {
    text + extra_chars.map_values(|o: Option<char>| rendered_char(o))
}

/// The keys a replacement replays, key by key. A row that switches
/// layout re-types exactly the keys that were typed, each with its
/// scancode and Shift, so a capital comes back a capital under the new
/// layout. A spelling row is replayed exactly when every character has a
/// key, and then types those keys. After the word come the separators
/// again — Enter (0x1C) and Tab (0x0F) as a plain Space (0x39), any other
/// with its scancode and Shift — and then the next word's keys so far.
pub proof fn lemma_replacement_keys(
    typed: Seq<WordKey>,
    spelled: Seq<Option<(u32, bool)>>,
    run: Seq<(u32, bool)>,
    tail: Seq<WordKey>,
)
    ensures
        word_replay(true, typed, spelled) matches Some(w) && w.len() == typed.len() && forall|i: int|
            0 <= i < typed.len() ==> #[trigger] w[i] == (ReplayKey {
                scancode: typed[i].scancode,
                shift: typed[i].shift,
            }),
        word_replay(false, typed, spelled) is Some <==> forall|i: int|
            0 <= i < spelled.len() ==> (#[trigger] spelled[i]) is Some,
        word_replay(false, typed, spelled) matches Some(w) ==> w.len() == spelled.len() && forall|
            i: int,
        |
            0 <= i < spelled.len() ==> #[trigger] w[i] == (ReplayKey {
                scancode: spelled[i].unwrap().0,
                shift: spelled[i].unwrap().1,
            }),
        extra_replay(run, tail).len() == run.len() + tail.len(),
        forall|j: int|
            0 <= j < run.len() ==> #[trigger] extra_replay(run, tail)[j] == if run[j].0 == 0x1C
                || run[j].0 == 0x0F {
                ReplayKey { scancode: 0x39, shift: false }
            } else {
                ReplayKey { scancode: run[j].0, shift: run[j].1 }
            },
        forall|j: int|
            0 <= j < tail.len() ==> #[trigger] extra_replay(run, tail)[run.len() + j] == (ReplayKey {
                scancode: tail[j].scancode,
                shift: tail[j].shift,
            }),
{
    let e = extra_replay(run, tail);
    let h = run.map_values(|k: (u32, bool)| boundary_replay(k));
    let t = tail.map_values(|k: WordKey| key_replay(k));
    assert forall|j: int| 0 <= j < tail.len() implies #[trigger] e[run.len() + j] == (ReplayKey {
        scancode: tail[j].scancode,
        shift: tail[j].shift,
    }) by {
        assert(e[run.len() + j] == t[j]);
    }
    assert forall|j: int| 0 <= j < run.len() implies #[trigger] e[j] == h[j] by {}
}

/// The corrected text reads as the row's text followed by each re-emitted
/// key as the target layout renders it, a space standing in for a key
/// that renders nothing.
pub proof fn lemma_rendered_replacement(text: Seq<char>, extra_chars: Seq<Option<char>>)
    ensures
        rendered_replacement(text, extra_chars).len() == text.len() + extra_chars.len(),
        rendered_replacement(text, extra_chars).take(text.len() as int) == text,
        forall|j: int|
            0 <= j < extra_chars.len() ==> #[trigger] rendered_replacement(text, extra_chars)[text.len()
                + j] == match extra_chars[j] {
                Some(c) => c,
                None => ' ',
            },
{
    let r = rendered_replacement(text, extra_chars);
    assert(r.take(text.len() as int) =~= text);
}

/// How to apply an accepted row.
pub struct ReplacementPlan {
    /// The layout the replacement is typed in.
    pub target: LayoutId,
    /// Backspaces that delete the word, the separators, the next word's
    /// keys so far and the accept digit.
    pub backspaces: usize,
    /// The keys to replay; `None` = inject `corrected` as text.
    pub replay: Option<Vec<ReplayKey>>,
    /// The full replacement as rendered text.
    pub corrected: String,
    /// The row switches layout.
    pub cross_layout: bool,
}

/// Plan the replacement of `pending`'s word by the row `entry`, with the
/// separators `run` and next-word keys `tail` to its right.
/// `spelled` holds, for each character of the row's text, its key under
/// the target layout; `extra_chars` how the target layout renders each
/// of [`extra_keys`]`(run, tail)`. `None` when the separators are gone
/// (nothing to replay the word against).
pub fn plan_replacement(
    pending: &PendingSuggestion,
    entry: &SuggestionEntry,
    run: &Vec<(u32, bool)>,
    tail: &Vec<WordKey>,
    typed_digit: bool,
    spelled: &Vec<Option<(u32, bool)>>,
    extra_chars: &Vec<Option<char>>,
) -> (r: Option<ReplacementPlan>)
    requires
        pending.keys@.len() + run@.len() + tail@.len() + 1 <= usize::MAX,
        extra_chars@.len() == run@.len() + tail@.len(),
    ensures
        run@.len() == 0 <==> r is None,
        r matches Some(p) ==> {
            &&& p.target@ == (match entry.switch_to {
                Some(l) => l@,
                None => pending.layout@,
            })
            &&& p.cross_layout == entry.switch_to is Some
            &&& p.backspaces == pending.keys@.len() + run@.len() + tail@.len() + (if typed_digit {
                1int
            } else {
                0int
            })
            &&& match word_replay(entry.switch_to is Some, pending.keys@, spelled@) {
                Some(w) => p.replay is Some && p.replay->0@ == w + extra_replay(run@, tail@),
                None => p.replay is None,
            }
            &&& p.corrected@ == rendered_replacement(entry.text@, extra_chars@)
        },
{
    if run.len() == 0 {
        return None;
    }
    let backspaces = pending.keys.len() + run.len() + tail.len() + if typed_digit {
        1
    } else {
        0
    };
    let cross_layout = entry.switch_to.is_some();
    let target = match &entry.switch_to {
        Some(l) => LayoutId::new(owned_str(l.as_str())),
        None => LayoutId::new(owned_str(pending.layout.as_str())),
    };
    let word: Option<Vec<ReplayKey>> = if cross_layout {
        let mut w: Vec<ReplayKey> = Vec::new();
        let mut i: usize = 0;
        while i < pending.keys.len()
            invariant
                0 <= i <= pending.keys.len(),
                w@ == pending.keys@.take(i as int).map_values(|k: WordKey| key_replay(k)),
            decreases pending.keys.len() - i,
        {
            w.push(ReplayKey { scancode: pending.keys[i].scancode, shift: pending.keys[i].shift });
            i += 1;
            assert(w@ =~= pending.keys@.take(i as int).map_values(|k: WordKey| key_replay(k)));
        }
        assert(pending.keys@.take(pending.keys.len() as int) =~= pending.keys@);
        Some(w)
    } else {
        spelled_keys(spelled)
    };
    let extra = extra_keys(run, tail);
    let replay = match word {
        Some(mut w) => {
            let ghost w0 = w@;
            let mut k: usize = 0;
            while k < extra.len()
                invariant
                    0 <= k <= extra.len(),
                    w@ == w0 + extra@.take(k as int),
                decreases extra.len() - k,
            {
                w.push(extra[k]);
                k += 1;
                assert(w@ =~= w0 + extra@.take(k as int));
            }
            assert(extra@.take(extra.len() as int) =~= extra@);
            Some(w)
        },
        None => None,
    };
    let mut corrected = chars_of(entry.text.as_str());
    let ghost c0 = corrected@;
    let mut m: usize = 0;
    while m < extra_chars.len()
        invariant
            0 <= m <= extra_chars.len(),
            corrected@ == c0 + extra_chars@.take(m as int).map_values(
                |o: Option<char>| rendered_char(o),
            ),
        decreases extra_chars.len() - m,
    {
        let ch = match extra_chars[m] {
            Some(c) => c,
            None => ' ',
        };
        corrected.push(ch);
        m += 1;
        assert(corrected@ =~= c0 + extra_chars@.take(m as int).map_values(
            |o: Option<char>| rendered_char(o),
        ));
    }
    assert(extra_chars@.take(extra_chars.len() as int) =~= extra_chars@);
    Some(
        ReplacementPlan {
            target,
            backspaces,
            replay,
            corrected: string_of(&corrected),
            cross_layout,
        },
    )
}

/// The completed-word keys to remember after a spelling row was typed:
/// the keys of its characters under the target layout, or none at all
/// when some character had no key (the word went in as text).
pub fn restashed_keys(spelled: &Vec<Option<(u32, bool)>>) -> (r: Vec<WordKey>)
    ensures
        all_spelled(spelled@) ==> r@ == spelled@.map_values(
            |o: Option<(u32, bool)>| WordKey { scancode: o.unwrap().0, shift: o.unwrap().1, timestamp_ms: 0 },
        ),
        !all_spelled(spelled@) ==> r@.len() == 0,
{
    let mut keys: Vec<WordKey> = Vec::new();
    let mut i: usize = 0;
    while i < spelled.len()
        invariant
            0 <= i <= spelled.len(),
            forall|k: int| 0 <= k < i ==> (#[trigger] spelled@[k]) is Some,
            keys@ == spelled@.take(i as int).map_values(
                |o: Option<(u32, bool)>| WordKey { scancode: o.unwrap().0, shift: o.unwrap().1, timestamp_ms: 0 },
            ),
        decreases spelled.len() - i,
    {
        match spelled[i] {
            Some((scancode, shift)) => {
                keys.push(WordKey { scancode, shift, timestamp_ms: 0 });
            },
            None => {
                return Vec::new();
            },
        }
        i += 1;
        assert(keys@ =~= spelled@.take(i as int).map_values(
            |o: Option<(u32, bool)>| WordKey { scancode: o.unwrap().0, shift: o.unwrap().1, timestamp_ms: 0 },
        ));
    }
    assert(spelled@.take(spelled.len() as int) =~= spelled@);
    keys
}

/// No two rows share a text.
pub open spec fn distinct_texts(rows: Seq<EntryView>) -> bool {
    forall|i: int, j: int| 0 <= i < j < rows.len() ==> (#[trigger] rows[i]).0 != (#[trigger] rows[j]).0
}

proof fn lemma_gather(start: Seq<EntryView>, cands: Seq<Seq<char>>, max: int)
    requires
        start.len() <= 1,
        forall|i: int| 0 <= i < start.len() ==> (#[trigger] start[i]).2 == SuggestionAction::Replace,
    ensures
        ({
            let g = gather(start, cands, max);
            &&& g.len() >= start.len()
            &&& g.take(start.len() as int) == start
            &&& g.len() <= start.len() || g.len() <= max
            &&& forall|i: int| 0 <= i < g.len() ==> (#[trigger] g[i]).2 == SuggestionAction::Replace
            &&& distinct_texts(g)
        }),
    decreases cands.len(),
{
    if cands.len() > 0 {
        lemma_gather(start, cands.drop_last(), max);
        let a = gather(start, cands.drop_last(), max);
        let g = gather(start, cands, max);
        if !(a.len() >= max || has_text(a, cands.last())) {
            assert(g == a.push((cands.last(), None, SuggestionAction::Replace)));
            assert(g.take(start.len() as int) =~= a.take(start.len() as int));
            assert forall|i: int, j: int| 0 <= i < j < g.len() implies (#[trigger] g[i]).0 != (
            #[trigger] g[j]).0 by {
                if j == g.len() - 1 {
                    assert(g[i] == a[i]);
                    assert(!has_text(a, cands.last()));
                    if a[i].0 == cands.last() {
                        assert(has_text(a, cands.last()));
                    }
                } else {
                    assert(g[i] == a[i] && g[j] == a[j]);
                }
            }
            assert forall|i: int| 0 <= i < g.len() implies (#[trigger] g[i]).2
                == SuggestionAction::Replace by {
                if i < a.len() {
                    assert(g[i] == a[i]);
                }
            }
        }
    } else {
        assert(start.take(start.len() as int) =~= start);
        assert forall|i: int, j: int| 0 <= i < j < start.len() implies (#[trigger] start[i]).0 != (
        #[trigger] start[j]).0 by {}
    }
}

/// The shape of every offer: at most nine rows; the last is the "add to
/// dictionary" row carrying the typed word and every other row is a
/// replacement; no two replacement rows share a text; the cross-layout
/// candidate, when there is one, leads; and the rows before the last
/// number at most `max`, or one (the cross-layout row alone).
pub proof fn lemma_offer_shape(
    alt: Option<(Seq<char>, Seq<char>)>,
    cands: Seq<Seq<char>>,
    max: int,
    typed: Seq<char>,
)
    ensures
        ({
            let rows = offer_rows(alt, cands, max, typed);
            &&& rows.len() <= MAX_REPLACE_ROWS + 1
            &&& rows.len() > 0 ==> rows.last() == (
                typed,
                None::<Seq<char>>,
                SuggestionAction::AddToDictionary,
            )
            &&& forall|i: int| 0 <= i < rows.len() - 1 ==> (#[trigger] rows[i]).2
                == SuggestionAction::Replace
            &&& rows.len() > 0 ==> distinct_texts(rows.drop_last())
            &&& (rows.len() > 0 && alt is Some) ==> rows[0] == (
                alt.unwrap().1,
                Some(alt.unwrap().0),
                SuggestionAction::Replace,
            )
            &&& rows.len() > 0 ==> rows.len() - 1 <= max || rows.len() <= 2
        }),
{
    let start = offer_start(alt);
    lemma_gather(start, cands, max);
    let g = gather(start, cands, max);
    let rows = offer_rows(alt, cands, max, typed);
    if g.len() > 0 {
        let kept = if g.len() <= MAX_REPLACE_ROWS {
            g
        } else {
            g.take(MAX_REPLACE_ROWS as int)
        };
        assert(rows.drop_last() =~= kept);
        assert forall|i: int| 0 <= i < rows.len() - 1 implies (#[trigger] rows[i]).2
            == SuggestionAction::Replace by {
            assert(rows[i] == g[i]);
        }
        assert forall|i: int, j: int| 0 <= i < j < kept.len() implies (#[trigger] kept[i]).0 != (
        #[trigger] kept[j]).0 by {
            assert(kept[i] == g[i] && kept[j] == g[j]);
        }
        if alt is Some {
            assert(g.take(1)[0] == start[0]);
            assert(rows[0] == g[0]);
        }
    }
}

/// A replacement never re-presses Enter or Tab from the separators:
/// every separator is replayed as itself or, for those two, as Space.
pub proof fn lemma_separators_never_submit(run: Seq<(u32, bool)>, tail: Seq<WordKey>)
    ensures
        forall|i: int|
            0 <= i < run.len() ==> !submission(#[trigger] extra_replay(run, tail)[i].scancode),
{
    assert forall|i: int| 0 <= i < run.len() implies !submission(
        #[trigger] extra_replay(run, tail)[i].scancode,
    ) by {
        assert(extra_replay(run, tail)[i] == boundary_replay(run[i]));
    }
}

} // verus!
