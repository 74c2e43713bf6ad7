//! Suggestion offers: the rows, the in-flight slot, accepts and the
//! replacement arithmetic.

use poltertype::engine_types::{
    AcceptModifiers, KeyDirection, KeyEvent, Modifiers, ReplayKey, SuggestionAction,
    SuggestionEntry, WordKey,
};
use poltertype::layout::LayoutId;
use poltertype::suggestions::{
    accept_outcome, extra_keys, offer_allowed, offer_entries, plan_replacement, restashed_keys,
    same_word, spelled_keys, AcceptOutcome, FrozenScreen, PendingSuggestion, SuggestionSlot,
    CLICK_GRACE_MS, SC_SPACE,
};

fn s(t: &str) -> String {
    t.to_string()
}

fn texts(entries: &[SuggestionEntry]) -> Vec<String> {
    entries.iter().map(|e| e.text.clone()).collect()
}

fn key(scancode: u32) -> WordKey {
    WordKey { scancode, shift: false, timestamp_ms: 7 }
}

fn pending(generation: u64, keys: Vec<WordKey>, entries: Vec<SuggestionEntry>) -> PendingSuggestion {
    PendingSuggestion {
        generation,
        keys,
        rendered: s("teh"),
        layout: LayoutId::new(s("en-US")),
        entries,
        deadline_ms: 1_000,
        accept: None,
        frozen: None,
    }
}

fn replace(text: &str) -> SuggestionEntry {
    SuggestionEntry { text: s(text), switch_to: None, action: SuggestionAction::Replace }
}

fn add(text: &str) -> SuggestionEntry {
    SuggestionEntry { text: s(text), switch_to: None, action: SuggestionAction::AddToDictionary }
}

fn press(scancode: u32, injected: bool) -> KeyEvent {
    KeyEvent {
        vk: 0,
        scancode,
        direction: KeyDirection::Press,
        modifiers: Modifiers::default(),
        injected,
        timestamp_ms: 0,
    }
}

#[test]
fn offer_puts_the_cross_layout_word_first_and_the_dictionary_row_last() {
    let alt = Some((LayoutId::new(s("uk-UA")), s("привіт")));
    let rows = offer_entries(alt, vec![s("ghbdsn"), s("ghbdbn")], 3, "ghbdsn");
    assert_eq!(texts(&rows), vec!["привіт", "ghbdsn", "ghbdbn", "ghbdsn"]);
    assert_eq!(rows[0].switch_to.as_ref().map(|l| l.as_str().to_string()), Some(s("uk-UA")));
    assert_eq!(rows[0].action, SuggestionAction::Replace);
    assert!(rows[1].switch_to.is_none() && rows[2].switch_to.is_none());
    assert_eq!(rows[3].action, SuggestionAction::AddToDictionary);
}

#[test]
fn offer_drops_duplicates_and_stops_at_the_maximum() {
    let rows = offer_entries(None, vec![s("the"), s("tea"), s("the"), s("ten"), s("toe")], 3, "teh");
    assert_eq!(texts(&rows), vec!["the", "tea", "ten", "teh"]);
    let alt = Some((LayoutId::new(s("uk-UA")), s("the")));
    let rows = offer_entries(alt, vec![s("the"), s("tea")], 9, "teh");
    assert_eq!(texts(&rows), vec!["the", "tea", "teh"]);
}

#[test]
fn offer_with_no_candidate_is_no_offer() {
    assert!(offer_entries(None, vec![], 5, "qzx").is_empty());
    assert!(offer_entries(None, vec![s("a")], 0, "qzx").is_empty());
}

#[test]
fn offer_is_trimmed_to_eight_rows_plus_the_dictionary_row() {
    let cands: Vec<String> = (0..12).map(|i| format!("w{i}")).collect();
    let rows = offer_entries(None, cands, 12, "typed");
    assert_eq!(rows.len(), 9);
    assert_eq!(rows[7].text, "w7");
    assert_eq!(rows[8].text, "typed");
    assert_eq!(rows[8].action, SuggestionAction::AddToDictionary);
}

#[test]
fn offers_are_only_made_for_unknown_words_worth_offering() {
    let wl = vec![s("Kubernetes")];
    assert!(offer_allowed(true, "teh", &wl, false));
    assert!(!offer_allowed(false, "teh", &wl, false));
    assert!(!offer_allowed(true, "te", &wl, false));
    assert!(!offer_allowed(true, "teh", &wl, true));
    assert!(!offer_allowed(true, "kubernetes", &wl, false));
    assert!(offer_allowed(true, "привіт", &vec![], false));
}

#[test]
fn each_offer_gets_a_fresh_generation_and_replaces_the_last() {
    let mut slot = SuggestionSlot::new();
    let g1 = slot.stash(vec![key(0x14)], s("teh"), LayoutId::new(s("en-US")), vec![replace("the")], 100, None);
    let g2 = slot.stash(vec![key(0x14)], s("teh"), LayoutId::new(s("en-US")), vec![replace("the")], 100, None);
    assert_eq!((g1, g2), (1, 2));
    assert!(slot.take_for_accept(g1).is_none(), "a stale accept must find nothing");
    let taken = slot.take_for_accept(g2).expect("the live offer");
    assert_eq!(taken.generation, 2);
    assert!(slot.take_for_accept(g2).is_none(), "an offer is consumed once");
}

#[test]
fn dismissal_can_be_limited_to_one_offer() {
    let mut slot = SuggestionSlot::new();
    let g = slot.stash(vec![], s("x"), LayoutId::new(s("en-US")), vec![], 100, None);
    assert_eq!(slot.dismiss(Some(g + 1)), None);
    assert!(slot.is_live(100));
    assert!(!slot.is_live(101));
    assert_eq!(slot.dismiss(Some(g)), Some(g));
    assert_eq!(slot.dismiss(None), None);
    assert!(!slot.is_live(0));
}

#[test]
fn a_click_freezes_the_screen_for_a_short_grace() {
    let mut slot = SuggestionSlot::new();
    let word = vec![key(0x14), key(0x23)];
    let g = slot.stash(word.clone(), s("th"), LayoutId::new(s("en-US")), vec![replace("the")], 1_000, None);
    slot.freeze_for_click(&vec![key(0x11)], &vec![(0x39, false)], &vec![], 10);
    assert!(!slot.has_click_grace(10), "a different word must not be frozen");
    slot.freeze_for_click(&word, &vec![(0x39, false)], &vec![key(0x1E)], 10);
    assert!(slot.has_click_grace(10 + CLICK_GRACE_MS));
    assert!(!slot.has_click_grace(11 + CLICK_GRACE_MS));
    assert_eq!(slot.click_grace_tick(&press(0x999, false), 0x999, 20), None, "the pointer itself keeps it");
    assert_eq!(slot.click_grace_tick(&press(0x1E, true), 0x999, 20), None, "our own keys keep it");
    assert_eq!(slot.click_grace_tick(&press(0x1E, false), 0x999, 20), Some(g));
    assert!(!slot.is_live(20));
}

#[test]
fn the_grace_lapses_by_itself() {
    let mut slot = SuggestionSlot::new();
    let word = vec![key(0x14)];
    let g = slot.stash(word.clone(), s("t"), LayoutId::new(s("en-US")), vec![], 10_000, None);
    slot.freeze_for_click(&word, &vec![(0x39, false)], &vec![], 0);
    let mut release = press(0x999, false);
    release.direction = KeyDirection::Release;
    assert_eq!(slot.click_grace_tick(&release, 0x999, CLICK_GRACE_MS), None);
    assert_eq!(slot.click_grace_tick(&release, 0x999, CLICK_GRACE_MS + 1), Some(g));
}

#[test]
fn accept_checks_pause_deadline_and_index_in_that_order() {
    let p = pending(1, vec![key(0x14)], vec![replace("the"), add("teh")]);
    let w = vec![key(0x14)];
    let run = vec![(0x39, false)];
    assert!(matches!(accept_outcome(&p, 9, true, 5_000, &w, &run, &vec![]), AcceptOutcome::Paused));
    assert!(matches!(accept_outcome(&p, 9, false, 5_000, &w, &run, &vec![]), AcceptOutcome::Expired));
    assert!(matches!(accept_outcome(&p, 9, false, 1_000, &w, &run, &vec![]), AcceptOutcome::BadIndex));
}

#[test]
fn adding_to_the_dictionary_needs_no_screen() {
    let p = pending(1, vec![key(0x14)], vec![replace("the"), add("teh")]);
    match accept_outcome(&p, 1, false, 0, &vec![], &vec![], &vec![]) {
        AcceptOutcome::AddToDictionary { layout, word } => {
            assert_eq!(layout.as_str(), "en-US");
            assert_eq!(word, "teh");
        }
        _ => panic!("expected the dictionary request"),
    }
}

#[test]
fn replace_reads_the_screen_from_the_buffer_or_the_frozen_copy() {
    let mut p = pending(1, vec![key(0x14)], vec![replace("the")]);
    let run = vec![(0x39, false)];
    let tail = vec![key(0x1E)];
    match accept_outcome(&p, 0, false, 0, &vec![key(0x14)], &run, &tail) {
        AcceptOutcome::Replace { run: r, tail: t } => {
            assert_eq!(r, run);
            assert_eq!(t, tail);
        }
        _ => panic!("the buffer still vouches for the word"),
    }
    assert!(matches!(
        accept_outcome(&p, 0, false, 0, &vec![key(0x15)], &run, &tail),
        AcceptOutcome::NotOnScreen
    ));
    p.frozen = Some(FrozenScreen { run: vec![(0x1C, false)], tail: vec![], until_ms: 50 });
    match accept_outcome(&p, 0, false, 50, &vec![], &run, &tail) {
        AcceptOutcome::Replace { run: r, tail: t } => {
            assert_eq!(r, vec![(0x1C, false)]);
            assert!(t.is_empty());
        }
        _ => panic!("the frozen copy vouches within its grace"),
    }
    assert!(matches!(
        accept_outcome(&p, 0, false, 51, &vec![], &run, &tail),
        AcceptOutcome::NotOnScreen
    ));
}

#[test]
fn separators_replay_enter_and_tab_as_space() {
    let extra = extra_keys(&vec![(0x1C, false), (0x0F, true), (0x33, true)], &vec![key(0x1E)]);
    assert_eq!(
        extra,
        vec![
            ReplayKey { scancode: SC_SPACE, shift: false },
            ReplayKey { scancode: SC_SPACE, shift: false },
            ReplayKey { scancode: 0x33, shift: true },
            ReplayKey { scancode: 0x1E, shift: false },
        ]
    );
}

#[test]
fn a_spelling_replacement_deletes_everything_right_of_the_word_and_retypes_it() {
    let p = pending(1, vec![key(0x14), key(0x23), key(0x12)], vec![replace("the")]);
    let entry = replace("the");
    let run = vec![(0x39, false)];
    let tail = vec![key(0x1E)];
    let spelled = vec![Some((0x14, false)), Some((0x23, false)), Some((0x12, false))];
    let plan = plan_replacement(&p, &entry, &run, &tail, true, &spelled, &vec![Some(' '), Some('a')])
        .expect("a plan");
    assert_eq!(plan.backspaces, 3 + 1 + 1 + 1);
    assert_eq!(plan.target.as_str(), "en-US");
    assert!(!plan.cross_layout);
    assert_eq!(plan.corrected, "the a");
    let replay = plan.replay.expect("every letter has a key");
    assert_eq!(replay.len(), 5);
    assert_eq!(replay[3], ReplayKey { scancode: 0x39, shift: false });
}

#[test]
fn a_cross_layout_replacement_replays_the_typed_keys() {
    let p = pending(1, vec![key(0x23), key(0x22)], vec![]);
    let entry = SuggestionEntry {
        text: s("рп"),
        switch_to: Some(LayoutId::new(s("uk-UA"))),
        action: SuggestionAction::Replace,
    };
    let plan = plan_replacement(&p, &entry, &vec![(0x1C, false)], &vec![], false, &vec![None, None], &vec![None])
        .expect("a plan");
    assert!(plan.cross_layout);
    assert_eq!(plan.target.as_str(), "uk-UA");
    assert_eq!(plan.backspaces, 3);
    assert_eq!(plan.corrected, "рп ");
    assert_eq!(
        plan.replay.expect("typed keys"),
        vec![
            ReplayKey { scancode: 0x23, shift: false },
            ReplayKey { scancode: 0x22, shift: false },
            ReplayKey { scancode: SC_SPACE, shift: false },
        ]
    );
}

#[test]
fn an_unspellable_word_goes_in_as_text_and_no_separator_means_no_plan() {
    let p = pending(1, vec![key(0x14)], vec![]);
    let entry = replace("t'");
    let plan = plan_replacement(&p, &entry, &vec![(0x39, false)], &vec![], false, &vec![Some((0x14, false)), None], &vec![None])
        .expect("a plan");
    assert!(plan.replay.is_none());
    assert!(plan_replacement(&p, &entry, &vec![], &vec![], false, &vec![], &vec![]).is_none());
    assert_eq!(spelled_keys(&vec![Some((1, true)), None]), None);
    assert_eq!(restashed_keys(&vec![Some((1, true)), None]), vec![]);
    assert_eq!(
        restashed_keys(&vec![Some((1, true))]),
        vec![WordKey { scancode: 1, shift: true, timestamp_ms: 0 }]
    );
}

#[test]
fn words_match_by_scancode_and_shift_only() {
    let a = vec![WordKey { scancode: 1, shift: true, timestamp_ms: 5 }];
    let b = vec![WordKey { scancode: 1, shift: true, timestamp_ms: 9 }];
    let c = vec![WordKey { scancode: 1, shift: false, timestamp_ms: 5 }];
    assert!(same_word(&a, &b));
    assert!(!same_word(&a, &c));
    assert!(!same_word(&a, &vec![]));
}

#[test]
fn stashed_offers_keep_their_accept_chord() {
    let mut slot = SuggestionSlot::new();
    let chord = AcceptModifiers::parse("Ctrl+Meta");
    let g = slot.stash(vec![], s("x"), LayoutId::new(s("en-US")), vec![], 5, chord);
    let p = slot.take_for_accept(g).expect("live offer");
    assert_eq!(p.accept, Some(AcceptModifiers { ctrl: true, shift: false, alt: false, meta: true }));
}

#[test]
fn an_accept_consumes_the_offer_whatever_comes_of_it() {
    let mut slot = SuggestionSlot::new();
    let word = vec![key(0x14)];
    let g = slot.stash(word.clone(), s("t"), LayoutId::new(s("en-US")), vec![replace("the")], 100, None);
    assert!(slot.accept(g + 1, 0, false, 0, &word, &vec![(0x39, false)], &vec![]).is_none());
    assert!(slot.is_live(0), "a stale accept leaves the offer alone");
    let (p, outcome) = slot.accept(g, 0, true, 0, &word, &vec![(0x39, false)], &vec![]).expect("taken");
    assert_eq!(p.generation, g);
    assert!(matches!(outcome, AcceptOutcome::Paused));
    assert!(slot.accept(g, 0, false, 0, &word, &vec![(0x39, false)], &vec![]).is_none(), "consumed");
}
