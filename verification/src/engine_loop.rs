//! The engine run loop's decisions for one key event: idle hygiene,
//! which presses are ignored or abandon the word, the paste guard, and
//! what a word buffer's verdict leads to.
//!
//! The loop itself (channels, the word buffer, emitting) runs outside;
//! it hands these functions what it observed and acts on the answer.

use vstd::prelude::*;

verus! {

/// How long after a paste shortcut auto-correction is declined, in
/// milliseconds: long enough to cover a paste replayed as a keystroke
/// burst, short enough that the next typed word is corrected.
pub const PASTE_GUARD_MS: u64 = 1200;

/// What the idle check does before an event is handled.
#[derive(Debug, Clone, Copy, PartialEq, Eq)]
pub enum IdleAction {
    /// The previous event was recent enough.
    Nothing,
    /// Idle, but a live suggestion offer is up and no word is in
    /// flight: the tooltip promises the word stays replaceable while
    /// the user reads it.
    KeepForOffer,
    /// Abandon the word in flight, forget the last word and dismiss any
    /// offer.
    Abandon,
}

/// The idle check: `idle_ms` since the previous event against the
/// configured `idle_timeout_ms`.
pub fn idle_action(idle_ms: u64, idle_timeout_ms: u64, live_offer: bool, word_in_flight: bool) -> (r:
    IdleAction)
    ensures
        r == (if idle_ms <= idle_timeout_ms {
            IdleAction::Nothing
        } else if live_offer && !word_in_flight {
            IdleAction::KeepForOffer
        } else {
            IdleAction::Abandon
        }),
{
    if idle_ms <= idle_timeout_ms {
        IdleAction::Nothing
    } else if live_offer && !word_in_flight {
        IdleAction::KeepForOffer
    } else {
        IdleAction::Abandon
    }
}

/// What happens to one key event before it reaches the word buffer.
#[derive(Debug, Clone, Copy, PartialEq, Eq)]
pub enum KeyDisposition {
    /// Our own injected keystroke, or the engine is paused.
    Ignore,
    /// A shortcut (a command modifier with a non-modifier key): it can
    /// edit text and move the caret, so the word is abandoned, the
    /// context marked unclean and any offer dismissed.
    AbandonShortcut,
    /// Fed to the word buffer; a pointer press first freezes a live
    /// offer's screen for the tooltip click that may follow.
    Feed { freeze_for_click: bool },
}

/// Sorting one key event. `paste_shortcut`, `command_held`,
/// `modifier_key` and `pointer_press` are what the event is. Also says
/// whether the paste guard is to be armed: a paste shortcut arms it
/// unless the event is ignored outright.
pub fn key_disposition(
    injected: bool,
    paused: bool,
    paste_shortcut: bool,
    command_held: bool,
    modifier_key: bool,
    pointer_press: bool,
) -> (r: (KeyDisposition, bool))
    ensures
        r.0 == (if injected || paused {
            KeyDisposition::Ignore
        } else if command_held && !modifier_key {
            KeyDisposition::AbandonShortcut
        } else {
            KeyDisposition::Feed { freeze_for_click: pointer_press }
        }),
        r.1 == (!injected && !paused && paste_shortcut),
{
    if injected || paused {
        return (KeyDisposition::Ignore, false);
    }
    if command_held && !modifier_key {
        return (KeyDisposition::AbandonShortcut, paste_shortcut);
    }
    (KeyDisposition::Feed { freeze_for_click: pointer_press }, paste_shortcut)
}

/// The end of the paste guard armed at `now_ms`, saturating.
pub fn paste_guard_until(now_ms: u64) -> (r: u64)
    ensures
        r == (if now_ms + PASTE_GUARD_MS > u64::MAX {
            u64::MAX as int
        } else {
            now_ms + PASTE_GUARD_MS
        }),
{
    now_ms.saturating_add(PASTE_GUARD_MS)
}

/// The word buffer's verdict on one fed event.
#[derive(Debug, Clone, Copy, PartialEq, Eq)]
pub enum BufferVerdict {
    /// The word goes on.
    InProgress,
    /// The caret went somewhere unknown (click, navigation, Esc).
    Abandoned,
    /// A word was completed; `tainted` when the buffer lost track of it.
    WordCompleted { tainted: bool },
}

/// What the engine does after the buffer's verdict.
#[derive(Debug, Clone, Copy, PartialEq, Eq)]
pub enum WordAction {
    Nothing,
    /// Forget the stashed last word; dismiss the offer unless a
    /// click-grace window is open (the click may be on the tooltip).
    Forget { dismiss_offer: bool },
    /// A completed word the buffer cannot vouch for: dismiss the offer,
    /// forget the last word and report it kept as typed.
    KeepTainted,
    /// Completed inside the post-paste window: dismiss the offer and
    /// leave the word alone.
    SkipPasted,
    /// Dismiss the previous offer and decide on the word.
    Decide,
}

/// What the engine does after the buffer's verdict on one event.
pub open spec fn word_action_spec(
    verdict: BufferVerdict,
    click_grace: bool,
    now_ms: u64,
    guard_until_ms: u64,
) -> WordAction {
    match verdict {
        BufferVerdict::InProgress => WordAction::Nothing,
        BufferVerdict::Abandoned => WordAction::Forget { dismiss_offer: !click_grace },
        BufferVerdict::WordCompleted { tainted } => if tainted {
            WordAction::KeepTainted
        } else if now_ms < guard_until_ms {
            WordAction::SkipPasted
        } else {
            WordAction::Decide
        },
    }
}

pub fn word_action(verdict: BufferVerdict, click_grace: bool, now_ms: u64, guard_until_ms: u64) -> (r:
    WordAction)
    ensures
        r == word_action_spec(verdict, click_grace, now_ms, guard_until_ms),
{
    match verdict {
        BufferVerdict::InProgress => WordAction::Nothing,
        BufferVerdict::Abandoned => WordAction::Forget { dismiss_offer: !click_grace },
        BufferVerdict::WordCompleted { tainted } => {
            if tainted {
                WordAction::KeepTainted
            } else if now_ms < guard_until_ms {
                WordAction::SkipPasted
            } else {
                WordAction::Decide
            }
        },
    }
}

/// Nothing pasted is ever corrected: a word completed before the paste
/// guard armed at `pasted_ms` runs out is left alone, whatever else
/// holds of it.
pub proof fn lemma_pasted_words_never_corrected(
    pasted_ms: u64,
    now_ms: u64,
    tainted: bool,
    click_grace: bool,
)
    requires
        pasted_ms <= now_ms,
        now_ms < pasted_ms + PASTE_GUARD_MS,
        pasted_ms + PASTE_GUARD_MS <= u64::MAX,
    ensures
        word_action_spec(
            BufferVerdict::WordCompleted { tainted },
            click_grace,
            now_ms,
            (pasted_ms + PASTE_GUARD_MS) as u64,
        ) != WordAction::Decide,
{
}

} // verus!
