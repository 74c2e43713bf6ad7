//! The tooltip backends' shared bookkeeping.

use poltertype::anchor::PopupUiEvent;
use poltertype::popup::TooltipState;

#[test]
fn a_stale_timer_never_takes_down_a_newer_tooltip() {
    let mut t = TooltipState::new();
    t.show(1, 100);
    t.show(2, 200);
    assert_eq!(t.timeout_fired(1), None);
    assert_eq!(t.shown_generation(), Some(2));
    assert_eq!(t.timeout_fired(2), Some(PopupUiEvent::TimedOut { generation: 2 }));
    assert_eq!(t.shown_generation(), None);
    assert_eq!(t.timeout_fired(2), None);
}

#[test]
fn the_deadline_hides_the_tooltip_once() {
    let mut t = TooltipState::new();
    t.show(5, 1_000);
    assert_eq!(t.check_deadline(999), None);
    assert_eq!(t.check_deadline(1_000), Some(PopupUiEvent::TimedOut { generation: 5 }));
    assert_eq!(t.check_deadline(2_000), None);
}

#[test]
fn a_row_click_hides_and_accepts_but_padding_does_nothing() {
    let mut t = TooltipState::new();
    assert_eq!(t.click(Some(0)), None);
    t.show(9, 1_000);
    assert_eq!(t.click(None), None);
    assert_eq!(t.shown_generation(), Some(9));
    assert_eq!(t.click(Some(2)), Some(PopupUiEvent::Accepted { generation: 9, index: 2 }));
    assert_eq!(t.shown_generation(), None);
    t.show(10, 1_000);
    t.close();
    t.close();
    assert_eq!(t.shown_generation(), None);
}
