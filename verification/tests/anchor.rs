//! The tooltip's anchor chain: caret, then window, then screen bottom.

use std::time::{Duration, Instant};

use poltertype::anchor::{
    anchor_from_rect, caret_probe_start, rgba_to_argb8888, CaretSample, caret_probe_step, is_degenerate, place_window_rect,
    resolve_anchor, retry_offset, CaretAnswer, CaretHint, CaretProbe, CaretQuery,
    FocusedWindowGeometry, PopupAnchor, ProbeStep,
};

fn window() -> FocusedWindowGeometry {
    FocusedWindowGeometry {
        x: 3540,
        y: 600,
        width: 2400,
        height: 1340,
        output: Some("DP-3".to_owned()),
        output_x: 3488,
        output_y: 560,
    }
}

fn caret(x: i32, y: i32, age: Duration) -> CaretHint {
    CaretHint {
        x,
        y,
        height: 24,
        age_ms: age.as_millis() as u64,
    }
}

#[test]
fn fresh_caret_inside_the_window_wins() {
    let anchor = resolve_anchor(
        Some(window()),
        Some(caret(187, 1216, Duration::from_millis(40))),
    );
    assert_eq!(
        anchor,
        PopupAnchor::Point {
            x: 3540 + 187,
            y: 600 + 1216,
            height: 24,
            output: Some("DP-3".to_owned()),
            output_x: 3488,
            output_y: 560,
        }
    );
}

#[test]
fn no_caret_falls_back_to_the_window() {
    let anchor = resolve_anchor(Some(window()), None);
    assert!(
        matches!(
            anchor,
            PopupAnchor::WindowRect {
                x: 3540,
                y: 600,
                ..
            }
        ),
        "expected the window rect, got {anchor:?}"
    );
}

#[test]
fn stale_caret_falls_back_to_the_window() {
    let anchor = resolve_anchor(
        Some(window()),
        Some(caret(187, 1216, Duration::from_secs(30))),
    );
    assert!(
        matches!(anchor, PopupAnchor::WindowRect { .. }),
        "a caret from a window the user has left must not win, got {anchor:?}"
    );
}

#[test]
fn caret_outside_the_window_falls_back_to_the_window() {
    let anchor = resolve_anchor(
        Some(window()),
        Some(caret(3540, 1400, Duration::from_millis(40))),
    );
    assert!(
        matches!(anchor, PopupAnchor::WindowRect { .. }),
        "nonsense extents must not fling the tooltip away, got {anchor:?}"
    );
}

#[test]
fn no_geometry_falls_back_to_the_screen_bottom() {
    let anchor = resolve_anchor(None, Some(caret(187, 1216, Duration::from_millis(40))));
    assert_eq!(anchor, PopupAnchor::ScreenBottom { output: None });
}

#[test]
fn an_idle_pointer_cannot_drag_the_tooltip_across_the_screen() {
    let g = window();
    assert_eq!(
        resolve_anchor(Some(window()), None),
        PopupAnchor::WindowRect {
            x: g.x,
            y: g.y,
            width: g.width,
            height: g.height,
            output: g.output,
            output_x: g.output_x,
            output_y: g.output_y,
        }
    );
}

#[test]
fn a_caret_at_the_window_edge_and_the_age_limit_still_counts() {
    let anchor = resolve_anchor(Some(window()), Some(caret(2400, 1340, Duration::from_millis(5000))));
    assert!(matches!(anchor, PopupAnchor::Point { x: 5940, y: 1940, .. }));
    let anchor = resolve_anchor(Some(window()), Some(caret(2400, 1340, Duration::from_millis(5001))));
    assert!(matches!(anchor, PopupAnchor::WindowRect { .. }));
    let anchor = resolve_anchor(Some(window()), Some(caret(-1, 10, Duration::from_millis(1))));
    assert!(matches!(anchor, PopupAnchor::WindowRect { .. }));
}

#[test]
fn composing_the_caret_saturates_instead_of_wrapping() {
    let mut g = window();
    g.x = i32::MAX - 10;
    g.width = 100;
    let anchor = resolve_anchor(Some(g), Some(caret(50, 0, Duration::from_millis(1))));
    assert!(matches!(anchor, PopupAnchor::Point { x: i32::MAX, y: 600, .. }));
}

#[test]
fn degenerate_rects_and_retry_offsets() {
    assert!(is_degenerate((5, 7, 0, 0)));
    assert!(!is_degenerate((0, 0, 0, 10)));
    assert!(!is_degenerate((0, 0, 10, 0)));
    assert_eq!(retry_offset(0), None);
    assert_eq!(retry_offset(5), Some(4));
}

#[test]
fn caret_point_from_glyph_extents() {
    let (x, y, h) = anchor_from_rect((10, 20, 8, 16), false);
    assert_eq!((x, y, h), (10, 20, 16));
    let (x, _, _) = anchor_from_rect((10, 20, 8, 16), true);
    assert_eq!(x, 18);
}

#[test]
fn the_caret_glyph_is_used_when_it_has_a_rect() {
    let s = caret_probe_start(7);
    assert_eq!(s, ProbeStep::Ask(CaretProbe::AtOffset(7), CaretQuery::Extents(7)));
    assert_eq!(
        caret_probe_step(CaretProbe::AtOffset(7), CaretAnswer::Extents(Some((100, 200, 8, 18)))),
        ProbeStep::Done(Some((100, 200, 18)))
    );
}

#[test]
fn the_caret_after_the_last_character_uses_the_previous_glyph() {
    let s = caret_probe_step(CaretProbe::AtOffset(7), CaretAnswer::Extents(Some((0, 0, 0, 0))));
    assert_eq!(s, ProbeStep::Ask(CaretProbe::AtPrevious, CaretQuery::Extents(6)));
    assert_eq!(
        caret_probe_step(CaretProbe::AtPrevious, CaretAnswer::Extents(Some((100, 200, 8, 18)))),
        ProbeStep::Done(Some((108, 200, 18)))
    );
}

#[test]
fn a_settling_client_is_asked_where_its_caret_is() {
    assert_eq!(
        caret_probe_step(CaretProbe::AtOffset(0), CaretAnswer::Extents(None)),
        ProbeStep::Ask(CaretProbe::AtProperty, CaretQuery::CaretOffset)
    );
    assert_eq!(
        caret_probe_step(CaretProbe::AtPrevious, CaretAnswer::Extents(None)),
        ProbeStep::Ask(CaretProbe::AtProperty, CaretQuery::CaretOffset)
    );
    assert_eq!(
        caret_probe_step(CaretProbe::AtProperty, CaretAnswer::Offset(Some(3))),
        ProbeStep::Ask(CaretProbe::AtCaret, CaretQuery::Extents(3))
    );
    assert_eq!(caret_probe_step(CaretProbe::AtProperty, CaretAnswer::Offset(None)), ProbeStep::Done(None));
    assert_eq!(
        caret_probe_step(CaretProbe::AtCaret, CaretAnswer::Extents(Some((0, 0, 0, 0)))),
        ProbeStep::Done(None)
    );
    assert_eq!(
        caret_probe_step(CaretProbe::AtCaret, CaretAnswer::Extents(Some((5, 6, 0, -2)))),
        ProbeStep::Done(Some((5, 6, 0)))
    );
}

#[test]
fn window_anchored_tooltips_centre_above_the_bottom_and_stay_on_the_output() {
    // 400x100 tooltip on a 2400x1340 window at (3540, 600) of an output at (3488, 560).
    let (x, y) = place_window_rect(3540, 600, 2400, 1340, 3488, 560, 400, 100, Some((2560, 1440)));
    assert_eq!((x, y), (52 + 1000, 40 + 1340 - 96 - 100));
    let (x, y) = place_window_rect(3540, 600, 2400, 1340, 3488, 560, 400, 100, Some((1000, 500)));
    assert_eq!((x, y), (600, 400));
    let (x, y) = place_window_rect(0, 0, 100, 50, 0, 0, 400, 100, None);
    assert_eq!((x, y), (0, 0));
}

#[test]
fn a_caret_sample_becomes_a_hint_with_its_age() {
    let h = CaretSample { x: 3, y: 4, height: 18, at: Instant::now() }.into_hint();
    assert_eq!((h.x, h.y, h.height), (3, 4, 18));
    assert!(h.age_ms < 5_000);
}

#[test]
fn pixels_swap_red_and_blue_for_the_compositor() {
    let src = vec![1, 2, 3, 4, 10, 20, 30, 40, 9];
    assert_eq!(rgba_to_argb8888(&src), vec![3, 2, 1, 4, 30, 20, 10, 40]);
}
