//! Where the suggestion tooltip goes.
//!
//! No Wayland protocol or X11 property answers "where is the text
//! caret"; the accessibility stack is the one API that does, and only
//! for apps with a live a11y bridge. So the anchors run best-first: the
//! AT-SPI caret when it is available, fresh and inside the focused
//! window; the focused window otherwise; a screen edge when nothing is
//! known. The pointer is never consulted, so an idle mouse cannot drag
//! the tooltip across the screen.

use std::time::Instant;
use vstd::prelude::*;

use crate::clock::elapsed_ms;

verus! {

/// A caret sample older than this is distrusted: the user has since
/// focused an app that emits no caret events.
pub const CARET_MAX_AGE_MS: u64 = 5000;

/// Popup bottom edge floats this many logical px above the anchor
/// window's bottom edge.
pub const BOTTOM_OFFSET: i32 = 96;

/// Geometry of the focused window in global compositor coordinates,
/// plus the name and origin of the output containing it.
#[derive(Debug, Clone, PartialEq, Eq)]
pub struct FocusedWindowGeometry {
    pub x: i32,
    pub y: i32,
    pub width: u32,
    pub height: u32,
    pub output: Option<String>,
    pub output_x: i32,
    pub output_y: i32,
}

/// A caret position relative to its toplevel window, with the sample's
/// age in milliseconds.
#[derive(Debug, Clone, Copy, PartialEq, Eq)]
pub struct CaretHint {
    pub x: i32,
    pub y: i32,
    pub height: u32,
    pub age_ms: u64,
}

/// Where the tooltip should appear.
#[derive(Debug, Clone, PartialEq, Eq)]
pub enum PopupAnchor {
    /// A point in global compositor coordinates — the caret — with the
    /// caret's line height.
    Point { x: i32, y: i32, height: u32, output: Option<String>, output_x: i32, output_y: i32 },
    /// Geometry of the focused window.
    WindowRect {
        x: i32,
        y: i32,
        width: u32,
        height: u32,
        output: Option<String>,
        output_x: i32,
        output_y: i32,
    },
    /// Nothing known about the focused window — bottom-centre of the
    /// output named (or the compositor's choice when `None`).
    ScreenBottom { output: Option<String> },
}

/// What the user did with the tooltip.
#[derive(Debug, Clone, Copy, PartialEq, Eq)]
pub enum PopupUiEvent {
    /// An entry was clicked.
    Accepted { generation: u64, index: usize },
    /// The tooltip hid itself after its timeout elapsed.
    TimedOut { generation: u64 },
}

/// One caret-position fix, relative to the caret's toplevel window.
#[derive(Debug, Clone, Copy)]
pub struct CaretSample {
    pub x: i32,
    pub y: i32,
    pub height: u32,
    pub at: Instant,
}

/// A glyph rectangle as AT-SPI reports it: x, y, width, height.
pub type Extents = (i32, i32, i32, i32);

/// `a + b` clamped to the `i32` range.
pub open spec fn sat_add(a: i32, b: i32) -> i32 {
    if a + b > i32::MAX {
        i32::MAX
    } else if a + b < i32::MIN {
        i32::MIN
    } else {
        (a + b) as i32
    }
}

pub fn saturating_add_i32(a: i32, b: i32) -> (r: i32)
    ensures
        r == sat_add(a, b),
{
    let s = a as i64 + b as i64;
    if s > 0x7fff_ffff {
        0x7fff_ffff
    } else if s < -0x8000_0000 {
        -0x8000_0000
    } else {
        s as i32
    }
}

/// Whether a caret hint is trustworthy for this window: fresh enough,
/// and inside the window's own extent (a broken a11y bridge answering
/// in screen coordinates lands outside it).
pub open spec fn caret_usable(g: FocusedWindowGeometry, c: CaretHint) -> bool {
    &&& c.age_ms <= CARET_MAX_AGE_MS
    &&& 0 <= c.x && c.x <= g.width
    &&& 0 <= c.y && c.y <= g.height
}

/// The anchor chain: the caret composed with the live window rect when
/// it is usable, the window otherwise, the screen bottom when no window
/// is known.
pub open spec fn anchor_for(g: Option<FocusedWindowGeometry>, c: Option<CaretHint>) -> PopupAnchor {
    match g {
        None => PopupAnchor::ScreenBottom { output: None },
        Some(g) => match c {
            Some(c) if caret_usable(g, c) => PopupAnchor::Point {
                x: sat_add(g.x, c.x),
                y: sat_add(g.y, c.y),
                height: c.height,
                output: g.output,
                output_x: g.output_x,
                output_y: g.output_y,
            },
            _ => PopupAnchor::WindowRect {
                x: g.x,
                y: g.y,
                width: g.width,
                height: g.height,
                output: g.output,
                output_x: g.output_x,
                output_y: g.output_y,
            },
        },
    }
}

/// Resolve where the tooltip goes from the focused window's geometry and
/// the latest caret hint (window-relative).
pub fn resolve_anchor(geometry: Option<FocusedWindowGeometry>, caret: Option<CaretHint>) -> (r:
    PopupAnchor)
    ensures
        r == anchor_for(geometry, caret),
{
    match geometry {
        None => PopupAnchor::ScreenBottom { output: None },
        Some(g) => {
            let usable = match &caret {
                Some(c) => c.age_ms <= CARET_MAX_AGE_MS && 0 <= c.x && (c.x as i64) <= (
                g.width as i64) && 0 <= c.y && (c.y as i64) <= (g.height as i64),
                None => false,
            };
            if usable {
                let c = caret.unwrap();
                PopupAnchor::Point {
                    x: saturating_add_i32(g.x, c.x),
                    y: saturating_add_i32(g.y, c.y),
                    height: c.height,
                    output: g.output,
                    output_x: g.output_x,
                    output_y: g.output_y,
                }
            } else {
                PopupAnchor::WindowRect {
                    x: g.x,
                    y: g.y,
                    width: g.width,
                    height: g.height,
                    output: g.output,
                    output_x: g.output_x,
                    output_y: g.output_y,
                }
            }
        },
    }
}

/// The fallbacks of the anchor chain: with no window the tooltip goes
/// to the screen bottom; a caret hint that is missing, older than
/// [`CARET_MAX_AGE_MS`] or outside the window never moves the tooltip
/// off the window rect; a usable one is always used.
pub proof fn lemma_anchor_fallbacks(g: Option<FocusedWindowGeometry>, c: Option<CaretHint>)
    ensures
        g is None ==> anchor_for(g, c) is ScreenBottom,
        g is Some && (c is None || !caret_usable(g->0, c->0)) ==> anchor_for(g, c) is WindowRect,
        g is Some && c is Some && c->0.age_ms > CARET_MAX_AGE_MS ==> anchor_for(g, c) is WindowRect,
        g is Some && c is Some && caret_usable(g->0, c->0) ==> anchor_for(g, c) is Point,
{
}

impl CaretSample {
    /// The public view of the sample; its age is measured now, so the
    /// caller can judge staleness.
    pub fn into_hint(self) -> (h: CaretHint)
        ensures
            h.x == self.x,
            h.y == self.y,
            h.height == self.height,
    {
        CaretHint { x: self.x, y: self.y, height: self.height, age_ms: elapsed_ms(&self.at) }
    }
}

/// A zero-area rect: no glyph at that offset (the end-of-text caret, or
/// an object that cannot answer). A zero width alone is legitimate.
pub fn is_degenerate(rect: Extents) -> (r: bool)
    ensures
        r == (rect.2 == 0 && rect.3 == 0),
{
    rect.2 == 0 && rect.3 == 0
}

/// The offset to retry with when the event offset has no glyph: the
/// character before the caret, if there is one.
pub fn retry_offset(offset: i32) -> (r: Option<i32>)
    ensures
        r == (if offset > 0 {
            Some((offset - 1) as i32)
        } else {
            None::<i32>
        }),
{
    if offset > 0 {
        Some(offset - 1)
    } else {
        None
    }
}

/// Collapse a glyph rect to the tooltip anchor point. `right_edge`
/// selects the rect's right edge — used when the rect belongs to the
/// character before the caret. A negative height reads as zero.
pub fn anchor_from_rect(rect: Extents, right_edge: bool) -> (r: (i32, i32, u32))
    ensures
        r.0 == (if right_edge {
            sat_add(rect.0, rect.2)
        } else {
            rect.0
        }),
        r.1 == rect.1,
        r.2 == (if rect.3 > 0 {
            rect.3 as u32
        } else {
            0u32
        }),
{
    let (x, y, width, height) = rect;
    let anchor_x = if right_edge {
        saturating_add_i32(x, width)
    } else {
        x
    };
    let h: u32 = if height > 0 {
        height as u32
    } else {
        0
    };
    (anchor_x, y, h)
}

/// Which answer a caret probe is waiting for.
#[derive(Debug, Clone, Copy, PartialEq, Eq)]
pub enum CaretProbe {
    /// The glyph rect at the event's offset.
    AtOffset(i32),
    /// The glyph rect of the character before it.
    AtPrevious,
    /// The accessible's own idea of the caret offset.
    AtProperty,
    /// The glyph rect at that offset.
    AtCaret,
}

/// What the probe asks the accessibility bus next.
#[derive(Debug, Clone, Copy, PartialEq, Eq)]
pub enum CaretQuery {
    /// `GetCharacterExtents` at this offset.
    Extents(i32),
    /// The `CaretOffset` property.
    CaretOffset,
}

/// The bus's answer to the last query (`None`: the call failed).
#[derive(Debug, Clone, Copy, PartialEq, Eq)]
pub enum CaretAnswer {
    Extents(Option<Extents>),
    Offset(Option<i32>),
}

/// One step of turning a caret event into a screen point.
#[derive(Debug, Clone, Copy, PartialEq, Eq)]
pub enum ProbeStep {
    Ask(CaretProbe, CaretQuery),
    Done(Option<(i32, i32, u32)>),
}

/// A usable glyph rect: present and not degenerate.
pub open spec fn usable_rect(a: CaretAnswer) -> bool {
    a matches CaretAnswer::Extents(Some(r)) && !(r.2 == 0 && r.3 == 0)
}

pub open spec fn rect_point(a: CaretAnswer, right_edge: bool) -> (i32, i32, u32) {
    match a {
        CaretAnswer::Extents(Some(r)) => (
            if right_edge {
                sat_add(r.0, r.2)
            } else {
                r.0
            },
            r.1,
            if r.3 > 0 {
                r.3 as u32
            } else {
                0u32
            },
        ),
        _ => (0, 0, 0),
    }
}

/// The probe's next step after `answer` while waiting in `state`: the
/// event's own glyph; failing that the previous glyph's right edge (the
/// caret after the last character has no glyph of its own); failing
/// that the glyph at the offset the accessible reports now. A wrong
/// kind of answer ends the probe with nothing.
pub open spec fn probe_next(state: CaretProbe, answer: CaretAnswer) -> ProbeStep {
    match state {
        CaretProbe::AtOffset(o) => if usable_rect(answer) {
            ProbeStep::Done(Some(rect_point(answer, false)))
        } else if o > 0 {
            ProbeStep::Ask(CaretProbe::AtPrevious, CaretQuery::Extents((o - 1) as i32))
        } else {
            ProbeStep::Ask(CaretProbe::AtProperty, CaretQuery::CaretOffset)
        },
        CaretProbe::AtPrevious => if usable_rect(answer) {
            ProbeStep::Done(Some(rect_point(answer, true)))
        } else {
            ProbeStep::Ask(CaretProbe::AtProperty, CaretQuery::CaretOffset)
        },
        CaretProbe::AtProperty => match answer {
            CaretAnswer::Offset(Some(c)) => ProbeStep::Ask(CaretProbe::AtCaret, CaretQuery::Extents(c)),
            _ => ProbeStep::Done(None),
        },
        CaretProbe::AtCaret => if usable_rect(answer) {
            ProbeStep::Done(Some(rect_point(answer, false)))
        } else {
            ProbeStep::Done(None)
        },
    }
}

/// The first question for a caret event at `offset`.
pub fn caret_probe_start(offset: i32) -> (r: ProbeStep)
    ensures
        r == ProbeStep::Ask(CaretProbe::AtOffset(offset), CaretQuery::Extents(offset)),
{
    ProbeStep::Ask(CaretProbe::AtOffset(offset), CaretQuery::Extents(offset))
}

fn answer_rect(answer: CaretAnswer) -> (r: Option<Extents>)
    ensures
        match r {
            Some(rect) => usable_rect(answer) && answer == CaretAnswer::Extents(Some(rect)),
            None => !usable_rect(answer),
        },
{
    match answer {
        CaretAnswer::Extents(Some(rect)) => if is_degenerate(rect) {
            None
        } else {
            Some(rect)
        },
        _ => None,
    }
}

/// Feed the bus's answer to the probe waiting in `state`.
pub fn caret_probe_step(state: CaretProbe, answer: CaretAnswer) -> (r: ProbeStep)
    ensures
        r == probe_next(state, answer),
{
    match state {
        CaretProbe::AtOffset(o) => match answer_rect(answer) {
            Some(rect) => ProbeStep::Done(Some(anchor_from_rect(rect, false))),
            None => match retry_offset(o) {
                Some(p) => ProbeStep::Ask(CaretProbe::AtPrevious, CaretQuery::Extents(p)),
                None => ProbeStep::Ask(CaretProbe::AtProperty, CaretQuery::CaretOffset),
            },
        },
        CaretProbe::AtPrevious => match answer_rect(answer) {
            Some(rect) => ProbeStep::Done(Some(anchor_from_rect(rect, true))),
            None => ProbeStep::Ask(CaretProbe::AtProperty, CaretQuery::CaretOffset),
        },
        CaretProbe::AtProperty => match answer {
            CaretAnswer::Offset(Some(c)) => ProbeStep::Ask(CaretProbe::AtCaret, CaretQuery::Extents(c)),
            _ => ProbeStep::Done(None),
        },
        CaretProbe::AtCaret => match answer_rect(answer) {
            Some(rect) => ProbeStep::Done(Some(anchor_from_rect(rect, false))),
            None => ProbeStep::Done(None),
        },
    }
}

/// How many more questions a probe waiting in `state` can ask at most.
pub open spec fn probe_budget(state: CaretProbe) -> nat {
    match state {
        CaretProbe::AtOffset(_) => 3,
        CaretProbe::AtPrevious => 2,
        CaretProbe::AtProperty => 1,
        CaretProbe::AtCaret => 0,
    }
}

/// A caret probe always ends: every answer either finishes it or moves
/// it to a state with fewer questions left, so one event costs at most
/// four bus calls.
pub proof fn lemma_probe_terminates(state: CaretProbe, answer: CaretAnswer)
    ensures
        probe_next(state, answer) matches ProbeStep::Ask(next, _) ==> probe_budget(next)
            < probe_budget(state),
{
}

/// Rust's `/ 2` on an integer: rounds toward zero.
pub open spec fn half_toward_zero(a: int) -> int {
    if a >= 0 {
        a / 2
    } else {
        -((-a) / 2)
    }
}

pub open spec fn clamp_int(v: int, lo: int, hi: int) -> int {
    if v < lo {
        lo
    } else if v > hi {
        hi
    } else {
        v
    }
}

/// Output-local top-left of a tooltip anchored to a window: centred
/// horizontally on it, bottom edge [`BOTTOM_OFFSET`] above the window's
/// bottom, and kept on the output when its logical size is known.
pub open spec fn window_placement(
    x: i32,
    y: i32,
    width: u32,
    height: u32,
    output_x: i32,
    output_y: i32,
    logical_w: u32,
    logical_h: u32,
    output_size: Option<(i32, i32)>,
) -> (int, int) {
    let w = width as i32;
    let h = height as i32;
    let lw = logical_w as i32;
    let lh = logical_h as i32;
    let lx = (x - output_x) + half_toward_zero(w - lw);
    let ly = (y - output_y) + h - BOTTOM_OFFSET - lh;
    match output_size {
        Some((out_w, out_h)) => {
            let mx = if out_w - lw > 0 {
                out_w - lw
            } else {
                0
            };
            let my = if out_h - lh > 0 {
                out_h - lh
            } else {
                0
            };
            (clamp_int(lx, 0, mx), clamp_int(ly, 0, my))
        },
        None => (
            if lx > 0 {
                lx
            } else {
                0
            },
            if ly > 0 {
                ly
            } else {
                0
            },
        ),
    }
}

pub open spec fn fits_i32(v: int) -> bool {
    i32::MIN <= v && v <= i32::MAX
}

/// [`window_placement`] in `i32` arithmetic (sizes taken `as i32`), for
/// the inputs on which every intermediate value fits: elsewhere the
/// `i32` arithmetic overflows.
pub fn place_window_rect(
    x: i32,
    y: i32,
    width: u32,
    height: u32,
    output_x: i32,
    output_y: i32,
    logical_w: u32,
    logical_h: u32,
    output_size: Option<(i32, i32)>,
) -> (r: (i32, i32))
    requires
        fits_i32(x - output_x),
        fits_i32(y - output_y),
        fits_i32((width as i32) - (logical_w as i32)),
        fits_i32((x - output_x) + half_toward_zero((width as i32) - (logical_w as i32))),
        fits_i32((y - output_y) + (height as i32)),
        fits_i32((y - output_y) + (height as i32) - BOTTOM_OFFSET),
        fits_i32((y - output_y) + (height as i32) - BOTTOM_OFFSET - (logical_h as i32)),
        output_size matches Some((ow, oh)) ==> fits_i32(ow - (logical_w as i32)) && fits_i32(
            oh - (logical_h as i32),
        ),
    ensures
        (r.0 as int, r.1 as int) == window_placement(
            x,
            y,
            width,
            height,
            output_x,
            output_y,
            logical_w,
            logical_h,
            output_size,
        ),
{
    let w = width as i32;
    let lw = logical_w as i32;
    let d = w - lw;
    let d64 = d as i64;
    let half = (if d64 >= 0 {
        d64 / 2
    } else {
        -((-d64) / 2)
    }) as i32;
    let mut local_x = (x - output_x) + half;
    let mut local_y = (y - output_y) + height as i32 - BOTTOM_OFFSET - logical_h as i32;
    match output_size {
        Some((out_w, out_h)) => {
            let dx = out_w - lw;
            let mx = if dx > 0 {
                dx
            } else {
                0
            };
            let dy = out_h - logical_h as i32;
            let my = if dy > 0 {
                dy
            } else {
                0
            };
            if local_x < 0 {
                local_x = 0;
            } else if local_x > mx {
                local_x = mx;
            }
            if local_y < 0 {
                local_y = 0;
            } else if local_y > my {
                local_y = my;
            }
        },
        None => {
            if local_x < 0 {
                local_x = 0;
            }
            if local_y < 0 {
                local_y = 0;
            }
        },
    }
    (local_x, local_y)
}

/// Pixel `k` of `dst` is pixel `k` of `src` with red and blue swapped.
pub open spec fn pixel_swapped(src: Seq<u8>, dst: Seq<u8>, k: int) -> bool {
    &&& dst[4 * k] == src[4 * k + 2]
    &&& dst[4 * k + 1] == src[4 * k + 1]
    &&& dst[4 * k + 2] == src[4 * k]
    &&& dst[4 * k + 3] == src[4 * k + 3]
}

/// Rendered premultiplied RGBA pixels as `wl_shm` ARGB8888 (little-endian
/// B, G, R, A bytes), one whole pixel at a time.
pub fn rgba_to_argb8888(src: &Vec<u8>) -> (dst: Vec<u8>)
    ensures
        dst.len() == src.len() / 4 * 4,
        forall|k: int| 0 <= k < src.len() / 4 ==> #[trigger] pixel_swapped(src@, dst@, k),
{
    let pixels = src.len() / 4;
    let mut dst: Vec<u8> = Vec::new();
    let mut p: usize = 0;
    while p < pixels
        invariant
            pixels == src.len() / 4,
            0 <= p <= pixels,
            dst.len() == 4 * p,
            forall|k: int| 0 <= k < p ==> #[trigger] pixel_swapped(src@, dst@, k),
        decreases pixels - p,
    {
        let b = 4 * p;
        let ghost before = dst@;
        dst.push(src[b + 2]);
        dst.push(src[b + 1]);
        dst.push(src[b]);
        dst.push(src[b + 3]);
        assert forall|k: int| 0 <= k < p + 1 implies #[trigger] pixel_swapped(src@, dst@, k) by {
            if k < p {
                assert(pixel_swapped(src@, before, k));
                assert(dst@[4 * k] == before[4 * k]);
                assert(dst@[4 * k + 1] == before[4 * k + 1]);
                assert(dst@[4 * k + 2] == before[4 * k + 2]);
                assert(dst@[4 * k + 3] == before[4 * k + 3]);
            }
        }
        p += 1;
    }
    dst
}

} // verus!
