//! Parsing Hyprland's plain-text IPC replies for the focus tracker:
//! `activewindow` (owner, class and rectangle of the focused window)
//! and `monitors` (output names and positions).
//!
//! Fetching the replies is socket and process I/O; what stands here is
//! what the tracker reads out of them.

use vstd::prelude::*;

use crate::anchor::FocusedWindowGeometry;

use crate::text::{
    chars_of, lines, lines_of, parse_i64, parse_i64_chars, split_once, split_once_chars,
    starts_with_at, string_of, strip_prefix, strip_prefix_chars, strip_suffix, strip_suffix_chars,
    trim, trim_chars, trim_end, trim_end_chars, trim_start, trim_start_chars, views, occurs_at,
};

verus! {

/// One entry of the `monitors` reply, reduced to logical coordinates.
#[derive(Debug, Clone, PartialEq)]
pub struct HyprMonitor {
    pub id: i64,
    pub name: String,
    /// Global logical position (`... at XxY`).
    pub x: i32,
    pub y: i32,
}

/// A monitor as plain values: id, name, x, y.
pub type MonitorView = (i64, Seq<char>, i32, i32);

pub open spec fn monitor_view(m: HyprMonitor) -> MonitorView {
    (m.id, m.name@, m.x, m.y)
}

pub open spec fn pid_tag() -> Seq<char> {
    seq!['p', 'i', 'd', ':']
}

pub open spec fn class_tag() -> Seq<char> {
    seq!['c', 'l', 'a', 's', 's', ':']
}

pub open spec fn at_tag() -> Seq<char> {
    seq!['a', 't', ':']
}

pub open spec fn size_tag() -> Seq<char> {
    seq!['s', 'i', 'z', 'e', ':']
}

pub open spec fn monitor_tag() -> Seq<char> {
    seq!['m', 'o', 'n', 'i', 't', 'o', 'r', ':']
}

/// `"Monitor "`, the header of one block of the `monitors` reply.
pub open spec fn block_tag() -> Seq<char> {
    seq!['M', 'o', 'n', 'i', 't', 'o', 'r', ' ']
}

pub open spec fn id_open() -> Seq<char> {
    seq![' ', '(', 'I', 'D', ' ']
}

pub open spec fn id_close() -> Seq<char> {
    seq![')', ':']
}

pub open spec fn at_sep() -> Seq<char> {
    seq![' ', 'a', 't', ' ']
}

/// `"11, 22"` with separator `sep` → `(11, 22)`: split at the first
/// separator of the trimmed text, both halves trimmed and read as `i64`.
pub open spec fn pair_of(s: Seq<char>, sep: char) -> Option<(i64, i64)> {
    match split_once(trim(s), seq![sep]) {
        Some((a, b)) => match (parse_i64(trim(a)), parse_i64(trim(b))) {
            (Some(x), Some(y)) => Some((x, y)),
            _ => None,
        },
        None => None,
    }
}

/// A window owner's pid: a positive integer that fits in `u32`.
pub open spec fn pid_of(s: Seq<char>) -> Option<u32> {
    match parse_i64(trim(s)) {
        Some(p) => if 0 < p && p <= u32::MAX {
            Some(p as u32)
        } else {
            None
        },
        None => None,
    }
}

/// One line of an `activewindow` reply applied to (pid, class): the
/// last `pid:` line wins, and a `class:` line with a non-empty value.
pub open spec fn window_step(st: (Option<u32>, Option<Seq<char>>), line: Seq<char>) -> (
    Option<u32>,
    Option<Seq<char>>,
) {
    let l = trim(line);
    match strip_prefix(l, pid_tag()) {
        Some(v) => (pid_of(v), st.1),
        None => match strip_prefix(l, class_tag()) {
            Some(v) => if trim(v).len() > 0 {
                (st.0, Some(trim(v)))
            } else {
                st
            },
            None => st,
        },
    }
}

pub open spec fn window_fold(ls: Seq<Seq<char>>) -> (Option<u32>, Option<Seq<char>>)
    decreases ls.len(),
{
    if ls.len() == 0 {
        (None, None)
    } else {
        window_step(window_fold(ls.drop_last()), ls.last())
    }
}

pub type RectState = (Option<(i64, i64)>, Option<(i64, i64)>, Option<i64>);

/// One line of an `activewindow` reply applied to (at, size, monitor):
/// each keeps the last line of its kind.
pub open spec fn rect_step(st: RectState, line: Seq<char>) -> RectState {
    let l = trim(line);
    match strip_prefix(l, at_tag()) {
        Some(v) => (pair_of(v, ','), st.1, st.2),
        None => match strip_prefix(l, size_tag()) {
            Some(v) => (st.0, pair_of(v, ','), st.2),
            None => match strip_prefix(l, monitor_tag()) {
                Some(v) => (st.0, st.1, parse_i64(trim(v))),
                None => st,
            },
        },
    }
}

pub open spec fn rect_fold(ls: Seq<Seq<char>>) -> RectState
    decreases ls.len(),
{
    if ls.len() == 0 {
        (None, None, None)
    } else {
        rect_step(rect_fold(ls.drop_last()), ls.last())
    }
}

/// The window rectangle: every one of `at`, `size` and `monitor`
/// present, and the size non-negative and within `u32`.
pub open spec fn rect_of(st: RectState) -> Option<(i32, i32, u32, u32, i64)> {
    match st {
        (Some((x, y)), Some((w, h)), Some(m)) => if 0 <= w && w <= u32::MAX && 0 <= h && h
            <= u32::MAX {
            Some((x as i32, y as i32, w as u32, h as u32, m))
        } else {
            None
        },
        _ => None,
    }
}

pub type MonitorState = (Seq<MonitorView>, Option<(i64, Seq<char>)>);

/// `NAME (ID N):` after the `"Monitor "` header tag.
pub open spec fn header_of(rest: Seq<char>) -> Option<(i64, Seq<char>)> {
    match split_once(rest, id_open()) {
        Some((name, id_part)) => match strip_suffix(trim_end(id_part), id_close()) {
            Some(x) => match parse_i64(trim(x)) {
                Some(id) => Some((id, trim(name))),
                None => None,
            },
            None => None,
        },
        None => None,
    }
}

/// One line of a `monitors` reply: a header opens a block; the first
/// body line carrying ` at ` closes it, recording the position when it
/// parses as `XxY`.
pub open spec fn monitor_step(st: MonitorState, line: Seq<char>) -> MonitorState {
    match strip_prefix(line, block_tag()) {
        Some(rest) => (st.0, header_of(rest)),
        None => match st.1 {
            Some((id, name)) => match split_once(trim(line), at_sep()) {
                Some((_, pos)) => match pair_of(pos, 'x') {
                    Some((x, y)) => (st.0.push((id, name, x as i32, y as i32)), None),
                    None => (st.0, None),
                },
                None => st,
            },
            None => st,
        },
    }
}

pub open spec fn monitor_fold(ls: Seq<Seq<char>>) -> MonitorState
    decreases ls.len(),
{
    if ls.len() == 0 {
        (Seq::empty(), None)
    } else {
        monitor_step(monitor_fold(ls.drop_last()), ls.last())
    }
}

fn pair_of_chars(v: &Vec<char>, sep: char) -> (r: Option<(i64, i64)>)
    ensures
        r == pair_of(v@, sep),
{
    let t = trim_chars(v);
    let s = vec![sep];
    assert(s@ =~= seq![sep]);
    match split_once_chars(&t, &s) {
        Some((a, b)) => {
            let ta = trim_chars(&a);
            let tb = trim_chars(&b);
            match (parse_i64_chars(&ta), parse_i64_chars(&tb)) {
                (Some(x), Some(y)) => Some((x, y)),
                _ => None,
            }
        },
        None => None,
    }
}

/// `"11, 22"` with the given separator → `(11, 22)`.
pub fn parse_pair(v: &str, sep: char) -> (r: Option<(i64, i64)>)
    ensures
        r == pair_of(v@, sep),
{
    let c = chars_of(v);
    pair_of_chars(&c, sep)
}

fn pid_chars(v: &Vec<char>) -> (r: Option<u32>)
    ensures
        r == pid_of(v@),
{
    let t = trim_chars(v);
    match parse_i64_chars(&t) {
        Some(p) => if 0 < p && p <= 0xffff_ffff {
            Some(p as u32)
        } else {
            None
        },
        None => None,
    }
}

/// Pull `pid:` and `class:` out of the plain-text `activewindow` block.
/// Hyprland answers `Invalid` when no window is focused, which parses
/// to `(None, None)`. `initialClass:` is deliberately not matched:
/// `class:` tracks what the window says about itself now.
pub fn parse_active_window(reply: &str) -> (r: (Option<u32>, Option<String>))
    ensures
        (r.0, match r.1 {
            Some(c) => Some(c@),
            None => None,
        }) == window_fold(lines(reply@)),
{
    let text = chars_of(reply);
    let ls = lines_of(&text);
    let pid_t = vec!['p', 'i', 'd', ':'];
    let class_t = vec!['c', 'l', 'a', 's', 's', ':'];
    assert(pid_t@ =~= pid_tag());
    assert(class_t@ =~= class_tag());
    let mut pid: Option<u32> = None;
    let mut class: Option<Vec<char>> = None;
    let n = ls.len();
    let mut i: usize = 0;
    while i < n
        invariant
            n == ls.len(),
            0 <= i <= n,
            views(ls@) == lines(reply@),
            pid_t@ == pid_tag(),
            class_t@ == class_tag(),
            (pid, match class {
                Some(c) => Some(c@),
                None => None,
            }) == window_fold(views(ls@).take(i as int)),
        decreases n - i,
    {
        let ghost ts = views(ls@).take(i as int + 1);
        assert(ts.drop_last() =~= views(ls@).take(i as int));
        assert(ts.last() == ls@[i as int]@);
        let line = trim_chars(&ls[i]);
        match strip_prefix_chars(&line, &pid_t) {
            Some(v) => {
                pid = pid_chars(&v);
            },
            None => {
                match strip_prefix_chars(&line, &class_t) {
                    Some(v) => {
                        let tv = trim_chars(&v);
                        if tv.len() > 0 {
                            class = Some(tv);
                        }
                    },
                    None => {},
                }
            },
        }
        i += 1;
    }
    assert(views(ls@).take(n as int) =~= views(ls@));
    let class_s = match class {
        Some(c) => Some(string_of(&c)),
        None => None,
    };
    (pid, class_s)
}

/// Window rect (global logical coordinates) and owning monitor id from
/// the `at: x,y`, `size: w,h` and `monitor: N` lines of an
/// `activewindow` block. `None` when any of the three is missing — a
/// partial answer would misplace the tooltip.
pub fn parse_active_window_rect(reply: &str) -> (r: Option<(i32, i32, u32, u32, i64)>)
    ensures
        r == rect_of(rect_fold(lines(reply@))),
{
    let text = chars_of(reply);
    let ls = lines_of(&text);
    let at_t = vec!['a', 't', ':'];
    let size_t = vec!['s', 'i', 'z', 'e', ':'];
    let mon_t = vec!['m', 'o', 'n', 'i', 't', 'o', 'r', ':'];
    assert(at_t@ =~= at_tag());
    assert(size_t@ =~= size_tag());
    assert(mon_t@ =~= monitor_tag());
    let mut at: Option<(i64, i64)> = None;
    let mut size: Option<(i64, i64)> = None;
    let mut monitor: Option<i64> = None;
    let n = ls.len();
    let mut i: usize = 0;
    while i < n
        invariant
            n == ls.len(),
            0 <= i <= n,
            views(ls@) == lines(reply@),
            at_t@ == at_tag(),
            size_t@ == size_tag(),
            mon_t@ == monitor_tag(),
            (at, size, monitor) == rect_fold(views(ls@).take(i as int)),
        decreases n - i,
    {
        let ghost ts = views(ls@).take(i as int + 1);
        assert(ts.drop_last() =~= views(ls@).take(i as int));
        assert(ts.last() == ls@[i as int]@);
        let line = trim_chars(&ls[i]);
        match strip_prefix_chars(&line, &at_t) {
            Some(v) => {
                at = pair_of_chars(&v, ',');
            },
            None => match strip_prefix_chars(&line, &size_t) {
                Some(v) => {
                    size = pair_of_chars(&v, ',');
                },
                None => match strip_prefix_chars(&line, &mon_t) {
                    Some(v) => {
                        let tv = trim_chars(&v);
                        monitor = parse_i64_chars(&tv);
                    },
                    None => {},
                },
            },
        }
        i += 1;
    }
    assert(views(ls@).take(n as int) =~= views(ls@));
    match (at, size, monitor) {
        (Some((x, y)), Some((w, h)), Some(m)) => {
            if 0 <= w && w <= 0xffff_ffff && 0 <= h && h <= 0xffff_ffff {
                Some((x as i32, y as i32, w as u32, h as u32, m))
            } else {
                None
            }
        },
        _ => None,
    }
}

fn header_chars(rest: &Vec<char>) -> (r: Option<(i64, Vec<char>)>)
    ensures
        match r {
            Some((id, name)) => header_of(rest@) == Some((id, name@)),
            None => header_of(rest@) is None,
        },
{
    let open = vec![' ', '(', 'I', 'D', ' '];
    let close = vec![')', ':'];
    assert(open@ =~= id_open());
    assert(close@ =~= id_close());
    match split_once_chars(rest, &open) {
        Some((name, id_part)) => {
            let te = trim_end_chars(&id_part);
            match strip_suffix_chars(&te, &close) {
                Some(x) => {
                    let tx = trim_chars(&x);
                    match parse_i64_chars(&tx) {
                        Some(id) => Some((id, trim_chars(&name))),
                        None => None,
                    }
                },
                None => None,
            }
        },
        None => None,
    }
}

/// Parse the plain-text `monitors` reply. Block headers look like
/// `Monitor eDP-1 (ID 0):`; the next line carrying ` at ` holds the
/// global position: `2560x1440@165.00000 at 0x0`. Only the name, id
/// and position are extracted.
pub fn parse_monitors(reply: &str) -> (r: Vec<HyprMonitor>)
    ensures
        r@.map_values(|m: HyprMonitor| monitor_view(m)) == monitor_fold(lines(reply@)).0,
{
    let text = chars_of(reply);
    let ls = lines_of(&text);
    let block = vec!['M', 'o', 'n', 'i', 't', 'o', 'r', ' '];
    let sep = vec![' ', 'a', 't', ' '];
    assert(block@ =~= block_tag());
    assert(sep@ =~= at_sep());
    let mut out: Vec<HyprMonitor> = Vec::new();
    let mut current: Option<(i64, Vec<char>)> = None;
    let n = ls.len();
    let mut i: usize = 0;
    while i < n
        invariant
            n == ls.len(),
            0 <= i <= n,
            views(ls@) == lines(reply@),
            block@ == block_tag(),
            sep@ == at_sep(),
            (out@.map_values(|m: HyprMonitor| monitor_view(m)), match current {
                Some((id, name)) => Some((id, name@)),
                None => None,
            }) == monitor_fold(views(ls@).take(i as int)),
        decreases n - i,
    {
        let ghost ts = views(ls@).take(i as int + 1);
        assert(ts.drop_last() =~= views(ls@).take(i as int));
        assert(ts.last() == ls@[i as int]@);
        let ghost before = out@.map_values(|m: HyprMonitor| monitor_view(m));
        match strip_prefix_chars(&ls[i], &block) {
            Some(rest) => {
                current = header_chars(&rest);
            },
            None => {
                let (open, id) = match &current {
                    Some((id, _)) => (true, *id),
                    None => (false, 0),
                };
                if open {
                    let t = trim_chars(&ls[i]);
                    match split_once_chars(&t, &sep) {
                        Some((_, pos)) => {
                            match pair_of_chars(&pos, 'x') {
                                Some((x, y)) => {
                                    let name = match &current {
                                        Some((_, nm)) => string_of(nm),
                                        None => String::new(),
                                    };
                                    out.push(HyprMonitor { id, name, x: x as i32, y: y as i32 });
                                    assert(out@.map_values(|m: HyprMonitor| monitor_view(m))
                                        =~= before.push(monitor_view(out@.last())));
                                },
                                None => {},
                            }
                            current = None;
                        },
                        None => {},
                    }
                }
            },
        }
        i += 1;
    }
    assert(views(ls@).take(n as int) =~= views(ls@));
    out
}

/// The first monitor of `ms` with id `id`.
pub open spec fn find_monitor(ms: Seq<MonitorView>, id: i64) -> Option<MonitorView>
    decreases ms.len(),
{
    if ms.len() == 0 {
        None
    } else if ms[0].0 == id {
        Some(ms[0])
    } else {
        find_monitor(ms.drop_first(), id)
    }
}

proof fn lemma_find_monitor(ms: Seq<MonitorView>, id: i64, i: int)
    requires
        0 <= i <= ms.len(),
        forall|j: int| 0 <= j < i ==> (#[trigger] ms[j]).0 != id,
    ensures
        i < ms.len() && ms[i].0 == id ==> find_monitor(ms, id) == Some(ms[i]),
        i == ms.len() ==> find_monitor(ms, id) is None,
    decreases ms.len(),
{
    if ms.len() > 0 && i > 0 {
        assert forall|j: int| 0 <= j < i - 1 implies (#[trigger] ms.drop_first()[j]).0 != id by {
            assert(ms.drop_first()[j] == ms[j + 1]);
        }
        lemma_find_monitor(ms.drop_first(), id, i - 1);
        if i < ms.len() {
            assert(ms.drop_first()[i - 1] == ms[i]);
        }
    }
}

fn monitor_index(ms: &Vec<HyprMonitor>, id: i64) -> (r: Option<usize>)
    ensures
        match r {
            Some(i) => i < ms@.len() && find_monitor(
                ms@.map_values(|m: HyprMonitor| monitor_view(m)),
                id,
            ) == Some(monitor_view(ms@[i as int])),
            None => find_monitor(ms@.map_values(|m: HyprMonitor| monitor_view(m)), id) is None,
        },
{
    let ghost mv = ms@.map_values(|m: HyprMonitor| monitor_view(m));
    let mut i: usize = 0;
    while i < ms.len()
        invariant
            0 <= i <= ms.len(),
            mv == ms@.map_values(|m: HyprMonitor| monitor_view(m)),
            forall|j: int| 0 <= j < i ==> (#[trigger] mv[j]).0 != id,
        decreases ms.len() - i,
    {
        if ms[i].id == id {
            proof {
                lemma_find_monitor(mv, id, i as int);
            }
            return Some(i);
        }
        i += 1;
    }
    proof {
        lemma_find_monitor(mv, id, i as int);
    }
    None
}

/// Where the focused window is, from an `activewindow` reply and, when
/// it could be fetched, a `monitors` reply: the window's rectangle, and
/// the name and origin of the monitor its `monitor:` line names. A
/// monitor that cannot be found leaves the output unknown (origin 0, 0),
/// which lets the compositor pick one; no rectangle, no geometry.
pub fn focused_geometry(active: &str, monitors: Option<&str>) -> (r: Option<FocusedWindowGeometry>)
    ensures
        match rect_of(rect_fold(lines(active@))) {
            None => r is None,
            Some((x, y, w, h, m)) => r matches Some(g) && g.x == x && g.y == y && g.width == w
                && g.height == h && match monitors {
                Some(t) => match find_monitor(monitor_fold(lines(t@)).0, m) {
                    Some((_, name, ox, oy)) => g.output matches Some(o) && o@ == name && g.output_x
                        == ox && g.output_y == oy,
                    None => g.output is None && g.output_x == 0 && g.output_y == 0,
                },
                None => g.output is None && g.output_x == 0 && g.output_y == 0,
            },
        },
{
    let (x, y, width, height, monitor_id) = match parse_active_window_rect(active) {
        Some(rect) => rect,
        None => {
            return None;
        },
    };
    let (output, output_x, output_y) = match monitors {
        Some(text) => {
            let ms = parse_monitors(text);
            match monitor_index(&ms, monitor_id) {
                Some(i) => {
                    let name = chars_of(ms[i].name.as_str());
                    (Some(string_of(&name)), ms[i].x, ms[i].y)
                },
                None => (None, 0, 0),
            }
        },
        None => (None, 0, 0),
    };
    Some(FocusedWindowGeometry { x, y, width, height, output, output_x, output_y })
}

/// Whether the socket refused a request (an older Hyprland that does
/// not know it): the reply starts, after leading whitespace, with
/// `unknown request`. The query then goes through `hyprctl` instead.
pub fn is_refusal(reply: &str) -> (r: bool)
    ensures
        r == occurs_at(trim_start(reply@), "unknown request"@, 0),
{
    let v = chars_of(reply);
    let t = trim_start_chars(&v);
    let p = chars_of("unknown request");
    starts_with_at(&t, &p, 0)
}

} // verus!
