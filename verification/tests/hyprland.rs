//! The Hyprland IPC reply parsers.

use poltertype::hyprland::{
    focused_geometry, is_refusal, parse_active_window, parse_active_window_rect, parse_monitors,
    parse_pair, HyprMonitor,
};

const ACTIVE: &str = "Window 55d3a0 -> ~:\n\tmapped: 1\n\tat: 1280,40\n\tsize: 1270,1350\n\tworkspace: 1 (1)\n\tmonitor: 1\n\tclass: kitty\n\ttitle: ~\n\tinitialClass: kitty\n\tpid: 4242\n";

#[test]
fn active_window_pid_and_class() {
    assert_eq!(parse_active_window(ACTIVE), (Some(4242), Some("kitty".to_string())));
    assert_eq!(parse_active_window("Invalid\n"), (None, None));
    assert_eq!(parse_active_window("pid: -1\nclass:   \n"), (None, None));
    assert_eq!(parse_active_window("pid: 99999999999\n"), (None, None));
}

#[test]
fn active_window_rect_needs_all_three_lines() {
    assert_eq!(parse_active_window_rect(ACTIVE), Some((1280, 40, 1270, 1350, 1)));
    assert_eq!(parse_active_window_rect("at: 1,2\nsize: 3,4\n"), None);
    assert_eq!(parse_active_window_rect("at: 1,2\nsize: -3,4\nmonitor: 0\n"), None);
}

#[test]
fn pairs_split_at_the_first_separator() {
    assert_eq!(parse_pair(" 11, 22 ", ','), Some((11, 22)));
    assert_eq!(parse_pair("2560x-200", 'x'), Some((2560, -200)));
    assert_eq!(parse_pair("1,2,3", ','), None);
    assert_eq!(parse_pair("12", ','), None);
}

#[test]
fn monitors_give_names_ids_and_origins() {
    let reply = "Monitor eDP-1 (ID 0):\n\t2560x1440@165.00000 at 0x0\n\tdescription: x at y\nMonitor DP-3 (ID 1):\n\t2560x1440@59.95100 at 2560x-200\nMonitor broken (ID x):\n\t1x1@1 at 5x5\n";
    assert_eq!(
        parse_monitors(reply),
        vec![
            HyprMonitor { id: 0, name: "eDP-1".into(), x: 0, y: 0 },
            HyprMonitor { id: 1, name: "DP-3".into(), x: 2560, y: -200 },
        ]
    );
}

#[test]
fn geometry_joins_the_window_with_its_monitor() {
    let monitors = "Monitor eDP-1 (ID 0):\n\t2560x1440@165.00000 at 0x0\nMonitor DP-3 (ID 1):\n\t2560x1440@60.00000 at 2560x0\n";
    let g = focused_geometry(ACTIVE, Some(monitors)).expect("a rect");
    assert_eq!((g.x, g.y, g.width, g.height), (1280, 40, 1270, 1350));
    assert_eq!(g.output.as_deref(), Some("DP-3"));
    assert_eq!((g.output_x, g.output_y), (2560, 0));
    let g = focused_geometry(ACTIVE, Some("Monitor eDP-1 (ID 0):\n\t1x1@1 at 0x0\n")).expect("a rect");
    assert_eq!((g.output, g.output_x, g.output_y), (None, 0, 0));
    let g = focused_geometry(ACTIVE, None).expect("a rect");
    assert_eq!(g.output, None);
    assert!(focused_geometry("Invalid\n", Some(monitors)).is_none());
}

#[test]
fn refusals_are_recognised() {
    assert!(is_refusal("  unknown request\n"));
    assert!(!is_refusal("Window 1 -> x:\n"));
    assert!(!is_refusal("unknown"));
}
