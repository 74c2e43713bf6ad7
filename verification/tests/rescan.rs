//! Rescan bookkeeping: which device nodes to open and which to forget.

use poltertype::rescan::plan_rescan;

fn paths(names: &[&str]) -> Vec<String> {
    names.iter().map(|s| s.to_string()).collect()
}

#[test]
fn rescan_opens_only_genuinely_new_nodes() {
    let known = paths(&["/dev/input/event0", "/dev/input/event1"]);
    let present = paths(&["/dev/input/event0", "/dev/input/event1", "/dev/input/event2"]);

    let (fresh, forgotten) = plan_rescan(&present, &known);

    assert_eq!(fresh, vec!["/dev/input/event2".to_string()]);
    assert!(
        forgotten.is_empty(),
        "re-judging a node costs an open plus a capability read, and most are sound cards"
    );
}

#[test]
fn rescan_forgets_nodes_that_disappeared() {
    let known = paths(&["/dev/input/event0", "/dev/input/event9"]);
    let present = paths(&["/dev/input/event0"]);

    let (fresh, forgotten) = plan_rescan(&present, &known);

    assert!(fresh.is_empty());
    assert_eq!(forgotten, vec!["/dev/input/event9".to_string()]);
}

#[test]
fn a_device_replugged_onto_the_same_node_is_seen_again() {
    let mut known = paths(&["/dev/input/event5"]);

    let (_, forgotten) = plan_rescan(&paths(&[]), &known);
    known.retain(|p| !forgotten.contains(p));

    let (fresh, _) = plan_rescan(&paths(&["/dev/input/event5"]), &known);
    assert_eq!(
        fresh,
        vec!["/dev/input/event5".to_string()],
        "the node is reused, so the device behind it has to be judged afresh"
    );
}

#[test]
fn rescan_keeps_the_order_of_both_lists() {
    let known = paths(&["/dev/input/event3", "/dev/input/event1", "/dev/input/event7"]);
    let present = paths(&["/dev/input/event9", "/dev/input/event1", "/dev/input/event4"]);
    let (fresh, forgotten) = plan_rescan(&present, &known);
    assert_eq!(fresh, paths(&["/dev/input/event9", "/dev/input/event4"]));
    assert_eq!(forgotten, paths(&["/dev/input/event3", "/dev/input/event7"]));
}
