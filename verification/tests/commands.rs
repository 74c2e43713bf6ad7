//! The "Add command" form: validation, id derivation and summaries.

use poltertype::commands::{
    build_command_from_draft, derive_command_id, format_command_summary, looks_like_layout_id,
    CommandAction, CommandActionKind, CommandDraft, UserCommand,
};
use poltertype::layout::LayoutId;

fn cmd(id: &str) -> UserCommand {
    UserCommand {
        id: id.to_string(),
        name: String::new(),
        trigger: "x".to_string(),
        action: CommandAction::TypeText { text: "y".to_string() },
        apps: vec![],
    }
}

fn draft(trigger: &str, param: &str, kind: CommandActionKind, name: &str, apps: &str) -> CommandDraft {
    CommandDraft {
        trigger: trigger.to_string(),
        param: param.to_string(),
        action_kind: kind,
        name: name.to_string(),
        apps: apps.to_string(),
    }
}

#[test]
fn ids_are_kebab_case_of_the_name() {
    let a = CommandAction::TypeText { text: "hi".into() };
    assert_eq!(derive_command_id("My Email  Sig!", &a, &vec![]), "my-email-sig");
    assert_eq!(derive_command_id("ÜberCmd", &a, &vec![]), "bercmd");
}

#[test]
fn names_without_letters_fall_back_to_numbered_cmd_ids() {
    let a = CommandAction::TypeText { text: "t".into() };
    assert_eq!(derive_command_id("  ", &a, &vec![]), "cmd-1");
    assert_eq!(derive_command_id("Привіт", &a, &vec![]), "cmd-1");
    assert_eq!(
        derive_command_id(
            "",
            &CommandAction::SwitchLayout { layout: LayoutId::new("uk-UA".into()) },
            &vec![cmd("cmd-1"), cmd("cmd-3")]
        ),
        "cmd-2"
    );
    assert_eq!(
        derive_command_id("", &CommandAction::OpenPath { path: "/tmp".into() }, &vec![cmd("cmd")]),
        "cmd-1"
    );
}

#[test]
fn ids_never_collide_with_existing_commands() {
    let a = CommandAction::TypeText { text: "hi".into() };
    let existing = vec![cmd("sig"), cmd("sig-2"), cmd("sig-4")];
    assert_eq!(derive_command_id("sig", &a, &existing), "sig-3");
    let existing = vec![cmd("sig"), cmd("sig-2"), cmd("sig-3")];
    assert_eq!(derive_command_id("Sig", &a, &existing), "sig-4");
}

#[test]
fn layout_ids_need_a_dash_and_plain_characters() {
    assert!(looks_like_layout_id("en-US"));
    assert!(looks_like_layout_id("kk-Cyrl-KZ"));
    assert!(!looks_like_layout_id(""));
    assert!(!looks_like_layout_id("english"));
    assert!(!looks_like_layout_id("en US"));
    assert!(!looks_like_layout_id("en_US-x"));
    assert!(!looks_like_layout_id("1-2"), "the first segment is letters");
    assert!(!looks_like_layout_id("abcd-ef"), "the first segment is 2-3 letters");
    assert!(!looks_like_layout_id("e-US"));
    assert!(looks_like_layout_id("fil-PH"));
}

#[test]
fn a_draft_becomes_a_command() {
    let d = draft("  sig ", " Best regards ", CommandActionKind::TypeText, " Email sig ", "thunderbird, , evolution ");
    let c = build_command_from_draft(&d, &vec![]).expect("valid draft");
    assert_eq!(c.id, "email-sig");
    assert_eq!(c.name, "Email sig");
    assert_eq!(c.trigger, "sig");
    assert_eq!(c.action, CommandAction::TypeText { text: "Best regards".into() });
    assert_eq!(c.apps, vec!["thunderbird".to_string(), "evolution".to_string()]);
}

#[test]
fn every_draft_error_has_its_message() {
    let none = vec![];
    assert_eq!(
        build_command_from_draft(&draft(" ", "p", CommandActionKind::TypeText, "", ""), &none),
        Err("Set a trigger first (e.g. `anrl`).".to_string())
    );
    assert_eq!(
        build_command_from_draft(&draft("a b", "p", CommandActionKind::TypeText, "", ""), &none),
        Err("Trigger must be a single token — no spaces. The buffer resets at every word boundary, so a multi-word trigger can never match.".to_string())
    );
    assert_eq!(
        build_command_from_draft(&draft("ab", "  ", CommandActionKind::OpenPath, "", ""), &none),
        Err("Action parameter is empty.".to_string())
    );
    assert_eq!(
        build_command_from_draft(&draft("ab", "english", CommandActionKind::SwitchLayout, "", ""), &none),
        Err("`english` doesn't look like a layout id (e.g. `en-US`).".to_string())
    );
    let ok = build_command_from_draft(&draft("ua", "uk-UA", CommandActionKind::SwitchLayout, "", ""), &vec![cmd("switch-layout")])
        .expect("valid");
    assert_eq!(ok.id, "cmd-1");
    assert_eq!(
        build_command_from_draft(&draft("ab", "1-2", CommandActionKind::SwitchLayout, "", ""), &none),
        Err("`1-2` doesn't look like a layout id (e.g. `en-US`).".to_string())
    );
}

#[test]
fn summaries_fit_on_one_row() {
    let mut c = cmd("sig");
    c.name = "Signature".into();
    c.action = CommandAction::TypeText { text: "a".repeat(45) };
    c.apps = vec!["mail".into(), "chat".into()];
    assert_eq!(
        format_command_summary(&c),
        format!("Signature — type `{}…` (in mail, chat)", "a".repeat(40))
    );
    let mut c = cmd("to-ua");
    c.action = CommandAction::SwitchLayout { layout: LayoutId::new("uk-UA".into()) };
    assert_eq!(format_command_summary(&c), "to-ua — -> uk-UA");
    c.action = CommandAction::OpenPath { path: "~/notes".into() };
    assert_eq!(format_command_summary(&c), "to-ua — open `~/notes`");
}
