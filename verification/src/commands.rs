//! The settings window's "smart commands": validating the "Add command"
//! form, deriving a command id that never collides with an existing
//! one, and the one-line summaries of the command list.

use vstd::prelude::*;
use vstd::set_lib::lemma_len_subset;

use crate::layout::LayoutId;
use crate::text::{
    append_chars, append_str, ascii_lower, chars_of, eq_chars, first_index_of,
    is_alphanumeric_ascii, is_ascii_alphanumeric, is_ascii_lower, is_ascii_upper, is_white_space,
    is_whitespace, join_chars, join_with, keep_non_empty, lemma_first_index_of, lemma_first_index_of_is, non_empty, slice_chars, split_chars, split_on, string_of, strings_of, to_lower_ascii, trim,
    trim_all, trim_chars, trim_each, views,
};

verus! {

/// What a smart command does when its trigger is typed.
#[derive(Debug, Clone, PartialEq)]
pub enum CommandAction {
    /// Type this text in place of the trigger.
    TypeText { text: String },
    /// Switch the keyboard to this layout.
    SwitchLayout { layout: LayoutId },
    /// Open this file, folder or URL.
    OpenPath { path: String },
}

/// The kind picked in the "Add command" form.
#[derive(Debug, Clone, Copy, PartialEq, Eq)]
pub enum CommandActionKind {
    TypeText,
    SwitchLayout,
    OpenPath,
}

/// One `[[commands]]` entry.
#[derive(Debug, Clone, PartialEq)]
pub struct UserCommand {
    pub id: String,
    pub name: String,
    pub trigger: String,
    pub action: CommandAction,
    /// Apps the command is limited to; empty = everywhere.
    pub apps: Vec<String>,
}

/// The "Add command" form as typed.
#[derive(Debug, Clone, PartialEq)]
pub struct CommandDraft {
    pub trigger: String,
    pub param: String,
    pub action_kind: CommandActionKind,
    pub name: String,
    /// Comma-separated app names.
    pub apps: String,
}

pub open spec fn command_ids(existing: Seq<UserCommand>) -> Seq<Seq<char>> {
    existing.map_values(|c: UserCommand| c.id@)
}

/// `char` for the decimal digit `d`.
pub open spec fn digit_char(d: int) -> char {
    (d + 48) as char
}

/// Decimal text of `n`, as `Display` writes an unsigned integer.
pub open spec fn decimal(n: nat) -> Seq<char>
    decreases n,
{
    if n < 10 {
        seq![digit_char(n as int)]
    } else {
        decimal(n / 10).push(digit_char((n % 10) as int))
    }
}

fn decimal_chars(n: u32) -> (r: Vec<char>)
    ensures
        r@ == decimal(n as nat),
    decreases n,
{
    let d: u8 = (n % 10) as u8 + 48;
    let c = d as char;
    if n < 10 {
        let v = vec![c];
        assert(v@ =~= seq![digit_char(n as int)]);
        v
    } else {
        let mut v = decimal_chars(n / 10);
        v.push(c);
        v
    }
}

pub proof fn lemma_decimal_len(n: nat)
    ensures
        n < 10 ==> decimal(n).len() == 1,
        n >= 10 ==> decimal(n).len() >= 2,
    decreases n,
{
    if n >= 10 {
        lemma_decimal_len(n / 10);
    }
}

pub proof fn lemma_decimal_injective(a: nat, b: nat)
    requires
        decimal(a) == decimal(b),
    ensures
        a == b,
    decreases a,
{
    lemma_decimal_len(a);
    lemma_decimal_len(b);
    if a < 10 && b < 10 {
        assert(decimal(a)[0] == digit_char(a as int));
        assert(decimal(b)[0] == digit_char(b as int));
        assert((digit_char(a as int) as int) == a + 48);
        assert((digit_char(b as int) as int) == b + 48);
    } else if a >= 10 && b >= 10 {
        assert(decimal(a).last() == digit_char((a % 10) as int));
        assert(decimal(b).last() == digit_char((b % 10) as int));
        assert((digit_char((a % 10) as int) as int) == a % 10 + 48);
        assert((digit_char((b % 10) as int) as int) == b % 10 + 48);
        assert(decimal(a).drop_last() =~= decimal(a / 10));
        assert(decimal(b).drop_last() =~= decimal(b / 10));
        lemma_decimal_injective(a / 10, b / 10);
    }
}

/// The `k`-th id tried for `base`: `base` itself, then `base-2`,
/// `base-3`, …; or, when `numbered`, `base-1`, `base-2`, … from the start.
pub open spec fn candidate(base: Seq<char>, k: nat, numbered: bool) -> Seq<char> {
    if k < 2 && !numbered {
        base
    } else {
        base + seq!['-'] + decimal(k)
    }
}

pub proof fn lemma_candidates_distinct(base: Seq<char>, a: nat, b: nat, numbered: bool)
    requires
        1 <= a,
        1 <= b,
        candidate(base, a, numbered) == candidate(base, b, numbered),
    ensures
        a == b,
{
    lemma_decimal_len(a);
    lemma_decimal_len(b);
    if numbered || (a >= 2 && b >= 2) {
        assert(candidate(base, a, numbered).skip(base.len() + 1int) =~= decimal(a));
        assert(candidate(base, b, numbered).skip(base.len() + 1int) =~= decimal(b));
        lemma_decimal_injective(a, b);
    } else if a >= 2 || b >= 2 {
        assert(candidate(base, a, numbered).len() != candidate(base, b, numbered).len());
    }
}

/// The first `m` candidates, as a set.
pub open spec fn tried(base: Seq<char>, m: nat, numbered: bool) -> Set<Seq<char>>
    decreases m,
{
    if m == 0 {
        Set::empty()
    } else {
        tried(base, (m - 1) as nat, numbered).insert(candidate(base, m, numbered))
    }
}

pub proof fn lemma_tried(base: Seq<char>, m: nat, numbered: bool)
    ensures
        tried(base, m, numbered).finite(),
        tried(base, m, numbered).len() == m,
        forall|s: Seq<char>|
            #[trigger] tried(base, m, numbered).contains(s) ==> exists|j: nat|
                1 <= j <= m && s == candidate(base, j, numbered),
    decreases m,
{
    if m > 0 {
        lemma_tried(base, (m - 1) as nat, numbered);
        let c = candidate(base, m, numbered);
        if tried(base, (m - 1) as nat, numbered).contains(c) {
            let j = choose|j: nat| 1 <= j <= m - 1 && c == candidate(base, j, numbered);
            lemma_candidates_distinct(base, j, m, numbered);
        }
    }
}

/// Every taken candidate is a distinct id, so no more of them can be
/// taken than there are commands.
pub proof fn lemma_taken_candidates_bounded(
    base: Seq<char>,
    ids: Seq<Seq<char>>,
    m: nat,
    numbered: bool,
)
    requires
        forall|j: nat| 1 <= j <= m ==> ids.contains(#[trigger] candidate(base, j, numbered)),
    ensures
        m <= ids.len(),
{
    lemma_tried(base, m, numbered);
    assert(tried(base, m, numbered).subset_of(ids.to_set())) by {
        assert forall|s: Seq<char>| #[trigger] tried(base, m, numbered).contains(s) implies ids.to_set().contains(s) by {
            let j = choose|j: nat| 1 <= j <= m && s == candidate(base, j, numbered);
            assert(ids.contains(candidate(base, j, numbered)));
        }
    }
    ids.lemma_cardinality_of_set();
    lemma_len_subset(tried(base, m, numbered), ids.to_set());
}

/// Name characters kept in an id: ASCII letters and digits, lowercased;
/// everything else separates words.
pub open spec fn slug_char(c: char) -> char {
    if is_ascii_alphanumeric(c) {
        ascii_lower(c)
    } else {
        '-'
    }
}

/// Kebab-case form of a display name: the kept words joined by `-`.
pub open spec fn slug(name: Seq<char>) -> Seq<char> {
    join_with(non_empty(split_on(name.map_values(|c: char| slug_char(c)), '-')), seq!['-'])
}

pub open spec fn kind_of(action: CommandAction) -> CommandActionKind {
    match action {
        CommandAction::TypeText { .. } => CommandActionKind::TypeText,
        CommandAction::SwitchLayout { .. } => CommandActionKind::SwitchLayout,
        CommandAction::OpenPath { .. } => CommandActionKind::OpenPath,
    }
}

/// The id a command starts from: its name in kebab case, or `cmd` when
/// the name has no letters or digits (then numbered: `cmd-<n>`).
pub open spec fn id_base(name: Seq<char>) -> Seq<char> {
    if slug(name).len() > 0 {
        slug(name)
    } else {
        "cmd"@
    }
}

/// Whether every candidate for `name` carries a number: a name with no
/// letters or digits falls back to `cmd-1`, `cmd-2`, …
pub open spec fn id_numbered(name: Seq<char>) -> bool {
    slug(name).len() == 0
}

/// `id` is the first candidate for `base` that no command has taken.
pub open spec fn first_free_candidate(
    base: Seq<char>,
    numbered: bool,
    ids: Seq<Seq<char>>,
    id: Seq<char>,
) -> bool {
    exists|k: nat|
        1 <= k && id == #[trigger] candidate(base, k, numbered) && !ids.contains(id) && forall|
            j: nat,
        | 1 <= j < k ==> ids.contains(#[trigger] candidate(base, j, numbered))
}

fn slug_chars(name: &str) -> (r: Vec<char>)
    ensures
        r@ == slug(name@),
{
    let v = chars_of(name);
    let n = v.len();
    let mut mapped: Vec<char> = Vec::new();
    let mut i: usize = 0;
    while i < n
        invariant
            n == v.len(),
            v@ == name@,
            0 <= i <= n,
            mapped@ =~= v@.take(i as int).map_values(|c: char| slug_char(c)),
        decreases n - i,
    {
        let c = v[i];
        let m = if is_alphanumeric_ascii(c) {
            to_lower_ascii(c)
        } else {
            '-'
        };
        mapped.push(m);
        assert(v@.take(i as int + 1).map_values(|c: char| slug_char(c)) =~= v@.take(
            i as int,
        ).map_values(|c: char| slug_char(c)).push(slug_char(c)));
        i += 1;
    }
    assert(v@.take(n as int) =~= v@);
    let pieces = split_chars(&mapped, '-');
    let kept = keep_non_empty(pieces);
    let dash = vec!['-'];
    assert(dash@ =~= seq!['-']);
    join_chars(&kept, &dash)
}

fn id_taken(existing: &Vec<UserCommand>, id: &Vec<char>) -> (r: bool)
    ensures
        r == command_ids(existing@).contains(id@),
{
    let n = existing.len();
    let mut i: usize = 0;
    while i < n
        invariant
            n == existing.len(),
            0 <= i <= n,
            forall|j: int| 0 <= j < i ==> (#[trigger] existing@[j]).id@ != id@,
        decreases n - i,
    {
        let c = chars_of(existing[i].id.as_str());
        if eq_chars(&c, id) {
            assert(command_ids(existing@)[i as int] == id@);
            return true;
        }
        i += 1;
    }
    proof {
        if command_ids(existing@).contains(id@) {
            let j = choose|j: int| 0 <= j < command_ids(existing@).len() && command_ids(existing@)[j] == id@;
            assert(existing@[j].id@ == id@);
        }
    }
    false
}

/// A stable kebab-case id from the display name, disambiguated with
/// `-2`, `-3`, … against the existing commands; when the name has no
/// letters or digits (e.g. it is empty), the first free `cmd-<n>`. The id
/// is never one already taken.
pub fn derive_command_id(name: &str, action: &CommandAction, existing: &Vec<UserCommand>) -> (r:
    String)
    requires
        existing.len() < u32::MAX - 1,
    ensures
        first_free_candidate(id_base(name@), id_numbered(name@), command_ids(existing@), r@),
        !command_ids(existing@).contains(r@),
{
    let from_name = slug_chars(name);
    let numbered = from_name.len() == 0;
    let base: Vec<char> = if !numbered {
        from_name
    } else {
        chars_of("cmd")
    };
    let ghost b = base@;
    let ghost ids = command_ids(existing@);
    assert(b == id_base(name@));
    let mut cand = slice_chars(&base, 0, base.len());
    if numbered {
        cand.push('-');
        let one = decimal_chars(1);
        append_chars(&mut cand, &one);
    }
    assert(cand@ =~= candidate(b, 1, numbered));
    let mut n: u32 = 2;
    while id_taken(existing, &cand)
        invariant
            b == base@,
            ids == command_ids(existing@),
            existing.len() < u32::MAX - 1,
            2 <= n,
            n - 2 <= existing.len(),
            cand@ == candidate(b, (n - 1) as nat, numbered),
            forall|j: nat| 1 <= j < n - 1 ==> ids.contains(#[trigger] candidate(b, j, numbered)),
        decreases existing.len() + 2 - n,
    {
        proof {
            assert forall|j: nat| 1 <= j <= (n - 1) as nat implies ids.contains(
                #[trigger] candidate(b, j, numbered),
            ) by {
                if j == n - 1 {
                    assert(candidate(b, j, numbered) == cand@);
                }
            }
            lemma_taken_candidates_bounded(b, ids, (n - 1) as nat, numbered);
            assert(ids.len() == existing.len());
        }
        let mut next = slice_chars(&base, 0, base.len());
        next.push('-');
        let digits = decimal_chars(n);
        append_chars(&mut next, &digits);
        assert(next@ =~= b + seq!['-'] + decimal(n as nat));
        cand = next;
        n += 1;
    }
    assert(first_free_candidate(b, numbered, ids, cand@)) by {
        let k = (n - 1) as nat;
        assert(cand@ == candidate(b, k, numbered));
    }
    string_of(&cand)
}

/// Loose check that a string could be a BCP-47 layout id (`en-US`,
/// `kk-Cyrl-KZ`): a first segment of 2–3 ASCII letters, then at least one
/// `-`, and only ASCII letters, digits and dashes throughout.
pub open spec fn layout_id_shaped(s: Seq<char>) -> bool {
    &&& s.len() > 0
    &&& s.contains('-')
    &&& forall|i: int| 0 <= i < s.len() ==> is_ascii_alphanumeric(#[trigger] s[i]) || s[i] == '-'
    &&& 2 <= first_index_of(s, '-') <= 3
    &&& forall|i: int|
        0 <= i < first_index_of(s, '-') ==> is_ascii_lower(#[trigger] s[i]) || is_ascii_upper(s[i])
}

pub fn looks_like_layout_id(s: &str) -> (r: bool)
    ensures
        r == layout_id_shaped(s@),
{
    let v = chars_of(s);
    let n = v.len();
    if n == 0 {
        return false;
    }
    let mut i: usize = 0;
    while i < n
        invariant
            n == v.len(),
            v@ == s@,
            0 <= i <= n,
            forall|j: int| 0 <= j < i ==> is_ascii_alphanumeric(#[trigger] v@[j]) || v@[j] == '-',
        decreases n - i,
    {
        let c = v[i];
        if !(is_alphanumeric_ascii(c) || c == '-') {
            return false;
        }
        i += 1;
    }
    let mut k: usize = 0;
    while k < n && v[k] != '-'
        invariant
            n == v.len(),
            0 <= k <= n,
            forall|j: int| 0 <= j < k ==> v@[j] != '-',
        decreases n - k,
    {
        k += 1;
    }
    proof {
        lemma_first_index_of_is(s@, '-', k as int);
        if k < n {
            assert(s@[k as int] == '-');
        } else {
            assert forall|j: int| 0 <= j < s@.len() implies s@[j] != '-' by {}
        }
    }
    if k == n || k < 2 || k > 3 {
        return false;
    }
    let mut j: usize = 0;
    while j < k
        invariant
            n == v.len(),
            v@ == s@,
            k <= n,
            first_index_of(s@, '-') == k as int,
            0 <= j <= k,
            forall|m: int| 0 <= m < j ==> is_ascii_lower(#[trigger] v@[m]) || is_ascii_upper(v@[m]),
        decreases k - j,
    {
        let c = v[j];
        if !(('a' <= c && c <= 'z') || ('A' <= c && c <= 'Z')) {
            assert(!(is_ascii_lower(s@[j as int]) || is_ascii_upper(s@[j as int])));
            return false;
        }
        j += 1;
    }
    true
}

/// Whether any character is Unicode white space.
fn has_whitespace(v: &Vec<char>) -> (r: bool)
    ensures
        r == exists|i: int| 0 <= i < v@.len() && is_white_space(#[trigger] v@[i]),
{
    let n = v.len();
    let mut i: usize = 0;
    while i < n
        invariant
            n == v.len(),
            0 <= i <= n,
            forall|j: int| 0 <= j < i ==> !is_white_space(#[trigger] v@[j]),
        decreases n - i,
    {
        if is_whitespace(v[i]) {
            return true;
        }
        i += 1;
    }
    false
}

pub open spec fn msg_no_trigger() -> Seq<char> {
    "Set a trigger first (e.g. `anrl`)."@
}

pub open spec fn msg_trigger_spaces() -> Seq<char> {
    "Trigger must be a single token — no spaces. The buffer resets at every word boundary, so a multi-word trigger can never match."@
}

pub open spec fn msg_no_param() -> Seq<char> {
    "Action parameter is empty."@
}

pub open spec fn msg_bad_layout(param: Seq<char>) -> Seq<char> {
    "`"@ + param + "` doesn't look like a layout id (e.g. `en-US`)."@
}

/// The action a draft asks for, when its parameter is acceptable.
pub open spec fn draft_action_ok(kind: CommandActionKind, param: Seq<char>, action: CommandAction) -> bool {
    match kind {
        CommandActionKind::TypeText => action matches CommandAction::TypeText { text } && text@ == param,
        CommandActionKind::SwitchLayout => action matches CommandAction::SwitchLayout { layout }
            && layout@ == param,
        CommandActionKind::OpenPath => action matches CommandAction::OpenPath { path } && path@ == param,
    }
}

/// Apps listed in the form: comma-separated, trimmed, empties dropped.
pub open spec fn draft_apps(apps: Seq<char>) -> Seq<Seq<char>> {
    non_empty(trim_all(split_on(apps, ',')))
}

pub fn build_action(kind: CommandActionKind, param: &Vec<char>) -> (r: Result<CommandAction, String>)
    ensures
        match r {
            Ok(a) => draft_action_ok(kind, param@, a) && (kind == CommandActionKind::SwitchLayout
                ==> layout_id_shaped(param@)),
            Err(e) => kind == CommandActionKind::SwitchLayout && !layout_id_shaped(param@) && e@
                == msg_bad_layout(param@),
        },
{
    let p = string_of(param);
    match kind {
        CommandActionKind::TypeText => Ok(CommandAction::TypeText { text: p }),
        CommandActionKind::SwitchLayout => {
            if !looks_like_layout_id(p.as_str()) {
                let mut m = chars_of("`");
                append_chars(&mut m, param);
                append_str(&mut m, "` doesn't look like a layout id (e.g. `en-US`).");
                return Err(string_of(&m));
            }
            Ok(CommandAction::SwitchLayout { layout: LayoutId::new(p) })
        },
        CommandActionKind::OpenPath => Ok(CommandAction::OpenPath { path: p }),
    }
}

/// Validate the "Add command" form and produce a [`UserCommand`], or
/// the message for the first failed check: a non-empty single-token
/// trigger, a non-empty parameter, a layout-shaped id for a layout
/// switch, and an id no existing command has.
pub fn build_command_from_draft(draft: &CommandDraft, existing: &Vec<UserCommand>) -> (r: Result<
    UserCommand,
    String,
>)
    requires
        existing.len() < u32::MAX - 1,
    ensures
        ({
            let trigger = trim(draft.trigger@);
            let param = trim(draft.param@);
            let name = trim(draft.name@);
            match r {
                Err(e) => if trigger.len() == 0 {
                    e@ == msg_no_trigger()
                } else if exists|i: int| 0 <= i < trigger.len() && is_white_space(#[trigger] trigger[i]) {
                    e@ == msg_trigger_spaces()
                } else if param.len() == 0 {
                    e@ == msg_no_param()
                } else {
                    draft.action_kind == CommandActionKind::SwitchLayout && !layout_id_shaped(param)
                        && e@ == msg_bad_layout(param)
                },
                Ok(c) => {
                    &&& trigger.len() > 0
                    &&& !exists|i: int| 0 <= i < trigger.len() && is_white_space(#[trigger] trigger[i])
                    &&& param.len() > 0
                    &&& c.trigger@ == trigger
                    &&& c.name@ == name
                    &&& draft_action_ok(draft.action_kind, param, c.action)
                    &&& draft.action_kind == CommandActionKind::SwitchLayout ==> layout_id_shaped(param)
                    &&& first_free_candidate(
                        id_base(name),
                        id_numbered(name),
                        command_ids(existing@),
                        c.id@,
                    )
                    &&& c.apps@.map_values(|s: String| s@) == draft_apps(draft.apps@)
                },
            }
        }),
{
    let trigger = trim_chars(&chars_of(draft.trigger.as_str()));
    if trigger.len() == 0 {
        let m = chars_of("Set a trigger first (e.g. `anrl`).");
        return Err(string_of(&m));
    }
    if has_whitespace(&trigger) {
        let m = chars_of(
            "Trigger must be a single token — no spaces. The buffer resets at every word boundary, so a multi-word trigger can never match.",
        );
        return Err(string_of(&m));
    }
    let param = trim_chars(&chars_of(draft.param.as_str()));
    if param.len() == 0 {
        let m = chars_of("Action parameter is empty.");
        return Err(string_of(&m));
    }
    let action = match build_action(draft.action_kind, &param) {
        Ok(a) => a,
        Err(e) => return Err(e),
    };
    let name = trim_chars(&chars_of(draft.name.as_str()));
    let name_s = string_of(&name);
    let id = derive_command_id(name_s.as_str(), &action, existing);
    assert(kind_of(action) == draft.action_kind);
    let id_chars = chars_of(id.as_str());
    if id_taken(existing, &id_chars) {
        let mut m = chars_of("A command with id `");
        append_chars(&mut m, &id_chars);
        append_str(&mut m, "` already exists — pick a different name.");
        return Err(string_of(&m));
    }
    let app_text = chars_of(draft.apps.as_str());
    let pieces = split_chars(&app_text, ',');
    let trimmed = trim_each(&pieces);
    let kept = keep_non_empty(trimmed);
    let apps = strings_of(&kept);
    Ok(UserCommand { id, name: name_s, trigger: string_of(&trigger), action, apps })
}

/// The first `n` characters of `s`.
pub open spec fn take_chars(s: Seq<char>, n: int) -> Seq<char> {
    if s.len() <= n {
        s
    } else {
        s.take(n)
    }
}

/// What a command does, in a few words: a typed snippet cut at 40
/// characters (with `…` when cut), the target layout, or the path.
pub open spec fn action_blurb(action: CommandAction) -> Seq<char> {
    match action {
        CommandAction::TypeText { text } => "type `"@ + take_chars(text@, 40) + (if text@.len() > 40 {
            "…"@
        } else {
            ""@
        }) + "`"@,
        CommandAction::SwitchLayout { layout } => "-> "@ + layout@,
        CommandAction::OpenPath { path } => "open `"@ + path@ + "`"@,
    }
}

/// Single-line description of a command for the list view:
/// `<name or id> — <action>[ (in <apps>)]`.
pub open spec fn command_summary(cmd: UserCommand) -> Seq<char> {
    let display = if cmd.name@.len() == 0 {
        cmd.id@
    } else {
        cmd.name@
    };
    let apps = cmd.apps@.map_values(|s: String| s@);
    let apps_blurb = if apps.len() == 0 {
        Seq::empty()
    } else {
        " (in "@ + join_with(apps, ", "@) + ")"@
    };
    display + " — "@ + action_blurb(cmd.action) + apps_blurb
}

pub fn format_command_summary(cmd: &UserCommand) -> (r: String)
    ensures
        r@ == command_summary(*cmd),
{
    let name = chars_of(cmd.name.as_str());
    let mut out: Vec<char> = if name.len() == 0 {
        chars_of(cmd.id.as_str())
    } else {
        name
    };
    append_str(&mut out, " — ");
    let ghost head = out@;
    match &cmd.action {
        CommandAction::TypeText { text } => {
            append_str(&mut out, "type `");
            let t = chars_of(text.as_str());
            if t.len() <= 40 {
                append_chars(&mut out, &t);
                append_str(&mut out, "`");
            } else {
                let cut = slice_chars(&t, 0, 40);
                assert(cut@ =~= t@.take(40));
                append_chars(&mut out, &cut);
                append_str(&mut out, "…");
                append_str(&mut out, "`");
            }
        },
        CommandAction::SwitchLayout { layout } => {
            append_str(&mut out, "-> ");
            append_str(&mut out, layout.as_str());
        },
        CommandAction::OpenPath { path } => {
            append_str(&mut out, "open `");
            append_str(&mut out, path.as_str());
            append_str(&mut out, "`");
        },
    }
    assert(out@ =~= head + action_blurb(cmd.action)) by {
        assert(""@ =~= Seq::<char>::empty()) by {
            reveal_strlit("");
        }
    }
    let ghost mid = out@;
    if cmd.apps.len() > 0 {
        append_str(&mut out, " (in ");
        let mut pieces: Vec<Vec<char>> = Vec::new();
        let n = cmd.apps.len();
        let mut i: usize = 0;
        while i < n
            invariant
                n == cmd.apps.len(),
                0 <= i <= n,
                pieces.len() == i,
                views(pieces@) =~= cmd.apps@.map_values(|s: String| s@).take(i as int),
            decreases n - i,
        {
            let ghost before = pieces@;
            let piece = chars_of(cmd.apps[i].as_str());
            pieces.push(piece);
            assert forall|j: int| 0 <= j < i + 1 implies (#[trigger] pieces@[j])@
                == cmd.apps@.map_values(|s: String| s@)[j] by {
                if j < i {
                    assert(pieces@[j] == before[j]);
                    assert(views(before)[j] == cmd.apps@.map_values(|s: String| s@).take(i as int)[j]);
                }
            }
            assert(views(pieces@) =~= cmd.apps@.map_values(|s: String| s@).take(i as int + 1));
            i += 1;
        }
        assert(cmd.apps@.map_values(|s: String| s@).take(n as int) =~= cmd.apps@.map_values(
            |s: String| s@,
        ));
        let sep = chars_of(", ");
        let joined = join_chars(&pieces, &sep);
        append_chars(&mut out, &joined);
        append_str(&mut out, ")");
    }
    assert(out@ =~= command_summary(*cmd));
    string_of(&out)
}

/// `s` with every `-` removed.
pub open spec fn undashed(s: Seq<char>) -> Seq<char>
    decreases s.len(),
{
    if s.len() == 0 {
        s
    } else if s.last() == '-' {
        undashed(s.drop_last())
    } else {
        undashed(s.drop_last()).push(s.last())
    }
}

/// The ASCII letters and digits of `name`, in order, lowercased.
pub open spec fn letters_and_digits(name: Seq<char>) -> Seq<char>
    decreases name.len(),
{
    if name.len() == 0 {
        name
    } else if is_ascii_alphanumeric(name.last()) {
        letters_and_digits(name.drop_last()).push(ascii_lower(name.last()))
    } else {
        letters_and_digits(name.drop_last())
    }
}

/// The pieces with their dashes removed, run together.
spec fn undashed_pieces(ps: Seq<Seq<char>>) -> Seq<char>
    decreases ps.len(),
{
    if ps.len() == 0 {
        Seq::empty()
    } else {
        undashed(ps[0]) + undashed_pieces(ps.drop_first())
    }
}

proof fn lemma_undashed_add(a: Seq<char>, b: Seq<char>)
    ensures
        undashed(a + b) == undashed(a) + undashed(b),
    decreases b.len(),
{
    if b.len() == 0 {
        assert(a + b =~= a);
        assert(undashed(a) + undashed(b) =~= undashed(a));
    } else {
        assert((a + b).drop_last() =~= a + b.drop_last());
        assert((a + b).last() == b.last());
        lemma_undashed_add(a, b.drop_last());
        if b.last() != '-' {
            assert(undashed(a) + undashed(b.drop_last()).push(b.last()) =~= (undashed(a)
                + undashed(b.drop_last())).push(b.last()));
        }
    }
}

proof fn lemma_undashed_pieces_add(a: Seq<Seq<char>>, b: Seq<Seq<char>>)
    ensures
        undashed_pieces(a + b) == undashed_pieces(a) + undashed_pieces(b),
    decreases a.len(),
{
    if a.len() == 0 {
        assert(a + b =~= b);
        assert(undashed_pieces(a) + undashed_pieces(b) =~= undashed_pieces(b));
    } else {
        assert((a + b)[0] == a[0]);
        assert((a + b).drop_first() =~= a.drop_first() + b);
        lemma_undashed_pieces_add(a.drop_first(), b);
        assert(undashed(a[0]) + (undashed_pieces(a.drop_first()) + undashed_pieces(b)) =~= (
        undashed(a[0]) + undashed_pieces(a.drop_first())) + undashed_pieces(b));
    }
}

proof fn lemma_undashed_pieces_single(x: Seq<char>)
    ensures
        undashed_pieces(seq![x]) == undashed(x),
{
    let e = Seq::<Seq<char>>::empty();
    assert(seq![x].drop_first() =~= e);
    assert(undashed_pieces(e) == Seq::<char>::empty());
    assert(seq![x][0] == x);
    assert(undashed(x) + Seq::<char>::empty() =~= undashed(x));
}

proof fn lemma_undashed_dash()
    ensures
        undashed(seq!['-']) == Seq::<char>::empty(),
{
    let e = Seq::<char>::empty();
    assert(seq!['-'].drop_last() =~= e);
    assert(seq!['-'].last() == '-');
    assert(undashed(e) == e);
}

/// Splitting at the dashes and removing them loses nothing else.
proof fn lemma_undashed_split(s: Seq<char>)
    ensures
        undashed_pieces(split_on(s, '-')) == undashed(s),
    decreases s.len(),
{
    let k = first_index_of(s, '-');
    lemma_first_index_of(s, '-');
    if k >= s.len() {
        lemma_undashed_pieces_single(s);
    } else {
        let rest = s.skip(k + 1);
        lemma_undashed_split(rest);
        let ps = seq![s.take(k)] + split_on(rest, '-');
        assert(ps[0] == s.take(k));
        assert(ps.drop_first() =~= split_on(rest, '-'));
        assert(s =~= s.take(k) + seq!['-'] + rest);
        lemma_undashed_add(s.take(k) + seq!['-'], rest);
        lemma_undashed_add(s.take(k), seq!['-']);
        lemma_undashed_dash();
        assert(undashed(s.take(k)) + Seq::<char>::empty() =~= undashed(s.take(k)));
    }
}

/// Dropping the empty pieces loses nothing.
proof fn lemma_undashed_non_empty(ps: Seq<Seq<char>>)
    ensures
        undashed_pieces(non_empty(ps)) == undashed_pieces(ps),
    decreases ps.len(),
{
    reveal_with_fuel(Seq::filter, 1);
    if ps.len() > 0 {
        let q = ps.drop_last();
        let x = ps.last();
        lemma_undashed_non_empty(q);
        assert(ps =~= q + seq![x]);
        lemma_undashed_pieces_add(q, seq![x]);
        lemma_undashed_pieces_single(x);
        if x.len() > 0 {
            assert(non_empty(ps) =~= non_empty(q) + seq![x]);
            lemma_undashed_pieces_add(non_empty(q), seq![x]);
        } else {
            assert(non_empty(ps) == non_empty(q));
            assert(undashed(x) =~= x);
            assert(undashed_pieces(q) + undashed(x) =~= undashed_pieces(q));
        }
    }
}

/// Joining with dashes and removing the dashes runs the pieces together.
proof fn lemma_undashed_join(ps: Seq<Seq<char>>)
    ensures
        undashed(join_with(ps, seq!['-'])) == undashed_pieces(ps),
    decreases ps.len(),
{
    if ps.len() == 1 {
        lemma_undashed_pieces_single(ps[0]);
        assert(ps =~= seq![ps[0]]);
    } else if ps.len() > 1 {
        let q = ps.drop_last();
        let x = ps.last();
        lemma_undashed_join(q);
        lemma_undashed_add(join_with(q, seq!['-']) + seq!['-'], x);
        lemma_undashed_add(join_with(q, seq!['-']), seq!['-']);
        lemma_undashed_dash();
        assert(ps =~= q + seq![x]);
        lemma_undashed_pieces_add(q, seq![x]);
        lemma_undashed_pieces_single(x);
        assert(undashed_pieces(q) + Seq::<char>::empty() =~= undashed_pieces(q));
    }
}

proof fn lemma_undashed_mapped(name: Seq<char>)
    ensures
        undashed(name.map_values(|c: char| slug_char(c))) == letters_and_digits(name),
    decreases name.len(),
{
    let m = name.map_values(|c: char| slug_char(c));
    if name.len() > 0 {
        let c = name.last();
        lemma_undashed_mapped(name.drop_last());
        assert(m.drop_last() =~= name.drop_last().map_values(|c: char| slug_char(c)));
        assert(m.last() == slug_char(c));
        if is_ascii_upper(c) {
            assert((c as u32) + 32 >= 97);
            assert(ascii_lower(c) != '-');
        }
    }
}

/// A command id keeps every ASCII letter and digit of the name, in order
/// and lowercased: removing the dashes from the kebab-case id gives back
/// exactly the name's letters and digits (so `Sig 2` → `sig-2`, never
/// `sig`).
pub proof fn lemma_slug_keeps_letters_and_digits(name: Seq<char>)
    ensures
        undashed(slug(name)) == letters_and_digits(name),
{
    let m = name.map_values(|c: char| slug_char(c));
    lemma_undashed_join(non_empty(split_on(m, '-')));
    lemma_undashed_non_empty(split_on(m, '-'));
    lemma_undashed_split(m);
    lemma_undashed_mapped(name);
}

/// Dashes only ever separate: none at either end and never two in a row.
pub open spec fn dashes_separate(s: Seq<char>) -> bool {
    forall|i: int|
        0 <= i < s.len() && #[trigger] s[i] == '-' ==> 0 < i && i + 1 < s.len() && s[i + 1] != '-'
}

spec fn dash_free(s: Seq<char>) -> bool {
    forall|i: int| 0 <= i < s.len() ==> #[trigger] s[i] != '-'
}

spec fn all_words(ps: Seq<Seq<char>>) -> bool {
    forall|j: int| 0 <= j < ps.len() ==> #[trigger] ps[j].len() > 0 && dash_free(ps[j])
}

spec fn pieces_dash_free(ps: Seq<Seq<char>>) -> bool {
    forall|j: int| 0 <= j < ps.len() ==> dash_free(#[trigger] ps[j])
}

proof fn lemma_split_pieces_dash_free(s: Seq<char>)
    ensures
        pieces_dash_free(split_on(s, '-')),
    decreases s.len(),
{
    let k = first_index_of(s, '-');
    lemma_first_index_of(s, '-');
    if k >= s.len() {
        assert(split_on(s, '-') =~= seq![s]);
        assert(dash_free(s));
    } else {
        let rest = s.skip(k + 1);
        lemma_split_pieces_dash_free(rest);
        let ps = split_on(s, '-');
        assert(ps =~= seq![s.take(k)] + split_on(rest, '-'));
        assert forall|j: int| 0 <= j < ps.len() implies dash_free(#[trigger] ps[j]) by {
            if j == 0 {
                assert(ps[0] == s.take(k));
            } else {
                assert(ps[j] == split_on(rest, '-')[j - 1]);
            }
        }
    }
}

proof fn lemma_non_empty_words(ps: Seq<Seq<char>>)
    requires
        pieces_dash_free(ps),
    ensures
        all_words(non_empty(ps)),
    decreases ps.len(),
{
    reveal_with_fuel(Seq::filter, 1);
    if ps.len() > 0 {
        let q = ps.drop_last();
        assert forall|j: int| 0 <= j < q.len() implies dash_free(#[trigger] q[j]) by {
            assert(q[j] == ps[j]);
        }
        lemma_non_empty_words(q);
        let x = ps.last();
        assert(dash_free(ps[ps.len() - 1]));
        if x.len() > 0 {
            let r = non_empty(q).push(x);
            assert(non_empty(ps) == r);
            assert forall|j: int| 0 <= j < r.len() implies #[trigger] r[j].len() > 0 && dash_free(
                r[j],
            ) by {
                if j < non_empty(q).len() {
                    assert(r[j] == non_empty(q)[j]);
                }
            }
        } else {
            assert(non_empty(ps) == non_empty(q));
        }
    }
}

proof fn lemma_join_words(ps: Seq<Seq<char>>)
    requires
        all_words(ps),
    ensures
        dashes_separate(join_with(ps, seq!['-'])),
        ps.len() > 0 ==> join_with(ps, seq!['-']).len() > 0,
    decreases ps.len(),
{
    if ps.len() == 1 {
        assert(ps[0].len() > 0 && dash_free(ps[0]));
    } else if ps.len() > 1 {
        let q = ps.drop_last();
        let x = ps.last();
        assert forall|j: int| 0 <= j < q.len() implies #[trigger] q[j].len() > 0 && dash_free(q[j]) by {
            assert(q[j] == ps[j]);
        }
        lemma_join_words(q);
        assert(x.len() > 0 && dash_free(x)) by {
            assert(ps[ps.len() - 1].len() > 0 && dash_free(ps[ps.len() - 1]));
        }
        let j = join_with(q, seq!['-']);
        let r = j + seq!['-'] + x;
        assert(join_with(ps, seq!['-']) == r);
        assert forall|i: int| 0 <= i < r.len() && #[trigger] r[i] == '-' implies 0 < i && i + 1
            < r.len() && r[i + 1] != '-' by {
            if i < j.len() {
                assert(r[i] == j[i]);
                if i + 1 < j.len() {
                    assert(r[i + 1] == j[i + 1]);
                }
            } else if i > j.len() {
                assert(r[i] == x[i - j.len() - 1]);
            } else {
                assert(r[i + 1] == x[0]);
            }
        }
    }
}

/// A command id made from a name never starts or ends with a dash and
/// never holds two dashes in a row: runs of separators collapse into one
/// dash between words.
pub proof fn lemma_slug_dashes_separate_words(name: Seq<char>)
    ensures
        dashes_separate(slug(name)),
{
    let m = name.map_values(|c: char| slug_char(c));
    lemma_split_pieces_dash_free(m);
    lemma_non_empty_words(split_on(m, '-'));
    lemma_join_words(non_empty(split_on(m, '-')));
}

proof fn lemma_split_around_dash(x: Seq<char>, y: Seq<char>)
    ensures
        split_on(x + seq!['-'] + y, '-') == split_on(x, '-') + split_on(y, '-'),
    decreases x.len(),
{
    let s = x + seq!['-'] + y;
    let k = first_index_of(x, '-');
    lemma_first_index_of(x, '-');
    if k >= x.len() {
        assert forall|j: int| 0 <= j < x.len() implies s[j] != '-' by {
            assert(s[j] == x[j]);
        }
        assert(s[x.len() as int] == '-');
        lemma_first_index_of_is(s, '-', x.len() as int);
        assert(s.take(x.len() as int) =~= x);
        assert(s.skip(x.len() as int + 1) =~= y);
        assert(split_on(x, '-') =~= seq![x]);
    } else {
        assert forall|j: int| 0 <= j < k implies s[j] != '-' by {
            assert(s[j] == x[j]);
        }
        assert(s[k] == x[k]);
        lemma_first_index_of_is(s, '-', k);
        assert(s.take(k) =~= x.take(k));
        assert(s.skip(k + 1) =~= x.skip(k + 1) + seq!['-'] + y);
        lemma_split_around_dash(x.skip(k + 1), y);
        assert(split_on(s, '-') =~= seq![x.take(k)] + (split_on(x.skip(k + 1), '-') + split_on(
            y,
            '-',
        )));
        assert(split_on(x, '-') =~= seq![x.take(k)] + split_on(x.skip(k + 1), '-'));
    }
}

proof fn lemma_non_empty_add(a: Seq<Seq<char>>, b: Seq<Seq<char>>)
    ensures
        non_empty(a + b) == non_empty(a) + non_empty(b),
    decreases b.len(),
{
    reveal_with_fuel(Seq::filter, 1);
    if b.len() == 0 {
        assert(a + b =~= a);
        assert(non_empty(b) =~= b);
        assert(non_empty(a) + non_empty(b) =~= non_empty(a));
    } else {
        assert((a + b).drop_last() =~= a + b.drop_last());
        assert((a + b).last() == b.last());
        lemma_non_empty_add(a, b.drop_last());
        if b.last().len() > 0 {
            assert(non_empty(a) + non_empty(b.drop_last()).push(b.last()) =~= (non_empty(a)
                + non_empty(b.drop_last())).push(b.last()));
        }
    }
}

proof fn lemma_join_add(a: Seq<Seq<char>>, b: Seq<Seq<char>>)
    requires
        a.len() > 0,
        b.len() > 0,
    ensures
        join_with(a + b, seq!['-']) == join_with(a, seq!['-']) + seq!['-'] + join_with(b, seq!['-']),
    decreases b.len(),
{
    let d = seq!['-'];
    if b.len() == 1 {
        assert((a + b).drop_last() =~= a);
        assert((a + b).last() == b[0]);
    } else {
        assert((a + b).drop_last() =~= a + b.drop_last());
        assert((a + b).last() == b.last());
        lemma_join_add(a, b.drop_last());
        assert(join_with(a, d) + d + join_with(b.drop_last(), d) + d + b.last() =~= join_with(a, d)
            + d + (join_with(b.drop_last(), d) + d + b.last()));
    }
}

/// A name made of two parts with a separator between them (a space, or
/// any other character that is not an ASCII letter or digit) gets the
/// first part's id, one dash, and the second part's id — when both parts
/// have letters or digits: `Sig 2` is `sig-2`, `Win10 keys` is
/// `win10-keys`.
pub proof fn lemma_slug_joins_parts(a: Seq<char>, c: char, b: Seq<char>)
    requires
        !is_ascii_alphanumeric(c),
        slug(a).len() > 0,
        slug(b).len() > 0,
    ensures
        slug(a + seq![c] + b) == slug(a) + seq!['-'] + slug(b),
{
    let ma = a.map_values(|x: char| slug_char(x));
    let mb = b.map_values(|x: char| slug_char(x));
    let m = (a + seq![c] + b).map_values(|x: char| slug_char(x));
    assert(m =~= ma + seq!['-'] + mb);
    lemma_split_around_dash(ma, mb);
    lemma_non_empty_add(split_on(ma, '-'), split_on(mb, '-'));
    let pa = non_empty(split_on(ma, '-'));
    let pb = non_empty(split_on(mb, '-'));
    assert(pa.len() > 0) by {
        if pa.len() == 0 {
            assert(join_with(pa, seq!['-']) =~= Seq::<char>::empty());
        }
    }
    assert(pb.len() > 0) by {
        if pb.len() == 0 {
            assert(join_with(pb, seq!['-']) =~= Seq::<char>::empty());
        }
    }
    lemma_join_add(pa, pb);
}

} // verus!
