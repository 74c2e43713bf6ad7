//! The macOS LaunchAgent that makes `[general].autostart` real: the
//! property list written to `~/Library/LaunchAgents`. Writing it, and
//! registering it with `launchctl`, is the application's I/O.

use vstd::prelude::*;

use crate::text::{append_chars, append_str, chars_of, string_of};

verus! {

/// The LaunchAgent label, and the plist's file stem.
pub const APP_ID: &'static str = "dev.opensource.poltertype";

/// The plist up to the program path.
pub const PLIST_HEAD: &'static str = "<?xml version=\"1.0\" encoding=\"UTF-8\"?>
<!DOCTYPE plist PUBLIC \"-//Apple//DTD PLIST 1.0//EN\" \"http://www.apple.com/DTDs/PropertyList-1.0.dtd\">
<plist version=\"1.0\">
<dict>
    <key>Label</key>
    <string>dev.opensource.poltertype</string>
    <key>ProgramArguments</key>
    <array>
        <string>";

/// The plist after the program path.
pub const PLIST_TAIL: &'static str = "</string>
    </array>
    <key>RunAtLoad</key>
    <true/>
    <key>ProcessType</key>
    <string>Interactive</string>
</dict>
</plist>
";

/// One character as XML text: `&`, `<` and `>` escaped.
pub open spec fn escape_char(c: char) -> Seq<char> {
    if c == '&' {
        "&amp;"@
    } else if c == '<' {
        "&lt;"@
    } else if c == '>' {
        "&gt;"@
    } else {
        seq![c]
    }
}

pub open spec fn escaped(s: Seq<char>) -> Seq<char>
    decreases s.len(),
{
    if s.len() == 0 {
        Seq::empty()
    } else {
        escaped(s.drop_last()) + escape_char(s.last())
    }
}

/// Minimal XML escaping for the program path (`&` is legal in file
/// names).
pub fn xml_escape(s: &str) -> (r: String)
    ensures
        r@ == escaped(s@),
{
    let v = chars_of(s);
    let n = v.len();
    let mut out: Vec<char> = Vec::new();
    let mut i: usize = 0;
    while i < n
        invariant
            n == v.len(),
            v@ == s@,
            0 <= i <= n,
            out@ == escaped(v@.take(i as int)),
        decreases n - i,
    {
        let c = v[i];
        assert(v@.take(i as int + 1).drop_last() =~= v@.take(i as int));
        if c == '&' {
            append_str(&mut out, "&amp;");
        } else if c == '<' {
            append_str(&mut out, "&lt;");
        } else if c == '>' {
            append_str(&mut out, "&gt;");
        } else {
            out.push(c);
            assert(out@ =~= escaped(v@.take(i as int)) + seq![c]);
        }
        i += 1;
    }
    assert(v@.take(n as int) =~= v@);
    string_of(&out)
}

/// The LaunchAgent property list that starts `exe` at login.
pub fn plist_body(exe: &str) -> (r: String)
    ensures
        r@ == PLIST_HEAD@ + escaped(exe@) + PLIST_TAIL@,
{
    let mut v = chars_of(PLIST_HEAD);
    let e = xml_escape(exe);
    let ec = chars_of(e.as_str());
    append_chars(&mut v, &ec);
    append_str(&mut v, PLIST_TAIL);
    string_of(&v)
}

} // verus!
