//! Helpers for the macOS integration that do not touch AppKit.

use vstd::prelude::*;

use crate::text::{chars_to_string, str_to_chars};

verus! {

/// How one character is written inside an AppleScript string literal.
pub open spec fn applescript_escape_char(c: char) -> Seq<char> {
    if c == '\\' {
        seq!['\\', '\\']
    } else if c == '"' {
        seq!['\\', '"']
    } else {
        seq![c]
    }
}

/// The body of an AppleScript string literal for `s`: every backslash and
/// every double quote is preceded by a backslash.
pub open spec fn applescript_escape(s: Seq<char>) -> Seq<char>
    decreases s.len(),
{
    if s.len() == 0 {
        Seq::empty()
    } else {
        applescript_escape(s.drop_last()) + applescript_escape_char(s.last())
    }
}

/// Wraps `s` in an AppleScript double-quoted string, escaping backslash and `"`.
pub fn applescript_quote(s: &str) -> (quoted: String)
    ensures
        quoted@ == seq!['"'] + applescript_escape(s@) + seq!['"'],
{
    let chars = str_to_chars(s);
    let mut out: Vec<char> = Vec::new();
    out.push('"');
    let n = chars.len();
    let mut i: usize = 0;
    while i < n
        invariant
            n == chars@.len(),
            i <= n,
            out@ == seq!['"'] + applescript_escape(chars@.take(i as int)),
        decreases n - i,
    {
        let c = chars[i];
        if c == '\\' {
            out.push('\\');
            out.push('\\');
        } else if c == '"' {
            out.push('\\');
            out.push('"');
        } else {
            out.push(c);
        }
        assert(chars@.take(i + 1).drop_last() =~= chars@.take(i as int));
        i = i + 1;
    }
    assert(chars@.take(n as int) =~= chars@);
    out.push('"');
    chars_to_string(out.as_slice())
}

/// The AppleScript that shows a notification with `title` and `body`.
pub open spec fn notification_script_text(title: Seq<char>, body: Seq<char>) -> Seq<char> {
    "display notification "@ + seq!['"'] + applescript_escape(body) + seq!['"'] + " with title "@
        + seq!['"'] + applescript_escape(title) + seq!['"']
}

/// The AppleScript that shows a notification with `title` and `body`.
pub fn notification_script(title: &str, body: &str) -> (script: String)
    ensures
        script@ == notification_script_text(title@, body@),
{
    let mut v = str_to_chars("display notification ");
    let body_q = applescript_quote(body);
    let mut b = str_to_chars(body_q.as_str());
    v.append(&mut b);
    let mut w = str_to_chars(" with title ");
    v.append(&mut w);
    let title_q = applescript_quote(title);
    let mut t = str_to_chars(title_q.as_str());
    v.append(&mut t);
    proof {
        assert(v@ =~= notification_script_text(title@, body@));
    }
    chars_to_string(v.as_slice())
}

} // verus!
