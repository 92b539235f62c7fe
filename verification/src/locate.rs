//! Where to look for the executable of a source application, so that its
//! icon can be shown. Probing the file system is the caller's part; which
//! names and places to probe, and in which order, is decided here.

use vstd::prelude::*;

use crate::hotkey::{ascii_lower_seq, lower_chars};
use crate::text::{
    before_first, chars_of, contains_char, push_chars, slice_to_vec, split_once_chars, string_of,
    trim, trim_chars,
};

verus! {

pub open spec fn is_separator(c: char) -> bool {
    c == '\\' || c == '/'
}

/// `s` without trailing path separators.
pub open spec fn strip_trailing_separators(s: Seq<char>) -> Seq<char>
    decreases s.len(),
{
    if s.len() > 0 && is_separator(s.last()) {
        strip_trailing_separators(s.drop_last())
    } else {
        s
    }
}

/// What follows the last path separator of `s` (all of `s` without one).
pub open spec fn after_last_separator(s: Seq<char>) -> Seq<char>
    decreases s.len(),
{
    if s.len() == 0 {
        s
    } else if is_separator(s.last()) {
        Seq::empty()
    } else {
        after_last_separator(s.drop_last()).push(s.last())
    }
}

/// The file name of a Windows path: its last component, trailing
/// separators ignored; the whole text when there is no usable component
/// (an empty one, `..`, or a drive such as `C:`).
pub open spec fn file_name_spec(t: Seq<char>) -> Seq<char> {
    let last = after_last_separator(strip_trailing_separators(t));
    if last.len() == 0 || last == ".."@ || last.last() == ':' {
        t
    } else {
        last
    }
}

/// The other name an application is known by (WeChat was renamed Weixin).
pub open spec fn alternative_name(file_name: Seq<char>) -> Option<Seq<char>> {
    let l = ascii_lower_seq(file_name);
    if l == "weixin.exe"@ {
        Some("WeChat.exe"@)
    } else if l == "wechat.exe"@ {
        Some("Weixin.exe"@)
    } else {
        None
    }
}

/// Install locations of well-known applications, relative to the program
/// and application-data folders.
pub open spec fn install_hints(file_name: Seq<char>) -> Seq<Seq<char>> {
    let l = ascii_lower_seq(file_name);
    if l == "weixin.exe"@ || l == "wechat.exe"@ {
        seq![
            "Tencent\\WeChat\\WeChat.exe"@,
            "Tencent\\Weixin\\Weixin.exe"@,
            "Tencent\\WeChatApp\\WeChat.exe"@,
            "Programs\\Tencent\\WeChat\\WeChat.exe"@,
        ]
    } else if l == "chrome.exe"@ {
        seq!["Google\\Chrome\\Application\\chrome.exe"@]
    } else if l == "msedge.exe"@ {
        seq!["Microsoft\\Edge\\Application\\msedge.exe"@]
    } else if l == "code.exe"@ {
        seq!["Programs\\Microsoft VS Code\\Code.exe"@, "Microsoft VS Code\\Code.exe"@]
    } else if l == "snipaste.exe"@ {
        seq!["Snipaste\\Snipaste.exe"@]
    } else {
        Seq::empty()
    }
}

/// The probes for an application's executable, in the order they are tried:
/// the text itself when it is a path; then `file_name` on the search path
/// and in the registered application paths; the same for `alternative`;
/// then the system folders for both names; last the install `hints` under
/// the program and application-data folders.
pub struct ExeLookup {
    pub direct: Option<String>,
    pub file_name: String,
    pub alternative: Option<&'static str>,
    pub hints: Vec<&'static str>,
}

/// The lookup for a source application as recorded (`chrome.exe`, a full
/// path, or a name with a ` (likely)` mark); none for an empty or unknown
/// source.
pub open spec fn exe_lookup_name(app: Seq<char>) -> Option<Seq<char>> {
    let t = trim(app);
    if t.len() == 0 || t == "unknown"@ {
        None
    } else {
        Some(trim(before_first(t, " ("@)))
    }
}

pub open spec fn has_separator(t: Seq<char>) -> bool {
    t.contains('\\') || t.contains('/')
}

fn text(s: &str) -> (r: String)
    ensures
        r@ == s@,
{
    let mut t = String::new();
    crate::text::push_str(&mut t, s);
    assert(t@ =~= s@);
    t
}

fn eq_text(a: &[char], b: &str) -> (r: bool)
    ensures
        r == (a@ == b@),
{
    let bc = chars_of(b);
    crate::events::chars_eq(a, bc.as_slice())
}

pub(crate) fn file_name_of(t: &[char]) -> (r: Vec<char>)
    ensures
        r@ == file_name_spec(t@),
{
    let mut end: usize = t.len();
    assert(t@.take(end as int) =~= t@);
    while end > 0 && (t[end - 1] == '\\' || t[end - 1] == '/')
        invariant
            end <= t@.len(),
            strip_trailing_separators(t@) == strip_trailing_separators(t@.take(end as int)),
        decreases end,
    {
        assert(t@.take(end as int).drop_last() =~= t@.take(end as int - 1));
        end -= 1;
    }
    let ghost stripped = t@.take(end as int);
    let mut start: usize = end;
    assert(stripped.subrange(end as int, end as int) =~= Seq::<char>::empty());
    while start > 0 && !(t[start - 1] == '\\' || t[start - 1] == '/')
        invariant
            start <= end <= t@.len(),
            stripped == t@.take(end as int),
            after_last_separator(stripped) == after_last_separator(t@.take(start as int))
                + t@.subrange(start as int, end as int),
        decreases start,
    {
        assert(t@.take(start as int).drop_last() =~= t@.take(start as int - 1));
        assert(t@.subrange(start as int - 1, end as int) =~= seq![t@[start as int - 1]]
            + t@.subrange(start as int, end as int));
        assert(after_last_separator(t@.take(start as int)) == after_last_separator(
            t@.take(start as int - 1),
        ).push(t@[start as int - 1]));
        assert(after_last_separator(t@.take(start as int - 1)).push(t@[start as int - 1])
            + t@.subrange(start as int, end as int) =~= after_last_separator(
            t@.take(start as int - 1),
        ) + t@.subrange(start as int - 1, end as int));
        start -= 1;
    }
    assert(after_last_separator(t@.take(start as int)) =~= Seq::<char>::empty());
    let last = slice_to_vec(t, start, end);
    assert(after_last_separator(stripped) =~= last@);
    let n = last.len();
    if n == 0 || eq_text(last.as_slice(), "..") || last[n - 1] == ':' {
        slice_to_vec(t, 0, t.len())
    } else {
        last
    }
}

/// Where to look for the executable of `app`.
pub fn exe_lookup(app: &str) -> (r: Option<ExeLookup>)
    ensures
        match (r, exe_lookup_name(app@)) {
            (None, None) => true,
            (Some(l), Some(t)) => {
                &&& (match l.direct {
                    Some(d) => has_separator(t) && d@ == t,
                    None => !has_separator(t),
                })
                &&& l.file_name@ == file_name_spec(t)
                &&& (match (l.alternative, alternative_name(file_name_spec(t))) {
                    (Some(a), Some(b)) => a@ == b,
                    (None, None) => true,
                    _ => false,
                })
                &&& l.hints@.len() == install_hints(file_name_spec(t)).len()
                &&& forall|i: int|
                    0 <= i < l.hints@.len() ==> (#[trigger] l.hints@[i])@ == install_hints(
                        file_name_spec(t),
                    )[i]
            },
            _ => false,
        },
{
    let cs = chars_of(app);
    let t = trim_chars(cs.as_slice());
    if t.len() == 0 || eq_text(t.as_slice(), "unknown") {
        return None;
    }
    let mark = chars_of(" (");
    let (base, _) = split_once_chars(t.as_slice(), mark.as_slice());
    let name = trim_chars(base.as_slice());
    let direct = if contains_char(name.as_slice(), '\\') || contains_char(name.as_slice(), '/') {
        Some(string_of(name.as_slice()))
    } else {
        None
    };
    let file = file_name_of(name.as_slice());
    let lower = lower_chars(file.as_slice());
    let l = lower.as_slice();
    let alternative: Option<&'static str> = if eq_text(l, "weixin.exe") {
        Some("WeChat.exe")
    } else if eq_text(l, "wechat.exe") {
        Some("Weixin.exe")
    } else {
        None
    };
    let mut hints: Vec<&'static str> = Vec::new();
    if eq_text(l, "weixin.exe") || eq_text(l, "wechat.exe") {
        hints.push("Tencent\\WeChat\\WeChat.exe");
        hints.push("Tencent\\Weixin\\Weixin.exe");
        hints.push("Tencent\\WeChatApp\\WeChat.exe");
        hints.push("Programs\\Tencent\\WeChat\\WeChat.exe");
    } else if eq_text(l, "chrome.exe") {
        hints.push("Google\\Chrome\\Application\\chrome.exe");
    } else if eq_text(l, "msedge.exe") {
        hints.push("Microsoft\\Edge\\Application\\msedge.exe");
    } else if eq_text(l, "code.exe") {
        hints.push("Programs\\Microsoft VS Code\\Code.exe");
        hints.push("Microsoft VS Code\\Code.exe");
    } else if eq_text(l, "snipaste.exe") {
        hints.push("Snipaste\\Snipaste.exe");
    }
    let file_name = string_of(file.as_slice());
    Some(ExeLookup { direct, file_name, alternative, hints })
}

} // verus!
