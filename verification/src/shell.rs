//! What the shell actions of the detail panel open.
//!
//! Each function returns the target to hand to the shell's "open" verb, or
//! `None` when nothing may be opened; launching is the caller's part.

use vstd::prelude::*;
use vstd::utf8::encode_utf8;

use crate::text::{
    chars_of, digit_char, push_char, push_str, starts_with_chars, starts_with_seq, string_of,
    trim, trim_chars,
};

verus! {

/// An executable path or name to open: the trimmed text, if any is left.
pub fn open_source(executable: &str) -> (r: Option<String>)
    ensures
        match r {
            Some(t) => t@ == trim(executable@) && t@.len() > 0,
            None => trim(executable@).len() == 0,
        },
{
    let cs = chars_of(executable);
    let t = trim_chars(cs.as_slice());
    if t.len() == 0 {
        None
    } else {
        Some(string_of(t.as_slice()))
    }
}

pub open spec fn link_target(url: Seq<char>) -> Option<Seq<char>> {
    let t = trim(url);
    if starts_with_seq(t, "www."@) {
        Some("https://"@ + t)
    } else if starts_with_seq(t, "http://"@) || starts_with_seq(t, "https://"@) {
        Some(t)
    } else {
        None
    }
}

/// Only web links open: `http://` and `https://` as they are, `www.` over HTTPS.
pub fn open_link(url: &str) -> (r: Option<String>)
    ensures
        match r {
            Some(t) => link_target(url@) == Some(t@),
            None => link_target(url@) is None,
        },
{
    let cs = chars_of(url);
    let t = trim_chars(cs.as_slice());
    let www = chars_of("www.");
    let http = chars_of("http://");
    let https = chars_of("https://");
    if starts_with_chars(t.as_slice(), www.as_slice()) {
        let mut out = String::new();
        push_str(&mut out, "https://");
        crate::text::push_chars(&mut out, t.as_slice());
        Some(out)
    } else if starts_with_chars(t.as_slice(), http.as_slice()) || starts_with_chars(
        t.as_slice(),
        https.as_slice(),
    ) {
        Some(string_of(t.as_slice()))
    } else {
        None
    }
}

/// Unreserved URL bytes: ASCII letters and digits, `-`, `_`, `.`, `~`.
pub open spec fn unreserved(b: u8) -> bool {
    (48 <= b <= 57) || (65 <= b <= 90) || (97 <= b <= 122) || b == 45 || b == 95 || b == 46 || b
        == 126
}

pub open spec fn upper_hex_digit(d: nat) -> char {
    if d < 10 {
        digit_char(d)
    } else {
        ((d - 10) + 65) as char
    }
}

/// Percent-encoding of UTF-8 bytes, with upper-case hex digits.
pub open spec fn percent_encode(bytes: Seq<u8>) -> Seq<char>
    decreases bytes.len(),
{
    if bytes.len() == 0 {
        Seq::empty()
    } else {
        let b = bytes.last();
        percent_encode(bytes.drop_last()) + if unreserved(b) {
            seq![b as char]
        } else {
            seq!['%', upper_hex_digit((b / 16) as nat), upper_hex_digit((b % 16) as nat)]
        }
    }
}

fn upper_hex(d: u8) -> (c: char)
    requires
        d < 16,
    ensures
        c == upper_hex_digit(d as nat),
{
    if d < 10 {
        crate::text::digit(d as u64)
    } else {
        (d - 10 + 65) as char
    }
}

/// Percent-encodes a text's UTF-8 bytes.
pub fn url_encode(value: &str) -> (r: String)
    ensures
        r@ == percent_encode(encode_utf8(value@)),
{
    let bytes = value.as_bytes();
    let mut out = String::new();
    let mut i: usize = 0;
    while i < bytes.len()
        invariant
            i <= bytes@.len(),
            bytes@ == encode_utf8(value@),
            out@ == percent_encode(bytes@.take(i as int)),
        decreases bytes@.len() - i,
    {
        let b = bytes[i];
        assert(bytes@.take(i as int + 1).drop_last() =~= bytes@.take(i as int));
        if (48 <= b && b <= 57) || (65 <= b && b <= 90) || (97 <= b && b <= 122) || b == 45 || b
            == 95 || b == 46 || b == 126 {
            push_char(&mut out, b as char);
        } else {
            push_char(&mut out, '%');
            push_char(&mut out, upper_hex(b / 16));
            push_char(&mut out, upper_hex(b % 16));
        }
        assert(out@ =~= percent_encode(bytes@.take(i as int + 1)));
        i += 1;
    }
    assert(bytes@.take(bytes@.len() as int) =~= bytes@);
    out
}

pub open spec fn search_url(query: Seq<char>) -> Seq<char> {
    "https://www.bing.com/search?q="@ + percent_encode(encode_utf8(trim(query)))
}

/// A Bing search for the trimmed text, opened as a web link.
pub fn web_search(query: &str) -> (r: Option<String>)
    ensures
        match r {
            Some(t) => link_target(search_url(query@)) == Some(t@),
            None => link_target(search_url(query@)) is None,
        },
{
    let cs = chars_of(query);
    let t = trim_chars(cs.as_slice());
    let ts = string_of(t.as_slice());
    let mut url = String::new();
    push_str(&mut url, "https://www.bing.com/search?q=");
    let encoded = url_encode(ts.as_str());
    push_str(&mut url, encoded.as_str());
    open_link(url.as_str())
}

} // verus!
