//! Display helpers. Confidence marks come from `SourceConfidence`, never from stored names.

use vstd::prelude::*;

use crate::events::{source_confidence_hint, display_source_spec, SourceConfidence};
use crate::model::{ClipboardPayload, PayloadModel, strings_view};
use crate::text::{
    chars_of, contains_char, contains_chars, contains_seq, decimal, is_whitespace, is_ws,
    push_char, push_chars, push_decimal, push_str, slice_to_vec, starts_with_chars,
    starts_with_seq, trim, trim_chars,
};
use crate::time::{local_datetime, local_hhmm, local_hhmm_spec, LocalTime};

verus! {

/// Coarse clipboard content class for list icons and filters.
#[derive(Debug, Clone, Copy, PartialEq, Eq, Structural)]
pub enum ContentKind {
    Link,
    Code,
    Text,
    File,
    Image,
}

pub open spec fn content_kind_label(k: ContentKind) -> Seq<char> {
    match k {
        ContentKind::Link => "URL"@,
        ContentKind::Code => "代码"@,
        ContentKind::Text => "文本"@,
        ContentKind::File => "文件"@,
        ContentKind::Image => "图片"@,
    }
}

pub open spec fn content_kind_hint(k: ContentKind) -> Seq<char> {
    match k {
        ContentKind::Link => "看起来是网页链接"@,
        ContentKind::Code => "看起来像代码片段"@,
        ContentKind::Text => "纯文本内容"@,
        ContentKind::File => "本地文件与文件夹列表"@,
        ContentKind::Image => "剪贴板图像像素"@,
    }
}

impl ContentKind {
    pub fn label(self) -> (r: &'static str)
        ensures
            r@ == content_kind_label(self),
    {
        match self {
            ContentKind::Link => "URL",
            ContentKind::Code => "代码",
            ContentKind::Text => "文本",
            ContentKind::File => "文件",
            ContentKind::Image => "图片",
        }
    }

    pub fn hint(self) -> (r: &'static str)
        ensures
            r@ == content_kind_hint(self),
    {
        match self {
            ContentKind::Link => "看起来是网页链接",
            ContentKind::Code => "看起来像代码片段",
            ContentKind::Text => "纯文本内容",
            ContentKind::File => "本地文件与文件夹列表",
            ContentKind::Image => "剪贴板图像像素",
        }
    }
}

// ----------------------------------------------------------------------------
// Content classification
// ----------------------------------------------------------------------------

/// Number of whitespace-separated words (`split_whitespace().count()`).
pub open spec fn word_count(s: Seq<char>) -> nat
    decreases s.len(),
{
    if s.len() == 0 {
        0
    } else {
        let starts_word = !is_ws(s.last()) && (s.len() == 1 || is_ws(s[s.len() - 2]));
        word_count(s.drop_last()) + if starts_word {
            1nat
        } else {
            0nat
        }
    }
}

/// The text mentions one of the fragments typical of source code.
pub open spec fn has_code_marker(t: Seq<char>) -> bool {
    ||| contains_seq(t, "SELECT "@)
    ||| contains_seq(t, "INSERT "@)
    ||| contains_seq(t, "UPDATE "@)
    ||| contains_seq(t, "DELETE "@)
    ||| contains_seq(t, "function "@)
    ||| contains_seq(t, "=>"@)
    ||| contains_seq(t, "const "@)
    ||| contains_seq(t, "let "@)
    ||| contains_seq(t, "var "@)
    ||| contains_seq(t, "def "@)
    ||| contains_seq(t, "class "@)
    ||| contains_seq(t, "import "@)
    ||| contains_seq(t, "#include"@)
    ||| contains_seq(t, "public "@)
    ||| contains_seq(t, "private "@)
    ||| contains_seq(t, "fn "@)
    ||| contains_seq(t, "struct "@)
    ||| contains_seq(t, "impl "@)
}

/// Heuristic class of a text payload, judged on the trimmed text.
pub open spec fn content_kind_spec(text: Seq<char>) -> ContentKind {
    let t = trim(text);
    if starts_with_seq(t, "http://"@) || starts_with_seq(t, "https://"@) || starts_with_seq(
        t,
        "www."@,
    ) {
        ContentKind::Link
    } else if contains_seq(t, "://"@) && word_count(t) <= 3 {
        ContentKind::Link
    } else if has_code_marker(t) || (t.contains('{') && t.contains(';')) {
        ContentKind::Code
    } else {
        ContentKind::Text
    }
}

/// Class of a payload: taken from the real clipboard format; only text is judged by content.
pub open spec fn payload_kind_spec(p: PayloadModel) -> ContentKind {
    match p {
        PayloadModel::Text(t) => content_kind_spec(t),
        PayloadModel::Files(_) => ContentKind::File,
        PayloadModel::Image { .. } => ContentKind::Image,
    }
}

/// Counts whitespace-separated words.
pub fn count_words(s: &[char]) -> (n: usize)
    ensures
        n == word_count(s@),
{
    let mut n: usize = 0;
    let mut i: usize = 0;
    while i < s.len()
        invariant
            i <= s@.len(),
            n <= i,
            n == word_count(s@.take(i as int)),
        decreases s@.len() - i,
    {
        let ghost pre = s@.take(i as int + 1);
        assert(pre.drop_last() =~= s@.take(i as int));
        if !is_whitespace(s[i]) && (i == 0 || is_whitespace(s[i - 1])) {
            n += 1;
        }
        i += 1;
    }
    assert(s@.take(s@.len() as int) =~= s@);
    n
}

fn contains_str(hay: &[char], needle: &str) -> (r: bool)
    ensures
        r == contains_seq(hay@, needle@),
{
    let n = chars_of(needle);
    contains_chars(hay, n.as_slice())
}

fn starts_with_str(hay: &[char], prefix: &str) -> (r: bool)
    ensures
        r == starts_with_seq(hay@, prefix@),
{
    let p = chars_of(prefix);
    starts_with_chars(hay, p.as_slice())
}

fn code_marker(t: &[char]) -> (r: bool)
    ensures
        r == has_code_marker(t@),
{
    contains_str(t, "SELECT ") || contains_str(t, "INSERT ") || contains_str(t, "UPDATE ")
        || contains_str(t, "DELETE ") || contains_str(t, "function ") || contains_str(t, "=>")
        || contains_str(t, "const ") || contains_str(t, "let ") || contains_str(t, "var ")
        || contains_str(t, "def ") || contains_str(t, "class ") || contains_str(t, "import ")
        || contains_str(t, "#include") || contains_str(t, "public ") || contains_str(
        t,
        "private ",
    ) || contains_str(t, "fn ") || contains_str(t, "struct ") || contains_str(t, "impl ")
}

/// The trimmed text begins with `prefix`.
pub open spec fn trimmed_begins_with(text: Seq<char>, prefix: Seq<char>) -> bool {
    trim(text).len() >= prefix.len() && trim(text).subrange(0, prefix.len() as int) == prefix
}

/// A web address: the trimmed text begins with `http://`, `https://` or `www.`.
pub open spec fn is_web_address(text: Seq<char>) -> bool {
    ||| trimmed_begins_with(text, seq!['h', 't', 't', 'p', ':', '/', '/'])
    ||| trimmed_begins_with(text, seq!['h', 't', 't', 'p', 's', ':', '/', '/'])
    ||| trimmed_begins_with(text, seq!['w', 'w', 'w', '.'])
}

/// Every web address is classified as a link, whatever else the text holds.
pub proof fn law_web_addresses_are_links(text: Seq<char>)
    ensures
        is_web_address(text) ==> content_kind_spec(text) == ContentKind::Link,
{
    reveal_strlit("http://");
    reveal_strlit("https://");
    reveal_strlit("www.");
    let t = trim(text);
    if trimmed_begins_with(text, seq!['h', 't', 't', 'p', ':', '/', '/']) {
        assert("http://"@ =~= seq!['h', 't', 't', 'p', ':', '/', '/']);
        assert(starts_with_seq(t, "http://"@));
    } else if trimmed_begins_with(text, seq!['h', 't', 't', 'p', 's', ':', '/', '/']) {
        assert("https://"@ =~= seq!['h', 't', 't', 'p', 's', ':', '/', '/']);
        assert(starts_with_seq(t, "https://"@));
    } else if trimmed_begins_with(text, seq!['w', 'w', 'w', '.']) {
        assert("www."@ =~= seq!['w', 'w', 'w', '.']);
        assert(starts_with_seq(t, "www."@));
    }
}

/// Heuristic class of a text payload.
pub fn content_kind(text: &str) -> (k: ContentKind)
    ensures
        k == content_kind_spec(text@),
        is_web_address(text@) ==> k == ContentKind::Link,
{
    proof {
        law_web_addresses_are_links(text@);
    }
    let raw = chars_of(text);
    let t = trim_chars(raw.as_slice());
    let t = t.as_slice();
    if starts_with_str(t, "http://") || starts_with_str(t, "https://") || starts_with_str(
        t,
        "www.",
    ) {
        return ContentKind::Link;
    }
    if contains_str(t, "://") && count_words(t) <= 3 {
        return ContentKind::Link;
    }
    if code_marker(t) || (contains_char(t, '{') && contains_char(t, ';')) {
        return ContentKind::Code;
    }
    ContentKind::Text
}

/// Classify from the captured format. Only actual text content uses heuristics.
pub fn payload_kind(payload: &ClipboardPayload) -> (k: ContentKind)
    ensures
        k == payload_kind_spec(payload@),
{
    match payload {
        ClipboardPayload::Text(text) => content_kind(text.as_str()),
        ClipboardPayload::Files(_) => ContentKind::File,
        ClipboardPayload::Image { .. } => ContentKind::Image,
    }
}

// ----------------------------------------------------------------------------
// Previews
// ----------------------------------------------------------------------------

/// Number of characters a one-line preview keeps.
pub const PREVIEW_CHARS: usize = 40;

/// Line breaks, tabs and other control characters below U+0020 read as a space.
pub open spec fn flatten_char(c: char) -> char {
    if '\u{20}' > c {
        ' '
    } else {
        c
    }
}

/// First forty characters on one line, with `…` when the text is longer.
pub open spec fn preview_line_spec(text: Seq<char>) -> Seq<char> {
    if text.len() > PREVIEW_CHARS {
        text.take(40).map_values(|c: char| flatten_char(c)) + "…"@
    } else {
        text.map_values(|c: char| flatten_char(c))
    }
}

pub open spec fn is_path_sep(c: char) -> bool {
    c == '\\' || c == '/'
}

/// What follows the last `\` or `/` of a path (the whole path when it has none).
pub open spec fn last_component(p: Seq<char>) -> Seq<char>
    decreases p.len(),
{
    if p.len() == 0 {
        p
    } else if is_path_sep(p.last()) {
        Seq::empty()
    } else {
        last_component(p.drop_last()).push(p.last())
    }
}

/// List preview that keeps the payload type and never shows full paths.
pub open spec fn payload_preview_spec(p: PayloadModel, text_preview: Seq<char>) -> Seq<char> {
    match p {
        PayloadModel::Text(_) => preview_line_spec(text_preview),
        PayloadModel::Files(ps) => {
            let first = if ps.len() == 0 {
                "文件列表"@
            } else {
                last_component(ps[0])
            };
            if ps.len() > 1 {
                first + " · 共 "@ + decimal(ps.len()) + " 项"@
            } else {
                first
            }
        },
        PayloadModel::Image { width, height, .. } => "图片 · "@ + decimal(width as nat) + " × "@
            + decimal(height as nat),
    }
}

/// One-line preview of at most forty characters.
pub fn preview_line(text: &str) -> (r: String)
    ensures
        r@ == preview_line_spec(text@),
{
    let cs = chars_of(text);
    let n = if cs.len() > PREVIEW_CHARS {
        PREVIEW_CHARS
    } else {
        cs.len()
    };
    let mut out = String::new();
    let mut i: usize = 0;
    while i < n
        invariant
            n <= cs@.len(),
            n == if cs@.len() > PREVIEW_CHARS {
                40int
            } else {
                cs@.len() as int
            },
            i <= n,
            out@ == cs@.take(i as int).map_values(|c: char| flatten_char(c)),
        decreases n - i,
    {
        let c = cs[i];
        let flat = if '\u{20}' > c {
            ' '
        } else {
            c
        };
        push_char(&mut out, flat);
        assert(cs@.take(i as int + 1).map_values(|c: char| flatten_char(c)) =~= cs@.take(
            i as int,
        ).map_values(|c: char| flatten_char(c)).push(flatten_char(cs@[i as int])));
        i += 1;
    }
    if cs.len() > PREVIEW_CHARS {
        push_str(&mut out, "…");
    } else {
        assert(cs@.take(n as int) =~= cs@);
    }
    out
}

/// The last component of a path.
pub fn path_last_component(path: &str) -> (r: Vec<char>)
    ensures
        r@ == last_component(path@),
{
    let cs = chars_of(path);
    let mut k: usize = cs.len();
    assert(cs@.take(cs@.len() as int) =~= cs@);
    assert(cs@.subrange(cs@.len() as int, cs@.len() as int) =~= Seq::<char>::empty());
    while k > 0 && !(cs[k - 1] == '\\' || cs[k - 1] == '/')
        invariant
            k <= cs@.len(),
            last_component(cs@) == last_component(cs@.take(k as int)) + cs@.subrange(
                k as int,
                cs@.len() as int,
            ),
        decreases k,
    {
        let ghost pre = cs@.take(k as int);
        assert(pre.drop_last() =~= cs@.take(k as int - 1));
        assert(cs@.subrange(k as int - 1, cs@.len() as int) =~= seq![cs@[k as int - 1]]
            + cs@.subrange(k as int, cs@.len() as int));
        assert(last_component(pre) == last_component(cs@.take(k as int - 1)).push(
            cs@[k as int - 1],
        ));
        assert(last_component(cs@.take(k as int - 1)).push(cs@[k as int - 1]) + cs@.subrange(
            k as int,
            cs@.len() as int,
        ) =~= last_component(cs@.take(k as int - 1)) + cs@.subrange(
            k as int - 1,
            cs@.len() as int,
        ));
        k -= 1;
    }
    if k == 0 {
        assert(cs@.take(0) =~= Seq::<char>::empty());
    }
    assert(last_component(cs@) =~= cs@.subrange(k as int, cs@.len() as int));
    slice_to_vec(cs.as_slice(), k, cs.len())
}

/// Short list preview that preserves payload type and avoids showing full paths.
pub fn payload_preview(payload: &ClipboardPayload, text_preview: &str) -> (r: String)
    ensures
        r@ == payload_preview_spec(payload@, text_preview@),
{
    match payload {
        ClipboardPayload::Text(_) => preview_line(text_preview),
        ClipboardPayload::Files(paths) => {
            let ghost ps = strings_view(paths@);
            let mut out = String::new();
            if paths.len() == 0 {
                push_str(&mut out, "文件列表");
            } else {
                let first = path_last_component(paths[0].as_str());
                assert(ps[0] == paths@[0]@);
                push_chars(&mut out, first.as_slice());
            }
            if paths.len() > 1 {
                push_str(&mut out, " · 共 ");
                push_decimal(&mut out, paths.len() as u64);
                push_str(&mut out, " 项");
            }
            assert(out@ =~= payload_preview_spec(payload@, text_preview@));
            out
        },
        ClipboardPayload::Image { width, height, .. } => {
            let mut out = String::new();
            push_str(&mut out, "图片 · ");
            push_decimal(&mut out, *width as u64);
            push_str(&mut out, " × ");
            push_decimal(&mut out, *height as u64);
            assert(out@ =~= payload_preview_spec(payload@, text_preview@));
            out
        },
    }
}

// ----------------------------------------------------------------------------
// Labels
// ----------------------------------------------------------------------------

pub fn source_label(app: &str, confidence: SourceConfidence) -> (r: String)
    ensures
        r@ == display_source_spec(confidence, app@),
{
    confidence.display_source(app)
}

pub fn confidence_hint(confidence: SourceConfidence) -> (r: &'static str)
    ensures
        r@ == source_confidence_hint(confidence),
{
    confidence.hint()
}

/// Local `HH:MM` of a timestamp, given the local calendar fields of that instant.
pub fn time_label(ms: i64, local: Option<LocalTime>) -> (r: String)
    ensures
        r@ == local_hhmm_spec(ms, local),
{
    local_hhmm(ms, local)
}

/// `2024-01-22 16:32:18` (local).
pub fn full_time_label(ms: i64, local: Option<LocalTime>) -> (r: String)
    ensures
        r@ == crate::time::local_datetime_spec(ms, local),
{
    local_datetime(ms, local)
}

/// `14:28 – 14:32` when a card spans at least a second; otherwise empty.
pub open spec fn time_range_label_spec(
    first_ms: i64,
    last_ms: i64,
    first_local: Option<LocalTime>,
    last_local: Option<LocalTime>,
) -> Seq<char> {
    if last_ms - first_ms < 1_000 {
        Seq::empty()
    } else {
        local_hhmm_spec(first_ms, first_local) + " – "@ + local_hhmm_spec(last_ms, last_local)
    }
}

/// `14:28 – 14:32` when a card aggregates several copies; single copy → empty.
pub fn time_range_label(
    first_ms: i64,
    last_ms: i64,
    first_local: Option<LocalTime>,
    last_local: Option<LocalTime>,
) -> (r: String)
    requires
        i64::MIN <= last_ms - first_ms <= i64::MAX,
    ensures
        r@ == time_range_label_spec(first_ms, last_ms, first_local, last_local),
{
    if last_ms - first_ms < 1_000 {
        return String::new();
    }
    let mut out = local_hhmm(first_ms, first_local);
    push_str(&mut out, " – ");
    let last = local_hhmm(last_ms, last_local);
    push_str(&mut out, last.as_str());
    out
}

/// `刚刚` / `N 分钟前` / `N 小时前` / `N 天前`; a timestamp in the future reads as `刚刚`.
pub open spec fn relative_time_spec(ms: i64, now_ms: i64) -> Seq<char> {
    let diff: int = if now_ms - ms > 0 {
        now_ms - ms
    } else {
        0
    };
    if diff < 60_000 {
        "刚刚"@
    } else if diff < 3_600_000 {
        decimal((diff / 60_000) as nat) + " 分钟前"@
    } else if diff < 86_400_000 {
        decimal((diff / 3_600_000) as nat) + " 小时前"@
    } else {
        decimal((diff / 86_400_000) as nat) + " 天前"@
    }
}

/// `刚刚` / `N 分钟前` / `N 小时前` / `N 天前`.
pub fn relative_time(ms: i64, now_ms: i64) -> (r: String)
    requires
        i64::MIN <= now_ms - ms <= i64::MAX,
    ensures
        r@ == relative_time_spec(ms, now_ms),
{
    let d = now_ms - ms;
    let diff: u64 = if d > 0 {
        d as u64
    } else {
        0
    };
    let mut out = String::new();
    if diff < 60_000 {
        push_str(&mut out, "刚刚");
    } else if diff < 3_600_000 {
        push_decimal(&mut out, diff / 60_000);
        push_str(&mut out, " 分钟前");
    } else if diff < 86_400_000 {
        push_decimal(&mut out, diff / 3_600_000);
        push_str(&mut out, " 小时前");
    } else {
        push_decimal(&mut out, diff / 86_400_000);
        push_str(&mut out, " 天前");
    }
    assert(out@ =~= relative_time_spec(ms, now_ms));
    out
}

} // verus!
