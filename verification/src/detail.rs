//! Titles and captions of the detail panel.

use vstd::prelude::*;

use crate::events::chars_eq;
use crate::format::ContentKind;
use crate::history::{CardPayloadModel, CardPayloadView, CardView};
use crate::hotkey::{ascii_lower_seq, lower_chars};
use crate::icons::Icon;
use crate::text::{
    after_first, before_first, chars_of, contains_chars, contains_seq, decimal, push_chars,
    push_decimal, push_str, slice_to_vec, split_once_chars, starts_with_chars, starts_with_seq,
    string_of, trim, trim_chars,
};
use crate::ui::{lines_spec, text_lines};

verus! {

// ----------------------------------------------------------------------------
// Pieces of a URL
// ----------------------------------------------------------------------------

/// `t.split(pat).nth(1)`: what lies between the first and the second `pat`.
pub open spec fn second_piece(t: Seq<char>, pat: Seq<char>) -> Option<Seq<char>> {
    match after_first(t, pat) {
        Some(rest) => Some(before_first(rest, pat)),
        None => None,
    }
}

fn second_piece_exec(t: &[char], pat: &[char]) -> (r: Option<Vec<char>>)
    ensures
        match r {
            Some(v) => second_piece(t@, pat@) == Some(v@),
            None => second_piece(t@, pat@) is None,
        },
{
    let (_, rest) = split_once_chars(t, pat);
    match rest {
        Some(rest) => {
            let (piece, _) = split_once_chars(rest.as_slice(), pat);
            Some(piece)
        },
        None => None,
    }
}

/// `s` without leading `c`s.
pub open spec fn strip_leading(s: Seq<char>, c: char) -> Seq<char>
    decreases s.len(),
{
    if s.len() > 0 && s[0] == c {
        strip_leading(s.drop_first(), c)
    } else {
        s
    }
}

/// `s` without trailing `c`s.
pub open spec fn strip_trailing(s: Seq<char>, c: char) -> Seq<char>
    decreases s.len(),
{
    if s.len() > 0 && s.last() == c {
        strip_trailing(s.drop_last(), c)
    } else {
        s
    }
}

/// `s.trim_matches('/')`.
pub open spec fn trim_slashes(s: Seq<char>) -> Seq<char> {
    strip_trailing(strip_leading(s, '/'), '/')
}

fn trim_slashes_exec(s: &[char]) -> (r: Vec<char>)
    ensures
        r@ == trim_slashes(s@),
{
    let mut a: usize = 0;
    assert(s@.subrange(0, s@.len() as int) =~= s@);
    while a < s.len() && s[a] == '/'
        invariant
            a <= s@.len(),
            strip_leading(s@, '/') == strip_leading(s@.subrange(a as int, s@.len() as int), '/'),
        decreases s@.len() - a,
    {
        assert(s@.subrange(a as int, s@.len() as int).drop_first() =~= s@.subrange(
            a as int + 1,
            s@.len() as int,
        ));
        a += 1;
    }
    let rest = slice_to_vec(s, a, s.len());
    let mut b: usize = rest.len();
    assert(rest@.take(rest@.len() as int) =~= rest@);
    while b > 0 && rest[b - 1] == '/'
        invariant
            b <= rest@.len(),
            strip_trailing(rest@, '/') == strip_trailing(rest@.take(b as int), '/'),
        decreases b,
    {
        assert(rest@.take(b as int).drop_last() =~= rest@.take(b as int - 1));
        b -= 1;
    }
    let r = slice_to_vec(rest.as_slice(), 0, b);
    assert(rest@.subrange(0, b as int) =~= rest@.take(b as int));
    r
}

fn text_eq(a: &[char], b: &str) -> (r: bool)
    ensures
        r == (a@ == b@),
{
    let bc = chars_of(b);
    chars_eq(a, bc.as_slice())
}

fn has(hay: &[char], needle: &str) -> (r: bool)
    ensures
        r == contains_seq(hay@, needle@),
{
    let n = chars_of(needle);
    contains_chars(hay, n.as_slice())
}

fn begins(hay: &[char], prefix: &str) -> (r: bool)
    ensures
        r == starts_with_seq(hay@, prefix@),
{
    let p = chars_of(prefix);
    starts_with_chars(hay, p.as_slice())
}

fn text(s: &str) -> (r: String)
    ensures
        r@ == s@,
{
    let mut t = String::new();
    push_str(&mut t, s);
    assert(t@ =~= s@);
    t
}

// ----------------------------------------------------------------------------
// Application names
// ----------------------------------------------------------------------------

/// `s` with every trailing repetition of `suffix` removed (`trim_end_matches`).
pub open spec fn strip_suffixes(s: Seq<char>, suffix: Seq<char>) -> Seq<char>
    decreases s.len(),
{
    if suffix.len() > 0 && s.len() >= suffix.len() && s.skip(s.len() - suffix.len()) == suffix {
        strip_suffixes(s.take(s.len() - suffix.len()), suffix)
    } else {
        s
    }
}

pub(crate) fn strip_suffixes_exec(s: &[char], suffix: &str) -> (r: Vec<char>)
    ensures
        r@ == strip_suffixes(s@, suffix@),
{
    let suf = chars_of(suffix);
    let mut n: usize = s.len();
    assert(s@.take(s@.len() as int) =~= s@);
    while suf.len() > 0 && n >= suf.len() && crate::text::ends_with_chars(
        slice_to_vec(s, 0, n).as_slice(),
        suf.as_slice(),
    )
        invariant
            n <= s@.len(),
            suf@ == suffix@,
            strip_suffixes(s@, suffix@) == strip_suffixes(s@.take(n as int), suffix@),
        decreases n,
    {
        assert(s@.subrange(0, n as int) =~= s@.take(n as int));
        assert(s@.take(n as int).take(n - suf@.len()) =~= s@.take(n - suf@.len()));
        assert(s@.take(n as int).skip(n - suf@.len()) =~= s@.take(n as int).subrange(
            n - suf@.len(),
            n as int,
        ));
        n -= suf.len();
    }
    proof {
        let pre = s@.take(n as int);
        assert(s@.subrange(0, n as int) =~= pre);
        if suf@.len() > 0 && pre.len() >= suf@.len() {
            assert(pre.skip(pre.len() - suf@.len()) =~= pre.subrange(
                pre.len() - suf@.len(),
                pre.len() as int,
            ));
        }
    }
    slice_to_vec(s, 0, n)
}

/// Well-known executables by their friendly name; others without `.exe`.
pub open spec fn short_app_spec(exe: Seq<char>) -> Seq<char> {
    let name = crate::worker::base_exe_spec(exe);
    let l = ascii_lower_seq(name);
    if l == "chrome.exe"@ || l == "chrome"@ {
        "Chrome"@
    } else if l == "idea64.exe"@ || l == "idea"@ {
        "IntelliJ IDEA"@
    } else if l == "datagrip.exe"@ || l == "datagrip"@ {
        "DataGrip"@
    } else if l == "wechat.exe"@ || l == "weixin.exe"@ || l == "wechat"@ || l == "weixin"@ {
        "微信"@
    } else if l == "windowsterminal.exe"@ || l == "terminal"@ {
        "Windows Terminal"@
    } else if l == "explorer.exe"@ || l == "explorer"@ {
        "Explorer"@
    } else if l == "snipaste.exe"@ || l == "snipaste"@ {
        "Snipaste"@
    } else if l == "msedge.exe"@ || l == "edge"@ {
        "Microsoft Edge"@
    } else if l == "code.exe"@ || l == "vscode"@ {
        "VS Code"@
    } else {
        strip_suffixes(strip_suffixes(name, ".exe"@), ".EXE"@)
    }
}

pub fn short_app(exe: &str) -> (r: String)
    ensures
        r@ == short_app_spec(exe@),
{
    let cs = chars_of(exe);
    let pat = chars_of(" (");
    let (name, _) = split_once_chars(cs.as_slice(), pat.as_slice());
    let lv = lower_chars(name.as_slice());
    let l = lv.as_slice();
    if text_eq(l, "chrome.exe") || text_eq(l, "chrome") {
        text("Chrome")
    } else if text_eq(l, "idea64.exe") || text_eq(l, "idea") {
        text("IntelliJ IDEA")
    } else if text_eq(l, "datagrip.exe") || text_eq(l, "datagrip") {
        text("DataGrip")
    } else if text_eq(l, "wechat.exe") || text_eq(l, "weixin.exe") || text_eq(l, "wechat")
        || text_eq(l, "weixin") {
        text("微信")
    } else if text_eq(l, "windowsterminal.exe") || text_eq(l, "terminal") {
        text("Windows Terminal")
    } else if text_eq(l, "explorer.exe") || text_eq(l, "explorer") {
        text("Explorer")
    } else if text_eq(l, "snipaste.exe") || text_eq(l, "snipaste") {
        text("Snipaste")
    } else if text_eq(l, "msedge.exe") || text_eq(l, "edge") {
        text("Microsoft Edge")
    } else if text_eq(l, "code.exe") || text_eq(l, "vscode") {
        text("VS Code")
    } else {
        let a = strip_suffixes_exec(name.as_slice(), ".exe");
        let b = strip_suffixes_exec(a.as_slice(), ".EXE");
        string_of(b.as_slice())
    }
}

// ----------------------------------------------------------------------------
// Paths
// ----------------------------------------------------------------------------

/// A path shortened to `max_chars`: drive, first folder and file name when
/// they fit, otherwise the leading characters and `…`.
pub open spec fn truncate_path_spec(path: Seq<char>, max_chars: usize) -> Seq<char> {
    let parts = crate::text::split_on(path, '\\');
    let short = parts[0] + "\\"@ + parts[1] + "\\...\\"@ + parts.last();
    if path.len() <= max_chars {
        path
    } else if parts.len() >= 3 && short.len() <= max_chars {
        short
    } else {
        path.take(if max_chars == 0 {
            0
        } else {
            max_chars - 1
        }) + "…"@
    }
}

pub fn truncate_path(path: &str, max_chars: usize) -> (r: String)
    ensures
        r@ == truncate_path_spec(path@, max_chars),
{
    let cs = chars_of(path);
    if cs.len() <= max_chars {
        return string_of(cs.as_slice());
    }
    let parts = crate::text::split_chars(cs.as_slice(), '\\');
    let ghost ps = crate::text::char_vecs(parts@);
    if parts.len() >= 3 {
        let last = parts.len() - 1;
        assert(parts@[0]@ == ps[0] && parts@[1]@ == ps[1] && parts@[last as int]@ == ps.last());
        let mut short = String::new();
        push_chars(&mut short, parts[0].as_slice());
        push_str(&mut short, "\\");
        push_chars(&mut short, parts[1].as_slice());
        push_str(&mut short, "\\...\\");
        push_chars(&mut short, parts[last].as_slice());
        let sc = chars_of(short.as_str());
        if sc.len() <= max_chars {
            return short;
        }
    }
    let keep = if max_chars == 0 {
        0
    } else {
        max_chars - 1
    };
    let head = slice_to_vec(cs.as_slice(), 0, keep);
    assert(cs@.subrange(0, keep as int) =~= cs@.take(keep as int));
    let mut out = string_of(head.as_slice());
    push_str(&mut out, "…");
    out
}


// ----------------------------------------------------------------------------
// Links
// ----------------------------------------------------------------------------

/// The host of a link: what precedes the first `/` after `://`.
pub open spec fn url_host(rest: Seq<char>) -> Seq<char> {
    before_first(rest, "/"@)
}

/// The path of a link: what follows the first `/` after `://`, if any.
pub open spec fn url_path(rest: Seq<char>) -> Seq<char> {
    match after_first(rest, "/"@) {
        Some(p) => p,
        None => Seq::empty(),
    }
}

/// The part of `t` after `://`, split into host and path.
fn url_parts(t: &[char]) -> (r: Option<(Vec<char>, Vec<char>)>)
    ensures
        match r {
            Some((h, p)) => second_piece(t@, "://"@) is Some && h@ == url_host(
                second_piece(t@, "://"@)->0,
            ) && p@ == url_path(second_piece(t@, "://"@)->0),
            None => second_piece(t@, "://"@) is None,
        },
{
    let sep = chars_of("://");
    let slash = chars_of("/");
    match second_piece_exec(t, sep.as_slice()) {
        Some(rest) => {
            let (h, p) = split_once_chars(rest.as_slice(), slash.as_slice());
            let path = match p {
                Some(p) => p,
                None => Vec::new(),
            };
            Some((h, path))
        },
        None => None,
    }
}

/// A window title worth showing: not empty, `-` or `unknown`.
pub open spec fn meaningful_window(w: Seq<char>) -> bool {
    w.len() > 0 && w != "-"@ && w != "unknown"@
}

fn is_meaningful_window(w: &[char]) -> (r: bool)
    ensures
        r == meaningful_window(w@),
{
    w.len() > 0 && !text_eq(w, "-") && !text_eq(w, "unknown")
}

/// The title of the context card of a link, by its host.
pub open spec fn link_context_title(host: Seq<char>, path: Seq<char>, window: Seq<char>) -> Seq<
    char,
> {
    if contains_seq(host, "chatgpt.com"@) {
        "ChatGPT 会话"@
    } else if contains_seq(host, "github.com"@) {
        if trim_slashes(path).len() > 0 {
            "GitHub - "@ + trim_slashes(path)
        } else {
            "GitHub 仓库"@
        }
    } else if contains_seq(host, "linux.do"@) {
        "LINUX DO 社区"@
    } else if contains_seq(host, "bilibili.com"@) {
        "哔哩哔哩"@
    } else if meaningful_window(window) {
        window
    } else {
        "网页链接"@
    }
}

/// The context card of the detail panel: the web page a link leads to, or
/// the window the content was copied from.
pub open spec fn context_preview_spec(content: Seq<char>, window: Seq<char>) -> Option<
    (Icon, Seq<char>, Seq<char>),
> {
    let t = trim(content);
    if (starts_with_seq(t, "http://"@) || starts_with_seq(t, "https://"@)) && second_piece(
        t,
        "://"@,
    ) is Some {
        let rest = second_piece(t, "://"@)->0;
        Some((Icon::Globe, link_context_title(url_host(rest), url_path(rest), window), url_host(rest)))
    } else if meaningful_window(trim(window)) {
        Some((Icon::External, trim(window), "窗口上下文"@))
    } else {
        None
    }
}

pub fn extract_context_preview(content: &str, window: &str) -> (r: Option<(Icon, String, String)>)
    ensures
        match r {
            Some((icon, title, caption)) => context_preview_spec(content@, window@) == Some(
                (icon, title@, caption@),
            ),
            None => context_preview_spec(content@, window@) is None,
        },
{
    let cs = chars_of(content);
    let t = trim_chars(cs.as_slice());
    let wc = chars_of(window);
    if begins(t.as_slice(), "http://") || begins(t.as_slice(), "https://") {
        if let Some((host, path)) = url_parts(t.as_slice()) {
            let h = host.as_slice();
            let title = if has(h, "chatgpt.com") {
                text("ChatGPT 会话")
            } else if has(h, "github.com") {
                let repo = trim_slashes_exec(path.as_slice());
                if repo.len() > 0 {
                    let mut s = text("GitHub - ");
                    push_chars(&mut s, repo.as_slice());
                    s
                } else {
                    text("GitHub 仓库")
                }
            } else if has(h, "linux.do") {
                text("LINUX DO 社区")
            } else if has(h, "bilibili.com") {
                text("哔哩哔哩")
            } else if is_meaningful_window(wc.as_slice()) {
                string_of(wc.as_slice())
            } else {
                text("网页链接")
            };
            return Some((Icon::Globe, title, string_of(h)));
        }
    }
    let win = trim_chars(wc.as_slice());
    if is_meaningful_window(win.as_slice()) {
        return Some((Icon::External, string_of(win.as_slice()), text("窗口上下文")));
    }
    None
}

// ----------------------------------------------------------------------------
// Header of the detail panel
// ----------------------------------------------------------------------------

/// The first line of `t`, trimmed (empty when `t` has no line).
pub open spec fn first_line(t: Seq<char>) -> Seq<char> {
    if lines_spec(t).len() > 0 {
        trim(lines_spec(t)[0])
    } else {
        Seq::empty()
    }
}

fn first_line_exec(t: &[char]) -> (r: Vec<char>)
    ensures
        r@ == first_line(t@),
{
    let s = string_of(t);
    let lines = text_lines(s.as_str());
    assert(crate::text::char_vecs(lines@).len() == lines@.len());
    if lines.len() > 0 {
        assert(crate::text::char_vecs(lines@)[0] == lines@[0]@);
        trim_chars(lines[0].as_slice())
    } else {
        Vec::new()
    }
}

/// The title of a link card, by its host.
pub open spec fn link_title(t: Seq<char>) -> Seq<char> {
    match second_piece(t, "://"@) {
        Some(rest) => {
            let host = url_host(rest);
            if contains_seq(host, "chatgpt.com"@) {
                "ChatGPT 对话链接"@
            } else if contains_seq(host, "github.com"@) {
                if trim_slashes(url_path(rest)).len() > 0 {
                    "GitHub - "@ + trim_slashes(url_path(rest))
                } else {
                    "GitHub 仓库"@
                }
            } else if contains_seq(host, "linux.do"@) {
                "LINUX DO 话题链接"@
            } else if contains_seq(host, "bilibili.com"@) {
                "哔哩哔哩视频"@
            } else if contains_seq(host, "zhihu.com"@) {
                "知乎内容"@
            } else if contains_seq(host, "google.com"@) {
                "Google 网页链接"@
            } else {
                "网页链接 · "@ + host
            }
        },
        None => "网页链接"@,
    }
}

/// The title of a code card.
pub open spec fn code_title(t: Seq<char>) -> Seq<char> {
    if starts_with_seq(t, "SELECT "@) || starts_with_seq(t, "INSERT "@) || starts_with_seq(
        t,
        "UPDATE "@,
    ) || starts_with_seq(t, "DELETE "@) {
        "SQL 查询语句"@
    } else if first_line(t).len() > 0 && first_line(t).len() <= 28 {
        "代码 · "@ + first_line(t)
    } else {
        "代码片段"@
    }
}

/// The title of any other text card: its only line when short, else its
/// preview cut to 24 characters.
pub open spec fn plain_title(t: Seq<char>, preview: Seq<char>) -> Seq<char> {
    if first_line(t).len() <= 24 && !t.contains('\n') {
        first_line(t)
    } else if trim(preview).len() > 24 {
        trim(preview).take(24) + "…"@
    } else {
        trim(preview)
    }
}

/// The title in the header of the detail panel.
pub open spec fn detail_title_spec(
    payload: CardPayloadModel,
    kind: ContentKind,
    full: Seq<char>,
    preview: Seq<char>,
) -> Seq<char> {
    match payload {
        CardPayloadModel::Files(ps) => "文件列表 · "@ + decimal(ps.len()) + " 项"@,
        CardPayloadModel::Image { .. } => "剪贴板图片"@,
        CardPayloadModel::Text => if kind == ContentKind::Link {
            link_title(trim(full))
        } else if kind == ContentKind::Code {
            code_title(trim(full))
        } else {
            plain_title(trim(full), preview)
        },
    }
}

fn link_title_exec(t: &[char]) -> (r: String)
    ensures
        r@ == link_title(t@),
{
    match url_parts(t) {
        Some((host, path)) => {
            let h = host.as_slice();
            if has(h, "chatgpt.com") {
                text("ChatGPT 对话链接")
            } else if has(h, "github.com") {
                let repo = trim_slashes_exec(path.as_slice());
                if repo.len() > 0 {
                    let mut s = text("GitHub - ");
                    push_chars(&mut s, repo.as_slice());
                    s
                } else {
                    text("GitHub 仓库")
                }
            } else if has(h, "linux.do") {
                text("LINUX DO 话题链接")
            } else if has(h, "bilibili.com") {
                text("哔哩哔哩视频")
            } else if has(h, "zhihu.com") {
                text("知乎内容")
            } else if has(h, "google.com") {
                text("Google 网页链接")
            } else {
                let mut s = text("网页链接 · ");
                push_chars(&mut s, h);
                s
            }
        },
        None => text("网页链接"),
    }
}

fn code_title_exec(t: &[char]) -> (r: String)
    ensures
        r@ == code_title(t@),
{
    if begins(t, "SELECT ") || begins(t, "INSERT ") || begins(t, "UPDATE ") || begins(
        t,
        "DELETE ",
    ) {
        return text("SQL 查询语句");
    }
    let line = first_line_exec(t);
    if line.len() > 0 && line.len() <= 28 {
        let mut s = text("代码 · ");
        push_chars(&mut s, line.as_slice());
        s
    } else {
        text("代码片段")
    }
}

fn plain_title_exec(t: &[char], preview: &str) -> (r: String)
    ensures
        r@ == plain_title(t@, preview@),
{
    let line = first_line_exec(t);
    if line.len() <= 24 && !crate::text::contains_char(t, '\n') {
        return string_of(line.as_slice());
    }
    let pc = chars_of(preview);
    let p = trim_chars(pc.as_slice());
    if p.len() > 24 {
        let head = slice_to_vec(p.as_slice(), 0, 24);
        assert(p@.subrange(0, 24) =~= p@.take(24));
        let mut s = string_of(head.as_slice());
        push_str(&mut s, "…");
        s
    } else {
        string_of(p.as_slice())
    }
}

pub fn detail_title(card: &CardView) -> (r: String)
    ensures
        r@ == detail_title_spec(
            card.payload@,
            card.kind,
            card.full_content@,
            card.content_preview@,
        ),
{
    match &card.payload {
        CardPayloadView::Files(paths) => {
            let mut s = text("文件列表 · ");
            push_decimal(&mut s, paths.len() as u64);
            push_str(&mut s, " 项");
            return s;
        },
        CardPayloadView::Image { .. } => {
            return text("剪贴板图片");
        },
        CardPayloadView::Text => {},
    }
    let cs = chars_of(card.full_content.as_str());
    let t = trim_chars(cs.as_slice());
    match card.kind {
        ContentKind::Link => link_title_exec(t.as_slice()),
        ContentKind::Code => code_title_exec(t.as_slice()),
        _ => plain_title_exec(t.as_slice(), card.content_preview.as_str()),
    }
}

/// The caption under the title: count, size or host, then the times.
pub open spec fn detail_subtitle_spec(
    payload: CardPayloadModel,
    kind: ContentKind,
    full: Seq<char>,
    relative: Seq<char>,
    time_full: Seq<char>,
) -> Seq<char> {
    match payload {
        CardPayloadModel::Files(ps) => decimal(ps.len()) + " 项 · "@ + relative + " · "@
            + time_full,
        CardPayloadModel::Image { width, height, .. } => decimal(width as nat) + " × "@ + decimal(
            height as nat,
        ) + " px · "@ + time_full,
        CardPayloadModel::Text => if kind == ContentKind::Link && second_piece(
            trim(full),
            "://"@,
        ) is Some {
            url_host(second_piece(trim(full), "://"@)->0) + " · "@ + relative + " · "@ + time_full
        } else {
            relative + " · "@ + time_full
        },
    }
}

pub fn detail_subtitle(card: &CardView) -> (r: String)
    ensures
        r@ == detail_subtitle_spec(
            card.payload@,
            card.kind,
            card.full_content@,
            card.relative_time@,
            card.time_full@,
        ),
{
    let mut s = String::new();
    match &card.payload {
        CardPayloadView::Files(paths) => {
            push_decimal(&mut s, paths.len() as u64);
            push_str(&mut s, " 项 · ");
            push_str(&mut s, card.relative_time.as_str());
            push_str(&mut s, " · ");
            push_str(&mut s, card.time_full.as_str());
            assert(s@ =~= detail_subtitle_spec(
                card.payload@,
                card.kind,
                card.full_content@,
                card.relative_time@,
                card.time_full@,
            ));
            return s;
        },
        CardPayloadView::Image { width, height, .. } => {
            push_decimal(&mut s, *width as u64);
            push_str(&mut s, " × ");
            push_decimal(&mut s, *height as u64);
            push_str(&mut s, " px · ");
            push_str(&mut s, card.time_full.as_str());
            assert(s@ =~= detail_subtitle_spec(
                card.payload@,
                card.kind,
                card.full_content@,
                card.relative_time@,
                card.time_full@,
            ));
            return s;
        },
        CardPayloadView::Text => {},
    }
    if card.kind == ContentKind::Link {
        let cs = chars_of(card.full_content.as_str());
        let t = trim_chars(cs.as_slice());
        if let Some((host, _)) = url_parts(t.as_slice()) {
            push_chars(&mut s, host.as_slice());
            push_str(&mut s, " · ");
        }
    }
    push_str(&mut s, card.relative_time.as_str());
    push_str(&mut s, " · ");
    push_str(&mut s, card.time_full.as_str());
    assert(s@ =~= detail_subtitle_spec(
        card.payload@,
        card.kind,
        card.full_content@,
        card.relative_time@,
        card.time_full@,
    ));
    s
}


/// A button in the detail panel's action row.
#[derive(Debug, Clone, Copy, PartialEq, Eq, Structural)]
pub enum DetailAction {
    OpenLink,
    WebSearch,
    ViewImage,
    CopyPlainText,
    QrCode,
    ExpandFull,
}

/// Text-like kinds: plain text, links and code.
pub open spec fn is_text_kind(kind: ContentKind) -> bool {
    kind == ContentKind::Text || kind == ContentKind::Link || kind == ContentKind::Code
}

pub open spec fn action_if(cond: bool, a: DetailAction) -> Seq<DetailAction> {
    if cond {
        seq![a]
    } else {
        Seq::empty()
    }
}

/// The action row, in order: open link (links), web search (text kinds),
/// view image (image payloads), copy as plain text (always), QR code (text
/// kinds), expand the full text (when the preview is cut short).
pub open spec fn detail_actions_spec(kind: ContentKind, is_image: bool, has_more: bool) -> Seq<
    DetailAction,
> {
    action_if(kind == ContentKind::Link, DetailAction::OpenLink) + action_if(
        is_text_kind(kind),
        DetailAction::WebSearch,
    ) + action_if(is_image, DetailAction::ViewImage) + seq![DetailAction::CopyPlainText] + action_if(
        is_text_kind(kind),
        DetailAction::QrCode,
    ) + action_if(has_more, DetailAction::ExpandFull)
}

/// The detail panel's actions for a card of `kind`; `is_image` says whether
/// its payload is an image, `has_more` whether the preview is cut short.
pub fn detail_actions(kind: ContentKind, is_image: bool, has_more: bool) -> (r: Vec<DetailAction>)
    ensures
        r@ == detail_actions_spec(kind, is_image, has_more),
{
    let text_kind = kind == ContentKind::Text || kind == ContentKind::Link || kind == ContentKind::Code;
    let mut v: Vec<DetailAction> = Vec::new();
    if kind == ContentKind::Link {
        v.push(DetailAction::OpenLink);
    }
    let ghost s1 = v@;
    assert(s1 =~= action_if(kind == ContentKind::Link, DetailAction::OpenLink));
    if text_kind {
        v.push(DetailAction::WebSearch);
    }
    assert(v@ =~= s1 + action_if(is_text_kind(kind), DetailAction::WebSearch));
    let ghost s2 = v@;
    if is_image {
        v.push(DetailAction::ViewImage);
    }
    assert(v@ =~= s2 + action_if(is_image, DetailAction::ViewImage));
    let ghost s3 = v@;
    v.push(DetailAction::CopyPlainText);
    assert(v@ =~= s3 + seq![DetailAction::CopyPlainText]);
    let ghost s4 = v@;
    if text_kind {
        v.push(DetailAction::QrCode);
    }
    assert(v@ =~= s4 + action_if(is_text_kind(kind), DetailAction::QrCode));
    let ghost s5 = v@;
    if has_more {
        v.push(DetailAction::ExpandFull);
    }
    assert(v@ =~= s5 + action_if(has_more, DetailAction::ExpandFull));
    v
}

} // verus!
