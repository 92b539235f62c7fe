//! Window and list decisions of the main window, independent of the toolkit.

use vstd::prelude::*;

use crate::format::ContentKind;
use crate::platform::WindowSignal;
use crate::text::{chars_of, char_vecs, push_char, push_str, split_chars, split_on};

verus! {

#[derive(Debug, Clone, Copy, PartialEq, Eq, Structural)]
pub enum Page {
    History,
    Settings,
}

/// Content filter of the history toolbar.
#[derive(Debug, Clone, Copy, PartialEq, Eq, Structural)]
pub enum Filter {
    All,
    Text,
    Link,
    Code,
    File,
    Image,
}

pub open spec fn filter_label(f: Filter) -> Seq<char> {
    match f {
        Filter::All => "全部"@,
        Filter::Text => "文本"@,
        Filter::Link => "链接"@,
        Filter::Code => "代码"@,
        Filter::File => "文件"@,
        Filter::Image => "图片"@,
    }
}

pub open spec fn ui_filter_matches(f: Filter, kind: ContentKind) -> bool {
    match f {
        Filter::All => true,
        Filter::Text => kind == ContentKind::Text,
        Filter::Link => kind == ContentKind::Link,
        Filter::Code => kind == ContentKind::Code,
        Filter::File => kind == ContentKind::File,
        Filter::Image => kind == ContentKind::Image,
    }
}

impl Filter {
    pub fn label(self) -> (r: &'static str)
        ensures
            r@ == filter_label(self),
    {
        match self {
            Filter::All => "全部",
            Filter::Text => "文本",
            Filter::Link => "链接",
            Filter::Code => "代码",
            Filter::File => "文件",
            Filter::Image => "图片",
        }
    }

    pub fn matches(self, kind: ContentKind) -> (r: bool)
        ensures
            r == ui_filter_matches(self, kind),
    {
        match self {
            Filter::All => true,
            Filter::Text => kind == ContentKind::Text,
            Filter::Link => kind == ContentKind::Link,
            Filter::Code => kind == ContentKind::Code,
            Filter::File => kind == ContentKind::File,
            Filter::Image => kind == ContentKind::Image,
        }
    }
}

#[derive(Debug, Clone, Copy, PartialEq, Eq, Structural)]
pub enum SortOrder {
    Newest,
    Oldest,
}

impl Default for SortOrder {
    fn default() -> (r: Self)
        ensures
            r == SortOrder::Newest,
    {
        SortOrder::Newest
    }
}

impl SortOrder {
    /// Display text of the sort picker.
    pub fn label(self) -> (r: &'static str)
        ensures
            r@ == match self {
                SortOrder::Newest => "最新优先"@,
                SortOrder::Oldest => "最旧优先"@,
            },
    {
        match self {
            SortOrder::Newest => "最新优先",
            SortOrder::Oldest => "最旧优先",
        }
    }
}

#[derive(Debug, Clone, Copy, PartialEq, Eq, Structural)]
pub enum ListDensity {
    Detailed,
    Compact,
}

impl Default for ListDensity {
    fn default() -> (r: Self)
        ensures
            r == ListDensity::Detailed,
    {
        ListDensity::Detailed
    }
}

// ----------------------------------------------------------------------------
// Window requests
// ----------------------------------------------------------------------------

#[derive(Debug, Clone, Copy, PartialEq, Eq, Structural)]
pub enum WindowAction {
    Show,
    Hide,
    Minimize,
}

/// What one request asks of a window that is (or is not) hidden: a second
/// launch always shows it; the hotkey shows a hidden or background window and
/// otherwise sends it to the tray, or to the taskbar when there is no tray.
pub open spec fn window_step(hidden: bool, tray_available: bool, signal: WindowSignal) -> WindowAction {
    match signal {
        WindowSignal::Activate => WindowAction::Show,
        WindowSignal::Hotkey { visible } => if hidden || !visible {
            WindowAction::Show
        } else if tray_available {
            WindowAction::Hide
        } else {
            WindowAction::Minimize
        },
    }
}

/// Requests applied in order: whether the window ends hidden, and the last action.
pub open spec fn resolve_spec(
    initially_hidden: bool,
    tray_available: bool,
    signals: Seq<WindowSignal>,
) -> (bool, Option<WindowAction>)
    decreases signals.len(),
{
    if signals.len() == 0 {
        (initially_hidden, None)
    } else {
        let (hidden, _) = resolve_spec(initially_hidden, tray_available, signals.drop_last());
        let next = window_step(hidden, tray_available, signals.last());
        (next != WindowAction::Show, Some(next))
    }
}

/// Coalesce queued window requests into the one action to perform.
pub fn resolve_window_signals(
    initially_hidden: bool,
    tray_available: bool,
    signals: &[WindowSignal],
) -> (r: Option<WindowAction>)
    ensures
        r == resolve_spec(initially_hidden, tray_available, signals@).1,
{
    let mut hidden = initially_hidden;
    let mut action: Option<WindowAction> = None;
    let mut i: usize = 0;
    while i < signals.len()
        invariant
            i <= signals@.len(),
            (hidden, action) == resolve_spec(initially_hidden, tray_available, signals@.take(i as int)),
        decreases signals@.len() - i,
    {
        assert(signals@.take(i as int + 1).drop_last() =~= signals@.take(i as int));
        let next = match signals[i] {
            WindowSignal::Activate => WindowAction::Show,
            WindowSignal::Hotkey { visible } => if hidden || !visible {
                WindowAction::Show
            } else if tray_available {
                WindowAction::Hide
            } else {
                WindowAction::Minimize
            },
        };
        hidden = next != WindowAction::Show;
        action = Some(next);
        i += 1;
    }
    assert(signals@.take(signals@.len() as int) =~= signals@);
    action
}

// ----------------------------------------------------------------------------
// Line previews
// ----------------------------------------------------------------------------

pub open spec fn strip_cr(l: Seq<char>) -> Seq<char> {
    if l.len() > 0 && l.last() == '\r' {
        l.drop_last()
    } else {
        l
    }
}

/// `str::lines`: split at `\n`, a `\r` before the `\n` dropped, no empty
/// line after a final line break.
pub open spec fn lines_spec(s: Seq<char>) -> Seq<Seq<char>> {
    let ps = split_on(s, '\n');
    if s.len() == 0 {
        Seq::empty()
    } else if s.last() == '\n' {
        Seq::new((ps.len() - 1) as nat, |i: int| strip_cr(ps[i]))
    } else {
        Seq::new(ps.len(), |i: int| if i < ps.len() - 1 { strip_cr(ps[i]) } else { ps[i] })
    }
}

/// Display cells of a character: one for ASCII, two otherwise.
pub open spec fn cells(c: char) -> int {
    if (c as u32) < 0x80 {
        1
    } else {
        2
    }
}

/// The leading characters of `line` that fit in `budget` cells, and whether some did not fit.
pub open spec fn fit(line: Seq<char>, budget: int) -> (Seq<char>, bool)
    decreases line.len(),
{
    if line.len() == 0 {
        (Seq::empty(), false)
    } else if cells(line[0]) > budget {
        (Seq::empty(), true)
    } else {
        let (rest, cut) = fit(line.drop_first(), budget - cells(line[0]));
        (seq![line[0]] + rest, cut)
    }
}

/// Unicode `Cc` characters.
pub open spec fn is_control(c: char) -> bool {
    (c as u32) < 0x20 || (0x7F <= (c as u32) && (c as u32) <= 0x9F)
}

pub open spec fn blank_controls(s: Seq<char>) -> Seq<char> {
    s.map_values(|c: char| if is_control(c) { ' ' } else { c })
}

/// The first line within `max_cells`, with `…` when anything was left out.
pub open spec fn compact_preview_spec(content: Seq<char>, max_cells: usize) -> Seq<char> {
    let ls = lines_spec(content);
    let first = if ls.len() > 0 {
        ls[0]
    } else {
        Seq::empty()
    };
    let (kept, cut) = fit(first, max_cells as int);
    if cut || ls.len() > 1 {
        kept + "…"@
    } else {
        kept
    }
}

/// Up to two lines of at most 56 cells each; the flag tells whether anything is hidden.
pub open spec fn detail_preview_spec(content: Seq<char>) -> (Seq<char>, bool) {
    let ls = lines_spec(content);
    let (k0, c0) = if ls.len() > 0 {
        fit(ls[0], 56)
    } else {
        (Seq::empty(), false)
    };
    let (k1, c1) = if ls.len() > 1 {
        fit(ls[1], 56)
    } else {
        (Seq::empty(), false)
    };
    let shown = if ls.len() == 0 {
        Seq::empty()
    } else if c0 || ls.len() == 1 {
        blank_controls(k0)
    } else {
        blank_controls(k0) + seq!['\n'] + blank_controls(k1)
    };
    let truncated = c0 || (ls.len() > 1 && c1) || ls.len() > 2;
    (
        if truncated {
            shown + "…"@
        } else {
            shown
        },
        truncated,
    )
}

/// The lines of a text, as `str::lines` yields them.
pub fn text_lines(content: &str) -> (r: Vec<Vec<char>>)
    ensures
        char_vecs(r@) == lines_spec(content@),
{
    let cs = chars_of(content);
    let pieces = split_chars(cs.as_slice(), '\n');
    let ghost ps = char_vecs(pieces@);
    let n = pieces.len();
    proof {
        crate::hotkey::lemma_split_len(cs@, '\n');
    }
    let count = if cs.len() == 0 {
        0
    } else if cs[cs.len() - 1] == '\n' {
        n - 1
    } else {
        n
    };
    let mut out: Vec<Vec<char>> = Vec::new();
    let mut i: usize = 0;
    while i < count
        invariant
            ps == char_vecs(pieces@),
            ps == split_on(cs@, '\n'),
            n == ps.len(),
            n >= 1,
            count <= n,
            cs@ == content@,
            count == lines_spec(content@).len(),
            i <= count,
            char_vecs(out@) == lines_spec(content@).take(i as int),
        decreases count - i,
    {
        let piece = &pieces[i];
        assert(piece@ == ps[i as int]);
        let mut line: Vec<char> = Vec::new();
        let len = piece.len();
        let keep = if i + 1 < n && len > 0 && piece[len - 1] == '\r' {
            len - 1
        } else {
            len
        };
        let mut j: usize = 0;
        while j < keep
            invariant
                keep <= piece@.len(),
                j <= keep,
                line@ == piece@.take(j as int),
            decreases keep - j,
        {
            line.push(piece[j]);
            assert(piece@.take(j as int + 1) =~= piece@.take(j as int).push(piece@[j as int]));
            j += 1;
        }
        assert(line@ =~= lines_spec(content@)[i as int]) by {
            if i + 1 < n && len > 0 && piece@[len - 1] == '\r' {
                assert(piece@.take(keep as int) =~= piece@.drop_last());
            } else {
                assert(piece@.take(keep as int) =~= piece@);
            }
        }
        let ghost prev = char_vecs(out@);
        let ghost lv = line@;
        out.push(line);
        assert(char_vecs(out@) =~= prev.push(lv));
        assert(lines_spec(content@).take(i as int + 1) =~= lines_spec(content@).take(i as int).push(
            lines_spec(content@)[i as int],
        ));
        i += 1;
    }
    assert(lines_spec(content@).take(count as int) =~= lines_spec(content@));
    out
}

/// Keeps the leading characters of `line` that fit in `budget` cells.
fn fit_exec(line: &[char], budget: usize) -> (r: (Vec<char>, bool))
    ensures
        (r.0@, r.1) == fit(line@, budget as int),
{
    let mut out: Vec<char> = Vec::new();
    let mut width: usize = 0;
    let mut i: usize = 0;
    assert(line@.skip(0) =~= line@);
    while i < line.len()
        invariant
            i <= line@.len(),
            width <= budget,
            fit(line@, budget as int) == (out@ + fit(line@.skip(i as int), budget - width).0, fit(
                line@.skip(i as int),
                budget - width,
            ).1),
        decreases line@.len() - i,
    {
        let c = line[i];
        let w: usize = if (c as u32) < 0x80 {
            1
        } else {
            2
        };
        let ghost rest = line@.skip(i as int);
        assert(rest[0] == c);
        assert(rest.drop_first() =~= line@.skip(i as int + 1));
        if w > budget - width {
            assert(fit(rest, budget - width) == (Seq::<char>::empty(), true));
            assert(out@ + Seq::<char>::empty() =~= out@);
            return (out, true);
        }
        out.push(c);
        width += w;
        assert(out@.drop_last() + (seq![c] + fit(line@.skip(i as int + 1), budget - width).0) =~= out@
            + fit(line@.skip(i as int + 1), budget - width).0);
        i += 1;
    }
    assert(line@.skip(line@.len() as int) =~= Seq::<char>::empty());
    assert(out@ + Seq::<char>::empty() =~= out@);
    (out, false)
}

fn blank_controls_exec(s: &[char]) -> (r: Vec<char>)
    ensures
        r@ == blank_controls(s@),
{
    let mut out: Vec<char> = Vec::new();
    let mut i: usize = 0;
    while i < s.len()
        invariant
            i <= s@.len(),
            out@ == blank_controls(s@.take(i as int)),
        decreases s@.len() - i,
    {
        let c = s[i];
        let code = c as u32;
        let shown = if code < 0x20 || (0x7F <= code && code <= 0x9F) {
            ' '
        } else {
            c
        };
        out.push(shown);
        assert(blank_controls(s@.take(i as int + 1)) =~= blank_controls(s@.take(i as int)).push(
            shown,
        ));
        i += 1;
    }
    assert(s@.take(s@.len() as int) =~= s@);
    out
}

/// One-line list preview bounded by `max_cells` display cells.
pub fn compact_preview(content: &str, max_cells: usize) -> (r: String)
    ensures
        r@ == compact_preview_spec(content@, max_cells),
{
    let lines = text_lines(content);
    let first: Vec<char> = if lines.len() > 0 {
        let mut v: Vec<char> = Vec::new();
        let src = &lines[0];
        let mut j: usize = 0;
        while j < src.len()
            invariant
                j <= src@.len(),
                v@ == src@.take(j as int),
            decreases src@.len() - j,
        {
            v.push(src[j]);
            assert(src@.take(j as int + 1) =~= src@.take(j as int).push(src@[j as int]));
            j += 1;
        }
        assert(src@.take(src@.len() as int) =~= src@);
        v
    } else {
        Vec::new()
    };
    proof {
        if lines@.len() > 0 {
            assert(first@ == char_vecs(lines@)[0]);
        }
    }
    let (kept, cut) = fit_exec(first.as_slice(), max_cells);
    let mut out = String::new();
    crate::text::push_chars(&mut out, kept.as_slice());
    if cut || lines.len() > 1 {
        push_str(&mut out, "…");
    }
    assert(out@ =~= compact_preview_spec(content@, max_cells));
    out
}

/// Detail preview: two bounded lines, control characters blanked.
pub fn detail_content_preview(content: &str) -> (r: (String, bool))
    ensures
        (r.0@, r.1) == detail_preview_spec(content@),
{
    let lines = text_lines(content);
    let ghost ls = lines_spec(content@);
    let mut out = String::new();
    let mut truncated = false;
    if lines.len() > 0 {
        assert(lines@[0]@ == ls[0]);
        let (k0, c0) = fit_exec(lines[0].as_slice(), 56);
        let shown0 = blank_controls_exec(k0.as_slice());
        crate::text::push_chars(&mut out, shown0.as_slice());
        if c0 {
            truncated = true;
        } else if lines.len() > 1 {
            assert(lines@[1]@ == ls[1]);
            push_char(&mut out, '\n');
            let (k1, c1) = fit_exec(lines[1].as_slice(), 56);
            let shown1 = blank_controls_exec(k1.as_slice());
            crate::text::push_chars(&mut out, shown1.as_slice());
            if c1 {
                truncated = true;
            }
        }
    }
    if lines.len() > 2 {
        truncated = true;
    }
    if truncated {
        push_str(&mut out, "…");
    }
    assert(out@ =~= detail_preview_spec(content@).0);
    (out, truncated)
}

// ----------------------------------------------------------------------------
// Keeping the window on screen
// ----------------------------------------------------------------------------

/// A screen rectangle in physical pixels.
#[derive(Debug, Clone, Copy, PartialEq, Eq, Structural)]
pub struct ScreenRect {
    pub left: i32,
    pub top: i32,
    pub right: i32,
    pub bottom: i32,
}

pub open spec fn clamp_int(v: int, lo: int, hi: int) -> int {
    if v < lo {
        lo
    } else if v > hi {
        hi
    } else {
        v
    }
}

/// `(x, y, width, height)` of the window moved and shrunk as little as
/// possible to lie inside the monitor's work area.
pub open spec fn fitted_placement(window: ScreenRect, work: ScreenRect) -> (int, int, int, int) {
    let ww = work.right - work.left;
    let wh = work.bottom - work.top;
    let width = if window.right - window.left < ww {
        window.right - window.left
    } else {
        ww
    };
    let width = if width < 1 {
        1
    } else {
        width
    };
    let height = if window.bottom - window.top < wh {
        window.bottom - window.top
    } else {
        wh
    };
    let height = if height < 1 {
        1
    } else {
        height
    };
    (
        clamp_int(window.left as int, work.left as int, work.right - width),
        clamp_int(window.top as int, work.top as int, work.bottom - height),
        width,
        height,
    )
}

/// Where a restored window has to go to be fully visible: `None` when it
/// already is, else its new position and size.
pub fn keep_on_work_area(window: ScreenRect, work: ScreenRect) -> (r: Option<(i32, i32, i32, i32)>)
    requires
        work.right - work.left >= 1,
        work.bottom - work.top >= 1,
        i32::MIN <= window.right - window.left <= i32::MAX,
        i32::MIN <= window.bottom - window.top <= i32::MAX,
        work.right - work.left <= i32::MAX,
        work.bottom - work.top <= i32::MAX,
    ensures
        ({
            let (x, y, w, h) = fitted_placement(window, work);
            if x == window.left && y == window.top && w == window.right - window.left && h
                == window.bottom - window.top {
                r is None
            } else {
                r == Some((x as i32, y as i32, w as i32, h as i32))
            }
        }),
{
    let ww = work.right - work.left;
    let wh = work.bottom - work.top;
    let rw = window.right - window.left;
    let rh = window.bottom - window.top;
    let mut width = if rw < ww {
        rw
    } else {
        ww
    };
    if width < 1 {
        width = 1;
    }
    let mut height = if rh < wh {
        rh
    } else {
        wh
    };
    if height < 1 {
        height = 1;
    }
    let max_x = work.right - width;
    let max_y = work.bottom - height;
    let x = if window.left < work.left {
        work.left
    } else if window.left > max_x {
        max_x
    } else {
        window.left
    };
    let y = if window.top < work.top {
        work.top
    } else if window.top > max_y {
        max_y
    } else {
        window.top
    };
    if x != window.left || y != window.top || width != rw || height != rh {
        Some((x, y, width, height))
    } else {
        None
    }
}

} // verus!
