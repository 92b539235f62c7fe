//! User-selectable global window activation shortcuts.
//!
//! A shortcut is stored as text (`Ctrl+Shift+K`, `alt_v`, `disabled`) and
//! passed to the message window as a packed integer. Both encodings read back
//! as the shortcut that produced them.

use vstd::prelude::*;

use crate::events::chars_eq;
use crate::search::char_vecs_view;
use crate::text::{split_chars, split_on};
use crate::text::{
    chars_of, decimal, digit_char, is_ws, lemma_trim_end_of_untrimmed, lemma_trim_start_of_untrimmed,
    push_chars, push_decimal, push_str, trim, trim_chars,
};

verus! {

pub const MOD_ALT: u32 = 0x1;

pub const MOD_CONTROL: u32 = 0x2;

pub const MOD_SHIFT: u32 = 0x4;

/// A window activation shortcut, or none at all.
#[derive(Debug, Clone, Copy, PartialEq, Eq, Structural)]
pub enum Hotkey {
    Disabled,
    Keys { modifiers: u32, key: u32 },
}

// ----------------------------------------------------------------------------
// Which combinations are accepted
// ----------------------------------------------------------------------------

/// Some of Alt, Ctrl and Shift, nothing else, and at least one of Ctrl or Alt.
pub open spec fn valid_modifiers(m: u32) -> bool {
    m != 0 && m & !7u32 == 0 && m & 3u32 != 0
}

/// Space, a letter, a digit, or F1..F11 (virtual-key codes).
pub open spec fn valid_key(k: u32) -> bool {
    k == 0x20 || (0x41 <= k <= 0x5A) || (0x30 <= k <= 0x39) || (0x70 <= k <= 0x7A)
}

/// Alt+F4 closes windows and is never taken.
pub open spec fn reserved(m: u32, k: u32) -> bool {
    m == MOD_ALT && k == 0x73
}

pub open spec fn new_spec(m: u32, k: u32) -> Option<Hotkey> {
    if valid_modifiers(m) && valid_key(k) && !reserved(m, k) {
        Some(Hotkey::Keys { modifiers: m, key: k })
    } else {
        None
    }
}

/// A shortcut that `Hotkey::new` accepts, or `Disabled`.
pub open spec fn hotkey_valid(h: Hotkey) -> bool {
    match h {
        Hotkey::Disabled => true,
        Hotkey::Keys { modifiers, key } => new_spec(modifiers, key) == Some(h),
    }
}

pub open spec fn alt_v_spec() -> Hotkey {
    Hotkey::Keys { modifiers: MOD_ALT, key: 0x56 }
}

pub proof fn lemma_valid_modifier_values(m: u32)
    ensures
        valid_modifiers(m) <==> (m == 1 || m == 2 || m == 3 || m == 5 || m == 6 || m == 7),
{
    assert(valid_modifiers(m) <==> (m == 1 || m == 2 || m == 3 || m == 5 || m == 6 || m == 7))
        by (bit_vector);
}

// ----------------------------------------------------------------------------
// Packed window-message code
// ----------------------------------------------------------------------------

pub open spec fn code_spec(h: Hotkey) -> usize {
    match h {
        Hotkey::Disabled => 0,
        Hotkey::Keys { modifiers, key } => ((modifiers as usize) << 16usize) | (key as usize),
    }
}

pub open spec fn from_code_spec(code: usize) -> Option<Hotkey> {
    if code == 0 {
        Some(Hotkey::Disabled)
    } else {
        new_spec((code >> 16usize) as u32, (code & 0xFFFFusize) as u32)
    }
}

proof fn lemma_pack_unpack(m: u32, k: u32)
    requires
        1 <= m <= 7,
        k <= 0xFFFF,
    ensures
        ((((m as usize) << 16usize) | (k as usize)) >> 16usize) as u32 == m,
        ((((m as usize) << 16usize) | (k as usize)) & 0xFFFFusize) as u32 == k,
        (((m as usize) << 16usize) | (k as usize)) != 0,
{
    assert(((((m as usize) << 16usize) | (k as usize)) >> 16usize) as u32 == m) by (bit_vector)
        requires
            1 <= m <= 7,
            k <= 0xFFFF,
    ;
    assert(((((m as usize) << 16usize) | (k as usize)) & 0xFFFFusize) as u32 == k) by (bit_vector)
        requires
            1 <= m <= 7,
            k <= 0xFFFF,
    ;
    assert((((m as usize) << 16usize) | (k as usize)) != 0) by (bit_vector)
        requires
            1 <= m <= 7,
            k <= 0xFFFF,
    ;
}

/// The code a shortcut is sent with through the window message names that shortcut again.
pub proof fn law_hotkey_code_round_trip(h: Hotkey)
    requires
        hotkey_valid(h),
    ensures
        from_code_spec(code_spec(h)) == Some(h),
{
    if let Hotkey::Keys { modifiers, key } = h {
        lemma_valid_modifier_values(modifiers);
        lemma_pack_unpack(modifiers, key);
    }
}

// ----------------------------------------------------------------------------
// Display text
// ----------------------------------------------------------------------------

/// Code points that are Unicode scalar values (what `char::from_u32` accepts).
pub open spec fn is_scalar(n: u32) -> bool {
    n <= 0x10FFFF && !(0xD800 <= n <= 0xDFFF)
}

/// Calls `char::from_u32`: the character with that code point, if it is a scalar value.
#[verifier::external_body]
fn char_from_u32(n: u32) -> (r: Option<char>)
    ensures
        is_scalar(n) ==> r == Some(n as char),
        !is_scalar(n) ==> r is None,
{
    char::from_u32(n)
}

pub open spec fn key_name(k: u32) -> Seq<char> {
    if k == 0x20 {
        "Space"@
    } else if 0x70 <= k <= 0x7A {
        "F"@ + decimal((k - 0x70 + 1) as nat)
    } else if is_scalar(k) {
        seq![k as char]
    } else {
        "?"@
    }
}

/// `Ctrl+Alt+Shift+K`, modifiers in that order; `关闭快捷键` when disabled.
pub open spec fn label_spec(h: Hotkey) -> Seq<char> {
    match h {
        Hotkey::Disabled => "关闭快捷键"@,
        Hotkey::Keys { modifiers, key } => (if modifiers & MOD_CONTROL != 0 {
            "Ctrl+"@
        } else {
            Seq::empty()
        }) + (if modifiers & MOD_ALT != 0 {
            "Alt+"@
        } else {
            Seq::empty()
        }) + (if modifiers & MOD_SHIFT != 0 {
            "Shift+"@
        } else {
            Seq::empty()
        }) + key_name(key),
    }
}

/// The stored form: `disabled`, or the display text.
pub open spec fn as_key_spec(h: Hotkey) -> Seq<char> {
    match h {
        Hotkey::Disabled => "disabled"@,
        _ => label_spec(h),
    }
}

// ----------------------------------------------------------------------------
// Parsing
// ----------------------------------------------------------------------------

pub open spec fn ascii_lower(c: char) -> char {
    if 'A' <= c && c <= 'Z' {
        ((c as u32) + 32) as char
    } else {
        c
    }
}

pub open spec fn ascii_upper(c: char) -> char {
    if 'a' <= c && c <= 'z' {
        ((c as u32) - 32) as char
    } else {
        c
    }
}

pub open spec fn is_ascii_digit(c: char) -> bool {
    '0' <= c && c <= '9'
}

pub open spec fn is_ascii_alnum(c: char) -> bool {
    is_ascii_digit(c) || ('a' <= c && c <= 'z') || ('A' <= c && c <= 'Z')
}

/// `str::to_ascii_lowercase`.
pub open spec fn ascii_lower_seq(s: Seq<char>) -> Seq<char> {
    s.map_values(|c: char| ascii_lower(c))
}

/// A part of a shortcut as it is compared: trimmed and ASCII-lowercased.
pub open spec fn token(s: Seq<char>) -> Seq<char> {
    ascii_lower_seq(trim(s))
}

pub open spec fn all_digits(s: Seq<char>) -> bool {
    forall|i: int| 0 <= i < s.len() ==> is_ascii_digit(#[trigger] s[i])
}

pub open spec fn digits_value(s: Seq<char>) -> nat
    decreases s.len(),
{
    if s.len() == 0 {
        0
    } else {
        digits_value(s.drop_last()) * 10 + ((s.last() as u32) - 0x30) as nat
    }
}

/// The virtual-key code a non-modifier part names: one letter or digit, or `f1`..`f11`.
pub open spec fn main_key(p: Seq<char>) -> Option<u32> {
    if p.len() == 1 {
        if is_ascii_alnum(p[0]) {
            Some(ascii_upper(p[0]) as u32)
        } else {
            None
        }
    } else if p.len() > 1 && p[0] == 'f' && all_digits(p.drop_first()) && 1 <= digits_value(
        p.drop_first(),
    ) <= 11 {
        Some((0x70 + digits_value(p.drop_first()) - 1) as u32)
    } else {
        None
    }
}

/// Progress through the `+`-separated parts of a shortcut.
#[derive(Debug, Clone, Copy, PartialEq, Eq, Structural)]
pub enum ParseState {
    Going { modifiers: u32, key: Option<u32> },
    Failed,
}

/// One part: a modifier adds its bit; otherwise it must be the first main key.
pub open spec fn parse_step(st: ParseState, part: Seq<char>) -> ParseState {
    match st {
        ParseState::Failed => ParseState::Failed,
        ParseState::Going { modifiers, key } => {
            let p = token(part);
            if p == "alt"@ {
                ParseState::Going { modifiers: modifiers | MOD_ALT, key }
            } else if p == "ctrl"@ || p == "control"@ {
                ParseState::Going { modifiers: modifiers | MOD_CONTROL, key }
            } else if p == "shift"@ {
                ParseState::Going { modifiers: modifiers | MOD_SHIFT, key }
            } else if key is None {
                if p == "space"@ {
                    ParseState::Going { modifiers, key: Some(0x20) }
                } else {
                    match main_key(p) {
                        Some(k) => ParseState::Going { modifiers, key: Some(k) },
                        None => ParseState::Failed,
                    }
                }
            } else {
                ParseState::Failed
            }
        },
    }
}

pub open spec fn parse_parts(parts: Seq<Seq<char>>) -> ParseState
    decreases parts.len(),
{
    if parts.len() == 0 {
        ParseState::Going { modifiers: 0, key: None }
    } else {
        parse_step(parse_parts(parts.drop_last()), parts.last())
    }
}

/// `Hotkey::parse`: the named presets, else `+`-separated modifiers and one main key.
pub open spec fn parse_spec(v: Seq<char>) -> Option<Hotkey> {
    let t = ascii_lower_seq(trim(v));
    if t == "disabled"@ || t == "关闭快捷键"@ {
        Some(Hotkey::Disabled)
    } else if t == "alt_v"@ {
        Some(alt_v_spec())
    } else if t == "ctrl_alt_v"@ {
        new_spec(MOD_CONTROL | MOD_ALT, 0x56)
    } else if t == "alt_shift_v"@ {
        new_spec(MOD_ALT | MOD_SHIFT, 0x56)
    } else {
        match parse_parts(split_on(v, '+')) {
            ParseState::Going { modifiers, key: Some(k) } => new_spec(modifiers, k),
            _ => None,
        }
    }
}

pub open spec fn from_key_spec(v: Seq<char>) -> Hotkey {
    match parse_spec(v) {
        Some(h) => h,
        None => alt_v_spec(),
    }
}

// ----------------------------------------------------------------------------
// The stored form reads back as the shortcut that wrote it
// ----------------------------------------------------------------------------

pub proof fn lemma_split_len(s: Seq<char>, sep: char)
    ensures
        split_on(s, sep).len() >= 1,
    decreases s.len(),
{
    if s.len() > 0 {
        lemma_split_len(s.drop_last(), sep);
    }
}

proof fn lemma_split_without_sep(s: Seq<char>, sep: char)
    requires
        !s.contains(sep),
    ensures
        split_on(s, sep) == seq![s],
    decreases s.len(),
{
    if s.len() > 0 {
        let p = s.drop_last();
        assert(!p.contains(sep)) by {
            if p.contains(sep) {
                let i = choose|i: int| 0 <= i < p.len() && p[i] == sep;
                assert(s[i] == sep);
            }
        }
        lemma_split_without_sep(p, sep);
        assert(s.last() != sep) by {
            assert(s[s.len() - 1] == s.last());
        }
        assert(p.push(s.last()) =~= s);
        assert(seq![p].update(0, p.push(s.last())) =~= seq![s]);
    } else {
        assert(s =~= Seq::<char>::empty());
    }
}

/// Splitting at a separator splits both sides independently.
proof fn lemma_split_concat(x: Seq<char>, y: Seq<char>, sep: char)
    ensures
        split_on(x + seq![sep] + y, sep) == split_on(x, sep) + split_on(y, sep),
    decreases y.len(),
{
    let s = x + seq![sep] + y;
    if y.len() == 0 {
        assert(s.drop_last() =~= x);
        assert(split_on(y, sep) =~= seq![Seq::<char>::empty()]);
        assert(split_on(x, sep).push(Seq::empty()) =~= split_on(x, sep) + seq![Seq::<char>::empty()]);
    } else {
        let y1 = y.drop_last();
        lemma_split_concat(x, y1, sep);
        lemma_split_len(y1, sep);
        assert(s.drop_last() =~= x + seq![sep] + y1);
        assert(s.last() == y.last());
        let a = split_on(x, sep);
        let b = split_on(y1, sep);
        if y.last() == sep {
            assert((a + b).push(Seq::empty()) =~= a + b.push(Seq::empty()));
        } else {
            assert((a + b).update((a + b).len() - 1, (a + b).last().push(y.last())) =~= a + b.update(
                b.len() - 1,
                b.last().push(y.last()),
            ));
        }
    }
}

/// A part that starts and ends with a non-space compares as its lowercase form.
proof fn lemma_token_untrimmed(s: Seq<char>)
    requires
        s.len() > 0,
        !is_ws(s[0]),
        !is_ws(s.last()),
    ensures
        trim(s) == s,
        token(s) == ascii_lower_seq(s),
{
    lemma_trim_start_of_untrimmed(s);
    lemma_trim_end_of_untrimmed(s);
}

proof fn lemma_or_table()
    ensures
        0u32 | 1u32 == 1u32,
        0u32 | 2u32 == 2u32,
        2u32 | 1u32 == 3u32,
        1u32 | 4u32 == 5u32,
        2u32 | 4u32 == 6u32,
        3u32 | 4u32 == 7u32,
        2u32 | 1u32 == 3u32,
        3u32 == 3u32,
        (MOD_CONTROL | MOD_ALT) == 3u32,
        (MOD_ALT | MOD_SHIFT) == 5u32,
{
    assert(0u32 | 1u32 == 1u32) by (bit_vector);
    assert(0u32 | 2u32 == 2u32) by (bit_vector);
    assert(2u32 | 1u32 == 3u32) by (bit_vector);
    assert(1u32 | 4u32 == 5u32) by (bit_vector);
    assert(2u32 | 4u32 == 6u32) by (bit_vector);
    assert(3u32 | 4u32 == 7u32) by (bit_vector);
}

proof fn lemma_modifier_bits(m: u32)
    ensures
        m == 1 ==> (m & 2 == 0 && m & 1 != 0 && m & 4 == 0),
        m == 2 ==> (m & 2 != 0 && m & 1 == 0 && m & 4 == 0),
        m == 3 ==> (m & 2 != 0 && m & 1 != 0 && m & 4 == 0),
        m == 5 ==> (m & 2 == 0 && m & 1 != 0 && m & 4 != 0),
        m == 6 ==> (m & 2 != 0 && m & 1 == 0 && m & 4 != 0),
        m == 7 ==> (m & 2 != 0 && m & 1 != 0 && m & 4 != 0),
{
    assert(m == 1 ==> (m & 2 == 0 && m & 1 != 0 && m & 4 == 0)) by (bit_vector);
    assert(m == 2 ==> (m & 2 != 0 && m & 1 == 0 && m & 4 == 0)) by (bit_vector);
    assert(m == 3 ==> (m & 2 != 0 && m & 1 != 0 && m & 4 == 0)) by (bit_vector);
    assert(m == 5 ==> (m & 2 == 0 && m & 1 != 0 && m & 4 != 0)) by (bit_vector);
    assert(m == 6 ==> (m & 2 != 0 && m & 1 == 0 && m & 4 != 0)) by (bit_vector);
    assert(m == 7 ==> (m & 2 != 0 && m & 1 != 0 && m & 4 != 0)) by (bit_vector);
}

/// The modifier words, each followed by its separator.
proof fn lemma_modifier_words()
    ensures
        "Ctrl+"@ == "Ctrl"@ + seq!['+'],
        "Alt+"@ == "Alt"@ + seq!['+'],
        "Shift+"@ == "Shift"@ + seq!['+'],
        !"Ctrl"@.contains('+'),
        !"Alt"@.contains('+'),
        !"Shift"@.contains('+'),
        token("Ctrl"@) == "ctrl"@,
        token("Alt"@) == "alt"@,
        token("Shift"@) == "shift"@,
        "ctrl"@ != "alt"@,
        "shift"@ != "alt"@,
        "shift"@ != "ctrl"@,
        "shift"@ != "control"@,
{
    reveal_strlit("Ctrl+");
    reveal_strlit("Alt+");
    reveal_strlit("Shift+");
    reveal_strlit("Ctrl");
    reveal_strlit("Alt");
    reveal_strlit("Shift");
    reveal_strlit("ctrl");
    reveal_strlit("alt");
    reveal_strlit("shift");
    reveal_strlit("control");
    assert("Ctrl+"@ =~= "Ctrl"@ + seq!['+']);
    assert("Alt+"@ =~= "Alt"@ + seq!['+']);
    assert("Shift+"@ =~= "Shift"@ + seq!['+']);
    lemma_token_untrimmed("Ctrl"@);
    lemma_token_untrimmed("Alt"@);
    lemma_token_untrimmed("Shift"@);
    assert(ascii_lower_seq("Ctrl"@) =~= "ctrl"@);
    assert(ascii_lower_seq("Alt"@) =~= "alt"@);
    assert(ascii_lower_seq("Shift"@) =~= "shift"@);
    assert("ctrl"@.len() != "alt"@.len());
    assert("shift"@.len() != "alt"@.len());
    assert("shift"@.len() != "ctrl"@.len());
    assert("shift"@.len() != "control"@.len());
}

proof fn lemma_digits_of_small(n: nat)
    requires
        1 <= n <= 11,
    ensures
        decimal(n).len() >= 1,
        all_digits(decimal(n)),
        digits_value(decimal(n)) == n,
        !decimal(n).contains('+'),
        !is_ws(decimal(n).last()),
        ascii_lower_seq(decimal(n)) == decimal(n),
{
    reveal_with_fuel(decimal, 2);
    let d = decimal(n);
    if n < 10 {
        assert(d =~= seq![digit_char(n)]);
        assert(d.drop_last() =~= Seq::<char>::empty());
        assert(digits_value(d.drop_last()) == 0);
        assert((digit_char(n) as u32) - 0x30 == n);
    } else {
        assert(decimal(n / 10) =~= seq!['1']);
        assert(d =~= seq!['1', digit_char((n % 10) as nat)]);
        assert(d.drop_last() =~= seq!['1']);
        assert(d.drop_last().drop_last() =~= Seq::<char>::empty());
        assert(digits_value(d.drop_last().drop_last()) == 0);
        assert(digits_value(d.drop_last()) == 1);
        assert((digit_char((n % 10) as nat) as u32) - 0x30 == n % 10);
    }
    assert(ascii_lower_seq(d) =~= d);
}

/// The main key's own part: no separator inside, and it reads back as the key.
proof fn lemma_key_part(m: u32, k: u32)
    requires
        valid_key(k),
    ensures
        !key_name(k).contains('+'),
        key_name(k).len() >= 1,
        !is_ws(key_name(k).last()),
        parse_step((ParseState::Going { modifiers: m, key: None }), key_name(k)) == (
        ParseState::Going { modifiers: m, key: Some(k) }),
{
    let kn = key_name(k);
    reveal_strlit("alt");
    reveal_strlit("ctrl");
    reveal_strlit("control");
    reveal_strlit("shift");
    reveal_strlit("space");
    if k == 0x20 {
        reveal_strlit("Space");
        lemma_token_untrimmed(kn);
        assert(token(kn) =~= "space"@);
    } else if 0x70 <= k <= 0x7A {
        let n: nat = (k - 0x70 + 1) as nat;
        reveal_strlit("F");
        lemma_digits_of_small(n);
        let d = decimal(n);
        assert(kn =~= seq!['F'] + d);
        assert(kn.last() == d.last());
        assert(!kn.contains('+')) by {
            if kn.contains('+') {
                let i = choose|i: int| 0 <= i < kn.len() && kn[i] == '+';
                if i > 0 {
                    assert(d[i - 1] == '+');
                }
            }
        }
        lemma_token_untrimmed(kn);
        let t = token(kn);
        assert(t =~= seq!['f'] + d);
        assert(t.drop_first() =~= d);
        assert(t[0] == 'f');
        assert(t.len() > 1);
        assert(t != "alt"@ && t != "ctrl"@ && t != "control"@ && t != "shift"@ && t != "space"@);
    } else {
        assert(is_scalar(k));
        assert(kn =~= seq![k as char]);
        lemma_token_untrimmed(kn);
        let t = token(kn);
        assert(t =~= seq![ascii_lower(k as char)]);
        assert(t.len() == 1);
        assert(t != "alt"@ && t != "ctrl"@ && t != "control"@ && t != "shift"@ && t != "space"@);
        assert(ascii_upper(t[0]) as u32 == k);
    }
}

/// Reading the parts of a shortcut with modifiers `m`: modifier words then the key.
#[verifier::rlimit(50)]
proof fn lemma_parts_of_label(m: u32, k: u32)
    requires
        valid_modifiers(m),
        valid_key(k),
    ensures
        ({
            let l = label_spec(Hotkey::Keys { modifiers: m, key: k });
            &&& parse_parts(split_on(l, '+')) == ParseState::Going { modifiers: m, key: Some(k) }
            &&& l.len() >= 1
            &&& !is_ws(l[0])
            &&& !is_ws(l.last())
            &&& (m & 2 != 0 ==> l.len() > 4 && l[4] == '+')
            &&& (m & 2 == 0 ==> l.len() > 3 && l[3] == '+')
        }),
{
    let kn = key_name(k);
    let l = label_spec(Hotkey::Keys { modifiers: m, key: k });
    lemma_valid_modifier_values(m);
    lemma_modifier_bits(m);
    lemma_modifier_words();
    lemma_or_table();
    lemma_key_part(0, k);
    lemma_key_part(m, k);
    lemma_split_without_sep(kn, '+');
    lemma_split_without_sep("Ctrl"@, '+');
    lemma_split_without_sep("Alt"@, '+');
    lemma_split_without_sep("Shift"@, '+');
    reveal_strlit("Ctrl");
    reveal_strlit("Alt");
    reveal_strlit("Shift");
    reveal_with_fuel(parse_parts, 5);
    if m == 1 {
        assert(l =~= "Alt"@ + seq!['+'] + kn);
        lemma_split_concat("Alt"@, kn, '+');
        let ps = seq!["Alt"@, kn];
        assert(split_on(l, '+') =~= ps);
        assert(ps.drop_last() =~= seq!["Alt"@]);
        assert(seq!["Alt"@].drop_last() =~= Seq::<Seq<char>>::empty());
        assert(parse_parts(seq!["Alt"@]) == ParseState::Going { modifiers: 1, key: None });
    } else if m == 2 {
        assert(l =~= "Ctrl"@ + seq!['+'] + kn);
        lemma_split_concat("Ctrl"@, kn, '+');
        let ps = seq!["Ctrl"@, kn];
        assert(split_on(l, '+') =~= ps);
        assert(ps.drop_last() =~= seq!["Ctrl"@]);
        assert(seq!["Ctrl"@].drop_last() =~= Seq::<Seq<char>>::empty());
        assert(parse_parts(seq!["Ctrl"@]) == ParseState::Going { modifiers: 2, key: None });
    } else if m == 3 {
        let tail = "Alt"@ + seq!['+'] + kn;
        assert(l =~= "Ctrl"@ + seq!['+'] + tail);
        lemma_split_concat("Alt"@, kn, '+');
        lemma_split_concat("Ctrl"@, tail, '+');
        let ps = seq!["Ctrl"@, "Alt"@, kn];
        assert(split_on(l, '+') =~= ps);
        assert(ps.drop_last() =~= seq!["Ctrl"@, "Alt"@]);
        assert(seq!["Ctrl"@, "Alt"@].drop_last() =~= seq!["Ctrl"@]);
        assert(seq!["Ctrl"@].drop_last() =~= Seq::<Seq<char>>::empty());
        assert(parse_parts(seq!["Ctrl"@]) == ParseState::Going { modifiers: 2, key: None });
        assert(parse_parts(seq!["Ctrl"@, "Alt"@]) == ParseState::Going { modifiers: 3, key: None });
    } else if m == 5 {
        let tail = "Shift"@ + seq!['+'] + kn;
        assert(l =~= "Alt"@ + seq!['+'] + tail);
        lemma_split_concat("Shift"@, kn, '+');
        lemma_split_concat("Alt"@, tail, '+');
        let ps = seq!["Alt"@, "Shift"@, kn];
        assert(split_on(l, '+') =~= ps);
        assert(ps.drop_last() =~= seq!["Alt"@, "Shift"@]);
        assert(seq!["Alt"@, "Shift"@].drop_last() =~= seq!["Alt"@]);
        assert(seq!["Alt"@].drop_last() =~= Seq::<Seq<char>>::empty());
        assert(parse_parts(seq!["Alt"@]) == ParseState::Going { modifiers: 1, key: None });
        assert(parse_parts(seq!["Alt"@, "Shift"@]) == ParseState::Going { modifiers: 5, key: None });
    } else if m == 6 {
        let tail = "Shift"@ + seq!['+'] + kn;
        assert(l =~= "Ctrl"@ + seq!['+'] + tail);
        lemma_split_concat("Shift"@, kn, '+');
        lemma_split_concat("Ctrl"@, tail, '+');
        let ps = seq!["Ctrl"@, "Shift"@, kn];
        assert(split_on(l, '+') =~= ps);
        assert(ps.drop_last() =~= seq!["Ctrl"@, "Shift"@]);
        assert(seq!["Ctrl"@, "Shift"@].drop_last() =~= seq!["Ctrl"@]);
        assert(seq!["Ctrl"@].drop_last() =~= Seq::<Seq<char>>::empty());
        assert(parse_parts(seq!["Ctrl"@]) == ParseState::Going { modifiers: 2, key: None });
        assert(parse_parts(seq!["Ctrl"@, "Shift"@]) == ParseState::Going { modifiers: 6, key: None });
    } else {
        let tail2 = "Shift"@ + seq!['+'] + kn;
        let tail = "Alt"@ + seq!['+'] + tail2;
        assert(l =~= "Ctrl"@ + seq!['+'] + tail);
        lemma_split_concat("Shift"@, kn, '+');
        lemma_split_concat("Alt"@, tail2, '+');
        lemma_split_concat("Ctrl"@, tail, '+');
        let ps = seq!["Ctrl"@, "Alt"@, "Shift"@, kn];
        assert(split_on(l, '+') =~= ps);
        assert(ps.drop_last() =~= seq!["Ctrl"@, "Alt"@, "Shift"@]);
        assert(seq!["Ctrl"@, "Alt"@, "Shift"@].drop_last() =~= seq!["Ctrl"@, "Alt"@]);
        assert(seq!["Ctrl"@, "Alt"@].drop_last() =~= seq!["Ctrl"@]);
        assert(seq!["Ctrl"@].drop_last() =~= Seq::<Seq<char>>::empty());
        assert(parse_parts(seq!["Ctrl"@]) == ParseState::Going { modifiers: 2, key: None });
        assert(parse_parts(seq!["Ctrl"@, "Alt"@]) == ParseState::Going { modifiers: 3, key: None });
        assert(parse_parts(seq!["Ctrl"@, "Alt"@, "Shift"@]) == ParseState::Going {
            modifiers: 7,
            key: None,
        });
    }
}

/// The stored form of every accepted shortcut parses back to that shortcut.
pub proof fn law_hotkey_text_round_trip(h: Hotkey)
    requires
        hotkey_valid(h),
    ensures
        parse_spec(as_key_spec(h)) == Some(h),
        from_key_spec(as_key_spec(h)) == h,
{
    reveal_strlit("disabled");
    reveal_strlit("关闭快捷键");
    reveal_strlit("alt_v");
    reveal_strlit("ctrl_alt_v");
    reveal_strlit("alt_shift_v");
    match h {
        Hotkey::Disabled => {
            lemma_token_untrimmed("disabled"@);
            assert(ascii_lower_seq("disabled"@) =~= "disabled"@);
        },
        Hotkey::Keys { modifiers, key } => {
            lemma_parts_of_label(modifiers, key);
            let l = label_spec(h);
            lemma_token_untrimmed(l);
            let t = ascii_lower_seq(trim(l));
            assert(t.len() == l.len());
            if modifiers & 2 != 0 {
                assert(t[4] == '+');
            } else {
                assert(t[3] == '+');
            }
            assert(t != "disabled"@ && t != "关闭快捷键"@ && t != "alt_v"@ && t != "ctrl_alt_v"@
                && t != "alt_shift_v"@);
        },
    }
}

// ----------------------------------------------------------------------------
// Executable helpers
// ----------------------------------------------------------------------------

fn lower_char(c: char) -> (r: char)
    ensures
        r == ascii_lower(c),
{
    if 'A' <= c && c <= 'Z' {
        let b: u8 = (c as u32) as u8;
        (b + 32) as char
    } else {
        c
    }
}

fn upper_char(c: char) -> (r: char)
    ensures
        r == ascii_upper(c),
{
    if 'a' <= c && c <= 'z' {
        let b: u8 = (c as u32) as u8;
        (b - 32) as char
    } else {
        c
    }
}

pub fn lower_chars(s: &[char]) -> (r: Vec<char>)
    ensures
        r@ == ascii_lower_seq(s@),
{
    let mut out: Vec<char> = Vec::new();
    let mut i: usize = 0;
    while i < s.len()
        invariant
            i <= s@.len(),
            out@ == ascii_lower_seq(s@.take(i as int)),
        decreases s@.len() - i,
    {
        out.push(lower_char(s[i]));
        assert(ascii_lower_seq(s@.take(i as int + 1)) =~= ascii_lower_seq(s@.take(i as int)).push(
            ascii_lower(s@[i as int]),
        ));
        i += 1;
    }
    assert(s@.take(s@.len() as int) =~= s@);
    out
}

fn token_of(part: &[char]) -> (r: Vec<char>)
    ensures
        r@ == token(part@),
{
    let t = trim_chars(part);
    lower_chars(t.as_slice())
}

fn is_word(t: &[char], w: &str) -> (r: bool)
    ensures
        r == (t@ == w@),
{
    let wc = chars_of(w);
    chars_eq(t, wc.as_slice())
}

/// `1..=11` value of a digit string, or 12 for anything larger; `None` when not all digits.
fn small_number(s: &[char]) -> (r: Option<u32>)
    ensures
        match r {
            Some(v) => all_digits(s@) && v as nat == if digits_value(s@) < 12 {
                digits_value(s@)
            } else {
                12
            },
            None => !all_digits(s@),
        },
{
    let mut v: u32 = 0;
    let mut i: usize = 0;
    while i < s.len()
        invariant
            i <= s@.len(),
            all_digits(s@.take(i as int)),
            v as nat == if digits_value(s@.take(i as int)) < 12 {
                digits_value(s@.take(i as int))
            } else {
                12
            },
        decreases s@.len() - i,
    {
        let c = s[i];
        if !('0' <= c && c <= '9') {
            assert(!is_ascii_digit(s@[i as int]));
            return None;
        }
        let d: u32 = (c as u32) - 0x30;
        let ghost pre = s@.take(i as int + 1);
        assert(pre.drop_last() =~= s@.take(i as int));
        assert(digits_value(pre) == digits_value(s@.take(i as int)) * 10 + d);
        let next = v * 10 + d;
        v = if next > 12 {
            12
        } else {
            next
        };
        assert(all_digits(pre)) by {
            assert forall|j: int| 0 <= j < pre.len() implies is_ascii_digit(#[trigger] pre[j]) by {
                if j < i {
                    assert(pre[j] == s@.take(i as int)[j]);
                }
            }
        }
        i += 1;
    }
    assert(s@.take(s@.len() as int) =~= s@);
    Some(v)
}

fn main_key_exec(p: &[char]) -> (r: Option<u32>)
    ensures
        r == main_key(p@),
{
    if p.len() == 1 {
        let c = p[0];
        if ('0' <= c && c <= '9') || ('a' <= c && c <= 'z') || ('A' <= c && c <= 'Z') {
            Some(upper_char(c) as u32)
        } else {
            None
        }
    } else if p.len() > 1 && p[0] == 'f' {
        let mut rest: Vec<char> = Vec::new();
        let mut i: usize = 1;
        while i < p.len()
            invariant
                1 <= i <= p@.len(),
                rest@ == p@.subrange(1, i as int),
            decreases p@.len() - i,
        {
            rest.push(p[i]);
            assert(p@.subrange(1, i as int + 1) =~= p@.subrange(1, i as int).push(p@[i as int]));
            i += 1;
        }
        assert(rest@ =~= p@.drop_first());
        match small_number(rest.as_slice()) {
            Some(n) => {
                if 1 <= n && n <= 11 {
                    Some(0x70 + n - 1)
                } else {
                    None
                }
            },
            None => None,
        }
    } else {
        None
    }
}

fn parse_step_exec(st: ParseState, part: &[char]) -> (r: ParseState)
    ensures
        r == parse_step(st, part@),
{
    match st {
        ParseState::Failed => ParseState::Failed,
        ParseState::Going { modifiers, key } => {
            let tv = token_of(part);
            let p = tv.as_slice();
            if is_word(p, "alt") {
                ParseState::Going { modifiers: modifiers | MOD_ALT, key }
            } else if is_word(p, "ctrl") || is_word(p, "control") {
                ParseState::Going { modifiers: modifiers | MOD_CONTROL, key }
            } else if is_word(p, "shift") {
                ParseState::Going { modifiers: modifiers | MOD_SHIFT, key }
            } else if key.is_none() {
                if is_word(p, "space") {
                    ParseState::Going { modifiers, key: Some(0x20) }
                } else {
                    match main_key_exec(p) {
                        Some(k) => ParseState::Going { modifiers, key: Some(k) },
                        None => ParseState::Failed,
                    }
                }
            } else {
                ParseState::Failed
            }
        },
    }
}

impl Default for Hotkey {
    /// Alt+V.
    fn default() -> (r: Self)
        ensures
            r == alt_v_spec(),
    {
        Hotkey::Keys { modifiers: MOD_ALT, key: 0x56 }
    }
}

impl Hotkey {
    /// Alt+V, the shortcut a fresh installation uses.
    pub fn alt_v() -> (r: Hotkey)
        ensures
            r == alt_v_spec(),
    {
        Hotkey::Keys { modifiers: MOD_ALT, key: 0x56 }
    }

    /// Supported combinations need Ctrl or Alt and a non-reserved main key.
    pub fn new(modifiers: u32, key: u32) -> (r: Option<Hotkey>)
        ensures
            r == new_spec(modifiers, key),
    {
        let valid_modifiers = modifiers != 0 && modifiers & !(MOD_ALT | MOD_CONTROL | MOD_SHIFT)
            == 0 && modifiers & (MOD_ALT | MOD_CONTROL) != 0;
        let valid_key = key == 0x20 || (0x41 <= key && key <= 0x5A) || (0x30 <= key && key
            <= 0x39) || (0x70 <= key && key <= 0x7A);
        let reserved = modifiers == MOD_ALT && key == 0x73;
        assert((MOD_ALT | MOD_CONTROL | MOD_SHIFT) == 7u32) by (bit_vector);
        assert((MOD_ALT | MOD_CONTROL) == 3u32) by (bit_vector);
        if valid_modifiers && valid_key && !reserved {
            Some(Hotkey::Keys { modifiers, key })
        } else {
            None
        }
    }

    /// Reads a stored or typed shortcut.
    pub fn parse(value: &str) -> (r: Option<Hotkey>)
        ensures
            r == parse_spec(value@),
    {
        let cs = chars_of(value);
        let trimmed = trim_chars(cs.as_slice());
        let lowered = lower_chars(trimmed.as_slice());
        let t = lowered.as_slice();
        if is_word(t, "disabled") || is_word(t, "关闭快捷键") {
            return Some(Hotkey::Disabled);
        }
        if is_word(t, "alt_v") {
            return Some(Hotkey::Keys { modifiers: MOD_ALT, key: 0x56 });
        }
        if is_word(t, "ctrl_alt_v") {
            return Hotkey::new(MOD_CONTROL | MOD_ALT, 0x56);
        }
        if is_word(t, "alt_shift_v") {
            return Hotkey::new(MOD_ALT | MOD_SHIFT, 0x56);
        }
        let parts = split_chars(cs.as_slice(), '+');
        let ghost pv = char_vecs_view(parts@);
        let mut st = ParseState::Going { modifiers: 0, key: None };
        let mut i: usize = 0;
        assert(pv.take(0) =~= Seq::<Seq<char>>::empty());
        while i < parts.len()
            invariant
                pv == char_vecs_view(parts@),
                pv == split_on(value@, '+'),
                i <= parts@.len(),
                st == parse_parts(pv.take(i as int)),
            decreases parts@.len() - i,
        {
            assert(pv.take(i as int + 1).drop_last() =~= pv.take(i as int));
            assert(parts@[i as int]@ == pv[i as int]);
            st = parse_step_exec(st, parts[i].as_slice());
            i += 1;
        }
        assert(pv.take(pv.len() as int) =~= pv);
        match st {
            ParseState::Going { modifiers, key: Some(k) } => Hotkey::new(modifiers, k),
            _ => None,
        }
    }

    /// The stored shortcut, or Alt+V when it cannot be read.
    pub fn from_key(value: &str) -> (r: Hotkey)
        ensures
            r == from_key_spec(value@),
    {
        match Hotkey::parse(value) {
            Some(h) => h,
            None => Hotkey::Keys { modifiers: MOD_ALT, key: 0x56 },
        }
    }

    /// Display text, `Ctrl+Alt+Shift+K`.
    pub fn label(self) -> (r: String)
        ensures
            r@ == label_spec(self),
    {
        match self {
            Hotkey::Disabled => {
                let mut s = String::new();
                push_str(&mut s, "关闭快捷键");
                assert(s@ =~= label_spec(self));
                s
            },
            Hotkey::Keys { modifiers, key } => {
                let mut s = String::new();
                if modifiers & MOD_CONTROL != 0 {
                    push_str(&mut s, "Ctrl+");
                }
                let ghost a = s@;
                if modifiers & MOD_ALT != 0 {
                    push_str(&mut s, "Alt+");
                }
                let ghost b = s@;
                if modifiers & MOD_SHIFT != 0 {
                    push_str(&mut s, "Shift+");
                }
                let ghost c = s@;
                if key == 0x20 {
                    push_str(&mut s, "Space");
                } else if 0x70 <= key && key <= 0x7A {
                    push_str(&mut s, "F");
                    push_decimal(&mut s, (key - 0x70 + 1) as u64);
                } else {
                    match char_from_u32(key) {
                        Some(ch) => {
                            let one = vec![ch];
                            push_chars(&mut s, one.as_slice());
                            assert(one@ =~= seq![ch]);
                        },
                        None => push_str(&mut s, "?"),
                    }
                }
                assert(s@ =~= label_spec(self));
                s
            },
        }
    }

    /// The form kept in settings storage.
    pub fn as_key(self) -> (r: String)
        ensures
            r@ == as_key_spec(self),
    {
        match self {
            Hotkey::Disabled => {
                let mut s = String::new();
                push_str(&mut s, "disabled");
                assert(s@ =~= as_key_spec(self));
                s
            },
            _ => self.label(),
        }
    }

    /// Pass a validated combination through the message window's WPARAM.
    pub fn code(self) -> (r: usize)
        ensures
            r == code_spec(self),
    {
        match self {
            Hotkey::Disabled => 0,
            Hotkey::Keys { modifiers, key } => ((modifiers as usize) << 16usize) | (key as usize),
        }
    }

    pub fn from_code(code: usize) -> (r: Option<Hotkey>)
        ensures
            r == from_code_spec(code),
    {
        if code == 0 {
            Some(Hotkey::Disabled)
        } else {
            Hotkey::new((code >> 16usize) as u32, (code & 0xFFFFusize) as u32)
        }
    }

    /// Modifier and key to register, or nothing for `Disabled`.
    pub fn registration(self) -> (r: Option<(u32, u32)>)
        ensures
            r == match self {
                Hotkey::Disabled => None,
                Hotkey::Keys { modifiers, key } => Some((modifiers, key)),
            },
    {
        match self {
            Hotkey::Disabled => None,
            Hotkey::Keys { modifiers, key } => Some((modifiers, key)),
        }
    }
}


// ----------------------------------------------------------------------------
// Recording a shortcut from a key press
// ----------------------------------------------------------------------------

/// A key press as the shortcut recorder sees it.
#[derive(Debug, Clone, PartialEq, Eq)]
pub enum KeyInput {
    Escape,
    /// Alt, Ctrl, Shift or the logo key alone.
    Modifier,
    Space,
    /// F1, F2, ... by number.
    Function(u8),
    /// The text a key produces.
    Character(String),
    Other,
}

/// Modifier keys held during a key press.
#[derive(Debug, Clone, Copy, PartialEq, Eq, Structural)]
pub struct KeyModifiers {
    pub alt: bool,
    pub control: bool,
    pub shift: bool,
    pub logo: bool,
}

/// What a key press does while a shortcut is being recorded.
#[derive(Debug, Clone, Copy, PartialEq, Eq, Structural)]
pub enum RecordOutcome {
    /// Escape: stop recording.
    Cancel,
    /// A modifier alone: keep waiting.
    Ignore,
    /// A supported combination.
    Record(Hotkey),
    /// Anything else: tell the user which keys are supported.
    Reject,
}

pub enum KeyInputModel {
    Escape,
    Modifier,
    Space,
    Function(u8),
    Character(Seq<char>),
    Other,
}

impl View for KeyInput {
    type V = KeyInputModel;

    open spec fn view(&self) -> KeyInputModel {
        match self {
            KeyInput::Escape => KeyInputModel::Escape,
            KeyInput::Modifier => KeyInputModel::Modifier,
            KeyInput::Space => KeyInputModel::Space,
            KeyInput::Function(n) => KeyInputModel::Function(*n),
            KeyInput::Character(t) => KeyInputModel::Character(t@),
            KeyInput::Other => KeyInputModel::Other,
        }
    }
}

/// The virtual-key code a key press stands for: Space, F1..F11, or a single
/// ASCII letter or digit (uppercased); failing those, a digit key of the
/// main block by its position.
pub open spec fn recorded_key_spec(key: KeyInputModel, physical_digit: Option<u8>) -> Option<u32> {
    let logical = match key {
        KeyInputModel::Space => Some(0x20u32),
        KeyInputModel::Function(n) => if 1 <= n <= 11 {
            Some((0x6F + n) as u32)
        } else {
            None
        },
        KeyInputModel::Character(t) => if t.len() == 1 && is_ascii_alnum(t[0]) {
            Some(ascii_upper(t[0]) as u32)
        } else {
            None
        },
        _ => None,
    };
    match logical {
        Some(k) => Some(k),
        None => match physical_digit {
            Some(d) => if d <= 9 {
                Some((0x30 + d) as u32)
            } else {
                None
            },
            None => None,
        },
    }
}

pub fn recorded_key(key: &KeyInput, physical_digit: Option<u8>) -> (r: Option<u32>)
    ensures
        r == recorded_key_spec(key@, physical_digit),
{
    let logical: Option<u32> = match key {
        KeyInput::Space => Some(0x20),
        KeyInput::Function(n) => if 1 <= *n && *n <= 11 {
            Some(0x6F + *n as u32)
        } else {
            None
        },
        KeyInput::Character(text) => {
            let cs = chars_of(text.as_str());
            if cs.len() == 1 && (('0' <= cs[0] && cs[0] <= '9') || ('a' <= cs[0] && cs[0] <= 'z')
                || ('A' <= cs[0] && cs[0] <= 'Z')) {
                Some(upper_char(cs[0]) as u32)
            } else {
                None
            }
        },
        _ => None,
    };
    match logical {
        Some(k) => Some(k),
        None => match physical_digit {
            Some(d) => if d <= 9 {
                Some(0x30 + d as u32)
            } else {
                None
            },
            None => None,
        },
    }
}

/// The modifier flags of a key press (`MOD_ALT | MOD_CONTROL | MOD_SHIFT`).
pub open spec fn modifier_flags(m: KeyModifiers) -> u32 {
    ((if m.alt { MOD_ALT } else { 0 }) + (if m.control { MOD_CONTROL } else { 0 }) + (if m.shift {
        MOD_SHIFT
    } else {
        0
    })) as u32
}

pub open spec fn record_key_press_spec(
    key: KeyInputModel,
    physical_digit: Option<u8>,
    mods: KeyModifiers,
) -> RecordOutcome {
    match key {
        KeyInputModel::Escape => RecordOutcome::Cancel,
        KeyInputModel::Modifier => RecordOutcome::Ignore,
        _ => match recorded_key_spec(key, physical_digit) {
            Some(vk) => match new_spec(modifier_flags(mods), vk) {
                Some(h) => if mods.logo {
                    RecordOutcome::Reject
                } else {
                    RecordOutcome::Record(h)
                },
                None => RecordOutcome::Reject,
            },
            None => RecordOutcome::Reject,
        },
    }
}

/// Decides what a key press does while the shortcut recorder listens. The
/// logo key never takes part in a shortcut.
pub fn record_key_press(key: &KeyInput, physical_digit: Option<u8>, mods: KeyModifiers) -> (r:
    RecordOutcome)
    ensures
        r == record_key_press_spec(key@, physical_digit, mods),
{
    match key {
        KeyInput::Escape => return RecordOutcome::Cancel,
        KeyInput::Modifier => return RecordOutcome::Ignore,
        _ => {},
    }
    let flags: u32 = (if mods.alt {
        MOD_ALT
    } else {
        0
    }) + (if mods.control {
        MOD_CONTROL
    } else {
        0
    }) + (if mods.shift {
        MOD_SHIFT
    } else {
        0
    });
    match recorded_key(key, physical_digit) {
        Some(vk) => match Hotkey::new(flags, vk) {
            Some(h) => if mods.logo {
                RecordOutcome::Reject
            } else {
                RecordOutcome::Record(h)
            },
            None => RecordOutcome::Reject,
        },
        None => RecordOutcome::Reject,
    }
}


/// How the settings page colours a status line.
#[derive(Debug, Clone, Copy, PartialEq, Eq, Structural)]
pub enum StatusTone {
    Danger,
    Accent,
    Muted,
    Success,
}

/// The shortcut status line: a recording error first, then the recording
/// prompt, then a registration error; otherwise whether the shortcut is off,
/// in effect, or still being registered.
pub open spec fn hotkey_status_spec(
    record_error: Option<Seq<char>>,
    recording: bool,
    hotkey_error: Option<Seq<char>>,
    selected: Hotkey,
    active: Hotkey,
) -> (Seq<char>, StatusTone) {
    if record_error is Some {
        (record_error->0, StatusTone::Danger)
    } else if recording {
        ("请按新的组合键；Esc 取消。排除应用输入框已失焦"@, StatusTone::Accent)
    } else if hotkey_error is Some {
        (hotkey_error->0, StatusTone::Danger)
    } else if selected == Hotkey::Disabled {
        ("窗口快捷键已关闭"@, StatusTone::Muted)
    } else if selected == active {
        (label_spec(active) + " 已生效"@, StatusTone::Success)
    } else {
        ("正在注册快捷键…"@, StatusTone::Muted)
    }
}

pub open spec fn opt_string_view(o: Option<String>) -> Option<Seq<char>> {
    match o {
        Some(s) => Some(s@),
        None => None,
    }
}

/// The settings page's line under the window shortcut, and its tone.
pub fn hotkey_status(
    record_error: &Option<String>,
    recording: bool,
    hotkey_error: &Option<String>,
    selected: Hotkey,
    active: Hotkey,
) -> (r: (String, StatusTone))
    ensures
        (r.0@, r.1) == hotkey_status_spec(
            opt_string_view(*record_error),
            recording,
            opt_string_view(*hotkey_error),
            selected,
            active,
        ),
{
    if let Some(e) = record_error {
        let mut s = String::new();
        push_str(&mut s, e.as_str());
        (s, StatusTone::Danger)
    } else if recording {
        let mut s = String::new();
        push_str(&mut s, "请按新的组合键；Esc 取消。排除应用输入框已失焦");
        (s, StatusTone::Accent)
    } else if let Some(e) = hotkey_error {
        let mut s = String::new();
        push_str(&mut s, e.as_str());
        (s, StatusTone::Danger)
    } else if selected == Hotkey::Disabled {
        let mut s = String::new();
        push_str(&mut s, "窗口快捷键已关闭");
        (s, StatusTone::Muted)
    } else if selected == active {
        let mut s = active.label();
        push_str(&mut s, " 已生效");
        (s, StatusTone::Success)
    } else {
        let mut s = String::new();
        push_str(&mut s, "正在注册快捷键…");
        (s, StatusTone::Muted)
    }
}

} // verus!
