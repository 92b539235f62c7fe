//! Character-level text helpers shared by search, previews and labels.
//!
//! Text is handled as a sequence of Unicode scalar values (`Seq<char>`); the
//! executable helpers work on `Vec<char>` / `[char]` and are tied to those
//! sequences by their contracts.

use vstd::prelude::*;

verus! {

// ----------------------------------------------------------------------------
// Outside calls into std that vstd does not specify
// ----------------------------------------------------------------------------

/// Full Unicode lowercase mapping of a string, as computed by `str::to_lowercase`.
pub uninterp spec fn unicode_lowercase(s: Seq<char>) -> Seq<char>;

/// Calls `str::to_lowercase`. The contract names the result: it is the
/// Unicode lowercase mapping of the argument, a function of the text alone;
/// the lowercase equivalent of an empty string is empty, and in ASCII text
/// only `A`–`Z` change, to `a`–`z` (the Unicode lowercase mapping of ASCII).
#[verifier::external_body]
pub(crate) fn to_lowercase(s: &str) -> (r: String)
    ensures
        r@ == unicode_lowercase(s@),
        s@.len() == 0 ==> r@.len() == 0,
        vstd::utf8::is_ascii_chars(s@) ==> r@ == crate::hotkey::ascii_lower_seq(s@),
{
    s.to_lowercase()
}

/// Calls `String::push`: the character is appended at the end.
#[verifier::external_body]
pub(crate) fn push_char(s: &mut String, c: char)
    ensures
        final(s)@ == old(s)@.push(c),
{
    s.push(c);
}

// ----------------------------------------------------------------------------
// Conversions between strings and character vectors
// ----------------------------------------------------------------------------

/// The characters of `s`, in order.
pub fn chars_of(s: &str) -> (r: Vec<char>)
    ensures
        r@ == s@,
{
    let mut out: Vec<char> = Vec::new();
    for c in it: s.chars()
        invariant
            out@ == it.seq().take(it.index() as int),
            it.seq() == s@,
    {
        out.push(c);
    }
    out
}

/// A string made of the characters `cs`.
pub fn string_of(cs: &[char]) -> (r: String)
    ensures
        r@ == cs@,
{
    let mut out = String::new();
    let mut i: usize = 0;
    while i < cs.len()
        invariant
            i <= cs@.len(),
            out@ == cs@.take(i as int),
        decreases cs@.len() - i,
    {
        push_char(&mut out, cs[i]);
        assert(cs@.take(i as int + 1) =~= cs@.take(i as int).push(cs@[i as int]));
        i += 1;
    }
    assert(cs@.take(cs@.len() as int) =~= cs@);
    out
}

/// Appends all of `cs` to `out`.
pub fn push_chars(out: &mut String, cs: &[char])
    ensures
        final(out)@ == old(out)@ + cs@,
{
    let mut i: usize = 0;
    while i < cs.len()
        invariant
            i <= cs@.len(),
            out@ == old(out)@ + cs@.take(i as int),
        decreases cs@.len() - i,
    {
        push_char(out, cs[i]);
        assert(cs@.take(i as int + 1) =~= cs@.take(i as int).push(cs@[i as int]));
        i += 1;
    }
    assert(cs@.take(cs@.len() as int) =~= cs@);
}

/// Appends the characters of `s` to `out`.
pub fn push_str(out: &mut String, s: &str)
    ensures
        final(out)@ == old(out)@ + s@,
{
    let cs = chars_of(s);
    push_chars(out, cs.as_slice());
}

// ----------------------------------------------------------------------------
// Whitespace and trimming
// ----------------------------------------------------------------------------

/// Unicode `White_Space`, the set tested by `char::is_whitespace`.
pub open spec fn is_ws(c: char) -> bool {
    ||| ('\u{9}' <= c && c <= '\u{d}')
    ||| c == ' '
    ||| c == '\u{85}'
    ||| c == '\u{a0}'
    ||| c == '\u{1680}'
    ||| ('\u{2000}' <= c && c <= '\u{200a}')
    ||| c == '\u{2028}'
    ||| c == '\u{2029}'
    ||| c == '\u{202f}'
    ||| c == '\u{205f}'
    ||| c == '\u{3000}'
}

pub fn is_whitespace(c: char) -> (r: bool)
    ensures
        r == is_ws(c),
{
    ('\u{9}' <= c && c <= '\u{d}') || c == ' ' || c == '\u{85}' || c == '\u{a0}' || c
        == '\u{1680}' || ('\u{2000}' <= c && c <= '\u{200a}') || c == '\u{2028}' || c
        == '\u{2029}' || c == '\u{202f}' || c == '\u{205f}' || c == '\u{3000}'
}

/// `s` without leading whitespace.
pub open spec fn trim_start(s: Seq<char>) -> Seq<char>
    decreases s.len(),
{
    if s.len() > 0 && is_ws(s[0]) {
        trim_start(s.drop_first())
    } else {
        s
    }
}

/// `s` without trailing whitespace.
pub open spec fn trim_end(s: Seq<char>) -> Seq<char>
    decreases s.len(),
{
    if s.len() > 0 && is_ws(s.last()) {
        trim_end(s.drop_last())
    } else {
        s
    }
}

/// `s` without leading and trailing whitespace, as `str::trim` returns it.
pub open spec fn trim(s: Seq<char>) -> Seq<char> {
    trim_end(trim_start(s))
}

/// Number of leading whitespace characters.
pub fn leading_ws_len(s: &[char]) -> (k: usize)
    ensures
        k <= s@.len(),
        trim_start(s@) == s@.subrange(k as int, s@.len() as int),
        forall|j: int| 0 <= j < k ==> is_ws(#[trigger] s@[j]),
        k < s@.len() ==> !is_ws(s@[k as int]),
{
    let mut i: usize = 0;
    assert(s@.subrange(0, s@.len() as int) =~= s@);
    while i < s.len() && is_whitespace(s[i])
        invariant
            i <= s@.len(),
            trim_start(s@) == trim_start(s@.subrange(i as int, s@.len() as int)),
            forall|j: int| 0 <= j < i ==> is_ws(#[trigger] s@[j]),
        decreases s@.len() - i,
    {
        let ghost rest = s@.subrange(i as int, s@.len() as int);
        assert(rest.drop_first() =~= s@.subrange(i as int + 1, s@.len() as int));
        i += 1;
    }
    i
}

/// Length once trailing whitespace is removed.
pub fn trimmed_end_len(s: &[char]) -> (k: usize)
    ensures
        k <= s@.len(),
        trim_end(s@) == s@.take(k as int),
        forall|j: int| k <= j < s@.len() ==> is_ws(#[trigger] s@[j]),
        k > 0 ==> !is_ws(s@[k - 1]),
{
    let mut k: usize = s.len();
    assert(s@.take(s@.len() as int) =~= s@);
    while k > 0 && is_whitespace(s[k - 1])
        invariant
            k <= s@.len(),
            trim_end(s@) == trim_end(s@.take(k as int)),
            forall|j: int| k <= j < s@.len() ==> is_ws(#[trigger] s@[j]),
        decreases k,
    {
        let ghost pre = s@.take(k as int);
        assert(pre.drop_last() =~= s@.take(k as int - 1));
        k -= 1;
    }
    assert(s@.take(s@.len() as int) =~= s@);
    k
}

pub proof fn lemma_trim_end_of_untrimmed(s: Seq<char>)
    requires
        s.len() == 0 || !is_ws(s.last()),
    ensures
        trim_end(s) == s,
{
}

pub proof fn lemma_trim_start_of_untrimmed(s: Seq<char>)
    requires
        s.len() == 0 || !is_ws(s[0]),
    ensures
        trim_start(s) == s,
{
}

/// A copy of `s[from..to]`.
pub fn slice_to_vec(s: &[char], from: usize, to: usize) -> (r: Vec<char>)
    requires
        from <= to <= s@.len(),
    ensures
        r@ == s@.subrange(from as int, to as int),
{
    let mut out: Vec<char> = Vec::new();
    let mut i = from;
    while i < to
        invariant
            from <= i <= to,
            to <= s@.len(),
            out@ == s@.subrange(from as int, i as int),
        decreases to - i,
    {
        out.push(s[i]);
        assert(s@.subrange(from as int, i as int + 1) =~= s@.subrange(from as int, i as int).push(
            s@[i as int],
        ));
        i += 1;
    }
    out
}

/// `str::trim` on a character sequence.
pub fn trim_chars(s: &[char]) -> (r: Vec<char>)
    ensures
        r@ == trim(s@),
{
    let start = leading_ws_len(s);
    let rest = slice_to_vec(s, start, s.len());
    let end = trimmed_end_len(rest.as_slice());
    let r = slice_to_vec(rest.as_slice(), 0, end);
    assert(rest@.take(end as int) =~= rest@.subrange(0, end as int));
    r
}

// ----------------------------------------------------------------------------
// Substrings
// ----------------------------------------------------------------------------

/// `needle` occurs in `hay` starting at position `i`.
pub open spec fn occurs_at(hay: Seq<char>, needle: Seq<char>, i: int) -> bool {
    0 <= i && i + needle.len() <= hay.len() && hay.subrange(i, i + needle.len()) == needle
}

/// `needle` occurs somewhere in `hay` (the empty needle always does).
pub open spec fn contains_seq(hay: Seq<char>, needle: Seq<char>) -> bool {
    exists|i: int| occurs_at(hay, needle, i)
}

pub open spec fn starts_with_seq(hay: Seq<char>, prefix: Seq<char>) -> bool {
    occurs_at(hay, prefix, 0)
}

pub open spec fn ends_with_seq(hay: Seq<char>, suffix: Seq<char>) -> bool {
    occurs_at(hay, suffix, hay.len() - suffix.len())
}

pub fn occurs_at_exec(hay: &[char], needle: &[char], i: usize) -> (r: bool)
    ensures
        r == occurs_at(hay@, needle@, i as int),
{
    if i > hay.len() || needle.len() > hay.len() - i {
        return false;
    }
    let n = hay.len();
    let mut j: usize = 0;
    while j < needle.len()
        invariant
            n == hay@.len(),
            i + needle@.len() <= hay@.len(),
            j <= needle@.len(),
            forall|k: int| 0 <= k < j ==> hay@[i + k] == needle@[k],
        decreases needle@.len() - j,
    {
        assert(i + j < hay@.len());
        if hay[i + j] != needle[j] {
            assert(hay@.subrange(i as int, i + needle@.len())[j as int] != needle@[j as int]);
            return false;
        }
        j += 1;
    }
    assert(hay@.subrange(i as int, i + needle@.len()) =~= needle@);
    true
}

pub fn contains_chars(hay: &[char], needle: &[char]) -> (r: bool)
    ensures
        r == contains_seq(hay@, needle@),
{
    if needle.len() > hay.len() {
        return false;
    }
    let mut i: usize = 0;
    while i <= hay.len() - needle.len()
        invariant
            needle@.len() <= hay@.len(),
            i <= hay@.len() - needle@.len() + 1,
            forall|k: int| 0 <= k < i ==> !occurs_at(hay@, needle@, k),
        decreases hay@.len() - needle@.len() + 1 - i,
    {
        if occurs_at_exec(hay, needle, i) {
            return true;
        }
        if i == hay.len() - needle.len() {
            return false;
        }
        i += 1;
    }
    false
}

pub fn starts_with_chars(hay: &[char], prefix: &[char]) -> (r: bool)
    ensures
        r == starts_with_seq(hay@, prefix@),
{
    occurs_at_exec(hay, prefix, 0)
}

pub fn ends_with_chars(hay: &[char], suffix: &[char]) -> (r: bool)
    ensures
        r == ends_with_seq(hay@, suffix@),
{
    if suffix.len() > hay.len() {
        return false;
    }
    occurs_at_exec(hay, suffix, hay.len() - suffix.len())
}

pub fn contains_char(hay: &[char], c: char) -> (r: bool)
    ensures
        r == hay@.contains(c),
{
    let mut i: usize = 0;
    while i < hay.len()
        invariant
            i <= hay@.len(),
            forall|k: int| 0 <= k < i ==> hay@[k] != c,
        decreases hay@.len() - i,
    {
        if hay[i] == c {
            return true;
        }
        i += 1;
    }
    false
}

/// What precedes the first occurrence of `pat` (all of `s` when it has none):
/// `s.split(pat).next()`.
pub open spec fn before_first(s: Seq<char>, pat: Seq<char>) -> Seq<char>
    decreases s.len(),
{
    if s.len() == 0 || s.len() < pat.len() {
        s
    } else if s.take(pat.len() as int) == pat {
        Seq::empty()
    } else {
        seq![s[0]] + before_first(s.drop_first(), pat)
    }
}

/// What follows the first occurrence of `pat`, if it occurs.
pub open spec fn after_first(s: Seq<char>, pat: Seq<char>) -> Option<Seq<char>>
    decreases s.len(),
{
    if s.len() == 0 || s.len() < pat.len() {
        None
    } else if s.take(pat.len() as int) == pat {
        Some(s.skip(pat.len() as int))
    } else {
        after_first(s.drop_first(), pat)
    }
}

/// `s.split_once(pat)`, with the text before the first occurrence also
/// returned when there is none (then it is all of `s`).
pub fn split_once_chars(s: &[char], pat: &[char]) -> (r: (Vec<char>, Option<Vec<char>>))
    ensures
        r.0@ == before_first(s@, pat@),
        match r.1 {
            Some(a) => after_first(s@, pat@) == Some(a@),
            None => after_first(s@, pat@) is None,
        },
{
    let ghost p = pat@;
    let mut i: usize = 0;
    assert(s@.skip(0) =~= s@);
    assert(s@.take(0) =~= Seq::<char>::empty());
    while i < s.len()
        invariant
            i <= s@.len(),
            pat@ == p,
            before_first(s@, p) == s@.take(i as int) + before_first(s@.skip(i as int), p),
            after_first(s@, p) == after_first(s@.skip(i as int), p),
        decreases s@.len() - i,
    {
        let ghost rest = s@.skip(i as int);
        if s.len() - i < pat.len() {
            assert(before_first(rest, p) == rest);
            assert(s@.take(i as int) + rest =~= s@);
            return (slice_to_vec(s, 0, s.len()), None);
        }
        if occurs_at_exec(s, pat, i) {
            assert(rest.take(p.len() as int) =~= s@.subrange(i as int, i + p.len()));
            assert(s@.take(i as int) + Seq::<char>::empty() =~= s@.take(i as int));
            assert(rest.skip(p.len() as int) =~= s@.skip(i + p.len()));
            let head = slice_to_vec(s, 0, i);
            assert(s@.subrange(0, i as int) =~= s@.take(i as int));
            let tail = slice_to_vec(s, i + pat.len(), s.len());
            assert(s@.subrange(i + p.len(), s@.len() as int) =~= s@.skip(i + p.len()));
            return (head, Some(tail));
        }
        assert(rest.take(p.len() as int) != p) by {
            if rest.take(p.len() as int) == p {
                assert(s@.subrange(i as int, i + p.len()) =~= rest.take(p.len() as int));
            }
        }
        assert(rest.drop_first() =~= s@.skip(i as int + 1));
        assert(s@.take(i as int + 1) =~= s@.take(i as int) + seq![rest[0]]);
        assert(s@.take(i as int) + (seq![rest[0]] + before_first(rest.drop_first(), p)) =~= s@.take(
            i as int + 1,
        ) + before_first(s@.skip(i as int + 1), p));
        i += 1;
    }
    assert(s@.skip(s@.len() as int) =~= Seq::<char>::empty());
    assert(s@.take(s@.len() as int) =~= s@);
    assert(s@ + Seq::<char>::empty() =~= s@);
    (slice_to_vec(s, 0, s.len()), None)
}

// ----------------------------------------------------------------------------
// Splitting
// ----------------------------------------------------------------------------

pub open spec fn char_vecs(v: Seq<Vec<char>>) -> Seq<Seq<char>> {
    v.map_values(|t: Vec<char>| t@)
}

/// `s.split(sep)`: the pieces between separators, always at least one.
pub open spec fn split_on(s: Seq<char>, sep: char) -> Seq<Seq<char>>
    decreases s.len(),
{
    if s.len() == 0 {
        seq![Seq::empty()]
    } else {
        let prev = split_on(s.drop_last(), sep);
        if s.last() == sep {
            prev.push(Seq::empty())
        } else {
            prev.update(prev.len() - 1, prev.last().push(s.last()))
        }
    }
}

/// `s.split(sep)`, each piece as a character vector.
pub fn split_chars(s: &[char], sep: char) -> (r: Vec<Vec<char>>)
    ensures
        char_vecs(r@) == split_on(s@, sep),
{
    let mut parts: Vec<Vec<char>> = Vec::new();
    let mut current: Vec<char> = Vec::new();
    let mut i: usize = 0;
    assert(s@.take(0) =~= Seq::<char>::empty());
    assert(char_vecs(parts@).push(current@) =~= split_on(s@.take(0), sep));
    while i < s.len()
        invariant
            i <= s@.len(),
            char_vecs(parts@).push(current@) == split_on(s@.take(i as int), sep),
        decreases s@.len() - i,
    {
        let ghost pre = s@.take(i as int + 1);
        assert(pre.drop_last() =~= s@.take(i as int));
        let c = s[i];
        if c == sep {
            let done = current;
            parts.push(done);
            current = Vec::new();
            assert(char_vecs(parts@).push(current@) =~= split_on(s@.take(i as int), sep).push(
                Seq::empty(),
            ));
        } else {
            let ghost before = char_vecs(parts@).push(current@);
            current.push(c);
            assert(char_vecs(parts@).push(current@) =~= before.update(
                before.len() - 1,
                before.last().push(c),
            ));
        }
        i += 1;
    }
    assert(s@.take(s@.len() as int) =~= s@);
    parts.push(current);
    assert(char_vecs(parts@) =~= split_on(s@, sep));
    parts
}

// ----------------------------------------------------------------------------
// Number formatting
// ----------------------------------------------------------------------------

pub open spec fn digit_char(d: nat) -> char {
    if d == 0 {
        '0'
    } else if d == 1 {
        '1'
    } else if d == 2 {
        '2'
    } else if d == 3 {
        '3'
    } else if d == 4 {
        '4'
    } else if d == 5 {
        '5'
    } else if d == 6 {
        '6'
    } else if d == 7 {
        '7'
    } else if d == 8 {
        '8'
    } else if d == 9 {
        '9'
    } else if d == 10 {
        'a'
    } else if d == 11 {
        'b'
    } else if d == 12 {
        'c'
    } else if d == 13 {
        'd'
    } else if d == 14 {
        'e'
    } else {
        'f'
    }
}

pub fn digit(d: u64) -> (c: char)
    requires
        d < 16,
    ensures
        c == digit_char(d as nat),
{
    if d == 0 {
        '0'
    } else if d == 1 {
        '1'
    } else if d == 2 {
        '2'
    } else if d == 3 {
        '3'
    } else if d == 4 {
        '4'
    } else if d == 5 {
        '5'
    } else if d == 6 {
        '6'
    } else if d == 7 {
        '7'
    } else if d == 8 {
        '8'
    } else if d == 9 {
        '9'
    } else if d == 10 {
        'a'
    } else if d == 11 {
        'b'
    } else if d == 12 {
        'c'
    } else if d == 13 {
        'd'
    } else if d == 14 {
        'e'
    } else {
        'f'
    }
}

/// Decimal representation of `n` without leading zeros (`{}` of an unsigned integer).
pub open spec fn decimal(n: nat) -> Seq<char>
    decreases n,
{
    if n < 10 {
        seq![digit_char(n)]
    } else {
        decimal(n / 10).push(digit_char(n % 10))
    }
}

/// `k` lowercase hexadecimal digits of `n`, most significant first (`{:0k$x}` for `n < 16^k`).
pub open spec fn hex_fixed(n: nat, k: nat) -> Seq<char>
    decreases k,
{
    if k == 0 {
        Seq::empty()
    } else {
        hex_fixed(n / 16, (k - 1) as nat).push(digit_char(n % 16))
    }
}

pub fn decimal_chars(n: u64) -> (r: Vec<char>)
    ensures
        r@ == decimal(n as nat),
    decreases n,
{
    if n < 10 {
        let mut v = Vec::new();
        v.push(digit(n));
        v
    } else {
        let mut v = decimal_chars(n / 10);
        v.push(digit(n % 10));
        v
    }
}

pub fn hex_chars(n: u64, k: usize) -> (r: Vec<char>)
    ensures
        r@ == hex_fixed(n as nat, k as nat),
    decreases k,
{
    if k == 0 {
        Vec::new()
    } else {
        let mut v = hex_chars(n / 16, k - 1);
        v.push(digit(n % 16));
        v
    }
}

/// Appends the decimal form of `n` to `out`.
pub fn push_decimal(out: &mut String, n: u64)
    ensures
        final(out)@ == old(out)@ + decimal(n as nat),
{
    let d = decimal_chars(n);
    push_chars(out, d.as_slice());
}

/// Decimal form of `n`.
pub fn decimal_string(n: u64) -> (r: String)
    ensures
        r@ == decimal(n as nat),
{
    let mut s = String::new();
    push_decimal(&mut s, n);
    assert(Seq::<char>::empty() + decimal(n as nat) =~= decimal(n as nat));
    s
}

} // verus!
