//! Clock formatting for the UI.
//!
//! Reading the clock and converting an instant to the machine's time zone are
//! the caller's part: the local calendar fields arrive as a `LocalTime` (or
//! `None` when the operating system could not convert), and everything that
//! turns them into text is here.

use vstd::prelude::*;
use vstd::arithmetic::div_mod::{lemma_fundamental_div_mod, lemma_fundamental_div_mod_converse, lemma_mod_multiples_vanish};

use crate::text::{decimal, decimal_chars, push_chars, push_char, push_str};

verus! {

/// Calendar fields of a local wall-clock instant, as the operating system reports them.
#[derive(Debug, Clone, Copy, PartialEq, Eq, Structural)]
pub struct LocalTime {
    pub year: u16,
    pub month: u16,
    pub day: u16,
    pub hour: u16,
    pub minute: u16,
    pub second: u16,
}

/// `n` in decimal, left-padded with zeros to at least `width` digits (`{:0width$}`).
pub open spec fn zero_pad(n: nat, width: nat) -> Seq<char> {
    let d = decimal(n);
    if d.len() < width {
        Seq::new((width - d.len()) as nat, |_i: int| '0') + d
    } else {
        d
    }
}

/// Appends `n` padded with zeros to at least `width` digits.
pub fn push_zero_padded(out: &mut String, n: u64, width: usize)
    ensures
        final(out)@ == old(out)@ + zero_pad(n as nat, width as nat),
{
    let d = decimal_chars(n);
    if d.len() < width {
        let pad = width - d.len();
        let mut i: usize = 0;
        while i < pad
            invariant
                i <= pad,
                out@ == old(out)@ + Seq::new(i as nat, |_j: int| '0'),
            decreases pad - i,
        {
            push_char(out, '0');
            assert(Seq::new((i + 1) as nat, |_j: int| '0') =~= Seq::new(i as nat, |_j: int| '0').push(
                '0',
            ));
            i += 1;
        }
        push_chars(out, d.as_slice());
        assert(old(out)@ + Seq::new(pad as nat, |_j: int| '0') + d@ =~= old(out)@ + (Seq::new(
            pad as nat,
            |_j: int| '0',
        ) + d@));
    } else {
        push_chars(out, d.as_slice());
    }
}

/// Milliseconds in a day.
pub const DAY_MS: u64 = 86_400_000;

/// Milliseconds elapsed since the last UTC midnight (the epoch is a UTC midnight).
pub open spec fn utc_ms_of_day(ms: i64) -> int {
    (ms as int) % (DAY_MS as int)
}

/// UTC `HH:MM` of an epoch-millisecond instant.
pub open spec fn utc_hhmm_spec(ms: i64) -> Seq<char> {
    let day_ms = utc_ms_of_day(ms);
    zero_pad((day_ms / 3_600_000) as nat, 2) + ":"@ + zero_pad(((day_ms / 60_000) % 60) as nat, 2)
}

/// The UTC clock is the Euclidean hour of the day and minute of the hour of
/// the instant: `HH` is `ms.div_euclid(3_600_000).rem_euclid(24)` and `MM` is
/// `ms.div_euclid(60_000).rem_euclid(60)`, for instants before the epoch too.
pub proof fn law_utc_clock_is_euclidean(ms: i64)
    ensures
        utc_hhmm_spec(ms) == zero_pad((((ms as int) / 3_600_000) % 24) as nat, 2) + ":"@ + zero_pad(
            (((ms as int) / 60_000) % 60) as nat,
            2,
        ),
{
    let m = ms as int;
    let q = m / 86_400_000;
    let d = m % 86_400_000;
    lemma_fundamental_div_mod(m, 86_400_000);
    assert(0 <= d < 86_400_000);
    let h = d / 3_600_000;
    let rh = d % 3_600_000;
    lemma_fundamental_div_mod(d, 3_600_000);
    assert(0 <= h < 24) by (nonlinear_arith)
        requires
            d == 3_600_000 * h + rh,
            0 <= rh < 3_600_000,
            0 <= d < 86_400_000,
    ;
    assert(m == (24 * q + h) * 3_600_000 + rh) by (nonlinear_arith)
        requires
            m == 86_400_000 * q + d,
            d == 3_600_000 * h + rh,
    ;
    lemma_fundamental_div_mod_converse(m, 3_600_000, 24 * q + h, rh);
    lemma_fundamental_div_mod_converse(24 * q + h, 24, q, h);
    let mm = d / 60_000;
    let rm = d % 60_000;
    lemma_fundamental_div_mod(d, 60_000);
    assert(m == (1440 * q + mm) * 60_000 + rm) by (nonlinear_arith)
        requires
            m == 86_400_000 * q + d,
            d == 60_000 * mm + rm,
    ;
    lemma_fundamental_div_mod_converse(m, 60_000, 1440 * q + mm, rm);
    lemma_mod_multiples_vanish(24 * q, mm, 60);
    assert(60 * (24 * q) + mm == 1440 * q + mm);
}

/// Local `HH:MM`; the UTC clock only when no local conversion was available.
pub open spec fn local_hhmm_spec(ms: i64, local: Option<LocalTime>) -> Seq<char> {
    match local {
        Some(t) => zero_pad(t.hour as nat, 2) + ":"@ + zero_pad(t.minute as nat, 2),
        None => utc_hhmm_spec(ms),
    }
}

/// Local `YYYY-MM-DD HH:MM:SS`; without a local conversion, the epoch date and the UTC clock.
pub open spec fn local_datetime_spec(ms: i64, local: Option<LocalTime>) -> Seq<char> {
    match local {
        Some(t) => zero_pad(t.year as nat, 4) + "-"@ + zero_pad(t.month as nat, 2) + "-"@
            + zero_pad(t.day as nat, 2) + " "@ + zero_pad(t.hour as nat, 2) + ":"@ + zero_pad(
            t.minute as nat,
            2,
        ) + ":"@ + zero_pad(t.second as nat, 2),
        None => "1970-01-01 "@ + utc_hhmm_spec(ms),
    }
}

/// Milliseconds since the last UTC midnight.
fn utc_day_offset(ms: i64) -> (r: u64)
    ensures
        r == utc_ms_of_day(ms),
        r < DAY_MS,
{
    // A whole number of days that lifts every `i64` to a non-negative value.
    let days: i128 = 106_751_991_168;
    let shifted: i128 = ms as i128 + days * 86_400_000;
    assert(shifted >= 0);
    let r = ((shifted as u128) % (DAY_MS as u128)) as u64;
    proof {
        lemma_mod_multiples_vanish(days as int, ms as int, DAY_MS as int);
        assert((DAY_MS as int) * (days as int) + ms as int == shifted as int);
    }
    r
}

/// UTC `HH:MM` of an epoch-millisecond instant.
pub fn utc_hhmm(ms: i64) -> (r: String)
    ensures
        r@ == utc_hhmm_spec(ms),
{
    let day_ms = utc_day_offset(ms);
    let mut s = String::new();
    push_zero_padded(&mut s, day_ms / 3_600_000, 2);
    push_str(&mut s, ":");
    push_zero_padded(&mut s, (day_ms / 60_000) % 60, 2);
    assert(s@ =~= utc_hhmm_spec(ms));
    s
}

/// Local `HH:MM` for a unix-epoch millisecond timestamp. Falls back to UTC
/// `HH:MM` only if the time-zone conversion failed: it never invents a zone.
pub fn local_hhmm(ms: i64, local: Option<LocalTime>) -> (r: String)
    ensures
        r@ == local_hhmm_spec(ms, local),
{
    match local {
        Some(t) => {
            let mut s = String::new();
            push_zero_padded(&mut s, t.hour as u64, 2);
            push_str(&mut s, ":");
            push_zero_padded(&mut s, t.minute as u64, 2);
            assert(s@ =~= local_hhmm_spec(ms, local));
            s
        },
        None => utc_hhmm(ms),
    }
}

/// Local `YYYY-MM-DD HH:MM:SS`.
pub fn local_datetime(ms: i64, local: Option<LocalTime>) -> (r: String)
    ensures
        r@ == local_datetime_spec(ms, local),
{
    match local {
        Some(t) => {
            let mut s = String::new();
            push_zero_padded(&mut s, t.year as u64, 4);
            push_str(&mut s, "-");
            push_zero_padded(&mut s, t.month as u64, 2);
            push_str(&mut s, "-");
            push_zero_padded(&mut s, t.day as u64, 2);
            push_str(&mut s, " ");
            push_zero_padded(&mut s, t.hour as u64, 2);
            push_str(&mut s, ":");
            push_zero_padded(&mut s, t.minute as u64, 2);
            push_str(&mut s, ":");
            push_zero_padded(&mut s, t.second as u64, 2);
            assert(s@ =~= local_datetime_spec(ms, local));
            s
        },
        None => {
            let mut s = String::new();
            push_str(&mut s, "1970-01-01 ");
            let clock = utc_hhmm(ms);
            push_str(&mut s, clock.as_str());
            assert(s@ =~= local_datetime_spec(ms, local));
            s
        },
    }
}

} // verus!
