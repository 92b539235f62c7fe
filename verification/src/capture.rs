//! History query state shared between the UI and the capture worker.

use vstd::prelude::*;

use crate::events::str_eq;
use crate::format::ContentKind;

verus! {

/// A row of the "used in" list of a card, already formatted for display.
#[derive(Debug, Clone)]
pub struct UsedInView {
    pub target_app: String,
    pub target_window: String,
    pub method_label: String,
    pub time_label: String,
}

/// Content class a history list is narrowed to.
#[derive(Debug, Clone, Copy, PartialEq, Eq, Structural)]
pub enum HistoryFilter {
    All,
    Text,
    Link,
    Code,
    File,
    Image,
}

pub open spec fn filter_matches(f: HistoryFilter, kind: ContentKind) -> bool {
    match f {
        HistoryFilter::All => true,
        HistoryFilter::Text => kind == ContentKind::Text,
        HistoryFilter::Link => kind == ContentKind::Link,
        HistoryFilter::Code => kind == ContentKind::Code,
        HistoryFilter::File => kind == ContentKind::File,
        HistoryFilter::Image => kind == ContentKind::Image,
    }
}

impl HistoryFilter {
    /// `All` lets every kind through; any other filter exactly its own kind.
    pub fn matches(self, kind: ContentKind) -> (r: bool)
        ensures
            r == filter_matches(self, kind),
    {
        match self {
            HistoryFilter::All => true,
            HistoryFilter::Text => kind == ContentKind::Text,
            HistoryFilter::Link => kind == ContentKind::Link,
            HistoryFilter::Code => kind == ContentKind::Code,
            HistoryFilter::File => kind == ContentKind::File,
            HistoryFilter::Image => kind == ContentKind::Image,
        }
    }
}

impl Default for HistoryFilter {
    fn default() -> (r: Self)
        ensures
            r == HistoryFilter::All,
    {
        HistoryFilter::All
    }
}

/// One page request of the history list.
#[derive(Debug, Clone, PartialEq, Eq)]
pub struct HistoryQuery {
    pub search: String,
    pub filter: HistoryFilter,
    pub pinned_only: bool,
    pub newest_first: bool,
    pub page: usize,
}

impl Default for HistoryQuery {
    /// The first page of everything, newest first.
    fn default() -> (r: Self)
        ensures
            r.search@ == Seq::<char>::empty(),
            r.filter == HistoryFilter::All,
            !r.pinned_only,
            r.newest_first,
            r.page == 0,
    {
        HistoryQuery {
            search: String::new(),
            filter: HistoryFilter::All,
            pinned_only: false,
            newest_first: true,
            page: 0,
        }
    }
}

/// How long raw history is kept.
#[derive(Debug, Clone, Copy, PartialEq, Eq, Structural)]
pub enum Retention {
    Day1,
    Day7,
    Day30,
    Never,
}

impl Default for Retention {
    fn default() -> (r: Self)
        ensures
            r == Retention::Day30,
    {
        Retention::Day30
    }
}

pub open spec fn retention_label(r: Retention) -> Seq<char> {
    match r {
        Retention::Day1 => "1 天"@,
        Retention::Day7 => "7 天"@,
        Retention::Day30 => "30 天"@,
        Retention::Never => "永不"@,
    }
}

pub open spec fn retention_key(r: Retention) -> Seq<char> {
    match r {
        Retention::Day1 => "day1"@,
        Retention::Day7 => "day7"@,
        Retention::Day30 => "day30"@,
        Retention::Never => "never"@,
    }
}

/// Stored setting to retention; anything unknown falls back to the default, 30 days.
pub open spec fn retention_from_key(s: Seq<char>) -> Retention {
    if s == "day1"@ {
        Retention::Day1
    } else if s == "day7"@ {
        Retention::Day7
    } else if s == "never"@ {
        Retention::Never
    } else {
        Retention::Day30
    }
}

/// Days kept, or `None` for "never purge".
pub open spec fn retention_days(r: Retention) -> Option<int> {
    match r {
        Retention::Day1 => Some(1),
        Retention::Day7 => Some(7),
        Retention::Day30 => Some(30),
        Retention::Never => None,
    }
}

/// Milliseconds in a day.
pub open spec fn day_ms() -> int {
    86_400_000int
}

impl Retention {
    pub fn label(self) -> (r: &'static str)
        ensures
            r@ == retention_label(self),
    {
        match self {
            Retention::Day1 => "1 天",
            Retention::Day7 => "7 天",
            Retention::Day30 => "30 天",
            Retention::Never => "永不",
        }
    }

    pub fn as_key(self) -> (r: &'static str)
        ensures
            r@ == retention_key(self),
    {
        match self {
            Retention::Day1 => "day1",
            Retention::Day7 => "day7",
            Retention::Day30 => "day30",
            Retention::Never => "never",
        }
    }

    pub fn from_key(s: &str) -> (r: Self)
        ensures
            r == retention_from_key(s@),
    {
        if str_eq(s, "day1") {
            Retention::Day1
        } else if str_eq(s, "day7") {
            Retention::Day7
        } else if str_eq(s, "never") {
            Retention::Never
        } else {
            Retention::Day30
        }
    }

    /// Records created before the returned instant are purged; `Never` purges nothing.
    pub fn cutoff_ms(self, now_ms: i64) -> (r: Option<i64>)
        requires
            retention_days(self) matches Some(d) ==> now_ms - d * day_ms() >= i64::MIN,
        ensures
            match retention_days(self) {
                Some(d) => r == Some((now_ms - d * day_ms()) as i64),
                None => r is None,
            },
    {
        match self {
            Retention::Day1 => Some(now_ms - 24 * 60 * 60 * 1000),
            Retention::Day7 => Some(now_ms - 7 * 24 * 60 * 60 * 1000),
            Retention::Day30 => Some(now_ms - 30 * 24 * 60 * 60 * 1000),
            Retention::Never => None,
        }
    }
}

/// A stored retention setting reads back as the retention that wrote it.
pub proof fn law_retention_key_round_trip(r: Retention)
    ensures
        retention_from_key(retention_key(r)) == r,
{
    reveal_strlit("day1");
    reveal_strlit("day7");
    reveal_strlit("day30");
    reveal_strlit("never");
    assert("day7"@[3] != "day1"@[3]);
    assert("day30"@.len() != "day1"@.len());
    assert("day30"@.len() != "day7"@.len());
    assert("day30"@[0] != "never"@[0]);
    assert("never"@[0] != "day1"@[0]);
    assert("never"@[0] != "day7"@[0]);
}

} // verus!
