//! One page of the history list, read from storage batch by batch.
//!
//! The caller reads raw records from storage in page order and feeds them to
//! a `HistoryPager`; consecutive records of one history group become one
//! card, cards are filtered by the query, and the requested page is kept.
//! `card_view` then turns a card into what the list shows.

use vstd::prelude::*;

use crate::aggregate::{
    cards_view, history_cards, history_cards_spec, CardModel, HistoryCard, UsedInModel,
};
use crate::capture::{filter_matches, HistoryFilter, HistoryQuery, UsedInView};
use crate::events::{chars_eq, PasteConfidence, SourceConfidence};
use crate::format::{
    full_time_label, payload_kind, payload_kind_spec, payload_preview, payload_preview_spec,
    relative_time, relative_time_spec, time_label, time_range_label, time_range_label_spec,
    ContentKind,
};
use crate::model::{copy_strings, records_view, strings_view, ClipboardPayload, ClipboardRecord, RecordModel};
use crate::search::{match_field, match_field_spec};
use crate::time::{local_datetime_spec, local_hhmm_spec, LocalTime};
use crate::worker::{same_group_spec, same_history_group};

verus! {

/// Cards on one page of the history list.
pub const HISTORY_PAGE_SIZE: usize = 25;

/// Raw records read from storage per batch.
pub const HISTORY_READ_BATCH: usize = 16;

pub open spec fn used_in_targets(us: Seq<UsedInModel>) -> Seq<Seq<char>> {
    us.map_values(|u: UsedInModel| u.target_app)
}

/// Whether a card passes the query: its content class, the pinned-only
/// switch, and the search text (content, source app or a paste target).
pub open spec fn card_passes(
    filter: HistoryFilter,
    pinned_only: bool,
    search: Seq<char>,
    card: CardModel,
) -> bool {
    &&& filter_matches(filter, payload_kind_spec(card.payload))
    &&& (!pinned_only || card.pinned)
    &&& match_field_spec(card.content, card.source_app, used_in_targets(card.used_in), search) is Some
}

pub struct PagerModel {
    pub filter: HistoryFilter,
    pub pinned_only: bool,
    pub search: Seq<char>,
    /// Matching cards that come before the page.
    pub skip: nat,
    /// Raw records of the group being read.
    pub group: Seq<RecordModel>,
    /// Cards of the page so far.
    pub cards: Seq<CardModel>,
    /// Matching cards seen so far.
    pub matched: nat,
}

/// First matching card that no longer fits on the page.
pub open spec fn page_end(skip: nat) -> int {
    if skip + HISTORY_PAGE_SIZE > usize::MAX {
        usize::MAX as int
    } else {
        skip + HISTORY_PAGE_SIZE
    }
}

/// Closes the group being read: its card counts when it matches, and lands
/// on the page when it falls in the page's range. `true` when the card is a
/// match beyond the page, so a next page exists.
pub open spec fn close_group(st: PagerModel) -> (PagerModel, bool) {
    if st.group.len() == 0 {
        (st, false)
    } else {
        let card = history_cards_spec(st.group)[0];
        if card_passes(st.filter, st.pinned_only, st.search, card) {
            if st.matched >= page_end(st.skip) {
                (st, true)
            } else {
                (
                    PagerModel {
                        cards: if st.matched >= st.skip {
                            st.cards.push(card)
                        } else {
                            st.cards
                        },
                        matched: st.matched + 1,
                        group: Seq::empty(),
                        ..st
                    },
                    false,
                )
            }
        } else {
            (PagerModel { group: Seq::empty(), ..st }, false)
        }
    }
}

/// Takes the next raw record: a record outside the current group closes it first.
pub open spec fn feed_record(st: PagerModel, r: RecordModel) -> (PagerModel, bool) {
    if st.group.len() > 0 && !same_group_spec(st.group.last(), r) {
        let (closed, full) = close_group(st);
        if full {
            (closed, true)
        } else {
            (PagerModel { group: closed.group.push(r), ..closed }, false)
        }
    } else {
        (PagerModel { group: st.group.push(r), ..st }, false)
    }
}

/// Reads one page of history cards from raw records in page order.
pub struct HistoryPager {
    filter: HistoryFilter,
    pinned_only: bool,
    search: String,
    skip: usize,
    group: Vec<ClipboardRecord>,
    cards: Vec<HistoryCard>,
    matched: usize,
}

impl View for HistoryPager {
    type V = PagerModel;

    closed spec fn view(&self) -> PagerModel {
        PagerModel {
            filter: self.filter,
            pinned_only: self.pinned_only,
            search: self.search@,
            skip: self.skip as nat,
            group: records_view(self.group@),
            cards: cards_view(self.cards@),
            matched: self.matched as nat,
        }
    }
}

impl HistoryPager {
    pub closed spec fn wf(&self) -> bool {
        self.matched as int <= page_end(self.skip as nat)
    }

    /// An empty page for `query`: the cards before page `query.page` are skipped.
    pub fn new(query: &HistoryQuery) -> (r: HistoryPager)
        ensures
            r.wf(),
            r@ == (PagerModel {
                filter: query.filter,
                pinned_only: query.pinned_only,
                search: query.search@,
                skip: if query.page * HISTORY_PAGE_SIZE > usize::MAX {
                    usize::MAX as nat
                } else {
                    (query.page * HISTORY_PAGE_SIZE) as nat
                },
                group: Seq::empty(),
                cards: Seq::empty(),
                matched: 0,
            }),
    {
        let skip = if query.page > usize::MAX / HISTORY_PAGE_SIZE {
            usize::MAX
        } else {
            query.page * HISTORY_PAGE_SIZE
        };
        let r = HistoryPager {
            filter: query.filter,
            pinned_only: query.pinned_only,
            search: query.search.clone(),
            skip,
            group: Vec::new(),
            cards: Vec::new(),
            matched: 0,
        };
        assert(r@.group =~= Seq::<RecordModel>::empty());
        assert(r@.cards =~= Seq::<CardModel>::empty());
        r
    }

    fn close(&mut self) -> (full: bool)
        requires
            old(self).wf(),
        ensures
            final(self).wf(),
            (final(self)@, full) == close_group(old(self)@),
    {
        if self.group.len() == 0 {
            return false;
        }
        let mut aggregated = history_cards(&self.group);
        proof {
            assert(cards_view(aggregated@) == history_cards_spec(records_view(self.group@)));
            assert(aggregated@.len() > 0) by {
                crate::aggregate::lemma_cards_nonempty(records_view(self.group@));
            }
        }
        let card = aggregated.remove(0);
        let ghost cm = card@;
        assert(cm == history_cards_spec(records_view(self.group@))[0]);
        let mut targets: Vec<String> = Vec::new();
        let mut i: usize = 0;
        while i < card.used_in.len()
            invariant
                i <= card.used_in@.len(),
                strings_view(targets@) == used_in_targets(cm.used_in).take(i as int),
                cm == card@,
            decreases card.used_in@.len() - i,
        {
            let t = card.used_in[i].target_app.clone();
            assert(t@ == card.used_in@[i as int].target_app@);
            assert(cm.used_in[i as int] == card.used_in@[i as int]@);
            let ghost before = strings_view(targets@);
            targets.push(t);
            assert(strings_view(targets@) =~= before.push(t@));
            assert(strings_view(targets@) =~= used_in_targets(cm.used_in).take(i as int + 1));
            i += 1;
        }
        assert(used_in_targets(cm.used_in).take(card.used_in@.len() as int) =~= used_in_targets(
            cm.used_in,
        ));
        let passes = self.filter.matches(payload_kind(&card.payload)) && (!self.pinned_only
            || card.pinned) && match_field(
            card.content.as_str(),
            card.source_app.as_str(),
            targets.as_slice(),
            self.search.as_str(),
        ).is_some();
        if passes {
            let end = if self.skip > usize::MAX - HISTORY_PAGE_SIZE {
                usize::MAX
            } else {
                self.skip + HISTORY_PAGE_SIZE
            };
            if self.matched >= end {
                return true;
            }
            if self.matched >= self.skip {
                let ghost before = self@.cards;
                self.cards.push(card);
                assert(self@.cards =~= before.push(cm));
            }
            self.matched = self.matched + 1;
        }
        assert(passes == card_passes(self.filter, self.pinned_only, self.search@, cm));
        self.group.clear();
        assert(self@.group =~= Seq::<RecordModel>::empty());
        false
    }

    /// Feeds the next raw record in page order; `true` once the page is
    /// complete and a further match shows that a next page exists.
    pub fn push(&mut self, record: ClipboardRecord) -> (full: bool)
        requires
            old(self).wf(),
        ensures
            final(self).wf(),
            (final(self)@, full) == feed_record(old(self)@, record@),
    {
        if self.group.len() > 0 {
            let last = self.group.len() - 1;
            if !same_history_group(&self.group[last], &record) {
                if self.close() {
                    return true;
                }
            }
        }
        let ghost before = self@;
        self.group.push(record);
        assert(self@.group =~= before.group.push(record@));
        false
    }

    /// Closes the last group; `true` when a next page exists.
    pub fn finish(&mut self) -> (has_next: bool)
        requires
            old(self).wf(),
        ensures
            final(self).wf(),
            (final(self)@, has_next) == close_group(old(self)@),
    {
        self.close()
    }

    /// The cards of the page, in page order.
    pub fn into_cards(self) -> (r: Vec<HistoryCard>)
        ensures
            cards_view(r@) == self@.cards,
    {
        self.cards
    }
}

// ----------------------------------------------------------------------------
// Cards as the list shows them
// ----------------------------------------------------------------------------

/// What the list shows of a payload; an image's pixels stay with the card's
/// cached thumbnail, kept by the window.
#[derive(Debug, Clone, PartialEq, Eq)]
pub enum CardPayloadView {
    Text,
    Files(Vec<String>),
    Image { width: u32, height: u32, encoded_bytes: usize },
}

pub enum CardPayloadModel {
    Text,
    Files(Seq<Seq<char>>),
    Image { width: u32, height: u32, encoded_bytes: nat },
}

impl View for CardPayloadView {
    type V = CardPayloadModel;

    open spec fn view(&self) -> CardPayloadModel {
        match self {
            CardPayloadView::Text => CardPayloadModel::Text,
            CardPayloadView::Files(ps) => CardPayloadModel::Files(strings_view(ps@)),
            CardPayloadView::Image { width, height, encoded_bytes } => CardPayloadModel::Image {
                width: *width,
                height: *height,
                encoded_bytes: *encoded_bytes as nat,
            },
        }
    }
}

pub open spec fn card_payload_spec(p: crate::model::PayloadModel) -> CardPayloadModel {
    match p {
        crate::model::PayloadModel::Text(_) => CardPayloadModel::Text,
        crate::model::PayloadModel::Files(ps) => CardPayloadModel::Files(ps),
        crate::model::PayloadModel::Image { png, width, height } => CardPayloadModel::Image {
            width,
            height,
            encoded_bytes: png.len(),
        },
    }
}

/// A history card, formatted for the list and the detail panel.
#[derive(Debug, Clone)]
pub struct CardView {
    pub sequence: u32,
    /// When the card's first copy was taken; the list is ordered by it.
    pub first_ms: i64,
    pub raw_count: usize,
    pub raw_sequences: Vec<u32>,
    pub content_preview: String,
    pub full_content: String,
    pub payload: CardPayloadView,
    pub kind: ContentKind,
    pub pinned: bool,
    pub source_app: String,
    pub source_confidence: SourceConfidence,
    pub source_window: String,
    pub time_full: String,
    pub relative_time: String,
    pub time_range: String,
    pub used_in: Vec<UsedInView>,
    pub used_in_apps: Vec<String>,
    pub has_paste_activity: bool,
    pub paste_detail: &'static str,
}

/// The entries of `s` without repeats, each where it first occurs.
pub open spec fn first_occurrences(s: Seq<Seq<char>>) -> Seq<Seq<char>>
    decreases s.len(),
{
    if s.len() == 0 {
        Seq::empty()
    } else {
        let d = first_occurrences(s.drop_last());
        if d.contains(s.last()) {
            d
        } else {
            d.push(s.last())
        }
    }
}

fn contains_string(v: &Vec<String>, s: &String) -> (r: bool)
    ensures
        r == strings_view(v@).contains(s@),
{
    let target = crate::text::chars_of(s.as_str());
    let mut i: usize = 0;
    while i < v.len()
        invariant
            i <= v@.len(),
            target@ == s@,
            forall|j: int| 0 <= j < i ==> strings_view(v@)[j] != s@,
        decreases v@.len() - i,
    {
        let c = crate::text::chars_of(v[i].as_str());
        if chars_eq(c.as_slice(), target.as_slice()) {
            assert(strings_view(v@)[i as int] == s@);
            return true;
        }
        i += 1;
    }
    false
}

/// Formats a card for display. `local` converts an instant to the machine's
/// local calendar fields (`None` when the conversion fails).
pub fn card_view<F: Fn(i64) -> Option<LocalTime>>(c: &HistoryCard, now_ms: i64, local: F) -> (r:
    CardView)
    requires
        forall|ms: i64| call_requires(local, (ms,)),
        i64::MIN <= now_ms - c.first_created_at_ms <= i64::MAX,
        i64::MIN <= c.last_created_at_ms - c.first_created_at_ms <= i64::MAX,
    ensures
        r.sequence == c.representative_sequence,
        r.first_ms == c.first_created_at_ms,
        r.raw_count == c.copy_count,
        r.raw_sequences@ == c.raw_sequences@,
        r.content_preview@ == payload_preview_spec(c.payload@, c.content_preview@),
        r.full_content@ == c.content@,
        r.payload@ == card_payload_spec(c.payload@),
        r.kind == payload_kind_spec(c.payload@),
        r.pinned == c.pinned,
        r.source_app@ == c.source_app@,
        r.source_confidence == c.source_confidence,
        r.source_window@ == c.source_window@,
        exists|t: Option<LocalTime>|
            call_ensures(local, (c.first_created_at_ms,), t) && r.time_full@ == local_datetime_spec(
                c.first_created_at_ms,
                t,
            ),
        r.relative_time@ == relative_time_spec(c.first_created_at_ms, now_ms),
        exists|t1: Option<LocalTime>, t2: Option<LocalTime>|
            call_ensures(local, (c.first_created_at_ms,), t1) && call_ensures(
                local,
                (c.last_created_at_ms,),
                t2,
            ) && r.time_range@ == time_range_label_spec(
                c.first_created_at_ms,
                c.last_created_at_ms,
                t1,
                t2,
            ),
        r.used_in@.len() == c.used_in@.len(),
        forall|i: int|
            0 <= i < r.used_in@.len() ==> {
                let u = #[trigger] r.used_in@[i];
                let s = c.used_in@[i];
                &&& u.target_app@ == s.target_app@
                &&& u.target_window@ == s.target_window@
                &&& u.method_label@ == s.method_label@
                &&& exists|t: Option<LocalTime>|
                    call_ensures(local, (s.triggered_at_ms,), t) && u.time_label@ == local_hhmm_spec(
                        s.triggered_at_ms,
                        t,
                    )
            },
        strings_view(r.used_in_apps@) == first_occurrences(
            used_in_targets(crate::aggregate::used_in_view(c.used_in@)),
        ),
        r.has_paste_activity == c.has_paste_activity,
        r.paste_detail@ == "检测到粘贴触发 — 未验证是否已插入目标应用"@,
{
    let ghost targets = used_in_targets(crate::aggregate::used_in_view(c.used_in@));
    let mut used_in: Vec<UsedInView> = Vec::new();
    let mut apps: Vec<String> = Vec::new();
    let mut i: usize = 0;
    assert(targets.take(0) =~= Seq::<Seq<char>>::empty());
    while i < c.used_in.len()
        invariant
            forall|ms: i64| call_requires(local, (ms,)),
            targets == used_in_targets(crate::aggregate::used_in_view(c.used_in@)),
            i <= c.used_in@.len(),
            used_in@.len() == i,
            forall|j: int|
                0 <= j < i ==> {
                    let u = #[trigger] used_in@[j];
                    let s = c.used_in@[j];
                    &&& u.target_app@ == s.target_app@
                    &&& u.target_window@ == s.target_window@
                    &&& u.method_label@ == s.method_label@
                    &&& exists|t: Option<LocalTime>|
                        call_ensures(local, (s.triggered_at_ms,), t) && u.time_label@
                            == local_hhmm_spec(s.triggered_at_ms, t)
                },
            strings_view(apps@) == first_occurrences(targets.take(i as int)),
        decreases c.used_in@.len() - i,
    {
        let s = &c.used_in[i];
        let t = local(s.triggered_at_ms);
        let view = UsedInView {
            target_app: s.target_app.clone(),
            target_window: s.target_window.clone(),
            method_label: s.method_label.clone(),
            time_label: time_label(s.triggered_at_ms, t),
        };
        let ghost before = strings_view(apps@);
        proof {
            assert(targets.take(i as int + 1).drop_last() =~= targets.take(i as int));
            assert(targets.take(i as int + 1).last() == s.target_app@);
        }
        if !contains_string(&apps, &s.target_app) {
            apps.push(s.target_app.clone());
            assert(strings_view(apps@) =~= before.push(s.target_app@));
        }
        used_in.push(view);
        i += 1;
    }
    assert(targets.take(c.used_in@.len() as int) =~= targets);
    let t_first = local(c.first_created_at_ms);
    let t_first_again = local(c.first_created_at_ms);
    let t_last = local(c.last_created_at_ms);
    let payload = match &c.payload {
        ClipboardPayload::Text(_) => CardPayloadView::Text,
        ClipboardPayload::Files(paths) => CardPayloadView::Files(copy_strings(paths)),
        ClipboardPayload::Image { png, width, height } => CardPayloadView::Image {
            width: *width,
            height: *height,
            encoded_bytes: png.len(),
        },
    };
    CardView {
        sequence: c.representative_sequence,
        first_ms: c.first_created_at_ms,
        raw_count: c.copy_count,
        raw_sequences: c.raw_sequences.clone(),
        content_preview: payload_preview(&c.payload, c.content_preview.as_str()),
        full_content: c.content.clone(),
        payload,
        kind: payload_kind(&c.payload),
        pinned: c.pinned,
        source_app: c.source_app.clone(),
        source_confidence: c.source_confidence,
        source_window: c.source_window.clone(),
        time_full: full_time_label(c.first_created_at_ms, t_first),
        relative_time: relative_time(c.first_created_at_ms, now_ms),
        time_range: time_range_label(
            c.first_created_at_ms,
            c.last_created_at_ms,
            t_first_again,
            t_last,
        ),
        used_in,
        used_in_apps: apps,
        has_paste_activity: c.has_paste_activity,
        paste_detail: PasteConfidence::HotkeyObserved.detail_copy(),
    }
}


/// A card's time spans fit the arithmetic its labels use: its age at `now_ms`
/// and its own duration.
pub open spec fn spans_fit(c: CardModel, now_ms: i64) -> bool {
    &&& i64::MIN <= now_ms - c.first_created_at_ms <= i64::MAX
    &&& i64::MIN <= c.last_created_at_ms - c.first_created_at_ms <= i64::MAX
}

/// Formats a page of cards for display, or reports the page unreadable when
/// a card's time span does not fit (a corrupt timestamp in the store).
pub fn page_card_views<F: Fn(i64) -> Option<LocalTime> + Copy>(
    cards: &Vec<HistoryCard>,
    now_ms: i64,
    local: F,
) -> (r: Result<Vec<CardView>, String>)
    requires
        forall|ms: i64| call_requires(local, (ms,)),
    ensures
        r is Ok <==> forall|i: int| 0 <= i < cards@.len() ==> spans_fit(#[trigger] cards@[i]@, now_ms),
        r matches Err(e) ==> e@ == "读取历史失败：记录时间无效"@,
        r matches Ok(v) ==> v@.len() == cards@.len() && forall|i: int|
            0 <= i < v@.len() ==> {
                &&& (#[trigger] v@[i]).sequence == cards@[i].representative_sequence
                &&& v@[i].first_ms == cards@[i].first_created_at_ms
                &&& v@[i].raw_count == cards@[i].copy_count
                &&& v@[i].raw_sequences@ == cards@[i].raw_sequences@
                &&& v@[i].full_content@ == cards@[i].content@
                &&& v@[i].pinned == cards@[i].pinned
                &&& v@[i].source_app@ == cards@[i].source_app@
                &&& v@[i].relative_time@ == relative_time_spec(cards@[i].first_created_at_ms, now_ms)
            },
{
    let mut out: Vec<CardView> = Vec::new();
    let mut i: usize = 0;
    while i < cards.len()
        invariant
            i <= cards@.len(),
            forall|ms: i64| call_requires(local, (ms,)),
            forall|k: int| 0 <= k < i ==> spans_fit(#[trigger] cards@[k]@, now_ms),
            out@.len() == i,
            forall|k: int|
                0 <= k < i ==> {
                    &&& (#[trigger] out@[k]).sequence == cards@[k].representative_sequence
                    &&& out@[k].first_ms == cards@[k].first_created_at_ms
                    &&& out@[k].raw_count == cards@[k].copy_count
                    &&& out@[k].raw_sequences@ == cards@[k].raw_sequences@
                    &&& out@[k].full_content@ == cards@[k].content@
                    &&& out@[k].pinned == cards@[k].pinned
                    &&& out@[k].source_app@ == cards@[k].source_app@
                    &&& out@[k].relative_time@ == relative_time_spec(cards@[k].first_created_at_ms, now_ms)
                },
        decreases cards@.len() - i,
    {
        let card = &cards[i];
        let age_fits = now_ms.checked_sub(card.first_created_at_ms).is_some();
        let span_fits = card.last_created_at_ms.checked_sub(card.first_created_at_ms).is_some();
        if !(age_fits && span_fits) {
            assert(!spans_fit(cards@[i as int]@, now_ms));
            let mut e = String::new();
            crate::text::push_str(&mut e, "读取历史失败：记录时间无效");
            return Err(e);
        }
        let view = card_view(card, now_ms, local);
        out.push(view);
        i += 1;
    }
    Ok(out)
}

} // verus!
