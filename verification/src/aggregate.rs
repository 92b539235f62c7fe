//! History aggregation view. Raw stored events are never merged; identical
//! copies made within a short window are grouped for display only.

use vstd::prelude::*;

use crate::events::{paste_method_label, SourceConfidence};
use crate::model::{
    records_view, ClipboardPayload, ClipboardRecord, PasteModel, PayloadModel, RecordModel,
};
use crate::text::push_str;

verus! {

/// Group identical copies made within this many milliseconds of each other.
pub const AGGREGATION_WINDOW_MS: i64 = 5_000;

/// Characters shown in a card preview.
pub const PREVIEW_CHARS: usize = 80;

#[derive(Debug, Clone, PartialEq, Eq)]
pub struct UsedInSummary {
    pub target_app: String,
    pub target_window: String,
    pub method_label: String,
    pub triggered_at_ms: i64,
}

pub struct UsedInModel {
    pub target_app: Seq<char>,
    pub target_window: Seq<char>,
    pub method_label: Seq<char>,
    pub triggered_at_ms: i64,
}

impl View for UsedInSummary {
    type V = UsedInModel;

    open spec fn view(&self) -> UsedInModel {
        UsedInModel {
            target_app: self.target_app@,
            target_window: self.target_window@,
            method_label: self.method_label@,
            triggered_at_ms: self.triggered_at_ms,
        }
    }
}

/// One history card (may represent several raw records).
#[derive(Debug, Clone, PartialEq, Eq)]
pub struct HistoryCard {
    pub representative_sequence: u32,
    pub raw_sequences: Vec<u32>,
    pub copy_count: usize,
    pub content: String,
    pub content_preview: String,
    pub content_hash: String,
    pub source_app: String,
    pub source_confidence: SourceConfidence,
    pub source_window: String,
    pub payload: ClipboardPayload,
    pub pinned: bool,
    pub first_created_at_ms: i64,
    pub last_created_at_ms: i64,
    pub used_in: Vec<UsedInSummary>,
    pub has_paste_activity: bool,
}

pub struct CardModel {
    pub representative_sequence: u32,
    pub raw_sequences: Seq<u32>,
    pub copy_count: nat,
    pub content: Seq<char>,
    pub content_preview: Seq<char>,
    pub content_hash: Seq<char>,
    pub source_app: Seq<char>,
    pub source_confidence: SourceConfidence,
    pub source_window: Seq<char>,
    pub payload: PayloadModel,
    pub pinned: bool,
    pub first_created_at_ms: i64,
    pub last_created_at_ms: i64,
    pub used_in: Seq<UsedInModel>,
    pub has_paste_activity: bool,
}

pub open spec fn used_in_view(v: Seq<UsedInSummary>) -> Seq<UsedInModel> {
    v.map_values(|u: UsedInSummary| u@)
}

impl View for HistoryCard {
    type V = CardModel;

    open spec fn view(&self) -> CardModel {
        CardModel {
            representative_sequence: self.representative_sequence,
            raw_sequences: self.raw_sequences@,
            copy_count: self.copy_count as nat,
            content: self.content@,
            content_preview: self.content_preview@,
            content_hash: self.content_hash@,
            source_app: self.source_app@,
            source_confidence: self.source_confidence,
            source_window: self.source_window@,
            payload: self.payload@,
            pinned: self.pinned,
            first_created_at_ms: self.first_created_at_ms,
            last_created_at_ms: self.last_created_at_ms,
            used_in: used_in_view(self.used_in@),
            has_paste_activity: self.has_paste_activity,
        }
    }
}

pub open spec fn cards_view(v: Seq<HistoryCard>) -> Seq<CardModel> {
    v.map_values(|c: HistoryCard| c@)
}

// ----------------------------------------------------------------------------
// Ordering: stable sort by (created_at_ms, sequence)
// ----------------------------------------------------------------------------

pub open spec fn key_le(a: RecordModel, b: RecordModel) -> bool {
    a.created_at_ms < b.created_at_ms || (a.created_at_ms == b.created_at_ms && a.sequence
        <= b.sequence)
}

/// Inserts `r` after every element whose key is not greater than its own.
pub open spec fn insert_sorted(s: Seq<RecordModel>, r: RecordModel) -> Seq<RecordModel>
    decreases s.len(),
{
    if s.len() == 0 {
        seq![r]
    } else if key_le(s.last(), r) {
        s.push(r)
    } else {
        insert_sorted(s.drop_last(), r).push(s.last())
    }
}

/// Records ordered by creation time, then sequence; equal keys keep their order.
pub open spec fn sort_records(s: Seq<RecordModel>) -> Seq<RecordModel>
    decreases s.len(),
{
    if s.len() == 0 {
        Seq::empty()
    } else {
        insert_sorted(sort_records(s.drop_last()), s.last())
    }
}

// ----------------------------------------------------------------------------
// Grouping
// ----------------------------------------------------------------------------

pub open spec fn preview_spec(text: Seq<char>) -> Seq<char> {
    if text.len() <= PREVIEW_CHARS {
        text
    } else {
        text.take(PREVIEW_CHARS as int)
    }
}

pub open spec fn used_in_of(p: PasteModel) -> UsedInModel {
    UsedInModel {
        target_app: p.target_app,
        target_window: p.target_window,
        method_label: paste_method_label(p.method),
        triggered_at_ms: p.triggered_at_ms,
    }
}

pub open spec fn used_in_of_pastes(ps: Seq<PasteModel>) -> Seq<UsedInModel> {
    ps.map_values(|p: PasteModel| used_in_of(p))
}

/// A card for a single record.
pub open spec fn new_card(r: RecordModel) -> CardModel {
    CardModel {
        representative_sequence: r.sequence,
        raw_sequences: seq![r.sequence],
        copy_count: 1,
        content: r.content,
        content_preview: preview_spec(r.content),
        content_hash: r.content_hash,
        source_app: r.source_app,
        source_confidence: r.source_confidence,
        source_window: r.source_window,
        payload: r.payload,
        pinned: r.pinned,
        first_created_at_ms: r.created_at_ms,
        last_created_at_ms: r.created_at_ms,
        used_in: used_in_of_pastes(r.pastes),
        has_paste_activity: r.pastes.len() > 0,
    }
}

/// A record joins the latest card when it is an identical copy (same content
/// hash, source app and pin state) made within the window after the card's
/// last copy.
pub open spec fn joins(c: CardModel, r: RecordModel) -> bool {
    &&& c.content_hash == r.content_hash
    &&& c.source_app == r.source_app
    &&& c.pinned == r.pinned
    &&& r.created_at_ms - c.last_created_at_ms <= AGGREGATION_WINDOW_MS
}

pub open spec fn extend_card(c: CardModel, r: RecordModel) -> CardModel {
    CardModel {
        raw_sequences: c.raw_sequences.push(r.sequence),
        copy_count: c.copy_count + 1,
        last_created_at_ms: r.created_at_ms,
        used_in: c.used_in + used_in_of_pastes(r.pastes),
        has_paste_activity: c.has_paste_activity || r.pastes.len() > 0,
        ..c
    }
}

/// Cards in ascending time order, built record by record.
pub open spec fn group_cards(s: Seq<RecordModel>) -> Seq<CardModel>
    decreases s.len(),
{
    if s.len() == 0 {
        Seq::empty()
    } else {
        let prev = group_cards(s.drop_last());
        let r = s.last();
        if prev.len() > 0 && joins(prev.last(), r) {
            prev.update(prev.len() - 1, extend_card(prev.last(), r))
        } else {
            prev.push(new_card(r))
        }
    }
}

/// A card as shown: its paste uses newest first.
pub open spec fn presented(c: CardModel) -> CardModel {
    CardModel { used_in: c.used_in.reverse(), ..c }
}

/// History cards, newest first, each listing its uses newest first.
pub open spec fn history_cards_spec(records: Seq<RecordModel>) -> Seq<CardModel> {
    let asc = group_cards(sort_records(records));
    Seq::new(asc.len(), |i: int| presented(asc[asc.len() - 1 - i]))
}

// ----------------------------------------------------------------------------
// Aggregation is a view: no raw record is lost, duplicated or merged
// ----------------------------------------------------------------------------

/// The raw sequences of the cards, card after card.
pub open spec fn all_raw(cards: Seq<CardModel>) -> Seq<u32>
    decreases cards.len(),
{
    if cards.len() == 0 {
        Seq::empty()
    } else {
        all_raw(cards.drop_last()) + cards.last().raw_sequences
    }
}

pub open spec fn sequences_of(s: Seq<RecordModel>) -> Seq<u32> {
    s.map_values(|r: RecordModel| r.sequence)
}

/// A card counts exactly the raw copies it lists, and lists at least one.
pub open spec fn card_counts_its_copies(c: CardModel) -> bool {
    c.copy_count == c.raw_sequences.len() && c.raw_sequences.len() >= 1
}

proof fn lemma_group_cards_raw(s: Seq<RecordModel>)
    ensures
        all_raw(group_cards(s)) == sequences_of(s),
        forall|i: int|
            0 <= i < group_cards(s).len() ==> card_counts_its_copies(#[trigger] group_cards(s)[i]),
    decreases s.len(),
{
    if s.len() > 0 {
        let prev = group_cards(s.drop_last());
        let r = s.last();
        lemma_group_cards_raw(s.drop_last());
        assert(sequences_of(s) =~= sequences_of(s.drop_last()).push(r.sequence));
        let g = group_cards(s);
        if prev.len() > 0 && joins(prev.last(), r) {
            let ext = extend_card(prev.last(), r);
            assert(g.drop_last() =~= prev.drop_last());
            assert(g.last() == ext);
            assert(all_raw(prev) == all_raw(prev.drop_last()) + prev.last().raw_sequences);
            assert(all_raw(g) =~= all_raw(prev).push(r.sequence));
            assert forall|i: int| 0 <= i < g.len() implies card_counts_its_copies(
                #[trigger] g[i],
            ) by {
                if i < g.len() - 1 {
                    assert(g[i] == prev[i]);
                }
            }
        } else {
            assert(g.drop_last() =~= prev);
            assert(all_raw(g) =~= all_raw(prev).push(r.sequence));
            assert forall|i: int| 0 <= i < g.len() implies card_counts_its_copies(
                #[trigger] g[i],
            ) by {
                if i < g.len() - 1 {
                    assert(g[i] == prev[i]);
                }
            }
        }
    } else {
        assert(sequences_of(s) =~= Seq::<u32>::empty());
    }
}

proof fn lemma_all_raw_same(a: Seq<CardModel>, b: Seq<CardModel>)
    requires
        a.len() == b.len(),
        forall|i: int| 0 <= i < a.len() ==> (#[trigger] a[i]).raw_sequences == b[i].raw_sequences,
    ensures
        all_raw(a) == all_raw(b),
    decreases a.len(),
{
    if a.len() > 0 {
        lemma_all_raw_same(a.drop_last(), b.drop_last());
        assert(a.last().raw_sequences == b.last().raw_sequences) by {
            assert(a[a.len() - 1].raw_sequences == b[a.len() - 1].raw_sequences);
        }
    }
}

proof fn lemma_insert_sorted_multiset(s: Seq<RecordModel>, r: RecordModel)
    ensures
        insert_sorted(s, r).to_multiset() == s.to_multiset().insert(r),
    decreases s.len(),
{
    broadcast use vstd::seq_lib::group_to_multiset_ensures;

    if s.len() == 0 {
        assert(seq![r] =~= s.push(r));
    } else if key_le(s.last(), r) {
    } else {
        lemma_insert_sorted_multiset(s.drop_last(), r);
        assert(s.drop_last().push(s.last()) =~= s);
        assert(insert_sorted(s.drop_last(), r).push(s.last()).to_multiset() =~= s.drop_last().to_multiset().insert(
            r,
        ).insert(s.last()));
        assert(s.to_multiset() =~= s.drop_last().to_multiset().insert(s.last()));
    }
}

proof fn lemma_insert_sorted_sequences(s: Seq<RecordModel>, r: RecordModel)
    ensures
        sequences_of(insert_sorted(s, r)).to_multiset() == sequences_of(s).to_multiset().insert(
            r.sequence,
        ),
    decreases s.len(),
{
    broadcast use vstd::seq_lib::group_to_multiset_ensures;

    if s.len() == 0 {
        assert(sequences_of(seq![r]) =~= sequences_of(s).push(r.sequence));
    } else if key_le(s.last(), r) {
        assert(sequences_of(s.push(r)) =~= sequences_of(s).push(r.sequence));
    } else {
        let d = s.drop_last();
        lemma_insert_sorted_sequences(d, r);
        assert(sequences_of(insert_sorted(d, r).push(s.last())) =~= sequences_of(insert_sorted(d, r)).push(
            s.last().sequence,
        ));
        assert(sequences_of(s) =~= sequences_of(d).push(s.last().sequence));
        assert(sequences_of(insert_sorted(d, r)).push(s.last().sequence).to_multiset() =~= sequences_of(
            d,
        ).to_multiset().insert(r.sequence).insert(s.last().sequence));
        assert(sequences_of(s).to_multiset() =~= sequences_of(d).to_multiset().insert(s.last().sequence));
    }
}

proof fn lemma_sort_records_sequences(s: Seq<RecordModel>)
    ensures
        sequences_of(sort_records(s)).to_multiset() == sequences_of(s).to_multiset(),
    decreases s.len(),
{
    broadcast use vstd::seq_lib::group_to_multiset_ensures;

    if s.len() > 0 {
        lemma_sort_records_sequences(s.drop_last());
        lemma_insert_sorted_sequences(sort_records(s.drop_last()), s.last());
        assert(sequences_of(s) =~= sequences_of(s.drop_last()).push(s.last().sequence));
    }
}

proof fn lemma_sort_records_multiset(s: Seq<RecordModel>)
    ensures
        sort_records(s).to_multiset() == s.to_multiset(),
    decreases s.len(),
{
    broadcast use vstd::seq_lib::group_to_multiset_ensures;

    if s.len() > 0 {
        lemma_sort_records_multiset(s.drop_last());
        lemma_insert_sorted_multiset(sort_records(s.drop_last()), s.last());
        assert(s.drop_last().push(s.last()) =~= s);
    }
}

proof fn lemma_sort_records_len(s: Seq<RecordModel>)
    ensures
        sort_records(s).len() == s.len(),
    decreases s.len(),
{
    if s.len() > 0 {
        lemma_sort_records_len(s.drop_last());
        lemma_insert_sorted_len(sort_records(s.drop_last()), s.last());
    }
}

proof fn lemma_insert_sorted_len(s: Seq<RecordModel>, r: RecordModel)
    ensures
        insert_sorted(s, r).len() == s.len() + 1,
    decreases s.len(),
{
    if s.len() > 0 && !key_le(s.last(), r) {
        lemma_insert_sorted_len(s.drop_last(), r);
    }
}

proof fn lemma_group_cards_nonempty(s: Seq<RecordModel>)
    requires
        s.len() > 0,
    ensures
        group_cards(s).len() > 0,
{
}

/// Records always yield at least one card.
pub proof fn lemma_cards_nonempty(records: Seq<RecordModel>)
    requires
        records.len() > 0,
    ensures
        history_cards_spec(records).len() > 0,
{
    lemma_sort_records_len(records);
    lemma_group_cards_nonempty(sort_records(records));
}

/// Aggregation only groups for display: sorting keeps every raw record (as a
/// multiset), each card counts exactly the raw copies it lists, and reading
/// the cards oldest first lists every raw record once, in time order, so the
/// cards' raw sequences together are a permutation of the input sequences.
pub proof fn law_cards_keep_every_raw_record(records: Seq<RecordModel>)
    ensures
        sort_records(records).to_multiset() == records.to_multiset(),
        all_raw(history_cards_spec(records).reverse()) == sequences_of(sort_records(records)),
        all_raw(history_cards_spec(records).reverse()).to_multiset() == sequences_of(records).to_multiset(),
        forall|i: int|
            0 <= i < history_cards_spec(records).len() ==> card_counts_its_copies(
                #[trigger] history_cards_spec(records)[i],
            ),
{
    lemma_sort_records_multiset(records);
    lemma_sort_records_sequences(records);
    let asc = group_cards(sort_records(records));
    let cards = history_cards_spec(records);
    lemma_group_cards_raw(sort_records(records));
    lemma_all_raw_same(cards.reverse(), asc);
    assert forall|i: int| 0 <= i < cards.len() implies card_counts_its_copies(#[trigger] cards[i]) by {
        assert(cards[i] == presented(asc[asc.len() - 1 - i]));
    }
}

// ----------------------------------------------------------------------------
// Cards are runs of adjacent identical copies
// ----------------------------------------------------------------------------

/// Records sorted by (created_at_ms, sequence).
pub open spec fn sorted_by_key(s: Seq<RecordModel>) -> bool {
    forall|i: int, j: int| 0 <= i < j < s.len() ==> key_le(#[trigger] s[i], #[trigger] s[j])
}

/// Two records adjacent in time order are copies of one card: same content
/// hash, source app and pin state, the later made within the window.
pub open spec fn adjacent_copies(a: RecordModel, b: RecordModel) -> bool {
    &&& a.content_hash == b.content_hash
    &&& a.source_app == b.source_app
    &&& a.pinned == b.pinned
    &&& b.created_at_ms - a.created_at_ms <= AGGREGATION_WINDOW_MS
}

/// The card number of each record: the first record opens card 0, and each
/// later record opens a new card unless it is an adjacent copy of the one
/// before it.
pub open spec fn card_positions(s: Seq<RecordModel>) -> Seq<int>
    decreases s.len(),
{
    if s.len() <= 1 {
        Seq::new(s.len(), |i: int| 0)
    } else {
        let p = card_positions(s.drop_last());
        p.push(p.last() + if adjacent_copies(s[s.len() - 2], s.last()) {
            0int
        } else {
            1int
        })
    }
}

proof fn lemma_insert_sorted_elems(s: Seq<RecordModel>, r: RecordModel)
    ensures
        forall|i: int|
            0 <= i < insert_sorted(s, r).len() ==> #[trigger] insert_sorted(s, r)[i] == r
                || s.contains(insert_sorted(s, r)[i]),
    decreases s.len(),
{
    lemma_insert_sorted_len(s, r);
    if s.len() > 0 && !key_le(s.last(), r) {
        lemma_insert_sorted_elems(s.drop_last(), r);
        let t = insert_sorted(s.drop_last(), r);
        lemma_insert_sorted_len(s.drop_last(), r);
        assert forall|i: int| 0 <= i < insert_sorted(s, r).len() implies #[trigger] insert_sorted(
            s,
            r,
        )[i] == r || s.contains(insert_sorted(s, r)[i]) by {
            if i < t.len() {
                assert(insert_sorted(s, r)[i] == t[i]);
                if t[i] != r {
                    let k = choose|k: int| 0 <= k < s.drop_last().len() && s.drop_last()[k] == t[i];
                    assert(s[k] == t[i]);
                }
            } else {
                assert(s[s.len() - 1] == s.last());
            }
        }
    } else if s.len() > 0 {
        assert forall|i: int| 0 <= i < insert_sorted(s, r).len() implies #[trigger] insert_sorted(
            s,
            r,
        )[i] == r || s.contains(insert_sorted(s, r)[i]) by {
            if i < s.len() {
                assert(insert_sorted(s, r)[i] == s[i]);
            }
        }
    }
}

proof fn lemma_insert_sorted_sorted(s: Seq<RecordModel>, r: RecordModel)
    requires
        sorted_by_key(s),
    ensures
        sorted_by_key(insert_sorted(s, r)),
    decreases s.len(),
{
    lemma_insert_sorted_len(s, r);
    if s.len() == 0 {
    } else if key_le(s.last(), r) {
        let t = s.push(r);
        assert forall|i: int, j: int| 0 <= i < j < t.len() implies key_le(#[trigger] t[i], #[trigger] t[j]) by {
            if j == t.len() - 1 {
                if i < s.len() - 1 {
                    assert(key_le(s[i], s[s.len() - 1]));
                }
            } else {
                assert(key_le(s[i], s[j]));
            }
        }
    } else {
        let d = s.drop_last();
        assert(sorted_by_key(d)) by {
            assert forall|i: int, j: int| 0 <= i < j < d.len() implies key_le(#[trigger] d[i], #[trigger] d[j]) by {
                assert(key_le(s[i], s[j]));
            }
        }
        lemma_insert_sorted_sorted(d, r);
        lemma_insert_sorted_elems(d, r);
        lemma_insert_sorted_len(d, r);
        let u = insert_sorted(d, r);
        let t = u.push(s.last());
        assert forall|i: int, j: int| 0 <= i < j < t.len() implies key_le(#[trigger] t[i], #[trigger] t[j]) by {
            if j == t.len() - 1 {
                assert(t[i] == u[i]);
                if u[i] != r {
                    let k = choose|k: int| 0 <= k < d.len() && d[k] == u[i];
                    assert(key_le(s[k], s[s.len() - 1]));
                }
            } else {
                assert(t[i] == u[i] && t[j] == u[j]);
            }
        }
    }
}

proof fn lemma_sort_records_sorted(s: Seq<RecordModel>)
    ensures
        sorted_by_key(sort_records(s)),
    decreases s.len(),
{
    if s.len() > 0 {
        lemma_sort_records_sorted(s.drop_last());
        lemma_insert_sorted_sorted(sort_records(s.drop_last()), s.last());
    }
}

/// Card numbers start at 0, one card per number, and the latest card ends
/// with the latest record.
#[verifier::opaque]
pub open spec fn runs_shape(s: Seq<RecordModel>, g: Seq<CardModel>, p: Seq<int>) -> bool {
    &&& p.len() == s.len()
    &&& s.len() == 0 ==> g.len() == 0
    &&& s.len() > 0 ==> p[0] == 0 && g.len() == p.last() + 1 && g.last().last_created_at_ms
        == s.last().created_at_ms
}

/// A record shares its predecessor's card exactly when it is an adjacent copy of it.
#[verifier::opaque]
pub open spec fn runs_steps(s: Seq<RecordModel>, p: Seq<int>) -> bool {
    forall|j: int| 0 < j < s.len() ==> #[trigger] p[j] == p[j - 1] + if adjacent_copies(
        s[j - 1],
        s[j],
    ) {
        0int
    } else {
        1int
    }
}

/// Every record is listed by its card and shares the card's content hash,
/// source app and pin state.
#[verifier::opaque]
pub open spec fn runs_members(s: Seq<RecordModel>, g: Seq<CardModel>, p: Seq<int>) -> bool {
    forall|j: int| 0 <= j < s.len() ==> {
        &&& 0 <= #[trigger] p[j] < g.len()
        &&& g[p[j]].content_hash == s[j].content_hash
        &&& g[p[j]].source_app == s[j].source_app
        &&& g[p[j]].pinned == s[j].pinned
        &&& g[p[j]].raw_sequences.contains(s[j].sequence)
    }
}

/// Every sequence a card lists belongs to one of the card's own records.
#[verifier::opaque]
pub open spec fn runs_listed(s: Seq<RecordModel>, g: Seq<CardModel>, p: Seq<int>) -> bool {
    forall|k: int, x: u32|
        0 <= k < g.len() && #[trigger] g[k].raw_sequences.contains(x) ==> exists|j: int|
            0 <= j < s.len() && #[trigger] p[j] == k && s[j].sequence == x
}

/// The cards `g` are the runs of adjacent copies in `s`, numbered by `p`.
pub open spec fn cards_are_runs(s: Seq<RecordModel>, g: Seq<CardModel>, p: Seq<int>) -> bool {
    runs_shape(s, g, p) && runs_steps(s, p) && runs_members(s, g, p) && runs_listed(s, g, p)
}

proof fn lemma_runs_joins(d: Seq<RecordModel>, gp: Seq<CardModel>, pp: Seq<int>, r: RecordModel)
    requires
        cards_are_runs(d, gp, pp),
        d.len() > 0,
    ensures
        gp.len() > 0,
        joins(gp.last(), r) == adjacent_copies(d.last(), r),
{
    reveal(runs_shape);
    reveal(runs_members);
    let j = d.len() - 1;
    assert(0 <= pp[j] < gp.len());
    assert(gp.last() == gp[pp[j]]);
}

proof fn lemma_runs_join(d: Seq<RecordModel>, gp: Seq<CardModel>, pp: Seq<int>, r: RecordModel)
    requires
        cards_are_runs(d, gp, pp),
        d.len() > 0,
        gp.len() > 0,
        adjacent_copies(d.last(), r),
    ensures
        cards_are_runs(
            d.push(r),
            gp.update(gp.len() - 1, extend_card(gp.last(), r)),
            pp.push(pp.last()),
        ),
{
    let s = d.push(r);
    let last = gp.len() - 1;
    let e = extend_card(gp.last(), r);
    let g = gp.update(last, e);
    let p = pp.push(pp.last());
    let n = s.len();
    reveal(runs_shape);
    assert(pp.len() == d.len());
    assert(pp.last() == last);
    assert(runs_shape(s, g, p));
    assert(runs_steps(s, p)) by {
        reveal(runs_steps);
        assert forall|j: int| 0 < j < s.len() implies #[trigger] p[j] == p[j - 1] + if adjacent_copies(
            s[j - 1],
            s[j],
        ) {
            0int
        } else {
            1int
        } by {
            if j < n - 1 {
                assert(pp[j] == pp[j - 1] + if adjacent_copies(d[j - 1], d[j]) {
                    0int
                } else {
                    1int
                });
            } else {
                assert(s[j - 1] == d.last());
            }
        }
    }
    assert(runs_members(s, g, p)) by {
        reveal(runs_members);
        assert forall|j: int| 0 <= j < s.len() implies {
            &&& 0 <= #[trigger] p[j] < g.len()
            &&& g[p[j]].content_hash == s[j].content_hash
            &&& g[p[j]].source_app == s[j].source_app
            &&& g[p[j]].pinned == s[j].pinned
            &&& g[p[j]].raw_sequences.contains(s[j].sequence)
        } by {
            if j < n - 1 {
                assert(s[j] == d[j] && p[j] == pp[j]);
                assert(0 <= pp[j] < gp.len());
                if pp[j] == last {
                    assert(gp[last].raw_sequences.contains(d[j].sequence));
                    let w = choose|w: int|
                        0 <= w < gp[last].raw_sequences.len() && gp[last].raw_sequences[w]
                            == d[j].sequence;
                    assert(e.raw_sequences[w] == d[j].sequence);
                } else {
                    assert(g[pp[j]] == gp[pp[j]]);
                }
            } else {
                assert(0 <= pp[d.len() - 1] < gp.len());
                assert(gp[last] == gp[pp[d.len() - 1]]);
                assert(e.raw_sequences[e.raw_sequences.len() - 1] == r.sequence);
            }
        }
    }
    reveal(runs_listed);
    assert forall|k: int, x: u32|
        0 <= k < g.len() && #[trigger] g[k].raw_sequences.contains(x) implies exists|j: int|
            0 <= j < s.len() && #[trigger] p[j] == k && s[j].sequence == x by {
        if k == last && x == r.sequence {
            assert(p[n - 1] == k && s[n - 1].sequence == x);
        } else {
            let w = choose|w: int| 0 <= w < g[k].raw_sequences.len() && g[k].raw_sequences[w] == x;
            if k == last {
                assert(w < gp[last].raw_sequences.len());
                assert(gp[k].raw_sequences[w] == x);
            } else {
                assert(g[k] == gp[k]);
            }
            assert(gp[k].raw_sequences.contains(x));
            let j = choose|j: int| 0 <= j < d.len() && #[trigger] pp[j] == k && d[j].sequence == x;
            assert(p[j] == k && s[j] == d[j]);
        }
    }
}

proof fn lemma_runs_new(d: Seq<RecordModel>, gp: Seq<CardModel>, pp: Seq<int>, r: RecordModel)
    requires
        cards_are_runs(d, gp, pp),
        d.len() == 0 || !adjacent_copies(d.last(), r),
    ensures
        cards_are_runs(
            d.push(r),
            gp.push(new_card(r)),
            pp.push(if d.len() == 0 { 0int } else { pp.last() + 1 }),
        ),
{
    let s = d.push(r);
    let g = gp.push(new_card(r));
    let top = gp.len() as int;
    let p = pp.push(if d.len() == 0 { 0int } else { pp.last() + 1 });
    let n = s.len();
    reveal(runs_shape);
    assert(pp.len() == d.len());
    assert(p[n - 1] == top);
    assert(runs_shape(s, g, p));
    assert(runs_steps(s, p)) by {
        reveal(runs_steps);
        assert forall|j: int| 0 < j < s.len() implies #[trigger] p[j] == p[j - 1] + if adjacent_copies(
            s[j - 1],
            s[j],
        ) {
            0int
        } else {
            1int
        } by {
            if j < n - 1 {
                assert(pp[j] == pp[j - 1] + if adjacent_copies(d[j - 1], d[j]) {
                    0int
                } else {
                    1int
                });
            } else {
                assert(s[j - 1] == d.last());
            }
        }
    }
    assert(runs_members(s, g, p)) by {
        reveal(runs_members);
        assert forall|j: int| 0 <= j < s.len() implies {
            &&& 0 <= #[trigger] p[j] < g.len()
            &&& g[p[j]].content_hash == s[j].content_hash
            &&& g[p[j]].source_app == s[j].source_app
            &&& g[p[j]].pinned == s[j].pinned
            &&& g[p[j]].raw_sequences.contains(s[j].sequence)
        } by {
            if j < n - 1 {
                assert(s[j] == d[j] && p[j] == pp[j]);
                assert(0 <= pp[j] < gp.len());
                assert(g[pp[j]] == gp[pp[j]]);
            } else {
                assert(g[top as int].raw_sequences[0] == r.sequence);
            }
        }
    }
    reveal(runs_listed);
    assert forall|k: int, x: u32|
        0 <= k < g.len() && #[trigger] g[k].raw_sequences.contains(x) implies exists|j: int|
            0 <= j < s.len() && #[trigger] p[j] == k && s[j].sequence == x by {
        if k == top {
            assert(g[k].raw_sequences =~= seq![r.sequence]);
            assert(p[n - 1] == k && s[n - 1].sequence == x);
        } else {
            assert(g[k] == gp[k]);
            let j = choose|j: int| 0 <= j < d.len() && #[trigger] pp[j] == k && d[j].sequence == x;
            assert(p[j] == k && s[j] == d[j]);
        }
    }
}

/// Grouping any record sequence yields exactly its runs of adjacent copies.
proof fn lemma_group_cards_runs(s: Seq<RecordModel>)
    ensures
        cards_are_runs(s, group_cards(s), card_positions(s)),
    decreases s.len(),
{
    if s.len() == 0 {
        reveal(runs_shape);
        reveal(runs_steps);
        reveal(runs_members);
        reveal(runs_listed);
        assert(card_positions(s).len() == 0);
    } else {
        let d = s.drop_last();
        let r = s.last();
        lemma_group_cards_runs(d);
        assert(s =~= d.push(r));
        if d.len() == 0 {
            lemma_runs_new(d, group_cards(d), card_positions(d), r);
            assert(card_positions(s) =~= card_positions(d).push(0int));
        } else {
            lemma_runs_joins(d, group_cards(d), card_positions(d), r);
            assert(s[s.len() - 2] == d.last());
            if adjacent_copies(d.last(), r) {
                lemma_runs_join(d, group_cards(d), card_positions(d), r);
            } else {
                lemma_runs_new(d, group_cards(d), card_positions(d), r);
            }
        }
    }
}

/// Each card's time span is that of its own records: a card opened by the
/// record at `j` (the first record, or one that starts a new card) has that
/// record's time as its first copy time, and a card closed at `j` (the last
/// record, or one followed by a new card) has that record's time as its last.
#[verifier::opaque]
pub open spec fn runs_times(s: Seq<RecordModel>, g: Seq<CardModel>, p: Seq<int>) -> bool {
    &&& forall|j: int|
        #![trigger s[j]]
        0 <= j < s.len() && (j == 0 || p[j] != p[j - 1]) ==> g[p[j]].first_created_at_ms
            == s[j].created_at_ms
    &&& forall|j: int|
        #![trigger s[j]]
        0 <= j < s.len() && (j == s.len() - 1 || p[j + 1] != p[j]) ==> g[p[j]].last_created_at_ms
            == s[j].created_at_ms
}

/// No card's first copy is later than its last.
pub open spec fn cards_time_ordered(g: Seq<CardModel>) -> bool {
    forall|k: int| 0 <= k < g.len() ==> (#[trigger] g[k]).first_created_at_ms <= g[k].last_created_at_ms
}

proof fn lemma_group_cards_times(s: Seq<RecordModel>)
    ensures
        runs_times(s, group_cards(s), card_positions(s)),
        sorted_by_key(s) ==> cards_time_ordered(group_cards(s)),
    decreases s.len(),
{
    reveal(runs_times);
    let n = s.len();
    if n == 0 {
    } else if n == 1 {
        let g = group_cards(s);
        let p = card_positions(s);
        assert(group_cards(s.drop_last()).len() == 0);
        assert(g =~= seq![new_card(s.last())]);
        assert(p[0] == 0);
        assert(s[0] == s.last());
    } else {
        let d = s.drop_last();
        let r = s.last();
        lemma_group_cards_times(d);
        lemma_group_cards_runs(d);
        lemma_group_cards_runs(s);
        let gp = group_cards(d);
        let pp = card_positions(d);
        let g = group_cards(s);
        let p = card_positions(s);
        reveal(runs_shape);
        reveal(runs_steps);
        reveal(runs_members);
        assert(forall|j: int| 0 <= j < d.len() ==> #[trigger] d[j] == s[j]);
        assert(d.last() == s[n - 2]);
        assert(s[n - 1] == r);
        let last = gp.len() - 1;
        assert(pp[n - 2] == last);
        assert(forall|j: int| 0 <= j < d.len() ==> #[trigger] p[j] == pp[j]);
        assert(0 <= pp[n - 2] < gp.len());
        assert(gp.last() == gp[pp[n - 2]]);
        assert(joins(gp.last(), r) == adjacent_copies(d.last(), r));
        if sorted_by_key(s) {
            assert(sorted_by_key(d)) by {
                assert forall|i: int, j: int| 0 <= i < j < d.len() implies key_le(#[trigger] d[i], #[trigger] d[j]) by {
                    assert(key_le(s[i], s[j]));
                }
            }
            assert(key_le(s[n - 2], s[n - 1]));
        }
        if adjacent_copies(d.last(), r) {
            let e = extend_card(gp.last(), r);
            assert(g == gp.update(last, e));
            assert(p[n - 1] == last);
            assert forall|j: int|
                0 <= j < s.len() && (j == 0 || p[j] != p[j - 1]) implies g[p[j]].first_created_at_ms
                    == s[j].created_at_ms by {
                assert(j < n - 1);
                assert(d[j] == s[j]);
                assert(0 <= pp[j] < gp.len());
                if j > 0 {
                    assert(pp[j] != pp[j - 1]);
                }
            }
            assert forall|j: int|
                0 <= j < s.len() && (j == s.len() - 1 || p[j + 1] != p[j]) implies g[p[j]].last_created_at_ms
                    == s[j].created_at_ms by {
                if j < n - 1 {
                    assert(j < n - 2);
                    assert(d[j] == s[j]);
                    assert(pp[j + 1] == pp[j] + if adjacent_copies(d[j], d[j + 1]) {
                        0int
                    } else {
                        1int
                    });
                    assert(0 <= pp[j + 1] < gp.len());
                    assert(pp[j] < last);
                    assert(g[pp[j]] == gp[pp[j]]);
                }
            }
            if sorted_by_key(s) {
                assert forall|k: int| 0 <= k < g.len() implies (#[trigger] g[k]).first_created_at_ms
                    <= g[k].last_created_at_ms by {
                    if k != last {
                        assert(g[k] == gp[k]);
                    } else {
                        assert(gp[last].first_created_at_ms <= gp[last].last_created_at_ms);
                    }
                }
            }
        } else {
            assert(g == gp.push(new_card(r)));
            assert(p[n - 1] == last + 1);
            assert forall|j: int|
                0 <= j < s.len() && (j == 0 || p[j] != p[j - 1]) implies g[p[j]].first_created_at_ms
                    == s[j].created_at_ms by {
                if j < n - 1 {
                    assert(d[j] == s[j]);
                    assert(0 <= pp[j] < gp.len());
                    assert(g[pp[j]] == gp[pp[j]]);
                    if j > 0 {
                        assert(pp[j] != pp[j - 1]);
                    }
                }
            }
            assert forall|j: int|
                0 <= j < s.len() && (j == s.len() - 1 || p[j + 1] != p[j]) implies g[p[j]].last_created_at_ms
                    == s[j].created_at_ms by {
                if j < n - 1 {
                    assert(d[j] == s[j]);
                    assert(0 <= pp[j] < gp.len());
                    assert(g[pp[j]] == gp[pp[j]]);
                    if j < n - 2 {
                        assert(pp[j + 1] != pp[j]);
                    }
                }
            }
            if sorted_by_key(s) {
                assert forall|k: int| 0 <= k < g.len() implies (#[trigger] g[k]).first_created_at_ms
                    <= g[k].last_created_at_ms by {
                    if k < gp.len() {
                        assert(g[k] == gp[k]);
                    }
                }
            }
        }
    }
}

/// Each shown card spans the times of its own records: oldest first by
/// (created_at_ms, sequence), a card's first copy time is the time of the
/// record that opens it (its oldest member), its last copy time that of the
/// record that closes it, and no card's first copy is later than its last.
pub proof fn law_cards_span_their_records(records: Seq<RecordModel>)
    ensures
        ({
            let s = sort_records(records);
            let asc = group_cards(s);
            let p = card_positions(s);
            &&& forall|j: int|
                #![trigger s[j]]
                0 <= j < s.len() && (j == 0 || p[j] != p[j - 1]) ==> asc[p[j]].first_created_at_ms
                    == s[j].created_at_ms
            &&& forall|j: int|
                #![trigger s[j]]
                0 <= j < s.len() && (j == s.len() - 1 || p[j + 1] != p[j]) ==> asc[p[j]].last_created_at_ms
                    == s[j].created_at_ms
            &&& forall|i: int|
                0 <= i < history_cards_spec(records).len() ==> (#[trigger] history_cards_spec(
                    records,
                )[i]).first_created_at_ms <= history_cards_spec(records)[i].last_created_at_ms
        }),
{
    lemma_sort_records_sorted(records);
    lemma_group_cards_times(sort_records(records));
    reveal(runs_times);
    let asc = group_cards(sort_records(records));
    let cards = history_cards_spec(records);
    assert forall|i: int| 0 <= i < cards.len() implies (#[trigger] cards[i]).first_created_at_ms
        <= cards[i].last_created_at_ms by {
        assert(cards[i] == presented(asc[asc.len() - 1 - i]));
        assert(0 <= asc.len() - 1 - i < asc.len());
    }
}

/// Cards group only adjacent identical copies. Records are taken oldest first
/// by (created_at_ms, sequence); `card_positions` numbers the oldest-first
/// cards: two neighbouring records share a card exactly when the later is an
/// adjacent copy of the earlier (same content hash, source app and pin state,
/// made within the window); every member of a card shares its content hash,
/// source app and pin state; each record is listed by its own card, and every
/// sequence a card lists is one of its own members. The cards as shown are
/// these, newest first.
pub proof fn law_cards_group_adjacent_copies(records: Seq<RecordModel>)
    ensures
        ({
            let s = sort_records(records);
            let asc = group_cards(s);
            let cards = history_cards_spec(records);
            &&& sorted_by_key(s)
            &&& s.to_multiset() == records.to_multiset()
            &&& cards.len() == asc.len()
            &&& forall|i: int| 0 <= i < cards.len() ==> #[trigger] cards[i] == presented(asc[asc.len() - 1 - i])
            &&& cards_are_runs(s, asc, card_positions(s))
            &&& all_raw(asc) == sequences_of(s)
        }),
{
    lemma_sort_records_sorted(records);
    lemma_sort_records_multiset(records);
    lemma_group_cards_runs(sort_records(records));
    lemma_group_cards_raw(sort_records(records));
}

// ----------------------------------------------------------------------------
// Executable grouping
// ----------------------------------------------------------------------------

pub open spec fn index_view(rv: Seq<RecordModel>, idx: Seq<usize>) -> Seq<RecordModel> {
    idx.map_values(|i: usize| rv[i as int])
}

fn key_le_exec(a: &ClipboardRecord, b: &ClipboardRecord) -> (r: bool)
    ensures
        r == key_le(a@, b@),
{
    a.created_at_ms < b.created_at_ms || (a.created_at_ms == b.created_at_ms && a.sequence
        <= b.sequence)
}

proof fn lemma_insert_sorted_at(s: Seq<RecordModel>, r: RecordModel, p: int)
    requires
        0 <= p <= s.len(),
        p == 0 || key_le(s[p - 1], r),
        forall|j: int| p <= j < s.len() ==> !key_le(#[trigger] s[j], r),
    ensures
        insert_sorted(s, r) == s.take(p) + seq![r] + s.skip(p),
    decreases s.len(),
{
    if s.len() == 0 {
        assert(s.take(p) + seq![r] + s.skip(p) =~= seq![r]);
    } else if p == s.len() {
        assert(key_le(s.last(), r));
        assert(s.take(p) + seq![r] + s.skip(p) =~= s.push(r));
    } else {
        assert(!key_le(s.last(), r));
        let t = s.drop_last();
        lemma_insert_sorted_at(t, r, p);
        assert(t.take(p) + seq![r] + t.skip(p) + seq![s.last()] =~= s.take(p) + seq![r] + s.skip(
            p,
        ));
    }
}

/// Indices of `records`, ordered as `sort_records` orders them.
fn sorted_indices(records: &Vec<ClipboardRecord>) -> (r: Vec<usize>)
    ensures
        index_view(records_view(records@), r@) == sort_records(records_view(records@)),
        r@.len() == records@.len(),
        forall|k: int| 0 <= k < r@.len() ==> #[trigger] r@[k] < records@.len(),
{
    let ghost rv = records_view(records@);
    let mut idx: Vec<usize> = Vec::new();
    let mut i: usize = 0;
    while i < records.len()
        invariant
            i <= records@.len(),
            rv == records_view(records@),
            index_view(rv, idx@) == sort_records(rv.take(i as int)),
            forall|k: int| 0 <= k < idx@.len() ==> #[trigger] idx@[k] < i,
            idx@.len() == i,
        decreases records@.len() - i,
    {
        let ghost sorted = index_view(rv, idx@);
        let mut p: usize = idx.len();
        while p > 0 && !key_le_exec(&records[idx[p - 1]], &records[i])
            invariant
                p <= idx@.len(),
                i < records@.len(),
                rv == records_view(records@),
                sorted == index_view(rv, idx@),
                forall|k: int| 0 <= k < idx@.len() ==> #[trigger] idx@[k] < i,
                forall|j: int| p <= j < sorted.len() ==> !key_le(#[trigger] sorted[j], rv[i as int]),
            decreases p,
        {
            p -= 1;
        }
        proof {
            lemma_insert_sorted_at(sorted, rv[i as int], p as int);
            assert(rv.take(i as int + 1).drop_last() =~= rv.take(i as int));
            assert(rv.take(i as int + 1).last() == rv[i as int]);
        }
        let ghost before_idx = idx@;
        idx.insert(p, i);
        proof {
            assert(index_view(rv, idx@) =~= sorted.take(p as int) + seq![rv[i as int]]
                + sorted.skip(p as int));
            assert forall|k: int| 0 <= k < idx@.len() implies #[trigger] idx@[k] < i + 1 by {
                if k < p {
                    assert(idx@[k] == before_idx[k]);
                } else if k > p {
                    assert(idx@[k] == before_idx[k - 1]);
                }
            }
        }
        i += 1;
    }
    assert(rv.take(records@.len() as int) =~= rv);
    idx
}

fn used_in_from(p: &crate::model::PasteTriggerRecord) -> (u: UsedInSummary)
    ensures
        u@ == used_in_of(p@),
{
    let mut label = String::new();
    push_str(&mut label, p.method.label());
    assert(Seq::<char>::empty() + paste_method_label(p@.method) =~= paste_method_label(p@.method));
    UsedInSummary {
        target_app: p.target_app.clone(),
        target_window: p.target_window.clone(),
        method_label: label,
        triggered_at_ms: p.triggered_at_ms,
    }
}

/// Appends the uses of `pastes` to `out`.
fn push_uses(out: &mut Vec<UsedInSummary>, pastes: &Vec<crate::model::PasteTriggerRecord>)
    ensures
        used_in_view(final(out)@) == used_in_view(old(out)@) + used_in_of_pastes(
            crate::model::pastes_view(pastes@),
        ),
{
    let ghost start = used_in_view(out@);
    let ghost ps = crate::model::pastes_view(pastes@);
    let mut j: usize = 0;
    while j < pastes.len()
        invariant
            j <= pastes@.len(),
            ps == crate::model::pastes_view(pastes@),
            used_in_view(out@) == start + used_in_of_pastes(ps.take(j as int)),
        decreases pastes@.len() - j,
    {
        let u = used_in_from(&pastes[j]);
        let ghost before = out@;
        out.push(u);
        proof {
            assert(used_in_view(out@) =~= used_in_view(before).push(u@));
            assert(used_in_of_pastes(ps.take(j as int + 1)) =~= used_in_of_pastes(
                ps.take(j as int),
            ).push(used_in_of(ps[j as int])));
            assert(used_in_view(out@) =~= start + used_in_of_pastes(ps.take(j as int + 1)));
        }
        j += 1;
    }
    assert(ps.take(pastes@.len() as int) =~= ps);
}

fn preview(text: &String) -> (r: String)
    ensures
        r@ == preview_spec(text@),
{
    let cs = crate::text::chars_of(text.as_str());
    if cs.len() <= PREVIEW_CHARS {
        text.clone()
    } else {
        let head = crate::text::slice_to_vec(cs.as_slice(), 0, PREVIEW_CHARS);
        assert(cs@.subrange(0, PREVIEW_CHARS as int) =~= cs@.take(PREVIEW_CHARS as int));
        crate::text::string_of(head.as_slice())
    }
}

fn new_card_exec(rec: &ClipboardRecord) -> (c: HistoryCard)
    ensures
        c@ == new_card(rec@),
{
    let mut raw: Vec<u32> = Vec::new();
    raw.push(rec.sequence);
    let mut used_in: Vec<UsedInSummary> = Vec::new();
    push_uses(&mut used_in, &rec.pastes);
    let c = HistoryCard {
        representative_sequence: rec.sequence,
        raw_sequences: raw,
        copy_count: 1,
        content: rec.content.clone(),
        content_preview: preview(&rec.content),
        content_hash: rec.content_hash.clone(),
        source_app: rec.source_app.clone(),
        source_confidence: rec.source_confidence,
        source_window: rec.source_window.clone(),
        payload: rec.payload.duplicate(),
        pinned: rec.pinned,
        first_created_at_ms: rec.created_at_ms,
        last_created_at_ms: rec.created_at_ms,
        has_paste_activity: rec.pastes.len() > 0,
        used_in,
    };
    assert(c@.raw_sequences =~= seq![rec.sequence]);
    assert(c@.used_in =~= used_in_of_pastes(rec@.pastes));
    c
}

fn joins_exec(c: &HistoryCard, r: &ClipboardRecord) -> (b: bool)
    ensures
        b == joins(c@, r@),
{
    c.content_hash == r.content_hash && c.source_app == r.source_app && c.pinned == r.pinned
        && (r.created_at_ms as i128) - (c.last_created_at_ms as i128)
        <= AGGREGATION_WINDOW_MS as i128
}

fn reverse_uses(v: &Vec<UsedInSummary>) -> (r: Vec<UsedInSummary>)
    ensures
        used_in_view(r@) == used_in_view(v@).reverse(),
{
    let mut out: Vec<UsedInSummary> = Vec::new();
    let mut k: usize = v.len();
    while k > 0
        invariant
            k <= v@.len(),
            out@.len() == v@.len() - k,
            forall|j: int|
                0 <= j < out@.len() ==> #[trigger] out@[j]@ == v@[v@.len() - 1 - j]@,
        decreases k,
    {
        k -= 1;
        let u = &v[k];
        out.push(
            UsedInSummary {
                target_app: u.target_app.clone(),
                target_window: u.target_window.clone(),
                method_label: u.method_label.clone(),
                triggered_at_ms: u.triggered_at_ms,
            },
        );
    }
    assert(used_in_view(out@) =~= used_in_view(v@).reverse());
    out
}

/// Group raw records into cards, newest first.
pub fn history_cards(records: &Vec<ClipboardRecord>) -> (r: Vec<HistoryCard>)
    ensures
        cards_view(r@) == history_cards_spec(records_view(records@)),
{
    let ghost rv = records_view(records@);
    let idx = sorted_indices(records);
    let ghost sorted = index_view(rv, idx@);
    let mut cards: Vec<HistoryCard> = Vec::new();
    let mut i: usize = 0;
    while i < idx.len()
        invariant
            i <= idx@.len(),
            idx@.len() == records@.len(),
            rv == records_view(records@),
            sorted == index_view(rv, idx@),
            forall|k: int| 0 <= k < idx@.len() ==> #[trigger] idx@[k] < records@.len(),
            cards_view(cards@) == group_cards(sorted.take(i as int)),
            forall|k: int| 0 <= k < cards@.len() ==> #[trigger] cards@[k].copy_count <= i,
        decreases idx@.len() - i,
    {
        let rec = &records[idx[i]];
        proof {
            assert(sorted.take(i as int + 1).drop_last() =~= sorted.take(i as int));
            assert(sorted.take(i as int + 1).last() == rec@);
        }
        let ghost prev = cards_view(cards@);
        let n = cards.len();
        let join = n > 0 && joins_exec(&cards[n - 1], rec);
        if join {
            let mut card = cards.pop().unwrap();
            let ghost before = card@;
            card.raw_sequences.push(rec.sequence);
            card.copy_count = card.copy_count + 1;
            card.last_created_at_ms = rec.created_at_ms;
            push_uses(&mut card.used_in, &rec.pastes);
            card.has_paste_activity = card.has_paste_activity || rec.pastes.len() > 0;
            assert(card@ == extend_card(before, rec@));
            cards.push(card);
            assert(cards_view(cards@) =~= prev.update(prev.len() - 1, extend_card(prev.last(), rec@)));
        } else {
            let card = new_card_exec(rec);
            cards.push(card);
            assert(cards_view(cards@) =~= prev.push(new_card(rec@)));
        }
        i += 1;
    }
    assert(sorted.take(idx@.len() as int) =~= sorted);
    let ghost asc = cards_view(cards@);
    let mut out: Vec<HistoryCard> = Vec::new();
    while cards.len() > 0
        invariant
            asc.len() == cards@.len() + out@.len(),
            forall|j: int| 0 <= j < cards@.len() ==> #[trigger] cards@[j]@ == asc[j],
            forall|j: int|
                0 <= j < out@.len() ==> #[trigger] out@[j]@ == presented(asc[asc.len() - 1 - j]),
        decreases cards@.len(),
    {
        let ghost before_cards = cards@;
        let card = cards.pop().unwrap();
        assert(card@ == asc[cards@.len() as int]);
        let uses = reverse_uses(&card.used_in);
        let shown = HistoryCard { used_in: uses, ..card };
        assert(shown@ == presented(card@));
        let ghost before_out = out@;
        out.push(shown);
        assert(forall|j: int| 0 <= j < before_out.len() ==> out@[j] == before_out[j]);
        assert(asc.len() - 1 - before_out.len() == cards@.len());
    }
    assert(cards_view(out@) =~= history_cards_spec(rv));
    out
}

} // verus!
