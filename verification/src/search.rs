//! Global search over clipboard text, source app, and target app.

use vstd::prelude::*;

use crate::model::{strings_view, ClipboardRecord, PasteModel, RecordModel};
use crate::text::{chars_of, contains_chars, contains_seq, to_lowercase, trim, trim_chars, unicode_lowercase, string_of};

verus! {

#[derive(Debug, Clone, PartialEq, Eq)]
pub struct SearchHit {
    pub record: ClipboardRecord,
    pub matched_on: MatchField,
}

#[derive(Debug, Clone, Copy, PartialEq, Eq, Structural)]
pub enum MatchField {
    Content,
    SourceApp,
    TargetApp,
}

pub struct HitModel {
    pub record: RecordModel,
    pub matched_on: MatchField,
}

impl View for SearchHit {
    type V = HitModel;

    open spec fn view(&self) -> HitModel {
        HitModel { record: self.record@, matched_on: self.matched_on }
    }
}

pub open spec fn search_view(v: Seq<SearchHit>) -> Seq<HitModel> {
    v.map_values(|h: SearchHit| h@)
}

pub open spec fn char_vecs_view(v: Seq<Vec<char>>) -> Seq<Seq<char>> {
    v.map_values(|t: Vec<char>| t@)
}

/// Some target (already lowercased) contains the (lowercased) query.
pub open spec fn any_contains(targets: Seq<Seq<char>>, q: Seq<char>) -> bool {
    exists|i: int| 0 <= i < targets.len() && contains_seq(#[trigger] targets[i], q)
}

/// Which field matched, given lowercased fields and the trimmed, lowercased query.
/// An empty query matches everything as content.
pub open spec fn match_lowered_spec(
    content: Seq<char>,
    source_app: Seq<char>,
    targets: Seq<Seq<char>>,
    q: Seq<char>,
) -> Option<MatchField> {
    if q.len() == 0 {
        Some(MatchField::Content)
    } else if contains_seq(content, q) {
        Some(MatchField::Content)
    } else if contains_seq(source_app, q) {
        Some(MatchField::SourceApp)
    } else if any_contains(targets, q) {
        Some(MatchField::TargetApp)
    } else {
        None
    }
}

pub open spec fn lower_all(ts: Seq<Seq<char>>) -> Seq<Seq<char>> {
    ts.map_values(|t: Seq<char>| unicode_lowercase(t))
}

/// Case-insensitive substring match of `query` (trimmed) against the content,
/// the source app and the paste targets, in that priority.
pub open spec fn match_field_spec(
    content: Seq<char>,
    source_app: Seq<char>,
    targets: Seq<Seq<char>>,
    query: Seq<char>,
) -> Option<MatchField> {
    match_lowered_spec(
        unicode_lowercase(content),
        unicode_lowercase(source_app),
        lower_all(targets),
        unicode_lowercase(trim(query)),
    )
}

/// Search ignores case in every field: with `q` the query trimmed and
/// lowercased, a blank query matches as content; otherwise a record matches
/// exactly when the lowercased content, source app or some lowercased paste
/// target contains `q`, and the field named is the first of those that does.
pub proof fn law_match_is_case_insensitive_in_every_field(
    content: Seq<char>,
    source_app: Seq<char>,
    targets: Seq<Seq<char>>,
    query: Seq<char>,
)
    ensures
        ({
            let q = unicode_lowercase(trim(query));
            let r = match_field_spec(content, source_app, targets, query);
            let in_content = contains_seq(unicode_lowercase(content), q);
            let in_source = contains_seq(unicode_lowercase(source_app), q);
            let in_target = exists|i: int|
                0 <= i < targets.len() && contains_seq(unicode_lowercase(#[trigger] targets[i]), q);
            &&& q.len() == 0 ==> r == Some(MatchField::Content)
            &&& (r is Some <==> (q.len() == 0 || in_content || in_source || in_target))
            &&& in_content ==> r == Some(MatchField::Content)
            &&& !in_content && in_source && q.len() > 0 ==> r == Some(MatchField::SourceApp)
            &&& !in_content && !in_source && in_target && q.len() > 0 ==> r == Some(
                MatchField::TargetApp,
            )
        }),
{
    let q = unicode_lowercase(trim(query));
    let lt = lower_all(targets);
    assert(any_contains(lt, q) <==> exists|i: int|
        0 <= i < targets.len() && contains_seq(unicode_lowercase(#[trigger] targets[i]), q)) by {
        if any_contains(lt, q) {
            let i = choose|i: int| 0 <= i < lt.len() && contains_seq(#[trigger] lt[i], q);
            assert(contains_seq(unicode_lowercase(targets[i]), q));
        }
        if exists|i: int| 0 <= i < targets.len() && contains_seq(unicode_lowercase(#[trigger] targets[i]), q) {
            let i = choose|i: int| 0 <= i < targets.len() && contains_seq(unicode_lowercase(#[trigger] targets[i]), q);
            assert(contains_seq(lt[i], q));
        }
    }
}

/// Which field matched, once every field and the query are lowercased.
pub fn match_lowered(
    content: &[char],
    source_app: &[char],
    targets: &Vec<Vec<char>>,
    q: &[char],
) -> (r: Option<MatchField>)
    ensures
        r == match_lowered_spec(
            content@,
            source_app@,
            char_vecs_view(targets@),
            q@,
        ),
{
    let ghost ts = char_vecs_view(targets@);
    if q.len() == 0 {
        return Some(MatchField::Content);
    }
    if contains_chars(content, q) {
        return Some(MatchField::Content);
    }
    if contains_chars(source_app, q) {
        return Some(MatchField::SourceApp);
    }
    let mut i: usize = 0;
    while i < targets.len()
        invariant
            i <= targets@.len(),
            ts == char_vecs_view(targets@),
            q@.len() > 0,
            !contains_seq(content@, q@),
            !contains_seq(source_app@, q@),
            forall|k: int| 0 <= k < i ==> !contains_seq(#[trigger] ts[k], q@),
        decreases targets@.len() - i,
    {
        if contains_chars(targets[i].as_slice(), q) {
            assert(ts[i as int] == targets@[i as int]@);
            assert(contains_seq(ts[i as int], q@));
            assert(any_contains(ts, q@));
            return Some(MatchField::TargetApp);
        }
        i += 1;
    }
    None
}

/// Lowercased characters of `s`.
fn lowered(s: &str) -> (r: Vec<char>)
    ensures
        r@ == unicode_lowercase(s@),
        s@.len() == 0 ==> r@.len() == 0,
{
    let l = to_lowercase(s);
    chars_of(l.as_str())
}

/// Which field matches a query. The UI list and `search` share this.
pub fn match_field(
    content: &str,
    source_app: &str,
    target_apps: &[String],
    query: &str,
) -> (r: Option<MatchField>)
    ensures
        r == match_field_spec(
            content@,
            source_app@,
            strings_view(target_apps@),
            query@,
        ),
        trim(query@).len() == 0 ==> r == Some(MatchField::Content),
{
    let query_chars = chars_of(query);
    let trimmed = trim_chars(query_chars.as_slice());
    let trimmed_string = string_of(trimmed.as_slice());
    let q = lowered(trimmed_string.as_str());
    let c = lowered(content);
    let s = lowered(source_app);
    let mut targets: Vec<Vec<char>> = Vec::new();
    let mut i: usize = 0;
    while i < target_apps.len()
        invariant
            i <= target_apps@.len(),
            targets@.len() == i,
            forall|k: int|
                0 <= k < i ==> #[trigger] targets@[k]@ == unicode_lowercase(target_apps@[k]@),
        decreases target_apps@.len() - i,
    {
        targets.push(lowered(target_apps[i].as_str()));
        i += 1;
    }
    proof {
        assert(char_vecs_view(targets@) =~= lower_all(
            strings_view(target_apps@),
        ));
    }
    match_lowered(c.as_slice(), s.as_slice(), &targets, q.as_slice())
}

pub open spec fn paste_targets(ps: Seq<PasteModel>) -> Seq<Seq<char>> {
    ps.map_values(|p: PasteModel| p.target_app)
}

/// Records that match the query, in their given order, each with the field that matched.
pub open spec fn search_spec(records: Seq<RecordModel>, query: Seq<char>) -> Seq<HitModel>
    decreases records.len(),
{
    if records.len() == 0 {
        Seq::empty()
    } else {
        let r = records.last();
        let prev = search_spec(records.drop_last(), query);
        match match_field_spec(r.content, r.source_app, paste_targets(r.pastes), query) {
            Some(f) => prev.push(HitModel { record: r, matched_on: f }),
            None => prev,
        }
    }
}

/// Whether a record matches a query.
pub open spec fn record_matches(query: Seq<char>) -> spec_fn(RecordModel) -> bool {
    |r: RecordModel| match_field_spec(r.content, r.source_app, paste_targets(r.pastes), query) is Some
}

/// The records behind a list of hits.
pub open spec fn hit_records(hits: Seq<HitModel>) -> Seq<RecordModel> {
    hits.map_values(|h: HitModel| h.record)
}

/// Search keeps exactly the matching records, in their given order (an
/// order-preserving subsequence), and each hit names the field that matched.
pub proof fn law_search_is_an_ordered_filter(records: Seq<RecordModel>, query: Seq<char>)
    ensures
        hit_records(search_spec(records, query)) == records.filter(record_matches(query)),
        forall|i: int| 0 <= i < search_spec(records, query).len() ==> {
            let h = #[trigger] search_spec(records, query)[i];
            match_field_spec(h.record.content, h.record.source_app, paste_targets(h.record.pastes), query)
                == Some(h.matched_on)
        },
    decreases records.len(),
{
    reveal(Seq::filter);
    if records.len() > 0 {
        law_search_is_an_ordered_filter(records.drop_last(), query);
        let prev = search_spec(records.drop_last(), query);
        let r = records.last();
        let p = record_matches(query);
        match match_field_spec(r.content, r.source_app, paste_targets(r.pastes), query) {
            Some(f) => {
                assert(p(r));
                assert(records.filter(p) == records.drop_last().filter(p).push(r));
                assert(hit_records(prev.push(HitModel { record: r, matched_on: f }))
                    =~= hit_records(prev).push(r));
            },
            None => {
                assert(!p(r));
                assert(records.filter(p) == records.drop_last().filter(p));
            },
        }
    } else {
        assert(hit_records(search_spec(records, query)) =~= records.filter(record_matches(query)));
    }
}

/// Every record as a content hit.
pub open spec fn all_as_content(records: Seq<RecordModel>) -> Seq<HitModel> {
    records.map_values(|r: RecordModel| HitModel { record: r, matched_on: MatchField::Content })
}

/// Case-insensitive substring search across text, source app, and paste targets.
pub fn search(records: &Vec<ClipboardRecord>, query: &str) -> (r: Vec<SearchHit>)
    ensures
        search_view(r@) == search_spec(crate::model::records_view(records@), query@),
        trim(query@).len() == 0 ==> search_view(r@) == all_as_content(
            crate::model::records_view(records@),
        ),
{
    let ghost rv = crate::model::records_view(records@);
    let mut hits: Vec<SearchHit> = Vec::new();
    let mut i: usize = 0;
    while i < records.len()
        invariant
            i <= records@.len(),
            rv == crate::model::records_view(records@),
            search_view(hits@) == search_spec(rv.take(i as int), query@),
            trim(query@).len() == 0 ==> search_view(hits@) == all_as_content(rv.take(i as int)),
        decreases records@.len() - i,
    {
        let record = &records[i];
        let mut targets: Vec<String> = Vec::new();
        let mut j: usize = 0;
        while j < record.pastes.len()
            invariant
                j <= record.pastes@.len(),
                targets@.len() == j,
                forall|k: int|
                    0 <= k < j ==> #[trigger] targets@[k]@ == record.pastes@[k].target_app@,
            decreases record.pastes@.len() - j,
        {
            targets.push(record.pastes[j].target_app.clone());
            j += 1;
        }
        proof {
            assert(strings_view(targets@) =~= paste_targets(record@.pastes));
            assert(rv.take(i as int + 1).drop_last() =~= rv.take(i as int));
            assert(rv.take(i as int + 1).last() == record@);
        }
        let matched = match_field(
            record.content.as_str(),
            record.source_app.as_str(),
            targets.as_slice(),
            query,
        );
        match matched {
            Some(f) => {
                let hit = SearchHit { record: record.duplicate(), matched_on: f };
                let ghost before = hits@;
                hits.push(hit);
                assert(search_view(hits@) =~= search_view(before).push(hit@));
            },
            None => {},
        }
        proof {
            if trim(query@).len() == 0 {
                assert(all_as_content(rv.take(i as int + 1)) =~= all_as_content(rv.take(i as int)).push(
                    HitModel { record: record@, matched_on: MatchField::Content },
                ));
            }
        }
        i += 1;
    }
    assert(rv.take(records@.len() as int) =~= rv);
    hits
}

} // verus!
