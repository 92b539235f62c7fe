//! Flow use-cases: record clipboard changes and paste triggers.
//!
//! External behaviour only: no Win32, no persistence, no UI.

use std::collections::HashMap;
use vstd::prelude::*;

use crate::aggregate::{self, HistoryCard};
use crate::events::{
    ChangeModel, ClipboardChange, InternalClipboardWrite, PasteConfidence, PasteTrigger,
    SourceConfidence, TriggerModel, WriteModel,
};
use crate::model::{
    display_text_spec, payload_kind_key, ClipboardRecord, PasteModel, PasteTriggerRecord,
    RecordModel,
};
use crate::search::{self, SearchHit};
use crate::text::push_str;

verus! {

broadcast use vstd::std_specs::hash::group_hash_axioms;

/// What happened after ingesting a platform event.
#[derive(Debug, Clone, Copy, PartialEq, Eq, Structural)]
pub enum FlowOutcome {
    Recorded { sequence: u32 },
    DuplicateSequenceIgnored { sequence: u32 },
    SuppressedInternalWrite { sequence: u32 },
    PasteAttached { sequence: u32 },
    PasteWithoutRecord,
}

/// An armed suppression token, possibly confirmed with the clipboard
/// sequence and the process id of the write Veya made.
struct PendingWrite {
    write: InternalClipboardWrite,
    owner_pid: Option<u32>,
}

pub struct PendingModel {
    pub expected_sequence: Option<u32>,
    pub hash: Seq<char>,
    pub owner_pid: Option<u32>,
}

/// Abstract state of the flow engine.
pub struct FlowModel {
    /// Raw records keyed by clipboard sequence.
    pub records: Map<u32, RecordModel>,
    /// Sequences in the order they were recorded.
    pub order: Seq<u32>,
    /// The record that a paste trigger attaches to, if any.
    pub current: Option<u32>,
    /// The last clipboard sequence observed.
    pub last_seen: Option<u32>,
    /// The armed internal-write token.
    pub pending: Option<PendingModel>,
}

/// In-memory clipboard flow engine.
pub struct FlowEngine {
    records: HashMap<u32, ClipboardRecord>,
    order: Vec<u32>,
    current_seq: Option<u32>,
    last_seen_seq: Option<u32>,
    pending_internal: Option<PendingWrite>,
}

pub open spec fn records_map_view(m: Map<u32, ClipboardRecord>) -> Map<u32, RecordModel> {
    m.map_values(|r: ClipboardRecord| r@)
}

impl View for FlowEngine {
    type V = FlowModel;

    closed spec fn view(&self) -> FlowModel {
        FlowModel {
            records: records_map_view(self.records@),
            order: self.order@,
            current: self.current_seq,
            last_seen: self.last_seen_seq,
            pending: match self.pending_internal {
                Some(p) => Some(
                    PendingModel {
                        expected_sequence: p.write.expected_sequence,
                        hash: p.write.hash@,
                        owner_pid: p.owner_pid,
                    },
                ),
                None => None,
            },
        }
    }
}

// ----------------------------------------------------------------------------
// The transition system
// ----------------------------------------------------------------------------

/// Well-formed engine states: the key set and the order list hold the same
/// sequences, the order list names each record once, each record is stored
/// under its own sequence, and the current record, if any, exists.
pub open spec fn flow_wf(s: FlowModel) -> bool {
    &&& s.records.dom().finite()
    &&& s.order.no_duplicates()
    &&& forall|k: u32| #[trigger] s.records.contains_key(k) ==> s.records[k].sequence == k
    &&& forall|i: int| 0 <= i < s.order.len() ==> s.records.contains_key(#[trigger] s.order[i])
    &&& forall|k: u32| #[trigger] s.records.contains_key(k) ==> s.order.contains(k)
    &&& s.current matches Some(c) ==> s.records.contains_key(c)
}

pub open spec fn empty_flow() -> FlowModel {
    FlowModel {
        records: Map::empty(),
        order: Seq::empty(),
        current: None,
        last_seen: None,
        pending: None,
    }
}

/// The token identifies this event as Veya's own write: either the content
/// hash matches (at the expected sequence, when one is known), or the
/// confirmed sequence matches and the exact clipboard owner is Veya's process.
pub open spec fn pending_matches(p: PendingModel, ev: ChangeModel) -> bool {
    ||| (p.hash == ev.content_hash && match p.expected_sequence {
        None => true,
        Some(e) => e == ev.sequence,
    })
    ||| (p.expected_sequence == Some(ev.sequence) && p.owner_pid == Some(ev.source_pid)
        && ev.source_confidence == SourceConfidence::Exact)
}

/// A token that did not match an event of sequence `seq` is dropped when it
/// has no expected sequence, or when the expected sequence has passed.
pub open spec fn pending_expires(p: PendingModel, seq: u32) -> bool {
    match p.expected_sequence {
        None => true,
        Some(e) => seq > e,
    }
}

pub open spec fn after_unmatched_event(pending: Option<PendingModel>, seq: u32) -> Option<
    PendingModel,
> {
    match pending {
        Some(p) => if pending_expires(p, seq) {
            None
        } else {
            Some(p)
        },
        None => None,
    }
}

/// The raw record stored for a clipboard change.
pub open spec fn record_of_change(ev: ChangeModel) -> RecordModel {
    RecordModel {
        sequence: ev.sequence,
        content_type: payload_kind_key(ev.payload),
        content: display_text_spec(ev.payload),
        payload: ev.payload,
        content_hash: ev.content_hash,
        source_app: ev.source_exe,
        source_pid: ev.source_pid,
        source_window: ev.source_window,
        source_confidence: ev.source_confidence,
        created_at_ms: ev.timestamp_ms,
        pinned: false,
        pastes: Seq::empty(),
    }
}

/// The paste record stored for a paste trigger.
pub open spec fn paste_of_trigger(ev: TriggerModel) -> PasteModel {
    PasteModel {
        target_app: ev.target_exe,
        target_pid: ev.target_pid,
        target_window: ev.target_window,
        method: ev.method,
        confidence: PasteConfidence::HotkeyObserved,
        triggered_at_ms: ev.timestamp_ms,
    }
}

/// Effect of a clipboard change: the new state and the reported outcome.
pub open spec fn on_change_spec(s: FlowModel, ev: ChangeModel) -> (FlowModel, FlowOutcome) {
    if s.last_seen == Some(ev.sequence) {
        (s, FlowOutcome::DuplicateSequenceIgnored { sequence: ev.sequence })
    } else if s.pending matches Some(p) && pending_matches(p, ev) {
        (
            FlowModel { last_seen: Some(ev.sequence), pending: None, ..s },
            FlowOutcome::SuppressedInternalWrite { sequence: ev.sequence },
        )
    } else {
        (
            FlowModel {
                records: s.records.insert(ev.sequence, record_of_change(ev)),
                order: order_after_record(s, ev.sequence),
                current: Some(ev.sequence),
                last_seen: Some(ev.sequence),
                pending: after_unmatched_event(s.pending, ev.sequence),
            },
            FlowOutcome::Recorded { sequence: ev.sequence },
        )
    }
}

/// The recording order once `sequence` is recorded: a sequence the platform
/// reuses replaces its old record, which leaves its old place and becomes the
/// newest entry, so each stored record is listed once.
pub open spec fn order_after_record(s: FlowModel, sequence: u32) -> Seq<u32> {
    if s.records.contains_key(sequence) {
        without(s.order, sequence).push(sequence)
    } else {
        s.order.push(sequence)
    }
}

/// Effect of a clipboard change that is not recorded (excluded or unreadable).
pub open spec fn on_untracked_spec(s: FlowModel, sequence: u32) -> FlowModel {
    if s.last_seen == Some(sequence) {
        s
    } else {
        FlowModel {
            current: None,
            last_seen: Some(sequence),
            pending: after_unmatched_event(s.pending, sequence),
            ..s
        }
    }
}

/// Effect of a paste trigger.
pub open spec fn on_paste_spec(s: FlowModel, ev: TriggerModel) -> (FlowModel, FlowOutcome) {
    match s.current {
        Some(c) => if s.records.contains_key(c) {
            let rec = s.records[c];
            (
                FlowModel {
                    records: s.records.insert(
                        c,
                        RecordModel { pastes: rec.pastes.push(paste_of_trigger(ev)), ..rec },
                    ),
                    ..s
                },
                FlowOutcome::PasteAttached { sequence: c },
            )
        } else {
            (s, FlowOutcome::PasteWithoutRecord)
        },
        None => (s, FlowOutcome::PasteWithoutRecord),
    }
}

/// Effect of deleting one record.
pub open spec fn delete_spec(s: FlowModel, sequence: u32) -> (FlowModel, bool) {
    if s.records.contains_key(sequence) {
        (
            FlowModel {
                records: s.records.remove(sequence),
                order: without(s.order, sequence),
                current: if s.current == Some(sequence) {
                    None
                } else {
                    s.current
                },
                ..s
            },
            true,
        )
    } else {
        (s, false)
    }
}

/// `order` with every occurrence of `x` removed.
pub open spec fn without(order: Seq<u32>, x: u32) -> Seq<u32>
    decreases order.len(),
{
    if order.len() == 0 {
        Seq::empty()
    } else {
        let rest = without(order.drop_last(), x);
        if order.last() != x {
            rest.push(order.last())
        } else {
            rest
        }
    }
}

pub proof fn lemma_without_contains(order: Seq<u32>, x: u32, y: u32)
    ensures
        without(order, x).contains(y) <==> (order.contains(y) && y != x),
    decreases order.len(),
{
    if order.len() > 0 {
        let t = order.drop_last();
        let w = without(order, x);
        let wt = without(t, x);
        lemma_without_contains(t, x, y);
        assert(forall|i: int| 0 <= i < wt.len() ==> w[i] == wt[i]);
        if order.contains(y) && y != x {
            let j = choose|j: int| 0 <= j < order.len() && order[j] == y;
            if j < t.len() {
                assert(t[j] == y);
                assert(t.contains(y));
                let k = choose|k: int| 0 <= k < wt.len() && wt[k] == y;
                assert(w[k] == y);
            } else {
                assert(w.last() == y);
            }
        }
        if w.contains(y) {
            let j = choose|j: int| 0 <= j < w.len() && w[j] == y;
            if j < wt.len() {
                assert(wt[j] == y);
                assert(wt.contains(y));
                let k = choose|k: int| 0 <= k < t.len() && t[k] == y;
                assert(order[k] == y);
            } else {
                assert(order.last() == y);
                assert(order[order.len() - 1] == y);
            }
        }
    }
}

/// `order` keeping only the entries equal to `keep`.
pub open spec fn only(order: Seq<u32>, keep: Option<u32>) -> Seq<u32>
    decreases order.len(),
{
    if order.len() == 0 {
        Seq::empty()
    } else {
        let rest = only(order.drop_last(), keep);
        if Some(order.last()) == keep {
            rest.push(order.last())
        } else {
            rest
        }
    }
}

pub proof fn lemma_only_contains(order: Seq<u32>, keep: Option<u32>, y: u32)
    ensures
        only(order, keep).contains(y) <==> (order.contains(y) && Some(y) == keep),
    decreases order.len(),
{
    if order.len() > 0 {
        let t = order.drop_last();
        let w = only(order, keep);
        let wt = only(t, keep);
        lemma_only_contains(t, keep, y);
        assert(forall|i: int| 0 <= i < wt.len() ==> w[i] == wt[i]);
        if order.contains(y) && Some(y) == keep {
            let j = choose|j: int| 0 <= j < order.len() && order[j] == y;
            if j < t.len() {
                assert(t[j] == y);
                assert(t.contains(y));
                let k = choose|k: int| 0 <= k < wt.len() && wt[k] == y;
                assert(w[k] == y);
            } else {
                assert(w.last() == y);
            }
        }
        if w.contains(y) {
            let j = choose|j: int| 0 <= j < w.len() && w[j] == y;
            if j < wt.len() {
                assert(wt[j] == y);
                assert(wt.contains(y));
                let k = choose|k: int| 0 <= k < t.len() && t[k] == y;
                assert(order[k] == y);
            } else {
                assert(order.last() == y);
                assert(order[order.len() - 1] == y);
            }
        }
    }
}

proof fn lemma_without_no_dup(order: Seq<u32>, x: u32)
    requires
        order.no_duplicates(),
    ensures
        without(order, x).no_duplicates(),
    decreases order.len(),
{
    if order.len() > 0 {
        let t = order.drop_last();
        assert(t.no_duplicates());
        lemma_without_no_dup(t, x);
        if order.last() != x {
            lemma_without_contains(t, x, order.last());
            assert(!t.contains(order.last())) by {
                if t.contains(order.last()) {
                    let k = choose|k: int| 0 <= k < t.len() && t[k] == order.last();
                    assert(order[k] == order[order.len() - 1]);
                }
            }
            lemma_push_no_dup(without(t, x), order.last());
        }
    }
}

proof fn lemma_only_no_dup(order: Seq<u32>, keep: Option<u32>)
    requires
        order.no_duplicates(),
    ensures
        only(order, keep).no_duplicates(),
    decreases order.len(),
{
    if order.len() > 0 {
        let t = order.drop_last();
        assert(t.no_duplicates());
        lemma_only_no_dup(t, keep);
        if Some(order.last()) == keep {
            lemma_only_contains(t, keep, order.last());
            assert(!t.contains(order.last())) by {
                if t.contains(order.last()) {
                    let k = choose|k: int| 0 <= k < t.len() && t[k] == order.last();
                    assert(order[k] == order[order.len() - 1]);
                }
            }
            lemma_push_no_dup(only(t, keep), order.last());
        }
    }
}

proof fn lemma_push_no_dup(order: Seq<u32>, x: u32)
    requires
        order.no_duplicates(),
        !order.contains(x),
    ensures
        order.push(x).no_duplicates(),
{
    let o = order.push(x);
    assert forall|i: int, j: int| 0 <= i < o.len() && 0 <= j < o.len() && i != j implies o[i] != o[j] by {
        if i == o.len() - 1 {
            assert(o[j] == order[j]);
        } else if j == o.len() - 1 {
            assert(o[i] == order[i]);
        } else {
            assert(o[i] == order[i] && o[j] == order[j]);
        }
    }
}

/// The order list after recording `sequence` names each sequence once, and
/// holds exactly the old entries and `sequence`.
proof fn lemma_order_after_record(s: FlowModel, sequence: u32)
    requires
        flow_wf(s),
    ensures
        order_after_record(s, sequence).no_duplicates(),
        forall|y: u32| #[trigger] order_after_record(s, sequence).contains(y) <==> (s.order.contains(y)
            || y == sequence),
        order_after_record(s, sequence).last() == sequence,
{
    let o = order_after_record(s, sequence);
    if s.records.contains_key(sequence) {
        let w = without(s.order, sequence);
        lemma_without_no_dup(s.order, sequence);
        lemma_without_contains(s.order, sequence, sequence);
        lemma_push_no_dup(w, sequence);
        assert forall|y: u32| #[trigger] o.contains(y) <==> (s.order.contains(y) || y == sequence) by {
            lemma_without_contains(s.order, sequence, y);
            if w.contains(y) {
                let k = choose|k: int| 0 <= k < w.len() && w[k] == y;
                assert(o[k] == y);
            }
            if o.contains(y) && y != sequence {
                let k = choose|k: int| 0 <= k < o.len() && o[k] == y;
                assert(k < w.len());
                assert(w[k] == y);
            }
            if y == sequence {
                assert(o[o.len() - 1] == y);
            }
        }
        assert(s.order.contains(sequence));
    } else {
        assert(!s.order.contains(sequence)) by {
            if s.order.contains(sequence) {
                let k = choose|k: int| 0 <= k < s.order.len() && s.order[k] == sequence;
                assert(s.records.contains_key(s.order[k]));
            }
        }
        lemma_push_no_dup(s.order, sequence);
        assert forall|y: u32| #[trigger] o.contains(y) <==> (s.order.contains(y) || y == sequence) by {
            if s.order.contains(y) {
                let k = choose|k: int| 0 <= k < s.order.len() && s.order[k] == y;
                assert(o[k] == y);
            }
            if o.contains(y) && y != sequence {
                let k = choose|k: int| 0 <= k < o.len() && o[k] == y;
                assert(s.order[k] == y);
            }
            if y == sequence {
                assert(o[o.len() - 1] == y);
            }
        }
    }
}

/// Effect of dropping every record but `keep`.
pub open spec fn discard_spec(s: FlowModel, keep: Option<u32>) -> FlowModel {
    FlowModel {
        records: s.records.restrict(kept_set(keep)),
        order: only(s.order, keep),
        current: if s.current == keep {
            keep
        } else {
            None
        },
        ..s
    }
}

/// The sequences a `keep` choice retains.
pub open spec fn kept_set(keep: Option<u32>) -> Set<u32> {
    match keep {
        Some(k) => set![k],
        None => Set::empty(),
    }
}

/// Effect of putting a stored record back: it is listed again, but the
/// current record (the one pastes attach to) does not change.
pub open spec fn restore_spec(s: FlowModel, r: RecordModel) -> FlowModel {
    FlowModel {
        records: s.records.insert(r.sequence, r),
        order: if s.records.contains_key(r.sequence) {
            s.order
        } else {
            s.order.push(r.sequence)
        },
        ..s
    }
}

/// Records in recording order.
pub open spec fn ordered_records(s: FlowModel) -> Seq<RecordModel> {
    s.order.map_values(|q: u32| s.records[q])
}

/// Pin state applied to the listed sequences, one after another: the new
/// record map and how many records actually changed state.
pub open spec fn set_pinned_spec(records: Map<u32, RecordModel>, seqs: Seq<u32>, pinned: bool) -> (
    Map<u32, RecordModel>,
    nat,
)
    decreases seqs.len(),
{
    if seqs.len() == 0 {
        (records, 0)
    } else {
        let (m, n) = set_pinned_spec(records, seqs.drop_last(), pinned);
        let q = seqs.last();
        if m.contains_key(q) && m[q].pinned != pinned {
            (m.insert(q, RecordModel { pinned: pinned, ..m[q] }), n + 1)
        } else {
            (m, n)
        }
    }
}

/// The order list without `x`.
fn order_without(order: &Vec<u32>, x: u32) -> (r: Vec<u32>)
    ensures
        r@ == without(order@, x),
{
    let mut kept: Vec<u32> = Vec::new();
    let mut i: usize = 0;
    while i < order.len()
        invariant
            i <= order@.len(),
            kept@ == without(order@.take(i as int), x),
        decreases order@.len() - i,
    {
        proof {
            let t = order@.take(i as int + 1);
            assert(t.drop_last() =~= order@.take(i as int));
            assert(t.last() == order@[i as int]);
        }
        if order[i] != x {
            kept.push(order[i]);
        }
        i += 1;
    }
    assert(order@.take(order@.len() as int) =~= order@);
    kept
}

impl FlowEngine {
    pub fn new() -> (r: FlowEngine)
        ensures
            r@ == empty_flow(),
            flow_wf(r@),
    {
        let r = FlowEngine {
            records: HashMap::new(),
            order: Vec::new(),
            current_seq: None,
            last_seen_seq: None,
            pending_internal: None,
        };
        assert(r@.records =~= Map::empty());
        r
    }

    /// Arm suppression for the next Veya-initiated clipboard write.
    pub fn begin_internal_write(&mut self, write: InternalClipboardWrite)
        requires
            flow_wf(old(self)@),
        ensures
            flow_wf(final(self)@),
            final(self)@ == (FlowModel {
                pending: Some(
                    PendingModel {
                        expected_sequence: write@.expected_sequence,
                        hash: write@.hash,
                        owner_pid: None,
                    },
                ),
                ..old(self)@
            }),
    {
        self.pending_internal = Some(PendingWrite { write, owner_pid: None });
    }

    /// Record the sequence and process id of the write Veya just made, so the
    /// matching event is suppressed even if the platform re-encodes its content.
    pub fn confirm_internal_write(&mut self, sequence: u32, owner_pid: u32)
        requires
            flow_wf(old(self)@),
        ensures
            flow_wf(final(self)@),
            final(self)@ == (FlowModel {
                pending: match old(self)@.pending {
                    Some(p) => Some(
                        PendingModel {
                            expected_sequence: Some(sequence),
                            owner_pid: Some(owner_pid),
                            ..p
                        },
                    ),
                    None => None,
                },
                ..old(self)@
            }),
    {
        let pending = self.pending_internal.take();
        match pending {
            Some(p) => {
                self.pending_internal = Some(
                    PendingWrite {
                        write: InternalClipboardWrite {
                            expected_sequence: Some(sequence),
                            hash: p.write.hash,
                        },
                        owner_pid: Some(owner_pid),
                    },
                );
            },
            None => {},
        }
    }

    pub fn cancel_internal_write(&mut self)
        requires
            flow_wf(old(self)@),
        ensures
            flow_wf(final(self)@),
            final(self)@ == (FlowModel { pending: None, ..old(self)@ }),
    {
        self.pending_internal = None;
    }

    fn matches_pending_internal(&self, ev: &ClipboardChange) -> (r: bool)
        ensures
            r == (self@.pending matches Some(p) && pending_matches(p, ev@)),
    {
        match &self.pending_internal {
            None => false,
            Some(pending) => {
                let same_hash = pending.write.hash == ev.content_hash;
                let hash_match = same_hash && match pending.write.expected_sequence {
                    None => true,
                    Some(expected) => expected == ev.sequence,
                };
                let owner_match = pending.write.expected_sequence == Some(ev.sequence)
                    && pending.owner_pid == Some(ev.source_pid) && ev.source_confidence
                    == SourceConfidence::Exact;
                hash_match || owner_match
            },
        }
    }

    fn expire_stale_pending(&mut self, sequence: u32)
        ensures
            final(self)@ == (FlowModel {
                pending: after_unmatched_event(old(self)@.pending, sequence),
                ..old(self)@
            }),
    {
        let expire = match &self.pending_internal {
            Some(pending) => match pending.write.expected_sequence {
                None => true,
                Some(expected) => sequence > expected,
            },
            None => false,
        };
        if expire {
            self.pending_internal = None;
        }
    }

    pub fn on_clipboard_change(&mut self, ev: ClipboardChange) -> (r: FlowOutcome)
        requires
            flow_wf(old(self)@),
        ensures
            flow_wf(final(self)@),
            (final(self)@, r) == on_change_spec(old(self)@, ev@),
            r == (FlowOutcome::Recorded { sequence: ev@.sequence }) ==> final(self)@.records.contains_key(
                ev@.sequence,
            ) && stored_attribution_matches(final(self)@.records[ev@.sequence], ev@),
    {
        proof {
            law_recorded_change_keeps_its_attribution(old(self)@, ev@);
        }
        if self.last_seen_seq == Some(ev.sequence) {
            return FlowOutcome::DuplicateSequenceIgnored { sequence: ev.sequence };
        }
        self.last_seen_seq = Some(ev.sequence);

        if self.matches_pending_internal(&ev) {
            self.pending_internal = None;
            return FlowOutcome::SuppressedInternalWrite { sequence: ev.sequence };
        }
        self.expire_stale_pending(ev.sequence);

        let ghost evm = ev@;
        let mut content_type = String::new();
        push_str(&mut content_type, ev.payload.kind());
        let content = ev.payload.display_text();
        let sequence = ev.sequence;
        let record = ClipboardRecord {
            sequence,
            content_type,
            content,
            payload: ev.payload,
            content_hash: ev.content_hash,
            source_app: ev.source_exe,
            source_pid: ev.source_pid,
            source_window: ev.source_window,
            source_confidence: ev.source_confidence,
            created_at_ms: ev.timestamp_ms,
            pinned: false,
            pastes: Vec::new(),
        };
        assert(Seq::<char>::empty() + payload_kind_key(evm.payload) =~= payload_kind_key(
            evm.payload,
        ));
        assert(record@.pastes =~= Seq::<PasteModel>::empty());
        assert(record@ == record_of_change(evm));
        let existed = self.records.contains_key(&sequence);
        self.records.insert(sequence, record);
        if existed {
            self.order = order_without(&self.order, sequence);
        }
        self.order.push(sequence);
        self.current_seq = Some(sequence);
        proof {
            let s = self@;
            let o = old(self)@;
            lemma_order_after_record(o, sequence);
            assert(s.order =~= order_after_record(o, sequence));
            assert(s.records =~= o.records.insert(sequence, record_of_change(evm)));
            assert forall|i: int| 0 <= i < s.order.len() implies s.records.contains_key(
                #[trigger] s.order[i],
            ) by {
                let y = s.order[i];
                assert(s.order.contains(y));
                if y != sequence {
                    assert(o.order.contains(y));
                    let k = choose|k: int| 0 <= k < o.order.len() && o.order[k] == y;
                    assert(o.records.contains_key(o.order[k]));
                }
            }
            assert forall|k: u32| #[trigger] s.records.contains_key(k) implies s.order.contains(
                k,
            ) by {
                if k != sequence {
                    assert(o.records.contains_key(k));
                    assert(o.order.contains(k));
                }
            }
        }
        FlowOutcome::Recorded { sequence }
    }

    /// A clipboard change that is not recorded (an excluded source, or content
    /// that could not be read) still ends the association with the previous
    /// record: later pastes belong to content Veya did not keep.
    pub fn on_untracked_clipboard_change(&mut self, sequence: u32)
        requires
            flow_wf(old(self)@),
        ensures
            flow_wf(final(self)@),
            final(self)@ == on_untracked_spec(old(self)@, sequence),
    {
        if self.last_seen_seq == Some(sequence) {
            return;
        }
        self.last_seen_seq = Some(sequence);
        self.current_seq = None;
        self.expire_stale_pending(sequence);
    }

    pub fn on_paste_trigger(&mut self, ev: PasteTrigger) -> (r: FlowOutcome)
        requires
            flow_wf(old(self)@),
        ensures
            flow_wf(final(self)@),
            (final(self)@, r) == on_paste_spec(old(self)@, ev@),
    {
        let seq = match self.current_seq {
            Some(seq) => seq,
            None => {
                return FlowOutcome::PasteWithoutRecord;
            },
        };
        let ghost evm = ev@;
        let removed = self.records.remove(&seq);
        match removed {
            Some(mut rec) => {
                let ghost old_rec = rec@;
                rec.pastes.push(
                    PasteTriggerRecord {
                        target_app: ev.target_exe,
                        target_pid: ev.target_pid,
                        target_window: ev.target_window,
                        method: ev.method,
                        confidence: PasteConfidence::HotkeyObserved,
                        triggered_at_ms: ev.timestamp_ms,
                    },
                );
                assert(rec@.pastes =~= old_rec.pastes.push(paste_of_trigger(evm)));
                self.records.insert(seq, rec);
                proof {
                    assert(self@.records =~= old(self)@.records.insert(
                        seq,
                        RecordModel { pastes: old_rec.pastes.push(paste_of_trigger(evm)), ..old_rec },
                    ));
                }
                FlowOutcome::PasteAttached { sequence: seq }
            },
            None => {
                assert(self@.records =~= old(self)@.records);
                FlowOutcome::PasteWithoutRecord
            },
        }
    }

    pub fn record(&self, sequence: u32) -> (r: Option<&ClipboardRecord>)
        requires
            flow_wf(self@),
        ensures
            match r {
                Some(rec) => self@.records.contains_key(sequence) && rec@ == self@.records[sequence]
                    && rec@.sequence == sequence,
                None => !self@.records.contains_key(sequence),
            },
    {
        self.records.get(&sequence)
    }

    /// Copies of the records, in recording order (raw events, never merged).
    pub fn records(&self) -> (r: Vec<ClipboardRecord>)
        requires
            flow_wf(self@),
        ensures
            crate::model::records_view(r@) == ordered_records(self@),
            r@.len() == self@.records.len(),
    {
        let mut out: Vec<ClipboardRecord> = Vec::new();
        let mut i: usize = 0;
        while i < self.order.len()
            invariant
                flow_wf(self@),
                i <= self@.order.len(),
                out@.len() == i,
                forall|k: int| 0 <= k < i ==> #[trigger] out@[k]@ == self@.records[self@.order[k]],
            decreases self@.order.len() - i,
        {
            let q = self.order[i];
            assert(self@.records.contains_key(self@.order[i as int]));
            match self.records.get(&q) {
                Some(rec) => {
                    out.push(rec.duplicate());
                },
                None => {
                    assert(false);
                },
            }
            i += 1;
        }
        assert(crate::model::records_view(out@) =~= ordered_records(self@));
        proof {
            law_record_list_matches_the_count(self@);
        }
        out
    }

    /// The sequence of the oldest listed record.
    pub fn oldest_sequence(&self) -> (r: Option<u32>)
        ensures
            self@.order.len() == 0 ==> r is None,
            self@.order.len() > 0 ==> r == Some(self@.order[0]),
    {
        if self.order.len() == 0 {
            None
        } else {
            Some(self.order[0])
        }
    }

    /// Number of stored records.
    pub fn len(&self) -> (r: usize)
        ensures
            r == self@.records.len(),
    {
        assert(self@.records.dom() =~= self.records@.dom());
        self.records.len()
    }

    pub fn is_empty(&self) -> (r: bool)
        ensures
            r == self@.records.is_empty(),
    {
        self.records.is_empty()
    }

    /// Delete one record and its dependent paste triggers.
    pub fn delete_record(&mut self, sequence: u32) -> (r: bool)
        requires
            flow_wf(old(self)@),
        ensures
            flow_wf(final(self)@),
            (final(self)@, r) == delete_spec(old(self)@, sequence),
    {
        let removed = self.records.remove(&sequence);
        match removed {
            Some(_) => {
                let kept = order_without(&self.order, sequence);
                self.order = kept;
                if self.current_seq == Some(sequence) {
                    self.current_seq = None;
                }
                proof {
                    let s = self@;
                    let o = old(self)@;
                    assert(s.records =~= o.records.remove(sequence));
                    lemma_without_no_dup(o.order, sequence);
                    assert forall|i: int| 0 <= i < s.order.len() implies s.records.contains_key(
                        #[trigger] s.order[i],
                    ) by {
                        let x = s.order[i];
                        assert(s.order.contains(x)) by {
                            assert(s.order[i] == x);
                        }
                        lemma_without_contains(o.order, sequence, x);
                        let j = choose|j: int| 0 <= j < o.order.len() && o.order[j] == x;
                        assert(o.records.contains_key(o.order[j]));
                    }
                    assert forall|k: u32| #[trigger] s.records.contains_key(k) implies s.order.contains(
                        k,
                    ) by {
                        assert(o.records.contains_key(k));
                        assert(o.order.contains(k));
                        lemma_without_contains(o.order, sequence, k);
                    }
                }
                true
            },
            None => {
                assert(self@.records =~= old(self)@.records);
                false
            },
        }
    }

    pub fn clear(&mut self)
        ensures
            final(self)@ == empty_flow(),
            flow_wf(final(self)@),
    {
        self.records.clear();
        self.order.clear();
        self.current_seq = None;
        self.last_seen_seq = None;
        self.pending_internal = None;
        assert(self@.records =~= Map::empty());
        assert(self@.order =~= Seq::<u32>::empty());
    }

    /// Put a previously stored record back into the history. A restored
    /// record never becomes the target of new paste triggers.
    pub fn restore_record(&mut self, record: ClipboardRecord)
        requires
            flow_wf(old(self)@),
        ensures
            flow_wf(final(self)@),
            final(self)@ == restore_spec(old(self)@, record@),
    {
        let sequence = record.sequence;
        let ghost rv = record@;
        let existed = self.records.contains_key(&sequence);
        self.records.insert(sequence, record);
        if !existed {
            self.order.push(sequence);
        }
        proof {
            let s = self@;
            let o = old(self)@;
            assert(s.records =~= o.records.insert(sequence, rv));
            assert forall|i: int| 0 <= i < s.order.len() implies s.records.contains_key(
                #[trigger] s.order[i],
            ) by {
                if i < o.order.len() {
                    assert(s.order[i] == o.order[i]);
                }
            }
            assert forall|k: u32| #[trigger] s.records.contains_key(k) implies s.order.contains(
                k,
            ) by {
                if k == sequence && !existed {
                    assert(s.order[s.order.len() - 1] == k);
                } else {
                    assert(o.records.contains_key(k));
                    let j = choose|j: int| 0 <= j < o.order.len() && o.order[j] == k;
                    assert(s.order[j] == k);
                }
            }
        }
    }

    /// Apply a card-level pin action to the listed raw records; returns how
    /// many records changed state. Future copies are not pinned.
    pub fn set_pinned(&mut self, sequences: &[u32], pinned: bool) -> (r: usize)
        requires
            flow_wf(old(self)@),
        ensures
            flow_wf(final(self)@),
            final(self)@ == (FlowModel {
                records: set_pinned_spec(old(self)@.records, sequences@, pinned).0,
                ..old(self)@
            }),
            r as nat == set_pinned_spec(old(self)@.records, sequences@, pinned).1,
    {
        let mut changed: usize = 0;
        let mut i: usize = 0;
        while i < sequences.len()
            invariant
                i <= sequences@.len(),
                changed <= i,
                self@.records == set_pinned_spec(
                    old(self)@.records,
                    sequences@.take(i as int),
                    pinned,
                ).0,
                changed as nat == set_pinned_spec(
                    old(self)@.records,
                    sequences@.take(i as int),
                    pinned,
                ).1,
                self@.records.dom() == old(self)@.records.dom(),
                forall|k: u32| #[trigger] self@.records.contains_key(k) ==> self@.records[k].sequence == k,
                self.order@ == old(self)@.order,
                self@.current == old(self)@.current,
                self@.last_seen == old(self)@.last_seen,
                self@.pending == old(self)@.pending,
            decreases sequences@.len() - i,
        {
            let q = sequences[i];
            proof {
                assert(sequences@.take(i as int + 1).drop_last() =~= sequences@.take(i as int));
            }
            let removed = self.records.remove(&q);
            match removed {
                Some(mut rec) => {
                    if rec.pinned != pinned {
                        let ghost before = rec@;
                        rec.pinned = pinned;
                        self.records.insert(q, rec);
                        changed += 1;
                        proof {
                            assert(self@.records =~= set_pinned_spec(
                                old(self)@.records,
                                sequences@.take(i as int),
                                pinned,
                            ).0.insert(q, RecordModel { pinned: pinned, ..before }));
                        }
                    } else {
                        let ghost before = rec@;
                        self.records.insert(q, rec);
                        proof {
                            assert(self@.records =~= set_pinned_spec(
                                old(self)@.records,
                                sequences@.take(i as int),
                                pinned,
                            ).0);
                        }
                    }
                },
                None => {
                    assert(self@.records =~= set_pinned_spec(
                        old(self)@.records,
                        sequences@.take(i as int),
                        pinned,
                    ).0);
                },
            }
            i += 1;
        }
        assert(sequences@.take(sequences@.len() as int) =~= sequences@);
        changed
    }

    /// Drop every record but `keep`: once the clipboard has moved on, only the
    /// current record may still collect paste triggers.
    pub fn discard_inactive_records(&mut self, keep: Option<u32>)
        requires
            flow_wf(old(self)@),
        ensures
            flow_wf(final(self)@),
            final(self)@ == discard_spec(old(self)@, keep),
    {
        let mut kept_records: HashMap<u32, ClipboardRecord> = HashMap::new();
        match keep {
            Some(k) => {
                let removed = self.records.remove(&k);
                match removed {
                    Some(rec) => {
                        kept_records.insert(k, rec);
                    },
                    None => {},
                }
            },
            None => {},
        }
        let mut kept: Vec<u32> = Vec::new();
        let mut i: usize = 0;
        while i < self.order.len()
            invariant
                i <= self.order@.len(),
                self.order@ == old(self)@.order,
                kept@ == only(self.order@.take(i as int), keep),
            decreases self.order@.len() - i,
        {
            proof {
                let t = self.order@.take(i as int + 1);
                assert(t.drop_last() =~= self.order@.take(i as int));
                assert(t.last() == self.order@[i as int]);
            }
            if Some(self.order[i]) == keep {
                kept.push(self.order[i]);
            }
            i += 1;
        }
        assert(self.order@.take(self.order@.len() as int) =~= self.order@);
        self.records = kept_records;
        self.order = kept;
        if self.current_seq != keep {
            self.current_seq = None;
        }
        proof {
            let s = self@;
            let o = old(self)@;
            assert(s.records =~= o.records.restrict(kept_set(keep)));
            assert(s.records.dom() =~= o.records.dom().intersect(kept_set(keep)));
            assert(s.records.dom().finite());
            lemma_only_no_dup(o.order, keep);
            assert(s.current matches Some(c) ==> s.records.contains_key(c));
            assert forall|i: int| 0 <= i < s.order.len() implies s.records.contains_key(
                #[trigger] s.order[i],
            ) by {
                let x = s.order[i];
                assert(s.order.contains(x)) by {
                    assert(s.order[i] == x);
                }
                lemma_only_contains(o.order, keep, x);
                let j = choose|j: int| 0 <= j < o.order.len() && o.order[j] == x;
                assert(o.records.contains_key(o.order[j]));
            }
            assert forall|k: u32| #[trigger] s.records.contains_key(k) implies s.order.contains(
                k,
            ) by {
                assert(o.records.contains_key(k));
                assert(o.order.contains(k));
                lemma_only_contains(o.order, keep, k);
            }
        }
    }

    /// Case-insensitive search over the records, in recording order.
    pub fn search(&self, query: &str) -> (r: Vec<SearchHit>)
        requires
            flow_wf(self@),
        ensures
            search::search_view(r@) == search::search_spec(ordered_records(self@), query@),
            crate::text::trim(query@).len() == 0 ==> search::search_view(r@) == search::all_as_content(
                ordered_records(self@),
            ),
    {
        let records = self.records();
        search::search(&records, query)
    }

    /// UI-facing list: raw events grouped for display only.
    pub fn history_cards(&self) -> (r: Vec<HistoryCard>)
        requires
            flow_wf(self@),
        ensures
            aggregate::cards_view(r@) == aggregate::history_cards_spec(ordered_records(self@)),
    {
        let records = self.records();
        aggregate::history_cards(&records)
    }
}

// ----------------------------------------------------------------------------
// Laws of the flow engine
// ----------------------------------------------------------------------------

/// A clipboard event whose sequence was just seen changes nothing.
pub proof fn law_duplicate_sequence_is_ignored(s: FlowModel, ev: ChangeModel)
    requires
        s.last_seen == Some(ev.sequence),
    ensures
        on_change_spec(s, ev) == (s, FlowOutcome::DuplicateSequenceIgnored { sequence: ev.sequence }),
{
}

/// A recorded change adds exactly one new raw record, unpinned and without
/// pastes, makes it the current record, and leaves every other record as it was.
pub proof fn law_recorded_change_adds_one_raw_record(s: FlowModel, ev: ChangeModel)
    requires
        flow_wf(s),
        on_change_spec(s, ev).1 == (FlowOutcome::Recorded { sequence: ev.sequence }),
    ensures
        ({
            let n = on_change_spec(s, ev).0;
            &&& flow_wf(n)
            &&& n.records.contains_key(ev.sequence)
            &&& n.records[ev.sequence] == record_of_change(ev)
            &&& n.records[ev.sequence].pastes.len() == 0
            &&& !n.records[ev.sequence].pinned
            &&& n.current == Some(ev.sequence)
            &&& forall|k: u32| k != ev.sequence ==> (#[trigger] n.records.contains_key(k) <==> s.records.contains_key(k))
            &&& forall|k: u32| k != ev.sequence && s.records.contains_key(k) ==> #[trigger] n.records[k] == s.records[k]
        }),
{
    let n = on_change_spec(s, ev).0;
    lemma_order_after_record(s, ev.sequence);
    assert(n.records.dom().finite());
    assert forall|i: int| 0 <= i < n.order.len() implies n.records.contains_key(#[trigger] n.order[i]) by {
        let y = n.order[i];
        assert(n.order.contains(y));
        if y != ev.sequence {
            assert(s.order.contains(y));
            let k = choose|k: int| 0 <= k < s.order.len() && s.order[k] == y;
            assert(s.records.contains_key(s.order[k]));
        }
    }
    assert forall|k: u32| #[trigger] n.records.contains_key(k) implies n.order.contains(k) by {
        if k != ev.sequence {
            assert(s.records.contains_key(k));
            assert(s.order.contains(k));
        }
    }
}

/// The record list names every stored record exactly once: as many entries
/// as stored records, pairwise distinct sequences, and each entry the record
/// stored under its sequence.
pub proof fn law_record_list_matches_the_count(s: FlowModel)
    requires
        flow_wf(s),
    ensures
        ordered_records(s).len() == s.records.len(),
        forall|i: int, j: int|
            0 <= i < j < ordered_records(s).len() ==> #[trigger] ordered_records(s)[i].sequence
                != #[trigger] ordered_records(s)[j].sequence,
        forall|i: int|
            0 <= i < ordered_records(s).len() ==> #[trigger] ordered_records(s)[i] == s.records[s.order[i]]
                && s.records.contains_key(s.order[i]),
{
    assert(s.order.to_set() =~= s.records.dom()) by {
        assert forall|k: u32| s.order.to_set().contains(k) <==> s.records.dom().contains(k) by {
            if s.order.contains(k) {
                let j = choose|j: int| 0 <= j < s.order.len() && s.order[j] == k;
                assert(s.records.contains_key(s.order[j]));
            }
        }
    }
    s.order.unique_seq_to_set();
    assert forall|i: int, j: int|
        0 <= i < j < ordered_records(s).len() implies #[trigger] ordered_records(s)[i].sequence
            != #[trigger] ordered_records(s)[j].sequence by {
        assert(s.records.contains_key(s.order[i]) && s.records.contains_key(s.order[j]));
        assert(s.order[i] != s.order[j]);
    }
}

proof fn lemma_without_absent(order: Seq<u32>, x: u32)
    requires
        !order.contains(x),
    ensures
        without(order, x) == order,
    decreases order.len(),
{
    if order.len() > 0 {
        let t = order.drop_last();
        assert(!t.contains(x)) by {
            if t.contains(x) {
                let k = choose|k: int| 0 <= k < t.len() && t[k] == x;
                assert(order[k] == x);
            }
        }
        lemma_without_absent(t, x);
        assert(order.last() != x) by {
            assert(order[order.len() - 1] == order.last());
        }
        assert(t.push(order.last()) =~= order);
    }
}

proof fn lemma_without_at(order: Seq<u32>, i: int)
    requires
        order.no_duplicates(),
        0 <= i < order.len(),
    ensures
        without(order, order[i]) == order.remove(i),
    decreases order.len(),
{
    let x = order[i];
    let t = order.drop_last();
    assert(t.no_duplicates());
    if i == order.len() - 1 {
        assert(!t.contains(x)) by {
            if t.contains(x) {
                let k = choose|k: int| 0 <= k < t.len() && t[k] == x;
                assert(order[k] == order[i]);
            }
        }
        lemma_without_absent(t, x);
        assert(order.remove(i) =~= t);
    } else {
        assert(t[i] == x);
        lemma_without_at(t, i);
        assert(order.last() != x) by {
            assert(order[order.len() - 1] != order[i]);
        }
        assert(t.remove(i).push(order.last()) =~= order.remove(i));
    }
}

/// Deleting a record succeeds exactly when it is stored; a refused delete
/// changes nothing, and a delete removes exactly that record from the list:
/// the listed records lose that one entry in place, every other record (with
/// its pastes) keeps its place, and the count drops by one.
pub proof fn law_delete_removes_that_record_in_place(s: FlowModel, sequence: u32)
    requires
        flow_wf(s),
    ensures
        ({
            let (n, removed) = delete_spec(s, sequence);
            &&& removed == s.records.contains_key(sequence)
            &&& !removed ==> n == s
            &&& removed ==> {
                &&& !n.records.contains_key(sequence)
                &&& n.records.len() == s.records.len() - 1
                &&& exists|i: int|
                    0 <= i < s.order.len() && s.order[i] == sequence && #[trigger] ordered_records(n)
                        == ordered_records(s).remove(i)
            }
        }),
{
    let (n, removed) = delete_spec(s, sequence);
    if removed {
        assert(s.order.contains(sequence));
        let i = choose|i: int| 0 <= i < s.order.len() && s.order[i] == sequence;
        lemma_without_at(s.order, i);
        assert(n.order == s.order.remove(i));
        assert forall|j: int| 0 <= j < n.order.len() implies n.order[j] != sequence by {
            if j < i {
                assert(n.order[j] == s.order[j]);
            } else {
                assert(n.order[j] == s.order[j + 1]);
            }
        }
        assert(ordered_records(n) =~= ordered_records(s).remove(i)) by {
            assert forall|j: int| 0 <= j < ordered_records(n).len() implies ordered_records(n)[j]
                == ordered_records(s).remove(i)[j] by {
                if j < i {
                    assert(n.order[j] == s.order[j]);
                } else {
                    assert(n.order[j] == s.order[j + 1]);
                }
            }
        }
        assert(s.records.dom().finite());
        assert(n.records.dom() =~= s.records.dom().remove(sequence));
    }
}

/// A record is found by its sequence exactly when the record list holds an
/// entry of that sequence, and what is found is that entry.
pub proof fn law_lookup_agrees_with_the_list(s: FlowModel, sequence: u32)
    requires
        flow_wf(s),
    ensures
        s.records.contains_key(sequence) <==> exists|i: int|
            0 <= i < ordered_records(s).len() && #[trigger] ordered_records(s)[i].sequence == sequence,
        forall|i: int|
            0 <= i < ordered_records(s).len() && #[trigger] ordered_records(s)[i].sequence == sequence
                ==> ordered_records(s)[i] == s.records[sequence],
{
    law_record_list_matches_the_count(s);
    if s.records.contains_key(sequence) {
        assert(s.order.contains(sequence));
        let i = choose|i: int| 0 <= i < s.order.len() && s.order[i] == sequence;
        assert(ordered_records(s)[i].sequence == sequence);
    }
    assert forall|i: int|
        0 <= i < ordered_records(s).len() && #[trigger] ordered_records(s)[i].sequence == sequence
            implies ordered_records(s)[i] == s.records[sequence] by {
        assert(s.records.contains_key(s.order[i]));
        assert(s.records[s.order[i]].sequence == s.order[i]);
    }
}

/// How the count moves: a recorded change of a new sequence adds one record
/// (a reused sequence replaces its record, keeping the count); duplicate and
/// suppressed events, untracked changes and paste triggers keep the records'
/// key set; clearing leaves none.
pub proof fn law_count_steps(s: FlowModel, ev: ChangeModel, sequence: u32, t: TriggerModel)
    requires
        flow_wf(s),
    ensures
        ({
            let (n, out) = on_change_spec(s, ev);
            &&& out != (FlowOutcome::Recorded { sequence: ev.sequence }) ==> n.records == s.records
            &&& out == (FlowOutcome::Recorded { sequence: ev.sequence }) && !s.records.contains_key(
                ev.sequence,
            ) ==> n.records.len() == s.records.len() + 1
            &&& out == (FlowOutcome::Recorded { sequence: ev.sequence }) && s.records.contains_key(
                ev.sequence,
            ) ==> n.records.len() == s.records.len()
        }),
        on_untracked_spec(s, sequence).records == s.records,
        on_paste_spec(s, t).0.records.dom() == s.records.dom(),
        on_paste_spec(s, t).0.records.len() == s.records.len(),
        empty_flow().records.len() == 0,
{
    let (n, out) = on_change_spec(s, ev);
    assert(s.records.dom().finite());
    if out == (FlowOutcome::Recorded { sequence: ev.sequence }) {
        if s.records.contains_key(ev.sequence) {
            assert(n.records.dom() =~= s.records.dom());
        } else {
            assert(n.records.dom() =~= s.records.dom().insert(ev.sequence));
        }
    }
    law_paste_attaches_only_to_current(s, t);
    assert(empty_flow().records.dom() =~= Set::<u32>::empty());
}

/// The record a change is stored as (when the change is recorded).
pub open spec fn stored_attribution_matches(r: RecordModel, ev: ChangeModel) -> bool {
    &&& r.sequence == ev.sequence
    &&& r.payload == ev.payload
    &&& r.content_hash == ev.content_hash
    &&& r.source_app == ev.source_exe
    &&& r.source_pid == ev.source_pid
    &&& r.source_window == ev.source_window
    &&& r.source_confidence == ev.source_confidence
    &&& r.created_at_ms == ev.timestamp_ms
    &&& !r.pinned
    &&& r.pastes.len() == 0
}

/// A recorded change keeps the event's own attribution: its payload, hash,
/// source app, process, window and time, and the confidence of its source
/// (an inferred source stays marked as inferred), unpinned and without pastes.
pub proof fn law_recorded_change_keeps_its_attribution(s: FlowModel, ev: ChangeModel)
    ensures
        on_change_spec(s, ev).1 == (FlowOutcome::Recorded { sequence: ev.sequence }) ==> {
            &&& on_change_spec(s, ev).0.records.contains_key(ev.sequence)
            &&& stored_attribution_matches(on_change_spec(s, ev).0.records[ev.sequence], ev)
        },
{
}

/// A write that was armed (`begin_internal_write`) and then cancelled because
/// it could not be made leaves the records as they were and no token armed;
/// afterwards no change is suppressed on its account: any change with a new
/// sequence, even one whose content hash equals the cancelled write's, is
/// recorded as a raw record, and a sequence not stored before adds exactly
/// one record.
pub proof fn law_cancelled_write_suppresses_nothing(s: FlowModel, w: WriteModel, ev: ChangeModel)
    requires
        flow_wf(s),
        s.last_seen != Some(ev.sequence),
    ensures
        ({
            let armed = FlowModel {
                pending: Some(PendingModel { expected_sequence: w.expected_sequence, hash: w.hash, owner_pid: None }),
                ..s
            };
            let c = FlowModel { pending: None, ..armed };
            let (n, out) = on_change_spec(c, ev);
            &&& c.records == s.records && c.order == s.order && c.pending is None
            &&& out == (FlowOutcome::Recorded { sequence: ev.sequence })
            &&& n.records == s.records.insert(ev.sequence, record_of_change(ev))
            &&& n.pending is None
            &&& !s.records.contains_key(ev.sequence) ==> n.records.len() == s.records.len() + 1
        }),
{
    if !s.records.contains_key(ev.sequence) {
        assert(s.records.dom().finite());
        assert(s.records.insert(ev.sequence, record_of_change(ev)).dom() =~= s.records.dom().insert(ev.sequence));
    }
}

/// Only Veya's own matching write is suppressed, and suppression records nothing.
pub proof fn law_suppression_only_for_matching_write(s: FlowModel, ev: ChangeModel)
    requires
        on_change_spec(s, ev).1 == (FlowOutcome::SuppressedInternalWrite { sequence: ev.sequence }),
    ensures
        s.last_seen != Some(ev.sequence),
        s.pending matches Some(p) && pending_matches(p, ev),
        on_change_spec(s, ev).0.records == s.records,
        on_change_spec(s, ev).0.pending is None,
{
}

/// A token armed without a sequence lasts for one clipboard event: a
/// different event that does not match drops it.
pub proof fn law_unsequenced_token_expires(s: FlowModel, ev: ChangeModel)
    requires
        s.last_seen != Some(ev.sequence),
        s.pending matches Some(p) && p.expected_sequence is None && !pending_matches(p, ev),
    ensures
        on_change_spec(s, ev).0.pending is None,
        on_change_spec(s, ev).1 == (FlowOutcome::Recorded { sequence: ev.sequence }),
{
}

/// A paste trigger attaches to the current record only: it changes no other
/// record, and without a current record it changes nothing.
pub proof fn law_paste_attaches_only_to_current(s: FlowModel, ev: TriggerModel)
    ensures
        ({
            let (n, out) = on_paste_spec(s, ev);
            &&& n.records.dom() == s.records.dom()
            &&& n.current == s.current && n.order == s.order && n.last_seen == s.last_seen
            &&& forall|k: u32| Some(k) != s.current && s.records.contains_key(k) ==> #[trigger] n.records[k] == s.records[k]
            &&& (out matches FlowOutcome::PasteAttached { sequence } ==> s.current == Some(sequence)
                && n.records[sequence].pastes == s.records[sequence].pastes.push(paste_of_trigger(ev)))
            &&& (s.current is None ==> n == s && out == FlowOutcome::PasteWithoutRecord)
            &&& (flow_wf(s) && s.current is Some ==> out == (FlowOutcome::PasteAttached {
                sequence: s.current->0,
            }))
        }),
{
    let (n, out) = on_paste_spec(s, ev);
    if let Some(c) = s.current {
        if s.records.contains_key(c) {
            assert(n.records.dom() =~= s.records.dom());
        }
    }
}

/// A clipboard change that is not recorded (an excluded source, an unreadable
/// format) ends the previous record's paste association.
pub proof fn law_untracked_change_breaks_paste_association(
    s: FlowModel,
    sequence: u32,
    ev: TriggerModel,
)
    requires
        s.last_seen != Some(sequence),
    ensures
        on_paste_spec(on_untracked_spec(s, sequence), ev) == (
        on_untracked_spec(s, sequence), FlowOutcome::PasteWithoutRecord),
{
}

/// A deleted record is gone and never collects a later paste.
pub proof fn law_deleted_record_claims_no_new_paste(s: FlowModel, sequence: u32, ev: TriggerModel)
    ensures
        !delete_spec(s, sequence).0.records.contains_key(sequence),
        on_paste_spec(delete_spec(s, sequence).0, ev).1 != (FlowOutcome::PasteAttached { sequence }),
{
}

/// A restored record is listed again but never becomes the paste target.
pub proof fn law_restored_record_claims_no_new_paste(s: FlowModel, r: RecordModel, ev: TriggerModel)
    requires
        s.current != Some(r.sequence),
    ensures
        restore_spec(s, r).records.contains_key(r.sequence),
        on_paste_spec(restore_spec(s, r), ev).1 != (FlowOutcome::PasteAttached { sequence: r.sequence }),
{
}

/// Pinning touches only the listed records that exist, and leaves their
/// content alone; every other record keeps its state.
pub proof fn law_pinning_touches_only_listed_records(
    records: Map<u32, RecordModel>,
    seqs: Seq<u32>,
    pinned: bool,
)
    ensures
        set_pinned_spec(records, seqs, pinned).0.dom() == records.dom(),
        forall|k: u32|
            records.contains_key(k) && !seqs.contains(k) ==> #[trigger] set_pinned_spec(
                records,
                seqs,
                pinned,
            ).0[k] == records[k],
        forall|k: u32|
            records.contains_key(k) && seqs.contains(k) ==> #[trigger] set_pinned_spec(
                records,
                seqs,
                pinned,
            ).0[k] == (RecordModel { pinned, ..records[k] }),
    decreases seqs.len(),
{
    if seqs.len() > 0 {
        let rest = seqs.drop_last();
        law_pinning_touches_only_listed_records(records, rest, pinned);
        let m = set_pinned_spec(records, rest, pinned).0;
        let q = seqs.last();
        assert forall|k: u32| records.contains_key(k) && !seqs.contains(k) implies #[trigger] set_pinned_spec(
            records,
            seqs,
            pinned,
        ).0[k] == records[k] by {
            assert(!rest.contains(k)) by {
                if rest.contains(k) {
                    let j = choose|j: int| 0 <= j < rest.len() && rest[j] == k;
                    assert(seqs[j] == k);
                }
            }
            assert(k != q) by {
                assert(seqs[seqs.len() - 1] == q);
            }
        }
        assert forall|k: u32| records.contains_key(k) && seqs.contains(k) implies #[trigger] set_pinned_spec(
            records,
            seqs,
            pinned,
        ).0[k] == (RecordModel { pinned, ..records[k] }) by {
            if k != q {
                let j = choose|j: int| 0 <= j < seqs.len() && seqs[j] == k;
                assert(j < rest.len());
                assert(rest[j] == k);
            } else if rest.contains(k) {
            } else {
                assert(m[k] == records[k]);
            }
        }
        assert(set_pinned_spec(records, seqs, pinned).0.dom() =~= records.dom());
    }
}

} // verus!
