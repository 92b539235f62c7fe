//! Decisions of the capture worker: commands it takes, which sources are
//! excluded, how Veya's own clipboard writes are armed, and which raw records
//! belong to one history group.

use vstd::prelude::*;

use crate::capture::{retention_from_key, retention_label, HistoryFilter, HistoryQuery, Retention};
use crate::events::chars_eq;
use crate::flow::{
    delete_spec, discard_spec, flow_wf, on_change_spec, on_paste_spec, on_untracked_spec, set_pinned_spec, FlowEngine,
    FlowModel, FlowOutcome, PendingModel,
};
use crate::events::{ClipboardChange, PasteTrigger};
use crate::hotkey::{alt_v_spec, label_spec, parse_spec, Hotkey};
use crate::model::{payload_hash, payload_hash_spec, ClipboardPayload, ClipboardRecord, PayloadModel, RecordModel};
use crate::text::{
    before_first, split_once_chars, chars_of, contains_seq, occurs_at, occurs_at_exec, slice_to_vec, string_of, to_lowercase,
    trim, trim_chars, unicode_lowercase,
};

verus! {

/// `std::sync::mpsc::Sender`, carried as is.
#[verifier::external_type_specification]
#[verifier::external_body]
#[verifier::reject_recursive_types(T)]
pub struct ExSender<T>(std::sync::mpsc::Sender<T>);

/// Requests from the UI to the capture worker.
pub enum WorkerCmd {
    Recopy { sequence: u32 },
    RecopyText { text: String },
    ClearHistory,
    SetTracking { on: bool, request_id: Option<u64> },
    SetRetention(Retention),
    ExcludeApp { exe: String },
    UnexcludeApp { exe: String },
    DeleteRecord { sequences: Vec<u32> },
    SetPinned { sequences: Vec<u32>, pinned: bool },
    SetExpandedRaw(bool),
    SetHotkey(Hotkey),
    QueryHistory(HistoryQuery),
    SetHistoryActive(bool),
    LoadFullImage(u32),
    UnloadFullImage,
}

pub enum CmdModel {
    Recopy { sequence: u32 },
    RecopyText { text: Seq<char> },
    ClearHistory,
    SetTracking { on: bool, request_id: Option<u64> },
    SetRetention(Retention),
    ExcludeApp { exe: Seq<char> },
    UnexcludeApp { exe: Seq<char> },
    DeleteRecord { sequences: Seq<u32> },
    SetPinned { sequences: Seq<u32>, pinned: bool },
    SetExpandedRaw(bool),
    SetHotkey(Hotkey),
    QueryHistory(QueryModel),
    SetHistoryActive(bool),
    LoadFullImage(u32),
    UnloadFullImage,
}

impl View for WorkerCmd {
    type V = CmdModel;

    open spec fn view(&self) -> CmdModel {
        match self {
            WorkerCmd::Recopy { sequence } => CmdModel::Recopy { sequence: *sequence },
            WorkerCmd::RecopyText { text } => CmdModel::RecopyText { text: text@ },
            WorkerCmd::ClearHistory => CmdModel::ClearHistory,
            WorkerCmd::SetTracking { on, request_id } => CmdModel::SetTracking {
                on: *on,
                request_id: *request_id,
            },
            WorkerCmd::SetRetention(r) => CmdModel::SetRetention(*r),
            WorkerCmd::ExcludeApp { exe } => CmdModel::ExcludeApp { exe: exe@ },
            WorkerCmd::UnexcludeApp { exe } => CmdModel::UnexcludeApp { exe: exe@ },
            WorkerCmd::DeleteRecord { sequences } => CmdModel::DeleteRecord { sequences: sequences@ },
            WorkerCmd::SetPinned { sequences, pinned } => CmdModel::SetPinned {
                sequences: sequences@,
                pinned: *pinned,
            },
            WorkerCmd::SetExpandedRaw(on) => CmdModel::SetExpandedRaw(*on),
            WorkerCmd::SetHotkey(h) => CmdModel::SetHotkey(*h),
            WorkerCmd::QueryHistory(q) => CmdModel::QueryHistory(query_view(*q)),
            WorkerCmd::SetHistoryActive(a) => CmdModel::SetHistoryActive(*a),
            WorkerCmd::LoadFullImage(s) => CmdModel::LoadFullImage(*s),
            WorkerCmd::UnloadFullImage => CmdModel::UnloadFullImage,
        }
    }
}

/// The UI's end of the worker's command channel.
pub struct WorkerHandle {
    pub cmd_tx: std::sync::mpsc::Sender<WorkerCmd>,
}

/// `Sender::send` of a worker command. Whether it succeeds depends on the
/// worker thread still listening, so nothing is stated of the result.
#[verifier::external_body]
pub(crate) fn send_command(tx: &std::sync::mpsc::Sender<WorkerCmd>, cmd: WorkerCmd) -> (sent: bool) {
    tx.send(cmd).is_ok()
}

// ----------------------------------------------------------------------------
// Veya's own clipboard writes
// ----------------------------------------------------------------------------

/// Arms the suppression token for `payload`, lets `writer` put it on the
/// clipboard, then confirms the token with the written sequence and this
/// process's id, or drops it when the write failed.
pub fn write_internal_payload<F: FnOnce(&ClipboardPayload) -> Result<u32, String>>(
    flow: &mut FlowEngine,
    payload: &ClipboardPayload,
    writer: F,
    owner_pid: u32,
) -> (r: Result<(), String>)
    requires
        flow_wf(old(flow)@),
        call_requires(writer, (payload,)),
    ensures
        flow_wf(final(flow)@),
        match r {
            Ok(()) => exists|sequence: u32|
                #![trigger call_ensures(writer, (payload,), Ok::<u32, String>(sequence))]
                call_ensures(writer, (payload,), Ok::<u32, String>(sequence)) && final(flow)@ == (
                FlowModel {
                    pending: Some(
                        PendingModel {
                            expected_sequence: Some(sequence),
                            hash: payload_hash_spec(payload@),
                            owner_pid: Some(owner_pid),
                        },
                    ),
                    ..old(flow)@
                }),
            Err(e) => call_ensures(writer, (payload,), Err::<u32, String>(e)) && final(flow)@ == (
            FlowModel { pending: None, ..old(flow)@ }),
        },
{
    let hash = payload_hash(payload);
    // Arm before touching the clipboard: the platform may publish the update
    // with a sequence newer than the one the writer observed.
    flow.begin_internal_write(crate::events::InternalClipboardWrite { expected_sequence: None, hash });
    let written = writer(payload);
    match written {
        Ok(sequence) => {
            flow.confirm_internal_write(sequence, owner_pid);
            Ok(())
        },
        Err(error) => {
            flow.cancel_internal_write();
            Err(error)
        },
    }
}

// ----------------------------------------------------------------------------
// History groups
// ----------------------------------------------------------------------------

/// Two raw records read as one history card: identical content, source app
/// and pin state, created within the aggregation window of each other.
pub open spec fn same_group_spec(l: RecordModel, r: RecordModel) -> bool {
    &&& l.content_hash == r.content_hash
    &&& l.pinned == r.pinned
    &&& l.source_app == r.source_app
    &&& -crate::aggregate::AGGREGATION_WINDOW_MS <= l.created_at_ms - r.created_at_ms
        <= crate::aggregate::AGGREGATION_WINDOW_MS
}

pub fn same_history_group(left: &ClipboardRecord, right: &ClipboardRecord) -> (r: bool)
    ensures
        r == same_group_spec(left@, right@),
{
    let lh = chars_of(left.content_hash.as_str());
    let rh = chars_of(right.content_hash.as_str());
    let la = chars_of(left.source_app.as_str());
    let ra = chars_of(right.source_app.as_str());
    let diff: i128 = left.created_at_ms as i128 - right.created_at_ms as i128;
    chars_eq(lh.as_slice(), rh.as_slice()) && left.pinned == right.pinned && chars_eq(
        la.as_slice(),
        ra.as_slice(),
    ) && -5_000 <= diff && diff <= 5_000
}

// ----------------------------------------------------------------------------
// Excluded applications
// ----------------------------------------------------------------------------

/// A source name without the ` (…)` note a confidence label may add.
pub open spec fn base_exe_spec(name: Seq<char>) -> Seq<char> {
    before_first(name, " ("@)
}

/// The comparison key of an executable name: base name, trimmed, lowercased.
pub open spec fn exe_key_spec(name: Seq<char>) -> Seq<char> {
    unicode_lowercase(trim(base_exe_spec(name)))
}

pub open spec fn is_excluded_spec(excluded: Seq<Seq<char>>, source: Seq<char>) -> bool {
    let key = exe_key_spec(source);
    key.len() > 0 && exists|i: int|
        0 <= i < excluded.len() && exe_key_spec(#[trigger] excluded[i]) == key
}

pub open spec fn strings_of(v: Seq<String>) -> Seq<Seq<char>> {
    v.map_values(|s: String| s@)
}

/// The entries of `ex` whose executable key is `key`, in order.
pub open spec fn entries_with_key(ex: Seq<Seq<char>>, key: Seq<char>) -> Seq<Seq<char>>
    decreases ex.len(),
{
    if ex.len() == 0 {
        Seq::empty()
    } else {
        let rest = entries_with_key(ex.drop_last(), key);
        if exe_key_spec(ex.last()) == key {
            rest.push(ex.last())
        } else {
            rest
        }
    }
}

fn base_exe(name: &[char]) -> (r: Vec<char>)
    ensures
        r@ == base_exe_spec(name@),
{
    let pat = chars_of(" (");
    let (before, _) = split_once_chars(name, pat.as_slice());
    before
}

/// The comparison key of an executable name.
pub fn exe_key(name: &str) -> (r: String)
    ensures
        r@ == exe_key_spec(name@),
{
    let cs = chars_of(name);
    let base = base_exe(cs.as_slice());
    let trimmed = trim_chars(base.as_slice());
    let s = string_of(trimmed.as_slice());
    to_lowercase(s.as_str())
}

fn key_eq(a: &str, b: &str) -> (r: bool)
    ensures
        r == (a@ == b@),
{
    let x = chars_of(a);
    let y = chars_of(b);
    chars_eq(x.as_slice(), y.as_slice())
}

/// Whether copies from `source_exe` are excluded, comparing base names
/// case-insensitively. A nameless source is never excluded.
pub fn is_excluded_source(excluded_apps: &[String], source_exe: &str) -> (r: bool)
    ensures
        r == is_excluded_spec(strings_of(excluded_apps@), source_exe@),
{
    let key = exe_key(source_exe);
    if chars_of(key.as_str()).len() == 0 {
        return false;
    }
    let ghost ex = strings_of(excluded_apps@);
    let mut i: usize = 0;
    while i < excluded_apps.len()
        invariant
            ex == strings_of(excluded_apps@),
            key@ == exe_key_spec(source_exe@),
            key@.len() > 0,
            i <= excluded_apps@.len(),
            forall|j: int| 0 <= j < i ==> exe_key_spec(#[trigger] ex[j]) != key@,
        decreases excluded_apps@.len() - i,
    {
        let k = exe_key(excluded_apps[i].as_str());
        assert(ex[i as int] == excluded_apps@[i as int]@);
        if key_eq(k.as_str(), key.as_str()) {
            return true;
        }
        i += 1;
    }
    false
}

/// The key under which a typed application name is excluded; an empty name is refused.
pub fn exclusion_key(name: &str) -> (r: Result<String, String>)
    ensures
        match r {
            Ok(k) => k@ == exe_key_spec(name@) && k@.len() > 0,
            Err(e) => exe_key_spec(name@).len() == 0 && e@ == "应用文件名不能为空"@,
        },
{
    let key = exe_key(name);
    if chars_of(key.as_str()).len() == 0 {
        let mut e = String::new();
        crate::text::push_str(&mut e, "应用文件名不能为空");
        assert(e@ =~= "应用文件名不能为空"@);
        Err(e)
    } else {
        Ok(key)
    }
}

/// The stored entries that name the same executable as `key`, in order.
pub fn matching_exclusions(excluded_apps: &[String], key: &str) -> (r: Vec<String>)
    ensures
        strings_of(r@) == entries_with_key(strings_of(excluded_apps@), key@),
{
    let ghost ex = strings_of(excluded_apps@);
    let mut out: Vec<String> = Vec::new();
    let mut i: usize = 0;
    while i < excluded_apps.len()
        invariant
            ex == strings_of(excluded_apps@),
            i <= excluded_apps@.len(),
            strings_of(out@) == entries_with_key(ex.take(i as int), key@),
        decreases excluded_apps@.len() - i,
    {
        let k = exe_key(excluded_apps[i].as_str());
        proof {
            assert(ex.take(i as int + 1).drop_last() =~= ex.take(i as int));
            assert(ex.take(i as int + 1).last() == excluded_apps@[i as int]@);
        }
        if key_eq(k.as_str(), key) {
            out.push(excluded_apps[i].clone());
            assert(strings_of(out@) =~= strings_of(out@).drop_last().push(excluded_apps@[i as int]@));
        }
        i += 1;
    }
    assert(ex.take(ex.len() as int) =~= ex);
    out
}

// ----------------------------------------------------------------------------
// The worker's own state, and how commands and platform events change it
// ----------------------------------------------------------------------------

/// What the capture worker keeps between events (the store and the flow
/// engine live beside it).
pub struct WorkerState {
    pub history_query: HistoryQuery,
    pub history_active: bool,
    /// The record whose full image the detail modal shows.
    pub modal_image: Option<u32>,
    pub tracking: bool,
    pub tracking_ack: u64,
    pub retention: Retention,
    pub expanded_raw: bool,
    pub status_note: String,
    pub excluded_apps: Vec<String>,
    pub hotkey_selected: Hotkey,
    pub hotkey_active: Hotkey,
    pub hotkey_error: Option<String>,
    pub invalid_hotkey_setting: bool,
    pub last_purge_ms: i64,
}

pub struct QueryModel {
    pub search: Seq<char>,
    pub filter: HistoryFilter,
    pub pinned_only: bool,
    pub newest_first: bool,
    pub page: usize,
}

pub struct WorkerModel {
    pub query: QueryModel,
    pub history_active: bool,
    pub modal_image: Option<u32>,
    pub tracking: bool,
    pub tracking_ack: u64,
    pub retention: Retention,
    pub expanded_raw: bool,
    pub status_note: Seq<char>,
    pub excluded_apps: Seq<Seq<char>>,
    pub hotkey_selected: Hotkey,
    pub hotkey_active: Hotkey,
    pub hotkey_error: Option<Seq<char>>,
    pub invalid_hotkey_setting: bool,
    pub last_purge_ms: i64,
}

pub open spec fn query_view(q: HistoryQuery) -> QueryModel {
    QueryModel {
        search: q.search@,
        filter: q.filter,
        pinned_only: q.pinned_only,
        newest_first: q.newest_first,
        page: q.page,
    }
}

pub open spec fn opt_text(e: Option<String>) -> Option<Seq<char>> {
    match e {
        Some(x) => Some(x@),
        None => None,
    }
}

impl View for WorkerState {
    type V = WorkerModel;

    open spec fn view(&self) -> WorkerModel {
        WorkerModel {
            query: query_view(self.history_query),
            history_active: self.history_active,
            modal_image: self.modal_image,
            tracking: self.tracking,
            tracking_ack: self.tracking_ack,
            retention: self.retention,
            expanded_raw: self.expanded_raw,
            status_note: self.status_note@,
            excluded_apps: strings_of(self.excluded_apps@),
            hotkey_selected: self.hotkey_selected,
            hotkey_active: self.hotkey_active,
            hotkey_error: opt_text(self.hotkey_error),
            invalid_hotkey_setting: self.invalid_hotkey_setting,
            last_purge_ms: self.last_purge_ms,
        }
    }
}

fn text_of(s: &str) -> (r: String)
    ensures
        r@ == s@,
{
    let mut t = String::new();
    crate::text::push_str(&mut t, s);
    assert(t@ =~= s@);
    t
}

fn joined(a: &str, b: &str) -> (r: String)
    ensures
        r@ == a@ + b@,
{
    let mut t = String::new();
    crate::text::push_str(&mut t, a);
    crate::text::push_str(&mut t, b);
    assert(t@ =~= a@ + b@);
    t
}

/// The note after a write of Veya's own to the clipboard.
pub open spec fn copy_note(result: Result<(), Seq<char>>, done: Seq<char>) -> Seq<char> {
    match result {
        Ok(()) => done,
        Err(e) => "复制失败："@ + e,
    }
}

/// What a re-copy leaves behind, given what the clipboard writer returned:
/// on success the suppression token waits for the written sequence from this
/// process and the note says `done`; on failure no token stays armed and the
/// note carries the writer's error. Nothing else changes.
pub open spec fn recopied(
    old_flow: FlowModel,
    new_flow: FlowModel,
    old_state: WorkerModel,
    new_state: WorkerModel,
    payload: PayloadModel,
    res: Result<u32, String>,
    owner_pid: u32,
    done: Seq<char>,
) -> bool {
    match res {
        Ok(sequence) => new_flow == (FlowModel {
            pending: Some(
                PendingModel {
                    expected_sequence: Some(sequence),
                    hash: payload_hash_spec(payload),
                    owner_pid: Some(owner_pid),
                },
            ),
            ..old_flow
        }) && new_state == (WorkerModel { status_note: done, ..old_state }),
        Err(e) => new_flow == (FlowModel { pending: None, ..old_flow }) && new_state == (
        WorkerModel { status_note: copy_note(Err(e@), done), ..old_state }),
    }
}

/// The record a clipboard change owes the store: only a change that is
/// tracked, from an app that is not excluded, and recorded by the engine;
/// nothing else is ever handed to the store.
pub open spec fn change_record_owed(w: WorkerModel, f: FlowModel, change: Option<ClipboardChange>) -> Option<
    RecordModel,
> {
    match change {
        Some(c) => if w.tracking && !is_excluded_spec(w.excluded_apps, c@.source_exe) && on_change_spec(
            f,
            c@,
        ).1 == (FlowOutcome::Recorded { sequence: c@.sequence }) {
            Some(on_change_spec(f, c@).0.records[c@.sequence])
        } else {
            None
        },
        None => None,
    }
}

/// The record a paste trigger owes the store: only while tracking, and only
/// the record the paste was attached to, with the paste added.
pub open spec fn paste_record_owed(w: WorkerModel, f: FlowModel, trigger: PasteTrigger) -> Option<RecordModel> {
    if w.tracking {
        match on_paste_spec(f, trigger@).1 {
            FlowOutcome::PasteAttached { sequence } => Some(on_paste_spec(f, trigger@).0.records[sequence]),
            _ => None,
        }
    } else {
        None
    }
}

impl WorkerState {
    /// State at startup, from the stored retention, exclusions and hotkey settings.
    pub fn start(
        stored_retention: Option<String>,
        excluded_apps: Vec<String>,
        stored_hotkey: Option<String>,
    ) -> (r: WorkerState)
        ensures
            r@.retention == match stored_retention {
                Some(s) => retention_from_key(s@),
                None => Retention::Day30,
            },
            r@.excluded_apps == strings_of(excluded_apps@),
            r@.invalid_hotkey_setting == (stored_hotkey is Some && parse_spec(stored_hotkey->0@) is None),
            r@.hotkey_selected == match stored_hotkey {
                Some(s) => match parse_spec(s@) {
                    Some(h) => h,
                    None => alt_v_spec(),
                },
                None => alt_v_spec(),
            },
            r@.hotkey_active == Hotkey::Disabled,
            r@.hotkey_error is None,
            r@.tracking,
            r@.tracking_ack == 0,
            !r@.expanded_raw,
            r@.status_note == Seq::<char>::empty(),
            !r@.history_active,
            r@.modal_image is None,
            r@.query.page == 0 && r@.query.newest_first && !r@.query.pinned_only,
            r@.query.filter == HistoryFilter::All && r@.query.search == Seq::<char>::empty(),
            r@.last_purge_ms == 0,
    {
        let retention = match &stored_retention {
            Some(s) => Retention::from_key(s.as_str()),
            None => Retention::Day30,
        };
        let (selected, invalid) = match &stored_hotkey {
            Some(s) => match Hotkey::parse(s.as_str()) {
                Some(h) => (h, false),
                None => (Hotkey::alt_v(), true),
            },
            None => (Hotkey::alt_v(), false),
        };
        WorkerState {
            history_query: HistoryQuery::default(),
            history_active: false,
            modal_image: None,
            tracking: true,
            tracking_ack: 0,
            retention,
            expanded_raw: false,
            status_note: String::new(),
            excluded_apps,
            hotkey_selected: selected,
            hotkey_active: Hotkey::Disabled,
            hotkey_error: None,
            invalid_hotkey_setting: invalid,
            last_purge_ms: 0,
        }
    }

    /// The payload to re-copy: from the live engine, else the store's copy.
    pub fn recopy_payload(flow: &FlowEngine, sequence: u32, stored: Option<ClipboardPayload>) -> (r:
        Option<ClipboardPayload>)
        requires
            flow_wf(flow@),
        ensures
            match r {
                Some(p) => (flow@.records.contains_key(sequence) && p@ == flow@.records[sequence].payload)
                    || (!flow@.records.contains_key(sequence) && (stored matches Some(q) && p@ == q@)),
                None => !flow@.records.contains_key(sequence) && stored is None,
            },
    {
        match flow.record(sequence) {
            Some(rec) => Some(rec.payload.duplicate()),
            None => stored,
        }
    }

    /// Re-copies a record (or notes that it is gone), arming suppression of the
    /// write: the payload goes to `writer`, and what it returns decides the
    /// token and the note.
    pub fn recopy<F: FnOnce(&ClipboardPayload) -> Result<u32, String>>(
        &mut self,
        flow: &mut FlowEngine,
        payload: Option<ClipboardPayload>,
        writer: F,
        owner_pid: u32,
    )
        requires
            flow_wf(old(flow)@),
            payload matches Some(p) ==> call_requires(writer, (&p,)),
        ensures
            flow_wf(final(flow)@),
            payload is None ==> final(self)@ == (WorkerModel {
                status_note: "记录已不存在"@,
                ..old(self)@
            }) && final(flow)@ == old(flow)@,
            payload matches Some(p) ==> exists|res: Result<u32, String>|
                #![trigger call_ensures(writer, (&p,), res)]
                call_ensures(writer, (&p,), res) && recopied(
                    old(flow)@,
                    final(flow)@,
                    old(self)@,
                    final(self)@,
                    p@,
                    res,
                    owner_pid,
                    "已复制到剪贴板"@,
                ),
    {
        match payload {
            Some(p) => {
                let result = write_internal_payload(flow, &p, writer, owner_pid);
                self.status_note = match &result {
                    Ok(()) => text_of("已复制到剪贴板"),
                    Err(error) => joined("复制失败：", error.as_str()),
                };
                proof {
                    match result {
                        Ok(()) => {
                            let seq = choose|sequence: u32|
                                #![trigger call_ensures(writer, (&p,), Ok::<u32, String>(sequence))]
                                call_ensures(writer, (&p,), Ok::<u32, String>(sequence))
                                    && final(flow)@ == (FlowModel {
                                    pending: Some(
                                        PendingModel {
                                            expected_sequence: Some(sequence),
                                            hash: payload_hash_spec(p@),
                                            owner_pid: Some(owner_pid),
                                        },
                                    ),
                                    ..old(flow)@
                                });
                            assert(recopied(old(flow)@, final(flow)@, old(self)@, self@, p@,
                                Ok::<u32, String>(seq), owner_pid, "已复制到剪贴板"@));
                        },
                        Err(e) => {
                            assert(recopied(old(flow)@, final(flow)@, old(self)@, self@, p@,
                                Err::<u32, String>(e), owner_pid, "已复制到剪贴板"@));
                        },
                    }
                }
            },
            None => {
                self.status_note = text_of("记录已不存在");
            },
        }
    }

    /// Re-copies plain text, arming suppression of the write: the text goes to
    /// `writer` as a text payload, and what it returns decides the token and
    /// the note.
    pub fn recopy_text<F: FnOnce(&ClipboardPayload) -> Result<u32, String>>(
        &mut self,
        flow: &mut FlowEngine,
        text: String,
        writer: F,
        owner_pid: u32,
    )
        requires
            flow_wf(old(flow)@),
            forall|p: &ClipboardPayload| call_requires(writer, (p,)),
        ensures
            flow_wf(final(flow)@),
            exists|res: Result<u32, String>|
                #![trigger call_ensures(writer, (&ClipboardPayload::Text(text),), res)]
                call_ensures(writer, (&ClipboardPayload::Text(text),), res) && recopied(
                    old(flow)@,
                    final(flow)@,
                    old(self)@,
                    final(self)@,
                    PayloadModel::Text(text@),
                    res,
                    owner_pid,
                    "已复制为纯文本"@,
                ),
    {
        let payload = ClipboardPayload::Text(text);
        let result = write_internal_payload(flow, &payload, writer, owner_pid);
        self.status_note = match &result {
            Ok(()) => text_of("已复制为纯文本"),
            Err(error) => joined("复制失败：", error.as_str()),
        };
        proof {
            match result {
                Ok(()) => {
                    let seq = choose|sequence: u32|
                        #![trigger call_ensures(writer, (&payload,), Ok::<u32, String>(sequence))]
                        call_ensures(writer, (&payload,), Ok::<u32, String>(sequence))
                            && final(flow)@ == (FlowModel {
                            pending: Some(
                                PendingModel {
                                    expected_sequence: Some(sequence),
                                    hash: payload_hash_spec(payload@),
                                    owner_pid: Some(owner_pid),
                                },
                            ),
                            ..old(flow)@
                        });
                    assert(recopied(old(flow)@, final(flow)@, old(self)@, self@, payload@,
                        Ok::<u32, String>(seq), owner_pid, "已复制为纯文本"@));
                },
                Err(e) => {
                    assert(recopied(old(flow)@, final(flow)@, old(self)@, self@, payload@,
                        Err::<u32, String>(e), owner_pid, "已复制为纯文本"@));
                },
            }
        }
    }

    /// After the store was cleared (or failed to): the engine forgets every
    /// record, the modal closes and the list returns to its first page.
    pub fn after_clear(&mut self, flow: &mut FlowEngine, result: Result<(), String>)
        requires
            flow_wf(old(flow)@),
        ensures
            flow_wf(final(flow)@),
            match result {
                Ok(()) => final(flow)@ == crate::flow::empty_flow() && final(self)@ == (WorkerModel {
                    modal_image: None,
                    query: QueryModel { page: 0, ..old(self)@.query },
                    status_note: "历史已清空"@,
                    ..old(self)@
                }),
                Err(e) => final(flow)@ == old(flow)@ && final(self)@ == (WorkerModel {
                    status_note: "清空历史失败："@ + e@,
                    ..old(self)@
                }),
            },
    {
        match result {
            Ok(()) => {
                flow.clear();
                self.modal_image = None;
                self.history_query.page = 0;
                self.status_note = text_of("历史已清空");
            },
            Err(error) => {
                self.status_note = joined("清空历史失败：", error.as_str());
            },
        }
    }

    /// Tracking on or off; a request id from the window is acknowledged.
    /// Returns whether the tray should show the paused state.
    pub fn set_tracking(&mut self, on: bool, request_id: Option<u64>) -> (paused: bool)
        ensures
            paused == !on,
            final(self)@ == (WorkerModel {
                tracking: on,
                tracking_ack: match request_id {
                    Some(id) => id,
                    None => old(self)@.tracking_ack,
                },
                status_note: if on {
                    "已恢复记录"@
                } else {
                    "已暂停记录"@
                },
                ..old(self)@
            }),
    {
        self.tracking = on;
        if let Some(id) = request_id {
            self.tracking_ack = id;
        }
        self.status_note = if on {
            text_of("已恢复记录")
        } else {
            text_of("已暂停记录")
        };
        !on
    }

    /// A new retention period (the caller stores it and purges by its cutoff).
    pub fn set_retention(&mut self, retention: Retention)
        ensures
            final(self)@ == (WorkerModel {
                retention,
                status_note: "保留期已设为 "@ + retention_label(retention),
                ..old(self)@
            }),
    {
        self.retention = retention;
        self.status_note = joined("保留期已设为 ", retention.label());
    }

    /// Excludes the application named `name` from later copies; `persist`
    /// stores a new exclusion key and may fail.
    pub fn exclude_app<F: FnOnce(&str) -> Result<(), String>>(&mut self, name: &str, persist: F)
        requires
            forall|k: &str| call_requires(persist, (k,)),
        ensures
            exe_key_spec(name@).len() == 0 ==> final(self)@ == (WorkerModel {
                status_note: "应用文件名不能为空"@,
                ..old(self)@
            }),
            exe_key_spec(name@).len() > 0 && is_excluded_spec(old(self)@.excluded_apps, exe_key_spec(name@))
                ==> final(self)@ == (WorkerModel {
                status_note: "已排除 "@ + exe_key_spec(name@) + " 的后续复制"@,
                ..old(self)@
            }),
            exe_key_spec(name@).len() > 0 && !is_excluded_spec(old(self)@.excluded_apps, exe_key_spec(name@))
                ==> exists|k: &str, res: Result<(), String>|
                #![trigger call_ensures(persist, (k,), res)]
                k@ == exe_key_spec(name@) && call_ensures(persist, (k,), res) && match res {
                    Ok(()) => final(self)@ == (WorkerModel {
                        excluded_apps: old(self)@.excluded_apps.push(exe_key_spec(name@)),
                        status_note: "已排除 "@ + exe_key_spec(name@) + " 的后续复制"@,
                        ..old(self)@
                    }),
                    Err(e) => final(self)@ == (WorkerModel {
                        status_note: "保存排除设置失败："@ + e@,
                        ..old(self)@
                    }),
                },
    {
        let key = match exclusion_key(name) {
            Ok(k) => k,
            Err(e) => {
                self.status_note = e;
                return;
            },
        };
        if !is_excluded_source(self.excluded_apps.as_slice(), key.as_str()) {
            let saved = persist(key.as_str());
            match saved {
                Ok(()) => {
                    let ghost before = strings_of(self.excluded_apps@);
                    self.excluded_apps.push(key.clone());
                    assert(strings_of(self.excluded_apps@) =~= before.push(key@));
                },
                Err(error) => {
                    self.status_note = joined("保存排除设置失败：", error.as_str());
                    return;
                },
            }
        }
        let mut note = text_of("已排除 ");
        crate::text::push_str(&mut note, key.as_str());
        crate::text::push_str(&mut note, " 的后续复制");
        self.status_note = note;
    }
}

/// The entries of `ex` whose executable key is not `key`, in order.
pub open spec fn entries_without_key(ex: Seq<Seq<char>>, key: Seq<char>) -> Seq<Seq<char>>
    decreases ex.len(),
{
    if ex.len() == 0 {
        Seq::empty()
    } else {
        let rest = entries_without_key(ex.drop_last(), key);
        if exe_key_spec(ex.last()) != key {
            rest.push(ex.last())
        } else {
            rest
        }
    }
}

/// Deleting the listed records one after another.
pub open spec fn delete_all(s: FlowModel, seqs: Seq<u32>) -> FlowModel
    decreases seqs.len(),
{
    if seqs.len() == 0 {
        s
    } else {
        delete_spec(delete_all(s, seqs.drop_last()), seqs.last()).0
    }
}

fn remove_key_entries(excluded: &Vec<String>, key: &str) -> (r: Vec<String>)
    ensures
        strings_of(r@) == entries_without_key(strings_of(excluded@), key@),
{
    let ghost ex = strings_of(excluded@);
    let mut out: Vec<String> = Vec::new();
    let mut i: usize = 0;
    while i < excluded.len()
        invariant
            ex == strings_of(excluded@),
            i <= excluded@.len(),
            strings_of(out@) == entries_without_key(ex.take(i as int), key@),
        decreases excluded@.len() - i,
    {
        let k = exe_key(excluded[i].as_str());
        proof {
            assert(ex.take(i as int + 1).drop_last() =~= ex.take(i as int));
            assert(ex.take(i as int + 1).last() == excluded@[i as int]@);
        }
        if !key_eq(k.as_str(), key) {
            let ghost before = strings_of(out@);
            out.push(excluded[i].clone());
            assert(strings_of(out@) =~= before.push(excluded@[i as int]@));
        }
        i += 1;
    }
    assert(ex.take(ex.len() as int) =~= ex);
    out
}

fn contains_seq_u32(v: &[u32], x: u32) -> (r: bool)
    ensures
        r == v@.contains(x),
{
    let mut i: usize = 0;
    while i < v.len()
        invariant
            i <= v@.len(),
            forall|j: int| 0 <= j < i ==> v@[j] != x,
        decreases v@.len() - i,
    {
        if v[i] == x {
            return true;
        }
        i += 1;
    }
    false
}

/// The note a window-hotkey change leaves when it took effect.
pub open spec fn hotkey_note(requested: Hotkey) -> Seq<char> {
    if requested == Hotkey::Disabled {
        "窗口快捷键已关闭"@
    } else {
        "窗口快捷键已设为 "@ + label_spec(requested)
    }
}

impl WorkerState {
    /// Stops excluding the application named `name`; `persist` clears every
    /// stored entry with that key (older databases may hold several spellings).
    pub fn unexclude_app<F: FnOnce(&[String]) -> Result<(), String>>(&mut self, name: &str, persist: F)
        requires
            forall|ks: &[String]| call_requires(persist, (ks,)),
        ensures
            exe_key_spec(name@).len() == 0 ==> final(self)@ == (WorkerModel {
                status_note: "应用文件名不能为空"@,
                ..old(self)@
            }),
            exe_key_spec(name@).len() > 0 ==> exists|ks: &[String], res: Result<(), String>|
                #![trigger call_ensures(persist, (ks,), res)]
                strings_of(ks@) == entries_with_key(old(self)@.excluded_apps, exe_key_spec(name@))
                    && call_ensures(persist, (ks,), res) && match res {
                    Ok(()) => final(self)@ == (WorkerModel {
                        excluded_apps: entries_without_key(
                            old(self)@.excluded_apps,
                            exe_key_spec(name@),
                        ),
                        status_note: "已取消排除 "@ + exe_key_spec(name@),
                        ..old(self)@
                    }),
                    Err(e) => final(self)@ == (WorkerModel {
                        status_note: "取消排除失败："@ + e@,
                        ..old(self)@
                    }),
                },
    {
        let key = match exclusion_key(name) {
            Ok(k) => k,
            Err(e) => {
                self.status_note = e;
                return;
            },
        };
        let matching = matching_exclusions(self.excluded_apps.as_slice(), key.as_str());
        match persist(matching.as_slice()) {
            Ok(()) => {},
            Err(error) => {
                self.status_note = joined("取消排除失败：", error.as_str());
                return;
            },
        }
        self.excluded_apps = remove_key_entries(&self.excluded_apps, key.as_str());
        self.status_note = joined("已取消排除 ", key.as_str());
    }

    /// After the store deleted (or failed to delete) the listed records. The
    /// image modal closes when it showed one of them.
    pub fn after_delete(&mut self, flow: &mut FlowEngine, sequences: &[u32], result: Result<usize, String>)
        requires
            flow_wf(old(flow)@),
        ensures
            flow_wf(final(flow)@),
            ({
                let modal = match old(self)@.modal_image {
                    Some(s) => if sequences@.contains(s) {
                        None
                    } else {
                        Some(s)
                    },
                    None => None,
                };
                match result {
                    Ok(_) => final(flow)@ == delete_all(old(flow)@, sequences@) && final(self)@ == (
                    WorkerModel { modal_image: modal, status_note: "记录已删除"@, ..old(self)@ }),
                    Err(e) => final(flow)@ == old(flow)@ && final(self)@ == (WorkerModel {
                        modal_image: modal,
                        status_note: "删除失败："@ + e@,
                        ..old(self)@
                    }),
                }
            }),
    {
        if let Some(shown) = self.modal_image {
            if contains_seq_u32(sequences, shown) {
                self.modal_image = None;
            }
        }
        match result {
            Ok(_) => {
                let mut i: usize = 0;
                assert(sequences@.take(0) =~= Seq::<u32>::empty());
                while i < sequences.len()
                    invariant
                        i <= sequences@.len(),
                        flow_wf(flow@),
                        flow@ == delete_all(old(flow)@, sequences@.take(i as int)),
                    decreases sequences@.len() - i,
                {
                    assert(sequences@.take(i as int + 1).drop_last() =~= sequences@.take(i as int));
                    flow.delete_record(sequences[i]);
                    i += 1;
                }
                assert(sequences@.take(sequences@.len() as int) =~= sequences@);
                self.status_note = text_of("记录已删除");
            },
            Err(error) => {
                self.status_note = joined("删除失败：", error.as_str());
            },
        }
    }

    /// After the store changed (or failed to change) the pin state of the listed records.
    pub fn after_set_pinned(
        &mut self,
        flow: &mut FlowEngine,
        sequences: &[u32],
        pinned: bool,
        result: Result<usize, String>,
    )
        requires
            flow_wf(old(flow)@),
        ensures
            flow_wf(final(flow)@),
            match result {
                Ok(_) => final(flow)@ == (FlowModel {
                    records: set_pinned_spec(old(flow)@.records, sequences@, pinned).0,
                    ..old(flow)@
                }) && final(self)@ == (WorkerModel {
                    status_note: if pinned {
                        "已固定记录"@
                    } else {
                        "已取消固定"@
                    },
                    ..old(self)@
                }),
                Err(e) => final(flow)@ == old(flow)@ && final(self)@ == (WorkerModel {
                    status_note: "固定状态保存失败："@ + e@,
                    ..old(self)@
                }),
            },
    {
        match result {
            Ok(_) => {
                flow.set_pinned(sequences, pinned);
                self.status_note = if pinned {
                    text_of("已固定记录")
                } else {
                    text_of("已取消固定")
                };
            },
            Err(error) => {
                self.status_note = joined("固定状态保存失败：", error.as_str());
            },
        }
    }

    pub fn set_expanded_raw(&mut self, on: bool)
        ensures
            final(self)@ == (WorkerModel { expanded_raw: on, ..old(self)@ }),
    {
        self.expanded_raw = on;
    }

    pub fn query_history(&mut self, query: HistoryQuery)
        ensures
            final(self)@ == (WorkerModel { query: query_view(query), ..old(self)@ }),
    {
        self.history_query = query;
    }

    /// Whether the history page is shown; hiding it closes the image modal.
    pub fn set_history_active(&mut self, active: bool)
        ensures
            final(self)@ == (WorkerModel {
                history_active: active,
                modal_image: if active {
                    old(self)@.modal_image
                } else {
                    None
                },
                ..old(self)@
            }),
    {
        self.history_active = active;
        if !active {
            self.modal_image = None;
        }
    }

    /// The image modal shows `sequence`'s full image, or closes when it has none.
    pub fn show_full_image(&mut self, shown: Option<u32>)
        ensures
            final(self)@ == (WorkerModel { modal_image: shown, ..old(self)@ }),
    {
        self.modal_image = shown;
    }

    /// The full-size image bytes the worker keeps: they stay only while the
    /// modal still shows an image, and are dropped once it closed.
    pub fn kept_modal_png(&self, png: Option<(u32, Vec<u8>)>) -> (r: Option<(u32, Vec<u8>)>)
        ensures
            self@.modal_image is None ==> r is None,
            self@.modal_image is Some ==> r == png,
    {
        if self.modal_image.is_none() {
            None
        } else {
            png
        }
    }

    /// The platform could not take a hotkey change request yet.
    pub fn hotkey_request_failed(&mut self)
        ensures
            final(self)@ == (WorkerModel {
                hotkey_error: Some("快捷键服务尚未就绪，请稍后重试"@),
                ..old(self)@
            }),
    {
        self.hotkey_error = Some(text_of("快捷键服务尚未就绪，请稍后重试"));
    }

    /// The platform reports which hotkey is registered. A requested hotkey
    /// that took effect is saved with `save`; any error becomes the note.
    pub fn hotkey_status<F: FnOnce(&str) -> Result<(), String>>(
        &mut self,
        requested: Hotkey,
        active: Hotkey,
        error: Option<String>,
        save: F,
    )
        requires
            forall|k: &str| call_requires(save, (k,)),
        ensures
            error is Some ==> final(self)@ == (WorkerModel {
                hotkey_active: active,
                hotkey_error: opt_text(error),
                status_note: error->0@,
                ..old(self)@
            }),
            error is None ==> exists|k: &str, res: Result<(), String>|
                #![trigger call_ensures(save, (k,), res)]
                k@ == crate::hotkey::as_key_spec(requested) && call_ensures(save, (k,), res) && {
                    let err: Option<Seq<char>> = match res {
                        Err(e) => Some(
                            label_spec(requested) + " 已生效，但保存失败；重启后可能恢复旧设置："@ + e@,
                        ),
                        Ok(()) => if old(self)@.invalid_hotkey_setting {
                            Some("保存的窗口快捷键无效，已恢复默认 Alt+V"@)
                        } else {
                            None
                        },
                    };
                    final(self)@ == (WorkerModel {
                        hotkey_active: active,
                        hotkey_selected: requested,
                        hotkey_error: err,
                        invalid_hotkey_setting: false,
                        status_note: match err {
                            Some(m) => m,
                            None => hotkey_note(requested),
                        },
                        ..old(self)@
                    })
                },
    {
        self.hotkey_active = active;
        self.hotkey_error = error;
        if self.hotkey_error.is_none() {
            self.hotkey_selected = requested;
            self.status_note = if requested == Hotkey::Disabled {
                text_of("窗口快捷键已关闭")
            } else {
                let label = requested.label();
                joined("窗口快捷键已设为 ", label.as_str())
            };
            let key = requested.as_key();
            match save(key.as_str()) {
                Err(e) => {
                    let label = requested.label();
                    let mut m = joined(label.as_str(), " 已生效，但保存失败；重启后可能恢复旧设置：");
                    crate::text::push_str(&mut m, e.as_str());
                    self.hotkey_error = Some(m);
                },
                Ok(()) => {
                    if self.invalid_hotkey_setting {
                        self.hotkey_error = Some(text_of("保存的窗口快捷键无效，已恢复默认 Alt+V"));
                    }
                },
            }
            self.invalid_hotkey_setting = false;
        }
        match &self.hotkey_error {
            Some(m) => {
                self.status_note = m.clone();
            },
            None => {},
        }
    }

    /// Whether a periodic purge is due at `now` (at most once a minute), and
    /// the cutoff it uses; `None` when not due or when nothing expires.
    pub fn purge_due(&mut self, now_ms: i64) -> (cutoff: Option<i64>)
        requires
            i64::MIN <= now_ms - old(self).last_purge_ms <= i64::MAX,
            now_ms - 30 * crate::capture::day_ms() >= i64::MIN,
        ensures
            if now_ms - old(self)@.last_purge_ms > 60_000 {
                final(self)@ == (WorkerModel { last_purge_ms: now_ms, ..old(self)@ }) && cutoff == match crate::capture::retention_days(old(self)@.retention) {
                    Some(d) => Some((now_ms - d * crate::capture::day_ms()) as i64),
                    None => None,
                }
            } else {
                final(self)@ == old(self)@ && cutoff is None
            },
    {
        if now_ms - self.last_purge_ms > 60_000 {
            self.last_purge_ms = now_ms;
            self.retention.cutoff_ms(now_ms)
        } else {
            None
        }
    }

    /// A clipboard format that cannot be captured: the current record stops
    /// collecting pastes.
    pub fn on_clipboard_skipped(&mut self, flow: &mut FlowEngine, sequence: u32)
        requires
            flow_wf(old(flow)@),
        ensures
            flow_wf(final(flow)@),
            !old(self)@.tracking ==> final(flow)@ == old(flow)@ && final(self)@ == old(self)@,
            old(self)@.tracking ==> final(flow)@ == discard_spec(on_untracked_spec(old(flow)@, sequence), None)
                && final(self)@ == (WorkerModel {
                status_note: "该剪贴板格式暂不支持或无法读取，已跳过"@,
                ..old(self)@
            }),
    {
        if !self.tracking {
            return;
        }
        flow.on_untracked_clipboard_change(sequence);
        flow.discard_inactive_records(None);
        self.status_note = text_of("该剪贴板格式暂不支持或无法读取，已跳过");
    }

    /// A clipboard change while tracking: unreadable or excluded changes end
    /// the previous association; a recorded change is stored with `persist`
    /// and is dropped again if storing fails. Only the current record is kept.
    pub fn on_clipboard_change<F: FnOnce(&ClipboardRecord) -> Result<(), String>>(
        &mut self,
        flow: &mut FlowEngine,
        sequence: u32,
        change: Option<ClipboardChange>,
        persist: F,
    )
        requires
            flow_wf(old(flow)@),
            forall|r: &ClipboardRecord|
                #![trigger call_requires(persist, (r,))]
                change_record_owed(old(self)@, old(flow)@, change) == Some(r@) ==> call_requires(
                    persist,
                    (r,),
                ),
        ensures
            flow_wf(final(flow)@),
            !old(self)@.tracking ==> final(flow)@ == old(flow)@ && final(self)@ == old(self)@,
            old(self)@.tracking && change is None ==> final(flow)@ == discard_spec(
                on_untracked_spec(old(flow)@, sequence),
                None,
            ) && final(self)@ == (WorkerModel {
                status_note: "剪贴板内容无法读取或超出大小上限，已跳过"@,
                ..old(self)@
            }),
            old(self)@.tracking && change is Some && is_excluded_spec(
                old(self)@.excluded_apps,
                change->0@.source_exe,
            ) ==> final(flow)@ == discard_spec(
                on_untracked_spec(old(flow)@, change->0@.sequence),
                None,
            ) && final(self)@ == old(self)@,
            old(self)@.tracking && change is Some && !is_excluded_spec(
                old(self)@.excluded_apps,
                change->0@.source_exe,
            ) ==> ({
                let ev = change->0@;
                let (f1, out) = on_change_spec(old(flow)@, ev);
                if out == (FlowOutcome::Recorded { sequence: ev.sequence }) {
                    exists|rec: &ClipboardRecord, res: Result<(), String>|
                        #![trigger call_ensures(persist, (rec,), res)]
                        rec@ == f1.records[ev.sequence] && call_ensures(persist, (rec,), res)
                            && match res {
                            Ok(()) => final(flow)@ == discard_spec(f1, Some(ev.sequence))
                                && final(self)@ == old(self)@,
                            Err(e) => final(flow)@ == discard_spec(
                                delete_spec(f1, ev.sequence).0,
                                Some(ev.sequence),
                            ) && final(self)@ == (WorkerModel {
                                status_note: "记录保存失败："@ + e@,
                                ..old(self)@
                            }),
                        }
                } else {
                    final(flow)@ == discard_spec(f1, Some(ev.sequence)) && final(self)@ == old(self)@
                }
            }),
    {
        if !self.tracking {
            return;
        }
        match change {
            Some(change) => {
                if is_excluded_source(self.excluded_apps.as_slice(), change.source_exe.as_str()) {
                    flow.on_untracked_clipboard_change(change.sequence);
                    flow.discard_inactive_records(None);
                } else {
                    let seq = change.sequence;
                    let outcome = flow.on_clipboard_change(change);
                    match outcome {
                        FlowOutcome::Recorded { .. } => {
                            match flow.record(seq) {
                                Some(rec) => {
                                    match persist(rec) {
                                        Ok(()) => {},
                                        Err(error) => {
                                            flow.delete_record(seq);
                                            self.status_note = joined("记录保存失败：", error.as_str());
                                        },
                                    }
                                },
                                None => {},
                            }
                        },
                        _ => {},
                    }
                    flow.discard_inactive_records(Some(seq));
                }
            },
            None => {
                flow.on_untracked_clipboard_change(sequence);
                flow.discard_inactive_records(None);
                self.status_note = text_of("剪贴板内容无法读取或超出大小上限，已跳过");
            },
        }
    }

    /// A paste trigger while tracking: an attached paste is stored with `persist`.
    pub fn on_paste_trigger<F: FnOnce(&ClipboardRecord) -> Result<(), String>>(
        &mut self,
        flow: &mut FlowEngine,
        trigger: PasteTrigger,
        persist: F,
    )
        requires
            flow_wf(old(flow)@),
            forall|r: &ClipboardRecord|
                #![trigger call_requires(persist, (r,))]
                paste_record_owed(old(self)@, old(flow)@, trigger) == Some(r@) ==> call_requires(
                    persist,
                    (r,),
                ),
        ensures
            flow_wf(final(flow)@),
            !old(self)@.tracking ==> final(flow)@ == old(flow)@ && final(self)@ == old(self)@,
            old(self)@.tracking ==> final(flow)@ == on_paste_spec(old(flow)@, trigger@).0,
            old(self)@.tracking ==> match on_paste_spec(old(flow)@, trigger@).1 {
                FlowOutcome::PasteAttached { sequence } => exists|
                    rec: &ClipboardRecord,
                    res: Result<(), String>,
                |
                    #![trigger call_ensures(persist, (rec,), res)]
                    rec@ == final(flow)@.records[sequence] && call_ensures(persist, (rec,), res)
                        && final(self)@ == match res {
                        Ok(()) => old(self)@,
                        Err(e) => WorkerModel {
                            status_note: "粘贴记录保存失败："@ + e@,
                            ..old(self)@
                        },
                    },
                _ => final(self)@ == old(self)@,
            },
    {
        if !self.tracking {
            return;
        }
        let outcome = flow.on_paste_trigger(trigger);
        match outcome {
            FlowOutcome::PasteAttached { sequence } => {
                match flow.record(sequence) {
                    Some(rec) => {
                        match persist(rec) {
                            Ok(()) => {},
                            Err(error) => {
                                self.status_note = joined("粘贴记录保存失败：", error.as_str());
                            },
                        }
                    },
                    None => {},
                }
            },
            _ => {},
        }
    }
}


/// After a retention purge removed stored records, the engine drops its
/// oldest record when the store no longer holds it. `stored` looks the
/// sequence up in the store (`Ok(false)`: gone; an error keeps the record).
pub fn discard_purged_record<F: FnOnce(u32) -> Result<bool, String>>(flow: &mut FlowEngine, stored: F)
    requires
        flow_wf(old(flow)@),
        forall|q: u32| call_requires(stored, (q,)),
    ensures
        flow_wf(final(flow)@),
        old(flow)@.order.len() == 0 ==> final(flow)@ == old(flow)@,
        old(flow)@.order.len() > 0 ==> exists|res: Result<bool, String>|
            #![trigger call_ensures(stored, (old(flow)@.order[0],), res)]
            call_ensures(stored, (old(flow)@.order[0],), res) && if res == Ok::<bool, String>(false) {
                final(flow)@ == delete_spec(old(flow)@, old(flow)@.order[0]).0
            } else {
                final(flow)@ == old(flow)@
            },
{
    let oldest = flow.oldest_sequence();
    match oldest {
        Some(sequence) => {
            let res = stored(sequence);
            match res {
                Ok(false) => {
                    flow.delete_record(sequence);
                },
                _ => {},
            }
            proof {
                assert(call_ensures(stored, (old(flow)@.order[0],), res));
            }
        },
        None => {},
    }
}

} // verus!
