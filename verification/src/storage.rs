//! How records are laid out in the local SQLite store, column by column.
//!
//! Running the SQL is the caller's part; this module turns records into
//! column values and rows back into records.

use vstd::prelude::*;

use crate::events::{str_eq, PasteConfidence, PasteMethod, SourceConfidence};
use crate::model::{
    copy_strings, display_text_spec, strings_view, ClipboardPayload, ClipboardRecord,
    PasteTriggerRecord, PayloadModel, RecordModel,
};
use crate::text::push_str;

verus! {

/// The serialized form of a file list, as `serde_json::to_vec` writes it.
pub uninterp spec fn json_string_list(paths: Seq<Seq<char>>) -> Seq<u8>;

/// The file list a stored blob holds, as `serde_json::from_slice::<Vec<String>>` reads it.
pub uninterp spec fn parsed_string_list(bytes: Seq<u8>) -> Option<Seq<Seq<char>>>;

/// Calls `serde_json::to_vec` on a list of strings. The bytes are named; a
/// list of strings always serializes, and reads back as the same list.
#[verifier::external_body]
fn file_list_json(paths: &Vec<String>) -> (r: Option<Vec<u8>>)
    ensures
        r is Some,
        r->0@ == json_string_list(strings_view(paths@)),
        parsed_string_list(r->0@) == Some(strings_view(paths@)),
{
    serde_json::to_vec(paths).ok()
}

/// Calls `serde_json::from_slice::<Vec<String>>`; the outcome is named.
#[verifier::external_body]
fn file_list_from_json(bytes: &[u8]) -> (r: Option<Vec<String>>)
    ensures
        match r {
            Some(v) => parsed_string_list(bytes@) == Some(strings_view(v@)),
            None => parsed_string_list(bytes@) is None,
        },
{
    serde_json::from_slice::<Vec<String>>(bytes).ok()
}

/// The payload columns of a record: blob, image width, image height.
pub open spec fn payload_columns(p: PayloadModel) -> (Option<Seq<u8>>, Option<i64>, Option<i64>) {
    match p {
        PayloadModel::Text(_) => (None, None, None),
        PayloadModel::Files(ps) => (Some(json_string_list(ps)), None, None),
        PayloadModel::Image { png, width, height } => (
            Some(png),
            Some(width as i64),
            Some(height as i64),
        ),
    }
}

pub open spec fn blob_view(b: Option<Vec<u8>>) -> Option<Seq<u8>> {
    match b {
        Some(v) => Some(v@),
        None => None,
    }
}

/// Payload columns for storing a payload.
pub fn encode_payload(payload: &ClipboardPayload) -> (r: (Option<Vec<u8>>, Option<i64>, Option<i64>))
    ensures
        (blob_view(r.0), r.1, r.2) == payload_columns(payload@),
{
    match payload {
        ClipboardPayload::Text(_) => (None, None, None),
        ClipboardPayload::Files(paths) => {
            let bytes = file_list_json(paths);
            (bytes, None, None)
        },
        ClipboardPayload::Image { png, width, height } => {
            let mut copy: Vec<u8> = Vec::new();
            let mut i: usize = 0;
            while i < png.len()
                invariant
                    i <= png@.len(),
                    copy@ == png@.take(i as int),
                decreases png@.len() - i,
            {
                copy.push(png[i]);
                assert(png@.take(i as int + 1) =~= png@.take(i as int).push(png@[i as int]));
                i += 1;
            }
            assert(png@.take(png@.len() as int) =~= png@);
            (Some(copy), Some(*width as i64), Some(*height as i64))
        },
    }
}

/// A width or height column as a positive `u32`.
pub open spec fn dimension(n: Option<i64>) -> Option<u32> {
    match n {
        Some(v) => if 0 < v <= u32::MAX {
            Some(v as u32)
        } else {
            None
        },
        None => None,
    }
}

/// The payload a row's columns describe; the error names what is wrong.
pub open spec fn decode_payload_spec(
    kind: Seq<char>,
    content: Seq<char>,
    blob: Option<Seq<u8>>,
    width: Option<i64>,
    height: Option<i64>,
) -> Result<PayloadModel, Seq<char>> {
    if kind == "text"@ {
        Ok(PayloadModel::Text(content))
    } else if kind == "files"@ {
        match blob {
            None => Err("missing file-list payload"@),
            Some(bytes) => match parsed_string_list(bytes) {
                None => Err("invalid file-list payload"@),
                Some(ps) => if ps.len() == 0 {
                    Err("empty file-list payload"@)
                } else {
                    Ok(PayloadModel::Files(ps))
                },
            },
        }
    } else if kind == "image"@ {
        match blob {
            None => Err("missing image payload"@),
            Some(png) => match (dimension(width), dimension(height)) {
                (Some(w), Some(h)) => if png.len() > 0 {
                    Ok(PayloadModel::Image { png, width: w, height: h })
                } else {
                    Err("invalid image payload"@)
                },
                _ => Err("invalid image payload"@),
            },
        }
    } else {
        Err("unknown clipboard payload type"@)
    }
}

fn message(s: &str) -> (r: String)
    ensures
        r@ == s@,
{
    let mut e = String::new();
    push_str(&mut e, s);
    assert(e@ =~= s@);
    e
}

fn dimension_exec(n: Option<i64>) -> (r: Option<u32>)
    ensures
        r == dimension(n),
{
    match n {
        Some(v) => if 0 < v && v <= 0xFFFF_FFFF {
            Some(v as u32)
        } else {
            None
        },
        None => None,
    }
}

/// Reads a payload back from its columns.
pub fn decode_payload(
    kind: &str,
    content: &str,
    blob: Option<Vec<u8>>,
    width: Option<i64>,
    height: Option<i64>,
) -> (r: Result<ClipboardPayload, String>)
    ensures
        match (r, decode_payload_spec(kind@, content@, blob_view(blob), width, height)) {
            (Ok(p), Ok(expected)) => p@ == expected,
            (Err(e), Err(expected)) => e@ == expected,
            _ => false,
        },
{
    if str_eq(kind, "text") {
        let mut t = String::new();
        push_str(&mut t, content);
        assert(t@ =~= content@);
        Ok(ClipboardPayload::Text(t))
    } else if str_eq(kind, "files") {
        match blob {
            None => Err(message("missing file-list payload")),
            Some(bytes) => match file_list_from_json(bytes.as_slice()) {
                None => Err(message("invalid file-list payload")),
                Some(paths) => if paths.len() == 0 {
                    Err(message("empty file-list payload"))
                } else {
                    Ok(ClipboardPayload::Files(paths))
                },
            },
        }
    } else if str_eq(kind, "image") {
        match blob {
            None => Err(message("missing image payload")),
            Some(png) => match (dimension_exec(width), dimension_exec(height)) {
                (Some(w), Some(h)) => if png.len() > 0 {
                    Ok(ClipboardPayload::Image { png, width: w, height: h })
                } else {
                    Err(message("invalid image payload"))
                },
                _ => Err(message("invalid image payload")),
            },
        }
    } else {
        Err(message("unknown clipboard payload type"))
    }
}

/// A stored payload reads back as the payload that was stored, except an
/// empty file list, which is never stored.
pub proof fn law_payload_columns_round_trip(p: PayloadModel, content: Seq<char>)
    requires
        p matches PayloadModel::Files(ps) ==> ps.len() > 0 && parsed_string_list(
            json_string_list(ps),
        ) == Some(ps),
        p matches PayloadModel::Text(t) ==> t == content,
        p matches PayloadModel::Image { png, width, height } ==> png.len() > 0 && width > 0
            && height > 0,
    ensures
        decode_payload_spec(
            crate::model::payload_kind_key(p),
            content,
            payload_columns(p).0,
            payload_columns(p).1,
            payload_columns(p).2,
        ) == Ok::<PayloadModel, Seq<char>>(p),
{
    reveal_strlit("text");
    reveal_strlit("files");
    reveal_strlit("image");
    assert("files"@.len() != "text"@.len());
    assert("image"@.len() != "text"@.len());
    assert("image"@[0] != "files"@[0]);
}

// ----------------------------------------------------------------------------
// Enumerations stored as text
// ----------------------------------------------------------------------------

pub open spec fn parse_confidence_spec(s: Seq<char>) -> SourceConfidence {
    if s == "exact"@ {
        SourceConfidence::Exact
    } else if s == "likely"@ {
        SourceConfidence::Likely
    } else {
        SourceConfidence::Unknown
    }
}

/// Stored source confidence; anything unknown reads as `Unknown`, never as exact.
pub fn parse_confidence(s: &str) -> (r: SourceConfidence)
    ensures
        r == parse_confidence_spec(s@),
{
    if str_eq(s, "exact") {
        SourceConfidence::Exact
    } else if str_eq(s, "likely") {
        SourceConfidence::Likely
    } else {
        SourceConfidence::Unknown
    }
}

/// Stored paste method; only `Shift+Insert` is told apart from `Ctrl+V`.
pub fn parse_method(s: &str) -> (r: PasteMethod)
    ensures
        r == if s@ == "Shift+Insert"@ {
            PasteMethod::ShiftInsert
        } else {
            PasteMethod::CtrlV
        },
{
    if str_eq(s, "Shift+Insert") {
        PasteMethod::ShiftInsert
    } else {
        PasteMethod::CtrlV
    }
}

/// Stored paste confidence: a paste is only ever a hotkey observation.
pub fn parse_paste_confidence(_s: &str) -> (r: PasteConfidence)
    ensures
        r == PasteConfidence::HotkeyObserved,
{
    PasteConfidence::HotkeyObserved
}

/// Every confidence is stored under a key that reads back as itself.
pub proof fn law_confidence_key_round_trip(c: SourceConfidence)
    ensures
        parse_confidence_spec(crate::events::source_confidence_key(c)) == c,
{
    reveal_strlit("exact");
    reveal_strlit("likely");
    reveal_strlit("unknown");
    assert("likely"@.len() != "exact"@.len());
    assert("unknown"@.len() != "exact"@.len());
    assert("unknown"@.len() != "likely"@.len());
}

// ----------------------------------------------------------------------------
// Rows
// ----------------------------------------------------------------------------

/// The columns of one `clipboard_record` row, as SQLite hands them over.
#[derive(Debug, Clone)]
pub struct RecordRow {
    pub sequence: i64,
    pub content_type: String,
    pub content: String,
    pub content_hash: String,
    pub source_app: String,
    pub source_pid: i64,
    pub source_window: String,
    pub source_confidence: String,
    pub created_at_ms: i64,
    pub pinned: i64,
    pub payload: Option<Vec<u8>>,
    pub image_width: Option<i64>,
    pub image_height: Option<i64>,
}

/// The columns of one `paste_trigger` row.
#[derive(Debug, Clone)]
pub struct PasteRow {
    pub clipboard_record_id: i64,
    pub target_app: String,
    pub target_pid: i64,
    pub target_window: String,
    pub method: String,
    pub confidence: String,
    pub triggered_at_ms: i64,
}

fn copy_str(s: &String) -> (r: String)
    ensures
        r@ == s@,
{
    let mut t = String::new();
    push_str(&mut t, s.as_str());
    assert(t@ =~= s@);
    t
}

/// The row stored for a record (its pastes go to `paste_rows`).
pub fn record_row(rec: &ClipboardRecord) -> (r: RecordRow)
    ensures
        r.sequence == rec.sequence as i64,
        r.content_type@ == crate::model::payload_kind_key(rec.payload@),
        r.content@ == display_text_spec(rec.payload@),
        r.content_hash@ == rec.content_hash@,
        r.source_app@ == rec.source_app@,
        r.source_pid == rec.source_pid as i64,
        r.source_window@ == rec.source_window@,
        r.source_confidence@ == crate::events::source_confidence_key(rec.source_confidence),
        r.created_at_ms == rec.created_at_ms,
        r.pinned == if rec.pinned {
            1i64
        } else {
            0i64
        },
        (blob_view(r.payload), r.image_width, r.image_height) == payload_columns(rec.payload@),
{
    let (payload, image_width, image_height) = encode_payload(&rec.payload);
    let mut content_type = String::new();
    push_str(&mut content_type, rec.payload.kind());
    assert(content_type@ =~= crate::model::payload_kind_key(rec.payload@));
    let mut confidence = String::new();
    push_str(&mut confidence, rec.source_confidence.as_str());
    assert(confidence@ =~= crate::events::source_confidence_key(rec.source_confidence));
    RecordRow {
        sequence: rec.sequence as i64,
        content_type,
        content: rec.payload.display_text(),
        content_hash: copy_str(&rec.content_hash),
        source_app: copy_str(&rec.source_app),
        source_pid: rec.source_pid as i64,
        source_window: copy_str(&rec.source_window),
        source_confidence: confidence,
        created_at_ms: rec.created_at_ms,
        pinned: if rec.pinned {
            1
        } else {
            0
        },
        payload,
        image_width,
        image_height,
    }
}

/// The rows stored for a record's pastes, in order.
pub fn paste_rows(rec: &ClipboardRecord) -> (r: Vec<PasteRow>)
    ensures
        r@.len() == rec.pastes@.len(),
        forall|i: int|
            0 <= i < r@.len() ==> {
                let row = #[trigger] r@[i];
                let p = rec.pastes@[i];
                &&& row.clipboard_record_id == rec.sequence as i64
                &&& row.target_app@ == p.target_app@
                &&& row.target_pid == p.target_pid as i64
                &&& row.target_window@ == p.target_window@
                &&& row.method@ == crate::events::paste_method_label(p.method)
                &&& row.confidence@ == "hotkey-observed"@
                &&& row.triggered_at_ms == p.triggered_at_ms
            },
{
    let mut out: Vec<PasteRow> = Vec::new();
    let mut i: usize = 0;
    while i < rec.pastes.len()
        invariant
            i <= rec.pastes@.len(),
            out@.len() == i,
            forall|j: int|
                0 <= j < i ==> {
                    let row = #[trigger] out@[j];
                    let p = rec.pastes@[j];
                    &&& row.clipboard_record_id == rec.sequence as i64
                    &&& row.target_app@ == p.target_app@
                    &&& row.target_pid == p.target_pid as i64
                    &&& row.target_window@ == p.target_window@
                    &&& row.method@ == crate::events::paste_method_label(p.method)
                    &&& row.confidence@ == "hotkey-observed"@
                    &&& row.triggered_at_ms == p.triggered_at_ms
                },
        decreases rec.pastes@.len() - i,
    {
        let p = &rec.pastes[i];
        let mut method = String::new();
        push_str(&mut method, p.method.label());
        assert(method@ =~= crate::events::paste_method_label(p.method));
        let mut confidence = String::new();
        push_str(&mut confidence, p.confidence.as_str());
        assert(confidence@ =~= "hotkey-observed"@);
        out.push(
            PasteRow {
                clipboard_record_id: rec.sequence as i64,
                target_app: copy_str(&p.target_app),
                target_pid: p.target_pid as i64,
                target_window: copy_str(&p.target_window),
                method,
                confidence,
                triggered_at_ms: p.triggered_at_ms,
            },
        );
        i += 1;
    }
    out
}

/// The paste a stored row describes.
pub fn decode_paste(row: &PasteRow) -> (r: PasteTriggerRecord)
    ensures
        r.target_app@ == row.target_app@,
        r.target_pid == row.target_pid as u32,
        r.target_window@ == row.target_window@,
        r.method == (if row.method@ == "Shift+Insert"@ {
            PasteMethod::ShiftInsert
        } else {
            PasteMethod::CtrlV
        }),
        r.confidence == PasteConfidence::HotkeyObserved,
        r.triggered_at_ms == row.triggered_at_ms,
{
    PasteTriggerRecord {
        target_app: copy_str(&row.target_app),
        target_pid: row.target_pid as u32,
        target_window: copy_str(&row.target_window),
        method: parse_method(row.method.as_str()),
        confidence: parse_paste_confidence(row.confidence.as_str()),
        triggered_at_ms: row.triggered_at_ms,
    }
}

/// The record a stored row describes (its pastes are attached separately).
/// The listed text is recomputed from the payload.
pub fn decode_record(row: RecordRow) -> (r: Result<ClipboardRecord, String>)
    ensures
        match (r, decode_payload_spec(
            row.content_type@,
            row.content@,
            blob_view(row.payload),
            row.image_width,
            row.image_height,
        )) {
            (Ok(rec), Ok(p)) => rec@ == (RecordModel {
                sequence: row.sequence as u32,
                content_type: row.content_type@,
                content: display_text_spec(p),
                payload: p,
                content_hash: row.content_hash@,
                source_app: row.source_app@,
                source_pid: row.source_pid as u32,
                source_window: row.source_window@,
                source_confidence: parse_confidence_spec(row.source_confidence@),
                created_at_ms: row.created_at_ms,
                pinned: row.pinned != 0,
                pastes: Seq::empty(),
            }),
            (Err(e), Err(expected)) => e@ == expected,
            _ => false,
        },
{
    let payload = match decode_payload(
        row.content_type.as_str(),
        row.content.as_str(),
        row.payload,
        row.image_width,
        row.image_height,
    ) {
        Ok(p) => p,
        Err(e) => return Err(e),
    };
    let content = payload.display_text();
    let confidence = parse_confidence(row.source_confidence.as_str());
    let rec = ClipboardRecord {
        sequence: row.sequence as u32,
        content_type: row.content_type,
        content,
        payload,
        content_hash: row.content_hash,
        source_app: row.source_app,
        source_pid: row.source_pid as u32,
        source_window: row.source_window,
        source_confidence: confidence,
        created_at_ms: row.created_at_ms,
        pinned: row.pinned != 0,
        pastes: Vec::new(),
    };
    assert(rec@.pastes =~= Seq::<crate::model::PasteModel>::empty());
    Ok(rec)
}

} // verus!
