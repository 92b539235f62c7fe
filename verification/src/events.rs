//! Platform-facing event shapes, already enriched with names by the platform layer.

use vstd::prelude::*;

use crate::model::{ClipboardPayload, PayloadModel};
use crate::text::{chars_of, push_str};

verus! {

/// How the clipboard source window/process was learned.
#[derive(Debug, Clone, Copy, PartialEq, Eq, Structural)]
pub enum SourceConfidence {
    /// The clipboard owner window gave a real source.
    Exact,
    /// Owner unavailable; approximated via the open-clipboard or foreground window.
    Likely,
    /// Nothing usable to attribute.
    Unknown,
}

pub open spec fn source_confidence_key(c: SourceConfidence) -> Seq<char> {
    match c {
        SourceConfidence::Exact => "exact"@,
        SourceConfidence::Likely => "likely"@,
        SourceConfidence::Unknown => "unknown"@,
    }
}

pub open spec fn source_confidence_hint(c: SourceConfidence) -> Seq<char> {
    match c {
        SourceConfidence::Exact => ""@,
        SourceConfidence::Likely => "来源根据前台应用推断，剪贴板所有者不可用。"@,
        SourceConfidence::Unknown => "无法确定来源应用。"@,
    }
}

/// Display label of a source app: inference marks are added here, never stored in names.
pub open spec fn display_source_spec(c: SourceConfidence, app: Seq<char>) -> Seq<char> {
    match c {
        SourceConfidence::Exact => app,
        SourceConfidence::Likely => app + "（疑似）"@,
        SourceConfidence::Unknown => if app == "unknown"@ {
            "未知来源"@
        } else {
            app + "（不确定）"@
        },
    }
}

/// Exact equality of two character sequences.
pub fn chars_eq(a: &[char], b: &[char]) -> (r: bool)
    ensures
        r == (a@ == b@),
{
    if a.len() != b.len() {
        return false;
    }
    let mut i: usize = 0;
    while i < a.len()
        invariant
            a@.len() == b@.len(),
            i <= a@.len(),
            forall|k: int| 0 <= k < i ==> a@[k] == b@[k],
        decreases a@.len() - i,
    {
        if a[i] != b[i] {
            return false;
        }
        i += 1;
    }
    assert(a@ =~= b@);
    true
}

/// Exact equality of a string with a literal.
pub fn str_eq(a: &str, b: &str) -> (r: bool)
    ensures
        r == (a@ == b@),
{
    let x = chars_of(a);
    let y = chars_of(b);
    chars_eq(x.as_slice(), y.as_slice())
}

impl SourceConfidence {
    pub fn as_str(self) -> (r: &'static str)
        ensures
            r@ == source_confidence_key(self),
    {
        match self {
            SourceConfidence::Exact => "exact",
            SourceConfidence::Likely => "likely",
            SourceConfidence::Unknown => "unknown",
        }
    }

    /// Display label for a source app. Inference marks live here only.
    pub fn display_source(self, source_app: &str) -> (r: String)
        ensures
            r@ == display_source_spec(self, source_app@),
    {
        match self {
            SourceConfidence::Exact => {
                let mut s = String::new();
                push_str(&mut s, source_app);
                assert(Seq::<char>::empty() + source_app@ =~= source_app@);
                s
            },
            SourceConfidence::Likely => {
                let mut s = String::new();
                push_str(&mut s, source_app);
                push_str(&mut s, "（疑似）");
                assert(Seq::<char>::empty() + source_app@ =~= source_app@);
                s
            },
            SourceConfidence::Unknown => {
                if str_eq(source_app, "unknown") {
                    let mut s = String::new();
                    push_str(&mut s, "未知来源");
                    assert(Seq::<char>::empty() + "未知来源"@ =~= "未知来源"@);
                    s
                } else {
                    let mut s = String::new();
                    push_str(&mut s, source_app);
                    push_str(&mut s, "（不确定）");
                    assert(Seq::<char>::empty() + source_app@ =~= source_app@);
                    s
                }
            },
        }
    }

    /// User-facing explanation when attribution is not exact.
    pub fn hint(self) -> (r: &'static str)
        ensures
            r@ == source_confidence_hint(self),
    {
        match self {
            SourceConfidence::Exact => "",
            SourceConfidence::Likely => "来源根据前台应用推断，剪贴板所有者不可用。",
            SourceConfidence::Unknown => "无法确定来源应用。",
        }
    }
}

/// What a paste observation claims. Insertion into the target is never verified.
#[derive(Debug, Clone, Copy, PartialEq, Eq, Structural)]
pub enum PasteConfidence {
    /// Hotkey and foreground app observed; insertion not verified.
    HotkeyObserved,
}

impl PasteConfidence {
    pub fn as_str(self) -> (r: &'static str)
        ensures
            r@ == "hotkey-observed"@,
    {
        match self {
            PasteConfidence::HotkeyObserved => "hotkey-observed",
        }
    }

    pub fn detail_copy(self) -> (r: &'static str)
        ensures
            r@ == "检测到粘贴触发 — 未验证是否已插入目标应用"@,
    {
        match self {
            PasteConfidence::HotkeyObserved => "检测到粘贴触发 — 未验证是否已插入目标应用",
        }
    }
}

/// Paste shortcut that fired the trigger.
#[derive(Debug, Clone, Copy, PartialEq, Eq, Structural)]
pub enum PasteMethod {
    CtrlV,
    ShiftInsert,
}

pub open spec fn paste_method_label(m: PasteMethod) -> Seq<char> {
    match m {
        PasteMethod::CtrlV => "Ctrl+V"@,
        PasteMethod::ShiftInsert => "Shift+Insert"@,
    }
}

impl PasteMethod {
    pub fn label(self) -> (r: &'static str)
        ensures
            r@ == paste_method_label(self),
    {
        match self {
            PasteMethod::CtrlV => "Ctrl+V",
            PasteMethod::ShiftInsert => "Shift+Insert",
        }
    }
}

/// One supported clipboard payload, enriched by the platform layer.
#[derive(Debug, Clone, PartialEq, Eq)]
pub struct ClipboardChange {
    pub sequence: u32,
    pub payload: ClipboardPayload,
    pub content_hash: String,
    pub source_pid: u32,
    pub source_exe: String,
    pub source_window: String,
    pub source_confidence: SourceConfidence,
    /// Unix epoch milliseconds.
    pub timestamp_ms: i64,
}

pub struct ChangeModel {
    pub sequence: u32,
    pub payload: PayloadModel,
    pub content_hash: Seq<char>,
    pub source_pid: u32,
    pub source_exe: Seq<char>,
    pub source_window: Seq<char>,
    pub source_confidence: SourceConfidence,
    pub timestamp_ms: i64,
}

impl View for ClipboardChange {
    type V = ChangeModel;

    open spec fn view(&self) -> ChangeModel {
        ChangeModel {
            sequence: self.sequence,
            payload: self.payload@,
            content_hash: self.content_hash@,
            source_pid: self.source_pid,
            source_exe: self.source_exe@,
            source_window: self.source_window@,
            source_confidence: self.source_confidence,
            timestamp_ms: self.timestamp_ms,
        }
    }
}

/// Paste intent observed via the keyboard hook, not a verified insertion.
#[derive(Debug, Clone, PartialEq, Eq)]
pub struct PasteTrigger {
    pub target_pid: u32,
    pub target_exe: String,
    pub target_window: String,
    pub method: PasteMethod,
    /// Unix epoch milliseconds.
    pub timestamp_ms: i64,
}

pub struct TriggerModel {
    pub target_pid: u32,
    pub target_exe: Seq<char>,
    pub target_window: Seq<char>,
    pub method: PasteMethod,
    pub timestamp_ms: i64,
}

impl View for PasteTrigger {
    type V = TriggerModel;

    open spec fn view(&self) -> TriggerModel {
        TriggerModel {
            target_pid: self.target_pid,
            target_exe: self.target_exe@,
            target_window: self.target_window@,
            method: self.method,
            timestamp_ms: self.timestamp_ms,
        }
    }
}

/// Token for a clipboard write made by Veya itself (the user re-copied from the UI).
///
/// Only the matching write is suppressed. `expected_sequence: None` means the
/// next event with the same content hash; the token expires when a different
/// clipboard event arrives.
#[derive(Debug, Clone, PartialEq, Eq)]
pub struct InternalClipboardWrite {
    pub expected_sequence: Option<u32>,
    pub hash: String,
}

pub struct WriteModel {
    pub expected_sequence: Option<u32>,
    pub hash: Seq<char>,
}

impl View for InternalClipboardWrite {
    type V = WriteModel;

    open spec fn view(&self) -> WriteModel {
        WriteModel { expected_sequence: self.expected_sequence, hash: self.hash@ }
    }
}

} // verus!
