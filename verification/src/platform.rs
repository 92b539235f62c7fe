//! Raw platform events and their enrichment into core events.
//!
//! The Win32 callbacks emit cheap raw events; names (executable, window
//! title) are looked up by the caller and handed in, and the payload is
//! normalized here.

use vstd::prelude::*;

use crate::events::{ClipboardChange, PasteMethod, PasteTrigger, SourceConfidence};
use crate::clipboard::{dib_to_png, dib_to_png_spec};
use crate::clipboard::{first_nul, from_utf16_lossy, utf16_lossy};
use crate::hotkey::Hotkey;
use crate::locate::file_name_spec;
use crate::text::{chars_of, decimal, push_decimal, push_str, string_of};
use crate::model::{payload_hash, payload_hash_spec, strings_view, ClipboardPayload, PayloadModel};

verus! {

/// Signal sent to the window owner by a second launch or a global hotkey.
#[derive(Debug, Clone, Copy, PartialEq, Eq, Structural)]
pub enum WindowSignal {
    Activate,
    Hotkey { visible: bool },
}

/// Clipboard bytes copied while the clipboard is open. Image DIBs are
/// normalized to the core's PNG payload after the clipboard lock is released.
#[derive(Debug, Clone, PartialEq, Eq)]
pub enum ClipboardPayloadRaw {
    Text(String),
    Files(Vec<String>),
    Dib { format: u32, bytes: Vec<u8> },
}

/// Cheap clipboard signal from the platform callback (names resolved later).
#[derive(Debug, Clone)]
pub struct ClipboardChangeRaw {
    pub sequence: u32,
    pub payload: ClipboardPayloadRaw,
    pub owner_hwnd: isize,
    pub source_pid: u32,
    pub source_confidence: SourceConfidence,
    pub timestamp_ms: i64,
}

/// Cheap paste signal from the keyboard hook (names resolved later).
#[derive(Debug, Clone)]
pub struct PasteTriggerRaw {
    pub target_hwnd: isize,
    pub target_pid: u32,
    pub method: PasteMethod,
    pub timestamp_ms: i64,
}

/// Paste trigger with the names the platform resolved for its target.
pub fn enrich_paste(raw: PasteTriggerRaw, target_exe: String, target_window: String) -> (r:
    PasteTrigger)
    ensures
        r.target_pid == raw.target_pid,
        r.target_exe@ == target_exe@,
        r.target_window@ == target_window@,
        r.method == raw.method,
        r.timestamp_ms == raw.timestamp_ms,
{
    PasteTrigger {
        target_pid: raw.target_pid,
        target_exe,
        target_window,
        method: raw.method,
        timestamp_ms: raw.timestamp_ms,
    }
}

/// The core payload a raw one becomes: text and files as they are, a DIB as
/// its PNG conversion (none when the DIB is refused).
pub open spec fn enriched_payload(raw: ClipboardPayloadRaw) -> Option<PayloadModel> {
    match raw {
        ClipboardPayloadRaw::Text(t) => Some(PayloadModel::Text(t@)),
        ClipboardPayloadRaw::Files(ps) => Some(PayloadModel::Files(strings_view(ps@))),
        ClipboardPayloadRaw::Dib { format, bytes } => match dib_to_png_spec(format, bytes@) {
            Some((png, width, height)) => Some(PayloadModel::Image { png, width, height }),
            None => None,
        },
    }
}

/// Clipboard change with the names the platform resolved for its source and
/// the payload normalized; `None` when an image cannot be converted.
pub fn enrich_clipboard(raw: ClipboardChangeRaw, source_exe: String, source_window: String) -> (r:
    Option<ClipboardChange>)
    ensures
        match enriched_payload(raw.payload) {
            None => r is None,
            Some(p) => r matches Some(c) && c.payload@ == p && c.content_hash@ == payload_hash_spec(p)
                && c.sequence == raw.sequence && c.source_pid == raw.source_pid && c.source_exe@
                == source_exe@ && c.source_window@ == source_window@ && c.source_confidence
                == raw.source_confidence && c.timestamp_ms == raw.timestamp_ms,
        },
{
    let payload = match raw.payload {
        ClipboardPayloadRaw::Text(text) => ClipboardPayload::Text(text),
        ClipboardPayloadRaw::Files(paths) => ClipboardPayload::Files(paths),
        ClipboardPayloadRaw::Dib { format, bytes } => match dib_to_png(format, bytes.as_slice()) {
            Some((png, width, height)) => ClipboardPayload::Image { png, width, height },
            None => return None,
        },
    };
    let content_hash = payload_hash(&payload);
    Some(
        ClipboardChange {
            sequence: raw.sequence,
            content_hash,
            payload,
            source_pid: raw.source_pid,
            source_exe,
            source_window,
            source_confidence: raw.source_confidence,
            timestamp_ms: raw.timestamp_ms,
        },
    )
}


// ----------------------------------------------------------------------------
// Events of the platform thread
// ----------------------------------------------------------------------------

/// What the platform thread reports to the worker and the window.
#[derive(Debug, Clone)]
pub enum PlatformEvent {
    ClipboardChange(ClipboardChangeRaw),
    ClipboardSkipped { sequence: u32 },
    PasteTrigger(PasteTriggerRaw),
    ToggleWindow { visible: bool },
    HotkeyStatus { requested: Hotkey, active: Hotkey, error: Option<String> },
}

/// A window seen by the platform: its handle and the process that owns it.
#[derive(Debug, Clone, Copy, PartialEq, Eq, Structural)]
pub struct WindowRef {
    pub hwnd: isize,
    pub pid: u32,
}

/// The source of a clipboard write, looked up before the clipboard is
/// opened: its owner is exact; failing that, the window that has the
/// clipboard open or the foreground window is only likely.
pub open spec fn source_of_spec(
    owner: Option<WindowRef>,
    open: Option<WindowRef>,
    foreground: Option<WindowRef>,
) -> (isize, u32, SourceConfidence) {
    match owner {
        Some(w) => (w.hwnd, w.pid, SourceConfidence::Exact),
        None => match open {
            Some(w) => (w.hwnd, w.pid, SourceConfidence::Likely),
            None => match foreground {
                Some(w) => (w.hwnd, w.pid, SourceConfidence::Likely),
                None => (0, 0, SourceConfidence::Unknown),
            },
        },
    }
}

pub fn resolve_source(owner: Option<WindowRef>, open: Option<WindowRef>, foreground: Option<
    WindowRef,
>) -> (r: (isize, u32, SourceConfidence))
    ensures
        r == source_of_spec(owner, open, foreground),
{
    match owner {
        Some(w) => (w.hwnd, w.pid, SourceConfidence::Exact),
        None => match open {
            Some(w) => (w.hwnd, w.pid, SourceConfidence::Likely),
            None => match foreground {
                Some(w) => (w.hwnd, w.pid, SourceConfidence::Likely),
                None => (0, 0, SourceConfidence::Unknown),
            },
        },
    }
}

/// The event for a clipboard update. `initial_sequence` and `source` were
/// observed before the clipboard was opened; `read` is the sequence and the
/// payload read once it was open (`None` when nothing could be read). When
/// another write came in between, its source is unknown.
pub fn clipboard_update_event(
    initial_sequence: u32,
    source: (isize, u32, SourceConfidence),
    read: Option<(u32, ClipboardPayloadRaw)>,
    timestamp_ms: i64,
) -> (r: PlatformEvent)
    ensures
        match read {
            None => r matches PlatformEvent::ClipboardSkipped { sequence } && sequence
                == initial_sequence,
            Some((sequence, payload)) => r matches PlatformEvent::ClipboardChange(c) && c.sequence
                == sequence && c.payload == payload && c.timestamp_ms == timestamp_ms && if sequence
                == initial_sequence {
                c.owner_hwnd == source.0 && c.source_pid == source.1 && c.source_confidence
                    == source.2
            } else {
                c.owner_hwnd == 0 && c.source_pid == 0 && c.source_confidence
                    == SourceConfidence::Unknown
            },
        },
{
    match read {
        None => PlatformEvent::ClipboardSkipped { sequence: initial_sequence },
        Some((sequence, payload)) => {
            let (owner_hwnd, source_pid, source_confidence) = if sequence != initial_sequence {
                (0, 0, SourceConfidence::Unknown)
            } else {
                source
            };
            PlatformEvent::ClipboardChange(
                ClipboardChangeRaw {
                    sequence,
                    payload,
                    owner_hwnd,
                    source_pid,
                    source_confidence,
                    timestamp_ms,
                },
            )
        },
    }
}

// ----------------------------------------------------------------------------
// The keyboard hook: paste shortcuts only
// ----------------------------------------------------------------------------

pub const WM_KEYDOWN: u32 = 0x0100;

pub const WM_KEYUP: u32 = 0x0101;

pub const WM_SYSKEYDOWN: u32 = 0x0104;

pub const WM_SYSKEYUP: u32 = 0x0105;

pub const VK_SHIFT: u32 = 0x10;

pub const VK_CONTROL: u32 = 0x11;

pub const VK_LSHIFT: u32 = 0xA0;

pub const VK_RSHIFT: u32 = 0xA1;

pub const VK_LCONTROL: u32 = 0xA2;

pub const VK_RCONTROL: u32 = 0xA3;

pub const VK_INSERT: u32 = 0x2D;

pub const VK_V: u32 = 0x56;

pub open spec fn is_shift_key(vk: u32) -> bool {
    vk == VK_SHIFT || vk == VK_LSHIFT || vk == VK_RSHIFT
}

pub open spec fn is_control_key(vk: u32) -> bool {
    vk == VK_CONTROL || vk == VK_LCONTROL || vk == VK_RCONTROL
}

/// Modifier state the keyboard hook keeps between key messages. No other
/// keystroke is remembered.
#[derive(Debug, Clone, Copy, PartialEq, Eq, Structural)]
pub struct PasteHook {
    pub ctrl_down: bool,
    pub shift_down: bool,
}

impl PasteHook {
    pub fn new() -> (r: PasteHook)
        ensures
            !r.ctrl_down && !r.shift_down,
    {
        PasteHook { ctrl_down: false, shift_down: false }
    }

    /// Takes a key message (`msg`, virtual key `vk`). `ctrl_async` and
    /// `shift_async` say whether the system reports those modifiers held,
    /// for presses whose modifier message came late. A paste is reported on
    /// the key-down of V with Ctrl, or of Insert with Shift, and on nothing
    /// else.
    pub fn on_key(&mut self, msg: u32, vk: u32, ctrl_async: bool, shift_async: bool) -> (r: Option<
        PasteMethod,
    >)
        ensures
            ({
                let is_down = msg == WM_KEYDOWN || msg == WM_SYSKEYDOWN;
                let is_up = msg == WM_KEYUP || msg == WM_SYSKEYUP;
                &&& final(self).shift_down == if (is_down || is_up) && is_shift_key(vk) {
                    is_down
                } else {
                    old(self).shift_down
                }
                &&& final(self).ctrl_down == if (is_down || is_up) && is_control_key(vk) {
                    is_down
                } else {
                    old(self).ctrl_down
                }
                &&& r is Some ==> is_down && (vk == VK_V || vk == VK_INSERT)
                &&& r == if is_down && vk == VK_V && (final(self).ctrl_down || ctrl_async) {
                    Some(PasteMethod::CtrlV)
                } else if is_down && vk == VK_INSERT && (final(self).shift_down || shift_async) {
                    Some(PasteMethod::ShiftInsert)
                } else {
                    None
                }
            }),
    {
        let is_down = msg == WM_KEYDOWN || msg == WM_SYSKEYDOWN;
        let is_up = msg == WM_KEYUP || msg == WM_SYSKEYUP;
        if !(is_down || is_up) {
            return None;
        }
        if vk == VK_SHIFT || vk == VK_LSHIFT || vk == VK_RSHIFT {
            self.shift_down = is_down;
        } else if vk == VK_CONTROL || vk == VK_LCONTROL || vk == VK_RCONTROL {
            self.ctrl_down = is_down;
        }
        if is_down {
            if vk == VK_V && (self.ctrl_down || ctrl_async) {
                return Some(PasteMethod::CtrlV);
            } else if vk == VK_INSERT && (self.shift_down || shift_async) {
                return Some(PasteMethod::ShiftInsert);
            }
        }
        None
    }
}

// ----------------------------------------------------------------------------
// Names of processes and windows
// ----------------------------------------------------------------------------

/// What asking the system for a process's image path gave.
pub enum ProcessImage {
    /// The process could not be opened.
    Inaccessible,
    /// The process was opened but its image path could not be read.
    QueryFailed,
    /// The full path of its executable.
    Path(String),
}

/// The executable name shown for a process: `unknown` for no process, the
/// file name of its image, or a note saying why it is not known.
pub open spec fn exe_display_name_spec(pid: u32, image: ProcessImage) -> Seq<char> {
    if pid == 0 {
        "unknown"@
    } else {
        match image {
            ProcessImage::Inaccessible => "pid:"@ + decimal(pid as nat) + "(inaccessible)"@,
            ProcessImage::QueryFailed => "pid:"@ + decimal(pid as nat) + "(query-failed)"@,
            ProcessImage::Path(p) => file_name_spec(p@),
        }
    }
}

pub fn exe_display_name(pid: u32, image: ProcessImage) -> (r: String)
    ensures
        r@ == exe_display_name_spec(pid, image),
{
    let mut s = String::new();
    if pid == 0 {
        push_str(&mut s, "unknown");
        assert(s@ =~= "unknown"@);
        return s;
    }
    match image {
        ProcessImage::Inaccessible => {
            push_str(&mut s, "pid:");
            push_decimal(&mut s, pid as u64);
            push_str(&mut s, "(inaccessible)");
            assert(s@ =~= "pid:"@ + decimal(pid as nat) + "(inaccessible)"@);
            s
        },
        ProcessImage::QueryFailed => {
            push_str(&mut s, "pid:");
            push_decimal(&mut s, pid as u64);
            push_str(&mut s, "(query-failed)");
            assert(s@ =~= "pid:"@ + decimal(pid as nat) + "(query-failed)"@);
            s
        },
        ProcessImage::Path(p) => {
            let cs = chars_of(p.as_str());
            let name = crate::locate::file_name_of(cs.as_slice());
            string_of(name.as_slice())
        },
    }
}

/// A window's title as read into a UTF-16 buffer: the units before the
/// first NUL (all of them without one), invalid ones replaced.
pub open spec fn title_spec(units: Seq<u16>) -> Seq<char> {
    match first_nul(units) {
        Some(n) => utf16_lossy(units.take(n)),
        None => utf16_lossy(units),
    }
}

pub fn window_title_text(units: &[u16]) -> (r: String)
    ensures
        r@ == title_spec(units@),
{
    let mut i: usize = 0;
    while i < units.len()
        invariant
            i <= units@.len(),
            forall|j: int| 0 <= j < i ==> units@[j] != 0,
        ensures
            i <= units@.len(),
            forall|j: int| 0 <= j < i ==> units@[j] != 0,
            i == units@.len() || units@[i as int] == 0,
        decreases units@.len() - i,
    {
        if units[i] == 0 {
            break;
        }
        i += 1;
    }
    proof {
        if i < units@.len() {
            assert(units@[i as int] == 0);
            let c = choose|k: int|
                0 <= k < units@.len() && units@[k] == 0 && forall|j: int| 0 <= j < k ==> units@[j] != 0;
            if c < i {
            } else if c > i {
                assert(units@[i as int] != 0);
            }
            assert(first_nul(units@) == Some(i as int));
        } else {
            assert(first_nul(units@) is None);
            assert(units@.take(i as int) =~= units@);
        }
    }
    let mut head: Vec<u16> = Vec::new();
    let mut k: usize = 0;
    while k < i
        invariant
            k <= i <= units@.len(),
            head@ == units@.take(k as int),
        decreases i - k,
    {
        assert(units@.take(k as int + 1) =~= units@.take(k as int).push(units@[k as int]));
        head.push(units[k]);
        k += 1;
    }
    from_utf16_lossy(head.as_slice())
}

} // verus!
