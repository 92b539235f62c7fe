//! The main window's own state and what each user action does to it.
//!
//! The toolkit draws the window and performs the returned effects (sending
//! worker commands, opening targets, hiding or closing the window); every
//! decision about the window's state is taken here.

use vstd::prelude::*;

use crate::capture::Retention;
use crate::history::CardView;
use crate::hotkey::{
    record_key_press, record_key_press_spec, Hotkey, KeyInput, KeyInputModel, KeyModifiers,
    RecordOutcome,
};
use crate::listing::kept_selection;
use crate::platform::WindowSignal;
use crate::shell::{link_target, open_link, open_source, search_url, web_search};
use crate::text::{chars_of, string_of, trim, trim_chars};
use crate::tray::{handled_by_worker, worker_command, TrayCmd};
use crate::ui::{Filter, ListDensity, Page, SortOrder, WindowAction};
use crate::update::{LATEST_RELEASE_URL, REPOSITORY_URL};
use crate::worker::{CmdModel, WorkerCmd};

verus! {

/// How long the "copied" mark stays, in ticks of the window's timer.
pub const COPIED_TICKS: u32 = 6;

/// The window's state that outlives a frame.
pub struct WindowState {
    pub page: Page,
    pub search: String,
    pub filter: Filter,
    pub pinned_only: bool,
    pub sort_order: SortOrder,
    pub list_density: ListDensity,
    pub selected: Option<u32>,
    pub detail_menu_open: bool,
    /// The card whose context menu is open.
    pub card_menu: Option<u32>,
    /// The card whose full content the modal shows.
    pub content_modal_for: Option<u32>,
    pub clear_history_confirmation_open: bool,
    pub show_qrcode: bool,
    pub hotkey_recording: bool,
    pub hotkey_record_error: Option<String>,
    pub exclude_input: String,
    pub copied_tick: u32,
    pub window_hidden: bool,
    pub tray_available: bool,
    pub expanded_raw: bool,
    pub retention: Retention,
}

pub struct WindowModel {
    pub page: Page,
    pub search: Seq<char>,
    pub filter: Filter,
    pub pinned_only: bool,
    pub sort_order: SortOrder,
    pub list_density: ListDensity,
    pub selected: Option<u32>,
    pub detail_menu_open: bool,
    pub card_menu: Option<u32>,
    pub content_modal_for: Option<u32>,
    pub clear_history_confirmation_open: bool,
    pub show_qrcode: bool,
    pub hotkey_recording: bool,
    pub hotkey_record_error: Option<Seq<char>>,
    pub exclude_input: Seq<char>,
    pub copied_tick: u32,
    pub window_hidden: bool,
    pub tray_available: bool,
    pub expanded_raw: bool,
    pub retention: Retention,
}

pub open spec fn opt_text(e: Option<String>) -> Option<Seq<char>> {
    match e {
        Some(x) => Some(x@),
        None => None,
    }
}

impl View for WindowState {
    type V = WindowModel;

    open spec fn view(&self) -> WindowModel {
        WindowModel {
            page: self.page,
            search: self.search@,
            filter: self.filter,
            pinned_only: self.pinned_only,
            sort_order: self.sort_order,
            list_density: self.list_density,
            selected: self.selected,
            detail_menu_open: self.detail_menu_open,
            card_menu: self.card_menu,
            content_modal_for: self.content_modal_for,
            clear_history_confirmation_open: self.clear_history_confirmation_open,
            show_qrcode: self.show_qrcode,
            hotkey_recording: self.hotkey_recording,
            hotkey_record_error: opt_text(self.hotkey_record_error),
            exclude_input: self.exclude_input@,
            copied_tick: self.copied_tick,
            window_hidden: self.window_hidden,
            tray_available: self.tray_available,
            expanded_raw: self.expanded_raw,
            retention: self.retention,
        }
    }
}

/// A user action on the window.
pub enum WindowEvent {
    SearchChanged(String),
    Select(u32),
    OpenCardMenu(u32),
    CloseCardMenu,
    RecopySelected,
    Copy(u32),
    CopyPlainText(u32),
    Delete(Vec<u32>),
    ExcludeSource(String),
    Unexclude(String),
    ExcludeInput(String),
    ExcludeSubmit,
    SetRetention(Retention),
    ToggleTracking,
    RequestClearHistory,
    ConfirmClearHistory,
    CancelClearHistory,
    GoPage(Page),
    ToggleRaw,
    ToggleDetailMenu,
    SetPinned { sequences: Vec<u32>, pinned: bool },
    OpenContentModal(u32),
    CloseContentModal,
    OpenSource(String),
    OpenLink(String),
    WebSearch(String),
    ToggleQrCode,
    SetFilter(Filter),
    TogglePinnedOnly,
    SetSortOrder(SortOrder),
    ToggleListDensity,
    WindowMinimize,
    WindowClose,
    SetHotkey(Hotkey),
    StartHotkeyRecord,
    /// Whether the shortcut service accepted to release the shortcut for recording.
    HotkeyRecordingReady(bool),
    CancelHotkeyRecord,
    RecordHotkeyKey { key: KeyInput, physical_digit: Option<u8>, modifiers: KeyModifiers },
    /// A shortcut could not be handed to the worker.
    HotkeyServiceStopped,
    FocusSearch,
    ClearSearch,
    CheckUpdate,
    DownloadUpdate,
    OpenReleases,
    OpenRepository,
}

pub enum EventModel {
    SearchChanged(Seq<char>),
    Select(u32),
    OpenCardMenu(u32),
    CloseCardMenu,
    RecopySelected,
    Copy(u32),
    CopyPlainText(u32),
    Delete(Seq<u32>),
    ExcludeSource(Seq<char>),
    Unexclude(Seq<char>),
    ExcludeInput(Seq<char>),
    ExcludeSubmit,
    SetRetention(Retention),
    ToggleTracking,
    RequestClearHistory,
    ConfirmClearHistory,
    CancelClearHistory,
    GoPage(Page),
    ToggleRaw,
    ToggleDetailMenu,
    SetPinned { sequences: Seq<u32>, pinned: bool },
    OpenContentModal(u32),
    CloseContentModal,
    OpenSource(Seq<char>),
    OpenLink(Seq<char>),
    WebSearch(Seq<char>),
    ToggleQrCode,
    SetFilter(Filter),
    TogglePinnedOnly,
    SetSortOrder(SortOrder),
    ToggleListDensity,
    WindowMinimize,
    WindowClose,
    SetHotkey(Hotkey),
    StartHotkeyRecord,
    HotkeyRecordingReady(bool),
    CancelHotkeyRecord,
    RecordHotkeyKey { key: KeyInputModel, physical_digit: Option<u8>, modifiers: KeyModifiers },
    HotkeyServiceStopped,
    FocusSearch,
    ClearSearch,
    CheckUpdate,
    DownloadUpdate,
    OpenReleases,
    OpenRepository,
}

impl View for WindowEvent {
    type V = EventModel;

    open spec fn view(&self) -> EventModel {
        match self {
            WindowEvent::SearchChanged(q) => EventModel::SearchChanged(q@),
            WindowEvent::Select(s) => EventModel::Select(*s),
            WindowEvent::OpenCardMenu(s) => EventModel::OpenCardMenu(*s),
            WindowEvent::CloseCardMenu => EventModel::CloseCardMenu,
            WindowEvent::RecopySelected => EventModel::RecopySelected,
            WindowEvent::Copy(s) => EventModel::Copy(*s),
            WindowEvent::CopyPlainText(s) => EventModel::CopyPlainText(*s),
            WindowEvent::Delete(v) => EventModel::Delete(v@),
            WindowEvent::ExcludeSource(e) => EventModel::ExcludeSource(e@),
            WindowEvent::Unexclude(e) => EventModel::Unexclude(e@),
            WindowEvent::ExcludeInput(e) => EventModel::ExcludeInput(e@),
            WindowEvent::ExcludeSubmit => EventModel::ExcludeSubmit,
            WindowEvent::SetRetention(r) => EventModel::SetRetention(*r),
            WindowEvent::ToggleTracking => EventModel::ToggleTracking,
            WindowEvent::RequestClearHistory => EventModel::RequestClearHistory,
            WindowEvent::ConfirmClearHistory => EventModel::ConfirmClearHistory,
            WindowEvent::CancelClearHistory => EventModel::CancelClearHistory,
            WindowEvent::GoPage(p) => EventModel::GoPage(*p),
            WindowEvent::ToggleRaw => EventModel::ToggleRaw,
            WindowEvent::ToggleDetailMenu => EventModel::ToggleDetailMenu,
            WindowEvent::SetPinned { sequences, pinned } => EventModel::SetPinned {
                sequences: sequences@,
                pinned: *pinned,
            },
            WindowEvent::OpenContentModal(s) => EventModel::OpenContentModal(*s),
            WindowEvent::CloseContentModal => EventModel::CloseContentModal,
            WindowEvent::OpenSource(a) => EventModel::OpenSource(a@),
            WindowEvent::OpenLink(u) => EventModel::OpenLink(u@),
            WindowEvent::WebSearch(q) => EventModel::WebSearch(q@),
            WindowEvent::ToggleQrCode => EventModel::ToggleQrCode,
            WindowEvent::SetFilter(f) => EventModel::SetFilter(*f),
            WindowEvent::TogglePinnedOnly => EventModel::TogglePinnedOnly,
            WindowEvent::SetSortOrder(o) => EventModel::SetSortOrder(*o),
            WindowEvent::ToggleListDensity => EventModel::ToggleListDensity,
            WindowEvent::WindowMinimize => EventModel::WindowMinimize,
            WindowEvent::WindowClose => EventModel::WindowClose,
            WindowEvent::SetHotkey(h) => EventModel::SetHotkey(*h),
            WindowEvent::StartHotkeyRecord => EventModel::StartHotkeyRecord,
            WindowEvent::HotkeyRecordingReady(ok) => EventModel::HotkeyRecordingReady(*ok),
            WindowEvent::CancelHotkeyRecord => EventModel::CancelHotkeyRecord,
            WindowEvent::RecordHotkeyKey { key, physical_digit, modifiers } => EventModel::RecordHotkeyKey {
                key: key@,
                physical_digit: *physical_digit,
                modifiers: *modifiers,
            },
            WindowEvent::HotkeyServiceStopped => EventModel::HotkeyServiceStopped,
            WindowEvent::FocusSearch => EventModel::FocusSearch,
            WindowEvent::ClearSearch => EventModel::ClearSearch,
            WindowEvent::CheckUpdate => EventModel::CheckUpdate,
            WindowEvent::DownloadUpdate => EventModel::DownloadUpdate,
            WindowEvent::OpenReleases => EventModel::OpenReleases,
            WindowEvent::OpenRepository => EventModel::OpenRepository,
        }
    }
}

/// What the toolkit has to do after an action.
pub enum WindowEffect {
    /// Send a command to the capture worker (a failed send is ignored).
    Send(WorkerCmd),
    /// Send a new shortcut to the worker; report `HotkeyServiceStopped` if that fails.
    SendHotkey(Hotkey),
    /// Flip recording through the tracking control.
    ToggleTracking,
    /// Hand a target to the shell's "open" verb.
    Open(String),
    StartUpdateCheck,
    DownloadUpdate,
    ShowWindow,
    HideWindow,
    MinimizeWindow,
    /// Stop the platform thread and close the window.
    Quit,
    /// Ask the shortcut service to release (`true`) or restore (`false`) the
    /// shortcut; for `true`, report `HotkeyRecordingReady`.
    HotkeyRecording(bool),
    FocusSearch,
    ScrollToTop,
    /// Tell the worker's snapshot which card is selected.
    ShareSelection(u32),
    /// Look up the selected card's source executable for its icon.
    CacheSourcePath,
    /// Compute the shown cards again and call `reselect`.
    RefreshSelection,
}

pub enum EffectModel {
    Send(CmdModel),
    SendHotkey(Hotkey),
    ToggleTracking,
    Open(Seq<char>),
    StartUpdateCheck,
    DownloadUpdate,
    ShowWindow,
    HideWindow,
    MinimizeWindow,
    Quit,
    HotkeyRecording(bool),
    FocusSearch,
    ScrollToTop,
    ShareSelection(u32),
    CacheSourcePath,
    RefreshSelection,
}

impl View for WindowEffect {
    type V = EffectModel;

    open spec fn view(&self) -> EffectModel {
        match self {
            WindowEffect::Send(c) => EffectModel::Send(c@),
            WindowEffect::SendHotkey(h) => EffectModel::SendHotkey(*h),
            WindowEffect::ToggleTracking => EffectModel::ToggleTracking,
            WindowEffect::Open(t) => EffectModel::Open(t@),
            WindowEffect::StartUpdateCheck => EffectModel::StartUpdateCheck,
            WindowEffect::DownloadUpdate => EffectModel::DownloadUpdate,
            WindowEffect::ShowWindow => EffectModel::ShowWindow,
            WindowEffect::HideWindow => EffectModel::HideWindow,
            WindowEffect::MinimizeWindow => EffectModel::MinimizeWindow,
            WindowEffect::Quit => EffectModel::Quit,
            WindowEffect::HotkeyRecording(on) => EffectModel::HotkeyRecording(*on),
            WindowEffect::FocusSearch => EffectModel::FocusSearch,
            WindowEffect::ScrollToTop => EffectModel::ScrollToTop,
            WindowEffect::ShareSelection(s) => EffectModel::ShareSelection(*s),
            WindowEffect::CacheSourcePath => EffectModel::CacheSourcePath,
            WindowEffect::RefreshSelection => EffectModel::RefreshSelection,
        }
    }
}

pub open spec fn effects_view(v: Seq<WindowEffect>) -> Seq<EffectModel> {
    v.map_values(|e: WindowEffect| e@)
}

/// The sequence and full text of each card the window holds.
pub open spec fn cards_text(cards: Seq<CardView>) -> Seq<(u32, Seq<char>)> {
    cards.map_values(|c: CardView| (c.sequence, c.full_content@))
}

pub open spec fn has_card(cards: Seq<(u32, Seq<char>)>, seq: u32) -> bool {
    exists|i: int| 0 <= i < cards.len() && (#[trigger] cards[i]).0 == seq
}

/// The text of the first card with sequence `seq`.
pub open spec fn card_text(cards: Seq<(u32, Seq<char>)>, seq: u32) -> Option<Seq<char>>
    decreases cards.len(),
{
    if cards.len() == 0 {
        None
    } else if cards[0].0 == seq {
        Some(cards[0].1)
    } else {
        card_text(cards.drop_first(), seq)
    }
}

pub open spec fn opt_open(t: Option<Seq<char>>) -> Seq<EffectModel> {
    match t {
        Some(x) => seq![EffectModel::Open(x)],
        None => Seq::empty(),
    }
}

/// Ending a shortcut recording: the shortcut service restores the shortcut
/// if one was being recorded; any recording error is dismissed.
pub open spec fn cancel_recording(s: WindowModel) -> (WindowModel, Seq<EffectModel>) {
    (
        WindowModel { hotkey_recording: false, hotkey_record_error: None, ..s },
        if s.hotkey_recording {
            seq![EffectModel::HotkeyRecording(false)]
        } else {
            Seq::empty()
        },
    )
}

/// Selecting a card closes its menus, modal and QR code.
pub open spec fn select(s: WindowModel, seq: u32) -> WindowModel {
    WindowModel {
        selected: Some(seq),
        detail_menu_open: false,
        content_modal_for: None,
        show_qrcode: false,
        ..s
    }
}

pub open spec fn select_effects(seq: u32) -> Seq<EffectModel> {
    seq![EffectModel::ShareSelection(seq), EffectModel::CacheSourcePath]
}

pub open spec fn recording_hint() -> Seq<char> {
    "请按 Ctrl 或 Alt + 字母、数字、Space 或 F1–F11；Esc 取消"@
}

/// What an action does, once an open card menu was closed by it (every
/// action but opening a card menu closes it).
#[verifier::opaque]
pub open spec fn act(s: WindowModel, cards: Seq<(u32, Seq<char>)>, e: EventModel, menu_was_open: bool) -> (
    WindowModel,
    Seq<EffectModel>,
) {
    match e {
        EventModel::SearchChanged(q) => (
            WindowModel { search: q, ..s },
            seq![EffectModel::RefreshSelection],
        ),
        EventModel::Select(seq) => (select(s, seq), select_effects(seq)),
        EventModel::OpenCardMenu(seq) => if has_card(cards, seq) {
            (WindowModel { card_menu: Some(seq), ..select(s, seq) }, select_effects(seq))
        } else {
            (s, Seq::empty())
        },
        EventModel::CloseCardMenu => (s, Seq::empty()),
        EventModel::RecopySelected => match s.selected {
            Some(seq) => if has_card(cards, seq) {
                (
                    WindowModel { copied_tick: COPIED_TICKS, ..s },
                    seq![EffectModel::Send(CmdModel::Recopy { sequence: seq })],
                )
            } else {
                (s, Seq::empty())
            },
            None => (s, Seq::empty()),
        },
        EventModel::Copy(seq) => if has_card(cards, seq) {
            (
                WindowModel { copied_tick: COPIED_TICKS, ..s },
                seq![EffectModel::Send(CmdModel::Recopy { sequence: seq })],
            )
        } else {
            (s, Seq::empty())
        },
        EventModel::CopyPlainText(seq) => match card_text(cards, seq) {
            Some(text) => (
                WindowModel { copied_tick: COPIED_TICKS, ..s },
                seq![EffectModel::Send(CmdModel::RecopyText { text })],
            ),
            None => (s, Seq::empty()),
        },
        EventModel::Delete(sequences) => (
            s,
            seq![EffectModel::Send(CmdModel::DeleteRecord { sequences })],
        ),
        EventModel::ExcludeSource(exe) => (s, seq![EffectModel::Send(CmdModel::ExcludeApp { exe })]),
        EventModel::Unexclude(exe) => (s, seq![EffectModel::Send(CmdModel::UnexcludeApp { exe })]),
        EventModel::ExcludeInput(v) => (WindowModel { exclude_input: v, ..s }, Seq::empty()),
        EventModel::ExcludeSubmit => if trim(s.exclude_input).len() > 0 {
            (
                WindowModel { exclude_input: Seq::empty(), ..s },
                seq![EffectModel::Send(CmdModel::ExcludeApp { exe: trim(s.exclude_input) })],
            )
        } else {
            (s, Seq::empty())
        },
        EventModel::SetRetention(r) => (
            WindowModel { retention: r, ..s },
            seq![EffectModel::Send(CmdModel::SetRetention(r))],
        ),
        EventModel::ToggleTracking => (s, seq![EffectModel::ToggleTracking]),
        EventModel::RequestClearHistory => (
            WindowModel { clear_history_confirmation_open: true, ..s },
            Seq::empty(),
        ),
        EventModel::ConfirmClearHistory => (
            WindowModel { clear_history_confirmation_open: false, ..s },
            seq![EffectModel::Send(CmdModel::ClearHistory)],
        ),
        EventModel::CancelClearHistory => (
            WindowModel { clear_history_confirmation_open: false, ..s },
            Seq::empty(),
        ),
        EventModel::GoPage(p) => {
            let (c, fx) = cancel_recording(s);
            (WindowModel { page: p, content_modal_for: None, ..c }, fx)
        },
        EventModel::ToggleRaw => (
            WindowModel { expanded_raw: !s.expanded_raw, ..s },
            seq![EffectModel::Send(CmdModel::SetExpandedRaw(!s.expanded_raw))],
        ),
        EventModel::ToggleDetailMenu => (
            WindowModel { detail_menu_open: !s.detail_menu_open, ..s },
            Seq::empty(),
        ),
        EventModel::SetPinned { sequences, pinned } => (
            WindowModel { detail_menu_open: false, ..s },
            seq![EffectModel::Send(CmdModel::SetPinned { sequences, pinned })],
        ),
        EventModel::OpenContentModal(seq) => if has_card(cards, seq) {
            (WindowModel { content_modal_for: Some(seq), ..s }, Seq::empty())
        } else {
            (s, Seq::empty())
        },
        EventModel::CloseContentModal => (WindowModel { content_modal_for: None, ..s }, Seq::empty()),
        EventModel::OpenSource(app) => (
            s,
            opt_open(
                if trim(app).len() > 0 {
                    Some(trim(app))
                } else {
                    None
                },
            ),
        ),
        EventModel::OpenLink(url) => (s, opt_open(link_target(url))),
        EventModel::WebSearch(q) => (s, opt_open(link_target(search_url(q)))),
        EventModel::ToggleQrCode => (WindowModel { show_qrcode: !s.show_qrcode, ..s }, Seq::empty()),
        EventModel::SetFilter(f) => (
            WindowModel { filter: f, ..s },
            seq![EffectModel::RefreshSelection],
        ),
        EventModel::TogglePinnedOnly => (
            WindowModel { pinned_only: !s.pinned_only, ..s },
            seq![EffectModel::RefreshSelection],
        ),
        EventModel::SetSortOrder(o) => (
            WindowModel { sort_order: o, ..s },
            seq![EffectModel::RefreshSelection, EffectModel::ScrollToTop],
        ),
        EventModel::ToggleListDensity => (
            WindowModel {
                list_density: match s.list_density {
                    ListDensity::Detailed => ListDensity::Compact,
                    ListDensity::Compact => ListDensity::Detailed,
                },
                ..s
            },
            Seq::empty(),
        ),
        EventModel::WindowMinimize => {
            let (c, fx) = cancel_recording(s);
            (WindowModel { window_hidden: false, ..c }, fx.push(EffectModel::MinimizeWindow))
        },
        EventModel::WindowClose => {
            let (c, fx) = cancel_recording(s);
            if s.tray_available {
                (WindowModel { window_hidden: true, ..c }, fx.push(EffectModel::HideWindow))
            } else {
                (
                    c,
                    fx + seq![
                        EffectModel::Send(CmdModel::SetTracking { on: false, request_id: None }),
                        EffectModel::Quit,
                    ],
                )
            }
        },
        EventModel::SetHotkey(h) => (
            WindowModel { hotkey_recording: false, hotkey_record_error: None, ..s },
            seq![EffectModel::SendHotkey(h)],
        ),
        EventModel::StartHotkeyRecord => (s, seq![EffectModel::HotkeyRecording(true)]),
        EventModel::HotkeyRecordingReady(ok) => if ok {
            (WindowModel { hotkey_recording: true, hotkey_record_error: None, ..s }, Seq::empty())
        } else {
            (
                WindowModel { hotkey_record_error: Some("快捷键服务尚未就绪，请稍后重试"@), ..s },
                Seq::empty(),
            )
        },
        EventModel::CancelHotkeyRecord => cancel_recording(s),
        EventModel::RecordHotkeyKey { key, physical_digit, modifiers } => if !s.hotkey_recording {
            (s, Seq::empty())
        } else {
            match record_key_press_spec(key, physical_digit, modifiers) {
                RecordOutcome::Cancel => cancel_recording(s),
                RecordOutcome::Ignore => (s, Seq::empty()),
                RecordOutcome::Record(h) => (
                    WindowModel { hotkey_recording: false, hotkey_record_error: None, ..s },
                    seq![EffectModel::SendHotkey(h)],
                ),
                RecordOutcome::Reject => (
                    WindowModel { hotkey_record_error: Some(recording_hint()), ..s },
                    Seq::empty(),
                ),
            }
        },
        EventModel::HotkeyServiceStopped => (
            WindowModel { hotkey_record_error: Some("快捷键服务已停止，请重启 Veya"@), ..s },
            seq![EffectModel::HotkeyRecording(false)],
        ),
        EventModel::FocusSearch => if s.content_modal_for is Some
            || s.clear_history_confirmation_open {
            (s, Seq::empty())
        } else {
            (WindowModel { page: Page::History, ..s }, seq![EffectModel::FocusSearch])
        },
        EventModel::ClearSearch => if s.clear_history_confirmation_open {
            (WindowModel { clear_history_confirmation_open: false, ..s }, Seq::empty())
        } else if s.content_modal_for is Some {
            (WindowModel { content_modal_for: None, ..s }, Seq::empty())
        } else if menu_was_open {
            (s, Seq::empty())
        } else if s.search.len() > 0 {
            (WindowModel { search: Seq::empty(), ..s }, seq![EffectModel::RefreshSelection])
        } else {
            (WindowModel { page: Page::History, ..s }, Seq::empty())
        },
        EventModel::CheckUpdate => (s, seq![EffectModel::StartUpdateCheck]),
        EventModel::DownloadUpdate => (s, seq![EffectModel::DownloadUpdate]),
        EventModel::OpenReleases => (s, opt_open(link_target(LATEST_RELEASE_URL@))),
        EventModel::OpenRepository => (s, opt_open(link_target(REPOSITORY_URL@))),
    }
}

/// One user action: an open card menu closes first, unless the action
/// opens a card menu itself.
pub open spec fn window_step(s: WindowModel, cards: Seq<(u32, Seq<char>)>, e: EventModel) -> (
    WindowModel,
    Seq<EffectModel>,
) {
    let menu_was_open = s.card_menu is Some;
    let s1 = if e is OpenCardMenu {
        s
    } else {
        WindowModel { card_menu: None, ..s }
    };
    act(s1, cards, e, menu_was_open)
}

fn text(s: &str) -> (r: String)
    ensures
        r@ == s@,
{
    let mut t = String::new();
    crate::text::push_str(&mut t, s);
    assert(t@ =~= s@);
    t
}

fn find_card(cards: &[CardView], seq: u32) -> (r: Option<usize>)
    ensures
        match r {
            Some(i) => i < cards@.len() && cards@[i as int].sequence == seq && card_text(
                cards_text(cards@),
                seq,
            ) == Some(cards@[i as int].full_content@),
            None => !has_card(cards_text(cards@), seq) && card_text(cards_text(cards@), seq) is None,
        },
{
    let ghost ct = cards_text(cards@);
    let mut i: usize = 0;
    assert(ct.skip(0) =~= ct);
    while i < cards.len()
        invariant
            i <= cards@.len(),
            ct == cards_text(cards@),
            ct.len() == cards@.len(),
            forall|k: int| 0 <= k < i ==> (#[trigger] ct[k]).0 != seq,
            card_text(ct, seq) == card_text(ct.skip(i as int), seq),
        decreases cards@.len() - i,
    {
        assert(ct.skip(i as int).drop_first() =~= ct.skip(i as int + 1));
        assert(ct[i as int] == (cards@[i as int].sequence, cards@[i as int].full_content@));
        if cards[i].sequence == seq {
            return Some(i);
        }
        i += 1;
    }
    assert(ct.skip(i as int) =~= Seq::<(u32, Seq<char>)>::empty());
    None
}

fn single(e: WindowEffect) -> (r: Vec<WindowEffect>)
    ensures
        effects_view(r@) == seq![e@],
{
    let mut v: Vec<WindowEffect> = Vec::new();
    v.push(e);
    assert(effects_view(v@) =~= seq![e@]);
    v
}

fn none() -> (r: Vec<WindowEffect>)
    ensures
        effects_view(r@) == Seq::<EffectModel>::empty(),
{
    let v: Vec<WindowEffect> = Vec::new();
    assert(effects_view(v@) =~= Seq::<EffectModel>::empty());
    v
}

fn opened(t: Option<String>) -> (r: Vec<WindowEffect>)
    ensures
        effects_view(r@) == opt_open(
            match t {
                Some(x) => Some(x@),
                None => None,
            },
        ),
{
    match t {
        Some(x) => single(WindowEffect::Open(x)),
        None => none(),
    }
}

impl WindowState {
    /// The window as it opens: the history page, nothing selected.
    pub fn new(tray_available: bool) -> (r: WindowState)
        ensures
            r@.page == Page::History && r@.search.len() == 0 && r@.filter == Filter::All
                && !r@.pinned_only && r@.sort_order == SortOrder::Newest && r@.list_density
                == ListDensity::Detailed && r@.selected is None && !r@.detail_menu_open
                && r@.card_menu is None && r@.content_modal_for is None
                && !r@.clear_history_confirmation_open && !r@.show_qrcode && !r@.hotkey_recording
                && r@.hotkey_record_error is None && r@.exclude_input.len() == 0 && r@.copied_tick
                == 0 && !r@.window_hidden && r@.tray_available == tray_available && !r@.expanded_raw
                && r@.retention == Retention::Day30,
    {
        WindowState {
            page: Page::History,
            search: String::new(),
            filter: Filter::All,
            pinned_only: false,
            sort_order: SortOrder::Newest,
            list_density: ListDensity::Detailed,
            selected: None,
            detail_menu_open: false,
            card_menu: None,
            content_modal_for: None,
            clear_history_confirmation_open: false,
            show_qrcode: false,
            hotkey_recording: false,
            hotkey_record_error: None,
            exclude_input: String::new(),
            copied_tick: 0,
            window_hidden: false,
            tray_available,
            expanded_raw: false,
            retention: Retention::Day30,
        }
    }

    fn cancel_recording(&mut self) -> (r: Vec<WindowEffect>)
        ensures
            (final(self)@, effects_view(r@)) == cancel_recording(old(self)@),
    {
        let mut fx = none();
        if self.hotkey_recording {
            self.hotkey_recording = false;
            fx = single(WindowEffect::HotkeyRecording(false));
        }
        self.hotkey_record_error = None;
        fx
    }

    fn select(&mut self, seq: u32)
        ensures
            final(self)@ == select(old(self)@, seq),
    {
        self.selected = Some(seq);
        self.detail_menu_open = false;
        self.content_modal_for = None;
        self.show_qrcode = false;
    }

    fn select_effects(seq: u32) -> (r: Vec<WindowEffect>)
        ensures
            effects_view(r@) == select_effects(seq),
    {
        let mut v: Vec<WindowEffect> = Vec::new();
        v.push(WindowEffect::ShareSelection(seq));
        v.push(WindowEffect::CacheSourcePath);
        assert(effects_view(v@) =~= select_effects(seq));
        v
    }

    /// Carries out a user action on the window holding `cards`.
    #[verifier::rlimit(40)]
    pub fn update(&mut self, cards: &[CardView], event: WindowEvent) -> (r: Vec<WindowEffect>)
        ensures
            (final(self)@, effects_view(r@)) == window_step(old(self)@, cards_text(cards@), event@),
    {
        let ghost ev = event@;
        let menu_was_open = self.card_menu.is_some();
        match &event {
            WindowEvent::OpenCardMenu(_) => {},
            _ => {
                self.card_menu = None;
            },
        }
        let ghost s1 = self@;
        assert(s1 == if ev is OpenCardMenu {
            old(self)@
        } else {
            WindowModel { card_menu: None, ..old(self)@ }
        });
        self.act(cards, event, menu_was_open)
    }

    fn act(&mut self, cards: &[CardView], event: WindowEvent, menu_was_open: bool) -> (r: Vec<
        WindowEffect,
    >)
        ensures
            (final(self)@, effects_view(r@)) == act(
                old(self)@,
                cards_text(cards@),
                event@,
                menu_was_open,
            ),
    {
        match &event {
            WindowEvent::SearchChanged(..) => self.on_search_changed(cards, event, menu_was_open),
            WindowEvent::Select(..) => self.on_select(cards, event, menu_was_open),
            WindowEvent::OpenCardMenu(..) => self.on_open_card_menu(cards, event, menu_was_open),
            WindowEvent::CloseCardMenu => self.on_close_card_menu(cards, event, menu_was_open),
            WindowEvent::RecopySelected => self.on_recopy_selected(cards, event, menu_was_open),
            WindowEvent::Copy(..) => self.on_copy(cards, event, menu_was_open),
            WindowEvent::CopyPlainText(..) => self.on_copy_plain_text(cards, event, menu_was_open),
            WindowEvent::Delete(..) => self.on_delete(cards, event, menu_was_open),
            WindowEvent::ExcludeSource(..) => self.on_exclude_source(cards, event, menu_was_open),
            WindowEvent::Unexclude(..) => self.on_unexclude(cards, event, menu_was_open),
            WindowEvent::ExcludeInput(..) => self.on_exclude_input(cards, event, menu_was_open),
            WindowEvent::ExcludeSubmit => self.on_exclude_submit(cards, event, menu_was_open),
            WindowEvent::SetRetention(..) => self.on_set_retention(cards, event, menu_was_open),
            WindowEvent::ToggleTracking => self.on_toggle_tracking(cards, event, menu_was_open),
            WindowEvent::RequestClearHistory => self.on_request_clear_history(cards, event, menu_was_open),
            WindowEvent::ConfirmClearHistory => self.on_confirm_clear_history(cards, event, menu_was_open),
            WindowEvent::CancelClearHistory => self.on_cancel_clear_history(cards, event, menu_was_open),
            WindowEvent::GoPage(..) => self.on_go_page(cards, event, menu_was_open),
            WindowEvent::ToggleRaw => self.on_toggle_raw(cards, event, menu_was_open),
            WindowEvent::ToggleDetailMenu => self.on_toggle_detail_menu(cards, event, menu_was_open),
            WindowEvent::SetPinned { .. } => self.on_set_pinned(cards, event, menu_was_open),
            WindowEvent::OpenContentModal(..) => self.on_open_content_modal(cards, event, menu_was_open),
            WindowEvent::CloseContentModal => self.on_close_content_modal(cards, event, menu_was_open),
            WindowEvent::OpenSource(..) => self.on_open_source(cards, event, menu_was_open),
            WindowEvent::OpenLink(..) => self.on_open_link(cards, event, menu_was_open),
            WindowEvent::WebSearch(..) => self.on_web_search(cards, event, menu_was_open),
            WindowEvent::ToggleQrCode => self.on_toggle_qr_code(cards, event, menu_was_open),
            WindowEvent::SetFilter(..) => self.on_set_filter(cards, event, menu_was_open),
            WindowEvent::TogglePinnedOnly => self.on_toggle_pinned_only(cards, event, menu_was_open),
            WindowEvent::SetSortOrder(..) => self.on_set_sort_order(cards, event, menu_was_open),
            WindowEvent::ToggleListDensity => self.on_toggle_list_density(cards, event, menu_was_open),
            WindowEvent::WindowMinimize => self.on_window_minimize(cards, event, menu_was_open),
            WindowEvent::WindowClose => self.on_window_close(cards, event, menu_was_open),
            WindowEvent::SetHotkey(..) => self.on_set_hotkey(cards, event, menu_was_open),
            WindowEvent::StartHotkeyRecord => self.on_start_hotkey_record(cards, event, menu_was_open),
            WindowEvent::HotkeyRecordingReady(..) => self.on_hotkey_recording_ready(cards, event, menu_was_open),
            WindowEvent::CancelHotkeyRecord => self.on_cancel_hotkey_record(cards, event, menu_was_open),
            WindowEvent::RecordHotkeyKey { .. } => self.on_record_hotkey_key(cards, event, menu_was_open),
            WindowEvent::HotkeyServiceStopped => self.on_hotkey_service_stopped(cards, event, menu_was_open),
            WindowEvent::FocusSearch => self.on_focus_search(cards, event, menu_was_open),
            WindowEvent::ClearSearch => self.on_clear_search(cards, event, menu_was_open),
            WindowEvent::CheckUpdate => self.on_check_update(cards, event, menu_was_open),
            WindowEvent::DownloadUpdate => self.on_download_update(cards, event, menu_was_open),
            WindowEvent::OpenReleases => self.on_open_releases(cards, event, menu_was_open),
            WindowEvent::OpenRepository => self.on_open_repository(cards, event, menu_was_open),
        }
    }

    fn on_search_changed(&mut self, cards: &[CardView], event: WindowEvent, menu_was_open: bool) -> (r: Vec<
        WindowEffect,
    >)
        requires
            event@ is SearchChanged,
        ensures
            (final(self)@, effects_view(r@)) == act(
                old(self)@,
                cards_text(cards@),
                event@,
                menu_was_open,
            ),
    {
        proof {
            reveal(act);
        }
        let ghost ct = cards_text(cards@);
        match event {
            WindowEvent::SearchChanged(q) => {
                self.search = q;
                single(WindowEffect::RefreshSelection)
            },
            _ => none(),
        }
    }

    fn on_select(&mut self, cards: &[CardView], event: WindowEvent, menu_was_open: bool) -> (r: Vec<
        WindowEffect,
    >)
        requires
            event@ is Select,
        ensures
            (final(self)@, effects_view(r@)) == act(
                old(self)@,
                cards_text(cards@),
                event@,
                menu_was_open,
            ),
    {
        proof {
            reveal(act);
        }
        let ghost ct = cards_text(cards@);
        match event {
            WindowEvent::Select(seq) => {
                self.select(seq);
                Self::select_effects(seq)
            },
            _ => none(),
        }
    }

    fn on_open_card_menu(&mut self, cards: &[CardView], event: WindowEvent, menu_was_open: bool) -> (r: Vec<
        WindowEffect,
    >)
        requires
            event@ is OpenCardMenu,
        ensures
            (final(self)@, effects_view(r@)) == act(
                old(self)@,
                cards_text(cards@),
                event@,
                menu_was_open,
            ),
    {
        proof {
            reveal(act);
        }
        let ghost ct = cards_text(cards@);
        match event {
            WindowEvent::OpenCardMenu(seq) => {
                match find_card(cards, seq) {
                    Some(i) => {
                        assert(ct[i as int].0 == seq);
                        self.select(seq);
                        self.card_menu = Some(seq);
                        Self::select_effects(seq)
                    },
                    None => none(),
                }
            },
            _ => none(),
        }
    }

    fn on_close_card_menu(&mut self, cards: &[CardView], event: WindowEvent, menu_was_open: bool) -> (r: Vec<
        WindowEffect,
    >)
        requires
            event@ is CloseCardMenu,
        ensures
            (final(self)@, effects_view(r@)) == act(
                old(self)@,
                cards_text(cards@),
                event@,
                menu_was_open,
            ),
    {
        proof {
            reveal(act);
        }
        let ghost ct = cards_text(cards@);
        match event {
            WindowEvent::CloseCardMenu => none(),
            _ => none(),
        }
    }

    fn on_recopy_selected(&mut self, cards: &[CardView], event: WindowEvent, menu_was_open: bool) -> (r: Vec<
        WindowEffect,
    >)
        requires
            event@ is RecopySelected,
        ensures
            (final(self)@, effects_view(r@)) == act(
                old(self)@,
                cards_text(cards@),
                event@,
                menu_was_open,
            ),
    {
        proof {
            reveal(act);
        }
        let ghost ct = cards_text(cards@);
        match event {
            WindowEvent::RecopySelected => {
                match self.selected {
                    Some(seq) => match find_card(cards, seq) {
                        Some(i) => {
                            assert(ct[i as int].0 == seq);
                            self.copied_tick = COPIED_TICKS;
                            single(WindowEffect::Send(WorkerCmd::Recopy { sequence: seq }))
                        },
                        None => none(),
                    },
                    None => none(),
                }
            },
            _ => none(),
        }
    }

    fn on_copy(&mut self, cards: &[CardView], event: WindowEvent, menu_was_open: bool) -> (r: Vec<
        WindowEffect,
    >)
        requires
            event@ is Copy,
        ensures
            (final(self)@, effects_view(r@)) == act(
                old(self)@,
                cards_text(cards@),
                event@,
                menu_was_open,
            ),
    {
        proof {
            reveal(act);
        }
        let ghost ct = cards_text(cards@);
        match event {
            WindowEvent::Copy(seq) => {
                match find_card(cards, seq) {
                    Some(i) => {
                        assert(ct[i as int].0 == seq);
                        self.copied_tick = COPIED_TICKS;
                        single(WindowEffect::Send(WorkerCmd::Recopy { sequence: seq }))
                    },
                    None => none(),
                }
            },
            _ => none(),
        }
    }

    fn on_copy_plain_text(&mut self, cards: &[CardView], event: WindowEvent, menu_was_open: bool) -> (r: Vec<
        WindowEffect,
    >)
        requires
            event@ is CopyPlainText,
        ensures
            (final(self)@, effects_view(r@)) == act(
                old(self)@,
                cards_text(cards@),
                event@,
                menu_was_open,
            ),
    {
        proof {
            reveal(act);
        }
        let ghost ct = cards_text(cards@);
        match event {
            WindowEvent::CopyPlainText(seq) => {
                match find_card(cards, seq) {
                    Some(i) => {
                        let text = cards[i].full_content.clone();
                        self.copied_tick = COPIED_TICKS;
                        single(WindowEffect::Send(WorkerCmd::RecopyText { text }))
                    },
                    None => none(),
                }
            },
            _ => none(),
        }
    }

    fn on_delete(&mut self, cards: &[CardView], event: WindowEvent, menu_was_open: bool) -> (r: Vec<
        WindowEffect,
    >)
        requires
            event@ is Delete,
        ensures
            (final(self)@, effects_view(r@)) == act(
                old(self)@,
                cards_text(cards@),
                event@,
                menu_was_open,
            ),
    {
        proof {
            reveal(act);
        }
        let ghost ct = cards_text(cards@);
        match event {
            WindowEvent::Delete(sequences) => single(
                WindowEffect::Send(WorkerCmd::DeleteRecord { sequences }),
            ),
            _ => none(),
        }
    }

    fn on_exclude_source(&mut self, cards: &[CardView], event: WindowEvent, menu_was_open: bool) -> (r: Vec<
        WindowEffect,
    >)
        requires
            event@ is ExcludeSource,
        ensures
            (final(self)@, effects_view(r@)) == act(
                old(self)@,
                cards_text(cards@),
                event@,
                menu_was_open,
            ),
    {
        proof {
            reveal(act);
        }
        let ghost ct = cards_text(cards@);
        match event {
            WindowEvent::ExcludeSource(exe) => single(WindowEffect::Send(WorkerCmd::ExcludeApp { exe })),
            _ => none(),
        }
    }

    fn on_unexclude(&mut self, cards: &[CardView], event: WindowEvent, menu_was_open: bool) -> (r: Vec<
        WindowEffect,
    >)
        requires
            event@ is Unexclude,
        ensures
            (final(self)@, effects_view(r@)) == act(
                old(self)@,
                cards_text(cards@),
                event@,
                menu_was_open,
            ),
    {
        proof {
            reveal(act);
        }
        let ghost ct = cards_text(cards@);
        match event {
            WindowEvent::Unexclude(exe) => single(
                WindowEffect::Send(WorkerCmd::UnexcludeApp { exe }),
            ),
            _ => none(),
        }
    }

    fn on_exclude_input(&mut self, cards: &[CardView], event: WindowEvent, menu_was_open: bool) -> (r: Vec<
        WindowEffect,
    >)
        requires
            event@ is ExcludeInput,
        ensures
            (final(self)@, effects_view(r@)) == act(
                old(self)@,
                cards_text(cards@),
                event@,
                menu_was_open,
            ),
    {
        proof {
            reveal(act);
        }
        let ghost ct = cards_text(cards@);
        match event {
            WindowEvent::ExcludeInput(v) => {
                self.exclude_input = v;
                none()
            },
            _ => none(),
        }
    }

    fn on_exclude_submit(&mut self, cards: &[CardView], event: WindowEvent, menu_was_open: bool) -> (r: Vec<
        WindowEffect,
    >)
        requires
            event@ is ExcludeSubmit,
        ensures
            (final(self)@, effects_view(r@)) == act(
                old(self)@,
                cards_text(cards@),
                event@,
                menu_was_open,
            ),
    {
        proof {
            reveal(act);
        }
        let ghost ct = cards_text(cards@);
        match event {
            WindowEvent::ExcludeSubmit => {
                let cs = chars_of(self.exclude_input.as_str());
                let t = trim_chars(cs.as_slice());
                if t.len() > 0 {
                    let exe = string_of(t.as_slice());
                    self.exclude_input = String::new();
                    single(WindowEffect::Send(WorkerCmd::ExcludeApp { exe }))
                } else {
                    none()
                }
            },
            _ => none(),
        }
    }

    fn on_set_retention(&mut self, cards: &[CardView], event: WindowEvent, menu_was_open: bool) -> (r: Vec<
        WindowEffect,
    >)
        requires
            event@ is SetRetention,
        ensures
            (final(self)@, effects_view(r@)) == act(
                old(self)@,
                cards_text(cards@),
                event@,
                menu_was_open,
            ),
    {
        proof {
            reveal(act);
        }
        let ghost ct = cards_text(cards@);
        match event {
            WindowEvent::SetRetention(r) => {
                self.retention = r;
                single(WindowEffect::Send(WorkerCmd::SetRetention(r)))
            },
            _ => none(),
        }
    }

    fn on_toggle_tracking(&mut self, cards: &[CardView], event: WindowEvent, menu_was_open: bool) -> (r: Vec<
        WindowEffect,
    >)
        requires
            event@ is ToggleTracking,
        ensures
            (final(self)@, effects_view(r@)) == act(
                old(self)@,
                cards_text(cards@),
                event@,
                menu_was_open,
            ),
    {
        proof {
            reveal(act);
        }
        let ghost ct = cards_text(cards@);
        match event {
            WindowEvent::ToggleTracking => single(WindowEffect::ToggleTracking),
            _ => none(),
        }
    }

    fn on_request_clear_history(&mut self, cards: &[CardView], event: WindowEvent, menu_was_open: bool) -> (r: Vec<
        WindowEffect,
    >)
        requires
            event@ is RequestClearHistory,
        ensures
            (final(self)@, effects_view(r@)) == act(
                old(self)@,
                cards_text(cards@),
                event@,
                menu_was_open,
            ),
    {
        proof {
            reveal(act);
        }
        let ghost ct = cards_text(cards@);
        match event {
            WindowEvent::RequestClearHistory => {
                self.clear_history_confirmation_open = true;
                none()
            },
            _ => none(),
        }
    }

    fn on_confirm_clear_history(&mut self, cards: &[CardView], event: WindowEvent, menu_was_open: bool) -> (r: Vec<
        WindowEffect,
    >)
        requires
            event@ is ConfirmClearHistory,
        ensures
            (final(self)@, effects_view(r@)) == act(
                old(self)@,
                cards_text(cards@),
                event@,
                menu_was_open,
            ),
    {
        proof {
            reveal(act);
        }
        let ghost ct = cards_text(cards@);
        match event {
            WindowEvent::ConfirmClearHistory => {
                self.clear_history_confirmation_open = false;
                single(WindowEffect::Send(WorkerCmd::ClearHistory))
            },
            _ => none(),
        }
    }

    fn on_cancel_clear_history(&mut self, cards: &[CardView], event: WindowEvent, menu_was_open: bool) -> (r: Vec<
        WindowEffect,
    >)
        requires
            event@ is CancelClearHistory,
        ensures
            (final(self)@, effects_view(r@)) == act(
                old(self)@,
                cards_text(cards@),
                event@,
                menu_was_open,
            ),
    {
        proof {
            reveal(act);
        }
        let ghost ct = cards_text(cards@);
        match event {
            WindowEvent::CancelClearHistory => {
                self.clear_history_confirmation_open = false;
                none()
            },
            _ => none(),
        }
    }

    fn on_go_page(&mut self, cards: &[CardView], event: WindowEvent, menu_was_open: bool) -> (r: Vec<
        WindowEffect,
    >)
        requires
            event@ is GoPage,
        ensures
            (final(self)@, effects_view(r@)) == act(
                old(self)@,
                cards_text(cards@),
                event@,
                menu_was_open,
            ),
    {
        proof {
            reveal(act);
        }
        let ghost ct = cards_text(cards@);
        match event {
            WindowEvent::GoPage(p) => {
                let fx = self.cancel_recording();
                self.page = p;
                self.content_modal_for = None;
                fx
            },
            _ => none(),
        }
    }

    fn on_toggle_raw(&mut self, cards: &[CardView], event: WindowEvent, menu_was_open: bool) -> (r: Vec<
        WindowEffect,
    >)
        requires
            event@ is ToggleRaw,
        ensures
            (final(self)@, effects_view(r@)) == act(
                old(self)@,
                cards_text(cards@),
                event@,
                menu_was_open,
            ),
    {
        proof {
            reveal(act);
        }
        let ghost ct = cards_text(cards@);
        match event {
            WindowEvent::ToggleRaw => {
                let next = !self.expanded_raw;
                self.expanded_raw = next;
                single(WindowEffect::Send(WorkerCmd::SetExpandedRaw(next)))
            },
            _ => none(),
        }
    }

    fn on_toggle_detail_menu(&mut self, cards: &[CardView], event: WindowEvent, menu_was_open: bool) -> (r: Vec<
        WindowEffect,
    >)
        requires
            event@ is ToggleDetailMenu,
        ensures
            (final(self)@, effects_view(r@)) == act(
                old(self)@,
                cards_text(cards@),
                event@,
                menu_was_open,
            ),
    {
        proof {
            reveal(act);
        }
        let ghost ct = cards_text(cards@);
        match event {
            WindowEvent::ToggleDetailMenu => {
                self.detail_menu_open = !self.detail_menu_open;
                none()
            },
            _ => none(),
        }
    }

    fn on_set_pinned(&mut self, cards: &[CardView], event: WindowEvent, menu_was_open: bool) -> (r: Vec<
        WindowEffect,
    >)
        requires
            event@ is SetPinned,
        ensures
            (final(self)@, effects_view(r@)) == act(
                old(self)@,
                cards_text(cards@),
                event@,
                menu_was_open,
            ),
    {
        proof {
            reveal(act);
        }
        let ghost ct = cards_text(cards@);
        match event {
            WindowEvent::SetPinned { sequences, pinned } => {
                self.detail_menu_open = false;
                single(WindowEffect::Send(WorkerCmd::SetPinned { sequences, pinned }))
            },
            _ => none(),
        }
    }

    fn on_open_content_modal(&mut self, cards: &[CardView], event: WindowEvent, menu_was_open: bool) -> (r: Vec<
        WindowEffect,
    >)
        requires
            event@ is OpenContentModal,
        ensures
            (final(self)@, effects_view(r@)) == act(
                old(self)@,
                cards_text(cards@),
                event@,
                menu_was_open,
            ),
    {
        proof {
            reveal(act);
        }
        let ghost ct = cards_text(cards@);
        match event {
            WindowEvent::OpenContentModal(seq) => {
                match find_card(cards, seq) {
                    Some(i) => {
                        assert(ct[i as int].0 == seq);
                        self.content_modal_for = Some(seq);
                    },
                    None => {},
                }
                none()
            },
            _ => none(),
        }
    }

    fn on_close_content_modal(&mut self, cards: &[CardView], event: WindowEvent, menu_was_open: bool) -> (r: Vec<
        WindowEffect,
    >)
        requires
            event@ is CloseContentModal,
        ensures
            (final(self)@, effects_view(r@)) == act(
                old(self)@,
                cards_text(cards@),
                event@,
                menu_was_open,
            ),
    {
        proof {
            reveal(act);
        }
        let ghost ct = cards_text(cards@);
        match event {
            WindowEvent::CloseContentModal => {
                self.content_modal_for = None;
                none()
            },
            _ => none(),
        }
    }

    fn on_open_source(&mut self, cards: &[CardView], event: WindowEvent, menu_was_open: bool) -> (r: Vec<
        WindowEffect,
    >)
        requires
            event@ is OpenSource,
        ensures
            (final(self)@, effects_view(r@)) == act(
                old(self)@,
                cards_text(cards@),
                event@,
                menu_was_open,
            ),
    {
        proof {
            reveal(act);
        }
        let ghost ct = cards_text(cards@);
        match event {
            WindowEvent::OpenSource(app) => opened(open_source(app.as_str())),
            _ => none(),
        }
    }

    fn on_open_link(&mut self, cards: &[CardView], event: WindowEvent, menu_was_open: bool) -> (r: Vec<
        WindowEffect,
    >)
        requires
            event@ is OpenLink,
        ensures
            (final(self)@, effects_view(r@)) == act(
                old(self)@,
                cards_text(cards@),
                event@,
                menu_was_open,
            ),
    {
        proof {
            reveal(act);
        }
        let ghost ct = cards_text(cards@);
        match event {
            WindowEvent::OpenLink(url) => opened(open_link(url.as_str())),
            _ => none(),
        }
    }

    fn on_web_search(&mut self, cards: &[CardView], event: WindowEvent, menu_was_open: bool) -> (r: Vec<
        WindowEffect,
    >)
        requires
            event@ is WebSearch,
        ensures
            (final(self)@, effects_view(r@)) == act(
                old(self)@,
                cards_text(cards@),
                event@,
                menu_was_open,
            ),
    {
        proof {
            reveal(act);
        }
        let ghost ct = cards_text(cards@);
        match event {
            WindowEvent::WebSearch(q) => opened(web_search(q.as_str())),
            _ => none(),
        }
    }

    fn on_toggle_qr_code(&mut self, cards: &[CardView], event: WindowEvent, menu_was_open: bool) -> (r: Vec<
        WindowEffect,
    >)
        requires
            event@ is ToggleQrCode,
        ensures
            (final(self)@, effects_view(r@)) == act(
                old(self)@,
                cards_text(cards@),
                event@,
                menu_was_open,
            ),
    {
        proof {
            reveal(act);
        }
        let ghost ct = cards_text(cards@);
        match event {
            WindowEvent::ToggleQrCode => {
                self.show_qrcode = !self.show_qrcode;
                none()
            },
            _ => none(),
        }
    }

    fn on_set_filter(&mut self, cards: &[CardView], event: WindowEvent, menu_was_open: bool) -> (r: Vec<
        WindowEffect,
    >)
        requires
            event@ is SetFilter,
        ensures
            (final(self)@, effects_view(r@)) == act(
                old(self)@,
                cards_text(cards@),
                event@,
                menu_was_open,
            ),
    {
        proof {
            reveal(act);
        }
        let ghost ct = cards_text(cards@);
        match event {
            WindowEvent::SetFilter(f) => {
                self.filter = f;
                single(WindowEffect::RefreshSelection)
            },
            _ => none(),
        }
    }

    fn on_toggle_pinned_only(&mut self, cards: &[CardView], event: WindowEvent, menu_was_open: bool) -> (r: Vec<
        WindowEffect,
    >)
        requires
            event@ is TogglePinnedOnly,
        ensures
            (final(self)@, effects_view(r@)) == act(
                old(self)@,
                cards_text(cards@),
                event@,
                menu_was_open,
            ),
    {
        proof {
            reveal(act);
        }
        let ghost ct = cards_text(cards@);
        match event {
            WindowEvent::TogglePinnedOnly => {
                self.pinned_only = !self.pinned_only;
                single(WindowEffect::RefreshSelection)
            },
            _ => none(),
        }
    }

    fn on_set_sort_order(&mut self, cards: &[CardView], event: WindowEvent, menu_was_open: bool) -> (r: Vec<
        WindowEffect,
    >)
        requires
            event@ is SetSortOrder,
        ensures
            (final(self)@, effects_view(r@)) == act(
                old(self)@,
                cards_text(cards@),
                event@,
                menu_was_open,
            ),
    {
        proof {
            reveal(act);
        }
        let ghost ct = cards_text(cards@);
        match event {
            WindowEvent::SetSortOrder(o) => {
                self.sort_order = o;
                let mut v = single(WindowEffect::RefreshSelection);
                let ghost before = effects_view(v@);
                v.push(WindowEffect::ScrollToTop);
                assert(effects_view(v@) =~= before.push(EffectModel::ScrollToTop));
                assert(effects_view(v@) =~= seq![
                    EffectModel::RefreshSelection,
                    EffectModel::ScrollToTop,
                ]);
                v
            },
            _ => none(),
        }
    }

    fn on_toggle_list_density(&mut self, cards: &[CardView], event: WindowEvent, menu_was_open: bool) -> (r: Vec<
        WindowEffect,
    >)
        requires
            event@ is ToggleListDensity,
        ensures
            (final(self)@, effects_view(r@)) == act(
                old(self)@,
                cards_text(cards@),
                event@,
                menu_was_open,
            ),
    {
        proof {
            reveal(act);
        }
        let ghost ct = cards_text(cards@);
        match event {
            WindowEvent::ToggleListDensity => {
                self.list_density = match self.list_density {
                    ListDensity::Detailed => ListDensity::Compact,
                    ListDensity::Compact => ListDensity::Detailed,
                };
                none()
            },
            _ => none(),
        }
    }

    fn on_window_minimize(&mut self, cards: &[CardView], event: WindowEvent, menu_was_open: bool) -> (r: Vec<
        WindowEffect,
    >)
        requires
            event@ is WindowMinimize,
        ensures
            (final(self)@, effects_view(r@)) == act(
                old(self)@,
                cards_text(cards@),
                event@,
                menu_was_open,
            ),
    {
        proof {
            reveal(act);
        }
        let ghost ct = cards_text(cards@);
        match event {
            WindowEvent::WindowMinimize => {
                let mut fx = self.cancel_recording();
                self.window_hidden = false;
                let ghost before = effects_view(fx@);
                fx.push(WindowEffect::MinimizeWindow);
                assert(effects_view(fx@) =~= before.push(EffectModel::MinimizeWindow));
                fx
            },
            _ => none(),
        }
    }

    fn on_window_close(&mut self, cards: &[CardView], event: WindowEvent, menu_was_open: bool) -> (r: Vec<
        WindowEffect,
    >)
        requires
            event@ is WindowClose,
        ensures
            (final(self)@, effects_view(r@)) == act(
                old(self)@,
                cards_text(cards@),
                event@,
                menu_was_open,
            ),
    {
        proof {
            reveal(act);
        }
        let ghost ct = cards_text(cards@);
        match event {
            WindowEvent::WindowClose => {
                let mut fx = self.cancel_recording();
                let ghost before = effects_view(fx@);
                if self.tray_available {
                    self.window_hidden = true;
                    fx.push(WindowEffect::HideWindow);
                    assert(effects_view(fx@) =~= before.push(EffectModel::HideWindow));
                } else {
                    fx.push(WindowEffect::Send(WorkerCmd::SetTracking { on: false, request_id: None }));
                    fx.push(WindowEffect::Quit);
                    assert(effects_view(fx@) =~= before + seq![
                        EffectModel::Send(CmdModel::SetTracking { on: false, request_id: None }),
                        EffectModel::Quit,
                    ]);
                }
                fx
            },
            _ => none(),
        }
    }

    fn on_set_hotkey(&mut self, cards: &[CardView], event: WindowEvent, menu_was_open: bool) -> (r: Vec<
        WindowEffect,
    >)
        requires
            event@ is SetHotkey,
        ensures
            (final(self)@, effects_view(r@)) == act(
                old(self)@,
                cards_text(cards@),
                event@,
                menu_was_open,
            ),
    {
        proof {
            reveal(act);
        }
        let ghost ct = cards_text(cards@);
        match event {
            WindowEvent::SetHotkey(h) => {
                self.hotkey_recording = false;
                self.hotkey_record_error = None;
                single(WindowEffect::SendHotkey(h))
            },
            _ => none(),
        }
    }

    fn on_start_hotkey_record(&mut self, cards: &[CardView], event: WindowEvent, menu_was_open: bool) -> (r: Vec<
        WindowEffect,
    >)
        requires
            event@ is StartHotkeyRecord,
        ensures
            (final(self)@, effects_view(r@)) == act(
                old(self)@,
                cards_text(cards@),
                event@,
                menu_was_open,
            ),
    {
        proof {
            reveal(act);
        }
        let ghost ct = cards_text(cards@);
        match event {
            WindowEvent::StartHotkeyRecord => single(WindowEffect::HotkeyRecording(true)),
            _ => none(),
        }
    }

    fn on_hotkey_recording_ready(&mut self, cards: &[CardView], event: WindowEvent, menu_was_open: bool) -> (r: Vec<
        WindowEffect,
    >)
        requires
            event@ is HotkeyRecordingReady,
        ensures
            (final(self)@, effects_view(r@)) == act(
                old(self)@,
                cards_text(cards@),
                event@,
                menu_was_open,
            ),
    {
        proof {
            reveal(act);
        }
        let ghost ct = cards_text(cards@);
        match event {
            WindowEvent::HotkeyRecordingReady(ok) => {
                if ok {
                    self.hotkey_recording = true;
                    self.hotkey_record_error = None;
                } else {
                    self.hotkey_record_error = Some(text("快捷键服务尚未就绪，请稍后重试"));
                }
                none()
            },
            _ => none(),
        }
    }

    fn on_cancel_hotkey_record(&mut self, cards: &[CardView], event: WindowEvent, menu_was_open: bool) -> (r: Vec<
        WindowEffect,
    >)
        requires
            event@ is CancelHotkeyRecord,
        ensures
            (final(self)@, effects_view(r@)) == act(
                old(self)@,
                cards_text(cards@),
                event@,
                menu_was_open,
            ),
    {
        proof {
            reveal(act);
        }
        let ghost ct = cards_text(cards@);
        match event {
            WindowEvent::CancelHotkeyRecord => self.cancel_recording(),
            _ => none(),
        }
    }

    fn on_record_hotkey_key(&mut self, cards: &[CardView], event: WindowEvent, menu_was_open: bool) -> (r: Vec<
        WindowEffect,
    >)
        requires
            event@ is RecordHotkeyKey,
        ensures
            (final(self)@, effects_view(r@)) == act(
                old(self)@,
                cards_text(cards@),
                event@,
                menu_was_open,
            ),
    {
        proof {
            reveal(act);
        }
        let ghost ct = cards_text(cards@);
        match event {
            WindowEvent::RecordHotkeyKey { key, physical_digit, modifiers } => {
                if !self.hotkey_recording {
                    return none();
                }
                match record_key_press(&key, physical_digit, modifiers) {
                    RecordOutcome::Cancel => self.cancel_recording(),
                    RecordOutcome::Ignore => none(),
                    RecordOutcome::Record(h) => {
                        self.hotkey_recording = false;
                        self.hotkey_record_error = None;
                        single(WindowEffect::SendHotkey(h))
                    },
                    RecordOutcome::Reject => {
                        self.hotkey_record_error = Some(
                            text("请按 Ctrl 或 Alt + 字母、数字、Space 或 F1–F11；Esc 取消"),
                        );
                        none()
                    },
                }
            },
            _ => none(),
        }
    }

    fn on_hotkey_service_stopped(&mut self, cards: &[CardView], event: WindowEvent, menu_was_open: bool) -> (r: Vec<
        WindowEffect,
    >)
        requires
            event@ is HotkeyServiceStopped,
        ensures
            (final(self)@, effects_view(r@)) == act(
                old(self)@,
                cards_text(cards@),
                event@,
                menu_was_open,
            ),
    {
        proof {
            reveal(act);
        }
        let ghost ct = cards_text(cards@);
        match event {
            WindowEvent::HotkeyServiceStopped => {
                self.hotkey_record_error = Some(text("快捷键服务已停止，请重启 Veya"));
                single(WindowEffect::HotkeyRecording(false))
            },
            _ => none(),
        }
    }

    fn on_focus_search(&mut self, cards: &[CardView], event: WindowEvent, menu_was_open: bool) -> (r: Vec<
        WindowEffect,
    >)
        requires
            event@ is FocusSearch,
        ensures
            (final(self)@, effects_view(r@)) == act(
                old(self)@,
                cards_text(cards@),
                event@,
                menu_was_open,
            ),
    {
        proof {
            reveal(act);
        }
        let ghost ct = cards_text(cards@);
        match event {
            WindowEvent::FocusSearch => {
                if self.content_modal_for.is_some() || self.clear_history_confirmation_open {
                    none()
                } else {
                    self.page = Page::History;
                    single(WindowEffect::FocusSearch)
                }
            },
            _ => none(),
        }
    }

    fn on_clear_search(&mut self, cards: &[CardView], event: WindowEvent, menu_was_open: bool) -> (r: Vec<
        WindowEffect,
    >)
        requires
            event@ is ClearSearch,
        ensures
            (final(self)@, effects_view(r@)) == act(
                old(self)@,
                cards_text(cards@),
                event@,
                menu_was_open,
            ),
    {
        proof {
            reveal(act);
        }
        let ghost ct = cards_text(cards@);
        match event {
            WindowEvent::ClearSearch => {
                if self.clear_history_confirmation_open {
                    self.clear_history_confirmation_open = false;
                    none()
                } else if self.content_modal_for.is_some() {
                    self.content_modal_for = None;
                    none()
                } else if menu_was_open {
                    none()
                } else if chars_of(self.search.as_str()).len() > 0 {
                    self.search = String::new();
                    single(WindowEffect::RefreshSelection)
                } else {
                    self.page = Page::History;
                    none()
                }
            },
            _ => none(),
        }
    }

    fn on_check_update(&mut self, cards: &[CardView], event: WindowEvent, menu_was_open: bool) -> (r: Vec<
        WindowEffect,
    >)
        requires
            event@ is CheckUpdate,
        ensures
            (final(self)@, effects_view(r@)) == act(
                old(self)@,
                cards_text(cards@),
                event@,
                menu_was_open,
            ),
    {
        proof {
            reveal(act);
        }
        let ghost ct = cards_text(cards@);
        match event {
            WindowEvent::CheckUpdate => single(WindowEffect::StartUpdateCheck),
            _ => none(),
        }
    }

    fn on_download_update(&mut self, cards: &[CardView], event: WindowEvent, menu_was_open: bool) -> (r: Vec<
        WindowEffect,
    >)
        requires
            event@ is DownloadUpdate,
        ensures
            (final(self)@, effects_view(r@)) == act(
                old(self)@,
                cards_text(cards@),
                event@,
                menu_was_open,
            ),
    {
        proof {
            reveal(act);
        }
        let ghost ct = cards_text(cards@);
        match event {
            WindowEvent::DownloadUpdate => single(WindowEffect::DownloadUpdate),
            _ => none(),
        }
    }

    fn on_open_releases(&mut self, cards: &[CardView], event: WindowEvent, menu_was_open: bool) -> (r: Vec<
        WindowEffect,
    >)
        requires
            event@ is OpenReleases,
        ensures
            (final(self)@, effects_view(r@)) == act(
                old(self)@,
                cards_text(cards@),
                event@,
                menu_was_open,
            ),
    {
        proof {
            reveal(act);
        }
        let ghost ct = cards_text(cards@);
        match event {
            WindowEvent::OpenReleases => opened(open_link(LATEST_RELEASE_URL)),
            _ => none(),
        }
    }

    fn on_open_repository(&mut self, cards: &[CardView], event: WindowEvent, menu_was_open: bool) -> (r: Vec<
        WindowEffect,
    >)
        requires
            event@ is OpenRepository,
        ensures
            (final(self)@, effects_view(r@)) == act(
                old(self)@,
                cards_text(cards@),
                event@,
                menu_was_open,
            ),
    {
        proof {
            reveal(act);
        }
        let ghost ct = cards_text(cards@);
        match event {
            WindowEvent::OpenRepository => opened(open_link(REPOSITORY_URL)),
            _ => none(),
        }
    }

}

/// Keeping the selection on a shown card: the selection moves to the
/// first shown card when its card is no longer shown, and the menus, modal
/// and QR code of the old selection close.
pub open spec fn reselect_spec(s: WindowModel, shown: Seq<u32>) -> WindowModel {
    let next = kept_selection(shown, s.selected);
    if next != s.selected {
        WindowModel {
            selected: next,
            detail_menu_open: false,
            content_modal_for: None,
            show_qrcode: false,
            ..s
        }
    } else {
        s
    }
}

/// A new snapshot from the worker holding the cards `all`, of which `shown`
/// pass the toolbar: the selection follows the cards, and the modal and the
/// card menu close when their card is gone or hidden.
pub open spec fn after_snapshot_spec(s: WindowModel, all: Seq<u32>, shown: Seq<u32>) -> WindowModel {
    let s1 = reselect_spec(WindowModel { selected: kept_selection(all, s.selected), ..s }, shown);
    let s2 = match s1.content_modal_for {
        Some(seq) => if all.contains(seq) {
            s1
        } else {
            WindowModel { content_modal_for: None, ..s1 }
        },
        None => s1,
    };
    match s2.card_menu {
        Some(seq) => if shown.contains(seq) {
            s2
        } else {
            WindowModel { card_menu: None, ..s2 }
        },
        None => s2,
    }
}

/// How the window carries out a coalesced window request.
pub open spec fn window_action_spec(s: WindowModel, action: WindowAction) -> (WindowModel, Seq<
    EffectModel,
>) {
    match action {
        WindowAction::Show => (WindowModel { window_hidden: false, ..s }, seq![EffectModel::ShowWindow]),
        WindowAction::Hide => {
            let (c, fx) = cancel_recording(s);
            (WindowModel { window_hidden: true, ..c }, fx.push(EffectModel::HideWindow))
        },
        WindowAction::Minimize => {
            let (c, fx) = cancel_recording(s);
            (WindowModel { window_hidden: false, ..c }, fx.push(EffectModel::MinimizeWindow))
        },
    }
}

pub open spec fn cmd_of(c: TrayCmd) -> CmdModel {
    match c {
        TrayCmd::ClearHistory => CmdModel::ClearHistory,
        TrayCmd::ResumeTracking => CmdModel::SetTracking { on: true, request_id: None },
        _ => CmdModel::SetTracking { on: false, request_id: None },
    }
}

pub open spec fn quit_effects() -> Seq<EffectModel> {
    seq![EffectModel::Send(CmdModel::SetTracking { on: false, request_id: None }), EffectModel::Quit]
}

/// Tray requests in the order they came: the worker's are sent to it, the
/// window's raise it (settings also open the settings page), and exiting
/// ends the window at once. Returns the new state, the effects, the window
/// signals and whether the window quits.
pub open spec fn tray_run(s: WindowModel, cmds: Seq<TrayCmd>) -> (WindowModel, Seq<EffectModel>, Seq<
    WindowSignal,
>, bool)
    decreases cmds.len(),
{
    if cmds.len() == 0 {
        (s, Seq::empty(), Seq::empty(), false)
    } else {
        match cmds[0] {
            TrayCmd::Exit => (s, quit_effects(), Seq::empty(), true),
            TrayCmd::OpenWindow => {
                let r = tray_run(s, cmds.drop_first());
                if r.3 {
                    r
                } else {
                    (r.0, r.1, seq![WindowSignal::Activate] + r.2, false)
                }
            },
            TrayCmd::OpenSettings => {
                let r = tray_run(WindowModel { page: Page::Settings, ..s }, cmds.drop_first());
                if r.3 {
                    r
                } else {
                    (r.0, r.1, seq![WindowSignal::Activate] + r.2, false)
                }
            },
            c => {
                let r = tray_run(s, cmds.drop_first());
                (r.0, seq![EffectModel::Send(cmd_of(c))] + r.1, r.2, r.3)
            },
        }
    }
}

/// The tray's requests of one tick, then the tray's disappearance if it
/// went away: without a tray a hidden window comes back.
pub open spec fn tray_tick_spec(s: WindowModel, cmds: Seq<TrayCmd>, disconnected: bool) -> (
    WindowModel,
    Seq<EffectModel>,
    Seq<WindowSignal>,
    bool,
) {
    let r = tray_run(s, cmds);
    if r.3 || !disconnected {
        r
    } else {
        (
            WindowModel { tray_available: false, ..r.0 },
            r.1,
            if r.0.window_hidden {
                r.2.push(WindowSignal::Activate)
            } else {
                r.2
            },
            false,
        )
    }
}

fn contains_seq_u32(v: &[u32], x: u32) -> (r: bool)
    ensures
        r == v@.contains(x),
{
    let mut i: usize = 0;
    while i < v.len()
        invariant
            i <= v@.len(),
            forall|k: int| 0 <= k < i ==> v@[k] != x,
        decreases v@.len() - i,
    {
        if v[i] == x {
            assert(v@[i as int] == x);
            return true;
        }
        i += 1;
    }
    false
}

impl WindowState {
    /// Keeps the selection on a shown card (`shown`: the sequences the list
    /// shows, in order).
    pub fn reselect(&mut self, shown: &[u32])
        ensures
            final(self)@ == reselect_spec(old(self)@, shown@),
    {
        let next = crate::listing::ensure_visible_selection(shown, self.selected);
        if next != self.selected {
            self.selected = next;
            self.detail_menu_open = false;
            self.content_modal_for = None;
            self.show_qrcode = false;
        }
    }

    /// Takes in a snapshot holding the cards `all`, of which `shown` pass
    /// the toolbar.
    pub fn after_snapshot(&mut self, all: &[u32], shown: &[u32])
        ensures
            final(self)@ == after_snapshot_spec(old(self)@, all@, shown@),
    {
        self.follow_cards(all, shown);
        self.close_modal_if_gone(all);
        self.close_menu_if_hidden(shown);
    }

    fn follow_cards(&mut self, all: &[u32], shown: &[u32])
        ensures
            final(self)@ == reselect_spec(
                WindowModel { selected: kept_selection(all@, old(self)@.selected), ..old(self)@ },
                shown@,
            ),
    {
        self.selected = crate::listing::ensure_visible_selection(all, self.selected);
        self.reselect(shown);
    }

    fn close_modal_if_gone(&mut self, all: &[u32])
        ensures
            final(self)@ == match old(self)@.content_modal_for {
                Some(seq) => if all@.contains(seq) {
                    old(self)@
                } else {
                    WindowModel { content_modal_for: None, ..old(self)@ }
                },
                None => old(self)@,
            },
    {
        if let Some(seq) = self.content_modal_for {
            if !contains_seq_u32(all, seq) {
                self.content_modal_for = None;
            }
        }
    }

    fn close_menu_if_hidden(&mut self, shown: &[u32])
        ensures
            final(self)@ == match old(self)@.card_menu {
                Some(seq) => if shown@.contains(seq) {
                    old(self)@
                } else {
                    WindowModel { card_menu: None, ..old(self)@ }
                },
                None => old(self)@,
            },
    {
        if let Some(seq) = self.card_menu {
            if !contains_seq_u32(shown, seq) {
                self.card_menu = None;
            }
        }
    }

    /// Carries out a coalesced window request.
    pub fn apply_window_action(&mut self, action: WindowAction) -> (r: Vec<WindowEffect>)
        ensures
            (final(self)@, effects_view(r@)) == window_action_spec(old(self)@, action),
    {
        match action {
            WindowAction::Show => {
                self.window_hidden = false;
                single(WindowEffect::ShowWindow)
            },
            WindowAction::Hide => {
                let mut fx = self.cancel_recording();
                self.window_hidden = true;
                let ghost before = effects_view(fx@);
                fx.push(WindowEffect::HideWindow);
                assert(effects_view(fx@) =~= before.push(EffectModel::HideWindow));
                fx
            },
            WindowAction::Minimize => {
                let mut fx = self.cancel_recording();
                self.window_hidden = false;
                let ghost before = effects_view(fx@);
                fx.push(WindowEffect::MinimizeWindow);
                assert(effects_view(fx@) =~= before.push(EffectModel::MinimizeWindow));
                fx
            },
        }
    }

    fn tray_run_from(&mut self, cmds: &[TrayCmd], from: usize) -> (r: (
        Vec<WindowEffect>,
        Vec<WindowSignal>,
        bool,
    ))
        requires
            from <= cmds@.len(),
        ensures
            ({
                let t = tray_run(old(self)@, cmds@.skip(from as int));
                &&& final(self)@ == t.0
                &&& effects_view(r.0@) == t.1
                &&& r.1@ == t.2
                &&& r.2 == t.3
            }),
        decreases cmds@.len() - from,
    {
        if from == cmds.len() {
            assert(cmds@.skip(from as int) =~= Seq::<TrayCmd>::empty());
            return (none(), Vec::new(), false);
        }
        assert(cmds@.skip(from as int)[0] == cmds@[from as int]);
        assert(cmds@.skip(from as int).drop_first() =~= cmds@.skip(from as int + 1));
        match cmds[from] {
            TrayCmd::Exit => {
                let mut fx: Vec<WindowEffect> = Vec::new();
                fx.push(WindowEffect::Send(WorkerCmd::SetTracking { on: false, request_id: None }));
                fx.push(WindowEffect::Quit);
                assert(effects_view(fx@) =~= quit_effects());
                (fx, Vec::new(), true)
            },
            TrayCmd::OpenWindow => {
                let (fx, sig, quit) = self.tray_run_from(cmds, from + 1);
                if quit {
                    (fx, sig, quit)
                } else {
                    let mut out: Vec<WindowSignal> = Vec::new();
                    out.push(WindowSignal::Activate);
                    let mut k: usize = 0;
                    while k < sig.len()
                        invariant
                            k <= sig@.len(),
                            out@ == seq![WindowSignal::Activate] + sig@.take(k as int),
                        decreases sig@.len() - k,
                    {
                        assert(sig@.take(k as int + 1) =~= sig@.take(k as int).push(sig@[k as int]));
                        out.push(sig[k]);
                        k += 1;
                    }
                    assert(sig@.take(k as int) =~= sig@);
                    (fx, out, false)
                }
            },
            TrayCmd::OpenSettings => {
                self.page = Page::Settings;
                let (fx, sig, quit) = self.tray_run_from(cmds, from + 1);
                if quit {
                    (fx, sig, quit)
                } else {
                    let mut out: Vec<WindowSignal> = Vec::new();
                    out.push(WindowSignal::Activate);
                    let mut k: usize = 0;
                    while k < sig.len()
                        invariant
                            k <= sig@.len(),
                            out@ == seq![WindowSignal::Activate] + sig@.take(k as int),
                        decreases sig@.len() - k,
                    {
                        assert(sig@.take(k as int + 1) =~= sig@.take(k as int).push(sig@[k as int]));
                        out.push(sig[k]);
                        k += 1;
                    }
                    assert(sig@.take(k as int) =~= sig@);
                    (fx, out, false)
                }
            },
            c => {
                let first = match worker_command(c) {
                    Some(w) => w,
                    None => WorkerCmd::ClearHistory,
                };
                assert(first@ == cmd_of(c));
                let (rest, sig, quit) = self.tray_run_from(cmds, from + 1);
                let mut fx: Vec<WindowEffect> = Vec::new();
                fx.push(WindowEffect::Send(first));
                let mut rest = rest;
                let ghost head = fx@;
                let ghost tail = rest@;
                fx.append(&mut rest);
                assert(fx@ == head + tail);
                assert(effects_view(fx@) =~= seq![EffectModel::Send(cmd_of(c))] + effects_view(tail));
                (fx, sig, quit)
            },
        }
    }

    /// Handles the tray's requests of one tick (`disconnected`: the tray
    /// thread has ended). Returns the effects, the window signals to resolve
    /// and whether the window quits.
    pub fn tray_tick(&mut self, cmds: &[TrayCmd], disconnected: bool) -> (r: (
        Vec<WindowEffect>,
        Vec<WindowSignal>,
        bool,
    ))
        ensures
            ({
                let t = tray_tick_spec(old(self)@, cmds@, disconnected);
                &&& final(self)@ == t.0
                &&& effects_view(r.0@) == t.1
                &&& r.1@ == t.2
                &&& r.2 == t.3
            }),
    {
        assert(cmds@.skip(0) =~= cmds@);
        let (fx, mut sig, quit) = self.tray_run_from(cmds, 0);
        if quit || !disconnected {
            return (fx, sig, quit);
        }
        self.tray_available = false;
        if self.window_hidden {
            sig.push(WindowSignal::Activate);
        }
        (fx, sig, false)
    }
}

/// Escape with a card menu open only closes that menu: the search, the
/// page and the rest of the window stay as they were, and nothing is sent.
pub proof fn law_escape_with_open_menu_only_closes_it(s: WindowModel, cards: Seq<(u32, Seq<char>)>)
    requires
        s.card_menu is Some,
        !s.clear_history_confirmation_open,
        s.content_modal_for is None,
    ensures
        window_step(s, cards, EventModel::ClearSearch) == (
            WindowModel { card_menu: None, ..s },
            Seq::<EffectModel>::empty(),
        ),
{
    reveal(act);
}

/// Only a card the window holds is ever copied again.
pub proof fn law_copies_only_held_cards(
    s: WindowModel,
    cards: Seq<(u32, Seq<char>)>,
    e: EventModel,
    seq: u32,
)
    requires
        window_step(s, cards, e).1.contains(EffectModel::Send(CmdModel::Recopy { sequence: seq })),
    ensures
        has_card(cards, seq),
{
    reveal(act);
    let fx = window_step(s, cards, e).1;
    let i = choose|i: int| 0 <= i < fx.len() && fx[i] == EffectModel::Send(CmdModel::Recopy { sequence: seq });
    assert(fx[i] == EffectModel::Send(CmdModel::Recopy { sequence: seq }));
    match e {
        EventModel::SearchChanged(..) => {},
        EventModel::Select(..) => {},
        EventModel::OpenCardMenu(..) => {},
        EventModel::CloseCardMenu => {},
        EventModel::RecopySelected => {},
        EventModel::Copy(..) => {},
        EventModel::CopyPlainText(..) => {},
        EventModel::Delete(..) => {},
        EventModel::ExcludeSource(..) => {},
        EventModel::Unexclude(..) => {},
        EventModel::ExcludeInput(..) => {},
        EventModel::ExcludeSubmit => {},
        EventModel::SetRetention(..) => {},
        EventModel::ToggleTracking => {},
        EventModel::RequestClearHistory => {},
        EventModel::ConfirmClearHistory => {},
        EventModel::CancelClearHistory => {},
        EventModel::GoPage(..) => {},
        EventModel::ToggleRaw => {},
        EventModel::ToggleDetailMenu => {},
        EventModel::SetPinned { .. } => {},
        EventModel::OpenContentModal(..) => {},
        EventModel::CloseContentModal => {},
        EventModel::OpenSource(..) => {},
        EventModel::OpenLink(..) => {},
        EventModel::WebSearch(..) => {},
        EventModel::ToggleQrCode => {},
        EventModel::SetFilter(..) => {},
        EventModel::TogglePinnedOnly => {},
        EventModel::SetSortOrder(..) => {},
        EventModel::ToggleListDensity => {},
        EventModel::WindowMinimize => {},
        EventModel::WindowClose => {},
        EventModel::SetHotkey(..) => {},
        EventModel::StartHotkeyRecord => {},
        EventModel::HotkeyRecordingReady(..) => {},
        EventModel::CancelHotkeyRecord => {},
        EventModel::RecordHotkeyKey { .. } => {},
        EventModel::HotkeyServiceStopped => {},
        EventModel::FocusSearch => {},
        EventModel::ClearSearch => {},
        EventModel::CheckUpdate => {},
        EventModel::DownloadUpdate => {},
        EventModel::OpenReleases => {},
        EventModel::OpenRepository => {},
    }
}

/// The window hides itself only where the tray can bring it back.
pub proof fn law_window_hides_only_with_a_tray(
    s: WindowModel,
    cards: Seq<(u32, Seq<char>)>,
    e: EventModel,
)
    requires
        !s.window_hidden,
        window_step(s, cards, e).0.window_hidden,
    ensures
        s.tray_available,
{
    reveal(act);
    match e {
        EventModel::SearchChanged(..) => {},
        EventModel::Select(..) => {},
        EventModel::OpenCardMenu(..) => {},
        EventModel::CloseCardMenu => {},
        EventModel::RecopySelected => {},
        EventModel::Copy(..) => {},
        EventModel::CopyPlainText(..) => {},
        EventModel::Delete(..) => {},
        EventModel::ExcludeSource(..) => {},
        EventModel::Unexclude(..) => {},
        EventModel::ExcludeInput(..) => {},
        EventModel::ExcludeSubmit => {},
        EventModel::SetRetention(..) => {},
        EventModel::ToggleTracking => {},
        EventModel::RequestClearHistory => {},
        EventModel::ConfirmClearHistory => {},
        EventModel::CancelClearHistory => {},
        EventModel::GoPage(..) => {},
        EventModel::ToggleRaw => {},
        EventModel::ToggleDetailMenu => {},
        EventModel::SetPinned { .. } => {},
        EventModel::OpenContentModal(..) => {},
        EventModel::CloseContentModal => {},
        EventModel::OpenSource(..) => {},
        EventModel::OpenLink(..) => {},
        EventModel::WebSearch(..) => {},
        EventModel::ToggleQrCode => {},
        EventModel::SetFilter(..) => {},
        EventModel::TogglePinnedOnly => {},
        EventModel::SetSortOrder(..) => {},
        EventModel::ToggleListDensity => {},
        EventModel::WindowMinimize => {},
        EventModel::WindowClose => {},
        EventModel::SetHotkey(..) => {},
        EventModel::StartHotkeyRecord => {},
        EventModel::HotkeyRecordingReady(..) => {},
        EventModel::CancelHotkeyRecord => {},
        EventModel::RecordHotkeyKey { .. } => {},
        EventModel::HotkeyServiceStopped => {},
        EventModel::FocusSearch => {},
        EventModel::ClearSearch => {},
        EventModel::CheckUpdate => {},
        EventModel::DownloadUpdate => {},
        EventModel::OpenReleases => {},
        EventModel::OpenRepository => {},
    }
}

proof fn lemma_tray_run_keeps_visibility(s: WindowModel, cmds: Seq<TrayCmd>)
    ensures
        tray_run(s, cmds).0.window_hidden == s.window_hidden,
        tray_run(s, cmds).0.tray_available == s.tray_available,
    decreases cmds.len(),
{
    if cmds.len() > 0 {
        lemma_tray_run_keeps_visibility(s, cmds.drop_first());
        lemma_tray_run_keeps_visibility(WindowModel { page: Page::Settings, ..s }, cmds.drop_first());
    }
}

/// When the tray goes away while the window is hidden, the window is asked
/// to come back, so it is never left without a way to reopen it.
pub proof fn law_hidden_window_returns_when_the_tray_is_gone(s: WindowModel, cmds: Seq<TrayCmd>)
    requires
        s.window_hidden,
        !tray_tick_spec(s, cmds, true).3,
    ensures
        tray_tick_spec(s, cmds, true).2.contains(WindowSignal::Activate),
        !tray_tick_spec(s, cmds, true).0.tray_available,
{
    lemma_tray_run_keeps_visibility(s, cmds);
    let r = tray_run(s, cmds);
    assert(tray_tick_spec(s, cmds, true).2 == r.2.push(WindowSignal::Activate));
    assert(r.2.push(WindowSignal::Activate)[r.2.len() as int] == WindowSignal::Activate);
}

} // verus!
