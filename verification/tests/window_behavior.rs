//! The main window's reactions to user actions.

use veya::capture::UsedInView;
use veya::format::content_kind;
use veya::history::{CardPayloadView, CardView};
use veya::hotkey::{Hotkey, KeyInput, KeyModifiers};
use veya::platform::WindowSignal;
use veya::tray::TrayCmd;
use veya::ui::{Filter, Page, WindowAction};
use veya::window::{WindowEffect, WindowEvent, WindowState};
use veya::worker::WorkerCmd;
use veya::SourceConfidence;

fn card(sequence: u32, content: &str) -> CardView {
    CardView {
        sequence,
        first_ms: 0,
        raw_count: 1,
        raw_sequences: vec![sequence],
        content_preview: content.to_string(),
        full_content: content.to_string(),
        payload: CardPayloadView::Text,
        kind: content_kind(content),
        pinned: false,
        source_app: "test.exe".to_string(),
        source_confidence: SourceConfidence::Exact,
        source_window: String::new(),
        time_full: String::new(),
        relative_time: String::new(),
        time_range: String::new(),
        used_in: Vec::<UsedInView>::new(),
        used_in_apps: Vec::new(),
        has_paste_activity: false,
        paste_detail: "",
    }
}

#[test]
fn copying_needs_a_known_card_and_marks_the_copy() {
    let cards = vec![card(1, "hello"), card(2, "world")];
    let mut w = WindowState::new(true);
    let fx = w.update(&cards, WindowEvent::RecopySelected);
    assert!(fx.is_empty());
    w.update(&cards, WindowEvent::Select(2));
    let fx = w.update(&cards, WindowEvent::RecopySelected);
    assert!(matches!(
        fx.as_slice(),
        [WindowEffect::Send(WorkerCmd::Recopy { sequence: 2 })]
    ));
    assert_eq!(w.copied_tick, 6);
    let fx = w.update(&cards, WindowEvent::CopyPlainText(1));
    assert!(matches!(
        fx.as_slice(),
        [WindowEffect::Send(WorkerCmd::RecopyText { text })] if text == "hello"
    ));
    assert!(w.update(&cards, WindowEvent::Copy(9)).is_empty());
}

#[test]
fn any_other_action_closes_the_card_menu() {
    let cards = vec![card(1, "hello")];
    let mut w = WindowState::new(true);
    let fx = w.update(&cards, WindowEvent::OpenCardMenu(1));
    assert_eq!(w.card_menu, Some(1));
    assert_eq!(w.selected, Some(1));
    assert!(matches!(
        fx.as_slice(),
        [WindowEffect::ShareSelection(1), WindowEffect::CacheSourcePath]
    ));
    // Escape with an open menu only closes the menu.
    w.search = "abc".into();
    assert!(w.update(&cards, WindowEvent::ClearSearch).is_empty());
    assert_eq!(w.card_menu, None);
    assert_eq!(w.search, "abc");
    let fx = w.update(&cards, WindowEvent::ClearSearch);
    assert!(matches!(fx.as_slice(), [WindowEffect::RefreshSelection]));
    assert_eq!(w.search, "");
}

#[test]
fn closing_hides_to_the_tray_or_quits_without_one() {
    let mut w = WindowState::new(true);
    let fx = w.update(&[], WindowEvent::WindowClose);
    assert!(w.window_hidden);
    assert!(matches!(fx.as_slice(), [WindowEffect::HideWindow]));
    let mut w = WindowState::new(false);
    let fx = w.update(&[], WindowEvent::WindowClose);
    assert!(matches!(
        fx.as_slice(),
        [
            WindowEffect::Send(WorkerCmd::SetTracking {
                on: false,
                request_id: None
            }),
            WindowEffect::Quit
        ]
    ));
}

#[test]
fn recording_a_shortcut() {
    let mut w = WindowState::new(true);
    let fx = w.update(&[], WindowEvent::StartHotkeyRecord);
    assert!(matches!(fx.as_slice(), [WindowEffect::HotkeyRecording(true)]));
    assert!(!w.hotkey_recording);
    w.update(&[], WindowEvent::HotkeyRecordingReady(true));
    assert!(w.hotkey_recording);
    let mods = KeyModifiers { alt: false, control: false, shift: true, logo: false };
    w.update(
        &[],
        WindowEvent::RecordHotkeyKey { key: KeyInput::Character("k".into()), physical_digit: None, modifiers: mods },
    );
    assert_eq!(
        w.hotkey_record_error.as_deref(),
        Some("请按 Ctrl 或 Alt + 字母、数字、Space 或 F1–F11；Esc 取消")
    );
    let mods = KeyModifiers { alt: false, control: true, shift: true, logo: false };
    let fx = w.update(
        &[],
        WindowEvent::RecordHotkeyKey { key: KeyInput::Character("k".into()), physical_digit: None, modifiers: mods },
    );
    let expected = Hotkey::parse("Ctrl+Shift+K").unwrap();
    assert!(matches!(fx.as_slice(), [WindowEffect::SendHotkey(h)] if *h == expected));
    assert!(!w.hotkey_recording);
    assert_eq!(w.hotkey_record_error, None);
    w.update(&[], WindowEvent::HotkeyServiceStopped);
    assert_eq!(w.hotkey_record_error.as_deref(), Some("快捷键服务已停止，请重启 Veya"));
}

#[test]
fn leaving_a_page_stops_recording_and_closes_the_modal() {
    let cards = vec![card(1, "hello")];
    let mut w = WindowState::new(true);
    w.update(&[], WindowEvent::HotkeyRecordingReady(true));
    w.update(&cards, WindowEvent::OpenContentModal(1));
    assert_eq!(w.content_modal_for, Some(1));
    let fx = w.update(&cards, WindowEvent::GoPage(Page::Settings));
    assert!(matches!(fx.as_slice(), [WindowEffect::HotkeyRecording(false)]));
    assert_eq!(w.page, Page::Settings);
    assert_eq!(w.content_modal_for, None);
    assert!(!w.hotkey_recording);
}

#[test]
fn exclusion_input_is_trimmed_and_cleared() {
    let mut w = WindowState::new(true);
    w.update(&[], WindowEvent::ExcludeInput("  chatgpt.exe ".into()));
    let fx = w.update(&[], WindowEvent::ExcludeSubmit);
    assert!(matches!(
        fx.as_slice(),
        [WindowEffect::Send(WorkerCmd::ExcludeApp { exe })] if exe == "chatgpt.exe"
    ));
    assert_eq!(w.exclude_input, "");
    w.update(&[], WindowEvent::ExcludeInput("   ".into()));
    assert!(w.update(&[], WindowEvent::ExcludeSubmit).is_empty());
}

#[test]
fn toolbar_changes_ask_for_a_new_selection() {
    let mut w = WindowState::new(true);
    let fx = w.update(&[], WindowEvent::SetFilter(Filter::Code));
    assert_eq!(w.filter, Filter::Code);
    assert!(matches!(fx.as_slice(), [WindowEffect::RefreshSelection]));
    let fx = w.update(&[], WindowEvent::OpenLink(" www.example.com ".into()));
    assert!(matches!(fx.as_slice(), [WindowEffect::Open(t)] if t == "https://www.example.com"));
    assert!(w.update(&[], WindowEvent::OpenLink("file:///etc".into())).is_empty());
}

#[test]
fn snapshots_keep_the_selection_on_shown_cards() {
    let mut w = WindowState::new(true);
    w.selected = Some(3);
    w.detail_menu_open = true;
    w.content_modal_for = Some(3);
    w.card_menu = Some(2);
    w.after_snapshot(&[1, 2, 3], &[1, 2]);
    assert_eq!(w.selected, Some(1));
    assert!(!w.detail_menu_open);
    assert_eq!(w.content_modal_for, None);
    assert_eq!(w.card_menu, Some(2));
    w.after_snapshot(&[1], &[1]);
    assert_eq!(w.card_menu, None);
    w.reselect(&[]);
    assert_eq!(w.selected, None);
}

#[test]
fn window_requests_and_tray_menu() {
    let mut w = WindowState::new(true);
    let fx = w.apply_window_action(WindowAction::Hide);
    assert!(w.window_hidden);
    assert!(matches!(fx.as_slice(), [WindowEffect::HideWindow]));
    let (fx, signals, quit) = w.tray_tick(
        &[TrayCmd::PauseTracking, TrayCmd::OpenSettings],
        false,
    );
    assert!(!quit);
    assert_eq!(w.page, Page::Settings);
    assert_eq!(signals, vec![WindowSignal::Activate]);
    assert!(matches!(
        fx.as_slice(),
        [WindowEffect::Send(WorkerCmd::SetTracking { on: false, request_id: None })]
    ));
    // The tray is gone while the window is hidden: it comes back.
    let (_, signals, quit) = w.tray_tick(&[], true);
    assert!(!quit && !w.tray_available);
    assert_eq!(signals, vec![WindowSignal::Activate]);
    let (fx, _, quit) = w.tray_tick(&[TrayCmd::OpenWindow, TrayCmd::Exit, TrayCmd::ClearHistory], false);
    assert!(quit);
    assert!(matches!(fx.last(), Some(WindowEffect::Quit)));
    let fx = w.apply_window_action(WindowAction::Show);
    assert!(!w.window_hidden);
    assert!(matches!(fx.as_slice(), [WindowEffect::ShowWindow]));
}
