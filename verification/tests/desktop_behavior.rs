//! Window signals, previews, content classes and source exclusion.

use veya::format::{payload_kind, ContentKind};
use veya::platform::WindowSignal;
use veya::ui::{compact_preview, detail_content_preview, resolve_window_signals, WindowAction};
use veya::worker::is_excluded_source;
use veya::ClipboardPayload;

#[test]
fn hotkey_hides_visible_window_and_restores_hidden_or_minimized_window() {
    let hotkey = |visible| WindowSignal::Hotkey { visible };
    assert_eq!(
        resolve_window_signals(false, true, &[hotkey(true)]),
        Some(WindowAction::Hide)
    );
    assert_eq!(
        resolve_window_signals(false, true, &[hotkey(false)]),
        Some(WindowAction::Show)
    );
    assert_eq!(
        resolve_window_signals(true, true, &[hotkey(false)]),
        Some(WindowAction::Show)
    );
    assert_eq!(
        resolve_window_signals(false, false, &[hotkey(true)]),
        Some(WindowAction::Minimize)
    );
}

#[test]
fn repeated_hotkey_and_second_launch_resolve_in_order() {
    let visible = WindowSignal::Hotkey { visible: true };
    assert_eq!(
        resolve_window_signals(false, true, &[visible, visible]),
        Some(WindowAction::Show)
    );
    assert_eq!(
        resolve_window_signals(false, true, &[visible, WindowSignal::Activate]),
        Some(WindowAction::Show)
    );
    assert_eq!(resolve_window_signals(false, true, &[]), None);
}

#[test]
fn compact_preview_keeps_one_bounded_line() {
    assert_eq!(compact_preview("hello\nworld", 26), "hello…");
    assert_eq!(compact_preview("中文中文中文", 6), "中文中…");
}

#[test]
fn detail_preview_shows_two_bounded_lines_and_marks_hidden_content() {
    assert_eq!(
        detail_content_preview("short text"),
        ("short text".into(), false)
    );
    assert_eq!(
        detail_content_preview("first\nsecond\nthird"),
        ("first\nsecond…".into(), true),
    );
    let (preview, truncated) = detail_content_preview(&"中".repeat(40));
    assert!(truncated);
    assert_eq!(preview, format!("{}…", "中".repeat(28)));
}

#[test]
fn payload_kind_uses_real_clipboard_format_and_does_not_guess_from_paths() {
    assert_eq!(
        payload_kind(&ClipboardPayload::Text(
            r"C:\Users\admin\Pictures\photo.png".into()
        )),
        ContentKind::Text
    );
    assert_eq!(
        payload_kind(&ClipboardPayload::Files(vec![
            r"C:\Users\admin\Pictures\photo.png".into()
        ])),
        ContentKind::File
    );
    assert_eq!(
        payload_kind(&ClipboardPayload::Image {
            png: vec![137, 80, 78, 71],
            width: 10,
            height: 20,
        }),
        ContentKind::Image
    );
}

#[test]
fn excluded_app_matches_win32_exe_name_regardless_of_case() {
    let excluded_apps = ["chatgpt.exe".to_string()];
    let observed_source = "ChatGPT.exe";

    assert!(is_excluded_source(&excluded_apps, observed_source));
    assert!(is_excluded_source(&excluded_apps, "CHATGPT.EXE (likely)"));
    assert!(!is_excluded_source(&excluded_apps, "ChatGPT-helper.exe"));
}
