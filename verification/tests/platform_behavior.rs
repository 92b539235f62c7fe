//! Shortcuts, clipboard wire formats and release checks.

use veya::clipboard::{encode_hdrop_wide, wide, EVENT_NAME, MUTEX_NAME, WINDOW_TITLE};
use veya::hotkey::Hotkey;
use veya::update::{parse_http_response, parse_release, CheckResult};
use veya::platform::{enrich_clipboard, ClipboardChangeRaw, ClipboardPayloadRaw};
use veya::time::local_hhmm;
use veya::{payload_hash, ClipboardPayload, SourceConfidence};

#[test]
fn custom_shortcuts_round_trip_through_storage_and_window_message() {
    for shortcut in [
        "Alt+V",
        "Ctrl+Shift+K",
        "Ctrl+Alt+7",
        "Alt+F9",
        "Ctrl+Space",
    ] {
        let hotkey = Hotkey::parse(shortcut).expect(shortcut);
        assert_eq!(Hotkey::from_key(&hotkey.as_key()), hotkey);
        assert_eq!(Hotkey::from_code(hotkey.code()), Some(hotkey));
    }
    assert_eq!(Hotkey::from_key("alt_v"), Hotkey::alt_v());
    assert_eq!(Hotkey::from_key("disabled"), Hotkey::Disabled);
    assert_eq!(
        Hotkey::from_key(&Hotkey::Disabled.as_key()),
        Hotkey::Disabled
    );
    assert_eq!(Hotkey::from_key("关闭快捷键"), Hotkey::Disabled);
}

#[test]
fn rejects_unintended_single_keys_and_reserved_f12_or_alt_f4() {
    for shortcut in [
        "V", "Shift+V", "Alt+F4", "Ctrl+F12", "Win+V", "Alt+?", "Alt+",
    ] {
        assert_eq!(Hotkey::parse(shortcut), None, "{shortcut}");
    }
    assert_eq!(Hotkey::from_code(99), None);
}

#[test]
fn hdrop_encodes_unicode_paths_as_double_nul_terminated_wide_list() {
    let encoded = encode_hdrop_wide(&[
        "R:\\项目".encode_utf16().collect(),
        "R:\\项目_二".encode_utf16().collect(),
    ])
    .unwrap();
    let header = &encoded[..20];
    assert_eq!(&header[0..4], &20u32.to_le_bytes());
    assert_eq!(&header[4..12], &[0; 8]);
    assert_eq!(&header[12..16], &0u32.to_le_bytes());
    assert_eq!(&header[16..20], &1u32.to_le_bytes());
    let units: Vec<u16> = encoded[20..]
        .chunks_exact(2)
        .map(|pair| u16::from_le_bytes([pair[0], pair[1]]))
        .collect();
    assert_eq!(units.last(), Some(&0));
    assert_eq!(units.iter().rev().take_while(|unit| **unit == 0).count(), 2);
    assert!(String::from_utf16_lossy(&units).contains("项目"));
}

#[test]
fn names_are_nul_terminated() {
    assert_eq!(wide(MUTEX_NAME).last(), Some(&0));
    assert_eq!(wide(EVENT_NAME).last(), Some(&0));
    assert_eq!(wide(WINDOW_TITLE).last(), Some(&0));
}

#[test]
fn compares_release_versions() {
    let release = br#"{"tag_name":"v0.2.0"}"#;
    assert_eq!(
        parse_release(release, "0.1.9").unwrap(),
        CheckResult::Available {
            tag: "v0.2.0".into(),
            installer: None,
        }
    );
    assert_eq!(
        parse_release(release, "0.2.0").unwrap(),
        CheckResult::UpToDate
    );
    assert_eq!(
        parse_release(release, "0.3.0").unwrap(),
        CheckResult::UpToDate
    );
}

#[test]
fn rejects_invalid_release_tags() {
    assert!(parse_release(br#"{"tag_name":"preview"}"#, "0.1.0").is_err());
    assert!(parse_release(br#"{}"#, "0.1.0").is_err());
}

#[test]
fn distinguishes_no_release_from_network_or_api_errors() {
    assert_eq!(
        parse_http_response(b"{\"message\":\"Not Found\"}\n404", "0.1.0").unwrap(),
        CheckResult::NoRelease
    );
    assert!(parse_http_response(b"{}\n500", "0.1.0").is_err());
    assert!(parse_http_response(b"broken response", "0.1.0").is_err());
}

#[test]
fn clock_without_local_conversion_is_utc() {
    assert_eq!(local_hhmm(0, None), "00:00");
    assert_eq!(local_hhmm(3_600_000, None), "01:00");
    assert_eq!(local_hhmm(86_400_000 + 61 * 60_000, None), "01:01");
    assert_eq!(local_hhmm(-60_000, None), "23:59");
}

#[test]
fn enriched_clipboard_change_carries_payload_hash_and_names() {
    let raw = ClipboardChangeRaw {
        sequence: 12,
        payload: ClipboardPayloadRaw::Files(vec!["C:\\a.txt".to_string()]),
        owner_hwnd: 0,
        source_pid: 77,
        source_confidence: SourceConfidence::Likely,
        timestamp_ms: 5_000,
    };
    let change = enrich_clipboard(raw, "Explorer.exe".to_string(), "Docs".to_string()).expect("files");
    let payload = ClipboardPayload::Files(vec!["C:\\a.txt".to_string()]);
    assert_eq!(change.content_hash, payload_hash(&payload));
    assert_eq!(change.payload, payload);
    assert_eq!((change.sequence, change.source_pid, change.timestamp_ms), (12, 77, 5_000));
    assert_eq!(change.source_exe, "Explorer.exe");
    assert_eq!(change.source_window, "Docs");
    assert_eq!(change.source_confidence, SourceConfidence::Likely);

    let broken = ClipboardChangeRaw {
        sequence: 13,
        payload: ClipboardPayloadRaw::Dib { format: 8, bytes: vec![1, 2, 3] },
        owner_hwnd: 0,
        source_pid: 77,
        source_confidence: SourceConfidence::Exact,
        timestamp_ms: 6_000,
    };
    assert!(enrich_clipboard(broken, "x.exe".to_string(), String::new()).is_none());
}
