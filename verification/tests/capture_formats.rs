//! Images and text as other applications put them on the clipboard, the
//! source of a copy, the paste hook, the shortcut recorder and installer
//! checks.

use sha2::{Digest, Sha256};
use veya::clipboard::{
    clipboard_text, dib_to_png, encode_dibv5, file_list_accepted, preferred_format, write_payload, CF_DIB,
    CF_DIBV5, CF_HDROP, CF_UNICODETEXT,
};
use veya::hotkey::{record_key_press, recorded_key, Hotkey, KeyInput, KeyModifiers, RecordOutcome};
use veya::platform::{
    clipboard_update_event, exe_display_name, window_title_text, ProcessImage, resolve_source, ClipboardPayloadRaw, PasteHook, PlatformEvent,
    WindowRef, VK_CONTROL, VK_INSERT, VK_SHIFT, VK_V, WM_KEYDOWN, WM_KEYUP,
};
use veya::update::{check_installer, parse_release, CheckResult};
use veya::{payload_hash, ClipboardPayload, PasteMethod, SourceConfidence};

fn png_of(width: u32, height: u32, rgba: [u8; 4]) -> Vec<u8> {
    let mut png = Vec::new();
    image::DynamicImage::ImageRgba8(image::RgbaImage::from_pixel(
        width,
        height,
        image::Rgba(rgba),
    ))
    .write_to(&mut std::io::Cursor::new(&mut png), image::ImageFormat::Png)
    .unwrap();
    png
}

fn write_u16(bytes: &mut [u8], offset: usize, value: u16) {
    bytes[offset..offset + 2].copy_from_slice(&value.to_le_bytes());
}

fn write_u32(bytes: &mut [u8], offset: usize, value: u32) {
    bytes[offset..offset + 4].copy_from_slice(&value.to_le_bytes());
}

fn write_i32(bytes: &mut [u8], offset: usize, value: i32) {
    bytes[offset..offset + 4].copy_from_slice(&value.to_le_bytes());
}

#[test]
fn png_round_trips_through_dibv5_and_preserves_dimensions() {
    let png = png_of(2, 1, [12, 34, 56, 78]);
    let dib = encode_dibv5(&png, 2, 1).unwrap();
    let (round_trip, width, height) = dib_to_png(CF_DIBV5, &dib).unwrap();
    let decoded = image::load_from_memory_with_format(&round_trip, image::ImageFormat::Png)
        .unwrap()
        .to_rgba8();
    assert_eq!((width, height), (2, 1));
    assert_eq!(decoded.get_pixel(0, 0).0, [12, 34, 56, 78]);
    assert_eq!(round_trip, png);
    assert_eq!(
        payload_hash(&ClipboardPayload::Image {
            png: png.clone(),
            width,
            height,
        }),
        payload_hash(&ClipboardPayload::Image {
            png: round_trip,
            width,
            height,
        })
    );
}

#[test]
fn dib_rejects_excessive_or_truncated_dimensions() {
    let mut dib = vec![0; 124];
    write_u32(&mut dib, 0, 124);
    write_i32(&mut dib, 4, 4096);
    write_i32(&mut dib, 8, 4096);
    write_u16(&mut dib, 12, 1);
    write_u16(&mut dib, 14, 32);
    assert!(dib_to_png(CF_DIBV5, &dib).is_none());

    write_i32(&mut dib, 4, 1);
    write_i32(&mut dib, 8, 1);
    assert!(dib_to_png(CF_DIBV5, &dib).is_none());
}

#[test]
fn dibv5_refuses_a_png_whose_size_was_misreported() {
    let png = png_of(2, 1, [1, 2, 3, 4]);
    assert_eq!(
        encode_dibv5(&png, 3, 1).unwrap_err(),
        "图片尺寸无效或超出支持范围"
    );
    assert_eq!(encode_dibv5(&[], 1, 1).unwrap_err(), "图片数据为空或超出支持大小");
    assert_eq!(encode_dibv5(b"not a png", 1, 1).unwrap_err(), "图片数据无效");
}

#[test]
fn file_lists_are_bounded() {
    assert!(file_list_accepted(&[3, 5]));
    assert!(!file_list_accepted(&[]));
    assert!(!file_list_accepted(&[3, 0]));
    assert!(!file_list_accepted(&[32_768]));
    assert!(file_list_accepted(&[32_767]));
    // 128 paths of 32767 units and their NULs make exactly 8 MiB.
    assert!(!file_list_accepted(&[32_767; 128]));
    assert!(file_list_accepted(&[32_767; 63]));
}

#[test]
fn clipboard_text_stops_at_the_first_nul() {
    let units: Vec<u16> = "hi\0junk".encode_utf16().collect();
    assert_eq!(clipboard_text(units.len() * 2, &units).as_deref(), Some("hi"));
    let units: Vec<u16> = "no terminator".encode_utf16().collect();
    assert_eq!(clipboard_text(units.len() * 2, &units), None);
    assert_eq!(clipboard_text(1, &[]), None);
    let lone_surrogate = [0xD800u16, 0];
    assert_eq!(clipboard_text(4, &lone_surrogate).as_deref(), Some("\u{FFFD}"));
}

#[test]
fn source_is_exact_only_for_the_clipboard_owner() {
    let w = |hwnd, pid| Some(WindowRef { hwnd, pid });
    assert_eq!(
        resolve_source(w(1, 10), w(2, 20), w(3, 30)),
        (1, 10, SourceConfidence::Exact)
    );
    assert_eq!(
        resolve_source(None, w(2, 20), w(3, 30)),
        (2, 20, SourceConfidence::Likely)
    );
    assert_eq!(
        resolve_source(None, None, w(3, 30)),
        (3, 30, SourceConfidence::Likely)
    );
    assert_eq!(resolve_source(None, None, None), (0, 0, SourceConfidence::Unknown));
}

#[test]
fn a_write_racing_the_owner_lookup_loses_its_source() {
    let source = (7, 70, SourceConfidence::Exact);
    let text = ClipboardPayloadRaw::Text("x".into());
    match clipboard_update_event(5, source, Some((5, text.clone())), 100) {
        PlatformEvent::ClipboardChange(c) => {
            assert_eq!((c.owner_hwnd, c.source_pid), (7, 70));
            assert_eq!(c.source_confidence, SourceConfidence::Exact);
            assert_eq!(c.timestamp_ms, 100);
        }
        other => panic!("unexpected {other:?}"),
    }
    match clipboard_update_event(5, source, Some((6, text)), 100) {
        PlatformEvent::ClipboardChange(c) => {
            assert_eq!(c.sequence, 6);
            assert_eq!((c.owner_hwnd, c.source_pid), (0, 0));
            assert_eq!(c.source_confidence, SourceConfidence::Unknown);
        }
        other => panic!("unexpected {other:?}"),
    }
    assert!(matches!(
        clipboard_update_event(5, source, None, 100),
        PlatformEvent::ClipboardSkipped { sequence: 5 }
    ));
}

#[test]
fn hook_reports_ctrl_v_and_shift_insert_only() {
    let mut hook = PasteHook::new();
    assert_eq!(hook.on_key(WM_KEYDOWN, VK_V, false, false), None);
    assert_eq!(hook.on_key(WM_KEYDOWN, VK_CONTROL, false, false), None);
    assert_eq!(
        hook.on_key(WM_KEYDOWN, VK_V, false, false),
        Some(PasteMethod::CtrlV)
    );
    assert_eq!(hook.on_key(WM_KEYUP, VK_V, false, false), None);
    assert_eq!(hook.on_key(WM_KEYUP, VK_CONTROL, false, false), None);
    assert_eq!(hook.on_key(WM_KEYDOWN, VK_V, false, false), None);
    // A late modifier message: the system already reports Ctrl held.
    assert_eq!(
        hook.on_key(WM_KEYDOWN, VK_V, true, false),
        Some(PasteMethod::CtrlV)
    );
    assert_eq!(hook.on_key(WM_KEYDOWN, VK_SHIFT, false, false), None);
    assert_eq!(
        hook.on_key(WM_KEYDOWN, VK_INSERT, false, false),
        Some(PasteMethod::ShiftInsert)
    );
    assert_eq!(hook.on_key(WM_KEYDOWN, 0x41, true, true), None);
}

#[test]
fn recorder_maps_keys_to_virtual_key_codes() {
    assert_eq!(recorded_key(&KeyInput::Space, None), Some(0x20));
    assert_eq!(recorded_key(&KeyInput::Function(1), None), Some(0x70));
    assert_eq!(recorded_key(&KeyInput::Function(11), None), Some(0x7A));
    assert_eq!(recorded_key(&KeyInput::Function(12), None), None);
    assert_eq!(recorded_key(&KeyInput::Character("k".into()), None), Some(0x4B));
    assert_eq!(recorded_key(&KeyInput::Character("7".into()), None), Some(0x37));
    assert_eq!(recorded_key(&KeyInput::Character("&".into()), Some(7)), Some(0x37));
    assert_eq!(recorded_key(&KeyInput::Character("ab".into()), None), None);
    assert_eq!(recorded_key(&KeyInput::Other, None), None);
}

#[test]
fn recorder_accepts_supported_combinations_only() {
    let mods = |alt, control, shift, logo| KeyModifiers { alt, control, shift, logo };
    let k = KeyInput::Character("k".into());
    assert_eq!(
        record_key_press(&k, None, mods(false, true, true, false)),
        RecordOutcome::Record(Hotkey::parse("Ctrl+Shift+K").unwrap())
    );
    assert_eq!(record_key_press(&k, None, mods(false, false, true, false)), RecordOutcome::Reject);
    assert_eq!(record_key_press(&k, None, mods(true, false, false, true)), RecordOutcome::Reject);
    assert_eq!(
        record_key_press(&KeyInput::Function(4), None, mods(true, false, false, false)),
        RecordOutcome::Reject
    );
    assert_eq!(record_key_press(&KeyInput::Escape, None, mods(true, false, false, false)), RecordOutcome::Cancel);
    assert_eq!(record_key_press(&KeyInput::Modifier, None, mods(true, false, false, false)), RecordOutcome::Ignore);
}

fn installer_release(digest: &str) -> String {
    format!(
        r#"{{"tag_name":"v0.2.0","assets":[{{"name":"veya-setup.exe","browser_download_url":"https://github.com/NGLSL/Veya/releases/download/v0.2.0/veya-setup.exe","size":7,"digest":"{digest}"}}]}}"#
    )
}

#[test]
fn accepts_only_installer_with_valid_github_digest() {
    let digest = format!("sha256:{:x}", Sha256::digest(b"payload"));
    let release = installer_release(&digest);
    let CheckResult::Available { installer, .. } =
        parse_release(release.as_bytes(), "0.1.0").unwrap()
    else {
        panic!("expected newer version")
    };
    let asset = installer.unwrap();
    assert_eq!(asset.size, 7);
    assert_eq!(asset.sha256, digest.trim_start_matches("sha256:"));
    assert!(check_installer(b"payload", &asset).is_ok() && check_installer(b"corrupt", &asset).is_err());

    let missing_digest = release.replace(&digest, "");
    assert!(matches!(
        parse_release(missing_digest.as_bytes(), "0.1.0").unwrap(),
        CheckResult::Available {
            installer: None,
            ..
        }
    ));
    let foreign_url = release.replace("github.com/NGLSL/Veya", "github.com/other/Veya");
    assert!(matches!(
        parse_release(foreign_url.as_bytes(), "0.1.0").unwrap(),
        CheckResult::Available {
            installer: None,
            ..
        }
    ));
}

#[test]
fn installer_checks_report_size_before_digest() {
    let digest = format!("sha256:{:x}", Sha256::digest(b"payload"));
    let release = installer_release(&digest);
    let CheckResult::Available { installer: Some(asset), .. } =
        parse_release(release.as_bytes(), "0.1.0").unwrap()
    else {
        panic!("expected an installer")
    };
    assert_eq!(check_installer(b"payloads", &asset).unwrap_err(), "安装包大小与发布信息不符");
    assert_eq!(check_installer(b"corrupt", &asset).unwrap_err(), "安装包 SHA-256 校验失败");
}

#[test]
fn files_win_over_images_and_images_over_text() {
    assert_eq!(preferred_format(true, true, true, true), Some(CF_HDROP));
    assert_eq!(preferred_format(false, true, true, true), Some(CF_DIBV5));
    assert_eq!(preferred_format(false, false, true, true), Some(CF_DIB));
    assert_eq!(preferred_format(false, false, false, true), Some(CF_UNICODETEXT));
    assert_eq!(preferred_format(false, false, false, false), None);
}

#[test]
fn process_and_window_names() {
    assert_eq!(exe_display_name(0, ProcessImage::Inaccessible), "unknown");
    assert_eq!(exe_display_name(42, ProcessImage::Inaccessible), "pid:42(inaccessible)");
    assert_eq!(exe_display_name(42, ProcessImage::QueryFailed), "pid:42(query-failed)");
    assert_eq!(
        exe_display_name(42, ProcessImage::Path(r"C:\Program Files\Tool\tool.exe".into())),
        "tool.exe"
    );
    let mut buf: Vec<u16> = "Notes - Editor".encode_utf16().collect();
    buf.extend([0, 65, 66]);
    assert_eq!(window_title_text(&buf), "Notes - Editor");
    let full: Vec<u16> = "no nul".encode_utf16().collect();
    assert_eq!(window_title_text(&full), "no nul");
}

#[test]
fn stale_file_list_fails_before_the_clipboard_is_touched() {
    let touched = std::cell::Cell::new(false);
    let payload = ClipboardPayload::Files(vec!["C:\\gone\\report.txt".to_string()]);
    let result = write_payload(&payload, &[false], |_, _| {
        touched.set(true);
        Ok(7)
    });
    assert_eq!(result, Err("文件或文件夹已不存在：C:\\gone\\report.txt".to_string()));
    assert!(!touched.get());

    let empty = ClipboardPayload::Files(Vec::new());
    assert!(write_payload(&empty, &[], |_, _| {
        touched.set(true);
        Ok(7)
    })
    .is_err());
    assert!(!touched.get());
}

#[test]
fn text_is_written_as_utf16_with_a_terminator() {
    let payload = ClipboardPayload::Text("hi".to_string());
    let mut seen: Option<(u32, Vec<u8>)> = None;
    let result = write_payload(&payload, &[], |format, bytes| {
        seen = Some((format, bytes));
        Ok(42)
    });
    assert_eq!(result, Ok(42));
    assert_eq!(seen, Some((CF_UNICODETEXT, vec![b'h', 0, b'i', 0, 0, 0])));
}

#[test]
fn clipboard_text_replaces_unpaired_surrogates() {
    let units: Vec<u16> = vec![0x61, 0xD800, 0x62, 0xD83D, 0xDE00, 0xDC00, 0, 0x63];
    assert_eq!(
        clipboard_text(units.len() * 2, &units).as_deref(),
        Some("a\u{FFFD}b\u{1F600}\u{FFFD}")
    );
}
