//! The tray icon's menu and states, application icons and window placement.

use veya::icons::{
    avatar_letter, brand_icon, brand_svg, icon_rgba, needs_mask_alpha, opaque_bounds, BrandIcon,
};
use veya::tray::{
    apply_tray_action, forward_tray_action, TrayCmd,
    tray_menu, tray_step, tray_tip, TrayEvent, TrayInput, ID_CLEAR, ID_EXIT, ID_PAUSE,
    ID_PAUSE10, TIMER_RESUME, WM_LBUTTONUP,
};
use std::cell::RefCell;
use std::sync::mpsc::channel;
use veya::worker::{WorkerCmd, WorkerHandle};

use veya::hotkey::Hotkey;
use veya::locate::exe_lookup;
use veya::registration::{HotkeyRegistry, Registered, HOTKEY_ID_A, HOTKEY_ID_B};
use veya::ui::{keep_on_work_area, ScreenRect};

#[test]
fn pause_entry_toggles_and_timed_pause_resumes() {
    let step = tray_step(false, TrayInput::Command(ID_PAUSE));
    assert!(step.paused && step.refresh_icon);
    assert_eq!(step.event, Some(TrayEvent::PauseTracking));
    let step = tray_step(true, TrayInput::Command(ID_PAUSE));
    assert!(!step.paused);
    assert_eq!(step.event, Some(TrayEvent::ResumeTracking));

    let step = tray_step(false, TrayInput::Command(ID_PAUSE10));
    assert!(step.paused && step.start_resume_timer);
    assert_eq!(step.event, Some(TrayEvent::Pause10Min));
    let step = tray_step(step.paused, TrayInput::Timer(TIMER_RESUME));
    assert!(!step.paused);
    assert_eq!(step.event, Some(TrayEvent::ResumeTracking));
    assert_eq!(tray_step(true, TrayInput::Timer(7)).event, None);
}

#[test]
fn tray_menu_clicks_and_exit() {
    assert!(tray_step(false, TrayInput::Mouse(WM_LBUTTONUP)).show_menu);
    assert!(!tray_step(false, TrayInput::Mouse(0x0200)).show_menu);
    let exit = tray_step(false, TrayInput::Command(ID_EXIT));
    assert!(exit.quit);
    assert_eq!(exit.event, Some(TrayEvent::Exit));
    // The command id travels in the low word.
    assert_eq!(
        tray_step(false, TrayInput::Command(0x1_0000 + ID_CLEAR)).event,
        Some(TrayEvent::ClearHistory)
    );
    assert!(tray_step(true, TrayInput::SyncPaused(false)).refresh_icon);
    assert!(tray_step(false, TrayInput::Destroy).quit);
}

#[test]
fn tray_labels_follow_the_state() {
    assert_eq!(tray_tip(true), "Veya（已暂停）");
    assert_eq!(tray_tip(false), "Veya");
    assert_eq!(tray_menu(true)[2], (ID_PAUSE, "恢复记录"));
    assert_eq!(tray_menu(false)[2], (ID_PAUSE, "暂停记录"));
    assert_eq!(tray_menu(false).len(), 6);
}

#[test]
fn icons_take_alpha_from_the_mask_when_the_bitmap_has_none() {
    // Two BGRA pixels without alpha; the mask hides the second one.
    let bgra = [10, 20, 30, 0, 40, 50, 60, 0];
    let mask = [0, 0, 0, 0, 255, 255, 255, 0];
    assert!(needs_mask_alpha(&bgra, false));
    assert!(!needs_mask_alpha(&bgra, true));
    assert_eq!(
        icon_rgba(&bgra, Some(&mask), false),
        Some(vec![30, 20, 10, 255, 60, 50, 40, 0])
    );
    // No mask: nothing is opaque, so everything is shown opaque.
    assert_eq!(
        icon_rgba(&bgra, None, false),
        Some(vec![30, 20, 10, 255, 60, 50, 40, 255])
    );
    // Black and transparent: nothing to show.
    assert_eq!(icon_rgba(&[0, 0, 0, 0], None, false), None);
    // Monochrome icons become black on white.
    assert_eq!(icon_rgba(&[0, 0, 200, 9], None, true), Some(vec![55, 55, 55, 255]));
}

#[test]
fn visible_area_of_an_icon() {
    // 3×2 pixels; alpha 200 at (1, 0) and (2, 1).
    let mut px = vec![0u8; 3 * 2 * 4];
    px[(0 * 3 + 1) * 4 + 3] = 200;
    px[(1 * 3 + 2) * 4 + 3] = 200;
    assert_eq!(opaque_bounds(&px, 3, 2, 8), Some((1, 0, 2, 1)));
    assert_eq!(opaque_bounds(&px, 3, 2, 200), None);
    assert_eq!(opaque_bounds(&[], 3, 2, 8), None);
}

#[test]
fn restored_window_is_pulled_onto_the_work_area() {
    let work = ScreenRect { left: 0, top: 0, right: 1920, bottom: 1040 };
    let inside = ScreenRect { left: 100, top: 100, right: 1180, bottom: 800 };
    assert_eq!(keep_on_work_area(inside, work), None);
    let off = ScreenRect { left: -500, top: 900, right: 580, bottom: 1600 };
    assert_eq!(keep_on_work_area(off, work), Some((0, 340, 1080, 700)));
    let huge = ScreenRect { left: 10, top: 10, right: 3000, bottom: 2000 };
    assert_eq!(keep_on_work_area(huge, work), Some((0, 0, 1920, 1040)));
}

fn hotkey(text: &str) -> Hotkey {
    Hotkey::parse(text).unwrap()
}

#[test]
fn a_new_shortcut_is_registered_before_the_old_one_is_released() {
    let log = RefCell::new(Vec::new());
    let mut registry = HotkeyRegistry::new();
    let report = registry.apply(
        hotkey("Alt+V"),
        |id, h| {
            log.borrow_mut().push(format!("register {id} {}", h.label()));
            Ok(())
        },
        |_, _| Ok(()),
        |id| {
            log.borrow_mut().push(format!("release {id}"));
            Ok(())
        },
    );
    assert_eq!(report, (hotkey("Alt+V"), None));
    let report = registry.apply(
        hotkey("Ctrl+Shift+K"),
        |id, h| {
            log.borrow_mut().push(format!("register {id} {}", h.label()));
            Ok(())
        },
        |_, _| Ok(()),
        |id| {
            log.borrow_mut().push(format!("release {id}"));
            Ok(())
        },
    );
    assert_eq!(report, (hotkey("Ctrl+Shift+K"), None));
    assert_eq!(
        *log.borrow(),
        vec![
            format!("register {HOTKEY_ID_A} Alt+V"),
            format!("register {HOTKEY_ID_B} Ctrl+Shift+K"),
            format!("release {HOTKEY_ID_A}"),
        ]
    );
    assert_eq!(registry.current(), hotkey("Ctrl+Shift+K"));
    assert!(registry.is_active(HOTKEY_ID_B as usize));
    assert!(!registry.is_active(HOTKEY_ID_A as usize));
}

#[test]
fn a_failed_change_keeps_the_old_shortcut() {
    let mut registry = HotkeyRegistry::new();
    registry.registered = Some(Registered {
        selection: hotkey("Alt+V"),
        id: HOTKEY_ID_A,
        suspended: false,
    });
    let report = registry.apply(
        hotkey("Ctrl+K"),
        |_, _| Err("in use".into()),
        |_, _| Ok(()),
        |_| panic!("the old shortcut must stay registered"),
    );
    assert_eq!(report, (hotkey("Alt+V"), Some("Ctrl+K 注册失败：in use".to_string())));
    assert_eq!(registry.current(), hotkey("Alt+V"));
    assert!(registry.is_active(HOTKEY_ID_A as usize));
}

#[test]
fn recording_suspends_and_resumes_the_shortcut() {
    let mut registry = HotkeyRegistry::new();
    registry.registered = Some(Registered {
        selection: hotkey("Alt+V"),
        id: HOTKEY_ID_A,
        suspended: false,
    });
    assert!(registry.suspend(|_| Ok(())).is_ok());
    assert!(!registry.is_active(HOTKEY_ID_A as usize));
    assert_eq!(registry.resume(|_, _| Ok(())), Some((hotkey("Alt+V"), None)));
    assert!(registry.is_active(HOTKEY_ID_A as usize));

    assert!(registry.suspend(|_| Ok(())).is_ok());
    assert_eq!(
        registry.resume(|_, _| Err("busy".into())),
        Some((Hotkey::Disabled, Some("Alt+V 恢复失败：busy".to_string())))
    );
    assert_eq!(registry.current(), Hotkey::Disabled);
    assert_eq!(registry.resume(|_, _| Ok(())), None);
}

#[test]
fn disabling_releases_the_live_shortcut() {
    let released = RefCell::new(None);
    let mut registry = HotkeyRegistry::new();
    registry.registered = Some(Registered {
        selection: hotkey("Alt+V"),
        id: HOTKEY_ID_B,
        suspended: false,
    });
    let report = registry.apply(
        Hotkey::Disabled,
        |_, _| Ok(()),
        |_, _| Ok(()),
        |id| {
            *released.borrow_mut() = Some(id);
            Ok(())
        },
    );
    assert_eq!(report, (Hotkey::Disabled, None));
    assert_eq!(*released.borrow(), Some(HOTKEY_ID_B));
    assert_eq!(registry.current(), Hotkey::Disabled);
}

#[test]
fn recording_reports_a_failed_release() {
    let mut registry = HotkeyRegistry::new();
    registry.registered = Some(Registered {
        selection: hotkey("Alt+V"),
        id: HOTKEY_ID_A,
        suspended: false,
    });
    assert_eq!(
        registry.set_recording(true, |_| Err("denied".into()), |_, _| Ok(())),
        Some((
            hotkey("Alt+V"),
            hotkey("Alt+V"),
            Some("快捷键录制准备失败：denied".to_string())
        ))
    );
    assert_eq!(registry.set_recording(true, |_| Ok(()), |_, _| Ok(())), None);
    assert_eq!(
        registry.set_recording(false, |_| Ok(()), |_, _| Ok(())),
        Some((hotkey("Alt+V"), hotkey("Alt+V"), None))
    );
}

#[test]
fn executable_lookup_plans_names_and_install_hints() {
    assert!(exe_lookup("  ").is_none());
    assert!(exe_lookup("unknown").is_none());

    let l = exe_lookup("Weixin.exe (likely)").unwrap();
    assert_eq!(l.direct, None);
    assert_eq!(l.file_name, "Weixin.exe");
    assert_eq!(l.alternative, Some("WeChat.exe"));
    assert_eq!(l.hints.len(), 4);
    assert_eq!(l.hints[0], r"Tencent\WeChat\WeChat.exe");

    let l = exe_lookup(r"C:\Program Files\Google\Chrome\Application\chrome.exe").unwrap();
    assert_eq!(
        l.direct.as_deref(),
        Some(r"C:\Program Files\Google\Chrome\Application\chrome.exe")
    );
    assert_eq!(l.file_name, "chrome.exe");
    assert_eq!(l.alternative, None);
    assert_eq!(l.hints, vec![r"Google\Chrome\Application\chrome.exe"]);

    let l = exe_lookup(r"D:\tools\").unwrap();
    assert_eq!(l.file_name, "tools");
    assert!(exe_lookup("notepad.exe").unwrap().hints.is_empty());
}

#[test]
fn avatars_use_brand_icons_or_a_monogram() {
    assert_eq!(brand_icon("WeChat.exe"), Some(BrandIcon::WeChat));
    assert_eq!(brand_icon("PowerShell.exe"), Some(BrandIcon::Terminal));
    assert_eq!(brand_icon("Code.exe (likely)"), Some(BrandIcon::VsCode));
    assert_eq!(brand_icon("notepad.exe"), None);
    assert!(brand_svg(BrandIcon::Chrome).contains("#1A73E8"));
    assert_eq!(avatar_letter("notepad.exe"), "N");
    assert_eq!(avatar_letter("ßtool.EXE"), "SS");
    assert_eq!(avatar_letter(".exe"), "?");
}

#[test]
fn tray_entries_send_their_own_worker_command() {
    let mut sent: Vec<WorkerCmd> = Vec::new();
    for cmd in [
        TrayCmd::ClearHistory,
        TrayCmd::PauseTracking,
        TrayCmd::Pause10Min,
        TrayCmd::ResumeTracking,
        TrayCmd::OpenWindow,
        TrayCmd::OpenSettings,
        TrayCmd::Exit,
    ] {
        let before = sent.len();
        let handled = forward_tray_action(cmd, |c| {
            sent.push(c);
            true
        });
        assert_eq!(handled, sent.len() == before + 1);
    }
    assert!(matches!(sent[0], WorkerCmd::ClearHistory));
    assert!(matches!(sent[1], WorkerCmd::SetTracking { on: false, request_id: None }));
    assert!(matches!(sent[2], WorkerCmd::SetTracking { on: false, request_id: None }));
    assert!(matches!(sent[3], WorkerCmd::SetTracking { on: true, request_id: None }));
    assert_eq!(sent.len(), 4);

    let (tx, rx) = channel();
    let worker = WorkerHandle { cmd_tx: tx };
    assert!(apply_tray_action(&TrayCmd::ResumeTracking, &worker));
    assert!(matches!(rx.try_recv(), Ok(WorkerCmd::SetTracking { on: true, request_id: None })));
    assert!(!apply_tray_action(&TrayCmd::Exit, &worker));
    assert!(rx.try_recv().is_err());
}
