//! Decisions the settings page and the detail panel show: the shortcut status
//! line, the update button, and the detail action row.

use veya::detail::{detail_actions, DetailAction};
use veya::format::ContentKind;
use veya::hotkey::{hotkey_status, Hotkey, StatusTone, MOD_CONTROL};
use veya::update::{InstallerAsset, UpdateButtonAction, UpdateCheck, UpdateStatus};

#[test]
fn shortcut_status_line_follows_its_priority() {
    let alt_v = Hotkey::alt_v();
    let ctrl_k = Hotkey::Keys { modifiers: MOD_CONTROL, key: 0x4B };
    let none: Option<String> = None;
    let err = Some("热键已被占用".to_string());

    assert_eq!(
        hotkey_status(&Some("不支持".to_string()), true, &err, alt_v, alt_v),
        ("不支持".to_string(), StatusTone::Danger)
    );
    assert_eq!(
        hotkey_status(&none, true, &err, alt_v, alt_v).1,
        StatusTone::Accent
    );
    assert_eq!(
        hotkey_status(&none, false, &err, alt_v, alt_v),
        ("热键已被占用".to_string(), StatusTone::Danger)
    );
    assert_eq!(
        hotkey_status(&none, false, &none, Hotkey::Disabled, alt_v),
        ("窗口快捷键已关闭".to_string(), StatusTone::Muted)
    );
    assert_eq!(
        hotkey_status(&none, false, &none, alt_v, alt_v),
        ("Alt+V 已生效".to_string(), StatusTone::Success)
    );
    assert_eq!(
        hotkey_status(&none, false, &none, ctrl_k, alt_v),
        ("正在注册快捷键…".to_string(), StatusTone::Muted)
    );
}

#[test]
fn update_button_offers_install_only_with_an_installer() {
    let mut check = UpdateCheck::default();
    assert_eq!(check.button(), ("检查", UpdateButtonAction::Check));

    check.status = UpdateStatus::Checking;
    assert_eq!(check.button(), ("检查中…", UpdateButtonAction::Disabled));
    check.status = UpdateStatus::Downloading;
    assert_eq!(check.button(), ("下载中…", UpdateButtonAction::Disabled));

    check.status = UpdateStatus::Available("v0.2.0".to_string());
    assert_eq!(check.button(), ("检查", UpdateButtonAction::Check));
    check.installer = Some(InstallerAsset {
        url: "https://example.com/veya-setup.exe".to_string(),
        size: 10,
        sha256: "00".repeat(32),
    });
    assert_eq!(check.button(), ("下载并安装", UpdateButtonAction::DownloadAndInstall));
}

#[test]
fn detail_actions_depend_on_kind_and_payload() {
    assert_eq!(
        detail_actions(ContentKind::Link, false, true),
        vec![
            DetailAction::OpenLink,
            DetailAction::WebSearch,
            DetailAction::CopyPlainText,
            DetailAction::QrCode,
            DetailAction::ExpandFull,
        ]
    );
    assert_eq!(
        detail_actions(ContentKind::Image, true, false),
        vec![DetailAction::ViewImage, DetailAction::CopyPlainText]
    );
    assert_eq!(
        detail_actions(ContentKind::File, false, false),
        vec![DetailAction::CopyPlainText]
    );
    assert_eq!(
        detail_actions(ContentKind::Code, false, false),
        vec![DetailAction::WebSearch, DetailAction::CopyPlainText, DetailAction::QrCode]
    );
}
