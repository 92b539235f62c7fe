//! Choosing the interface font among the installed faces.

use veya::fonts::{choose_ui_font, FontFace};

fn face(families: &[&str], file: Option<&str>) -> FontFace {
    FontFace {
        families: families.iter().map(|f| f.to_string()).collect(),
        file: file.map(str::to_string),
    }
}

#[test]
fn ui_font_is_a_cjk_family_not_latin() {
    let faces = vec![
        face(&["Segoe UI"], Some(r"C:\Windows\Fonts\segoeui.ttf")),
        face(&["Arial"], Some(r"C:\Windows\Fonts\arial.ttf")),
        face(&["Consolas"], Some(r"C:\Windows\Fonts\consola.ttf")),
        face(&["微软雅黑", "Microsoft YaHei"], Some(r"C:\Windows\Fonts\msyh.ttc")),
    ];
    let (name, _) = choose_ui_font(&faces, &[false; 4]);
    assert!(!name.is_empty());
    for latin in ["Segoe UI", "Fira Sans", "Fira Mono", "Consolas", "Arial"] {
        assert_ne!(name, latin, "must not pick Latin-only family");
    }
    assert_eq!(name, "Microsoft YaHei");
}

#[test]
fn preferred_family_wins_and_its_files_load_once() {
    let faces = vec![
        face(&["SimHei"], Some("simhei.ttf")),
        face(&["microsoft yahei ui"], Some(r"C:\Windows\Fonts\msyh.ttc")),
        face(&["Microsoft YaHei UI"], Some(r"C:\Windows\Fonts\msyh.ttc")),
        face(&["Microsoft YaHei UI"], None),
    ];
    let (name, files) = choose_ui_font(&faces, &[true, false, true, false]);
    assert_eq!(name, "Microsoft YaHei UI");
    assert_eq!(
        files,
        vec![
            r"C:\Windows\Fonts\msyh.ttc".to_string(),
            r"C:\Windows\Fonts\Deng.ttf".to_string()
        ]
    );
}

#[test]
fn without_chinese_faces_the_default_family_and_fallback_files_are_used() {
    let faces = vec![face(&["Segoe UI"], Some("segoeui.ttf"))];
    let (name, files) = choose_ui_font(&faces, &[false, true, false, true]);
    assert_eq!(name, "Microsoft YaHei UI");
    assert_eq!(
        files,
        vec![
            r"C:\Windows\Fonts\msyhbd.ttc".to_string(),
            r"C:\Windows\Fonts\simhei.ttf".to_string()
        ]
    );
}
