//! The history list: filters, search, order and selection; the detail header.

use veya::capture::UsedInView;
use veya::detail::{
    detail_subtitle, detail_title, extract_context_preview, short_app, truncate_path,
};
use veya::format::{content_kind, ContentKind};
use veya::history::{CardPayloadView, CardView};
use veya::icons::{app_tint_index, Icon};
use veya::listing::{ensure_visible_selection, visible_cards};
use veya::ui::{Filter, SortOrder};
use veya::SourceConfidence;

fn card(sequence: u32, first_ms: i64, content: &str) -> CardView {
    CardView {
        sequence,
        first_ms,
        raw_count: 1,
        raw_sequences: vec![sequence],
        content_preview: content.to_string(),
        full_content: content.to_string(),
        payload: CardPayloadView::Text,
        kind: content_kind(content),
        pinned: false,
        source_app: "test.exe".to_string(),
        source_confidence: SourceConfidence::Exact,
        source_window: String::new(),
        time_full: String::new(),
        relative_time: String::new(),
        time_range: String::new(),
        used_in: Vec::<UsedInView>::new(),
        used_in_apps: Vec::new(),
        has_paste_activity: false,
        paste_detail: "",
    }
}

fn shown(
    cards: &[CardView],
    filter: Filter,
    pinned_only: bool,
    order: SortOrder,
    query: &str,
) -> Vec<u32> {
    visible_cards(cards, filter, pinned_only, order, query)
        .iter()
        .map(|&i| cards[i].sequence)
        .collect()
}

#[test]
fn filtering_search_and_sort_use_actual_content_and_stable_ties() {
    let mut cards = vec![
        card(3, 200, "SELECT * FROM users"),
        card(1, 100, "https://example.com"),
        card(2, 200, r"C:\Users\admin\report.pdf"),
        card(4, 200, "ordinary note"),
    ];
    cards[0].pinned = true;
    assert_eq!(shown(&cards, Filter::Code, false, SortOrder::Newest, ""), [3]);
    assert_eq!(
        content_kind("// Rust snippet\nfn process() {}"),
        ContentKind::Code
    );
    assert_eq!(shown(&cards, Filter::Link, false, SortOrder::Newest, ""), [1]);
    assert_eq!(
        shown(&cards, Filter::Text, false, SortOrder::Newest, ""),
        [4, 2]
    );
    assert_eq!(
        shown(&cards, Filter::Text, false, SortOrder::Newest, "report"),
        [2]
    );
    assert_eq!(
        shown(&cards, Filter::All, false, SortOrder::Oldest, ""),
        [1, 2, 3, 4]
    );
    assert_eq!(
        shown(&cards, Filter::All, false, SortOrder::Newest, ""),
        [4, 3, 2, 1]
    );
    assert!(shown(&cards, Filter::File, false, SortOrder::Newest, "").is_empty());
    assert!(shown(&cards, Filter::Image, false, SortOrder::Newest, "").is_empty());
    assert_eq!(shown(&cards, Filter::All, true, SortOrder::Newest, ""), [3]);
    assert_eq!(shown(&cards, Filter::Code, true, SortOrder::Newest, ""), [3]);
}

#[test]
fn file_and_image_filters_follow_the_captured_payload_kind() {
    let mut cards = vec![
        card(1, 100, r"C:\Users\admin\Pictures\photo.png"),
        card(2, 200, "image 640 × 480"),
    ];
    cards[0].payload =
        CardPayloadView::Files(vec![r"C:\Users\admin\Pictures\photo.png".into()]);
    cards[0].kind = ContentKind::File;
    cards[1].payload = CardPayloadView::Image {
        width: 640,
        height: 480,
        encoded_bytes: 4,
    };
    cards[1].kind = ContentKind::Image;

    let by_filter = |filter| shown(&cards, filter, false, SortOrder::Newest, "");
    assert_eq!(by_filter(Filter::File), [1]);
    assert_eq!(by_filter(Filter::Image), [2]);
}

#[test]
fn search_reaches_paste_targets_and_ignores_case() {
    let mut cards = vec![card(1, 100, "hello"), card(2, 200, "JWT token")];
    cards[0].used_in_apps = vec!["notepad.exe".into()];
    assert_eq!(
        shown(&cards, Filter::All, false, SortOrder::Newest, "NOTEPAD"),
        [1]
    );
    assert_eq!(
        shown(&cards, Filter::All, false, SortOrder::Newest, "  jwt "),
        [2]
    );
    assert!(shown(&cards, Filter::All, false, SortOrder::Newest, "absent").is_empty());
}

#[test]
fn selection_stays_while_shown_and_falls_back_to_the_first_card() {
    assert_eq!(ensure_visible_selection(&[4, 3, 2], Some(3)), Some(3));
    assert_eq!(ensure_visible_selection(&[4, 3, 2], Some(9)), Some(4));
    assert_eq!(ensure_visible_selection(&[4, 3, 2], None), Some(4));
    assert_eq!(ensure_visible_selection(&[], Some(3)), None);
}

#[test]
fn filter_chips_have_their_icons() {
    assert_eq!(Filter::All.icon(), Icon::List);
    assert_eq!(Filter::Image.icon(), Icon::Image);
}

#[test]
fn link_titles_name_known_sites_and_fall_back_to_the_host() {
    let mut c = card(1, 0, "  https://github.com/NGLSL/Veya/  ");
    assert_eq!(c.kind, ContentKind::Link);
    assert_eq!(detail_title(&c), "GitHub - NGLSL/Veya");
    c.full_content = "https://github.com/".into();
    assert_eq!(detail_title(&c), "GitHub 仓库");
    c.full_content = "https://chatgpt.com/c/1".into();
    assert_eq!(detail_title(&c), "ChatGPT 对话链接");
    c.full_content = "https://example.org/a".into();
    assert_eq!(detail_title(&c), "网页链接 · example.org");
    c.relative_time = "刚刚".into();
    c.time_full = "2024-01-01 08:00".into();
    assert_eq!(detail_subtitle(&c), "example.org · 刚刚 · 2024-01-01 08:00");
}

#[test]
fn code_and_text_titles_follow_the_first_line() {
    let c = card(1, 0, "SELECT * FROM users");
    assert_eq!(detail_title(&c), "SQL 查询语句");
    let c = card(2, 0, "fn main() {}\nlet x = 1;");
    assert_eq!(c.kind, ContentKind::Code);
    assert_eq!(detail_title(&c), "代码 · fn main() {}");
    let c = card(3, 0, "  short note ");
    assert_eq!(detail_title(&c), "short note");
    let mut c = card(4, 0, "line one\nline two");
    c.content_preview = "abcdefghijklmnopqrstuvwxyz".into();
    assert_eq!(detail_title(&c), "abcdefghijklmnopqrstuvwx…");
}

#[test]
fn file_and_image_headers_describe_the_payload() {
    let mut c = card(1, 0, "");
    c.payload = CardPayloadView::Files(vec!["a".into(), "b".into()]);
    c.relative_time = "1 分钟前".into();
    c.time_full = "T".into();
    assert_eq!(detail_title(&c), "文件列表 · 2 项");
    assert_eq!(detail_subtitle(&c), "2 项 · 1 分钟前 · T");
    c.payload = CardPayloadView::Image { width: 640, height: 480, encoded_bytes: 9 };
    assert_eq!(detail_title(&c), "剪贴板图片");
    assert_eq!(detail_subtitle(&c), "640 × 480 px · T");
}

#[test]
fn context_preview_prefers_the_link_then_the_window() {
    let (icon, title, caption) =
        extract_context_preview("https://www.bilibili.com/video/1", "Edge").unwrap();
    assert_eq!((icon, title.as_str(), caption.as_str()), (Icon::Globe, "哔哩哔哩", "www.bilibili.com"));
    let (icon, title, caption) = extract_context_preview("https://a.io/x", "Docs").unwrap();
    assert_eq!((icon, title.as_str(), caption.as_str()), (Icon::Globe, "Docs", "a.io"));
    let (_, title, _) = extract_context_preview("https://a.io/x", "unknown").unwrap();
    assert_eq!(title, "网页链接");
    let (icon, title, caption) = extract_context_preview("plain", "  Notes  ").unwrap();
    assert_eq!((icon, title.as_str(), caption.as_str()), (Icon::External, "Notes", "窗口上下文"));
    assert!(extract_context_preview("plain", "-").is_none());
}

#[test]
fn application_names_are_shortened() {
    assert_eq!(short_app("CHROME.EXE (likely)"), "Chrome");
    assert_eq!(short_app("Weixin.exe"), "微信");
    assert_eq!(short_app("notepad.exe"), "notepad");
    assert_eq!(short_app("Tool.EXE"), "Tool");
}

#[test]
fn long_paths_keep_drive_first_folder_and_file() {
    let path = r"C:\Program Files\Google\Chrome\Application\chrome.exe";
    assert_eq!(truncate_path(path, 100), path);
    assert_eq!(truncate_path(path, 40), r"C:\Program Files\...\chrome.exe");
    assert_eq!(truncate_path(path, 10), "C:\\Progra…");
}

#[test]
fn application_tints_are_stable_and_in_the_palette() {
    let a = app_tint_index("chrome.exe");
    assert_eq!(a, app_tint_index("chrome.exe"));
    assert!(a < 8);
    assert_eq!(app_tint_index(""), 0);
    // One byte: the hash is the byte itself.
    assert_eq!(app_tint_index("a"), (b'a' as usize) % 8);
}
