//! The capture worker: history pages, exclusions, Veya's own copies and the
//! tracking switch.

use std::sync::mpsc::channel;

use veya::capture::{HistoryFilter, HistoryQuery};
use veya::history::{HistoryPager, HISTORY_PAGE_SIZE};
use veya::tracking::TrackingControl;
use veya::worker::{discard_purged_record, is_excluded_source, write_internal_payload, WorkerCmd, WorkerState};
use veya::history::page_card_views;
use veya::history_cards;
use veya::{
    payload_hash, ClipboardChange, ClipboardPayload, ClipboardRecord, FlowEngine, FlowOutcome,
    HistoryCard, PasteConfidence, PasteMethod, PasteTriggerRecord, SourceConfidence,
};

fn text_record(sequence: u32, text: &str, created_at_ms: i64) -> ClipboardRecord {
    let payload = ClipboardPayload::Text(text.to_string());
    ClipboardRecord {
        sequence,
        content_type: "text".into(),
        content: text.into(),
        content_hash: payload_hash(&payload),
        payload,
        source_app: "test.exe".into(),
        source_pid: 1,
        source_window: String::new(),
        source_confidence: SourceConfidence::Exact,
        created_at_ms,
        pinned: false,
        pastes: Vec::new(),
    }
}

/// One page read the way the store hands records over: by creation time and
/// sequence, newest or oldest first.
fn load_page(records: &[ClipboardRecord], query: &HistoryQuery) -> (Vec<HistoryCard>, bool) {
    let mut ordered = records.to_vec();
    ordered.sort_by_key(|r| (r.created_at_ms, r.sequence));
    if query.newest_first {
        ordered.reverse();
    }
    let mut pager = HistoryPager::new(query);
    for record in ordered {
        if pager.push(record) {
            return (pager.into_cards(), true);
        }
    }
    let has_next = pager.finish();
    (pager.into_cards(), has_next)
}

#[test]
fn history_paging_searches_all_records_without_retaining_all_cards() {
    let records: Vec<_> = (1..=30)
        .map(|sequence| {
            text_record(
                sequence,
                &format!("entry-{sequence:02}-X"),
                i64::from(sequence) * 10_000,
            )
        })
        .collect();

    let mut query = HistoryQuery::default();
    let (first, has_next) = load_page(&records, &query);
    assert_eq!(first.len(), HISTORY_PAGE_SIZE);
    assert_eq!(first.first().unwrap().representative_sequence, 30);
    assert_eq!(first.last().unwrap().representative_sequence, 6);
    assert!(has_next);

    query.page = 1;
    let (second, has_next) = load_page(&records, &query);
    assert_eq!(second.len(), 5);
    assert_eq!(second.first().unwrap().representative_sequence, 5);
    assert_eq!(second.last().unwrap().representative_sequence, 1);
    assert!(!has_next);

    query.page = 0;
    query.search = "entry-03-X".into();
    let (matches, has_next) = load_page(&records, &query);
    assert_eq!(matches.len(), 1);
    assert_eq!(matches[0].representative_sequence, 3);
    assert!(!has_next);

    query.search.clear();
    query.newest_first = false;
    let (oldest, has_next) = load_page(&records, &query);
    assert_eq!(oldest.first().unwrap().representative_sequence, 1);
    assert_eq!(oldest.last().unwrap().representative_sequence, 25);
    assert!(has_next);
}

#[test]
fn history_group_survives_storage_batch_boundary() {
    let records: Vec<_> = (1..=18)
        .map(|sequence| {
            let grouped = (2..=4).contains(&sequence);
            let mut record = text_record(
                sequence,
                if grouped { "repeated" } else { "other" },
                if grouped {
                    20_000 + i64::from(sequence) * 100
                } else {
                    i64::from(sequence) * 10_000
                },
            );
            if !grouped {
                record.content_hash = format!("unique-{sequence}");
            }
            record
        })
        .collect();

    let (cards, has_next) = load_page(&records, &HistoryQuery::default());
    let grouped = cards
        .iter()
        .find(|card| card.representative_sequence == 2)
        .unwrap();
    assert_eq!(grouped.copy_count, 3);
    assert_eq!(grouped.raw_sequences, vec![2, 3, 4]);
    assert!(!has_next);
}

#[test]
fn history_filters_use_payload_kind_pin_and_paste_target_across_storage() {
    let mut link = text_record(1, "https://example.com", 10_000);
    link.pastes.push(PasteTriggerRecord {
        target_app: "target-app.exe".into(),
        target_pid: 2,
        target_window: String::new(),
        method: PasteMethod::CtrlV,
        confidence: PasteConfidence::HotkeyObserved,
        triggered_at_ms: 11_000,
    });
    let mut code = text_record(2, "SELECT * FROM notes", 20_000);
    code.pinned = true;
    let path_text = text_record(3, r"C:\Pictures\image.png", 30_000);
    let mut files = text_record(4, "", 40_000);
    files.payload = ClipboardPayload::Files(vec![r"C:\Pictures\image.png".into()]);
    files.content_hash = payload_hash(&files.payload);
    let mut image = text_record(5, "", 50_000);
    let mut png = Vec::new();
    image::DynamicImage::ImageRgba8(image::RgbaImage::from_pixel(
        1,
        1,
        image::Rgba([1, 2, 3, 255]),
    ))
    .write_to(&mut std::io::Cursor::new(&mut png), image::ImageFormat::Png)
    .unwrap();
    image.payload = ClipboardPayload::Image {
        png,
        width: 1,
        height: 1,
    };
    image.content_hash = payload_hash(&image.payload);
    let records = vec![link, code, path_text, files, image];

    let sequences = |query: &HistoryQuery| {
        load_page(&records, query)
            .0
            .iter()
            .map(|card| card.representative_sequence)
            .collect::<Vec<_>>()
    };
    let mut query = HistoryQuery::default();
    for (filter, expected) in [
        (HistoryFilter::Link, 1),
        (HistoryFilter::Code, 2),
        (HistoryFilter::Text, 3),
        (HistoryFilter::File, 4),
        (HistoryFilter::Image, 5),
    ] {
        query.filter = filter;
        assert_eq!(sequences(&query), [expected]);
    }
    query.filter = HistoryFilter::All;
    query.pinned_only = true;
    assert_eq!(sequences(&query), [2]);
    query.pinned_only = false;
    query.search = "target-app".into();
    assert_eq!(sequences(&query), [1]);
}

#[test]
fn exclude_and_unexclude_round_trip_with_mixed_case_legacy_keys() {
    let mut stored: Vec<String> = Vec::new();
    let mut state = WorkerState::start(None, Vec::new(), None);

    state.exclude_app(" chatgpt.exe ", |key| {
        stored.push(key.to_string());
        Ok(())
    });
    assert_eq!(state.status_note, "已排除 chatgpt.exe 的后续复制");
    assert!(is_excluded_source(&state.excluded_apps, "ChatGPT.exe"));
    assert_eq!(stored, vec!["chatgpt.exe"]);

    // An older release stored the name as it was spelled.
    stored.push("ChatGPT.exe".into());
    state.excluded_apps = stored.clone();
    state.unexclude_app("CHATGPT.EXE", |keys| {
        stored.retain(|s| !keys.contains(s));
        Ok(())
    });
    assert!(state.excluded_apps.is_empty());
    assert!(stored.is_empty());
}

#[test]
fn failed_exclusion_keeps_the_list_and_reports_the_error() {
    let mut state = WorkerState::start(None, Vec::new(), None);
    state.exclude_app("code.exe", |_| Err("disk full".into()));
    assert!(state.excluded_apps.is_empty());
    assert_eq!(state.status_note, "保存排除设置失败：disk full");
    state.exclude_app("   ", |_| Ok(()));
    assert_eq!(state.status_note, "应用文件名不能为空");
}

#[test]
fn internal_copy_is_suppressed_when_platform_event_has_the_written_sequence() {
    let mut flow = FlowEngine::new();
    let text = "copied from Veya";
    let own_pid = 4242;

    let payload = ClipboardPayload::Text(text.to_string());
    assert!(write_internal_payload(&mut flow, &payload, |_| Ok(41), own_pid).is_ok());
    let outcome = flow.on_clipboard_change(ClipboardChange {
        sequence: 41,
        payload: ClipboardPayload::Text(text.to_string()),
        content_hash: payload_hash(&payload),
        source_pid: own_pid,
        source_exe: "veya.exe".to_string(),
        source_window: "Veya".to_string(),
        source_confidence: SourceConfidence::Likely,
        timestamp_ms: 1_000,
    });

    assert_eq!(
        outcome,
        FlowOutcome::SuppressedInternalWrite { sequence: 41 }
    );
    assert!(flow.is_empty());
}

#[test]
fn failed_internal_copy_does_not_suppress_a_later_user_copy() {
    let mut flow = FlowEngine::new();
    let text = "copy that failed";

    let payload = ClipboardPayload::Text(text.to_string());
    assert!(write_internal_payload(
        &mut flow,
        &payload,
        |_| Err("clipboard unavailable".into()),
        4242
    )
    .is_err());
    let outcome = flow.on_clipboard_change(ClipboardChange {
        sequence: 50,
        payload: ClipboardPayload::Text(text.to_string()),
        content_hash: payload_hash(&payload),
        source_pid: 200,
        source_exe: "Code.exe".to_string(),
        source_window: "VS Code".to_string(),
        source_confidence: SourceConfidence::Exact,
        timestamp_ms: 2_000,
    });

    assert_eq!(outcome, FlowOutcome::Recorded { sequence: 50 });
    assert_eq!(flow.len(), 1);
}

#[test]
fn stale_snapshot_does_not_revert_a_toggle() {
    let (commands, received) = channel();
    let mut control = TrackingControl::default();
    let mut displayed = true;

    control.request_toggle(&commands, &mut displayed);
    assert!(!displayed);
    assert!(matches!(
        received.try_recv(),
        Ok(WorkerCmd::SetTracking {
            on: false,
            request_id: Some(1)
        })
    ));

    let mut stale = true;
    control.reconcile(&mut stale, 0);
    assert!(!stale);

    let mut confirmed = false;
    control.reconcile(&mut confirmed, 1);
    assert!(!confirmed);

    // A later tray action is visible after the UI request was confirmed.
    let mut later = true;
    control.reconcile(&mut later, 1);
    assert!(later);
}

#[test]
fn rapid_double_toggle_waits_for_the_second_acknowledgment() {
    let (commands, received) = channel();
    let mut control = TrackingControl::default();
    let mut displayed = true;

    control.request_toggle(&commands, &mut displayed);
    control.request_toggle(&commands, &mut displayed);
    assert!(displayed);
    assert!(matches!(
        received.try_recv(),
        Ok(WorkerCmd::SetTracking {
            on: false,
            request_id: Some(1)
        })
    ));
    assert!(matches!(
        received.try_recv(),
        Ok(WorkerCmd::SetTracking {
            on: true,
            request_id: Some(2)
        })
    ));

    let mut first_ack = false;
    control.reconcile(&mut first_ack, 1);
    assert!(first_ack);

    let mut second_ack = true;
    control.reconcile(&mut second_ack, 2);
    assert!(second_ack);

    let mut later = false;
    control.reconcile(&mut later, 2);
    assert!(!later);
}

#[test]
fn toggle_without_a_worker_changes_nothing() {
    let (commands, received) = channel::<WorkerCmd>();
    drop(received);
    let mut control = TrackingControl::default();
    let mut displayed = true;
    control.request_toggle(&commands, &mut displayed);
    assert!(displayed);
    let mut snapshot = false;
    control.reconcile(&mut snapshot, 0);
    assert!(!snapshot);
}

#[test]
fn toggle_command_and_unsent_toggle() {
    let mut control = TrackingControl::default();
    assert!(matches!(
        control.toggle_command(true),
        WorkerCmd::SetTracking {
            on: false,
            request_id: Some(1)
        }
    ));

    // A send that failed leaves the switch and the request id as they were.
    let mut displayed = true;
    control.record_toggle(&mut displayed, false);
    assert!(displayed);
    assert!(matches!(
        control.toggle_command(displayed),
        WorkerCmd::SetTracking {
            on: false,
            request_id: Some(1)
        }
    ));

    // A send that went through shows the requested state and uses the id.
    control.record_toggle(&mut displayed, true);
    assert!(!displayed);
    assert!(matches!(
        control.toggle_command(displayed),
        WorkerCmd::SetTracking {
            on: true,
            request_id: Some(2)
        }
    ));
    let mut stale = true;
    control.reconcile(&mut stale, 0);
    assert!(!stale);
}

#[test]
fn toggle_with_the_worker_gone_changes_nothing() {
    let (commands, received) = channel();
    drop(received);
    let mut control = TrackingControl::default();
    let mut displayed = true;
    control.request_toggle(&commands, &mut displayed);
    assert!(displayed);
    let mut snapshot = false;
    control.reconcile(&mut snapshot, 0);
    assert!(!snapshot);
}

#[test]
fn purged_oldest_record_leaves_the_engine() {
    let mut flow = FlowEngine::new();
    flow.on_clipboard_change(ClipboardChange {
        sequence: 1,
        payload: ClipboardPayload::Text("old".into()),
        content_hash: "h1".into(),
        source_pid: 1,
        source_exe: "a.exe".into(),
        source_window: String::new(),
        source_confidence: SourceConfidence::Exact,
        timestamp_ms: 1_000,
    });
    flow.on_clipboard_change(ClipboardChange {
        sequence: 2,
        payload: ClipboardPayload::Text("new".into()),
        content_hash: "h2".into(),
        source_pid: 1,
        source_exe: "a.exe".into(),
        source_window: String::new(),
        source_confidence: SourceConfidence::Exact,
        timestamp_ms: 2_000,
    });

    // A failed lookup or a record still stored keeps the engine as it is.
    discard_purged_record(&mut flow, |_| Err("locked".to_string()));
    assert_eq!(flow.len(), 2);
    discard_purged_record(&mut flow, |_| Ok(true));
    assert_eq!(flow.len(), 2);

    let mut asked = None;
    discard_purged_record(&mut flow, |sequence| {
        asked = Some(sequence);
        Ok(false)
    });
    assert_eq!(asked, Some(1));
    assert_eq!(flow.len(), 1);
    assert_eq!(flow.records()[0].sequence, 2);
}

#[test]
fn page_with_an_unusable_timestamp_is_reported() {
    let good = history_cards(&vec![text_record(1, "a", 1_000), text_record(2, "b", 50_000)]);
    let views = page_card_views(&good, 100_000, |_| None).expect("fits");
    assert_eq!(views.len(), 2);
    assert_eq!(views[0].sequence, 2);
    assert_eq!(views[1].first_ms, 1_000);

    let bad = history_cards(&vec![text_record(3, "c", i64::MIN)]);
    assert_eq!(
        page_card_views(&bad, 100_000, |_| None).err(),
        Some("读取历史失败：记录时间无效".to_string())
    );
}

#[test]
fn modal_png_is_kept_only_while_the_modal_shows_an_image() {
    let mut state = WorkerState::start(None, Vec::new(), None);
    assert_eq!(state.kept_modal_png(Some((4, vec![1, 2]))), None);
    state.show_full_image(Some(4));
    assert_eq!(state.kept_modal_png(Some((4, vec![1, 2]))), Some((4, vec![1, 2])));
}
