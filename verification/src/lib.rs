//! Veya: the verified core of a clipboard flow tracker.
//!
//! - A paste observation is a paste trigger (hotkey intent plus foreground
//!   app), not a verified insertion into that app.
//! - Source attribution carries a confidence (`Exact` / `Likely` / `Unknown`);
//!   inferred sources are never presented as exact.
//! - Raw clipboard events are never merged; aggregation is a view.

pub mod aggregate;
pub mod capture;
pub mod clipboard;
pub mod detail;
pub mod events;
pub mod flow;
pub mod fonts;
pub mod format;
pub mod history;
pub mod hotkey;
pub mod icons;
pub mod listing;
pub mod locate;
pub mod model;
pub mod platform;
pub mod registration;
pub mod search;
pub mod shell;
pub mod storage;
pub mod text;
pub mod time;
pub mod tracking;
pub mod tray;
pub mod ui;
pub mod update;
pub mod window;
pub mod worker;

pub use aggregate::{history_cards, HistoryCard, UsedInSummary};
pub use events::{
    ClipboardChange, InternalClipboardWrite, PasteConfidence, PasteMethod, PasteTrigger,
    SourceConfidence,
};
pub use flow::{FlowEngine, FlowOutcome};
pub use model::{content_hash, payload_hash, ClipboardPayload, ClipboardRecord, PasteTriggerRecord};
pub use search::{match_field, search, MatchField, SearchHit};
