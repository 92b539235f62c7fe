//! System tray vocabulary and what each menu entry asks of the worker.

use vstd::prelude::*;

use crate::worker::{CmdModel, WorkerCmd, WorkerHandle};

verus! {

/// Menu events of the native tray icon.
#[derive(Debug, Clone, Copy, PartialEq, Eq, Structural)]
pub enum TrayEvent {
    OpenWindow,
    Pause10Min,
    PauseTracking,
    ResumeTracking,
    ClearHistory,
    OpenSettings,
    Exit,
}

/// Tray requests as the window sees them.
#[derive(Debug, Clone, Copy, PartialEq, Eq, Structural)]
pub enum TrayCmd {
    OpenWindow,
    Pause10Min,
    PauseTracking,
    ResumeTracking,
    ClearHistory,
    OpenSettings,
    Exit,
}

/// The window-level request of a tray menu event (one for one).
pub fn tray_command(event: TrayEvent) -> (r: TrayCmd)
    ensures
        r == match event {
            TrayEvent::OpenWindow => TrayCmd::OpenWindow,
            TrayEvent::Pause10Min => TrayCmd::Pause10Min,
            TrayEvent::PauseTracking => TrayCmd::PauseTracking,
            TrayEvent::ResumeTracking => TrayCmd::ResumeTracking,
            TrayEvent::ClearHistory => TrayCmd::ClearHistory,
            TrayEvent::OpenSettings => TrayCmd::OpenSettings,
            TrayEvent::Exit => TrayCmd::Exit,
        },
{
    match event {
        TrayEvent::OpenWindow => TrayCmd::OpenWindow,
        TrayEvent::Pause10Min => TrayCmd::Pause10Min,
        TrayEvent::PauseTracking => TrayCmd::PauseTracking,
        TrayEvent::ResumeTracking => TrayCmd::ResumeTracking,
        TrayEvent::ClearHistory => TrayCmd::ClearHistory,
        TrayEvent::OpenSettings => TrayCmd::OpenSettings,
        TrayEvent::Exit => TrayCmd::Exit,
    }
}

/// Entries the worker handles on its own; the others concern the window.
pub open spec fn handled_by_worker(cmd: TrayCmd) -> bool {
    match cmd {
        TrayCmd::ClearHistory | TrayCmd::PauseTracking | TrayCmd::ResumeTracking
        | TrayCmd::Pause10Min => true,
        TrayCmd::OpenWindow | TrayCmd::OpenSettings | TrayCmd::Exit => false,
    }
}

/// The worker command a tray entry sends: clearing history, or switching
/// recording off (pause, also for ten minutes) or on.
pub fn worker_command(cmd: TrayCmd) -> (r: Option<WorkerCmd>)
    ensures
        r is Some <==> handled_by_worker(cmd),
        cmd == TrayCmd::ClearHistory ==> r matches Some(WorkerCmd::ClearHistory),
        cmd == TrayCmd::PauseTracking ==> r matches Some(
            WorkerCmd::SetTracking { on: false, request_id: None },
        ),
        cmd == TrayCmd::Pause10Min ==> r matches Some(
            WorkerCmd::SetTracking { on: false, request_id: None },
        ),
        cmd == TrayCmd::ResumeTracking ==> r matches Some(
            WorkerCmd::SetTracking { on: true, request_id: None },
        ),
{
    match cmd {
        TrayCmd::ClearHistory => Some(WorkerCmd::ClearHistory),
        TrayCmd::PauseTracking => Some(WorkerCmd::SetTracking { on: false, request_id: None }),
        TrayCmd::ResumeTracking => Some(WorkerCmd::SetTracking { on: true, request_id: None }),
        TrayCmd::Pause10Min => Some(WorkerCmd::SetTracking { on: false, request_id: None }),
        TrayCmd::OpenWindow | TrayCmd::OpenSettings | TrayCmd::Exit => None,
    }
}

/// The worker command a tray entry stands for.
pub open spec fn tray_worker_cmd(cmd: TrayCmd) -> Option<CmdModel> {
    match cmd {
        TrayCmd::ClearHistory => Some(CmdModel::ClearHistory),
        TrayCmd::PauseTracking | TrayCmd::Pause10Min => Some(
            CmdModel::SetTracking { on: false, request_id: None },
        ),
        TrayCmd::ResumeTracking => Some(CmdModel::SetTracking { on: true, request_id: None }),
        TrayCmd::OpenWindow | TrayCmd::OpenSettings | TrayCmd::Exit => None,
    }
}

/// Hands the worker's part of a tray entry to `send`, exactly once and with
/// the entry's own command; `send` may be called with that command alone
/// (its precondition asks for nothing else), so the window's entries send
/// nothing. Returns whether the entry was the worker's.
pub fn forward_tray_action<S: FnOnce(WorkerCmd) -> bool>(cmd: TrayCmd, send: S) -> (r: bool)
    requires
        forall|c: WorkerCmd|
            #![trigger call_requires(send, (c,))]
            tray_worker_cmd(cmd) == Some(c@) ==> call_requires(send, (c,)),
    ensures
        r == handled_by_worker(cmd),
        tray_worker_cmd(cmd) matches Some(expected) ==> exists|c: WorkerCmd, sent: bool|
            #![trigger call_ensures(send, (c,), sent)]
            c@ == expected && call_ensures(send, (c,), sent),
{
    match worker_command(cmd) {
        Some(worker_cmd) => {
            let ghost c = worker_cmd;
            assert(tray_worker_cmd(cmd) == Some(c@));
            let sent = send(worker_cmd);
            assert(call_ensures(send, (c,), sent));
            true
        },
        None => false,
    }
}

/// Forwards the worker's part of a tray entry over the worker's channel;
/// returns whether the entry was the worker's (the window handles the rest).
/// The command handed to the channel is `forward_tray_action`'s.
pub fn apply_tray_action(cmd: &TrayCmd, worker: &WorkerHandle) -> (r: bool)
    ensures
        r == handled_by_worker(*cmd),
{
    forward_tray_action(*cmd, |c: WorkerCmd| crate::worker::send_command(&worker.cmd_tx, c))
}

// ----------------------------------------------------------------------------
// The tray icon's window procedure
// ----------------------------------------------------------------------------

pub const ID_OPEN: usize = 1001;

pub const ID_PAUSE10: usize = 1002;

pub const ID_PAUSE: usize = 1003;

pub const ID_CLEAR: usize = 1004;

pub const ID_SETTINGS: usize = 1005;

pub const ID_EXIT: usize = 1006;

/// Timer that ends a ten-minute pause.
pub const TIMER_RESUME: usize = 50;

/// How long "pause 10 minutes" lasts, in milliseconds.
pub const PAUSE_10_MIN_MS: u32 = 600_000;

pub const WM_LBUTTONUP: u32 = 0x0202;

pub const WM_RBUTTONUP: u32 = 0x0205;

/// A message the tray window receives.
#[derive(Debug, Clone, Copy, PartialEq, Eq, Structural)]
pub enum TrayInput {
    /// A mouse message on the icon.
    Mouse(u32),
    /// The worker switched recording on or off.
    SyncPaused(bool),
    /// A menu entry was chosen (its command id).
    Command(usize),
    Timer(usize),
    Destroy,
}

/// What the tray does about a message.
#[derive(Debug, Clone, Copy, PartialEq, Eq, Structural)]
pub struct TrayStep {
    pub paused: bool,
    /// Event for the window, if any.
    pub event: Option<TrayEvent>,
    /// The icon and tooltip must show `paused` again.
    pub refresh_icon: bool,
    /// Arm the resume timer for `PAUSE_10_MIN_MS`.
    pub start_resume_timer: bool,
    pub show_menu: bool,
    pub quit: bool,
}

pub open spec fn tray_step_spec(paused: bool, input: TrayInput) -> TrayStep {
    let none = TrayStep {
        paused,
        event: None,
        refresh_icon: false,
        start_resume_timer: false,
        show_menu: false,
        quit: false,
    };
    match input {
        TrayInput::Mouse(m) => TrayStep { show_menu: m == WM_RBUTTONUP || m == WM_LBUTTONUP, ..none },
        TrayInput::SyncPaused(p) => TrayStep { paused: p, refresh_icon: true, ..none },
        TrayInput::Command(id) => {
            let id = id % 0x10000;
            if id == ID_OPEN {
                TrayStep { event: Some(TrayEvent::OpenWindow), ..none }
            } else if id == ID_PAUSE10 {
                TrayStep {
                    paused: true,
                    event: Some(TrayEvent::Pause10Min),
                    refresh_icon: true,
                    start_resume_timer: true,
                    ..none
                }
            } else if id == ID_PAUSE {
                if paused {
                    TrayStep {
                        paused: false,
                        event: Some(TrayEvent::ResumeTracking),
                        refresh_icon: true,
                        ..none
                    }
                } else {
                    TrayStep {
                        paused: true,
                        event: Some(TrayEvent::PauseTracking),
                        refresh_icon: true,
                        ..none
                    }
                }
            } else if id == ID_CLEAR {
                TrayStep { event: Some(TrayEvent::ClearHistory), ..none }
            } else if id == ID_SETTINGS {
                TrayStep { event: Some(TrayEvent::OpenSettings), ..none }
            } else if id == ID_EXIT {
                TrayStep { event: Some(TrayEvent::Exit), quit: true, ..none }
            } else {
                none
            }
        },
        TrayInput::Timer(t) => if t == TIMER_RESUME {
            TrayStep { paused: false, event: Some(TrayEvent::ResumeTracking), refresh_icon: true, ..none }
        } else {
            none
        },
        TrayInput::Destroy => TrayStep { quit: true, ..none },
    }
}

/// The tray's decision on a message, given whether recording is paused.
pub fn tray_step(paused: bool, input: TrayInput) -> (r: TrayStep)
    ensures
        r == tray_step_spec(paused, input),
{
    let none = TrayStep {
        paused,
        event: None,
        refresh_icon: false,
        start_resume_timer: false,
        show_menu: false,
        quit: false,
    };
    match input {
        TrayInput::Mouse(m) => TrayStep { show_menu: m == WM_RBUTTONUP || m == WM_LBUTTONUP, ..none },
        TrayInput::SyncPaused(p) => TrayStep { paused: p, refresh_icon: true, ..none },
        TrayInput::Command(id) => {
            let id = id % 0x10000;
            if id == ID_OPEN {
                TrayStep { event: Some(TrayEvent::OpenWindow), ..none }
            } else if id == ID_PAUSE10 {
                TrayStep {
                    paused: true,
                    event: Some(TrayEvent::Pause10Min),
                    refresh_icon: true,
                    start_resume_timer: true,
                    ..none
                }
            } else if id == ID_PAUSE {
                if paused {
                    TrayStep {
                        paused: false,
                        event: Some(TrayEvent::ResumeTracking),
                        refresh_icon: true,
                        ..none
                    }
                } else {
                    TrayStep {
                        paused: true,
                        event: Some(TrayEvent::PauseTracking),
                        refresh_icon: true,
                        ..none
                    }
                }
            } else if id == ID_CLEAR {
                TrayStep { event: Some(TrayEvent::ClearHistory), ..none }
            } else if id == ID_SETTINGS {
                TrayStep { event: Some(TrayEvent::OpenSettings), ..none }
            } else if id == ID_EXIT {
                TrayStep { event: Some(TrayEvent::Exit), quit: true, ..none }
            } else {
                none
            }
        },
        TrayInput::Timer(t) => if t == TIMER_RESUME {
            TrayStep { paused: false, event: Some(TrayEvent::ResumeTracking), refresh_icon: true, ..none }
        } else {
            none
        },
        TrayInput::Destroy => TrayStep { quit: true, ..none },
    }
}

/// Tooltip of the tray icon.
pub fn tray_tip(paused: bool) -> (r: &'static str)
    ensures
        r@ == if paused {
            "Veya（已暂停）"@
        } else {
            "Veya"@
        },
{
    if paused {
        "Veya（已暂停）"
    } else {
        "Veya"
    }
}

/// Entries of the tray menu, top to bottom: command id and label. The pause
/// entry offers to resume while recording is paused.
pub fn tray_menu(paused: bool) -> (r: Vec<(usize, &'static str)>)
    ensures
        r@.len() == 6,
        r@[0].0 == ID_OPEN && r@[0].1@ == "打开 Veya"@,
        r@[1].0 == ID_PAUSE10 && r@[1].1@ == "暂停 10 分钟"@,
        r@[2].0 == ID_PAUSE && r@[2].1@ == if paused {
            "恢复记录"@
        } else {
            "暂停记录"@
        },
        r@[3].0 == ID_CLEAR && r@[3].1@ == "清空历史"@,
        r@[4].0 == ID_SETTINGS && r@[4].1@ == "设置"@,
        r@[5].0 == ID_EXIT && r@[5].1@ == "退出"@,
{
    let mut v: Vec<(usize, &'static str)> = Vec::new();
    v.push((ID_OPEN, "打开 Veya"));
    v.push((ID_PAUSE10, "暂停 10 分钟"));
    v.push((ID_PAUSE, if paused {
        "恢复记录"
    } else {
        "暂停记录"
    }));
    v.push((ID_CLEAR, "清空历史"));
    v.push((ID_SETTINGS, "设置"));
    v.push((ID_EXIT, "退出"));
    v
}

/// The tray's pause entry and its state agree: choosing it reports
/// resuming exactly when recording was paused, and the state afterwards is
/// the opposite one; the icon is refreshed to show it.
pub proof fn law_pause_entry_toggles(paused: bool)
    ensures
        tray_step_spec(paused, TrayInput::Command(ID_PAUSE)).paused == !paused,
        tray_step_spec(paused, TrayInput::Command(ID_PAUSE)).event == if paused {
            Some(TrayEvent::ResumeTracking)
        } else {
            Some(TrayEvent::PauseTracking)
        },
        tray_step_spec(paused, TrayInput::Command(ID_PAUSE)).refresh_icon,
        tray_step_spec(tray_step_spec(paused, TrayInput::Command(ID_PAUSE)).paused, TrayInput::Command(
            ID_PAUSE,
        )).paused == paused,
{
}

/// A ten-minute pause always arms the resume timer, and that timer ends
/// the pause, whatever the state was.
pub proof fn law_timed_pause_resumes(paused: bool)
    ensures
        tray_step_spec(paused, TrayInput::Command(ID_PAUSE10)).paused,
        tray_step_spec(paused, TrayInput::Command(ID_PAUSE10)).start_resume_timer,
        !tray_step_spec(
            tray_step_spec(paused, TrayInput::Command(ID_PAUSE10)).paused,
            TrayInput::Timer(TIMER_RESUME),
        ).paused,
        tray_step_spec(
            tray_step_spec(paused, TrayInput::Command(ID_PAUSE10)).paused,
            TrayInput::Timer(TIMER_RESUME),
        ).event == Some(TrayEvent::ResumeTracking),
{
}

} // verus!
