//! Keep the tracking switch stable while the capture worker applies a request.

use vstd::prelude::*;

use crate::worker::{CmdModel, WorkerCmd};

verus! {

#[derive(Clone, Copy)]
struct Pending {
    request_id: u64,
    desired: bool,
}

/// The UI's side of the tracking switch: the last request id it used and the
/// request the worker has not acknowledged yet.
pub struct TrackingControl {
    next_request_id: u64,
    pending: Option<Pending>,
}

pub struct TrackingModel {
    pub last_request_id: u64,
    /// The unacknowledged request: its id and the state it asks for.
    pub pending: Option<(u64, bool)>,
}

impl View for TrackingControl {
    type V = TrackingModel;

    closed spec fn view(&self) -> TrackingModel {
        TrackingModel {
            last_request_id: self.next_request_id,
            pending: match self.pending {
                Some(p) => Some((p.request_id, p.desired)),
                None => None,
            },
        }
    }
}

impl Default for TrackingControl {
    fn default() -> (r: Self)
        ensures
            r@.last_request_id == 0,
            r@.pending is None,
    {
        TrackingControl { next_request_id: 0, pending: None }
    }
}

impl TrackingControl {
    /// The command that asks the worker to flip tracking from `tracking`,
    /// under the next request id.
    pub fn toggle_command(&self, tracking: bool) -> (cmd: WorkerCmd)
        requires
            self@.last_request_id < u64::MAX,
        ensures
            cmd@ == (CmdModel::SetTracking {
                on: !tracking,
                request_id: Some((self@.last_request_id + 1) as u64),
            }),
    {
        WorkerCmd::SetTracking { on: !tracking, request_id: Some(self.next_request_id + 1) }
    }

    /// Records the outcome of sending the toggle command: when it was sent,
    /// the new request id becomes pending and the switch shows the requested
    /// state; when it was not, nothing changes.
    pub fn record_toggle(&mut self, tracking: &mut bool, sent: bool)
        requires
            old(self)@.last_request_id < u64::MAX,
        ensures
            ({
                let id = (old(self)@.last_request_id + 1) as u64;
                let desired = !*old(tracking);
                if sent {
                    final(self)@ == (TrackingModel {
                        last_request_id: id,
                        pending: Some((id, desired)),
                    }) && *final(tracking) == desired
                } else {
                    final(self)@ == old(self)@ && *final(tracking) == *old(tracking)
                }
            }),
    {
        if sent {
            let desired = !*tracking;
            let request_id = self.next_request_id + 1;
            self.next_request_id = request_id;
            self.pending = Some(Pending { request_id, desired });
            *tracking = desired;
        }
    }

    /// Asks the worker to flip tracking under a fresh request id and shows the
    /// new state at once; if the worker is gone nothing changes. The command
    /// handed to the channel is `toggle_command`'s; what follows the send is
    /// `record_toggle` on its outcome.
    pub fn request_toggle(&mut self, commands: &std::sync::mpsc::Sender<WorkerCmd>, tracking: &mut bool)
        requires
            old(self)@.last_request_id < u64::MAX,
        ensures
            ({
                let id = (old(self)@.last_request_id + 1) as u64;
                let desired = !*old(tracking);
                ||| (final(self)@ == (TrackingModel {
                    last_request_id: id,
                    pending: Some((id, desired)),
                }) && *final(tracking) == desired)
                ||| (final(self)@ == old(self)@ && *final(tracking) == *old(tracking))
            }),
    {
        let cmd = self.toggle_command(*tracking);
        let sent = crate::worker::send_command(commands, cmd);
        self.record_toggle(tracking, sent);
    }

    /// Applies a worker snapshot: until the worker acknowledges the pending
    /// request, the switch keeps showing the requested state; once it does,
    /// the snapshot's own state is shown again.
    pub fn reconcile(&mut self, tracking: &mut bool, tracking_ack: u64)
        ensures
            match old(self)@.pending {
                None => final(self)@ == old(self)@ && *final(tracking) == *old(tracking),
                Some((id, desired)) => if tracking_ack >= id {
                    final(self)@ == (TrackingModel { pending: None, ..old(self)@ })
                        && *final(tracking) == *old(tracking)
                } else {
                    final(self)@ == old(self)@ && *final(tracking) == desired
                },
            },
    {
        if let Some(pending) = self.pending {
            if tracking_ack >= pending.request_id {
                self.pending = None;
            } else {
                *tracking = pending.desired;
            }
        }
    }
}

} // verus!
