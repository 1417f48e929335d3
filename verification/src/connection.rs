//! Per-player connection status: a small state machine driven by the events
//! the session reports, and the last network statistics seen.

use vstd::prelude::*;

verus! {

/// Where one player stands with respect to the session.
#[derive(Clone, Copy, Debug, PartialEq, Eq, Structural)]
pub enum ConnectionStatus {
    /// Controlled on this machine.
    Local,
    /// Remote, still exchanging the opening handshake.
    Synchronizing,
    /// Remote and in step.
    Running,
    /// Remote, nothing heard for a while.
    Interrupted,
    /// Remote and gone for the rest of the session.
    Disconnected,
}

/// The events a session reports about a remote peer.
#[derive(Clone, Copy, Debug, PartialEq, Eq, Structural)]
pub enum SessionEvent {
    Synchronized,
    Disconnected,
    NetworkInterrupted,
    NetworkResumed,
}

/// The figures the session reports about the link to one remote player.
#[derive(Clone, Copy, Debug, PartialEq, Eq, Structural)]
pub struct NetworkStats {
    pub send_queue_len: usize,
    /// Round-trip estimate in milliseconds.
    pub ping: u128,
    pub kbps_sent: usize,
    pub local_frames_behind: i32,
    pub remote_frames_behind: i32,
}

/// Status and last known statistics of one player.
#[derive(Clone, Copy, Debug, PartialEq, Eq, Structural)]
pub struct ConnectionInfo {
    pub status: ConnectionStatus,
    pub stats: Option<NetworkStats>,
}

impl ConnectionStatus {
    /// The status that follows `self` when `event` is reported.
    ///
    /// A local player never changes. A disconnect takes every remote status
    /// to `Disconnected`, which is never left. Otherwise `Synchronizing`
    /// becomes `Running` once synchronized, and `Running` and `Interrupted`
    /// alternate on interruption and resumption. Any other pairing leaves the
    /// status as it is.
    pub open spec fn after(self, event: SessionEvent) -> ConnectionStatus {
        match (self, event) {
            (ConnectionStatus::Local, _) => ConnectionStatus::Local,
            (ConnectionStatus::Disconnected, _) => ConnectionStatus::Disconnected,
            (_, SessionEvent::Disconnected) => ConnectionStatus::Disconnected,
            (ConnectionStatus::Synchronizing, SessionEvent::Synchronized) => {
                ConnectionStatus::Running
            },
            (ConnectionStatus::Running, SessionEvent::NetworkInterrupted) => {
                ConnectionStatus::Interrupted
            },
            (ConnectionStatus::Interrupted, SessionEvent::NetworkResumed) => {
                ConnectionStatus::Running
            },
            (status, _) => status,
        }
    }

    /// Applies one reported event.
    pub fn on_event(self, event: SessionEvent) -> (next: ConnectionStatus)
        ensures
            next == self.after(event),
    {
        match self {
            ConnectionStatus::Local => ConnectionStatus::Local,
            ConnectionStatus::Disconnected => ConnectionStatus::Disconnected,
            ConnectionStatus::Synchronizing => match event {
                SessionEvent::Disconnected => ConnectionStatus::Disconnected,
                SessionEvent::Synchronized => ConnectionStatus::Running,
                _ => ConnectionStatus::Synchronizing,
            },
            ConnectionStatus::Running => match event {
                SessionEvent::Disconnected => ConnectionStatus::Disconnected,
                SessionEvent::NetworkInterrupted => ConnectionStatus::Interrupted,
                _ => ConnectionStatus::Running,
            },
            ConnectionStatus::Interrupted => match event {
                SessionEvent::Disconnected => ConnectionStatus::Disconnected,
                SessionEvent::NetworkResumed => ConnectionStatus::Running,
                _ => ConnectionStatus::Interrupted,
            },
        }
    }

    /// Whether statistics are gathered for a player of this status: for
    /// every remote player, whatever its status.
    pub fn is_remote(self) -> (remote: bool)
        ensures
            remote == (self != ConnectionStatus::Local),
    {
        match self {
            ConnectionStatus::Local => false,
            _ => true,
        }
    }
}

impl Default for ConnectionStatus {
    fn default() -> (status: ConnectionStatus)
        ensures
            status == ConnectionStatus::Synchronizing,
    {
        ConnectionStatus::Synchronizing
    }
}

impl Default for ConnectionInfo {
    fn default() -> (info: ConnectionInfo)
        ensures
            info == (ConnectionInfo { status: ConnectionStatus::Synchronizing, stats: None }),
    {
        ConnectionInfo { status: ConnectionStatus::Synchronizing, stats: None }
    }
}

impl ConnectionInfo {
    /// The record after `status` was assigned to it: a local player stays
    /// local and a disconnected player stays disconnected; any other player
    /// takes the status. The statistics stay as they are.
    pub open spec fn assigned(self, status: ConnectionStatus) -> ConnectionInfo {
        if self.status == ConnectionStatus::Local || self.status == ConnectionStatus::Disconnected {
            self
        } else {
            ConnectionInfo { status, stats: self.stats }
        }
    }

    /// Assigns `status` to the record.
    pub fn assign(self, status: ConnectionStatus) -> (next: ConnectionInfo)
        ensures
            next == self.assigned(status),
    {
        match self.status {
            ConnectionStatus::Local => self,
            ConnectionStatus::Disconnected => self,
            _ => ConnectionInfo { status, stats: self.stats },
        }
    }

    /// The record after `event`: the status moves as the state machine says,
    /// the statistics stay as they are.
    pub fn on_event(self, event: SessionEvent) -> (next: ConnectionInfo)
        ensures
            next.status == self.status.after(event),
            next.stats == self.stats,
    {
        ConnectionInfo { status: self.status.on_event(event), stats: self.stats }
    }

    /// The record after a statistics query: a remote player takes the fresh
    /// figures when the query succeeded and keeps the cached ones when it
    /// failed; a local player has none to refresh.
    pub fn refreshed(self, fresh: Option<NetworkStats>) -> (next: ConnectionInfo)
        ensures
            next.status == self.status,
            next.stats == if self.status != ConnectionStatus::Local && fresh.is_some() {
                fresh
            } else {
                self.stats
            },
    {
        let stats = if self.status.is_remote() && fresh.is_some() {
            fresh
        } else {
            self.stats
        };
        ConnectionInfo { status: self.status, stats }
    }
}

/// A local player stays local whatever is reported.
pub proof fn lemma_local_is_fixed(event: SessionEvent)
    ensures
        ConnectionStatus::Local.after(event) == ConnectionStatus::Local,
{
}

/// A disconnect ends in `Disconnected` from every remote status, and no
/// later event leads out of it.
pub proof fn lemma_disconnect_is_terminal(status: ConnectionStatus, later: SessionEvent)
    requires
        status != ConnectionStatus::Local,
    ensures
        status.after(SessionEvent::Disconnected) == ConnectionStatus::Disconnected,
        status.after(SessionEvent::Disconnected).after(later) == ConnectionStatus::Disconnected,
{
}

/// An event reported twice leaves the status where reporting it once left
/// it.
pub proof fn lemma_event_settles(status: ConnectionStatus, event: SessionEvent)
    ensures
        status.after(event).after(event) == status.after(event),
{
}

/// A status assigned to a local or a disconnected player changes nothing,
/// and a status assigned twice is assigned once.
pub proof fn lemma_assignment_keeps_ends(info: ConnectionInfo, status: ConnectionStatus)
    ensures
        info.status == ConnectionStatus::Local ==> info.assigned(status) == info,
        info.status == ConnectionStatus::Disconnected ==> info.assigned(status) == info,
        info.assigned(status).assigned(status) == info.assigned(status),
{
}

/// An interruption followed by a resumption brings a running player back to
/// running.
pub proof fn lemma_interrupt_then_resume()
    ensures
        ConnectionStatus::Running.after(SessionEvent::NetworkInterrupted).after(
            SessionEvent::NetworkResumed,
        ) == ConnectionStatus::Running,
{
}

} // verus!
