//! The process-wide aggregation session: at most one running at a time,
//! idempotent start and stop, and a cancellation flag that is cleared only
//! after the hub has been closed and a grace period has passed.
use crate::hub::{closed_hub, hub_wf, HubView};
use vstd::prelude::*;

verus! {

/// Grace period between closing the hub and clearing the cancellation flag.
pub const SHUTDOWN_GRACE_MS: u64 = 2000;

/// How often the monitor and the socket ingester look at the cancellation flag.
pub const CANCEL_POLL_MS: u64 = 100;

/// The polling platform's part of a start request.
#[derive(Clone, Debug)]
pub struct YoutubeInfo {
    pub yt_id: String,
    /// Poll interval in milliseconds.
    pub interval: u64,
}

/// What a start request leads to.
#[derive(Clone, Debug)]
pub enum StartOutcome {
    /// A session is running; nothing is started.
    AlreadyRunning,
    /// The previous session is still shutting down; nothing is started.
    ShuttingDown,
    /// Start the hub, the socket ingester and, when given, the polling ingester.
    Launch { youtube: Option<YoutubeInfo> },
}

/// State of the session.
pub struct UnitedChat {
    started: bool,
    cancelled: bool,
}

#[derive(PartialEq, Eq, Structural)]
pub struct SessionView {
    pub started: bool,
    pub cancelled: bool,
}

impl View for UnitedChat {
    type V = SessionView;

    closed spec fn view(&self) -> SessionView {
        SessionView { started: self.started, cancelled: self.cancelled }
    }
}

/// A session never runs while its cancellation is pending.
pub open spec fn session_wf(s: SessionView) -> bool {
    !(s.started && s.cancelled)
}

/// Whether a start request from this state launches a session.
pub open spec fn launches(s: SessionView) -> bool {
    !s.started && !s.cancelled
}

pub open spec fn after_start(s: SessionView) -> SessionView {
    if launches(s) {
        SessionView { started: true, cancelled: false }
    } else {
        s
    }
}

pub open spec fn after_stop(s: SessionView) -> SessionView {
    if s.started {
        SessionView { started: false, cancelled: true }
    } else {
        s
    }
}

pub open spec fn after_reset(s: SessionView) -> SessionView {
    SessionView { started: s.started, cancelled: false }
}

/// The polling ingester is launched only for a non-empty target id.
pub open spec fn polling_target(youtube: Option<YoutubeInfo>) -> Option<YoutubeInfo> {
    match youtube {
        Some(y) => if y.yt_id@.len() > 0 {
            Some(y)
        } else {
            None
        },
        None => None,
    }
}

impl UnitedChat {
    pub open spec fn wf(&self) -> bool {
        session_wf(self@)
    }

    /// No session, nothing pending.
    pub fn new() -> (r: UnitedChat)
        ensures
            r@ == (SessionView { started: false, cancelled: false }),
    {
        UnitedChat { started: false, cancelled: false }
    }

    /// Handles a start request.
    pub fn init(&mut self, youtube: Option<YoutubeInfo>) -> (r: StartOutcome)
        requires
            old(self).wf(),
        ensures
            final(self).wf(),
            final(self)@ == after_start(old(self)@),
            r is AlreadyRunning <==> old(self)@.started,
            r is ShuttingDown <==> !old(self)@.started && old(self)@.cancelled,
            r matches StartOutcome::Launch { youtube: y } ==> launches(old(self)@) && y == polling_target(youtube),
            launches(old(self)@) ==> r is Launch,
    {
        if self.started {
            return StartOutcome::AlreadyRunning;
        }
        if self.cancelled {
            return StartOutcome::ShuttingDown;
        }
        self.started = true;
        let target = match youtube {
            Some(y) => if y.yt_id.unicode_len() > 0 {
                Some(y)
            } else {
                None
            },
            None => None,
        };
        StartOutcome::Launch { youtube: target }
    }

    /// Handles a stop request: raises the cancellation flag of a running
    /// session and returns at once; does nothing when no session runs.
    pub fn stop(&mut self) -> (r: bool)
        requires
            old(self).wf(),
        ensures
            final(self).wf(),
            final(self)@ == after_stop(old(self)@),
            r == old(self)@.started,
    {
        if !self.started {
            return false;
        }
        self.started = false;
        self.cancelled = true;
        true
    }

    /// The cancellation flag, as the ingesters and the monitor read it.
    pub fn is_cancelled(&self) -> (r: bool)
        ensures
            r == self@.cancelled,
    {
        self.cancelled
    }

    pub fn is_started(&self) -> (r: bool)
        ensures
            r == self@.started,
    {
        self.started
    }

    /// Clears the cancellation flag once the hub is closed and the grace period
    /// has passed, so that a later start can launch again.
    pub fn finish_shutdown(&mut self)
        requires
            old(self).wf(),
        ensures
            final(self).wf(),
            final(self)@ == after_reset(old(self)@),
    {
        self.cancelled = false;
    }
}

/// A start request while a session runs changes nothing, so two starts in a
/// row launch one session.
pub proof fn lemma_start_idempotent(s: SessionView)
    requires
        session_wf(s),
    ensures
        s.started ==> after_start(s) == s && !launches(s),
        launches(s) ==> after_start(after_start(s)) == after_start(s) && !launches(after_start(s)),
{
}

/// A stop request when no session runs changes nothing.
pub proof fn lemma_stop_idempotent(s: SessionView)
    requires
        session_wf(s),
    ensures
        !s.started ==> after_stop(s) == s,
        after_stop(after_stop(s)) == after_stop(s),
{
}

/// Stop, close of the hub, grace reset, start: the running session is
/// cancelled, every consumer of its hub is cut off, and once the flag is reset
/// a new start launches a fresh session.
pub proof fn lemma_shutdown_restart(s: SessionView, hub: HubView)
    requires
        session_wf(s),
        s.started,
        hub_wf(hub),
    ensures
        after_stop(s).cancelled && !after_stop(s).started,
        !launches(after_stop(s)),
        closed_hub(hub).closed && closed_hub(hub).consumers.len() == 0,
        !after_reset(after_stop(s)).cancelled,
        launches(after_reset(after_stop(s))),
        after_start(after_reset(after_stop(s))).started,
{
}

} // verus!
