//! The decision core of a connection session.
//!
//! A session owns one duplex stream, split into a send unit and a receive
//! unit, supervised by a heartbeat. The first unit to finish drives the
//! session to `Closing`; the other two are cancelled, and the session is
//! `Closed` once cancellation is acknowledged. The runtime plumbing (tasks,
//! queues, the select over handles) lives outside; every decision it takes
//! is a function here.
use vstd::prelude::*;

verus! {

/// How many seconds the heartbeat supervisor sleeps between liveness checks.
pub const HEARTBEAT_INTERVAL_S: u64 = 30;

/// The lifecycle of a session. `Authenticating` precedes the split of the
/// stream; `Closed` is terminal.
#[derive(Debug, Clone, Copy, PartialEq, Eq, Structural)]
pub enum SessionState {
    Authenticating,
    Active,
    Closing,
    Closed,
}

/// The three concurrent units of work of an active session.
#[derive(Debug, Clone, Copy, PartialEq, Eq, Structural)]
pub enum SessionUnit {
    Send,
    Receive,
    Heartbeat,
}

/// Why a session ended.
#[derive(Debug, Clone, Copy, PartialEq, Eq, Structural)]
pub enum SessionError {
    /// The peer stayed silent for a whole heartbeat interval.
    HeartbeatTimeout,
    /// The stream failed while reading or writing.
    StreamError,
    /// The unit was cancelled because another unit finished first.
    Cancelled,
}

/// A frame arriving on the physical stream, as the receive unit sees it.
#[derive(Debug, Clone, PartialEq, Eq)]
pub enum Frame {
    /// The peer closed the connection.
    Close,
    /// A liveness probe.
    Ping,
    /// Application data.
    Text(String),
    /// Anything else still counts as a sign of life.
    Other,
}

/// What the receive unit does with one inbound frame.
#[derive(Debug, Clone, PartialEq, Eq)]
pub enum FrameAction {
    /// Stop the receive unit; the session starts closing.
    Terminate,
    /// Mark the peer alive and echo the probe back.
    AckAndEcho,
    /// Hand the text to the application-level message handler.
    Deliver(String),
    /// Mark the peer alive.
    MarkAlive,
}

/// The two units a finished unit leaves behind, which must both be
/// cancelled.
pub open spec fn units_to_cancel(finished: SessionUnit) -> (SessionUnit, SessionUnit) {
    match finished {
        SessionUnit::Send => (SessionUnit::Receive, SessionUnit::Heartbeat),
        SessionUnit::Receive => (SessionUnit::Send, SessionUnit::Heartbeat),
        SessionUnit::Heartbeat => (SessionUnit::Send, SessionUnit::Receive),
    }
}

/// Whichever unit finishes first, the two units to cancel are exactly the
/// other two: none is the finished one, they differ from each other, and
/// together with the finished one they cover all three.
pub proof fn lemma_cancel_set_is_the_rest(finished: SessionUnit)
    ensures
        units_to_cancel(finished).0 != finished,
        units_to_cancel(finished).1 != finished,
        units_to_cancel(finished).0 != units_to_cancel(finished).1,
        finished is Send || units_to_cancel(finished).0 is Send || units_to_cancel(
            finished,
        ).1 is Send,
        finished is Receive || units_to_cancel(finished).0 is Receive || units_to_cancel(
            finished,
        ).1 is Receive,
        finished is Heartbeat || units_to_cancel(finished).0 is Heartbeat || units_to_cancel(
            finished,
        ).1 is Heartbeat,
{
}

/// One session's supervision state: its owner, where it stands in its
/// lifecycle, and the liveness flag the heartbeat works against.
pub struct Session {
    user_id: u32,
    state: SessionState,
    liveness: bool,
}

impl Session {
    pub closed spec fn state(&self) -> SessionState {
        self.state
    }

    pub closed spec fn user(&self) -> u32 {
        self.user_id
    }

    /// Where the session stands in its lifecycle.
    pub fn current_state(&self) -> (r: SessionState)
        ensures
            r == self.state(),
    {
        self.state
    }

    /// The session's owner.
    pub fn user_id(&self) -> (r: u32)
        ensures
            r == self.user(),
    {
        self.user_id
    }

    pub closed spec fn alive(&self) -> bool {
        self.liveness
    }

    /// A fresh session for an authenticated upgrade: still `Authenticating`
    /// until the stream is split, and presumed alive.
    pub fn new(user_id: u32) -> (r: Session)
        ensures
            r.user() == user_id,
            r.state() == SessionState::Authenticating,
            r.alive(),
    {
        Session { user_id, state: SessionState::Authenticating, liveness: true }
    }

    /// The stream is split and the three units start: the session activates.
    /// The token was verified before construction, so this always succeeds.
    pub fn activate(&mut self)
        requires
            old(self).state() == SessionState::Authenticating,
        ensures
            final(self).state() == SessionState::Active,
            final(self).user() == old(self).user(),
            final(self).alive() == old(self).alive(),
    {
        self.state = SessionState::Active;
    }

    /// The first unit finished, with or without an error: the session starts
    /// closing, and exactly the other two units are to be cancelled, without
    /// waiting for them to drain.
    pub fn on_unit_finished(&mut self, finished: SessionUnit) -> (cancel: (
        SessionUnit,
        SessionUnit,
    ))
        requires
            old(self).state() == SessionState::Active,
        ensures
            final(self).state() == SessionState::Closing,
            final(self).user() == old(self).user(),
            final(self).alive() == old(self).alive(),
            cancel == units_to_cancel(finished),
    {
        self.state = SessionState::Closing;
        match finished {
            SessionUnit::Send => (SessionUnit::Receive, SessionUnit::Heartbeat),
            SessionUnit::Receive => (SessionUnit::Send, SessionUnit::Heartbeat),
            SessionUnit::Heartbeat => (SessionUnit::Send, SessionUnit::Receive),
        }
    }

    /// Cancellation of the remaining units is acknowledged: the session is
    /// closed for good. Reconnection is the caller's business.
    pub fn on_cancel_acknowledged(&mut self)
        requires
            old(self).state() == SessionState::Closing,
        ensures
            final(self).state() == SessionState::Closed,
            final(self).user() == old(self).user(),
    {
        self.state = SessionState::Closed;
    }

    /// One heartbeat check: if the peer gave no sign of life during the whole
    /// interval the session times out; otherwise the flag is reset so that a
    /// fresh sign is required before the next check.
    pub fn heartbeat_tick(&mut self) -> (timeout: bool)
        requires
            old(self).state() == SessionState::Active,
        ensures
            timeout == !old(self).alive(),
            !final(self).alive(),
            final(self).state() == old(self).state(),
            final(self).user() == old(self).user(),
    {
        let was_alive = self.liveness;
        self.liveness = false;
        !was_alive
    }

    /// What the receive unit does with one inbound frame: a close frame ends
    /// the unit; a probe marks the peer alive and is echoed; data goes to the
    /// handler; anything else marks the peer alive.
    pub fn on_frame(&mut self, frame: Frame) -> (r: FrameAction)
        requires
            old(self).state() == SessionState::Active,
        ensures
            final(self).state() == old(self).state(),
            final(self).user() == old(self).user(),
            frame is Close ==> r == FrameAction::Terminate && final(self).alive() == old(
                self,
            ).alive(),
            frame is Ping ==> r == FrameAction::AckAndEcho && final(self).alive(),
            frame matches Frame::Text(t) ==> r == FrameAction::Deliver(t) && final(self).alive()
                == old(self).alive(),
            frame is Other ==> r == FrameAction::MarkAlive && final(self).alive(),
    {
        match frame {
            Frame::Close => FrameAction::Terminate,
            Frame::Ping => {
                self.liveness = true;
                FrameAction::AckAndEcho
            },
            Frame::Text(t) => FrameAction::Deliver(t),
            Frame::Other => {
                self.liveness = true;
                FrameAction::MarkAlive
            },
        }
    }
}

} // verus!
