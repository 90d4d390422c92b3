use chatalone::session::{
    Frame, FrameAction, Session, SessionState, SessionUnit, HEARTBEAT_INTERVAL_S,
};

#[test]
fn a_stream_error_in_the_receive_unit_cancels_the_other_two() {
    // The receive unit hits a stream error; within one step the send unit and
    // the heartbeat supervisor are cancelled and the session closes.
    let mut s = Session::new(114);
    assert_eq!(s.current_state(), SessionState::Authenticating);
    s.activate();
    assert_eq!(s.current_state(), SessionState::Active);
    let cancel = s.on_unit_finished(SessionUnit::Receive);
    assert_eq!(cancel, (SessionUnit::Send, SessionUnit::Heartbeat));
    assert_eq!(s.current_state(), SessionState::Closing);
    s.on_cancel_acknowledged();
    assert_eq!(s.current_state(), SessionState::Closed);
    assert_eq!(s.user_id(), 114);
}

#[test]
fn whichever_unit_finishes_first_the_rest_are_cancelled() {
    for (finished, others) in [
        (SessionUnit::Send, (SessionUnit::Receive, SessionUnit::Heartbeat)),
        (SessionUnit::Receive, (SessionUnit::Send, SessionUnit::Heartbeat)),
        (SessionUnit::Heartbeat, (SessionUnit::Send, SessionUnit::Receive)),
    ] {
        let mut s = Session::new(1);
        s.activate();
        assert_eq!(s.on_unit_finished(finished), others);
        assert_eq!(s.current_state(), SessionState::Closing);
    }
}

#[test]
fn heartbeat_times_out_after_one_silent_interval() {
    let mut s = Session::new(5);
    s.activate();
    // The first check finds the initial sign of life and resets the flag.
    assert!(!s.heartbeat_tick());
    // A whole interval without a probe: the next check times out.
    assert!(s.heartbeat_tick());
    // A probe in between keeps the session alive.
    let mut t = Session::new(6);
    t.activate();
    assert!(!t.heartbeat_tick());
    assert_eq!(t.on_frame(Frame::Ping), FrameAction::AckAndEcho);
    assert!(!t.heartbeat_tick());
    assert_eq!(HEARTBEAT_INTERVAL_S, 30);
}

#[test]
fn frames_drive_the_receive_unit() {
    let mut s = Session::new(9);
    s.activate();
    assert_eq!(s.on_frame(Frame::Close), FrameAction::Terminate);
    assert_eq!(s.on_frame(Frame::Ping), FrameAction::AckAndEcho);
    assert_eq!(
        s.on_frame(Frame::Text("hello".to_string())),
        FrameAction::Deliver("hello".to_string())
    );
    assert_eq!(s.on_frame(Frame::Other), FrameAction::MarkAlive);
    // A data frame alone is no liveness probe: after the reset only a probe
    // or an unclassified frame staves the timeout off.
    assert!(!s.heartbeat_tick());
    s.on_frame(Frame::Text("chatter".to_string()));
    assert!(s.heartbeat_tick());
}
