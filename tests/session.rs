use ramon::dispatch::{next_state, verbosity_from_count, SessionInput, SessionState, Verbosity};

#[test]
fn session_connects_or_fails() {
    assert_eq!(
        next_state(SessionState::Disconnected, SessionInput::ConnectDone(true)),
        SessionState::Connected
    );
    assert_eq!(
        next_state(SessionState::Disconnected, SessionInput::ConnectDone(false)),
        SessionState::ConnectFailed
    );
}

#[test]
fn session_stops_on_quit_key_only() {
    assert_eq!(
        next_state(SessionState::Connected, SessionInput::Key('q')),
        SessionState::Stopped
    );
    assert_eq!(
        next_state(SessionState::Connected, SessionInput::Key('x')),
        SessionState::Connected
    );
    assert_eq!(
        next_state(SessionState::Connected, SessionInput::MessageDone(false)),
        SessionState::Connected
    );
    assert_eq!(
        next_state(SessionState::Stopped, SessionInput::Key('q')),
        SessionState::Stopped
    );
}

#[test]
fn verbosity_levels() {
    assert_eq!(verbosity_from_count(0), Verbosity::Off);
    assert_eq!(verbosity_from_count(1), Verbosity::Error);
    assert_eq!(verbosity_from_count(2), Verbosity::Warn);
    assert_eq!(verbosity_from_count(3), Verbosity::Info);
    assert_eq!(verbosity_from_count(4), Verbosity::Debug);
    assert_eq!(verbosity_from_count(5), Verbosity::Trace);
    assert_eq!(verbosity_from_count(255), Verbosity::Trace);
}
