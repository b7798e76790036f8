use ptymux::session::{accepts_io, is_final, next_state, SessionEvent, SessionState};

#[test]
fn session_runs_after_spawn() {
    let s = next_state(SessionState::Created, SessionEvent::Spawned);
    assert_eq!(s, SessionState::Running);
    assert!(accepts_io(s));
    assert!(!accepts_io(SessionState::Created));
}

#[test]
fn session_end_and_release() {
    assert_eq!(next_state(SessionState::Running, SessionEvent::StreamEnded), SessionState::Exited);
    assert_eq!(next_state(SessionState::Running, SessionEvent::Released), SessionState::Terminated);
    assert_eq!(next_state(SessionState::Created, SessionEvent::Released), SessionState::Terminated);
    assert_eq!(next_state(SessionState::Created, SessionEvent::StreamEnded), SessionState::Created);
}

#[test]
fn final_states_are_kept() {
    for s in [SessionState::Exited, SessionState::Terminated] {
        assert!(is_final(s));
        assert!(!accepts_io(s));
        for e in [SessionEvent::Spawned, SessionEvent::StreamEnded, SessionEvent::Released] {
            assert_eq!(next_state(s, e), s);
        }
    }
    assert!(!is_final(SessionState::Running));
}
