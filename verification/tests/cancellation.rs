use smoltalk::cancellation::{CancellationToken, SessionStates};

#[test]
fn committed_utterance_cannot_be_cancelled() {
    let mut sessions = SessionStates::new();
    let cancellation = CancellationToken::new(&mut sessions);

    assert!(cancellation.try_commit(&mut sessions));
    assert!(!cancellation.cancel(&mut sessions));
    assert!(!cancellation.is_cancelled(&sessions));
}

#[test]
fn cancelled_utterance_cannot_be_committed() {
    let mut sessions = SessionStates::new();
    let cancellation = CancellationToken::new(&mut sessions);

    assert!(cancellation.cancel(&mut sessions));
    assert!(cancellation.cancel(&mut sessions));
    assert!(!cancellation.try_commit(&mut sessions));
    assert!(cancellation.is_cancelled(&sessions));
}

#[test]
fn an_utterance_is_committed_once() {
    let mut sessions = SessionStates::new();
    let cancellation = CancellationToken::new(&mut sessions);

    assert!(cancellation.try_commit(&mut sessions));
    assert!(!cancellation.try_commit(&mut sessions));
}

#[test]
fn sessions_do_not_touch_each_other() {
    let mut sessions = SessionStates::new();
    let first = CancellationToken::new(&mut sessions);
    let second = CancellationToken::new(&mut sessions);

    assert!(!first.same_session(&second));
    assert!(first.same_session(&first.clone()));
    assert!(first.cancel(&mut sessions));
    assert!(!second.is_cancelled(&sessions));
    assert!(second.try_commit(&mut sessions));
}
