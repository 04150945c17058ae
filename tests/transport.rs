use android_logd_logger::logd::{SendAction, SendAttempt, SendOutcome};

#[test]
fn would_block_drops_without_reconnect() {
    let mut attempt = SendAttempt::new();
    assert_eq!(attempt.step(SendOutcome::WouldBlock), SendAction::Done);
}

#[test]
fn sent_is_done() {
    let mut attempt = SendAttempt::new();
    assert_eq!(attempt.step(SendOutcome::Sent), SendAction::Done);
}

#[test]
fn hard_error_reconnects_once_then_fails() {
    let mut attempt = SendAttempt::new();
    assert_eq!(attempt.step(SendOutcome::Failed), SendAction::ReconnectAndRetry);
    assert_eq!(attempt.step(SendOutcome::Failed), SendAction::Fail);
}

#[test]
fn hard_error_then_success_is_done() {
    let mut attempt = SendAttempt::new();
    assert_eq!(attempt.step(SendOutcome::Failed), SendAction::ReconnectAndRetry);
    assert_eq!(attempt.step(SendOutcome::Sent), SendAction::Done);
}

#[test]
fn would_block_after_reconnect_fails() {
    let mut attempt = SendAttempt::new();
    assert_eq!(attempt.step(SendOutcome::Failed), SendAction::ReconnectAndRetry);
    assert_eq!(attempt.step(SendOutcome::WouldBlock), SendAction::Fail);
}
