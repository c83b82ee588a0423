use ferrous_di::cancellation::{any_flag_raised, cancellation_outcome, CancellationError, CancellationToken};

#[test]
fn test_cancellation_token_basic() {
    let token = CancellationToken::new();
    assert!(!token.is_cancelled());

    token.cancel();
    assert!(token.is_cancelled());
}

#[test]
fn test_child_token_cancellation() {
    let parent = CancellationToken::new();
    let child = parent.child_token();

    assert!(!parent.is_cancelled());
    assert!(!child.is_cancelled());

    parent.cancel();
    assert!(parent.is_cancelled());
    assert!(child.is_cancelled());
}

#[test]
fn test_child_token_independent_cancellation() {
    let parent = CancellationToken::new();
    let child = parent.child_token();

    child.cancel();
    assert!(!parent.is_cancelled());
    assert!(child.is_cancelled());
}

#[test]
fn test_throw_if_cancelled() {
    let token = CancellationToken::new();

    // Should not throw when not cancelled
    assert!(token.throw_if_cancelled().is_ok());

    token.cancel();

    // Should throw when cancelled
    assert!(token.throw_if_cancelled().is_err());
}

#[test]
fn grandchild_sees_root_cancellation_and_handles_share_flag() {
    let root = CancellationToken::new();
    let child = root.child_token();
    let grandchild = child.child_token();
    let handle = grandchild.clone_handle();
    assert!(!handle.is_cancelled());
    root.cancel();
    assert!(grandchild.is_cancelled());
    assert!(handle.is_cancelled());
}

#[test]
fn cancellation_error_message_and_display() {
    let token = CancellationToken::new();
    token.cancel();
    let err = token.throw_if_cancelled().unwrap_err();
    assert_eq!(err.message(), "Operation was cancelled");
    assert_eq!(err.to_display_string(), "Cancellation error: Operation was cancelled");
    let custom = CancellationError::new("stop");
    assert_eq!(custom.to_display_string(), "Cancellation error: stop");
}

#[test]
fn any_flag_raised_over_chain() {
    assert!(!any_flag_raised(&vec![]));
    assert!(!any_flag_raised(&vec![false, false]));
    assert!(any_flag_raised(&vec![false, true, false]));
    assert!(cancellation_outcome(false).is_ok());
    assert!(cancellation_outcome(true).is_err());
}
