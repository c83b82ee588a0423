use ferrous_di::circular::{Entry, ResolutionStack};

#[test]
fn cycle_is_recoverable() {
    let mut stack = ResolutionStack::new();
    assert!(matches!(stack.enter("A"), Entry::Entered));
    assert!(matches!(stack.enter("B"), Entry::Entered));
    match stack.enter("A") {
        Entry::Circular(path) => assert_eq!(path, vec!["A", "B", "A"]),
        _ => panic!("cycle not reported"),
    }
    // The two open resolutions leave as usual.
    stack.leave();
    stack.leave();
    assert!(stack.current_path().is_empty());
    // The stack is usable again.
    assert!(matches!(stack.enter("A"), Entry::Entered));
    stack.leave();
    assert!(matches!(stack.enter("C"), Entry::Entered));
}
