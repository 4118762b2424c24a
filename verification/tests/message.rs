use ipc_session::message::{is_sentinel, reply_for, sentinel};

#[test]
fn the_sentinel_is_quit() {
    assert_eq!(sentinel(), "quit");
    assert!(is_sentinel("quit"));
}

#[test]
fn other_texts_are_not_the_sentinel() {
    assert!(!is_sentinel(""));
    assert!(!is_sentinel("quit "));
    assert!(!is_sentinel("Quit"));
    assert!(!is_sentinel("qui"));
    assert!(!is_sentinel("quiz"));
    assert!(!is_sentinel("Hello from parent"));
}

#[test]
fn replies_put_the_prefix_before_the_message() {
    assert_eq!(reply_for("Hello from parent"), "Child received: Hello from parent");
    assert_eq!(reply_for("How are you?"), "Child received: How are you?");
    assert_eq!(reply_for("Goodbye!"), "Child received: Goodbye!");
    assert_eq!(reply_for(""), "Child received: ");
}
