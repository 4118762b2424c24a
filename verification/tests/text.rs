use ipc_session::text::{same_text, strip_prefix};

#[test]
fn same_text_compares_every_character() {
    assert!(same_text("", ""));
    assert!(same_text("quit", "quit"));
    assert!(!same_text("quit", "quiT"));
    assert!(!same_text("quit", "qui"));
    assert!(!same_text("", "q"));
    assert!(same_text("grüße", "grüße"));
    assert!(!same_text("grüße", "grusse"));
}

#[test]
fn strip_prefix_gives_the_rest() {
    assert_eq!(strip_prefix("channel_name:abc", "channel_name:"), Some("abc".to_string()));
    assert_eq!(strip_prefix("abc", ""), Some("abc".to_string()));
    assert_eq!(strip_prefix("abc", "abc"), Some(String::new()));
    assert_eq!(strip_prefix("éa", "é"), Some("a".to_string()));
}

#[test]
fn strip_prefix_gives_nothing_without_the_prefix() {
    assert_eq!(strip_prefix("abc", "abd"), None);
    assert_eq!(strip_prefix("ab", "abc"), None);
    assert_eq!(strip_prefix("", "a"), None);
    assert_eq!(strip_prefix("xchannel_name:abc", "channel_name:"), None);
}
