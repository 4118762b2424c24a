use ipc_session::child::ChildPhase;
use ipc_session::loopback::{run_loopback, Transcript};
use ipc_session::parent::ParentPhase;
use ipc_session::startup::{ChildOutput, SessionConfig, TokenTransport};

fn texts(items: &[&str]) -> Vec<String> {
    items.iter().map(|item| item.to_string()).collect()
}

fn configs() -> Vec<SessionConfig> {
    let mut all = Vec::new();
    for token_transport in [TokenTransport::Argument, TokenTransport::Environment] {
        for child_output in [ChildOutput::Inherit, ChildOutput::Capture] {
            all.push(SessionConfig { token_transport, child_output });
        }
    }
    all
}

#[test]
fn the_three_messages_are_answered_in_order() {
    for config in configs() {
        let messages = texts(&["Hello from parent", "How are you?", "Goodbye!"]);
        let transcript = run_loopback(config, "server-7", messages);
        assert_eq!(
            transcript,
            Transcript {
                token: "server-7".to_string(),
                sent: texts(&["Hello from parent", "How are you?", "Goodbye!", "quit"]),
                replies: texts(&[
                    "Child received: Hello from parent",
                    "Child received: How are you?",
                    "Child received: Goodbye!",
                ]),
                parent: ParentPhase::Finished(true),
                child: ChildPhase::Terminated,
            }
        );
    }
}

#[test]
fn a_session_without_messages_is_the_sentinel_alone() {
    let transcript = run_loopback(configs()[1], "t", Vec::new());
    assert_eq!(transcript.sent, texts(&["quit"]));
    assert!(transcript.replies.is_empty());
    assert_eq!(transcript.parent, ParentPhase::Finished(true));
    assert_eq!(transcript.child, ChildPhase::Terminated);
}

#[test]
fn a_sentinel_among_the_messages_ends_the_session_there() {
    let messages = texts(&["one", "quit", "three"]);
    let transcript = run_loopback(configs()[2], "t", messages);
    assert_eq!(transcript.sent, texts(&["one", "quit"]));
    assert_eq!(transcript.replies, texts(&["Child received: one"]));
    assert_eq!(transcript.parent, ParentPhase::Finished(true));
    assert_eq!(transcript.child, ChildPhase::Terminated);
}

#[test]
fn a_sentinel_as_the_first_message_gets_no_reply() {
    let transcript = run_loopback(configs()[0], "t", texts(&["quit", "after"]));
    assert_eq!(transcript.sent, texts(&["quit"]));
    assert!(transcript.replies.is_empty());
}

#[test]
fn the_child_connects_with_the_token_of_the_parent() {
    for config in configs() {
        for token in ["", "channel_name:x", "CHANNEL_NAME", "a b c", "ß"] {
            let transcript = run_loopback(config, token, texts(&["m"]));
            assert_eq!(transcript.token, token);
            assert_eq!(transcript.replies, texts(&["Child received: m"]));
        }
    }
}

#[test]
fn every_reply_holds_its_message() {
    let messages = texts(&["", "quit ", "Quit", "Child received: x", "ünï cödé"]);
    let transcript = run_loopback(configs()[3], "t", messages.clone());
    assert_eq!(transcript.replies.len(), messages.len());
    for (reply, message) in transcript.replies.iter().zip(messages.iter()) {
        assert_eq!(reply, &format!("Child received: {}", message));
    }
    let mut expected = messages;
    expected.push("quit".to_string());
    assert_eq!(transcript.sent, expected);
}
