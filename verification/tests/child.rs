use ipc_session::child::{ChildAction, ChildEvent, ChildPhase, ChildSession};
use ipc_session::failure::{Failure, OutOfTurn};
use ipc_session::startup::TokenTransport;

fn started() -> ChildSession {
    let variables = vec![("CHANNEL_NAME".to_string(), "token-1".to_string())];
    ChildSession::new(TokenTransport::Environment, &Vec::new(), &variables)
}

fn connected() -> ChildSession {
    let mut child = started();
    assert_eq!(child.step(ChildEvent::ChannelsCreated), Ok(ChildAction::Connect("token-1".to_string())));
    assert_eq!(child.step(ChildEvent::Connected), Ok(ChildAction::OfferEndpoints));
    assert_eq!(child.step(ChildEvent::EndpointsOffered), Ok(ChildAction::Receive));
    child
}

#[test]
fn a_child_with_a_token_starts_by_making_its_channels() {
    let child = started();
    assert_eq!(child.phase(), ChildPhase::CreatingChannels);
    assert_eq!(child.action(), ChildAction::CreateChannels);
}

#[test]
fn a_child_without_a_token_gives_up_at_once() {
    let mut child = ChildSession::new(TokenTransport::Environment, &Vec::new(), &Vec::new());
    assert_eq!(child.phase(), ChildPhase::Aborted(Failure::MissingToken));
    assert_eq!(child.action(), ChildAction::Abort(Failure::MissingToken));
    assert_eq!(child.step(ChildEvent::ChannelsCreated), Err(OutOfTurn));
    let arguments = vec!["child".to_string()];
    let other = ChildSession::new(TokenTransport::Argument, &arguments, &Vec::new());
    assert_eq!(other.action(), ChildAction::Abort(Failure::MissingToken));
}

#[test]
fn the_token_comes_from_the_arguments_when_the_transport_says_so() {
    let arguments = vec!["child".to_string(), "channel_name:token-2".to_string()];
    let mut child = ChildSession::new(TokenTransport::Argument, &arguments, &Vec::new());
    assert_eq!(child.step(ChildEvent::ChannelsCreated), Ok(ChildAction::Connect("token-2".to_string())));
}

#[test]
fn the_handshake_runs_step_by_step() {
    let child = connected();
    assert_eq!(child.phase(), ChildPhase::AwaitingMessage);
    assert_eq!(child.action(), ChildAction::Receive);
}

#[test]
fn a_failed_setup_step_makes_the_child_give_up() {
    let mut child = started();
    assert_eq!(child.step(ChildEvent::SetupFailed), Ok(ChildAction::Abort(Failure::Setup)));
    assert_eq!(child.phase(), ChildPhase::Aborted(Failure::Setup));

    let mut child = started();
    child.step(ChildEvent::ChannelsCreated).unwrap();
    assert_eq!(child.step(ChildEvent::SetupFailed), Ok(ChildAction::Abort(Failure::Setup)));

    let mut child = started();
    child.step(ChildEvent::ChannelsCreated).unwrap();
    child.step(ChildEvent::Connected).unwrap();
    assert_eq!(child.step(ChildEvent::SetupFailed), Ok(ChildAction::Abort(Failure::Setup)));
    assert_eq!(child.step(ChildEvent::EndpointsOffered), Err(OutOfTurn));
}

#[test]
fn every_message_gets_the_reply_that_holds_it() {
    let mut child = connected();
    for text in ["Hello from parent", "How are you?", "Goodbye!"] {
        let action = child.step(ChildEvent::Received(text.to_string()));
        assert_eq!(action, Ok(ChildAction::Reply(format!("Child received: {}", text))));
        assert_eq!(child.phase(), ChildPhase::Replying);
        assert_eq!(child.step(ChildEvent::ReplySent), Ok(ChildAction::Receive));
        assert_eq!(child.phase(), ChildPhase::AwaitingMessage);
    }
}

#[test]
fn the_same_message_gets_the_same_reply() {
    let mut child = connected();
    let first = child.step(ChildEvent::Received("again".to_string()));
    child.step(ChildEvent::ReplySent).unwrap();
    let second = child.step(ChildEvent::Received("again".to_string()));
    assert_eq!(first, second);
    assert_eq!(first, Ok(ChildAction::Reply("Child received: again".to_string())));
}

#[test]
fn the_sentinel_ends_the_child_without_a_reply() {
    let mut child = connected();
    assert_eq!(child.step(ChildEvent::Received("quit".to_string())), Ok(ChildAction::Exit));
    assert_eq!(child.phase(), ChildPhase::Terminated);
    assert_eq!(child.action(), ChildAction::Exit);
    assert_eq!(child.step(ChildEvent::Received("more".to_string())), Err(OutOfTurn));
    assert_eq!(child.step(ChildEvent::ReplySent), Err(OutOfTurn));
    assert_eq!(child.phase(), ChildPhase::Terminated);
}

#[test]
fn a_text_that_only_holds_the_sentinel_is_a_message() {
    let mut child = connected();
    assert_eq!(
        child.step(ChildEvent::Received("quit now".to_string())),
        Ok(ChildAction::Reply("Child received: quit now".to_string()))
    );
}

#[test]
fn a_failed_receive_ends_the_child_as_the_sentinel_does() {
    let mut child = connected();
    assert_eq!(child.step(ChildEvent::ReceiveFailed), Ok(ChildAction::Exit));
    assert_eq!(child.phase(), ChildPhase::Terminated);
}

#[test]
fn a_failed_send_makes_the_child_give_up() {
    let mut child = connected();
    child.step(ChildEvent::Received("hello".to_string())).unwrap();
    assert_eq!(child.step(ChildEvent::SendFailed), Ok(ChildAction::Abort(Failure::Send)));
    assert_eq!(child.phase(), ChildPhase::Aborted(Failure::Send));
    assert_eq!(child.step(ChildEvent::ReplySent), Err(OutOfTurn));
}

#[test]
fn an_event_out_of_turn_changes_nothing() {
    let mut child = started();
    assert_eq!(child.step(ChildEvent::Received("hello".to_string())), Err(OutOfTurn));
    assert_eq!(child.step(ChildEvent::Connected), Err(OutOfTurn));
    assert_eq!(child.phase(), ChildPhase::CreatingChannels);
    assert_eq!(child.action(), ChildAction::CreateChannels);

    let mut child = connected();
    assert_eq!(child.step(ChildEvent::ReplySent), Err(OutOfTurn));
    assert_eq!(child.step(ChildEvent::SendFailed), Err(OutOfTurn));
    assert_eq!(child.step(ChildEvent::SetupFailed), Err(OutOfTurn));
    assert_eq!(child.phase(), ChildPhase::AwaitingMessage);

    child.step(ChildEvent::Received("hello".to_string())).unwrap();
    assert_eq!(child.step(ChildEvent::Received("again".to_string())), Err(OutOfTurn));
    assert_eq!(child.step(ChildEvent::ReceiveFailed), Err(OutOfTurn));
    assert_eq!(child.action(), ChildAction::Reply("Child received: hello".to_string()));
}
