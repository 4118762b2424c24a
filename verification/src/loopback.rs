//! A whole session within one process: both sides run in turn, and what one
//! side asks to have sent is handed to the other as received.
//!
//! Nothing fails on the way, so a receive fails only when the other side has
//! left. The child leaves at the first sentinel, be it the one that closes the
//! parent's messages or one among them.

use vstd::pervasive::unreached;
use vstd::prelude::*;
use vstd::string::*;

use crate::child::{ChildAction, ChildEvent, ChildPhase, ChildSession};
use crate::message::{
    answered,
    is_sentinel_text,
    lemma_answered_up_to,
    lemma_reply_is_no_sentinel,
    reply_text,
    sentinel_text,
};
use crate::parent::{ParentAction, ParentEvent, ParentPhase, ParentSession};
use crate::startup::{lemma_child_finds_the_token, SessionConfig};

verus! {

/// What a session left behind.
#[derive(Debug, PartialEq, Eq)]
pub struct Transcript {
    /// The token by which the child asked to connect.
    pub token: String,
    /// The texts that the parent had sent, in their order.
    pub sent: Vec<String>,
    /// The replies that the parent holds, in the order of their arrival.
    pub replies: Vec<String>,
    /// Where the parent ended.
    pub parent: ParentPhase,
    /// Where the child ended.
    pub child: ChildPhase,
}

/// Runs a parent that is to send `messages`, and the child that it starts,
/// to their ends, with the rendezvous open under `token`.
///
/// The child connects with the parent's token. The parent sends the messages
/// in front of the first sentinel and then that sentinel, or its own where
/// the messages hold none; it receives the reply to each message, in the order
/// of the messages, before it sends the next text. The child terminates, and
/// the parent reports that the child exited with success.
pub fn run_loopback(config: SessionConfig, token: &str, messages: Vec<String>) -> (transcript:
    Transcript)
    ensures
        transcript.token@ == token@,
        transcript.sent.deep_view() == answered(messages.deep_view()).push(sentinel_text()),
        transcript.replies.deep_view() == answered(messages.deep_view()).map_values(
            |text: Seq<char>| reply_text(text),
        ),
        transcript.parent == ParentPhase::Finished(true),
        transcript.child == ChildPhase::Terminated,
{
    let ghost wanted = messages.deep_view();
    let ghost reply = |text: Seq<char>| reply_text(text);
    let mut parent = ParentSession::new(config, messages);

    let launch = parent.step(ParentEvent::RendezvousOpened(token.to_owned()));
    let plan = match launch {
        Ok(ParentAction::Launch(plan)) => plan,
        _ => unreached(),
    };
    proof {
        lemma_child_finds_the_token(config.token_transport, token@);
    }
    let mut child = ChildSession::new(config.token_transport, &plan.arguments, &plan.variables);
    let _ = parent.step(ParentEvent::ChildSpawned);

    let connect = child.step(ChildEvent::ChannelsCreated);
    let found = match connect {
        Ok(ChildAction::Connect(found)) => found,
        _ => unreached(),
    };
    let _ = child.step(ChildEvent::Connected);
    let _ = child.step(ChildEvent::EndpointsOffered);
    let _ = parent.step(ParentEvent::EndpointsAccepted);

    let mut sent: Vec<String> = Vec::new();
    assert(sent.deep_view() =~= wanted.take(0));
    assert(parent@.replies =~= wanted.take(0).map_values(reply));
    loop
        invariant_except_break
            parent@.phase == ParentPhase::Sending,
            child@.phase == ChildPhase::AwaitingMessage,
            parent@.replies.len() <= wanted.len(),
            forall|i: int| 0 <= i < parent@.replies.len() ==> !is_sentinel_text(#[trigger] wanted[i]),
            parent@.replies == wanted.take(parent@.replies.len() as int).map_values(reply),
            sent.deep_view() == wanted.take(parent@.replies.len() as int),
        invariant
            parent@.config == config,
            parent@.messages == wanted,
            reply == |text: Seq<char>| reply_text(text),
        ensures
            parent@.phase == ParentPhase::Waiting,
            child@.phase == ChildPhase::Terminated,
            parent@.replies == answered(wanted).map_values(reply),
            sent.deep_view() == answered(wanted).push(sentinel_text()),
        decreases wanted.len() - parent@.replies.len(),
    {
        let ghost count = parent@.replies.len() as int;
        let text = match parent.action() {
            ParentAction::Send(text) => text,
            _ => unreached(),
        };
        sent.push(text.clone());
        assert(sent.deep_view() =~= wanted.take(count).push(text@));
        let _ = parent.step(ParentEvent::Sent);
        match child.step(ChildEvent::Received(text)) {
            Ok(ChildAction::Reply(answer)) => {
                proof {
                    lemma_reply_is_no_sentinel(text@);
                    assert(wanted.take(count + 1) =~= wanted.take(count).push(wanted[count]));
                    assert(wanted.take(count + 1).map_values(reply) =~= wanted.take(
                        count,
                    ).map_values(reply).push(reply_text(wanted[count])));
                }
                let _ = child.step(ChildEvent::ReplySent);
                let _ = parent.step(ParentEvent::ReplyReceived(answer));
            },
            _ => {
                proof {
                    lemma_answered_up_to(wanted, count);
                }
                if parent.phase() == ParentPhase::AwaitingReply {
                    let _ = parent.step(ParentEvent::ReceiveFailed);
                }
                break ;
            },
        }
    }

    let succeeded = child.phase() == ChildPhase::Terminated;
    let _ = parent.step(ParentEvent::ChildExited(succeeded));
    let ended = parent.phase();
    Transcript {
        token: found,
        sent,
        replies: parent.into_replies(),
        parent: ended,
        child: child.phase(),
    }
}

} // verus!
