//! The child's side of a session, as a machine that is told what happened and
//! says what to do next.
//!
//! The child finds the rendezvous token among its startup parameters, makes
//! its channels, connects to the rendezvous, hands over the endpoints that the
//! parent needs, and then answers every message until the sentinel arrives or
//! a receive fails.

use vstd::prelude::*;
use vstd::string::*;

use crate::failure::{Failure, OutOfTurn};
use crate::message::{
    answered,
    is_sentinel,
    is_sentinel_text,
    lemma_answered_is_the_front,
    lemma_answered_up_to,
    reply_for,
    reply_text,
    sentinel_text,
};
use crate::startup::{resolve_channel_name, resolved_token, TokenTransport};

verus! {

/// Where the child stands.
#[derive(Clone, Copy, Debug, PartialEq, Eq, Structural)]
pub enum ChildPhase {
    /// About to make its two channels.
    CreatingChannels,
    /// About to connect to the rendezvous.
    Connecting,
    /// About to send, as the one message of the rendezvous connection, the
    /// endpoints by which the parent reaches it.
    Offering,
    /// Blocked until a message arrives.
    AwaitingMessage,
    /// About to send the reply to the message just received.
    Replying,
    /// The session is over: the sentinel arrived or a receive failed.
    Terminated,
    /// The process gives up.
    Aborted(Failure),
}

/// What the child's surroundings report.
#[derive(Debug, PartialEq, Eq)]
pub enum ChildEvent {
    ChannelsCreated,
    Connected,
    EndpointsOffered,
    Received(String),
    ReceiveFailed,
    ReplySent,
    SetupFailed,
    SendFailed,
}

/// What the child asks of its surroundings.
#[derive(Debug, PartialEq, Eq)]
pub enum ChildAction {
    CreateChannels,
    /// Connect to the rendezvous of this token.
    Connect(String),
    OfferEndpoints,
    Receive,
    /// Send this text on the reply channel.
    Reply(String),
    /// Leave with success.
    Exit,
    /// Leave with a diagnostic.
    Abort(Failure),
}

/// A `ChildEvent` with its text as a sequence of characters.
pub enum ChildEventView {
    ChannelsCreated,
    Connected,
    EndpointsOffered,
    Received(Seq<char>),
    ReceiveFailed,
    ReplySent,
    SetupFailed,
    SendFailed,
}

/// A `ChildAction` with its text as a sequence of characters.
pub enum ChildActionView {
    CreateChannels,
    Connect(Seq<char>),
    OfferEndpoints,
    Receive,
    Reply(Seq<char>),
    Exit,
    Abort(Failure),
}

/// The state of a child.
pub struct ChildView {
    pub phase: ChildPhase,
    /// The rendezvous token, from the startup parameters.
    pub token: Seq<char>,
    /// The reply that is being sent; empty outside `Replying`.
    pub reply: Seq<char>,
}

impl View for ChildEvent {
    type V = ChildEventView;

    open spec fn view(&self) -> ChildEventView {
        match *self {
            ChildEvent::ChannelsCreated => ChildEventView::ChannelsCreated,
            ChildEvent::Connected => ChildEventView::Connected,
            ChildEvent::EndpointsOffered => ChildEventView::EndpointsOffered,
            ChildEvent::Received(text) => ChildEventView::Received(text@),
            ChildEvent::ReceiveFailed => ChildEventView::ReceiveFailed,
            ChildEvent::ReplySent => ChildEventView::ReplySent,
            ChildEvent::SetupFailed => ChildEventView::SetupFailed,
            ChildEvent::SendFailed => ChildEventView::SendFailed,
        }
    }
}

impl View for ChildAction {
    type V = ChildActionView;

    open spec fn view(&self) -> ChildActionView {
        match *self {
            ChildAction::CreateChannels => ChildActionView::CreateChannels,
            ChildAction::Connect(token) => ChildActionView::Connect(token@),
            ChildAction::OfferEndpoints => ChildActionView::OfferEndpoints,
            ChildAction::Receive => ChildActionView::Receive,
            ChildAction::Reply(text) => ChildActionView::Reply(text@),
            ChildAction::Exit => ChildActionView::Exit,
            ChildAction::Abort(failure) => ChildActionView::Abort(failure),
        }
    }
}

/// The state in which a child starts: ready to make its channels where the
/// startup parameters hold a token, given up where they hold none.
pub open spec fn child_start(token: Option<Seq<char>>) -> ChildView {
    match token {
        Some(token) => ChildView {
            phase: ChildPhase::CreatingChannels,
            token,
            reply: Seq::empty(),
        },
        None => ChildView {
            phase: ChildPhase::Aborted(Failure::MissingToken),
            token: Seq::empty(),
            reply: Seq::empty(),
        },
    }
}

/// What a child in state `s` asks for.
pub open spec fn child_action(s: ChildView) -> ChildActionView {
    match s.phase {
        ChildPhase::CreatingChannels => ChildActionView::CreateChannels,
        ChildPhase::Connecting => ChildActionView::Connect(s.token),
        ChildPhase::Offering => ChildActionView::OfferEndpoints,
        ChildPhase::AwaitingMessage => ChildActionView::Receive,
        ChildPhase::Replying => ChildActionView::Reply(s.reply),
        ChildPhase::Terminated => ChildActionView::Exit,
        ChildPhase::Aborted(failure) => ChildActionView::Abort(failure),
    }
}

/// The state of a child in state `s` once `event` has happened, where `event`
/// answers what `s` asks for.
pub open spec fn child_after(s: ChildView, event: ChildEventView) -> Option<ChildView> {
    match (s.phase, event) {
        (ChildPhase::CreatingChannels, ChildEventView::ChannelsCreated) => Some(
            ChildView { phase: ChildPhase::Connecting, ..s },
        ),
        (ChildPhase::Connecting, ChildEventView::Connected) => Some(
            ChildView { phase: ChildPhase::Offering, ..s },
        ),
        (ChildPhase::Offering, ChildEventView::EndpointsOffered) => Some(
            ChildView { phase: ChildPhase::AwaitingMessage, ..s },
        ),
        (ChildPhase::CreatingChannels, ChildEventView::SetupFailed)
        | (ChildPhase::Connecting, ChildEventView::SetupFailed)
        | (ChildPhase::Offering, ChildEventView::SetupFailed) => Some(
            ChildView { phase: ChildPhase::Aborted(Failure::Setup), ..s },
        ),
        (ChildPhase::AwaitingMessage, ChildEventView::Received(text)) => Some(
            if is_sentinel_text(text) {
                ChildView { phase: ChildPhase::Terminated, ..s }
            } else {
                ChildView { phase: ChildPhase::Replying, reply: reply_text(text), ..s }
            },
        ),
        (ChildPhase::AwaitingMessage, ChildEventView::ReceiveFailed) => Some(
            ChildView { phase: ChildPhase::Terminated, ..s },
        ),
        (ChildPhase::Replying, ChildEventView::ReplySent) => Some(
            ChildView { phase: ChildPhase::AwaitingMessage, reply: Seq::empty(), ..s },
        ),
        (ChildPhase::Replying, ChildEventView::SendFailed) => Some(
            ChildView { phase: ChildPhase::Aborted(Failure::Send), reply: Seq::empty(), ..s },
        ),
        _ => None,
    }
}

/// The state of a child in state `s` once each of `events` has happened in
/// turn; nothing where one of them does not answer what was asked for.
pub open spec fn child_run(s: ChildView, events: Seq<ChildEventView>) -> Option<ChildView>
    decreases events.len(),
{
    if events.len() == 0 {
        Some(s)
    } else {
        match child_run(s, events.drop_last()) {
            Some(before) => child_after(before, events.last()),
            None => None,
        }
    }
}

/// The messages that `events` bring, in their order.
pub open spec fn messages_in(events: Seq<ChildEventView>) -> Seq<Seq<char>>
    decreases events.len(),
{
    if events.len() == 0 {
        Seq::empty()
    } else {
        match events.last() {
            ChildEventView::Received(text) => messages_in(events.drop_last()).push(text),
            _ => messages_in(events.drop_last()),
        }
    }
}

/// The replies that a child in state `s` asks to send while `events` happen,
/// in their order.
pub open spec fn replies_in(s: ChildView, events: Seq<ChildEventView>) -> Seq<Seq<char>>
    decreases events.len(),
{
    if events.len() == 0 {
        Seq::empty()
    } else {
        let earlier = replies_in(s, events.drop_last());
        match (events.last(), child_run(s, events)) {
            (ChildEventView::Received(_), Some(now)) => match child_action(now) {
                ChildActionView::Reply(text) => earlier.push(text),
                _ => earlier,
            },
            _ => earlier,
        }
    }
}

/// How far a child of this phase has come: the steps of the handshake one
/// by one, then the exchange, then the end.
pub open spec fn child_progress(phase: ChildPhase) -> nat {
    match phase {
        ChildPhase::CreatingChannels => 0,
        ChildPhase::Connecting => 1,
        ChildPhase::Offering => 2,
        ChildPhase::AwaitingMessage | ChildPhase::Replying => 3,
        ChildPhase::Terminated | ChildPhase::Aborted(_) => 4,
    }
}

/// The child's side of one session.
pub struct ChildSession {
    phase: ChildPhase,
    token: String,
    reply: String,
}

impl View for ChildSession {
    type V = ChildView;

    closed spec fn view(&self) -> ChildView {
        ChildView { phase: self.phase, token: self.token@, reply: self.reply@ }
    }
}

impl ChildSession {
    /// Starts a child from its startup parameters. Without a token among them
    /// it gives up at once.
    pub fn new(
        transport: TokenTransport,
        arguments: &Vec<String>,
        variables: &Vec<(String, String)>,
    ) -> (session: ChildSession)
        ensures
            session@ == child_start(
                resolved_token(transport, arguments.deep_view(), variables.deep_view()),
            ),
    {
        match resolve_channel_name(transport, arguments, variables) {
            Some(token) => ChildSession {
                phase: ChildPhase::CreatingChannels,
                token,
                reply: String::new(),
            },
            None => ChildSession {
                phase: ChildPhase::Aborted(Failure::MissingToken),
                token: String::new(),
                reply: String::new(),
            },
        }
    }

    /// Where the child stands.
    pub fn phase(&self) -> (phase: ChildPhase)
        ensures
            phase == self@.phase,
    {
        self.phase
    }

    /// What the child asks for now.
    pub fn action(&self) -> (action: ChildAction)
        ensures
            action@ == child_action(self@),
    {
        match self.phase {
            ChildPhase::CreatingChannels => ChildAction::CreateChannels,
            ChildPhase::Connecting => ChildAction::Connect(self.token.clone()),
            ChildPhase::Offering => ChildAction::OfferEndpoints,
            ChildPhase::AwaitingMessage => ChildAction::Receive,
            ChildPhase::Replying => ChildAction::Reply(self.reply.clone()),
            ChildPhase::Terminated => ChildAction::Exit,
            ChildPhase::Aborted(failure) => ChildAction::Abort(failure),
        }
    }

    /// Takes in what happened and says what to do next. An event that does
    /// not answer the action asked for changes nothing.
    pub fn step(&mut self, event: ChildEvent) -> (next: Result<ChildAction, OutOfTurn>)
        ensures
            child_after(old(self)@, event@) matches Some(s) ==> final(self)@ == s && (
            next matches Ok(action) && action@ == child_action(s)),
            child_after(old(self)@, event@) is None ==> final(self)@ == old(self)@ && next is Err,
    {
        match self.phase {
            ChildPhase::CreatingChannels => match event {
                ChildEvent::ChannelsCreated => {
                    self.phase = ChildPhase::Connecting;
                },
                ChildEvent::SetupFailed => {
                    self.phase = ChildPhase::Aborted(Failure::Setup);
                },
                _ => {
                    return Err(OutOfTurn);
                },
            },
            ChildPhase::Connecting => match event {
                ChildEvent::Connected => {
                    self.phase = ChildPhase::Offering;
                },
                ChildEvent::SetupFailed => {
                    self.phase = ChildPhase::Aborted(Failure::Setup);
                },
                _ => {
                    return Err(OutOfTurn);
                },
            },
            ChildPhase::Offering => match event {
                ChildEvent::EndpointsOffered => {
                    self.phase = ChildPhase::AwaitingMessage;
                },
                ChildEvent::SetupFailed => {
                    self.phase = ChildPhase::Aborted(Failure::Setup);
                },
                _ => {
                    return Err(OutOfTurn);
                },
            },
            ChildPhase::AwaitingMessage => match event {
                ChildEvent::Received(text) => {
                    if is_sentinel(text.as_str()) {
                        self.phase = ChildPhase::Terminated;
                    } else {
                        self.reply = reply_for(text.as_str());
                        self.phase = ChildPhase::Replying;
                    }
                },
                ChildEvent::ReceiveFailed => {
                    self.phase = ChildPhase::Terminated;
                },
                _ => {
                    return Err(OutOfTurn);
                },
            },
            ChildPhase::Replying => match event {
                ChildEvent::ReplySent => {
                    self.reply = String::new();
                    self.phase = ChildPhase::AwaitingMessage;
                },
                ChildEvent::SendFailed => {
                    self.reply = String::new();
                    self.phase = ChildPhase::Aborted(Failure::Send);
                },
                _ => {
                    return Err(OutOfTurn);
                },
            },
            ChildPhase::Terminated => {
                return Err(OutOfTurn);
            },
            ChildPhase::Aborted(_) => {
                return Err(OutOfTurn);
            },
        }
        Ok(self.action())
    }
}

/// The sentinel ends the session of a child that awaits a message: the child
/// asks to leave, and no event is taken in any more.
pub proof fn lemma_sentinel_ends_child(s: ChildView, later: ChildEventView)
    requires
        s.phase == ChildPhase::AwaitingMessage,
    ensures
        child_after(s, ChildEventView::Received(sentinel_text())) matches Some(ended)
            && ended.phase == ChildPhase::Terminated && child_action(ended)
            == ChildActionView::Exit && child_after(ended, later) is None,
{
}

/// A child asks to send a reply only when a message other than the sentinel
/// has arrived, and the reply is then the one that the rule gives for that
/// message.
pub proof fn lemma_child_answers_by_rule(s: ChildView, event: ChildEventView)
    requires
        child_after(s, event) matches Some(next) && child_action(next) is Reply,
    ensures
        s.phase == ChildPhase::AwaitingMessage,
        event matches ChildEventView::Received(text) && !is_sentinel_text(text) && child_action(
            child_after(s, event).unwrap(),
        ) == ChildActionView::Reply(reply_text(text)),
{
}

/// A child that awaits a message answers every message but the sentinel.
pub proof fn lemma_child_answers_every_message(s: ChildView, text: Seq<char>)
    requires
        s.phase == ChildPhase::AwaitingMessage,
        !is_sentinel_text(text),
    ensures
        child_after(s, ChildEventView::Received(text)) matches Some(next) && child_action(next)
            == ChildActionView::Reply(reply_text(text)),
{
}

/// Once a child has terminated or given up, its state stays as it is: no row
/// of events leads anywhere.
pub proof fn lemma_child_end_is_final(s: ChildView, events: Seq<ChildEventView>)
    requires
        s.phase == ChildPhase::Terminated || s.phase is Aborted,
        events.len() > 0,
    ensures
        child_run(s, events) is None,
    decreases events.len(),
{
    if events.len() > 1 {
        lemma_child_end_is_final(s, events.drop_last());
    } else {
        assert(child_run(s, events.drop_last()) == Some(s));
    }
}

/// A child never goes back, and each step of its handshake is left for good
/// by the event that answers it: a child connects to the rendezvous once and
/// hands its endpoints over once.
pub proof fn lemma_child_handshake_happens_once(s: ChildView, events: Seq<ChildEventView>)
    requires
        child_run(s, events) is Some,
    ensures
        child_progress(child_run(s, events).unwrap().phase) >= child_progress(s.phase),
        events.len() > 0 && child_progress(s.phase) < 3 ==> child_progress(
            child_run(s, events).unwrap().phase,
        ) > child_progress(s.phase),
    decreases events.len(),
{
    if events.len() > 0 {
        lemma_child_handshake_happens_once(s, events.drop_last());
    }
}

/// In every run of a child the replies asked for are those that the rule
/// gives for the messages taken in, one for each message but the sentinel and
/// in their order; and the sentinel, where it came, is the last message taken
/// in.
pub proof fn lemma_child_run_answers_in_order(s: ChildView, events: Seq<ChildEventView>)
    requires
        child_run(s, events) is Some,
    ensures
        replies_in(s, events) == answered(messages_in(events)).map_values(
            |text: Seq<char>| reply_text(text),
        ),
        answered(messages_in(events)).len() + 1 >= messages_in(events).len(),
        answered(messages_in(events)).len() < messages_in(events).len() ==> child_run(
            s,
            events,
        ).unwrap().phase == ChildPhase::Terminated,
    decreases events.len(),
{
    let reply = |text: Seq<char>| reply_text(text);
    if events.len() == 0 {
        assert(replies_in(s, events) =~= answered(messages_in(events)).map_values(reply));
    } else {
        let front = events.drop_last();
        let before = child_run(s, front).unwrap();
        lemma_child_run_answers_in_order(s, front);
        let seen = messages_in(front);
        match events.last() {
            ChildEventView::Received(text) => {
                assert(before.phase == ChildPhase::AwaitingMessage);
                lemma_answered_is_the_front(seen);
                assert(seen.take(seen.len() as int) =~= seen);
                let all = seen.push(text);
                if is_sentinel_text(text) {
                    lemma_answered_up_to(all, seen.len() as int);
                    assert(all.take(seen.len() as int) =~= seen);
                } else {
                    lemma_answered_up_to(all, all.len() as int);
                    assert(all.take(all.len() as int) =~= all);
                    assert(all.map_values(reply) =~= seen.map_values(reply).push(
                        reply_text(text),
                    ));
                }
            },
            _ => {},
        }
    }
}

} // verus!
