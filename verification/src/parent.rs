//! The parent's side of a session, as a machine that is told what happened and
//! says what to do next.
//!
//! The parent opens the rendezvous, starts the child with the token, accepts
//! the one connection, and then sends its messages in order, each only when
//! the reply to the one before has arrived. When the messages are used up it
//! sends the sentinel. A receive that fails, or that brings the sentinel,
//! ends the exchange at once, with nothing more sent. Either way the parent
//! then waits for the child.

use vstd::prelude::*;
use vstd::string::*;

use crate::failure::{Failure, OutOfTurn};
use crate::message::{
    answered,
    is_sentinel,
    is_sentinel_text,
    lemma_answered_is_the_front,
    lemma_answered_up_to,
    sentinel,
    sentinel_text,
};
use crate::startup::{
    launch_arguments,
    launch_variables,
    plan_launch,
    ChildOutput,
    LaunchPlan,
    SessionConfig,
};

verus! {

/// Where the parent stands.
#[derive(Clone, Copy, Debug, PartialEq, Eq, Structural)]
pub enum ParentPhase {
    /// About to open the one-shot rendezvous.
    Opening,
    /// About to start the child with the token.
    Launching,
    /// Blocked until the child has connected and handed over its endpoints.
    Accepting,
    /// About to send the next message, or the sentinel when none is left.
    Sending,
    /// Blocked until the reply to the message just sent arrives.
    AwaitingReply,
    /// Blocked until the child has exited.
    Waiting,
    /// The child has exited; holds whether it did so with success.
    Finished(bool),
    /// The process gives up.
    Aborted(Failure),
}

/// What the parent's surroundings report.
#[derive(Debug, PartialEq, Eq)]
pub enum ParentEvent {
    /// The rendezvous is open under this token.
    RendezvousOpened(String),
    ChildSpawned,
    EndpointsAccepted,
    Sent,
    ReplyReceived(String),
    ReceiveFailed,
    /// The child has exited, with success or without.
    ChildExited(bool),
    SetupFailed,
    SendFailed,
}

/// What the parent asks of its surroundings.
#[derive(Debug, PartialEq, Eq)]
pub enum ParentAction {
    OpenRendezvous,
    /// Start the child with these additions to its parameters.
    Launch(LaunchPlan),
    Accept,
    /// Send this text on the command channel.
    Send(String),
    Receive,
    WaitForChild,
    /// Say how the child exited, and leave.
    Report(bool),
    /// Leave with a diagnostic.
    Abort(Failure),
}

/// A `LaunchPlan` with its texts as sequences of characters.
pub struct LaunchPlanView {
    pub arguments: Seq<Seq<char>>,
    pub variables: Seq<(Seq<char>, Seq<char>)>,
    pub capture_output: bool,
}

/// A `ParentEvent` with its text as a sequence of characters.
pub enum ParentEventView {
    RendezvousOpened(Seq<char>),
    ChildSpawned,
    EndpointsAccepted,
    Sent,
    ReplyReceived(Seq<char>),
    ReceiveFailed,
    ChildExited(bool),
    SetupFailed,
    SendFailed,
}

/// A `ParentAction` with its texts as sequences of characters.
pub enum ParentActionView {
    OpenRendezvous,
    Launch(LaunchPlanView),
    Accept,
    Send(Seq<char>),
    Receive,
    WaitForChild,
    Report(bool),
    Abort(Failure),
}

/// The state of a parent.
pub struct ParentView {
    pub config: SessionConfig,
    /// The messages of the session, in the order in which they are sent.
    pub messages: Seq<Seq<char>>,
    /// The rendezvous token; empty until the rendezvous is open.
    pub token: Seq<char>,
    /// The replies received so far, in the order of their arrival.
    pub replies: Seq<Seq<char>>,
    pub phase: ParentPhase,
}

impl View for LaunchPlan {
    type V = LaunchPlanView;

    open spec fn view(&self) -> LaunchPlanView {
        LaunchPlanView {
            arguments: self.arguments.deep_view(),
            variables: self.variables.deep_view(),
            capture_output: self.capture_output,
        }
    }
}

impl View for ParentEvent {
    type V = ParentEventView;

    open spec fn view(&self) -> ParentEventView {
        match *self {
            ParentEvent::RendezvousOpened(token) => ParentEventView::RendezvousOpened(token@),
            ParentEvent::ChildSpawned => ParentEventView::ChildSpawned,
            ParentEvent::EndpointsAccepted => ParentEventView::EndpointsAccepted,
            ParentEvent::Sent => ParentEventView::Sent,
            ParentEvent::ReplyReceived(text) => ParentEventView::ReplyReceived(text@),
            ParentEvent::ReceiveFailed => ParentEventView::ReceiveFailed,
            ParentEvent::ChildExited(success) => ParentEventView::ChildExited(success),
            ParentEvent::SetupFailed => ParentEventView::SetupFailed,
            ParentEvent::SendFailed => ParentEventView::SendFailed,
        }
    }
}

impl View for ParentAction {
    type V = ParentActionView;

    open spec fn view(&self) -> ParentActionView {
        match *self {
            ParentAction::OpenRendezvous => ParentActionView::OpenRendezvous,
            ParentAction::Launch(plan) => ParentActionView::Launch(plan@),
            ParentAction::Accept => ParentActionView::Accept,
            ParentAction::Send(text) => ParentActionView::Send(text@),
            ParentAction::Receive => ParentActionView::Receive,
            ParentAction::WaitForChild => ParentActionView::WaitForChild,
            ParentAction::Report(success) => ParentActionView::Report(success),
            ParentAction::Abort(failure) => ParentActionView::Abort(failure),
        }
    }
}

/// The state in which a parent starts.
pub open spec fn parent_start(config: SessionConfig, messages: Seq<Seq<char>>) -> ParentView {
    ParentView {
        config,
        messages,
        token: Seq::empty(),
        replies: Seq::empty(),
        phase: ParentPhase::Opening,
    }
}

/// The text that a sending parent hands to the command channel: the message
/// whose place in the list is the number of replies received, and the sentinel
/// when there is no such message.
pub open spec fn outgoing(s: ParentView) -> Seq<char> {
    if s.replies.len() < s.messages.len() {
        s.messages[s.replies.len() as int]
    } else {
        sentinel_text()
    }
}

/// What the parent adds to the child's parameters.
pub open spec fn launch_plan(config: SessionConfig, token: Seq<char>) -> LaunchPlanView {
    LaunchPlanView {
        arguments: launch_arguments(config.token_transport, token),
        variables: launch_variables(config.token_transport, token),
        capture_output: config.child_output == ChildOutput::Capture,
    }
}

/// What a parent in state `s` asks for.
pub open spec fn parent_action(s: ParentView) -> ParentActionView {
    match s.phase {
        ParentPhase::Opening => ParentActionView::OpenRendezvous,
        ParentPhase::Launching => ParentActionView::Launch(launch_plan(s.config, s.token)),
        ParentPhase::Accepting => ParentActionView::Accept,
        ParentPhase::Sending => ParentActionView::Send(outgoing(s)),
        ParentPhase::AwaitingReply => ParentActionView::Receive,
        ParentPhase::Waiting => ParentActionView::WaitForChild,
        ParentPhase::Finished(success) => ParentActionView::Report(success),
        ParentPhase::Aborted(failure) => ParentActionView::Abort(failure),
    }
}

/// The state of a parent in state `s` once `event` has happened, where
/// `event` answers what `s` asks for.
pub open spec fn parent_after(s: ParentView, event: ParentEventView) -> Option<ParentView> {
    match (s.phase, event) {
        (ParentPhase::Opening, ParentEventView::RendezvousOpened(token)) => Some(
            ParentView { phase: ParentPhase::Launching, token, ..s },
        ),
        (ParentPhase::Launching, ParentEventView::ChildSpawned) => Some(
            ParentView { phase: ParentPhase::Accepting, ..s },
        ),
        (ParentPhase::Accepting, ParentEventView::EndpointsAccepted) => Some(
            ParentView { phase: ParentPhase::Sending, ..s },
        ),
        (ParentPhase::Opening, ParentEventView::SetupFailed)
        | (ParentPhase::Launching, ParentEventView::SetupFailed)
        | (ParentPhase::Accepting, ParentEventView::SetupFailed) => Some(
            ParentView { phase: ParentPhase::Aborted(Failure::Setup), ..s },
        ),
        (ParentPhase::Sending, ParentEventView::Sent) => Some(
            if s.replies.len() < s.messages.len() {
                ParentView { phase: ParentPhase::AwaitingReply, ..s }
            } else {
                ParentView { phase: ParentPhase::Waiting, ..s }
            },
        ),
        (ParentPhase::Sending, ParentEventView::SendFailed) => Some(
            ParentView { phase: ParentPhase::Aborted(Failure::Send), ..s },
        ),
        (ParentPhase::AwaitingReply, ParentEventView::ReplyReceived(text)) => Some(
            if is_sentinel_text(text) {
                ParentView { phase: ParentPhase::Waiting, ..s }
            } else {
                ParentView { phase: ParentPhase::Sending, replies: s.replies.push(text), ..s }
            },
        ),
        (ParentPhase::AwaitingReply, ParentEventView::ReceiveFailed) => Some(
            ParentView { phase: ParentPhase::Waiting, ..s },
        ),
        (ParentPhase::Waiting, ParentEventView::ChildExited(success)) => Some(
            ParentView { phase: ParentPhase::Finished(success), ..s },
        ),
        _ => None,
    }
}

/// The state of a parent in state `s` once each of `events` has happened in
/// turn; nothing where one of them does not answer what was asked for.
pub open spec fn parent_run(s: ParentView, events: Seq<ParentEventView>) -> Option<ParentView>
    decreases events.len(),
{
    if events.len() == 0 {
        Some(s)
    } else {
        match parent_run(s, events.drop_last()) {
            Some(before) => parent_after(before, events.last()),
            None => None,
        }
    }
}

/// The texts that a parent in state `s` gets sent while `events` happen, in
/// their order.
pub open spec fn sent_in(s: ParentView, events: Seq<ParentEventView>) -> Seq<Seq<char>>
    decreases events.len(),
{
    if events.len() == 0 {
        Seq::empty()
    } else {
        let earlier = sent_in(s, events.drop_last());
        match (events.last(), parent_run(s, events.drop_last())) {
            (ParentEventView::Sent, Some(before)) => if before.phase == ParentPhase::Sending {
                earlier.push(outgoing(before))
            } else {
                earlier
            },
            _ => earlier,
        }
    }
}

/// The texts that `events` bring as replies, in their order.
pub open spec fn received_in(events: Seq<ParentEventView>) -> Seq<Seq<char>>
    decreases events.len(),
{
    if events.len() == 0 {
        Seq::empty()
    } else {
        match events.last() {
            ParentEventView::ReplyReceived(text) => received_in(events.drop_last()).push(text),
            _ => received_in(events.drop_last()),
        }
    }
}

/// How many texts a parent in this phase has sent beyond the replies it
/// holds: one while it awaits a reply and once the exchange is over, none
/// before.
pub open spec fn unanswered(phase: ParentPhase) -> nat {
    match phase {
        ParentPhase::AwaitingReply | ParentPhase::Waiting | ParentPhase::Finished(_) => 1,
        _ => 0,
    }
}

/// How far a parent of this phase has come: the steps of the handshake one
/// by one, then the exchange, then the wait for the child, then the end.
pub open spec fn parent_progress(phase: ParentPhase) -> nat {
    match phase {
        ParentPhase::Opening => 0,
        ParentPhase::Launching => 1,
        ParentPhase::Accepting => 2,
        ParentPhase::Sending | ParentPhase::AwaitingReply => 3,
        ParentPhase::Waiting => 4,
        ParentPhase::Finished(_) | ParentPhase::Aborted(_) => 5,
    }
}

/// The parent's side of one session.
pub struct ParentSession {
    config: SessionConfig,
    messages: Vec<String>,
    token: String,
    replies: Vec<String>,
    phase: ParentPhase,
}

impl View for ParentSession {
    type V = ParentView;

    closed spec fn view(&self) -> ParentView {
        ParentView {
            config: self.config,
            messages: self.messages.deep_view(),
            token: self.token@,
            replies: self.replies.deep_view(),
            phase: self.phase,
        }
    }
}

impl ParentSession {
    /// Starts a parent that is to send `messages`, in their order.
    pub fn new(config: SessionConfig, messages: Vec<String>) -> (session: ParentSession)
        ensures
            session@ == parent_start(config, messages.deep_view()),
    {
        let session = ParentSession {
            config,
            messages,
            token: String::new(),
            replies: Vec::new(),
            phase: ParentPhase::Opening,
        };
        assert(session.replies.deep_view() =~= Seq::empty());
        session
    }

    /// Where the parent stands.
    pub fn phase(&self) -> (phase: ParentPhase)
        ensures
            phase == self@.phase,
    {
        self.phase
    }

    /// The replies received so far, in the order of their arrival.
    pub fn replies(&self) -> (replies: &Vec<String>)
        ensures
            replies.deep_view() == self@.replies,
    {
        &self.replies
    }

    /// Gives up the parent for the replies that it holds.
    pub fn into_replies(self) -> (replies: Vec<String>)
        ensures
            replies.deep_view() == self@.replies,
    {
        self.replies
    }

    /// What the parent asks for now.
    pub fn action(&self) -> (action: ParentAction)
        ensures
            action@ == parent_action(self@),
    {
        match self.phase {
            ParentPhase::Opening => ParentAction::OpenRendezvous,
            ParentPhase::Launching => ParentAction::Launch(
                plan_launch(self.config, self.token.as_str()),
            ),
            ParentPhase::Accepting => ParentAction::Accept,
            ParentPhase::Sending => {
                if self.replies.len() < self.messages.len() {
                    ParentAction::Send(self.messages[self.replies.len()].clone())
                } else {
                    ParentAction::Send(sentinel())
                }
            },
            ParentPhase::AwaitingReply => ParentAction::Receive,
            ParentPhase::Waiting => ParentAction::WaitForChild,
            ParentPhase::Finished(success) => ParentAction::Report(success),
            ParentPhase::Aborted(failure) => ParentAction::Abort(failure),
        }
    }

    /// Takes in what happened and says what to do next. An event that does
    /// not answer the action asked for changes nothing.
    pub fn step(&mut self, event: ParentEvent) -> (next: Result<ParentAction, OutOfTurn>)
        ensures
            parent_after(old(self)@, event@) matches Some(s) ==> final(self)@ == s && (
            next matches Ok(action) && action@ == parent_action(s)),
            parent_after(old(self)@, event@) is None ==> final(self)@ == old(self)@ && next is Err,
    {
        match self.phase {
            ParentPhase::Opening => match event {
                ParentEvent::RendezvousOpened(token) => {
                    self.token = token;
                    self.phase = ParentPhase::Launching;
                },
                ParentEvent::SetupFailed => {
                    self.phase = ParentPhase::Aborted(Failure::Setup);
                },
                _ => {
                    return Err(OutOfTurn);
                },
            },
            ParentPhase::Launching => match event {
                ParentEvent::ChildSpawned => {
                    self.phase = ParentPhase::Accepting;
                },
                ParentEvent::SetupFailed => {
                    self.phase = ParentPhase::Aborted(Failure::Setup);
                },
                _ => {
                    return Err(OutOfTurn);
                },
            },
            ParentPhase::Accepting => match event {
                ParentEvent::EndpointsAccepted => {
                    self.phase = ParentPhase::Sending;
                },
                ParentEvent::SetupFailed => {
                    self.phase = ParentPhase::Aborted(Failure::Setup);
                },
                _ => {
                    return Err(OutOfTurn);
                },
            },
            ParentPhase::Sending => match event {
                ParentEvent::Sent => {
                    if self.replies.len() < self.messages.len() {
                        self.phase = ParentPhase::AwaitingReply;
                    } else {
                        self.phase = ParentPhase::Waiting;
                    }
                },
                ParentEvent::SendFailed => {
                    self.phase = ParentPhase::Aborted(Failure::Send);
                },
                _ => {
                    return Err(OutOfTurn);
                },
            },
            ParentPhase::AwaitingReply => match event {
                ParentEvent::ReplyReceived(text) => {
                    if is_sentinel(text.as_str()) {
                        self.phase = ParentPhase::Waiting;
                    } else {
                        self.replies.push(text);
                        assert(self.replies.deep_view() =~= old(self).replies.deep_view().push(
                            text@,
                        ));
                        self.phase = ParentPhase::Sending;
                    }
                },
                ParentEvent::ReceiveFailed => {
                    self.phase = ParentPhase::Waiting;
                },
                _ => {
                    return Err(OutOfTurn);
                },
            },
            ParentPhase::Waiting => match event {
                ParentEvent::ChildExited(success) => {
                    self.phase = ParentPhase::Finished(success);
                },
                _ => {
                    return Err(OutOfTurn);
                },
            },
            ParentPhase::Finished(_) => {
                return Err(OutOfTurn);
            },
            ParentPhase::Aborted(_) => {
                return Err(OutOfTurn);
            },
        }
        Ok(self.action())
    }
}

/// A receive that fails ends the exchange: the parent turns to waiting for
/// the child, and from there takes in nothing but the child's exit.
pub proof fn lemma_failed_receive_ends_exchange(s: ParentView, later: ParentEventView)
    requires
        s.phase == ParentPhase::AwaitingReply,
    ensures
        parent_after(s, ParentEventView::ReceiveFailed) matches Some(ended) && ended.phase
            == ParentPhase::Waiting && ended.replies == s.replies && parent_action(ended)
            == ParentActionView::WaitForChild && (parent_after(ended, later) matches Some(last)
            ==> later is ChildExited && last.phase is Finished),
{
}

/// A parent says how the child exited only when it has waited for the child,
/// and says what the wait gave.
pub proof fn lemma_parent_reports_the_child(s: ParentView, event: ParentEventView)
    requires
        parent_after(s, event) matches Some(next) && next.phase is Finished,
    ensures
        s.phase == ParentPhase::Waiting,
        event matches ParentEventView::ChildExited(success) && parent_action(
            parent_after(s, event).unwrap(),
        ) == ParentActionView::Report(success),
{
}

/// Once a parent has reported or given up, its state stays as it is: no row
/// of events leads anywhere.
pub proof fn lemma_parent_end_is_final(s: ParentView, events: Seq<ParentEventView>)
    requires
        s.phase is Finished || s.phase is Aborted,
        events.len() > 0,
    ensures
        parent_run(s, events) is None,
    decreases events.len(),
{
    if events.len() > 1 {
        lemma_parent_end_is_final(s, events.drop_last());
    } else {
        assert(parent_run(s, events.drop_last()) == Some(s));
    }
}

/// A parent never goes back, and each step of its handshake is left for good
/// by the event that answers it: a parent opens one rendezvous, starts one
/// child and accepts one connection.
pub proof fn lemma_parent_handshake_happens_once(s: ParentView, events: Seq<ParentEventView>)
    requires
        parent_run(s, events) is Some,
    ensures
        parent_progress(parent_run(s, events).unwrap().phase) >= parent_progress(s.phase),
        events.len() > 0 && parent_progress(s.phase) < 3 ==> parent_progress(
            parent_run(s, events).unwrap().phase,
        ) > parent_progress(s.phase),
    decreases events.len(),
{
    if events.len() > 0 {
        lemma_parent_handshake_happens_once(s, events.drop_last());
    }
}

/// In every run of a parent from its start, what has been sent is a front
/// part of the messages followed by the sentinel, and each text was sent only
/// when the replies to all texts before it had arrived: the texts sent are at
/// most one ahead of the replies held. The replies held are the texts
/// received, in their order, up to a sentinel among them, which ends the
/// exchange.
pub proof fn lemma_parent_run_sends_in_order(
    config: SessionConfig,
    messages: Seq<Seq<char>>,
    events: Seq<ParentEventView>,
)
    requires
        parent_run(parent_start(config, messages), events) is Some,
    ensures
        ({
            let s = parent_run(parent_start(config, messages), events).unwrap();
            let sent = sent_in(parent_start(config, messages), events);
            let received = received_in(events);
            &&& s.config == config
            &&& s.messages == messages
            &&& sent == messages.push(sentinel_text()).take(sent.len() as int)
            &&& sent.len() == s.replies.len() + unanswered(s.phase)
            &&& s.replies.len() <= messages.len()
            &&& s.phase == ParentPhase::AwaitingReply ==> s.replies.len() < messages.len()
            &&& s.replies == answered(received)
            &&& s.replies.len() + 1 >= received.len()
            &&& s.replies.len() < received.len() ==> s.phase == ParentPhase::Waiting
                || s.phase is Finished
        }),
    decreases events.len(),
{
    let start = parent_start(config, messages);
    let s = parent_run(start, events).unwrap();
    let sent = sent_in(start, events);
    let list = messages.push(sentinel_text());
    if events.len() == 0 {
        assert(sent =~= list.take(0));
        assert(s.replies =~= answered(received_in(events)));
    } else {
        let front = events.drop_last();
        lemma_parent_run_sends_in_order(config, messages, front);
        let before = parent_run(start, front).unwrap();
        let earlier = sent_in(start, front);
        let seen = received_in(front);
        lemma_answered_is_the_front(seen);
        match events.last() {
            ParentEventView::Sent => {
                assert(before.phase == ParentPhase::Sending);
                let k = before.replies.len() as int;
                assert(outgoing(before) == list[k]);
                assert(list.take(k).push(list[k]) =~= list.take(k + 1));
            },
            ParentEventView::ReplyReceived(text) => {
                assert(before.phase == ParentPhase::AwaitingReply);
                assert(seen.take(seen.len() as int) =~= seen);
                let all = seen.push(text);
                if is_sentinel_text(text) {
                    lemma_answered_up_to(all, seen.len() as int);
                    assert(all.take(seen.len() as int) =~= seen);
                } else {
                    lemma_answered_up_to(all, all.len() as int);
                    assert(all.take(all.len() as int) =~= all);
                }
            },
            _ => {},
        }
    }
}

} // verus!
