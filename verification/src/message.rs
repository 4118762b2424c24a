//! Text messages of a session: the reserved sentinel and the rule by which the
//! child answers every other message.

use vstd::prelude::*;
use vstd::string::*;

use crate::text::same_text;

verus! {

/// The reserved message that ends a session.
pub open spec fn sentinel_text() -> Seq<char> {
    seq!['q', 'u', 'i', 't']
}

/// Whether `message` is the sentinel.
pub open spec fn is_sentinel_text(message: Seq<char>) -> bool {
    message == sentinel_text()
}

/// The words that the child puts in front of a message to form its reply.
pub open spec fn reply_prefix() -> Seq<char> {
    seq![
        'C', 'h', 'i', 'l', 'd', ' ', 'r', 'e', 'c', 'e', 'i', 'v', 'e', 'd', ':', ' ',
    ]
}

/// The reply that the child gives to `message`.
pub open spec fn reply_text(message: Seq<char>) -> Seq<char> {
    reply_prefix() + message
}

/// The messages of `messages` that get a reply: those in front of the first
/// sentinel, and all of them where none is the sentinel.
pub open spec fn answered(messages: Seq<Seq<char>>) -> Seq<Seq<char>>
    decreases messages.len(),
{
    if messages.len() == 0 || is_sentinel_text(messages.first()) {
        Seq::empty()
    } else {
        seq![messages.first()] + answered(messages.drop_first())
    }
}

/// The sentinel as an owned string.
pub fn sentinel() -> (s: String)
    ensures
        s@ == sentinel_text(),
{
    proof {
        reveal_strlit("quit");
        assert("quit"@ =~= sentinel_text());
    }
    String::from_str("quit")
}

/// Tells whether `message` is the sentinel.
pub fn is_sentinel(message: &str) -> (b: bool)
    ensures
        b == is_sentinel_text(message@),
{
    proof {
        reveal_strlit("quit");
        assert("quit"@ =~= sentinel_text());
    }
    same_text(message, "quit")
}

/// Builds the child's reply to `message`.
pub fn reply_for(message: &str) -> (reply: String)
    ensures
        reply@ == reply_text(message@),
{
    proof {
        reveal_strlit("Child received: ");
        assert("Child received: "@ =~= reply_prefix());
    }
    String::from_str("Child received: ").concat(message)
}

/// A reply holds the message it answers, unchanged, behind the prefix.
pub proof fn lemma_reply_embeds_message(message: Seq<char>)
    ensures
        reply_prefix().is_prefix_of(reply_text(message)),
        reply_text(message).skip(reply_prefix().len() as int) == message,
        reply_text(message).len() == reply_prefix().len() + message.len(),
{
    assert(reply_text(message).subrange(0, reply_prefix().len() as int) =~= reply_prefix());
    assert(reply_text(message).skip(reply_prefix().len() as int) =~= message);
}

/// Messages that differ get replies that differ.
pub proof fn lemma_replies_tell_messages_apart(first: Seq<char>, second: Seq<char>)
    requires
        reply_text(first) == reply_text(second),
    ensures
        first == second,
{
    lemma_reply_embeds_message(first);
    lemma_reply_embeds_message(second);
}

/// No reply is the sentinel.
pub proof fn lemma_reply_is_no_sentinel(message: Seq<char>)
    ensures
        !is_sentinel_text(reply_text(message)),
{
    lemma_reply_embeds_message(message);
}

/// The answered messages are the longest front part without a sentinel.
pub proof fn lemma_answered_is_the_front(messages: Seq<Seq<char>>)
    ensures
        answered(messages).len() <= messages.len(),
        answered(messages) == messages.take(answered(messages).len() as int),
        forall|i: int|
            0 <= i < answered(messages).len() ==> !is_sentinel_text(#[trigger] messages[i]),
        answered(messages).len() < messages.len() ==> is_sentinel_text(
            messages[answered(messages).len() as int],
        ),
    decreases messages.len(),
{
    if messages.len() == 0 || is_sentinel_text(messages.first()) {
        assert(messages.take(0) =~= Seq::empty());
    } else {
        let rest = messages.drop_first();
        lemma_answered_is_the_front(rest);
        let n = answered(rest).len() as int;
        assert(messages.take(n + 1) =~= seq![messages.first()] + rest.take(n));
        assert forall|i: int| 0 <= i < n + 1 implies !is_sentinel_text(
            #[trigger] messages[i],
        ) by {
            if i > 0 {
                assert(messages[i] == rest[i - 1]);
            }
        }
        if n < rest.len() {
            assert(messages[n + 1] == rest[n]);
        }
    }
}

/// A front part without a sentinel that ends at a sentinel, or at the end of
/// the messages, is what is answered.
pub proof fn lemma_answered_up_to(messages: Seq<Seq<char>>, count: int)
    requires
        0 <= count <= messages.len(),
        forall|i: int| 0 <= i < count ==> !is_sentinel_text(#[trigger] messages[i]),
        count < messages.len() ==> is_sentinel_text(messages[count]),
    ensures
        answered(messages) == messages.take(count),
    decreases count,
{
    if count == 0 {
        assert(messages.take(0) =~= Seq::empty());
    } else {
        let rest = messages.drop_first();
        assert forall|i: int| 0 <= i < count - 1 implies !is_sentinel_text(#[trigger] rest[i]) by {
            assert(rest[i] == messages[i + 1]);
        }
        if count < messages.len() {
            assert(rest[count - 1] == messages[count]);
        }
        assert(!is_sentinel_text(messages[0]));
        lemma_answered_up_to(rest, count - 1);
        assert(messages.take(count) =~= seq![messages.first()] + rest.take(count - 1));
    }
}

} // verus!
