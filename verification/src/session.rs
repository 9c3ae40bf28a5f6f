//! One conversation as an ordered sequence of events to pull.
//!
//! A session is made with one event already waiting: the notice that the
//! session was configured. Events that wait are handed out first, oldest
//! first; only when none waits is the conversation's own stream to be
//! awaited. Awaiting the stream is the caller's work: [`SessionBridge`]
//! says when it is due, and [`stream_outcome`] reads what came back.

use std::collections::VecDeque;
use vstd::prelude::*;

use crate::text::{chars_of, contains_text, find_in_window};

verus! {

/// What a stream failure carries in its text when the stream has closed
/// in good order.
pub const STREAM_CLOSED_MARK: &'static str = "StreamClosed";

/// What a call for the next event has to do.
#[derive(Debug, PartialEq, Eq)]
pub enum NextEvent<E> {
    /// An event was waiting: here it is.
    Ready(E),
    /// Nothing was waiting: the stream has to be awaited.
    AwaitStream,
}

/// What the stream of a conversation gave.
#[derive(Debug, PartialEq, Eq)]
pub enum StreamOutcome<E> {
    /// The next event.
    Event(E),
    /// There are no more events.
    End,
    /// The stream failed, with this message.
    Failure(String),
}

/// The events of one conversation that wait to be handed out.
pub struct SessionBridge<E> {
    conversation_id: String,
    pending: VecDeque<E>,
}

/// What to do when these events wait.
pub open spec fn next_step<E>(pending: Seq<E>) -> NextEvent<E> {
    if pending.len() > 0 {
        NextEvent::Ready(pending[0])
    } else {
        NextEvent::AwaitStream
    }
}

/// The events that still wait after one call for the next event.
pub open spec fn rest_after<E>(pending: Seq<E>) -> Seq<E> {
    if pending.len() > 0 {
        pending.drop_first()
    } else {
        pending
    }
}

/// The first `n` events that a consumer sees when these events wait and
/// the stream gives `stream`.
pub open spec fn observed<E>(pending: Seq<E>, stream: Seq<E>, n: nat) -> Seq<E>
    decreases n,
{
    if n == 0 {
        Seq::empty()
    } else {
        match next_step(pending) {
            NextEvent::Ready(event) => seq![event] + observed(
                rest_after(pending),
                stream,
                (n - 1) as nat,
            ),
            NextEvent::AwaitStream => if stream.len() > 0 {
                seq![stream[0]] + observed(pending, stream.drop_first(), (n - 1) as nat)
            } else {
                Seq::empty()
            },
        }
    }
}

/// What a result of the stream means: a failure whose message holds the
/// closing mark is the end of the stream, every other failure is an error
/// with its message.
pub open spec fn outcome_of<E>(result: Result<E, String>) -> StreamOutcome<E> {
    match result {
        Ok(event) => StreamOutcome::Event(event),
        Err(message) => if contains_text(message@, STREAM_CLOSED_MARK@) {
            StreamOutcome::End
        } else {
            StreamOutcome::Failure(message)
        },
    }
}

impl<E> View for SessionBridge<E> {
    type V = Seq<E>;

    /// The events that wait, oldest first.
    closed spec fn view(&self) -> Seq<E> {
        self.pending@
    }
}

impl<E> SessionBridge<E> {
    /// The id of the conversation.
    pub closed spec fn id(&self) -> Seq<char> {
        self.conversation_id@
    }

    /// A session for a new conversation. The notice that the session was
    /// configured is the one event that waits.
    pub fn new(conversation_id: String, configured: E) -> (session: Self)
        ensures
            session@ == seq![configured],
            session.id() == conversation_id@,
    {
        let mut pending: VecDeque<E> = VecDeque::new();
        pending.push_back(configured);
        assert(pending@ =~= seq![configured]);
        SessionBridge { conversation_id, pending }
    }

    /// The id of the conversation.
    pub fn conversation_id(&self) -> (id: String)
        ensures
            id@ == self.id(),
    {
        self.conversation_id.clone()
    }

    /// The number of events that wait.
    pub fn pending_len(&self) -> (n: usize)
        ensures
            n == self@.len(),
    {
        self.pending.len()
    }

    /// Puts an event behind those that wait.
    pub fn push_event(&mut self, event: E)
        ensures
            final(self)@ == old(self)@.push(event),
            final(self).id() == old(self).id(),
    {
        self.pending.push_back(event);
    }

    /// Hands out the oldest event that waits, or says that the stream has
    /// to be awaited. The stream is not touched while an event waits.
    pub fn next_event(&mut self) -> (step: NextEvent<E>)
        ensures
            step == next_step(old(self)@),
            final(self)@ == rest_after(old(self)@),
            final(self).id() == old(self).id(),
    {
        match self.pending.pop_front() {
            Some(event) => {
                assert(self.pending@ =~= old(self).pending@.drop_first());
                NextEvent::Ready(event)
            },
            None => NextEvent::AwaitStream,
        }
    }
}

/// Tests whether the message of a stream failure says that the stream has
/// closed in good order.
pub fn is_stream_closed(message: &str) -> (closed: bool)
    ensures
        closed == contains_text(message@, STREAM_CLOSED_MARK@),
{
    let chars = chars_of(message);
    let mark = chars_of(STREAM_CLOSED_MARK);
    assert(chars@.subrange(0, chars.len() as int) =~= message@);
    find_in_window(&chars, 0, chars.len(), &mark).is_some()
}

/// Reads a result of the stream.
pub fn stream_outcome<E>(result: Result<E, String>) -> (outcome: StreamOutcome<E>)
    ensures
        outcome == outcome_of(result),
{
    match result {
        Ok(event) => StreamOutcome::Event(event),
        Err(message) => {
            if is_stream_closed(message.as_str()) {
                StreamOutcome::End
            } else {
                StreamOutcome::Failure(message)
            }
        },
    }
}

/// Right after a session was made, the first call for the next event hands
/// out the notice that the session was configured, and the second finds
/// nothing waiting: the notice is seen once, and before anything the
/// stream gives.
pub proof fn lemma_configured_event_first<E>(configured: E)
    ensures
        next_step(seq![configured]) == NextEvent::Ready(configured),
        rest_after(seq![configured]) == Seq::<E>::empty(),
        next_step(rest_after(seq![configured])) == NextEvent::<E>::AwaitStream,
{
    assert(seq![configured].drop_first() =~= Seq::<E>::empty());
}

/// A consumer sees the events that wait, oldest first, and after them the
/// events of the stream in the order in which the stream gives them.
pub proof fn lemma_events_in_order<E>(pending: Seq<E>, stream: Seq<E>, n: nat)
    requires
        n <= pending.len() + stream.len(),
    ensures
        observed(pending, stream, n) == (pending + stream).take(n as int),
    decreases n,
{
    if n == 0 {
        assert((pending + stream).take(0) =~= Seq::<E>::empty());
    } else if pending.len() > 0 {
        lemma_events_in_order(pending.drop_first(), stream, (n - 1) as nat);
        assert((pending + stream).take(n as int) =~= seq![pending[0]] + (pending.drop_first()
            + stream).take(n - 1));
    } else {
        lemma_events_in_order(pending, stream.drop_first(), (n - 1) as nat);
        assert((pending + stream).take(n as int) =~= seq![stream[0]] + (pending
            + stream.drop_first()).take(n - 1));
    }
}

} // verus!
