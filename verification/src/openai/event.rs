//! Timeline events as the conversation engine reads them.

use crate::text::{same_text, texts};
use vstd::prelude::*;

verus! {

/// A room message: who sent it, what it says and whom it mentions.
#[derive(Debug, PartialEq, Eq)]
pub struct MessageEvent {
    pub event_id: String,
    pub sender: String,
    pub body: String,
    pub mentions: Vec<String>,
}

/// What a membership event says of the member.
#[derive(Debug, Clone, Copy, PartialEq, Eq, Structural)]
pub enum Membership {
    Invited,
    Left,
    Other,
}

/// What the transport made of the content of an event.
#[derive(Debug, PartialEq, Eq)]
pub enum Payload {
    /// The content could not be fetched, decrypted or decoded, or was not
    /// asked for.
    Failed,
    /// The content of a membership event.
    Member(Membership),
    /// The content of a message, decrypted where it was encrypted.
    Message(MessageEvent),
}

/// One event of a room's timeline: its type tag, where it could be read, and
/// its content.
#[derive(Debug, PartialEq, Eq)]
pub struct RawEvent {
    pub event_type: Option<String>,
    pub payload: Payload,
}

/// The kinds of event that the engine tells apart.
#[derive(Debug, Clone, Copy, PartialEq, Eq, Structural)]
pub enum EventKind {
    Member,
    Message,
    Encrypted,
    Other,
}

/// Why an event could not be used.
#[derive(Debug, Clone, Copy, PartialEq, Eq, Structural)]
pub enum EventError {
    /// Its type tag or its content could not be read.
    Failed,
    /// It is of a kind that cannot stand for a chat turn.
    InvalidType,
}

/// The mathematical value of a [`MessageEvent`].
pub ghost struct MessageEventView {
    pub event_id: Seq<char>,
    pub sender: Seq<char>,
    pub body: Seq<char>,
    pub mentions: Seq<Seq<char>>,
}

/// The mathematical value of a [`Payload`].
pub ghost enum PayloadView {
    Failed,
    Member(Membership),
    Message(MessageEventView),
}

/// The mathematical value of a [`RawEvent`].
pub ghost struct RawEventView {
    pub event_type: Option<Seq<char>>,
    pub payload: PayloadView,
}

impl View for MessageEvent {
    type V = MessageEventView;

    open spec fn view(&self) -> MessageEventView {
        MessageEventView {
            event_id: self.event_id@,
            sender: self.sender@,
            body: self.body@,
            mentions: texts(self.mentions@),
        }
    }
}

impl View for Payload {
    type V = PayloadView;

    open spec fn view(&self) -> PayloadView {
        match self {
            Payload::Failed => PayloadView::Failed,
            Payload::Member(change) => PayloadView::Member(*change),
            Payload::Message(event) => PayloadView::Message(event@),
        }
    }
}

impl View for RawEvent {
    type V = RawEventView;

    open spec fn view(&self) -> RawEventView {
        RawEventView {
            event_type: match self.event_type {
                Some(tag) => Some(tag@),
                None => None,
            },
            payload: self.payload@,
        }
    }
}

/// The views of a list of messages.
pub open spec fn event_views(events: Seq<MessageEvent>) -> Seq<MessageEventView> {
    Seq::new(events.len(), |i: int| events[i]@)
}

/// The views of a list of raw events.
pub open spec fn raw_views(events: Seq<RawEvent>) -> Seq<RawEventView> {
    Seq::new(events.len(), |i: int| events[i]@)
}

/// The kind that a type tag names.
pub open spec fn kind_of(tag: Seq<char>) -> EventKind {
    if tag == "m.room.member"@ {
        EventKind::Member
    } else if tag == "m.room.message"@ {
        EventKind::Message
    } else if tag == "m.room.encrypted"@ {
        EventKind::Encrypted
    } else {
        EventKind::Other
    }
}

/// The message that an event of the stored history stands for: the content
/// of a plain or encrypted message, and an error for anything else.
pub open spec fn replayed(event: RawEventView) -> Result<MessageEventView, EventError> {
    match event.event_type {
        None => Err(EventError::Failed),
        Some(tag) => match kind_of(tag) {
            EventKind::Message | EventKind::Encrypted => match event.payload {
                PayloadView::Message(message) => Ok(message),
                _ => Err(EventError::Failed),
            },
            _ => Err(EventError::InvalidType),
        },
    }
}

/// The messages that the first `n` events of the stored history stand for,
/// or the error of the first among them that stands for none.
pub open spec fn replayed_all(events: Seq<RawEventView>, n: int) -> Result<
    Seq<MessageEventView>,
    EventError,
>
    decreases n,
{
    if n <= 0 {
        Ok(Seq::empty())
    } else {
        match replayed_all(events, n - 1) {
            Err(e) => Err(e),
            Ok(before) => match replayed(events[n - 1]) {
                Err(e) => Err(e),
                Ok(message) => Ok(before.push(message)),
            },
        }
    }
}

/// Once the first `n` events fail, so do the first `m` for every `m` from
/// `n` on, with the same error.
pub proof fn lemma_replay_fails(events: Seq<RawEventView>, n: int, m: int)
    requires
        0 <= n <= m,
        replayed_all(events, n) is Err,
    ensures
        replayed_all(events, m) == replayed_all(events, n),
    decreases m - n,
{
    if n < m {
        lemma_replay_fails(events, n, m - 1);
    }
}

/// The message that goes with an event error.
pub open spec fn event_error_text(error: EventError) -> Seq<char> {
    match error {
        EventError::Failed => "Event could not be read"@,
        EventError::InvalidType => "Invalid event type provided"@,
    }
}

impl EventError {
    /// The message that goes with this error.
    pub fn as_str(&self) -> (r: &'static str)
        ensures
            r@ == event_error_text(*self),
    {
        match self {
            EventError::Failed => "Event could not be read",
            EventError::InvalidType => "Invalid event type provided",
        }
    }
}

impl EventKind {
    /// The kind that a type tag names.
    pub fn of_tag(tag: &str) -> (r: EventKind)
        ensures
            r == kind_of(tag@),
    {
        if same_text(tag, "m.room.member") {
            EventKind::Member
        } else if same_text(tag, "m.room.message") {
            EventKind::Message
        } else if same_text(tag, "m.room.encrypted") {
            EventKind::Encrypted
        } else {
            EventKind::Other
        }
    }
}

impl MessageEvent {
    /// A copy of this message.
    pub fn copy(&self) -> (r: MessageEvent)
        ensures
            r@ == self@,
    {
        MessageEvent {
            event_id: self.event_id.clone(),
            sender: self.sender.clone(),
            body: self.body.clone(),
            mentions: crate::text::copy_texts(&self.mentions),
        }
    }
}

impl RawEvent {
    /// The message that this event of the stored history stands for.
    pub fn replay(&self) -> (r: Result<MessageEvent, EventError>)
        ensures
            match r {
                Ok(message) => replayed(self@) == Ok::<MessageEventView, EventError>(message@),
                Err(e) => replayed(self@) == Err::<MessageEventView, EventError>(e),
            },
    {
        let tag = match &self.event_type {
            Some(tag) => tag,
            None => return Err(EventError::Failed),
        };
        match EventKind::of_tag(tag.as_str()) {
            EventKind::Message | EventKind::Encrypted => match &self.payload {
                Payload::Message(message) => Ok(message.copy()),
                _ => Err(EventError::Failed),
            },
            _ => Err(EventError::InvalidType),
        }
    }
}

} // verus!
