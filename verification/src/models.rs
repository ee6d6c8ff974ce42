//! The message records that the durable store keeps.

use vstd::prelude::*;

verus! {

/// A message as the durable store holds it. The store assigns `id` and
/// `timestamp` when it takes the message in; a record is never changed
/// afterwards, only deleted by its `id`.
#[derive(Debug, PartialEq, Eq)]
pub struct Message {
    pub id: i64,
    pub content: String,
    /// When the store took the message in, in microseconds since
    /// 1970-01-01 00:00:00 UTC.
    pub timestamp: i64,
}

/// A [`Message`] as contracts see it.
pub struct MessageView {
    pub id: i64,
    pub content: Seq<char>,
    pub timestamp: i64,
}

impl View for Message {
    type V = MessageView;

    open spec fn view(&self) -> MessageView {
        MessageView { id: self.id, content: self.content@, timestamp: self.timestamp }
    }
}

impl DeepView for Message {
    type V = MessageView;

    open spec fn deep_view(&self) -> MessageView {
        self@
    }
}

impl Clone for Message {
    fn clone(&self) -> (copy: Message)
        ensures
            copy@ == self@,
    {
        Message { id: self.id, content: self.content.clone(), timestamp: self.timestamp }
    }
}

/// A message on its way into the durable store: the text alone.
#[derive(Debug, PartialEq, Eq)]
pub struct NewMessage {
    pub content: String,
}

/// A [`NewMessage`] as contracts see it.
pub struct NewMessageView {
    pub content: Seq<char>,
}

impl View for NewMessage {
    type V = NewMessageView;

    open spec fn view(&self) -> NewMessageView {
        NewMessageView { content: self.content@ }
    }
}

impl DeepView for NewMessage {
    type V = NewMessageView;

    open spec fn deep_view(&self) -> NewMessageView {
        self@
    }
}

impl Clone for NewMessage {
    fn clone(&self) -> (copy: NewMessage)
        ensures
            copy@ == self@,
    {
        NewMessage { content: self.content.clone() }
    }
}

impl NewMessage {
    /// The record that asks the store to keep `text`.
    pub fn of_text(text: &str) -> (message: NewMessage)
        ensures
            message@.content == text@,
    {
        NewMessage { content: text.to_owned() }
    }
}

} // verus!
