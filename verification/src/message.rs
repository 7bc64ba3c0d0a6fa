//! The application message carried in one datagram.

use vstd::prelude::*;

verus! {

/// Mathematical model of a [`Message`]: its identifier and the characters of
/// its text.
pub struct MessageView {
    pub id: u64,
    pub content: Seq<char>,
}

/// An application payload: a numeric identifier and free-form text.
#[derive(Debug, PartialEq, Eq)]
pub struct Message {
    pub id: u64,
    pub content: String,
}

impl View for Message {
    type V = MessageView;

    open spec fn view(&self) -> MessageView {
        MessageView { id: self.id, content: self.content@ }
    }
}

impl Clone for Message {
    fn clone(&self) -> (m: Message)
        ensures
            m@ == self@,
    {
        Message { id: self.id, content: self.content.clone() }
    }
}

impl Message {
    /// Builds a message from its identifier and its text.
    pub fn new(id: u64, content: String) -> (m: Message)
        ensures
            m@ == (MessageView { id, content: content@ }),
    {
        Message { id, content }
    }
}

} // verus!
