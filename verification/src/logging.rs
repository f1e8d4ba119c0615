//! Diagnostics: leveled messages tied to a span, and the sink that takes them.

use vstd::prelude::*;
use crate::span::Span;

verus! {

/// How severe a message is.
#[derive(Clone, Copy, Debug, PartialEq, Eq, Structural)]
pub enum Level {
    Info,
    Warning,
    Error,
}

/// One diagnostic.
#[derive(Debug)]
pub struct Message {
    pub level: Level,
    pub text: String,
    pub span: Span,
}

/// A message as plain values.
pub struct MessageView {
    pub level: Level,
    pub text: Seq<char>,
    pub span: Span,
}

impl View for Message {
    type V = MessageView;

    open spec fn view(&self) -> MessageView {
        MessageView { level: self.level, text: self.text@, span: self.span }
    }
}

impl Message {
    /// The message of the given level and text, tied to `span`.
    pub fn from_span(level: Level, text: String, span: &Span) -> (r: Message)
        ensures
            r@ == (MessageView { level, text: text@, span: *span }),
    {
        Message { level, text, span: *span }
    }
}

/// The views of a sequence of messages.
pub open spec fn messages_view(msgs: Seq<Message>) -> Seq<MessageView> {
    msgs.map_values(|m: Message| m@)
}

/// A sink for diagnostics. It keeps what it was given, in the order given,
/// until it is drained.
pub struct Logger {
    messages: Vec<Message>,
}

impl View for Logger {
    type V = Seq<MessageView>;

    /// The messages logged and not yet drained, oldest first.
    closed spec fn view(&self) -> Seq<MessageView> {
        messages_view(self.messages@)
    }
}

impl Logger {
    /// A sink that holds nothing yet.
    pub fn new() -> (r: Logger)
        ensures
            r@ == Seq::<MessageView>::empty(),
    {
        let r = Logger { messages: Vec::new() };
        assert(r@ =~= Seq::<MessageView>::empty());
        r
    }

    /// Appends one message.
    pub fn log_msg(&mut self, msg: Message)
        ensures
            final(self)@ == old(self)@.push(msg@),
    {
        self.messages.push(msg);
        assert(self@ =~= old(self)@.push(msg@));
    }

    /// How many messages the sink holds.
    pub fn len(&self) -> (n: usize)
        ensures
            n == self@.len(),
    {
        self.messages.len()
    }

    /// The message at `index`, oldest first, if there is one.
    pub fn get(&self, index: usize) -> (r: Option<&Message>)
        ensures
            match r {
                Some(m) => index < self@.len() && m@ == self@[index as int],
                None => index >= self@.len(),
            },
    {
        if index < self.messages.len() {
            Some(&self.messages[index])
        } else {
            None
        }
    }

    /// Hands out everything the sink holds, oldest first, and leaves it empty.
    pub fn drain(&mut self) -> (r: Vec<Message>)
        ensures
            messages_view(r@) == old(self)@,
            final(self)@ == Seq::<MessageView>::empty(),
    {
        let mut out: Vec<Message> = Vec::new();
        core::mem::swap(&mut self.messages, &mut out);
        assert(self@ =~= Seq::<MessageView>::empty());
        out
    }
}

} // verus!
