//! Classified messages and what the session asks of its driver.
use vstd::prelude::*;
use crate::frame::Frame;

verus! {

/// A message as the classifier sees it. Each variant carries the frame that
/// it wraps, if one could be extracted.
#[derive(Clone, Debug, PartialEq, Eq)]
pub enum Message {
    /// The first frame of a fragmented message.
    FragmentStart(Option<Frame>),
    /// An interior frame of a fragmented message.
    Fragment(Option<Frame>),
    /// The last frame of a fragmented message.
    FragmentComplete(Option<Frame>),
    /// A frame whose opcode and flag break the fragment sequencing.
    BadFragment(Option<Frame>),
    /// Anything else: whole data messages, control frames, and so on.
    Other(Option<Frame>),
}

impl Message {
    /// The frame this message wraps.
    pub open spec fn base_spec(&self) -> Option<Frame> {
        match self {
            Message::FragmentStart(b) => *b,
            Message::Fragment(b) => *b,
            Message::FragmentComplete(b) => *b,
            Message::BadFragment(b) => *b,
            Message::Other(b) => *b,
        }
    }

    /// The frame this message wraps.
    pub fn base(&self) -> (r: Option<&Frame>)
        ensures
            r matches Some(f) ==> self.base_spec() == Some(*f),
            r is None <==> self.base_spec() is None,
    {
        match self {
            Message::FragmentStart(b) => b.as_ref(),
            Message::Fragment(b) => b.as_ref(),
            Message::FragmentComplete(b) => b.as_ref(),
            Message::BadFragment(b) => b.as_ref(),
            Message::Other(b) => b.as_ref(),
        }
    }
}

/// What the driver of a session does after handing it a message.
#[derive(Clone, Debug, PartialEq, Eq)]
pub enum Action {
    /// The message was taken into the open sequence: flush the write side
    /// (where a completed message is delivered), then pull the next message.
    Flush,
    /// Hand this to the reader; `None` marks the end of the stream.
    Yield(Option<Message>),
}

} // verus!
