//! One diagnostic message of the compiler, and the test mode.

use vstd::prelude::*;
use crate::level::Level;

verus! {

/// One diagnostic: severity, optional diagnostic code, and free text.
#[derive(Debug)]
pub struct Message {
    pub level: Level,
    pub code: Option<String>,
    pub message: String,
}

/// The mathematical shape of a message.
pub ghost struct MessageView {
    pub level: Level,
    pub code: Option<Seq<char>>,
    pub message: Seq<char>,
}

impl View for Message {
    type V = MessageView;

    open spec fn view(&self) -> MessageView {
        MessageView {
            level: self.level,
            code: match self.code {
                Some(c) => Some(c@),
                None => None,
            },
            message: self.message@,
        }
    }
}

impl Message {
    pub fn new(level: Level, code: Option<String>, message: String) -> (m: Message)
        ensures
            m.level == level,
            m.code == code,
            m.message == message,
    {
        Message { level, code, message }
    }
}

impl Clone for Message {
    fn clone(&self) -> (r: Self)
        ensures
            r == *self,
    {
        Message {
            level: self.level,
            code: match &self.code {
                Some(c) => Some(c.clone()),
                None => None,
            },
            message: self.message.clone(),
        }
    }
}

/// The views of a sequence of messages.
pub open spec fn msgs_view(s: Seq<Message>) -> Seq<MessageView> {
    s.map_values(|m: Message| m@)
}

/// The views of a sequence of per-line message buckets.
pub open spec fn buckets_view(s: Seq<Vec<Message>>) -> Seq<Seq<MessageView>> {
    s.map_values(|b: Vec<Message>| msgs_view(b@))
}

/// What a test expects of its invocation as a whole.
#[derive(Clone, Copy, Debug, PartialEq, Eq, Structural)]
pub enum Mode {
    /// The invocation must succeed and no diagnostics are expected.
    Pass,
    /// The process is expected to abort.
    Panic,
    /// The invocation is expected to fail; `require_patterns` demands at
    /// least one error-match directive.
    Fail { require_patterns: bool },
    /// No exhaustiveness checking of diagnostics against annotations.
    Yolo,
}

} // verus!
