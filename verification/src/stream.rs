//! What a served completion sends to its client.
//!
//! A reply is a command in a code block, then an explanation. The fence that
//! closes the code block is not sent: what comes before it is sent as the
//! command, what comes after it as the explanation, and a second fence ends
//! the stream.

use vstd::prelude::*;
use vstd::string::StringExecFns;
use crate::error::InferenceError;

verus! {

/// What the worker hands to the stream of one request.
#[derive(Clone, Debug, PartialEq, Eq)]
pub enum InferenceResult {
    Token(String),
    Error(String),
}

/// What a message to the client holds.
#[derive(Clone, Copy, Debug, PartialEq, Eq, Structural)]
pub enum MessageKind {
    Command,
    Explanation,
    Error,
}

/// A message to the client.
#[derive(Clone, Debug, PartialEq, Eq)]
pub struct CompletionMessage {
    pub text: String,
    pub kind: MessageKind,
}

/// What the stream does with a result.
#[derive(Clone, Debug, PartialEq, Eq)]
pub enum StreamStep {
    /// The message is sent.
    Send(CompletionMessage),
    /// Nothing is sent.
    Skip,
    /// The stream ends.
    End,
}

/// The stream of one request.
#[derive(Clone, Copy, Debug, Default, PartialEq, Eq, Structural)]
pub struct CompletionStream {
    pub saw_triple_backtick: bool,
}

/// The text of a code fence.
pub open spec fn fence() -> Seq<char> {
    "```"@
}

impl MessageKind {
    /// The name under which the kind is sent.
    pub open spec fn spec_name(self) -> Seq<char> {
        match self {
            MessageKind::Command => "command"@,
            MessageKind::Explanation => "explanation"@,
            MessageKind::Error => "error"@,
        }
    }

    pub fn name(&self) -> (r: &'static str)
        ensures
            r@ == self.spec_name(),
    {
        match self {
            MessageKind::Command => "command",
            MessageKind::Explanation => "explanation",
            MessageKind::Error => "error",
        }
    }
}

impl CompletionStream {
    pub fn new() -> (r: CompletionStream)
        ensures
            !r.saw_triple_backtick,
    {
        CompletionStream { saw_triple_backtick: false }
    }

    /// Takes the next result of the worker.
    ///
    /// A fence is never sent: the first one turns commands into
    /// explanations, the second one ends the stream. Any other token is sent
    /// as what the stream is in, and an error as an error.
    pub fn step(&mut self, result: InferenceResult) -> (r: StreamStep)
        ensures
            match result {
                InferenceResult::Token(t) => if t@ == fence() {
                    &&& final(self).saw_triple_backtick
                    &&& r == if old(self).saw_triple_backtick {
                        StreamStep::End
                    } else {
                        StreamStep::Skip
                    }
                } else {
                    &&& *final(self) == *old(self)
                    &&& r == StreamStep::Send(
                        CompletionMessage {
                            text: t,
                            kind: if old(self).saw_triple_backtick {
                                MessageKind::Explanation
                            } else {
                                MessageKind::Command
                            },
                        },
                    )
                },
                InferenceResult::Error(e) => {
                    &&& *final(self) == *old(self)
                    &&& r == StreamStep::Send(CompletionMessage { text: e, kind: MessageKind::Error })
                },
            },
    {
        match result {
            InferenceResult::Token(t) => {
                let mark = String::from_str("```");
                if t == mark {
                    if self.saw_triple_backtick {
                        StreamStep::End
                    } else {
                        self.saw_triple_backtick = true;
                        StreamStep::Skip
                    }
                } else {
                    let kind = if self.saw_triple_backtick {
                        MessageKind::Explanation
                    } else {
                        MessageKind::Command
                    };
                    StreamStep::Send(CompletionMessage { text: t, kind })
                }
            },
            InferenceResult::Error(e) => StreamStep::Send(
                CompletionMessage { text: e, kind: MessageKind::Error },
            ),
        }
    }
}

/// What the client is told when inference fails: for a full context window
/// and for a prompt that cannot be turned into tokens. An error of the token
/// sink has no message, for the sink of a served completion does not fail.
pub fn failure_message(error: &InferenceError) -> (r: Option<&'static str>)
    ensures
        match *error {
            InferenceError::ContextFull => r is Some && r->0@
                == "Context is not large enough to fit the prompt."@,
            InferenceError::TokenizationFailed => r is Some && r->0@
                == "Failed to tokenize initial prompt."@,
            InferenceError::UserCallback { .. } => r is None,
        },
{
    match error {
        InferenceError::ContextFull => Some("Context is not large enough to fit the prompt."),
        InferenceError::TokenizationFailed => Some("Failed to tokenize initial prompt."),
        InferenceError::UserCallback { .. } => None,
    }
}

} // verus!
