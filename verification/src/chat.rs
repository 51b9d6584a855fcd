//! The decisions of the chat proxy.
//!
//! The proxy forwards one message upstream and hands back the first
//! choice of the answer. Sending and decoding are the caller's work; what
//! came of them is handed in as a plain value, and the answer or the
//! failure is decided here.

use vstd::prelude::*;

verus! {

/// Why a chat message has no answer.
#[derive(Clone, Copy, Debug, PartialEq, Eq, Structural)]
pub enum ChatFailure {
    /// The request could not be sent.
    Send,
    /// The upstream endpoint answered with a status that is no success.
    Upstream,
    /// The body of the answer could not be decoded.
    Body,
    /// The answer was decoded and holds no choice.
    Structure,
}

impl ChatFailure {
    /// The sentence that a caller is told.
    pub open spec fn text(self) -> Seq<char> {
        match self {
            ChatFailure::Send => "Failed to send request to LLM"@,
            ChatFailure::Upstream => "Error from LLM endpoint"@,
            ChatFailure::Body => "Invalid response from LLM endpoint"@,
            ChatFailure::Structure => "Invalid response structure from LLM endpoint"@,
        }
    }

    /// The sentence that a caller is told.
    pub fn message(&self) -> (message: &'static str)
        ensures
            message@ == self.text(),
    {
        match self {
            ChatFailure::Send => "Failed to send request to LLM",
            ChatFailure::Upstream => "Error from LLM endpoint",
            ChatFailure::Body => "Invalid response from LLM endpoint",
            ChatFailure::Structure => "Invalid response structure from LLM endpoint",
        }
    }
}

/// What came of forwarding one message.
pub enum Upstream {
    /// The request could not be sent.
    NotSent,
    /// An answer arrived whose status is no success.
    Refused { status: u16 },
    /// An answer arrived with a success status and a body that could not
    /// be decoded.
    Undecodable,
    /// An answer arrived and was decoded; these are the contents of its
    /// choices, in order.
    Choices { contents: Vec<String> },
}

/// A status is accepted when it is a success: at least 200 and below 300.
pub open spec fn accepted(status: u16) -> bool {
    200 <= status <= 299
}

/// Tells whether an upstream status is accepted.
pub fn status_accepted(status: u16) -> (ok: bool)
    ensures
        ok == accepted(status),
{
    200 <= status && status < 300
}

/// The answer to a chat message: the content of the first choice. There
/// is none where the request was not sent, was refused, could not be
/// decoded, or came back without a choice.
pub open spec fn answer_of(upstream: Upstream) -> Result<Seq<char>, ChatFailure> {
    match upstream {
        Upstream::NotSent => Err(ChatFailure::Send),
        Upstream::Refused { .. } => Err(ChatFailure::Upstream),
        Upstream::Undecodable => Err(ChatFailure::Body),
        Upstream::Choices { contents } => if contents@.len() == 0 {
            Err(ChatFailure::Structure)
        } else {
            Ok(contents@[0]@)
        },
    }
}

/// Decides the answer to a chat message from what came of forwarding it.
pub fn chat_answer(upstream: &Upstream) -> (answer: Result<String, ChatFailure>)
    ensures
        match answer_of(*upstream) {
            Ok(content) => answer matches Ok(s) && s@ == content,
            Err(failure) => answer == Err::<String, ChatFailure>(failure),
        },
{
    match upstream {
        Upstream::NotSent => Err(ChatFailure::Send),
        Upstream::Refused { .. } => Err(ChatFailure::Upstream),
        Upstream::Undecodable => Err(ChatFailure::Body),
        Upstream::Choices { contents } => {
            if contents.len() == 0 {
                Err(ChatFailure::Structure)
            } else {
                Ok(contents[0].clone())
            }
        },
    }
}

/// An answer is owed exactly where a decoded reply holds at least one
/// choice; later choices never matter.
pub proof fn lemma_answer_is_first_choice(upstream: Upstream)
    ensures
        answer_of(upstream) is Ok <==> (upstream matches Upstream::Choices { contents }
            && contents@.len() > 0),
        upstream matches Upstream::Refused { status } ==> answer_of(upstream) == Err::<
            Seq<char>,
            ChatFailure,
        >(ChatFailure::Upstream),
{
}

} // verus!
