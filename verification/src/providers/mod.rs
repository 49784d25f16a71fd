//! The provider capability, and the rules by which a backend's reply becomes
//! text or a failure.

pub mod gemini;
pub mod openai;

use crate::error::{ProviderError, ProviderFailure};
use vstd::prelude::*;

verus! {

/// One named backend that turns a prompt into text, or fails.
pub trait AIProvider {
    /// The provider's stable display name. It labels cached answers and it
    /// is the key by which a provider is selected.
    fn name(&self) -> String;

    /// Sends the prompt to the backend and returns its completion. Nothing is
    /// promised of the outcome: it is the backend's to decide.
    fn generate(&self, prompt: &str) -> Result<String, ProviderError>;
}

/// What one provider call came to: the text, or why there is none.
pub type Outcome = Result<Seq<char>, ProviderFailure>;

/// Mathematical form of the outcome of a provider call.
pub open spec fn outcome_view(outcome: Result<String, ProviderError>) -> Outcome {
    match outcome {
        Ok(text) => Ok(text@),
        Err(error) => Err(error@),
    }
}

/// Whether a character has the Unicode property `White_Space`.
pub open spec fn is_whitespace(c: char) -> bool {
    let u = c as u32;
    ||| 0x09 <= u <= 0x0D
    ||| u == 0x20
    ||| u == 0x85
    ||| u == 0xA0
    ||| u == 0x1680
    ||| 0x2000 <= u <= 0x200A
    ||| u == 0x2028
    ||| u == 0x2029
    ||| u == 0x202F
    ||| u == 0x205F
    ||| u == 0x3000
}

/// Whether a text is empty or made of whitespace alone.
pub open spec fn is_blank(text: Seq<char>) -> bool {
    forall|i: int| 0 <= i < text.len() ==> is_whitespace(#[trigger] text[i])
}

/// Whether an HTTP status code is in the success class, 200 to 299.
pub open spec fn is_success(status: u16) -> bool {
    200 <= status <= 299
}

/// What a provider reports for text it extracted from a reply: the text when
/// there is some, and a failure when it is absent or blank.
pub open spec fn usable(backend: Seq<char>, text: Option<Seq<char>>) -> Outcome {
    match text {
        Some(text) if !is_blank(text) => Ok(text),
        _ => Err(ProviderFailure::NoUsableOutput { backend }),
    }
}

/// What a provider reports for one completed exchange with its backend, given
/// the status code, the raw body, and what reading the body gave: the first
/// extractable text if any, or the reader's complaint.
pub open spec fn settle(
    backend: Seq<char>,
    status: u16,
    body: Seq<char>,
    parsed: Result<Option<Seq<char>>, Seq<char>>,
) -> Outcome {
    if !is_success(status) {
        Err(ProviderFailure::BackendRejected { backend, body })
    } else {
        match parsed {
            Err(complaint) => Err(ProviderFailure::MalformedResponse(complaint)),
            Ok(text) => usable(backend, text),
        }
    }
}

/// Tests one character for the Unicode property `White_Space`.
pub fn whitespace(c: char) -> (yes: bool)
    ensures
        yes == is_whitespace(c),
{
    let u: u32 = c as u32;
    (0x09 <= u && u <= 0x0D) || u == 0x20 || u == 0x85 || u == 0xA0 || u == 0x1680 || (0x2000 <= u
        && u <= 0x200A) || u == 0x2028 || u == 0x2029 || u == 0x202F || u == 0x205F || u == 0x3000
}

/// Tests whether a text is empty or whitespace only.
pub fn blank(text: &str) -> (yes: bool)
    ensures
        yes == is_blank(text@),
{
    for c in chars: text.chars()
        invariant
            chars.seq() == text@,
            forall|i: int| 0 <= i < chars.index() ==> is_whitespace(#[trigger] text@[i]),
    {
        if !whitespace(c) {
            return false;
        }
    }
    true
}

/// Tests whether a status code is in the success class.
pub fn success(status: u16) -> (yes: bool)
    ensures
        yes == is_success(status),
{
    200 <= status && status <= 299
}

/// Accepts extracted text when it says something, and reports the backend as
/// having produced no usable output otherwise.
pub fn usable_text(backend: &str, text: Option<String>) -> (outcome: Result<String, ProviderError>)
    ensures
        outcome_view(outcome) == usable(
            backend@,
            match text {
                Some(text) => Some(text@),
                None => None,
            },
        ),
{
    match text {
        Some(text) => {
            if blank(text.as_str()) {
                Err(ProviderError::NoUsableOutput { backend: backend.to_owned() })
            } else {
                Ok(text)
            }
        },
        None => Err(ProviderError::NoUsableOutput { backend: backend.to_owned() }),
    }
}

} // verus!
