//! The OpenAI chat-completions backend: what is sent where, and how its
//! reply is read.

use crate::error::ProviderError;
use crate::providers::{outcome_view, settle, success, usable_text};
use vstd::prelude::*;
use vstd::string::StringExecFns;

verus! {

/// The name under which this backend is registered.
pub open spec fn openai_name() -> Seq<char> {
    "OpenAI"@
}

/// The first choice's text, if the reply holds a choice.
pub open spec fn first_choice(choices: Seq<String>) -> Option<Seq<char>> {
    if choices.len() > 0 {
        Some(choices[0]@)
    } else {
        None
    }
}

/// Client-side state of the OpenAI backend.
pub struct OpenAIClient {
    api_key: String,
}

impl OpenAIClient {
    /// The key that requests are authorised with.
    pub closed spec fn key(&self) -> Seq<char> {
        self.api_key@
    }

    /// A client that authorises its requests with `api_key`.
    pub fn new(api_key: String) -> (client: Self)
        ensures
            client.key() == api_key@,
    {
        OpenAIClient { api_key }
    }

    /// The backend's display name.
    pub fn name(&self) -> (name: String)
        ensures
            name@ == openai_name(),
    {
        String::from_str("OpenAI")
    }

    /// Where completions are requested.
    pub fn endpoint(&self) -> (url: String)
        ensures
            url@ == "https://api.openai.com/v1/chat/completions"@,
    {
        String::from_str("https://api.openai.com/v1/chat/completions")
    }

    /// The value of the `Authorization` header.
    pub fn authorization(&self) -> (value: String)
        ensures
            value@ == "Bearer "@ + self.key(),
    {
        String::from_str("Bearer ").concat(self.api_key.as_str())
    }

    /// Reads one completed exchange. `parsed` holds the text of each choice
    /// in order, or the reader's complaint about the body. A non-success
    /// status is a rejection whatever the body holds; otherwise the first
    /// choice is the answer, if there is one and it is not blank.
    pub fn interpret(&self, status: u16, body: String, parsed: Result<Vec<String>, String>) -> (outcome:
        Result<String, ProviderError>)
        ensures
            outcome_view(outcome) == settle(
                openai_name(),
                status,
                body@,
                match parsed {
                    Ok(choices) => Ok(first_choice(choices@)),
                    Err(complaint) => Err(complaint@),
                },
            ),
    {
        if !success(status) {
            return Err(ProviderError::BackendRejected { backend: self.name(), body });
        }
        match parsed {
            Err(complaint) => Err(ProviderError::MalformedResponse(complaint)),
            Ok(choices) => {
                let first = if choices.len() > 0 {
                    Some(choices[0].clone())
                } else {
                    None
                };
                usable_text("OpenAI", first)
            },
        }
    }
}

} // verus!
