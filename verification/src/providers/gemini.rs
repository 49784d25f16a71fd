//! The Gemini generate-content backend: what is sent where, and how its
//! reply is read.

use crate::error::ProviderError;
use crate::providers::{outcome_view, settle, success, usable_text};
use vstd::prelude::*;
use vstd::string::StringExecFns;

verus! {

/// The name under which this backend is registered.
pub open spec fn gemini_name() -> Seq<char> {
    "Gemini"@
}

/// The text of the first part of the first candidate, if the reply holds a
/// candidate and that candidate holds a part. Later candidates are not
/// looked at.
pub open spec fn first_part(candidates: Seq<Vec<String>>) -> Option<Seq<char>> {
    if candidates.len() > 0 && candidates[0].len() > 0 {
        Some(candidates[0][0]@)
    } else {
        None
    }
}

/// Client-side state of the Gemini backend.
pub struct GeminiClient {
    api_key: String,
}

impl GeminiClient {
    /// The key that requests are authorised with.
    pub closed spec fn key(&self) -> Seq<char> {
        self.api_key@
    }

    /// A client that authorises its requests with `api_key`.
    pub fn new(api_key: String) -> (client: Self)
        ensures
            client.key() == api_key@,
    {
        GeminiClient { api_key }
    }

    /// The backend's display name.
    pub fn name(&self) -> (name: String)
        ensures
            name@ == gemini_name(),
    {
        String::from_str("Gemini")
    }

    /// Where content is requested; the key travels in the query.
    pub fn endpoint(&self) -> (url: String)
        ensures
            url@
                == "https://generativelanguage.googleapis.com/v1beta/models/gemini-2.5-flash:generateContent?key="@
                + self.key(),
    {
        String::from_str(
            "https://generativelanguage.googleapis.com/v1beta/models/gemini-2.5-flash:generateContent?key=",
        ).concat(self.api_key.as_str())
    }

    /// Reads one completed exchange. `parsed` holds, for each candidate in
    /// order, the texts of its parts in order, or the reader's complaint
    /// about the body. A non-success status is a rejection whatever the body
    /// holds; otherwise the first part of the first candidate is the answer,
    /// if there is one and it is not blank.
    pub fn interpret(
        &self,
        status: u16,
        body: String,
        parsed: Result<Vec<Vec<String>>, String>,
    ) -> (outcome: Result<String, ProviderError>)
        ensures
            outcome_view(outcome) == settle(
                gemini_name(),
                status,
                body@,
                match parsed {
                    Ok(candidates) => Ok(first_part(candidates@)),
                    Err(complaint) => Err(complaint@),
                },
            ),
    {
        if !success(status) {
            return Err(ProviderError::BackendRejected { backend: self.name(), body });
        }
        match parsed {
            Err(complaint) => Err(ProviderError::MalformedResponse(complaint)),
            Ok(candidates) => {
                let first = if candidates.len() > 0 && candidates[0].len() > 0 {
                    Some(candidates[0][0].clone())
                } else {
                    None
                };
                usable_text("Gemini", first)
            },
        }
    }
}

} // verus!
