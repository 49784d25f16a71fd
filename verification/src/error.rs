//! Failures of a single provider attempt and of a whole routed request.

use vstd::prelude::*;
use vstd::string::StringExecFns;

verus! {

/// Why one attempt on one provider produced no text.
#[derive(Debug, PartialEq, Eq)]
pub enum ProviderError {
    /// The backend could not be reached: connection, DNS or timeout.
    TransportFailure(String),
    /// The backend answered with a non-success status; the raw body is kept.
    BackendRejected { backend: String, body: String },
    /// The backend reported success but its body could not be read.
    MalformedResponse(String),
    /// The backend answered and the body was read, but it held no text.
    NoUsableOutput { backend: String },
}

/// Mathematical form of a [`ProviderError`].
pub ghost enum ProviderFailure {
    TransportFailure(Seq<char>),
    BackendRejected { backend: Seq<char>, body: Seq<char> },
    MalformedResponse(Seq<char>),
    NoUsableOutput { backend: Seq<char> },
}

impl View for ProviderError {
    type V = ProviderFailure;

    open spec fn view(&self) -> ProviderFailure {
        match *self {
            ProviderError::TransportFailure(detail) => ProviderFailure::TransportFailure(detail@),
            ProviderError::BackendRejected { backend, body } => ProviderFailure::BackendRejected {
                backend: backend@,
                body: body@,
            },
            ProviderError::MalformedResponse(detail) => ProviderFailure::MalformedResponse(
                detail@,
            ),
            ProviderError::NoUsableOutput { backend } => ProviderFailure::NoUsableOutput {
                backend: backend@,
            },
        }
    }
}

impl ProviderFailure {
    /// The text a failure is reported with.
    pub open spec fn message(self) -> Seq<char> {
        match self {
            ProviderFailure::TransportFailure(detail) => "HTTP request failed: "@ + detail,
            ProviderFailure::BackendRejected { backend, body } => "Provider error: "@ + backend
                + " API error: "@ + body,
            ProviderFailure::MalformedResponse(detail) => "Failed to parse response: "@ + detail,
            ProviderFailure::NoUsableOutput { backend } => "Provider error: No response from "@
                + backend,
        }
    }
}

impl Clone for ProviderError {
    fn clone(&self) -> (copy: Self)
        ensures
            copy@ == self@,
    {
        match self {
            ProviderError::TransportFailure(detail) => ProviderError::TransportFailure(
                detail.clone(),
            ),
            ProviderError::BackendRejected { backend, body } => ProviderError::BackendRejected {
                backend: backend.clone(),
                body: body.clone(),
            },
            ProviderError::MalformedResponse(detail) => ProviderError::MalformedResponse(
                detail.clone(),
            ),
            ProviderError::NoUsableOutput { backend } => ProviderError::NoUsableOutput {
                backend: backend.clone(),
            },
        }
    }
}

impl ProviderError {
    /// Renders the failure for a log line or an error body.
    pub fn message(&self) -> (text: String)
        ensures
            text@ == self@.message(),
    {
        match self {
            ProviderError::TransportFailure(detail) => String::from_str(
                "HTTP request failed: ",
            ).concat(detail.as_str()),
            ProviderError::BackendRejected { backend, body } => String::from_str(
                "Provider error: ",
            ).concat(backend.as_str()).concat(" API error: ").concat(body.as_str()),
            ProviderError::MalformedResponse(detail) => String::from_str(
                "Failed to parse response: ",
            ).concat(detail.as_str()),
            ProviderError::NoUsableOutput { backend } => String::from_str(
                "Provider error: No response from ",
            ).concat(backend.as_str()),
        }
    }
}

/// Why a routed request failed as a whole. Only these reach the caller.
#[derive(Debug, PartialEq, Eq)]
pub enum GatewayError {
    /// A provider was asked for by a name that no registered provider has.
    ProviderNotFound(String),
    /// Every provider that was tried failed. Carries the failure of the last
    /// one tried, or nothing when there was no provider to try.
    AllProvidersFailed(Option<ProviderError>),
}

/// Mathematical form of a [`GatewayError`].
pub ghost enum GatewayFailure {
    ProviderNotFound(Seq<char>),
    AllProvidersFailed(Option<ProviderFailure>),
}

impl View for GatewayError {
    type V = GatewayFailure;

    open spec fn view(&self) -> GatewayFailure {
        match *self {
            GatewayError::ProviderNotFound(name) => GatewayFailure::ProviderNotFound(name@),
            GatewayError::AllProvidersFailed(last) => GatewayFailure::AllProvidersFailed(
                match last {
                    Some(error) => Some(error@),
                    None => None,
                },
            ),
        }
    }
}

impl GatewayFailure {
    /// The text a failed request is reported with.
    pub open spec fn message(self) -> Seq<char> {
        match self {
            GatewayFailure::ProviderNotFound(name) => "Provider not found: "@ + name,
            GatewayFailure::AllProvidersFailed(Some(last)) => "All providers failed: "@
                + last.message(),
            GatewayFailure::AllProvidersFailed(None) => "All providers failed"@,
        }
    }
}

impl Clone for GatewayError {
    fn clone(&self) -> (copy: Self)
        ensures
            copy@ == self@,
    {
        match self {
            GatewayError::ProviderNotFound(name) => GatewayError::ProviderNotFound(name.clone()),
            GatewayError::AllProvidersFailed(Some(last)) => GatewayError::AllProvidersFailed(
                Some(last.clone()),
            ),
            GatewayError::AllProvidersFailed(None) => GatewayError::AllProvidersFailed(None),
        }
    }
}

impl GatewayError {
    /// Renders the failure for a log line or an error body.
    pub fn message(&self) -> (text: String)
        ensures
            text@ == self@.message(),
    {
        match self {
            GatewayError::ProviderNotFound(name) => String::from_str(
                "Provider not found: ",
            ).concat(name.as_str()),
            GatewayError::AllProvidersFailed(Some(last)) => {
                let detail = last.message();
                String::from_str("All providers failed: ").concat(detail.as_str())
            },
            GatewayError::AllProvidersFailed(None) => String::from_str("All providers failed"),
        }
    }

    /// What the boundary answers a failed request with: always status 500,
    /// and the failure's text behind `Error: `.
    pub fn into_response(self) -> (reply: (u16, String))
        ensures
            reply.0 == 500,
            reply.1@ == "Error: "@ + self@.message(),
    {
        let detail = self.message();
        (500, String::from_str("Error: ").concat(detail.as_str()))
    }
}

} // verus!
