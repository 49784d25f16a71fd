//! The boundary's side of a request: the shapes that cross it and the
//! choice of the router's entry point.

use crate::error::{GatewayError, GatewayFailure};
use crate::model::{first_step, first_step_with_provider, route, route_with_provider, Run};
use crate::providers::{AIProvider, Outcome};
use crate::router::{routed_view, AIRouter, Step};
use crate::cache::Entry;
use vstd::prelude::*;
use vstd::string::StringExecFns;

verus! {

/// A request for text: the prompt, and the name of the one provider to ask
/// when the caller wants no other.
#[derive(Debug, PartialEq, Eq)]
pub struct GenerateRequest {
    pub prompt: String,
    pub provider: Option<String>,
}

/// A successful answer: who produced it, what it says and whether the cache
/// served it.
#[derive(Debug, PartialEq, Eq)]
pub struct GenerateResponse {
    pub provider: String,
    pub output: String,
    pub cached: bool,
}

/// Mathematical form of a [`GenerateResponse`].
pub ghost struct Answer {
    pub provider: Seq<char>,
    pub output: Seq<char>,
    pub cached: bool,
}

impl View for GenerateResponse {
    type V = Answer;

    open spec fn view(&self) -> Answer {
        Answer { provider: self.provider@, output: self.output@, cached: self.cached }
    }
}

/// Mathematical form of what the boundary hands back for a request.
pub open spec fn reply_view(reply: Result<GenerateResponse, GatewayError>) -> Result<
    Answer,
    GatewayFailure,
> {
    match reply {
        Ok(response) => Ok(response@),
        Err(error) => Err(error@),
    }
}

/// The name a request is pinned to, if it is pinned.
pub open spec fn pinned_to(payload: GenerateRequest) -> Option<Seq<char>> {
    match payload.provider {
        Some(name) => Some(name@),
        None => None,
    }
}

/// How a request starts: on the pinned path when it names a provider, on
/// the fallback path when it names none.
pub open spec fn request_first_step(
    cache: Map<Seq<char>, Entry>,
    names: Seq<Seq<char>>,
    prompt: Seq<char>,
    pinned: Option<Seq<char>>,
) -> crate::model::Progress {
    match pinned {
        Some(wanted) => first_step_with_provider(cache, names, prompt, wanted),
        None => first_step(cache, names, prompt),
    }
}

/// What a request comes to, given what each provider would answer.
pub open spec fn request_run(
    cache: Map<Seq<char>, Entry>,
    names: Seq<Seq<char>>,
    prompt: Seq<char>,
    pinned: Option<Seq<char>>,
    outcomes: Seq<Outcome>,
) -> Run {
    match pinned {
        Some(wanted) => route_with_provider(cache, names, prompt, wanted, outcomes),
        None => route(cache, names, prompt, outcomes),
    }
}

/// The boundary's reply for what the router returned.
pub open spec fn shaped(result: crate::model::Routed) -> Result<Answer, GatewayFailure> {
    match result {
        Ok((output, provider, cached)) => Ok(Answer { provider, output, cached }),
        Err(failure) => Err(failure),
    }
}

/// The liveness probe: status 200 and a fixed text, whatever the router
/// holds.
pub fn health() -> (reply: (u16, String))
    ensures
        reply.0 == 200,
        reply.1@ == "AI Gateway is healthy"@,
{
    (200, String::from_str("AI Gateway is healthy"))
}

/// Starts a request at the entry point that its shape selects. Calls no
/// provider.
pub fn begin<P>(router: &AIRouter<P>, payload: &GenerateRequest) -> (step: Step)
    ensures
        step@ == request_first_step(
            router.cache(),
            router.names(),
            payload.prompt@,
            pinned_to(*payload),
        ),
{
    match &payload.provider {
        Some(name) => router.begin_with_provider(payload.prompt.as_str(), name.as_str()),
        None => router.begin(payload.prompt.as_str()),
    }
}

/// Shapes what the router returned into the boundary's reply.
pub fn respond(result: Result<(String, String, bool), GatewayError>) -> (reply: Result<
    GenerateResponse,
    GatewayError,
>)
    ensures
        reply_view(reply) == shaped(routed_view(result)),
{
    match result {
        Ok((output, provider, cached)) => Ok(GenerateResponse { provider, output, cached }),
        Err(error) => Err(error),
    }
}

/// Serves one request: through the named provider when the request names
/// one, through the fallback chain when it names none.
///
/// Some outcomes, one for each provider, account for the reply and for the
/// cache by [`request_run`].
pub fn generate<P: AIProvider>(router: &mut AIRouter<P>, payload: GenerateRequest) -> (reply: Result<
    GenerateResponse,
    GatewayError,
>)
    ensures
        final(router).registry() == old(router).registry(),
        exists|outcomes: Seq<Outcome>|
            {
                let run = #[trigger] request_run(
                    old(router).cache(),
                    old(router).names(),
                    payload.prompt@,
                    pinned_to(payload),
                    outcomes,
                );
                &&& outcomes.len() == old(router).names().len()
                &&& shaped(run.result) == reply_view(reply)
                &&& run.cache == final(router).cache()
            },
{
    let ghost before = router.cache();
    let ghost names = router.names();
    let ghost prompt = payload.prompt@;
    let result = match &payload.provider {
        Some(name) => {
            let result = router.generate_with_provider(payload.prompt.as_str(), name.as_str());
            proof {
                let outcomes = choose|outcomes: Seq<Outcome>|
                    {
                        let run = #[trigger] route_with_provider(
                            before,
                            names,
                            prompt,
                            name@,
                            outcomes,
                        );
                        &&& outcomes.len() == names.len()
                        &&& run.result == routed_view(result)
                        &&& run.cache == router.cache()
                    };
                assert(request_run(before, names, prompt, pinned_to(payload), outcomes)
                    == route_with_provider(before, names, prompt, name@, outcomes));
            }
            result
        },
        None => {
            let result = router.generate(payload.prompt.as_str());
            proof {
                let outcomes = choose|outcomes: Seq<Outcome>|
                    {
                        let run = #[trigger] route(before, names, prompt, outcomes);
                        &&& outcomes.len() == names.len()
                        &&& run.result == routed_view(result)
                        &&& run.cache == router.cache()
                    };
                assert(request_run(before, names, prompt, pinned_to(payload), outcomes) == route(
                    before,
                    names,
                    prompt,
                    outcomes,
                ));
            }
            result
        },
    };
    respond(result)
}

} // verus!
