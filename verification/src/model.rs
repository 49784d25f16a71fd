//! The mathematical model of routing: what a request comes to, given the
//! cache, the registered names and what each provider would answer.

use crate::cache::Entry;
use crate::error::GatewayFailure;
use crate::providers::Outcome;
use vstd::prelude::*;

verus! {

/// What a routed request returns: the output text, the name of the provider
/// that produced it and whether it came from the cache; or the failure.
pub type Routed = Result<(Seq<char>, Seq<char>, bool), GatewayFailure>;

/// Everything observable of one routed request.
pub ghost struct Run {
    /// What the caller gets back.
    pub result: Routed,
    /// The cache once the request is over.
    pub cache: Map<Seq<char>, Entry>,
    /// The positions of the providers that were called, in the order of the
    /// calls.
    pub calls: Seq<int>,
}

/// Where a request stands between two provider calls.
pub ghost enum Progress {
    /// The provider at `index` is to be called next. On the fallback path a
    /// failure moves on to the next provider; on the pinned path it is final.
    Call { index: int, fallback: bool },
    /// The request is over.
    Done(Routed),
}

/// The answer served from the cache for a prompt that it holds.
pub open spec fn cached_answer(cache: Map<Seq<char>, Entry>, prompt: Seq<char>) -> Routed {
    Ok((cache[prompt].0, cache[prompt].1, true))
}

/// The positions `0, 1, .., n - 1` in order.
pub open spec fn upto(n: int) -> Seq<int> {
    Seq::new(n as nat, |i: int| i)
}

/// The position of the first success among the outcomes, or their number
/// when every one is a failure.
pub open spec fn first_success(outcomes: Seq<Outcome>) -> int
    decreases outcomes.len(),
{
    if outcomes.len() == 0 || outcomes[0] is Ok {
        0
    } else {
        1 + first_success(outcomes.drop_first())
    }
}

/// The position of the first name equal to `wanted`, or the number of names
/// when none is. Names are compared character for character.
pub open spec fn position(names: Seq<Seq<char>>, wanted: Seq<char>) -> int
    decreases names.len(),
{
    if names.len() == 0 || names[0] == wanted {
        0
    } else {
        1 + position(names.drop_first(), wanted)
    }
}

/// The failure reported when the fallback chain is exhausted: it carries the
/// last outcome's failure, or nothing when there was no provider at all.
pub open spec fn exhausted(outcomes: Seq<Outcome>) -> GatewayFailure {
    if outcomes.len() == 0 {
        GatewayFailure::AllProvidersFailed(None)
    } else {
        GatewayFailure::AllProvidersFailed(Some(outcomes.last()->Err_0))
    }
}

/// A request on the fallback path. `outcomes[i]` is what the provider at
/// position `i` answers if it is called.
///
/// A cached prompt is served from the cache and no provider is called.
/// Otherwise providers are called in registration order up to and including
/// the first that succeeds; its answer is stored under the prompt and
/// returned. When none succeeds the cache is left alone and the last failure
/// is reported.
pub open spec fn route(
    cache: Map<Seq<char>, Entry>,
    names: Seq<Seq<char>>,
    prompt: Seq<char>,
    outcomes: Seq<Outcome>,
) -> Run
    recommends
        outcomes.len() == names.len(),
{
    let winner = first_success(outcomes);
    if cache.contains_key(prompt) {
        Run { result: cached_answer(cache, prompt), cache, calls: Seq::empty() }
    } else if winner < outcomes.len() {
        let text = outcomes[winner]->Ok_0;
        Run {
            result: Ok((text, names[winner], false)),
            cache: cache.insert(prompt, (text, names[winner])),
            calls: upto(winner + 1),
        }
    } else {
        Run { result: Err(exhausted(outcomes)), cache, calls: upto(outcomes.len() as int) }
    }
}

/// A request pinned to the provider registered under `wanted`.
///
/// An unknown name fails before anything else is looked at. Otherwise the
/// same cache serves this path and the fallback path: a cached prompt is
/// answered from it, whichever provider stored the answer, and a fresh
/// success is stored in it. Only the first provider of that name is ever
/// called, and its failure is final.
pub open spec fn route_with_provider(
    cache: Map<Seq<char>, Entry>,
    names: Seq<Seq<char>>,
    prompt: Seq<char>,
    wanted: Seq<char>,
    outcomes: Seq<Outcome>,
) -> Run
    recommends
        outcomes.len() == names.len(),
{
    let chosen = position(names, wanted);
    if chosen >= names.len() {
        Run {
            result: Err(GatewayFailure::ProviderNotFound(wanted)),
            cache,
            calls: Seq::empty(),
        }
    } else if cache.contains_key(prompt) {
        Run { result: cached_answer(cache, prompt), cache, calls: Seq::empty() }
    } else {
        match outcomes[chosen] {
            Ok(text) => Run {
                result: Ok((text, names[chosen], false)),
                cache: cache.insert(prompt, (text, names[chosen])),
                calls: seq![chosen],
            },
            Err(failure) => Run {
                result: Err(GatewayFailure::AllProvidersFailed(Some(failure))),
                cache,
                calls: seq![chosen],
            },
        }
    }
}

/// How a request on the fallback path starts.
pub open spec fn first_step(
    cache: Map<Seq<char>, Entry>,
    names: Seq<Seq<char>>,
    prompt: Seq<char>,
) -> Progress {
    if cache.contains_key(prompt) {
        Progress::Done(cached_answer(cache, prompt))
    } else if names.len() == 0 {
        Progress::Done(Err(GatewayFailure::AllProvidersFailed(None)))
    } else {
        Progress::Call { index: 0, fallback: true }
    }
}

/// How a request pinned to `wanted` starts.
pub open spec fn first_step_with_provider(
    cache: Map<Seq<char>, Entry>,
    names: Seq<Seq<char>>,
    prompt: Seq<char>,
    wanted: Seq<char>,
) -> Progress {
    let chosen = position(names, wanted);
    if chosen >= names.len() {
        Progress::Done(Err(GatewayFailure::ProviderNotFound(wanted)))
    } else if cache.contains_key(prompt) {
        Progress::Done(cached_answer(cache, prompt))
    } else {
        Progress::Call { index: chosen, fallback: false }
    }
}

/// How a request goes on once the provider at `index` has answered: where it
/// stands next, and the cache after the step.
pub open spec fn next_step(
    cache: Map<Seq<char>, Entry>,
    names: Seq<Seq<char>>,
    prompt: Seq<char>,
    index: int,
    fallback: bool,
    outcome: Outcome,
) -> (Progress, Map<Seq<char>, Entry>)
    recommends
        0 <= index < names.len(),
{
    match outcome {
        Ok(text) => (
            Progress::Done(Ok((text, names[index], false))),
            cache.insert(prompt, (text, names[index])),
        ),
        Err(failure) => if fallback && index + 1 < names.len() {
            (Progress::Call { index: index + 1, fallback: true }, cache)
        } else {
            (Progress::Done(Err(GatewayFailure::AllProvidersFailed(Some(failure)))), cache)
        },
    }
}

/// An upper bound on the provider calls still to come.
pub open spec fn calls_left(progress: Progress, providers: nat) -> nat {
    match progress {
        Progress::Done(_) => 0,
        Progress::Call { index, fallback } => if fallback && index < providers {
            (providers - index) as nat
        } else {
            1
        },
    }
}

/// A request driven step by step from `progress` to its end, each call
/// answered from `outcomes`. `calls` holds the calls made so far.
pub open spec fn drive(
    cache: Map<Seq<char>, Entry>,
    names: Seq<Seq<char>>,
    prompt: Seq<char>,
    progress: Progress,
    outcomes: Seq<Outcome>,
    calls: Seq<int>,
) -> Run
    decreases calls_left(progress, names.len()),
{
    match progress {
        Progress::Done(result) => Run { result, cache, calls },
        Progress::Call { index, fallback } => {
            let (next, stored) = next_step(cache, names, prompt, index, fallback, outcomes[index]);
            drive(stored, names, prompt, next, outcomes, calls.push(index))
        },
    }
}

/// `first_success` is `at` when every outcome before `at` is a failure and
/// the outcome at `at` is a success, or `at` is the number of outcomes.
pub proof fn lemma_first_success(outcomes: Seq<Outcome>, at: int)
    requires
        0 <= at <= outcomes.len(),
        forall|j: int| 0 <= j < at ==> outcomes[j] is Err,
        at < outcomes.len() ==> outcomes[at] is Ok,
    ensures
        first_success(outcomes) == at,
    decreases outcomes.len(),
{
    if at > 0 {
        let rest = outcomes.drop_first();
        assert forall|j: int| 0 <= j < at - 1 implies rest[j] is Err by {
            assert(rest[j] == outcomes[j + 1]);
        }
        lemma_first_success(rest, at - 1);
    }
}

/// `position` is `at` when no name before `at` matches and the name at `at`
/// does, or `at` is the number of names.
pub proof fn lemma_position(names: Seq<Seq<char>>, wanted: Seq<char>, at: int)
    requires
        0 <= at <= names.len(),
        forall|j: int| 0 <= j < at ==> names[j] != wanted,
        at < names.len() ==> names[at] == wanted,
    ensures
        position(names, wanted) == at,
    decreases names.len(),
{
    if at > 0 {
        let rest = names.drop_first();
        assert forall|j: int| 0 <= j < at - 1 implies rest[j] != wanted by {
            assert(rest[j] == names[j + 1]);
        }
        lemma_position(rest, wanted, at - 1);
    }
}

/// `position` lies between zero and the number of names.
pub proof fn position_in_range(names: Seq<Seq<char>>, wanted: Seq<char>)
    ensures
        0 <= position(names, wanted) <= names.len(),
    decreases names.len(),
{
    if names.len() > 0 && names[0] != wanted {
        position_in_range(names.drop_first(), wanted);
    }
}

/// For a registered name, `position` is the place of the first provider of
/// that name.
pub proof fn position_of_registered(names: Seq<Seq<char>>, wanted: Seq<char>)
    requires
        names.contains(wanted),
    ensures
        0 <= position(names, wanted) < names.len(),
        names[position(names, wanted)] == wanted,
        forall|j: int| 0 <= j < position(names, wanted) ==> names[j] != wanted,
    decreases names.len(),
{
    if names[0] != wanted {
        let rest = names.drop_first();
        let at = choose|i: int| 0 <= i < names.len() && names[i] == wanted;
        assert(rest[at - 1] == wanted);
        position_of_registered(rest, wanted);
        assert forall|j: int| 0 <= j < position(names, wanted) implies names[j] != wanted by {
            if j > 0 {
                assert(names[j] == rest[j - 1]);
            }
        }
    }
}

} // verus!
