//! What holds of routing for every cache, every list of providers and
//! everything the providers may answer.

use crate::cache::Entry;
use crate::error::GatewayFailure;
use crate::model::{
    drive, first_step, first_step_with_provider, lemma_first_success, lemma_position, next_step,
    position, position_in_range, position_of_registered, route, route_with_provider, upto,
    Progress, Run,
};
use crate::providers::Outcome;
use vstd::prelude::*;

verus! {

/// Whether two runs are the same in result, cache and calls.
pub open spec fn same_run(left: Run, right: Run) -> bool {
    &&& left.result == right.result
    &&& left.cache =~= right.cache
    &&& left.calls =~= right.calls
}

/// Cache hit precedence. Once an answer is stored for a prompt, a request
/// for that prompt on the fallback path returns that answer marked as
/// cached, calls no provider and leaves the cache as it is, whatever the
/// providers would have answered.
pub proof fn cache_hit_precedence(
    cache: Map<Seq<char>, Entry>,
    names: Seq<Seq<char>>,
    prompt: Seq<char>,
    response: Seq<char>,
    provider: Seq<char>,
    outcomes: Seq<Outcome>,
)
    ensures
        ({
            let stored = cache.insert(prompt, (response, provider));
            route(stored, names, prompt, outcomes) == (Run {
                result: Ok((response, provider, true)),
                cache: stored,
                calls: Seq::empty(),
            })
        }),
{
}

/// Cache hit precedence on the pinned path. Once an answer is stored for a
/// prompt, a request for that prompt pinned to a registered provider returns
/// the stored answer marked as cached and calls no provider, whichever
/// provider had given the answer.
pub proof fn cache_hit_precedence_with_provider(
    cache: Map<Seq<char>, Entry>,
    names: Seq<Seq<char>>,
    prompt: Seq<char>,
    response: Seq<char>,
    provider: Seq<char>,
    wanted: Seq<char>,
    outcomes: Seq<Outcome>,
)
    requires
        names.contains(wanted),
    ensures
        ({
            let stored = cache.insert(prompt, (response, provider));
            route_with_provider(stored, names, prompt, wanted, outcomes) == (Run {
                result: Ok((response, provider, true)),
                cache: stored,
                calls: Seq::empty(),
            })
        }),
{
    position_of_registered(names, wanted);
}

/// Fallback ordering, and first success wins. When the prompt is not cached
/// and the provider at `winner` is the first to succeed, the request returns
/// that provider's text under that provider's name, not marked as cached;
/// the providers before it and it were called, in registration order, and
/// no provider behind it; and the cache now holds the answer under the
/// prompt.
pub proof fn first_success_wins(
    cache: Map<Seq<char>, Entry>,
    names: Seq<Seq<char>>,
    prompt: Seq<char>,
    outcomes: Seq<Outcome>,
    winner: int,
)
    requires
        !cache.contains_key(prompt),
        outcomes.len() == names.len(),
        0 <= winner < outcomes.len(),
        outcomes[winner] is Ok,
        forall|j: int| 0 <= j < winner ==> outcomes[j] is Err,
    ensures
        ({
            let text = outcomes[winner]->Ok_0;
            let run = route(cache, names, prompt, outcomes);
            &&& run.result == Ok::<_, GatewayFailure>((text, names[winner], false))
            &&& run.calls == upto(winner + 1)
            &&& run.cache == cache.insert(prompt, (text, names[winner]))
            &&& run.cache[prompt] == (text, names[winner])
        }),
{
    lemma_first_success(outcomes, winner);
}

/// All-fail aggregation. When the prompt is not cached and every provider
/// fails, the request fails with the aggregate failure that carries the
/// failure of the last provider, every provider was called once in
/// registration order, and the cache is left as it was. With no provider at
/// all the aggregate failure carries nothing.
pub proof fn all_failures_report_the_last(
    cache: Map<Seq<char>, Entry>,
    names: Seq<Seq<char>>,
    prompt: Seq<char>,
    outcomes: Seq<Outcome>,
)
    requires
        !cache.contains_key(prompt),
        outcomes.len() == names.len(),
        forall|j: int| 0 <= j < outcomes.len() ==> outcomes[j] is Err,
    ensures
        ({
            let run = route(cache, names, prompt, outcomes);
            &&& run.result == Err::<(Seq<char>, Seq<char>, bool), _>(
                GatewayFailure::AllProvidersFailed(
                    if outcomes.len() == 0 {
                        None
                    } else {
                        Some(outcomes.last()->Err_0)
                    },
                ),
            )
            &&& run.calls == upto(outcomes.len() as int)
            &&& run.cache == cache
        }),
{
    lemma_first_success(outcomes, outcomes.len() as int);
}

/// Named-provider bypass. A request pinned to a registered provider calls
/// no provider but the first of that name, so what the other providers
/// would have answered changes nothing: two lists of outcomes that agree on
/// the named provider give the same run.
pub proof fn named_provider_alone_is_called(
    cache: Map<Seq<char>, Entry>,
    names: Seq<Seq<char>>,
    prompt: Seq<char>,
    wanted: Seq<char>,
    outcomes: Seq<Outcome>,
    others: Seq<Outcome>,
)
    requires
        names.contains(wanted),
        outcomes.len() == names.len(),
        others.len() == names.len(),
        others[position(names, wanted)] == outcomes[position(names, wanted)],
    ensures
        ({
            let chosen = position(names, wanted);
            let run = route_with_provider(cache, names, prompt, wanted, outcomes);
            &&& 0 <= chosen < names.len()
            &&& names[chosen] == wanted
            &&& forall|i: int| 0 <= i < run.calls.len() ==> run.calls[i] == chosen
            &&& !cache.contains_key(prompt) ==> run.calls == seq![chosen]
            &&& run == route_with_provider(cache, names, prompt, wanted, others)
        }),
{
    position_of_registered(names, wanted);
}

/// No fallback on the pinned path. When the prompt is not cached and the
/// named provider fails, the request fails with that failure, even where
/// another provider would have succeeded, and the cache is left as it was.
pub proof fn named_provider_failure_is_final(
    cache: Map<Seq<char>, Entry>,
    names: Seq<Seq<char>>,
    prompt: Seq<char>,
    wanted: Seq<char>,
    outcomes: Seq<Outcome>,
)
    requires
        names.contains(wanted),
        outcomes.len() == names.len(),
        !cache.contains_key(prompt),
        outcomes[position(names, wanted)] is Err,
    ensures
        ({
            let chosen = position(names, wanted);
            let run = route_with_provider(cache, names, prompt, wanted, outcomes);
            &&& run.result == Err::<(Seq<char>, Seq<char>, bool), _>(
                GatewayFailure::AllProvidersFailed(Some(outcomes[chosen]->Err_0)),
            )
            &&& run.cache == cache
        }),
{
    position_of_registered(names, wanted);
}

/// Unknown provider name. A request pinned to a name that no registered
/// provider has fails with "provider not found", calls no provider and
/// leaves the cache as it was, whether or not the prompt is cached.
pub proof fn unknown_provider_is_not_found(
    cache: Map<Seq<char>, Entry>,
    names: Seq<Seq<char>>,
    prompt: Seq<char>,
    wanted: Seq<char>,
    outcomes: Seq<Outcome>,
)
    requires
        !names.contains(wanted),
    ensures
        route_with_provider(cache, names, prompt, wanted, outcomes) == (Run {
            result: Err(GatewayFailure::ProviderNotFound(wanted)),
            cache,
            calls: Seq::empty(),
        }),
{
    lemma_position(names, wanted, names.len() as int);
}

/// Cache key exactness. Prompts that differ in any character are different
/// keys: storing an answer for one neither creates nor changes a hit for
/// the other, so a request for the other runs as it would have without the
/// stored answer.
pub proof fn prompts_are_exact_keys(
    cache: Map<Seq<char>, Entry>,
    names: Seq<Seq<char>>,
    prompt: Seq<char>,
    other: Seq<char>,
    answer: Entry,
    outcomes: Seq<Outcome>,
)
    requires
        prompt != other,
    ensures
        ({
            let stored = cache.insert(other, answer);
            let plain = route(cache, names, prompt, outcomes);
            let run = route(stored, names, prompt, outcomes);
            &&& stored.contains_key(prompt) == cache.contains_key(prompt)
            &&& run.result == plain.result
            &&& run.calls == plain.calls
            &&& run.cache == plain.cache.insert(other, answer)
        }),
{
    let stored = cache.insert(other, answer);
    let plain = route(cache, names, prompt, outcomes);
    let run = route(stored, names, prompt, outcomes);
    assert(run.cache =~= plain.cache.insert(other, answer));
}

/// Idempotent re-cache. After a request that missed the cache and
/// succeeded, a second request for the same prompt returns the same text
/// and provider name marked as cached, calls no provider and leaves the
/// cache as the first request left it, whatever the providers would answer
/// the second time.
pub proof fn second_request_is_served_from_cache(
    cache: Map<Seq<char>, Entry>,
    names: Seq<Seq<char>>,
    prompt: Seq<char>,
    outcomes: Seq<Outcome>,
    later: Seq<Outcome>,
)
    requires
        !cache.contains_key(prompt),
        route(cache, names, prompt, outcomes).result is Ok,
    ensures
        ({
            let first = route(cache, names, prompt, outcomes);
            let second = route(first.cache, names, prompt, later);
            let (text, provider, cached) = first.result->Ok_0;
            &&& !cached
            &&& second.result == Ok::<_, GatewayFailure>((text, provider, true))
            &&& second.calls == Seq::<int>::empty()
            &&& second.cache == first.cache
        }),
{
}

/// A failed request leaves no entry. A request that fails leaves the cache
/// exactly as it was, so a prompt that only ever failed is never cached.
pub proof fn failure_stores_nothing(
    cache: Map<Seq<char>, Entry>,
    names: Seq<Seq<char>>,
    prompt: Seq<char>,
    wanted: Seq<char>,
    outcomes: Seq<Outcome>,
)
    ensures
        route(cache, names, prompt, outcomes).result is Err ==> route(
            cache,
            names,
            prompt,
            outcomes,
        ).cache == cache,
        route_with_provider(cache, names, prompt, wanted, outcomes).result is Err
            ==> route_with_provider(cache, names, prompt, wanted, outcomes).cache == cache,
{
}

/// Last writer wins. When two requests for one prompt both get an answer,
/// each is returned its own answer and the cache keeps the one that was
/// stored last.
pub proof fn last_writer_wins(
    cache: Map<Seq<char>, Entry>,
    names: Seq<Seq<char>>,
    prompt: Seq<char>,
    earlier: int,
    early: Seq<char>,
    later: int,
    late: Seq<char>,
    fallback: bool,
)
    ensures
        ({
            let (first, between) = next_step(cache, names, prompt, earlier, fallback, Ok(early));
            let (second, after) = next_step(between, names, prompt, later, fallback, Ok(late));
            &&& first == Progress::Done(Ok((early, names[earlier], false)))
            &&& second == Progress::Done(Ok((late, names[later], false)))
            &&& after[prompt] == (late, names[later])
            &&& after == cache.insert(prompt, (late, names[later]))
        }),
{
    let (first, between) = next_step(cache, names, prompt, earlier, fallback, Ok(early));
    let (second, after) = next_step(between, names, prompt, later, fallback, Ok(late));
    assert(after =~= cache.insert(prompt, (late, names[later])));
}

/// Where no two providers share a name, a name selects the one provider
/// that bears it.
pub proof fn unique_name_selects_its_bearer(names: Seq<Seq<char>>, at: int)
    requires
        names.no_duplicates(),
        0 <= at < names.len(),
    ensures
        position(names, names[at]) == at,
{
    lemma_position(names, names[at], at);
}

/// The steps of a request on the fallback path, driven to the end with each
/// call answered from `outcomes`, come to exactly the run that [`route`]
/// describes: the same result, the same cache and the same calls.
pub proof fn steps_follow_route(
    cache: Map<Seq<char>, Entry>,
    names: Seq<Seq<char>>,
    prompt: Seq<char>,
    outcomes: Seq<Outcome>,
)
    requires
        outcomes.len() == names.len(),
    ensures
        same_run(
            drive(cache, names, prompt, first_step(cache, names, prompt), outcomes, Seq::empty()),
            route(cache, names, prompt, outcomes),
        ),
{
    if cache.contains_key(prompt) {
    } else if names.len() == 0 {
    } else {
        assert(upto(0) =~= Seq::<int>::empty());
        fallback_steps_follow_route(cache, names, prompt, outcomes, 0);
    }
}

/// The steps of a request pinned to `wanted`, driven to the end with each
/// call answered from `outcomes`, come to exactly the run that
/// [`route_with_provider`] describes.
pub proof fn pinned_steps_follow_route(
    cache: Map<Seq<char>, Entry>,
    names: Seq<Seq<char>>,
    prompt: Seq<char>,
    wanted: Seq<char>,
    outcomes: Seq<Outcome>,
)
    requires
        outcomes.len() == names.len(),
    ensures
        same_run(
            drive(
                cache,
                names,
                prompt,
                first_step_with_provider(cache, names, prompt, wanted),
                outcomes,
                Seq::empty(),
            ),
            route_with_provider(cache, names, prompt, wanted, outcomes),
        ),
{
    let chosen = position(names, wanted);
    if chosen < names.len() && !cache.contains_key(prompt) {
        position_in_range(names, wanted);
        assert(Seq::<int>::empty().push(chosen) =~= seq![chosen]);
        reveal_with_fuel(drive, 2);
    }
}

/// From the call at `index` on, with every earlier provider having failed,
/// the steps of the fallback path come to the run that [`route`] describes.
proof fn fallback_steps_follow_route(
    cache: Map<Seq<char>, Entry>,
    names: Seq<Seq<char>>,
    prompt: Seq<char>,
    outcomes: Seq<Outcome>,
    index: int,
)
    requires
        !cache.contains_key(prompt),
        outcomes.len() == names.len(),
        0 <= index < names.len(),
        forall|j: int| 0 <= j < index ==> outcomes[j] is Err,
    ensures
        same_run(
            drive(
                cache,
                names,
                prompt,
                Progress::Call { index, fallback: true },
                outcomes,
                upto(index),
            ),
            route(cache, names, prompt, outcomes),
        ),
    decreases names.len() - index,
{
    assert(upto(index).push(index) =~= upto(index + 1));
    match outcomes[index] {
        Ok(text) => {
            lemma_first_success(outcomes, index);
            reveal_with_fuel(drive, 2);
        },
        Err(failure) => {
            if index + 1 < names.len() {
                fallback_steps_follow_route(cache, names, prompt, outcomes, index + 1);
            } else {
                lemma_first_success(outcomes, names.len() as int);
                reveal_with_fuel(drive, 2);
            }
        },
    }
}

} // verus!
