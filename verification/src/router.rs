//! The router: an ordered list of providers and one cache, with the steps
//! of a request and the two entry points that run them.

use crate::cache::{Cache, Entry};
use crate::error::{GatewayError, GatewayFailure, ProviderError, ProviderFailure};
use crate::model::{
    cached_answer, calls_left, first_step, first_step_with_provider, lemma_first_success,
    lemma_position, next_step, position, route, route_with_provider, Progress, Routed,
};
use crate::providers::{outcome_view, AIProvider, Outcome};
use vstd::prelude::*;

verus! {

/// One provider call that a request is waiting for.
#[derive(Clone, Copy, Debug, PartialEq, Eq)]
pub struct Attempt {
    /// The provider's position in registration order.
    pub index: usize,
    /// Whether a failure moves on to the next provider.
    pub fallback: bool,
}

/// Where a request stands: waiting for a provider call, or over.
#[derive(Debug, PartialEq, Eq)]
pub enum Step {
    /// The provider named by the attempt is to be called with the prompt,
    /// and the outcome handed to [`AIRouter::resume`].
    Call(Attempt),
    /// The request is over: the output text, the provider's name and
    /// whether the cache served it; or the failure.
    Done(Result<(String, String, bool), GatewayError>),
}

/// Mathematical form of what a request returns.
pub open spec fn routed_view(result: Result<(String, String, bool), GatewayError>) -> Routed {
    match result {
        Ok((output, provider, cached)) => Ok((output@, provider@, cached)),
        Err(error) => Err(error@),
    }
}

impl View for Step {
    type V = Progress;

    open spec fn view(&self) -> Progress {
        match *self {
            Step::Call(attempt) => Progress::Call {
                index: attempt.index as int,
                fallback: attempt.fallback,
            },
            Step::Done(result) => Progress::Done(routed_view(result)),
        }
    }
}

/// A provider and the name it was registered under.
struct Registered<P> {
    name: String,
    provider: P,
}

/// Providers in fallback order, and the cache they share.
///
/// Providers are only ever added, so a position once handed out stays
/// valid. Names are meant to be unique; where two providers share one, the
/// provider registered first answers to it.
pub struct AIRouter<P> {
    entries: Vec<Registered<P>>,
    cache: Cache,
}

impl<P> AIRouter<P> {
    /// The registered providers with the names they were registered under,
    /// in registration order.
    pub closed spec fn registry(&self) -> Seq<(Seq<char>, P)> {
        self.entries@.map_values(|entry: Registered<P>| (entry.name@, entry.provider))
    }

    /// The registered providers, in registration order.
    pub open spec fn providers(&self) -> Seq<P> {
        self.registry().map_values(|entry: (Seq<char>, P)| entry.1)
    }

    /// The names the providers were registered under, in registration order.
    pub open spec fn names(&self) -> Seq<Seq<char>> {
        self.registry().map_values(|entry: (Seq<char>, P)| entry.0)
    }

    /// What the cache holds.
    pub closed spec fn cache(&self) -> Map<Seq<char>, Entry> {
        self.cache@
    }

    /// A router with no provider and an empty cache.
    pub fn new() -> (router: Self)
        ensures
            router.registry() == Seq::<(Seq<char>, P)>::empty(),
            router.cache() == Map::<Seq<char>, Entry>::empty(),
    {
        let router = AIRouter { entries: Vec::new(), cache: Cache::new() };
        assert(router.registry() =~= Seq::<(Seq<char>, P)>::empty());
        router
    }

    /// Registers a provider under a name, behind those already registered.
    pub fn register(&mut self, name: String, provider: P)
        ensures
            final(self).registry() == old(self).registry().push((name@, provider)),
            final(self).cache() == old(self).cache(),
    {
        self.entries.push(Registered { name, provider });
        assert(self.registry() =~= old(self).registry().push((name@, provider)));
    }

    /// How many providers are registered.
    pub fn provider_count(&self) -> (count: usize)
        ensures
            count == self.registry().len(),
    {
        self.entries.len()
    }

    /// The provider at a position in registration order, if there is one.
    pub fn provider(&self, index: usize) -> (found: Option<&P>)
        ensures
            match found {
                Some(provider) => index < self.registry().len() && *provider
                    == self.providers()[index as int],
                None => index >= self.registry().len(),
            },
    {
        if index < self.entries.len() {
            Some(&self.entries[index].provider)
        } else {
            None
        }
    }

    /// What the cache holds for a prompt, if anything.
    pub fn cached(&self, prompt: &str) -> (found: Option<(String, String)>)
        ensures
            match found {
                Some((response, provider)) => self.cache().contains_key(prompt@)
                    && self.cache()[prompt@] == (response@, provider@),
                None => !self.cache().contains_key(prompt@),
            },
    {
        self.cache.get(prompt)
    }

    /// Starts a request on the fallback path. Calls no provider.
    pub fn begin(&self, prompt: &str) -> (step: Step)
        ensures
            step@ == first_step(self.cache(), self.names(), prompt@),
    {
        match self.cache.get(prompt) {
            Some((response, provider)) => Step::Done(Ok((response, provider, true))),
            None => {
                if self.entries.len() == 0 {
                    Step::Done(Err(GatewayError::AllProvidersFailed(None)))
                } else {
                    Step::Call(Attempt { index: 0, fallback: true })
                }
            },
        }
    }

    /// Starts a request pinned to the provider registered under
    /// `provider_name`. Calls no provider.
    pub fn begin_with_provider(&self, prompt: &str, provider_name: &str) -> (step: Step)
        ensures
            step@ == first_step_with_provider(
                self.cache(),
                self.names(),
                prompt@,
                provider_name@,
            ),
    {
        let wanted = provider_name.to_owned();
        let chosen = self.find(&wanted);
        if chosen >= self.entries.len() {
            return Step::Done(Err(GatewayError::ProviderNotFound(wanted)));
        }
        match self.cache.get(prompt) {
            Some((response, provider)) => Step::Done(Ok((response, provider, true))),
            None => Step::Call(Attempt { index: chosen, fallback: false }),
        }
    }

    /// The position of the first provider registered under `wanted`, or the
    /// number of providers when there is none.
    fn find(&self, wanted: &String) -> (chosen: usize)
        ensures
            chosen == position(self.names(), wanted@),
    {
        let mut index: usize = 0;
        while index < self.entries.len()
            invariant
                index <= self.entries.len(),
                forall|j: int| 0 <= j < index ==> self.names()[j] != wanted@,
            decreases self.entries.len() - index,
        {
            if self.entries[index].name == *wanted {
                proof {
                    lemma_position(self.names(), wanted@, index as int);
                }
                return index;
            }
            index += 1;
        }
        proof {
            lemma_position(self.names(), wanted@, index as int);
        }
        index
    }

    /// Takes the outcome of the provider call that `attempt` asked for and
    /// moves the request on. A success is stored in the cache under the
    /// prompt and ends the request. A failure moves a fallback request to
    /// the next provider, if there is one, and ends it otherwise.
    pub fn resume(
        &mut self,
        prompt: &str,
        attempt: Attempt,
        outcome: Result<String, ProviderError>,
    ) -> (step: Step)
        requires
            attempt.index < old(self).registry().len(),
        ensures
            final(self).registry() == old(self).registry(),
            (step@, final(self).cache()) == next_step(
                old(self).cache(),
                old(self).names(),
                prompt@,
                attempt.index as int,
                attempt.fallback,
                outcome_view(outcome),
            ),
    {
        match outcome {
            Ok(response) => {
                let provider = self.entries[attempt.index].name.clone();
                self.cache.set(prompt.to_owned(), response.clone(), provider.clone());
                Step::Done(Ok((response, provider, false)))
            },
            Err(error) => {
                let count = self.entries.len();
                if attempt.fallback && attempt.index + 1 < count {
                    Step::Call(Attempt { index: attempt.index + 1, fallback: true })
                } else {
                    Step::Done(Err(GatewayError::AllProvidersFailed(Some(error))))
                }
            },
        }
    }
}

impl<P: AIProvider> AIRouter<P> {
    /// Registers a provider behind those already registered, under the name
    /// that it gives itself now. The name is asked for once and kept.
    pub fn add_provider(&mut self, provider: P)
        ensures
            final(self).providers() == old(self).providers().push(provider),
            final(self).names().drop_last() == old(self).names(),
            final(self).cache() == old(self).cache(),
    {
        let name = provider.name();
        self.register(name, provider);
        assert(self.providers() =~= old(self).providers().push(provider));
        assert(self.names().drop_last() =~= old(self).names());
    }

    /// Answers a prompt on the fallback path: from the cache when it holds
    /// the prompt, else from the first provider, in registration order, that
    /// succeeds. Providers are called one after another until one succeeds,
    /// and the success is stored in the cache.
    ///
    /// What the providers answer is theirs to decide, so the contract says
    /// that some outcomes, one for each provider, account for the result and
    /// for the cache by [`route`].
    pub fn generate(&mut self, prompt: &str) -> (result: Result<(String, String, bool), GatewayError>)
        ensures
            final(self).registry() == old(self).registry(),
            old(self).cache().contains_key(prompt@) ==> routed_view(result) == cached_answer(
                old(self).cache(),
                prompt@,
            ) && final(self).cache() == old(self).cache(),
            exists|outcomes: Seq<Outcome>|
                {
                    let run = #[trigger] route(
                        old(self).cache(),
                        old(self).names(),
                        prompt@,
                        outcomes,
                    );
                    &&& outcomes.len() == old(self).names().len()
                    &&& run.result == routed_view(result)
                    &&& run.cache == final(self).cache()
                },
    {
        let ghost before = self.cache();
        let ghost names = self.names();
        let ghost mut seen: Seq<Outcome> = Seq::empty();
        let mut step = self.begin(prompt);
        proof {
            if step is Done {
                let silent = Seq::new(names.len(), |i: int| Err::<Seq<char>, ProviderFailure>(arbitrary()));
                lemma_first_success(silent, names.len() as int);
                assert(route(before, names, prompt@, silent).result == routed_view(step->Done_0));
            }
        }
        loop
            invariant
                self.registry() == old(self).registry(),
                names == old(self).names(),
                before == old(self).cache(),
                match step@ {
                    Progress::Done(result) => {
                        &&& before.contains_key(prompt@) ==> result == cached_answer(before, prompt@)
                            && self.cache() == before
                        &&& exists|outcomes: Seq<Outcome>|
                            {
                                let run = #[trigger] route(before, names, prompt@, outcomes);
                                &&& outcomes.len() == names.len()
                                &&& run.result == result
                                &&& run.cache == self.cache()
                            }
                    },
                    Progress::Call { index, fallback } => {
                        &&& fallback
                        &&& index < names.len()
                        &&& seen.len() == index
                        &&& forall|j: int| 0 <= j < index ==> seen[j] is Err
                        &&& !before.contains_key(prompt@)
                        &&& self.cache() == before
                    },
                },
            decreases calls_left(step@, names.len()),
        {
            match step {
                Step::Done(result) => {
                    return result;
                },
                Step::Call(attempt) => {
                    let outcome = self.entries[attempt.index].provider.generate(prompt);
                    proof {
                        seen = seen.push(outcome_view(outcome));
                    }
                    step = self.resume(prompt, attempt, outcome);
                    proof {
                        if step is Done {
                            let rest = Seq::new(
                                (names.len() - seen.len()) as nat,
                                |i: int| Err::<Seq<char>, ProviderFailure>(arbitrary()),
                            );
                            let all = seen + rest;
                            if seen.last() is Ok {
                                lemma_first_success(all, attempt.index as int);
                            } else {
                                assert(all =~= seen);
                                lemma_first_success(all, names.len() as int);
                            }
                            assert(route(before, names, prompt@, all).result == step@->Done_0);
                        }
                    }
                },
            }
        }
    }

    /// Answers a prompt from the provider registered under `provider_name`
    /// and from no other. An unknown name fails at once. Otherwise the cache
    /// is consulted and filled exactly as on the fallback path, and the
    /// named provider's failure is final.
    ///
    /// The contract says that some outcomes, one for each provider, account
    /// for the result and for the cache by [`route_with_provider`]; only the
    /// named provider's outcome matters there.
    pub fn generate_with_provider(&mut self, prompt: &str, provider_name: &str) -> (result: Result<
        (String, String, bool),
        GatewayError,
    >)
        ensures
            final(self).registry() == old(self).registry(),
            position(old(self).names(), provider_name@) >= old(self).names().len() ==> routed_view(
                result,
            ) == Err::<(Seq<char>, Seq<char>, bool), _>(
                GatewayFailure::ProviderNotFound(provider_name@),
            ) && final(self).cache() == old(self).cache(),
            exists|outcomes: Seq<Outcome>|
                {
                    let run = #[trigger] route_with_provider(
                        old(self).cache(),
                        old(self).names(),
                        prompt@,
                        provider_name@,
                        outcomes,
                    );
                    &&& outcomes.len() == old(self).names().len()
                    &&& run.result == routed_view(result)
                    &&& run.cache == final(self).cache()
                },
    {
        let ghost before = self.cache();
        let ghost names = self.names();
        let ghost silent = Seq::new(
            names.len(),
            |i: int| Err::<Seq<char>, ProviderFailure>(arbitrary()),
        );
        match self.begin_with_provider(prompt, provider_name) {
            Step::Done(result) => {
                proof {
                    assert(route_with_provider(before, names, prompt@, provider_name@, silent).result
                        == routed_view(result));
                }
                result
            },
            Step::Call(attempt) => {
                let outcome = self.entries[attempt.index].provider.generate(prompt);
                let ghost all = silent.update(attempt.index as int, outcome_view(outcome));
                match self.resume(prompt, attempt, outcome) {
                    Step::Done(result) => {
                        proof {
                            assert(route_with_provider(
                                before,
                                names,
                                prompt@,
                                provider_name@,
                                all,
                            ).result == routed_view(result));
                        }
                        result
                    },
                    Step::Call(_) => unreached(),
                }
            },
        }
    }
}


} // verus!
