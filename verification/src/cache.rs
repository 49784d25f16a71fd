//! Exact-match memo of answered prompts.

use vstd::hash_map::StringHashMap;
use vstd::prelude::*;

verus! {

/// What the cache remembers for one prompt: the response text and the name of
/// the provider that produced it.
pub type Entry = (Seq<char>, Seq<char>);

struct CacheEntry {
    response: String,
    provider: String,
}

/// Maps a prompt, compared character for character, to the last successful
/// answer given for it. Nothing is ever evicted.
pub struct Cache {
    store: StringHashMap<CacheEntry>,
}

impl View for Cache {
    type V = Map<Seq<char>, Entry>;

    closed spec fn view(&self) -> Map<Seq<char>, Entry> {
        self.store@.map_values(|e: CacheEntry| (e.response@, e.provider@))
    }
}

impl Cache {
    /// An empty cache.
    pub fn new() -> (cache: Self)
        ensures
            cache@ == Map::<Seq<char>, Entry>::empty(),
    {
        let cache = Cache { store: StringHashMap::new() };
        assert(cache@ =~= Map::<Seq<char>, Entry>::empty());
        cache
    }

    /// Looks the prompt up as it is written: no trimming, no case folding.
    pub fn get(&self, prompt: &str) -> (found: Option<(String, String)>)
        ensures
            match found {
                Some((response, provider)) => self@.contains_key(prompt@) && self@[prompt@] == (
                    response@,
                    provider@,
                ),
                None => !self@.contains_key(prompt@),
            },
    {
        match self.store.get(prompt) {
            Some(entry) => Some((entry.response.clone(), entry.provider.clone())),
            None => None,
        }
    }

    /// Stores the answer under the prompt, replacing whatever was there.
    pub fn set(&mut self, prompt: String, response: String, provider: String)
        ensures
            final(self)@ == old(self)@.insert(prompt@, (response@, provider@)),
    {
        self.store.insert(prompt, CacheEntry { response, provider });
        assert(self@ =~= old(self)@.insert(prompt@, (response@, provider@)));
    }
}

} // verus!
