//! The policies that the broker serves, in the order in which they were
//! configured, and the lookup of a token's key identifier among them.
//!
//! A key identifier is chosen by whoever publishes the key, so two policies
//! may hold keys under one identifier. A lookup therefore yields every
//! policy that holds such a key, in registry order.

use jsonwebtoken::jwk::{Jwk, JwkSet};
use vstd::prelude::*;

use crate::jwt::key_position;
use crate::policy::{enriched, EnrichedPolicyView, PolicyWithJWKS, ValidatedPolicy};
use crate::search::{first, lemma_first_at, lemma_first_none};

verus! {

/// Whether a policy holds a key under `kid`.
pub open spec fn holds_key(policy: EnrichedPolicyView, kid: Seq<char>) -> bool {
    key_position(policy.jwks, kid) is Some
}

/// Whether the policy at a position holds a key under `kid`.
pub open spec fn keyed(registry: Seq<EnrichedPolicyView>, kid: Seq<char>) -> spec_fn(int) -> bool {
    |i: int| holds_key(registry[i], kid)
}

/// The positions below `n` of the policies that hold a key under `kid`, in
/// rising order.
pub open spec fn candidates_below(registry: Seq<EnrichedPolicyView>, kid: Seq<char>, n: int) -> Seq<
    int,
>
    decreases n,
{
    if n <= 0 {
        Seq::empty()
    } else {
        let before = candidates_below(registry, kid, n - 1);
        if holds_key(registry[n - 1], kid) {
            before.push(n - 1)
        } else {
            before
        }
    }
}

/// The positions of all policies that hold a key under `kid`, in rising
/// order.
pub open spec fn candidates(registry: Seq<EnrichedPolicyView>, kid: Seq<char>) -> Seq<int> {
    candidates_below(registry, kid, registry.len() as int)
}

/// The key that a policy holds under `kid`: the first such key of its key
/// set.
pub open spec fn key_of(policy: EnrichedPolicyView, kid: Seq<char>) -> Jwk {
    policy.jwks.keys@[key_position(policy.jwks, kid)->0]
}

/// A policy that holds a key under the identifier looked up, with that key.
#[derive(Clone, Copy, Debug)]
pub struct Candidate<'a> {
    /// The position of the policy in the registry.
    pub position: usize,
    /// The policy.
    pub policy: &'a PolicyWithJWKS,
    /// The key that the policy holds under the identifier.
    pub key: &'a Jwk,
}

/// Whether `found` lists the candidates for `kid` in `registry`, each with
/// its policy and its key.
pub open spec fn lists_candidates(
    found: Seq<Candidate<'_>>,
    registry: Seq<EnrichedPolicyView>,
    kid: Seq<char>,
) -> bool {
    &&& found.len() == candidates(registry, kid).len()
    &&& forall|j: int|
        0 <= j < found.len() ==> {
            &&& (#[trigger] found[j]).position as int == candidates(registry, kid)[j]
            &&& 0 <= candidates(registry, kid)[j] < registry.len()
            &&& found[j].policy@ == registry[candidates(registry, kid)[j]]
            &&& *found[j].key == key_of(found[j].policy@, kid)
        }
}

/// The policies, each as what it says.
pub open spec fn policy_views(policies: Seq<PolicyWithJWKS>) -> Seq<EnrichedPolicyView> {
    Seq::new(policies.len(), |i: int| policies[i]@)
}

/// The enriched policies, fixed once they are built.
#[derive(Debug)]
pub struct PolicyRegistry {
    policies: Vec<PolicyWithJWKS>,
}

impl View for PolicyRegistry {
    type V = Seq<EnrichedPolicyView>;

    closed spec fn view(&self) -> Seq<EnrichedPolicyView> {
        policy_views(self.policies@)
    }
}

/// A policy could not be enriched: no key set was fetched for the policy at
/// `index`.
#[derive(Clone, Copy, Debug, PartialEq, Eq, Structural)]
pub struct KeySetFetchFailed {
    pub index: usize,
}

/// Whether the key set at a position is missing.
pub open spec fn unfetched(fetched: Seq<(ValidatedPolicy, Option<JwkSet>)>) -> spec_fn(int) -> bool {
    |i: int| fetched[i].1 is None
}

impl PolicyRegistry {
    /// The registry of the given policies, in their order.
    pub fn new(policies: Vec<PolicyWithJWKS>) -> (r: PolicyRegistry)
        ensures
            r@ == policy_views(policies@),
    {
        PolicyRegistry { policies }
    }

    /// The number of policies.
    pub fn len(&self) -> (n: usize)
        ensures
            n == self@.len(),
    {
        self.policies.len()
    }

    /// The policy at position `i`.
    pub fn get(&self, i: usize) -> (policy: &PolicyWithJWKS)
        requires
            i < self@.len(),
        ensures
            policy@ == self@[i as int],
    {
        &self.policies[i]
    }

    /// The policies that hold a key under `kid`, each with that key, in
    /// registry order.
    pub fn find_by_key_id<'a>(&'a self, kid: &str) -> (found: Vec<Candidate<'a>>)
        ensures
            lists_candidates(found@, self@, kid@),
    {
        let n = self.policies.len();
        let mut found: Vec<Candidate<'a>> = Vec::new();
        let mut i: usize = 0;
        while i < n
            invariant
                n == self@.len(),
                n == self.policies@.len(),
                i <= n,
                found@.len() == candidates_below(self@, kid@, i as int).len(),
                forall|j: int|
                    0 <= j < found@.len() ==> {
                        &&& (#[trigger] found@[j]).position as int == candidates_below(
                            self@,
                            kid@,
                            i as int,
                        )[j]
                        &&& 0 <= found@[j].position < i
                        &&& found@[j].policy@ == self@[found@[j].position as int]
                        &&& *found@[j].key == key_of(found@[j].policy@, kid@)
                    },
            decreases n - i,
        {
            let policy = &self.policies[i];
            match policy.jwks().find(kid) {
                Some(key) => {
                    found.push(Candidate { position: i, policy, key });
                },
                None => {},
            }
            i = i + 1;
        }
        found
    }

    /// The first policy that holds a key under `kid`, with that key.
    pub fn match_policy<'a>(&'a self, kid: &str) -> (r: Option<Candidate<'a>>)
        ensures
            match first(self@.len() as int, keyed(self@, kid@)) {
                Some(i) => r matches Some(c) && c.position as int == i && c.policy@ == self@[i]
                    && *c.key == key_of(self@[i], kid@),
                None => r is None,
            },
    {
        let n = self.policies.len();
        let mut i: usize = 0;
        while i < n
            invariant
                n == self@.len(),
                n == self.policies@.len(),
                i <= n,
                forall|k: int| 0 <= k < i ==> !#[trigger] keyed(self@, kid@)(k),
            decreases n - i,
        {
            let policy = &self.policies[i];
            match policy.jwks().find(kid) {
                Some(key) => {
                    proof {
                        assert(keyed(self@, kid@)(i as int));
                        lemma_first_at(n as int, keyed(self@, kid@), i as int);
                    }
                    return Some(Candidate { position: i, policy, key });
                },
                None => {
                    assert(!keyed(self@, kid@)(i as int));
                },
            }
            i = i + 1;
        }
        proof {
            lemma_first_none(n as int, keyed(self@, kid@));
        }
        None
    }
}

/// Builds the registry from the checked policies and the key set fetched
/// for each. One missing key set fails the whole: the first position without
/// one is reported and no registry is built.
pub fn enrich_policies(fetched: Vec<(ValidatedPolicy, Option<JwkSet>)>) -> (r: Result<
    PolicyRegistry,
    KeySetFetchFailed,
>)
    ensures
        match first(fetched@.len() as int, unfetched(fetched@)) {
            Some(i) => r == Err::<PolicyRegistry, KeySetFetchFailed>(
                KeySetFetchFailed { index: i as usize },
            ),
            None => r matches Ok(registry) && registry@.len() == fetched@.len() && forall|i: int|
                0 <= i < fetched@.len() ==> #[trigger] registry@[i] == enriched(
                    fetched@[i].0@,
                    fetched@[i].1->0,
                ),
        },
{
    let ghost all = fetched@;
    let n = fetched.len();
    let mut policies: Vec<PolicyWithJWKS> = Vec::new();
    let mut position: usize = 0;
    for pair in it: fetched
        invariant
            it.seq() == all,
            position == it.index(),
            all.len() == n,
            policies@.len() == it.index(),
            forall|k: int| 0 <= k < it.index() ==> !#[trigger] unfetched(all)(k),
            forall|k: int|
                0 <= k < it.index() ==> (#[trigger] policies@[k])@ == enriched(
                    all[k].0@,
                    all[k].1->0,
                ),
    {
        assert(position < all.len());
        let (policy, key_set) = pair;
        match key_set {
            None => {
                proof {
                    assert(unfetched(all)(position as int));
                    lemma_first_at(all.len() as int, unfetched(all), position as int);
                }
                return Err(KeySetFetchFailed { index: position });
            },
            Some(jwks) => {
                assert(!unfetched(all)(position as int));
                policies.push(policy.attach_jwks(jwks));
            },
        }
        position = position + 1;
    }
    proof {
        lemma_first_none(all.len() as int, unfetched(all));
    }
    let registry = PolicyRegistry::new(policies);
    Ok(registry)
}

/// The candidates are the positions of the policies that hold the key, each
/// once and in rising order.
pub proof fn lemma_candidates(registry: Seq<EnrichedPolicyView>, kid: Seq<char>, n: int)
    requires
        0 <= n <= registry.len(),
    ensures
        forall|j: int|
            0 <= j < candidates_below(registry, kid, n).len() ==> 0 <= (
            #[trigger] candidates_below(registry, kid, n)[j]) < n && holds_key(
                registry[candidates_below(registry, kid, n)[j]],
                kid,
            ),
        forall|j: int, k: int|
            0 <= j < k < candidates_below(registry, kid, n).len() ==> (#[trigger] candidates_below(
                registry,
                kid,
                n,
            )[j]) < (#[trigger] candidates_below(registry, kid, n)[k]),
        forall|i: int|
            0 <= i < n && holds_key(#[trigger] registry[i], kid) ==> candidates_below(
                registry,
                kid,
                n,
            ).contains(i),
    decreases n,
{
    if n > 0 {
        lemma_candidates(registry, kid, n - 1);
        let before = candidates_below(registry, kid, n - 1);
        let now = candidates_below(registry, kid, n);
        assert forall|i: int| 0 <= i < n && holds_key(#[trigger] registry[i], kid) implies now.contains(
            i,
        ) by {
            if i < n - 1 {
                assert(before.contains(i));
                let j = choose|j: int| 0 <= j < before.len() && before[j] == i;
                assert(now[j] == i);
            } else {
                assert(now[now.len() - 1] == i);
            }
        }
    }
}

/// The first policy that holds the key is the first candidate.
pub proof fn lemma_first_candidate(registry: Seq<EnrichedPolicyView>, kid: Seq<char>)
    ensures
        first(registry.len() as int, keyed(registry, kid)) == if candidates(registry, kid).len()
            > 0 {
            Some(candidates(registry, kid)[0])
        } else {
            None::<int>
        },
{
    let n = registry.len() as int;
    let found = candidates(registry, kid);
    lemma_candidates(registry, kid, n);
    if found.len() > 0 {
        let c = found[0];
        assert(keyed(registry, kid)(c));
        assert forall|k: int| 0 <= k < c implies !#[trigger] keyed(registry, kid)(k) by {
            if holds_key(registry[k], kid) {
                assert(found.contains(k));
                let j = choose|j: int| 0 <= j < found.len() && found[j] == k;
                if j > 0 {
                    assert(found[0] < found[j]);
                }
            }
        }
        lemma_first_at(n, keyed(registry, kid), c);
    } else {
        assert forall|k: int| 0 <= k < n implies !#[trigger] keyed(registry, kid)(k) by {
            if holds_key(registry[k], kid) {
                assert(found.contains(k));
            }
        }
        lemma_first_none(n, keyed(registry, kid));
    }
}

} // verus!
