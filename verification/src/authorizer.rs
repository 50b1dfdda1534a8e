//! The authorization decision: from a bearer token, the permissions asked
//! for and the registry to a grant or a denial.
//!
//! The decision has one part that the verification primitive settles, the
//! check of signature and claims, whose outcome changes with the clock.
//! `decide` takes those outcomes as an argument and is exact; `authorize`
//! obtains them and hands them to `decide`.

use jsonwebtoken::jwk::Jwk;
use jsonwebtoken::{Algorithm, DecodingKey, Header};
use vstd::prelude::*;

use crate::algorithm::{acceptable, is_acceptable};
use crate::jwt::{decoded_header, header_view, verify_token, HeaderView};
use crate::policy::{EnrichedPolicyView, PolicyWithJWKS};
use crate::registry::{candidates, holds_key, lemma_candidates, Candidate, PolicyRegistry};
use crate::scopes::{scope_allowed, ScopeMap, ScopeSeq};
use crate::search::{first, lemma_first, lemma_first_agrees, lemma_first_at, lemma_first_none};

verus! {

/// Why a request is denied, as the contracts speak of it.
pub enum Denial {
    /// The token's header cannot be read.
    MalformedToken,
    /// The token asserts an algorithm outside the allowlist.
    UnsupportedAlgorithm,
    /// The token's header names no key.
    MissingKeyId,
    /// No policy holds a key under the token's key identifier.
    NoMatchingPolicy,
    /// No policy that holds such a key accepts the token.
    InvalidToken,
    /// The matched policy does not cover the named permission.
    ScopeNotAllowed(Seq<char>),
}

/// A decision, as the contracts speak of it.
pub enum Decision {
    /// The request is refused.
    Denied(Denial),
    /// The request is granted, for exactly these permissions.
    Granted(ScopeSeq),
}

/// Why a request is denied.
#[derive(Clone, Debug, PartialEq, Eq)]
pub enum DenialReason {
    /// The token's header cannot be read.
    MalformedToken,
    /// The token asserts an algorithm outside the allowlist.
    UnsupportedAlgorithm,
    /// The token's header names no key.
    MissingKeyId,
    /// No policy holds a key under the token's key identifier.
    NoMatchingPolicy,
    /// No policy that holds such a key accepts the token.
    InvalidToken,
    /// The matched policy does not cover the named permission.
    ScopeNotAllowed(String),
}

impl View for DenialReason {
    type V = Denial;

    open spec fn view(&self) -> Denial {
        match self {
            DenialReason::MalformedToken => Denial::MalformedToken,
            DenialReason::UnsupportedAlgorithm => Denial::UnsupportedAlgorithm,
            DenialReason::MissingKeyId => Denial::MissingKeyId,
            DenialReason::NoMatchingPolicy => Denial::NoMatchingPolicy,
            DenialReason::InvalidToken => Denial::InvalidToken,
            DenialReason::ScopeNotAllowed(name) => Denial::ScopeNotAllowed(name@),
        }
    }
}

/// The outcome of one authorization.
#[derive(Clone, Debug, PartialEq, Eq)]
pub enum AuthorizationDecision {
    /// The request is refused.
    Denied(DenialReason),
    /// The request is granted, for exactly these permissions.
    Granted(ScopeMap),
}

impl View for AuthorizationDecision {
    type V = Decision;

    open spec fn view(&self) -> Decision {
        match self {
            AuthorizationDecision::Denied(reason) => Decision::Denied(reason@),
            AuthorizationDecision::Granted(permissions) => Decision::Granted(permissions@),
        }
    }
}

/// What the header alone settles: the key identifier to look up, or the
/// denial. A header that cannot be read is malformed; one that can must
/// assert an algorithm of the allowlist, and then name a key.
pub open spec fn screened(header: Option<HeaderView>) -> Result<Seq<char>, Denial> {
    match header {
        None => Err(Denial::MalformedToken),
        Some(h) => if !acceptable(h.alg) {
            Err(Denial::UnsupportedAlgorithm)
        } else {
            match h.kid {
                None => Err(Denial::MissingKeyId),
                Some(kid) => Ok(kid),
            }
        },
    }
}

/// Whether the candidate at a place in `found` accepts the token: its
/// policy is configured for the very algorithm that the token asserts, and
/// the token verified under it. `found` holds the positions of the
/// candidates, and `outcomes[j]` says whether signature and claims verified
/// under the candidate at place `j`; a place that `outcomes` does not reach
/// counts as not verified.
pub open spec fn accepts(
    registry: Seq<EnrichedPolicyView>,
    found: Seq<int>,
    alg: Algorithm,
    outcomes: Seq<bool>,
) -> spec_fn(int) -> bool {
    |j: int| registry[found[j]].algorithm == alg && j < outcomes.len() && outcomes[j]
}

/// The place, among the candidates for `kid`, of the first that accepts the
/// token.
pub open spec fn accepted_place(
    registry: Seq<EnrichedPolicyView>,
    kid: Seq<char>,
    alg: Algorithm,
    outcomes: Seq<bool>,
) -> Option<int> {
    let found = candidates(registry, kid);
    first(found.len() as int, accepts(registry, found, alg, outcomes))
}

/// The policy that a token is matched to, by its position in the registry:
/// the first candidate, in registry order, that accepts it.
pub open spec fn matched(
    registry: Seq<EnrichedPolicyView>,
    kid: Seq<char>,
    alg: Algorithm,
    outcomes: Seq<bool>,
) -> Option<int> {
    match accepted_place(registry, kid, alg, outcomes) {
        Some(j) => Some(candidates(registry, kid)[j]),
        None => None,
    }
}

/// Whether the permission requested at a position is not allowed.
pub open spec fn refused(grants: ScopeSeq, requested: ScopeSeq) -> spec_fn(int) -> bool {
    |i: int| !scope_allowed(grants, requested[i].0, requested[i].1)
}

/// The decision once a policy is matched: the first requested permission
/// that its grants do not allow denies the whole request; where there is
/// none, exactly what was requested is granted.
pub open spec fn scope_decision(grants: ScopeSeq, requested: ScopeSeq) -> Decision {
    match first(requested.len() as int, refused(grants, requested)) {
        Some(i) => Decision::Denied(Denial::ScopeNotAllowed(requested[i].0)),
        None => Decision::Granted(requested),
    }
}

/// The authorization decision, given the outcomes of verification, one for
/// each candidate in registry order.
pub open spec fn decision(
    header: Option<HeaderView>,
    requested: ScopeSeq,
    registry: Seq<EnrichedPolicyView>,
    outcomes: Seq<bool>,
) -> Decision {
    match screened(header) {
        Err(denial) => Decision::Denied(denial),
        Ok(kid) => if candidates(registry, kid).len() == 0 {
            Decision::Denied(Denial::NoMatchingPolicy)
        } else {
            match matched(registry, kid, header->0.alg, outcomes) {
                None => Decision::Denied(Denial::InvalidToken),
                Some(i) => scope_decision(registry[i].grants, requested),
            }
        },
    }
}

/// The view of a header that may be absent.
pub open spec fn optional_header_view(header: Option<&Header>) -> Option<HeaderView> {
    match header {
        Some(h) => Some(header_view(*h)),
        None => None,
    }
}

/// Judges the header alone: gives the key identifier to look up, or the
/// reason for which the token is refused before any policy is consulted.
pub fn screen_header<'a>(header: Option<&'a Header>) -> (r: Result<&'a str, DenialReason>)
    ensures
        match screened(optional_header_view(header)) {
            Ok(kid) => r matches Ok(k) && k@ == kid,
            Err(denial) => r matches Err(reason) && reason@ == denial,
        },
{
    match header {
        None => Err(DenialReason::MalformedToken),
        Some(h) => {
            if !is_acceptable(h.alg) {
                return Err(DenialReason::UnsupportedAlgorithm);
            }
            match &h.kid {
                None => Err(DenialReason::MissingKeyId),
                Some(kid) => Ok(kid.as_str()),
            }
        },
    }
}

/// Judges the permissions asked for against a matched policy.
pub fn authorize_scopes(policy: &PolicyWithJWKS, requested: &ScopeMap) -> (r: AuthorizationDecision)
    ensures
        r@ == scope_decision(policy@.grants, requested@),
{
    let n = requested.len();
    let mut i: usize = 0;
    while i < n
        invariant
            n == requested@.len(),
            i <= n,
            forall|k: int| 0 <= k < i ==> !#[trigger] refused(policy@.grants, requested@)(k),
        decreases n - i,
    {
        let name = requested.name_at(i);
        let level = requested.level_at(i);
        if !policy.check_scope_allowed(name, level) {
            proof {
                assert(refused(policy@.grants, requested@)(i as int));
                lemma_first_at(n as int, refused(policy@.grants, requested@), i as int);
            }
            return AuthorizationDecision::Denied(DenialReason::ScopeNotAllowed(name.to_owned()));
        }
        assert(!refused(policy@.grants, requested@)(i as int));
        i = i + 1;
    }
    proof {
        lemma_first_none(n as int, refused(policy@.grants, requested@));
    }
    AuthorizationDecision::Granted(requested.clone())
}

/// Whether the candidate at a place accepts the token, read off the
/// candidates themselves.
pub open spec fn chosen(found: Seq<Candidate<'_>>, alg: Algorithm, outcomes: Seq<bool>) -> spec_fn(
    int,
) -> bool {
    |j: int| found[j].policy@.algorithm == alg && j < outcomes.len() && outcomes[j]
}

/// The place of the first candidate that accepts the token, given the
/// outcomes of verification: its policy must be configured for `alg`, and
/// its outcome must be `true`.
pub fn select_policy(found: &Vec<Candidate<'_>>, alg: Algorithm, outcomes: &Vec<bool>) -> (r: Option<
    usize,
>)
    ensures
        r matches Some(j) ==> first(found@.len() as int, chosen(found@, alg, outcomes@)) == Some(
            j as int,
        ),
        r is None ==> first(found@.len() as int, chosen(found@, alg, outcomes@)) is None,
{
    let n = found.len();
    let mut j: usize = 0;
    while j < n
        invariant
            n == found@.len(),
            j <= n,
            forall|k: int| 0 <= k < j ==> !#[trigger] chosen(found@, alg, outcomes@)(k),
        decreases n - j,
    {
        let verified = j < outcomes.len() && outcomes[j];
        if verified && found[j].policy.algorithm().pins(alg) {
            proof {
                assert(chosen(found@, alg, outcomes@)(j as int));
                lemma_first_at(n as int, chosen(found@, alg, outcomes@), j as int);
            }
            return Some(j);
        }
        assert(!chosen(found@, alg, outcomes@)(j as int));
        j = j + 1;
    }
    proof {
        lemma_first_none(n as int, chosen(found@, alg, outcomes@));
    }
    None
}

/// The authorization decision for a token whose header is `header` (`None`
/// where it could not be read) and for which `outcomes[j]` says whether
/// signature and claims verified under the candidate at place `j` of the
/// lookup of the header's key identifier.
pub fn decide(
    header: Option<&Header>,
    requested: &ScopeMap,
    registry: &PolicyRegistry,
    outcomes: &Vec<bool>,
) -> (r: AuthorizationDecision)
    ensures
        r@ == decision(optional_header_view(header), requested@, registry@, outcomes@),
{
    match (screen_header(header), header) {
        (Ok(kid), Some(h)) => {
            let found = registry.find_by_key_id(kid);
            if found.len() == 0 {
                return AuthorizationDecision::Denied(DenialReason::NoMatchingPolicy);
            }
            proof {
                let positions = candidates(registry@, kid@);
                lemma_first_agrees(
                    found@.len() as int,
                    chosen(found@, h.alg, outcomes@),
                    accepts(registry@, positions, h.alg, outcomes@),
                );
            }
            match select_policy(&found, h.alg, outcomes) {
                None => AuthorizationDecision::Denied(DenialReason::InvalidToken),
                Some(j) => authorize_scopes(found[j].policy, requested),
            }
        },
        (Err(reason), _) => AuthorizationDecision::Denied(reason),
        (Ok(_), None) => AuthorizationDecision::Denied(DenialReason::MalformedToken),
    }
}

/// Whether the token verifies under `policy` with `key`: the key must make
/// a decoding key, and signature and claims must pass the policy's
/// constraints. A token verifies under a policy only if its header can be
/// read and asserts the policy's algorithm.
fn verifies(token: &str, policy: &PolicyWithJWKS, key: &Jwk) -> (r: bool)
    ensures
        r ==> (decoded_header(token@) matches Some(header) && header.alg == policy@.algorithm),
{
    match DecodingKey::from_jwk(key) {
        Err(_) => false,
        Ok(decoding_key) => {
            let constraints = policy.constraints();
            match verify_token(token, &decoding_key, &constraints) {
                Ok(_) => true,
                Err(_) => false,
            }
        },
    }
}

/// Authorizes a request: reads the token's header, looks up the candidates
/// for its key identifier, tries them in registry order, and judges the
/// permissions asked for against the first that accepts the token.
///
/// Whether a policy accepts the token rests on the verification of signature
/// and claims, which no contract can foretell. Whatever came of it, the
/// decision is the one that `decision` gives for some outcomes.
pub fn authorize(token: &str, requested: &ScopeMap, registry: &PolicyRegistry) -> (r:
    AuthorizationDecision)
    ensures
        exists|outcomes: Seq<bool>|
            r@ == #[trigger] decision(decoded_header(token@), requested@, registry@, outcomes),
{
    let header = match jsonwebtoken::decode_header(token) {
        Ok(h) => Some(h),
        Err(_) => None,
    };
    let read = header.as_ref();
    let mut outcomes: Vec<bool> = Vec::new();
    match (screen_header(read), read) {
        (Ok(kid), Some(h)) => {
            let found = registry.find_by_key_id(kid);
            let n = found.len();
            let mut j: usize = 0;
            let mut accepted = false;
            while j < n && !accepted
                invariant
                    n == found@.len(),
                    j <= n,
                decreases n - j,
            {
                let candidate = found[j];
                accepted = candidate.policy.algorithm().pins(h.alg) && verifies(
                    token,
                    candidate.policy,
                    candidate.key,
                );
                outcomes.push(accepted);
                j = j + 1;
            }
        },
        _ => {},
    }
    let r = decide(read, requested, registry, &outcomes);
    assert(optional_header_view(read) == decoded_header(token@));
    assert(r@ == decision(decoded_header(token@), requested@, registry@, outcomes@));
    r
}

/// Algorithm pinning: where no policy that holds the token's key is
/// configured for the algorithm that the token asserts, the token is
/// denied as invalid, whatever the verification of its signature gave.
pub proof fn lemma_algorithm_pinning(
    header: HeaderView,
    requested: ScopeSeq,
    registry: Seq<EnrichedPolicyView>,
    outcomes: Seq<bool>,
)
    requires
        screened(Some(header)) is Ok,
        exists|i: int| 0 <= i < registry.len() && holds_key(#[trigger] registry[i], header.kid->0),
        forall|i: int|
            0 <= i < registry.len() && holds_key(#[trigger] registry[i], header.kid->0)
                ==> registry[i].algorithm != header.alg,
    ensures
        decision(Some(header), requested, registry, outcomes) == Decision::Denied(
            Denial::InvalidToken,
        ),
{
    let kid = header.kid->0;
    let found = candidates(registry, kid);
    lemma_candidates(registry, kid, registry.len() as int);
    let w = choose|i: int| 0 <= i < registry.len() && holds_key(#[trigger] registry[i], kid);
    assert(found.contains(w));
    assert forall|j: int| 0 <= j < found.len() implies !#[trigger] accepts(
        registry,
        found,
        header.alg,
        outcomes,
    )(j) by {
        assert(holds_key(registry[found[j]], kid));
    }
    lemma_first_none(found.len() as int, accepts(registry, found, header.alg, outcomes));
}

/// The tie-break among policies that share a key identifier: the candidate
/// at place `j` decides where it accepts the token and no candidate before
/// it does.
pub proof fn lemma_first_acceptance_decides(
    header: HeaderView,
    requested: ScopeSeq,
    registry: Seq<EnrichedPolicyView>,
    outcomes: Seq<bool>,
    j: int,
)
    requires
        screened(Some(header)) is Ok,
        0 <= j < candidates(registry, header.kid->0).len(),
        accepts(registry, candidates(registry, header.kid->0), header.alg, outcomes)(j),
        forall|k: int|
            0 <= k < j ==> !#[trigger] accepts(
                registry,
                candidates(registry, header.kid->0),
                header.alg,
                outcomes,
            )(k),
    ensures
        decision(Some(header), requested, registry, outcomes) == scope_decision(
            registry[candidates(registry, header.kid->0)[j]].grants,
            requested,
        ),
{
    let found = candidates(registry, header.kid->0);
    lemma_first_at(found.len() as int, accepts(registry, found, header.alg, outcomes), j);
}

/// The decision rests on the registry, the request, the header and the
/// outcomes of verification, on nothing else: two authorizations of one
/// token against one registry agree wherever verification gave the same up
/// to the candidate that the first of them matched. In particular they
/// agree where verification gave the same throughout.
pub proof fn lemma_decision_repeats(
    header: Option<HeaderView>,
    requested: ScopeSeq,
    registry: Seq<EnrichedPolicyView>,
    outcomes: Seq<bool>,
    again: Seq<bool>,
)
    requires
        outcomes.len() == again.len(),
        forall|k: int|
            0 <= k < outcomes.len() && (screened(header) matches Ok(kid) ==> (accepted_place(
                registry,
                kid,
                header->0.alg,
                outcomes,
            ) matches Some(j) ==> k <= j)) ==> #[trigger] outcomes[k] == again[k],
    ensures
        decision(header, requested, registry, outcomes) == decision(
            header,
            requested,
            registry,
            again,
        ),
{
    match screened(header) {
        Err(_) => {},
        Ok(kid) => {
            let alg = header->0.alg;
            let found = candidates(registry, kid);
            let n = found.len() as int;
            let p = accepts(registry, found, alg, outcomes);
            let q = accepts(registry, found, alg, again);
            assert forall|k: int|
                0 <= k < n && (first(n, p) matches Some(j) ==> k <= j) implies #[trigger] p(k) == q(
                k,
            ) by {
                if k < outcomes.len() {
                    assert(outcomes[k] == again[k]);
                }
            }
            lemma_first_agrees(n, p, q);
        },
    }
}

/// A granted request is granted as it was asked, and every permission in it
/// is allowed by the grants that decided.
pub proof fn lemma_grant_is_request(grants: ScopeSeq, requested: ScopeSeq)
    ensures
        scope_decision(grants, requested) matches Decision::Granted(permissions) ==> permissions
            == requested && forall|i: int|
            0 <= i < requested.len() ==> scope_allowed(
                grants,
                (#[trigger] requested[i]).0,
                requested[i].1,
            ),
        scope_decision(grants, requested) matches Decision::Denied(denial) ==> exists|i: int|
            0 <= i < requested.len() && denial == Denial::ScopeNotAllowed(
                (#[trigger] requested[i]).0,
            ) && !scope_allowed(grants, requested[i].0, requested[i].1),
{
    lemma_first(requested.len() as int, refused(grants, requested));
    match first(requested.len() as int, refused(grants, requested)) {
        Some(i) => {
            assert(refused(grants, requested)(i));
        },
        None => {
            assert forall|i: int| 0 <= i < requested.len() implies scope_allowed(
                grants,
                (#[trigger] requested[i]).0,
                requested[i].1,
            ) by {
                assert(!refused(grants, requested)(i));
            }
        },
    }
}

} // verus!
