//! The access broker: what is asked of the upstream token endpoint once a
//! request is granted, and what the caller is told.
//!
//! The exchange itself is the caller's to perform. The broker says whether
//! it may happen and with which scopes, and turns its outcome into the
//! answer for the client.

use redact::Secret;
use vstd::prelude::*;
use vstd::string::StringExecFns;

use crate::authorizer::{AuthorizationDecision, Decision, Denial, DenialReason};
use crate::policy::texts;
use crate::scopes::{write_word, ScopeMap, ScopeSeq};
use crate::text::same_text;

verus! {

/// `redact::Secret`, which keeps its content out of `Debug` output; carried,
/// never opened.
#[verifier::external_type_specification]
#[verifier::external_body]
#[verifier::reject_recursive_types(T)]
pub struct ExSecret<T: ?Sized>(redact::Secret<T>);

/// The scope that the upstream endpoint is asked for on behalf of one
/// permission: the bare name for the level `write`, and the name, a colon
/// and the level for any other level.
pub open spec fn scope_text(permission: (Seq<char>, Seq<char>)) -> Seq<char> {
    if permission.1 == write_word() {
        permission.0
    } else {
        permission.0 + seq![':'] + permission.1
    }
}

/// The scopes for a set of permissions, one for each, in their order.
pub open spec fn scope_texts(permissions: ScopeSeq) -> Seq<Seq<char>> {
    Seq::new(permissions.len(), |i: int| scope_text(permissions[i]))
}

/// What the client is told when it is not given a token.
#[derive(Clone, Copy, Debug, PartialEq, Eq, Structural)]
pub enum OutwardState {
    /// The request could not be read as one.
    BadRequest,
    /// The request is not authorized; no finer reason is disclosed.
    Unauthorized,
    /// The upstream exchange failed.
    Unavailable,
}

/// What came of the exchange with the upstream endpoint.
#[derive(Debug)]
pub enum Upstream {
    /// The endpoint issued this token.
    Token(Secret<String>),
    /// The endpoint refused, or could not be reached.
    Failed,
    /// The endpoint did not answer in time.
    TimedOut,
}

/// Why a request yields no token, as the contracts speak of it.
pub enum Refusal {
    /// Authorization denied the request.
    Denied(Denial),
    /// The upstream exchange failed.
    UpstreamExchangeFailed,
}

/// Why a request yields no token.
#[derive(Clone, Debug, PartialEq, Eq)]
pub enum BrokerError {
    /// Authorization denied the request.
    Denied(DenialReason),
    /// The upstream exchange failed.
    UpstreamExchangeFailed,
}

impl View for BrokerError {
    type V = Refusal;

    open spec fn view(&self) -> Refusal {
        match self {
            BrokerError::Denied(reason) => Refusal::Denied(reason@),
            BrokerError::UpstreamExchangeFailed => Refusal::UpstreamExchangeFailed,
        }
    }
}

/// The outward state of a refusal. A token that cannot be read, asserts an
/// unsupported algorithm or names no key is a bad request; every other
/// denial is unauthorized; a failed exchange is unavailable.
pub open spec fn outward(refusal: Refusal) -> OutwardState {
    match refusal {
        Refusal::Denied(Denial::MalformedToken) => OutwardState::BadRequest,
        Refusal::Denied(Denial::UnsupportedAlgorithm) => OutwardState::BadRequest,
        Refusal::Denied(Denial::MissingKeyId) => OutwardState::BadRequest,
        Refusal::Denied(Denial::NoMatchingPolicy) => OutwardState::Unauthorized,
        Refusal::Denied(Denial::InvalidToken) => OutwardState::Unauthorized,
        Refusal::Denied(Denial::ScopeNotAllowed(_)) => OutwardState::Unauthorized,
        Refusal::UpstreamExchangeFailed => OutwardState::Unavailable,
    }
}

/// The scope to ask for on behalf of the permission `name` at `level`.
pub fn scope_string(name: &str, level: &str) -> (scope: String)
    ensures
        scope@ == scope_text((name@, level@)),
{
    proof {
        reveal_strlit("write");
        reveal_strlit(":");
    }
    assert("write"@ =~= write_word());
    assert(":"@ =~= seq![':']);
    if same_text(level, "write") {
        name.to_owned()
    } else {
        let mut scope = name.to_owned();
        scope.append(":");
        scope.append(level);
        scope
    }
}

/// The scopes to ask for on behalf of `permissions`.
pub fn scope_strings(permissions: &ScopeMap) -> (scopes: Vec<String>)
    ensures
        texts(scopes@) == scope_texts(permissions@),
{
    let n = permissions.len();
    let mut scopes: Vec<String> = Vec::new();
    let mut i: usize = 0;
    while i < n
        invariant
            n == permissions@.len(),
            i <= n,
            scopes@.len() == i,
            forall|k: int| 0 <= k < i ==> (#[trigger] scopes@[k])@ == scope_text(permissions@[k]),
        decreases n - i,
    {
        scopes.push(scope_string(permissions.name_at(i), permissions.level_at(i)));
        i = i + 1;
    }
    assert(texts(scopes@) =~= scope_texts(permissions@));
    scopes
}

/// What to ask of the upstream endpoint for a decision: the scopes of the
/// granted permissions. A denial asks for nothing, so that the endpoint is
/// never approached for a request that was not authorized.
pub fn exchange_scopes(decision: AuthorizationDecision) -> (r: Result<Vec<String>, BrokerError>)
    ensures
        match decision@ {
            Decision::Granted(permissions) => r matches Ok(scopes) && texts(scopes@)
                == scope_texts(permissions),
            Decision::Denied(denial) => r matches Err(e) && e@ == Refusal::Denied(denial),
        },
{
    match decision {
        AuthorizationDecision::Granted(permissions) => Ok(scope_strings(&permissions)),
        AuthorizationDecision::Denied(reason) => Err(BrokerError::Denied(reason)),
    }
}

/// The result of the exchange: the token, still kept secret, or the
/// failure. Not being answered in time is a failure like any other.
pub fn conclude(upstream: Upstream) -> (r: Result<Secret<String>, BrokerError>)
    ensures
        match upstream {
            Upstream::Token(token) => r matches Ok(secret) && secret == token,
            _ => r matches Err(e) && e@ == Refusal::UpstreamExchangeFailed,
        },
{
    match upstream {
        Upstream::Token(token) => Ok(token),
        Upstream::Failed => Err(BrokerError::UpstreamExchangeFailed),
        Upstream::TimedOut => Err(BrokerError::UpstreamExchangeFailed),
    }
}

/// What the client is told of a refusal.
pub fn outward_state(error: &BrokerError) -> (state: OutwardState)
    ensures
        state == outward(error@),
{
    match error {
        BrokerError::Denied(DenialReason::MalformedToken) => OutwardState::BadRequest,
        BrokerError::Denied(DenialReason::UnsupportedAlgorithm) => OutwardState::BadRequest,
        BrokerError::Denied(DenialReason::MissingKeyId) => OutwardState::BadRequest,
        BrokerError::Denied(DenialReason::NoMatchingPolicy) => OutwardState::Unauthorized,
        BrokerError::Denied(DenialReason::InvalidToken) => OutwardState::Unauthorized,
        BrokerError::Denied(DenialReason::ScopeNotAllowed(_)) => OutwardState::Unauthorized,
        BrokerError::UpstreamExchangeFailed => OutwardState::Unavailable,
    }
}

} // verus!
