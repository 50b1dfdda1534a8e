//! Scope encoding, the step after a decision, and what the client is told.

use redact::Secret;
use token_broker::authorizer::{AuthorizationDecision, DenialReason};
use token_broker::broker::{
    conclude, exchange_scopes, outward_state, scope_string, scope_strings, BrokerError, OutwardState,
    Upstream,
};
use token_broker::scopes::ScopeMap;

fn scopes(pairs: &[(&str, &str)]) -> ScopeMap {
    let mut map = ScopeMap::new();
    for (name, level) in pairs {
        map.insert(name.to_string(), level.to_string());
    }
    map
}

#[test]
fn write_is_the_bare_name() {
    assert_eq!(scope_string("dns:write", "write"), "dns:write");
    assert_eq!(scope_string("devices", "write"), "devices");
    assert_eq!(scope_string("", "write"), "");
}

#[test]
fn other_levels_follow_a_colon() {
    assert_eq!(scope_string("dns", "read"), "dns:read");
    assert_eq!(scope_string("dns:write", "read"), "dns:write:read");
    assert_eq!(scope_string("dns", "Write"), "dns:Write");
    assert_eq!(scope_string("dns", ""), "dns:");
    assert_eq!(scope_string("", "read"), ":read");
}

#[test]
fn scopes_are_encoded_in_order() {
    let permissions = scopes(&[("devices", "write"), ("dns", "read"), ("acl", "write")]);
    assert_eq!(
        scope_strings(&permissions),
        vec!["devices".to_string(), "dns:read".to_string(), "acl".to_string()]
    );
    assert_eq!(scope_strings(&ScopeMap::new()), Vec::<String>::new());
}

#[test]
fn grant_asks_for_its_scopes() {
    let decision = AuthorizationDecision::Granted(scopes(&[("dns:write", "write")]));
    assert_eq!(exchange_scopes(decision), Ok(vec!["dns:write".to_string()]));
    let decision = AuthorizationDecision::Granted(scopes(&[("a", "read"), ("b", "write")]));
    assert_eq!(exchange_scopes(decision), Ok(vec!["a:read".to_string(), "b".to_string()]));
}

#[test]
fn denial_asks_for_nothing() {
    for reason in [
        DenialReason::MalformedToken,
        DenialReason::UnsupportedAlgorithm,
        DenialReason::MissingKeyId,
        DenialReason::NoMatchingPolicy,
        DenialReason::InvalidToken,
        DenialReason::ScopeNotAllowed("dns:admin".to_string()),
    ] {
        assert_eq!(
            exchange_scopes(AuthorizationDecision::Denied(reason.clone())),
            Err(BrokerError::Denied(reason))
        );
    }
}

#[test]
fn issued_token_is_kept_secret() {
    let upstream = Upstream::Token(Secret::new("tskey-abc123".to_string()));
    assert!(!format!("{:?}", upstream).contains("tskey"));
    let secret = match conclude(upstream) {
        Ok(s) => s,
        Err(e) => panic!("failed: {:?}", e),
    };
    assert_eq!(secret.expose_secret(), "tskey-abc123");
    assert!(!format!("{:?}", secret).contains("tskey"));
}

#[test]
fn failed_exchange_is_reported_as_such() {
    assert_eq!(conclude(Upstream::Failed).err(), Some(BrokerError::UpstreamExchangeFailed));
    assert_eq!(conclude(Upstream::TimedOut).err(), Some(BrokerError::UpstreamExchangeFailed));
}

#[test]
fn refusals_collapse_to_three_outward_states() {
    for (reason, state) in [
        (DenialReason::MalformedToken, OutwardState::BadRequest),
        (DenialReason::UnsupportedAlgorithm, OutwardState::BadRequest),
        (DenialReason::MissingKeyId, OutwardState::BadRequest),
        (DenialReason::NoMatchingPolicy, OutwardState::Unauthorized),
        (DenialReason::InvalidToken, OutwardState::Unauthorized),
        (DenialReason::ScopeNotAllowed("x".to_string()), OutwardState::Unauthorized),
    ] {
        assert_eq!(outward_state(&BrokerError::Denied(reason)), state);
    }
    assert_eq!(outward_state(&BrokerError::UpstreamExchangeFailed), OutwardState::Unavailable);
}
