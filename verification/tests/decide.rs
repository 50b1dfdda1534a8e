//! The decision as a function of the outcomes of verification.

use jsonwebtoken::jwk::{AlgorithmParameters, CommonParameters, Jwk, JwkSet, RSAKeyParameters, RSAKeyType};
use jsonwebtoken::{Algorithm, Header};
use token_broker::authorizer::{
    authorize_scopes, decide, screen_header, select_policy, AuthorizationDecision, DenialReason,
};
use token_broker::policy::{LocalPolicy, PolicyWithJWKS};
use token_broker::registry::PolicyRegistry;
use token_broker::scopes::ScopeMap;

fn scopes(pairs: &[(&str, &str)]) -> ScopeMap {
    let mut map = ScopeMap::new();
    for (name, level) in pairs {
        map.insert(name.to_string(), level.to_string());
    }
    map
}

fn key(kid: &str) -> Jwk {
    Jwk {
        common: CommonParameters { key_id: Some(kid.to_string()), ..Default::default() },
        algorithm: AlgorithmParameters::RSA(RSAKeyParameters {
            key_type: RSAKeyType::RSA,
            n: "AQAB".to_string(),
            e: "AQAB".to_string(),
        }),
    }
}

fn enriched(subject: &str, algorithm: &str, grants: &[(&str, &str)], kids: &[&str]) -> PolicyWithJWKS {
    let policy = LocalPolicy {
        issuer: vec!["https://idp.example".to_string()],
        subject: subject.to_string(),
        algorithm: algorithm.to_string(),
        jwks_url: "https://idp.example/keys".to_string(),
        allowed_scopes: scopes(grants),
    };
    match policy.attach_jwks(JwkSet { keys: kids.iter().map(|k| key(k)).collect() }) {
        Ok(p) => p,
        Err(e) => panic!("refused: {:?}", e),
    }
}

fn header(alg: Algorithm, kid: Option<&str>) -> Header {
    let mut h = Header::new(alg);
    h.kid = kid.map(|k| k.to_string());
    h
}

fn denied(reason: DenialReason) -> AuthorizationDecision {
    AuthorizationDecision::Denied(reason)
}

fn dns_registry() -> PolicyRegistry {
    PolicyRegistry::new(vec![enriched("svc-a", "rs256", &[("dns:write", "write")], &["key-1"])])
}

#[test]
fn header_is_screened_in_three_steps() {
    assert_eq!(screen_header(None), Err(DenialReason::MalformedToken));
    for alg in [
        Algorithm::HS256,
        Algorithm::HS384,
        Algorithm::HS512,
        Algorithm::ES256,
        Algorithm::ES384,
        Algorithm::PS256,
        Algorithm::PS384,
        Algorithm::PS512,
        Algorithm::EdDSA,
    ] {
        assert_eq!(screen_header(Some(&header(alg, Some("k")))), Err(DenialReason::UnsupportedAlgorithm));
        assert_eq!(screen_header(Some(&header(alg, None))), Err(DenialReason::UnsupportedAlgorithm));
    }
    for alg in [Algorithm::RS256, Algorithm::RS384, Algorithm::RS512] {
        assert_eq!(screen_header(Some(&header(alg, None))), Err(DenialReason::MissingKeyId));
        assert_eq!(screen_header(Some(&header(alg, Some("k")))), Ok("k"));
        assert_eq!(screen_header(Some(&header(alg, Some("")))), Ok(""));
    }
}

#[test]
fn decision_follows_the_header_before_any_policy() {
    let registry = dns_registry();
    let requested = scopes(&[("dns:write", "write")]);
    let all = vec![true];
    assert_eq!(decide(None, &requested, &registry, &all), denied(DenialReason::MalformedToken));
    assert_eq!(
        decide(Some(&header(Algorithm::HS256, Some("key-1"))), &requested, &registry, &all),
        denied(DenialReason::UnsupportedAlgorithm)
    );
    assert_eq!(
        decide(Some(&header(Algorithm::RS256, None)), &requested, &registry, &all),
        denied(DenialReason::MissingKeyId)
    );
    assert_eq!(
        decide(Some(&header(Algorithm::RS256, Some("key-2"))), &requested, &registry, &all),
        denied(DenialReason::NoMatchingPolicy)
    );
}

#[test]
fn verified_token_is_granted_the_request() {
    let registry = dns_registry();
    let h = header(Algorithm::RS256, Some("key-1"));
    let requested = scopes(&[("dns:write", "write")]);
    assert_eq!(
        decide(Some(&h), &requested, &registry, &vec![true]),
        AuthorizationDecision::Granted(scopes(&[("dns:write", "write")]))
    );
}

#[test]
fn unverified_token_is_invalid() {
    let registry = dns_registry();
    let h = header(Algorithm::RS256, Some("key-1"));
    let requested = scopes(&[("dns:write", "write")]);
    assert_eq!(decide(Some(&h), &requested, &registry, &vec![false]), denied(DenialReason::InvalidToken));
    assert_eq!(decide(Some(&h), &requested, &registry, &vec![]), denied(DenialReason::InvalidToken));
}

#[test]
fn uncovered_permission_is_named_in_the_denial() {
    let registry = dns_registry();
    let h = header(Algorithm::RS256, Some("key-1"));
    let requested = scopes(&[("dns:write", "write"), ("dns:admin", "read")]);
    assert_eq!(
        decide(Some(&h), &requested, &registry, &vec![true]),
        denied(DenialReason::ScopeNotAllowed("dns:admin".to_string()))
    );
}

#[test]
fn second_policy_decides_where_the_first_does_not_verify() {
    let registry = PolicyRegistry::new(vec![
        enriched("svc-x", "rs256", &[("files", "write")], &["shared"]),
        enriched("svc-a", "rs256", &[("dns:write", "write")], &["shared"]),
    ]);
    let h = header(Algorithm::RS256, Some("shared"));
    let requested = scopes(&[("dns:write", "write")]);
    assert_eq!(
        decide(Some(&h), &requested, &registry, &vec![false, true]),
        AuthorizationDecision::Granted(scopes(&[("dns:write", "write")]))
    );
    assert_eq!(
        decide(Some(&h), &requested, &registry, &vec![true, true]),
        denied(DenialReason::ScopeNotAllowed("dns:write".to_string()))
    );
    assert_eq!(
        decide(Some(&h), &requested, &registry, &vec![true, false]),
        denied(DenialReason::ScopeNotAllowed("dns:write".to_string()))
    );
    assert_eq!(
        decide(Some(&h), &requested, &registry, &vec![false, false]),
        denied(DenialReason::InvalidToken)
    );
}

#[test]
fn policy_of_another_algorithm_never_accepts() {
    let registry = PolicyRegistry::new(vec![enriched("svc-a", "rs384", &[("dns:write", "write")], &["key-1"])]);
    let requested = scopes(&[("dns:write", "write")]);
    let rs256 = header(Algorithm::RS256, Some("key-1"));
    assert_eq!(decide(Some(&rs256), &requested, &registry, &vec![true]), denied(DenialReason::InvalidToken));
    let rs384 = header(Algorithm::RS384, Some("key-1"));
    assert_eq!(
        decide(Some(&rs384), &requested, &registry, &vec![true]),
        AuthorizationDecision::Granted(scopes(&[("dns:write", "write")]))
    );
}

#[test]
fn outcomes_count_for_the_candidates_only() {
    let registry = PolicyRegistry::new(vec![
        enriched("svc-x", "rs256", &[("files", "write")], &["other"]),
        enriched("svc-a", "rs256", &[("dns:write", "write")], &["key-1"]),
    ]);
    let h = header(Algorithm::RS256, Some("key-1"));
    let requested = scopes(&[("dns:write", "write")]);
    assert_eq!(
        decide(Some(&h), &requested, &registry, &vec![true]),
        AuthorizationDecision::Granted(scopes(&[("dns:write", "write")]))
    );
    assert_eq!(
        decide(Some(&h), &requested, &registry, &vec![true, false]),
        AuthorizationDecision::Granted(scopes(&[("dns:write", "write")]))
    );
    assert_eq!(decide(Some(&h), &requested, &registry, &vec![false, true]), denied(DenialReason::InvalidToken));
    assert_eq!(decide(Some(&h), &requested, &registry, &vec![]), denied(DenialReason::InvalidToken));
}

#[test]
fn selection_is_the_first_candidate_that_accepts() {
    let registry = PolicyRegistry::new(vec![
        enriched("p0", "rs256", &[("a", "read")], &["other"]),
        enriched("p1", "rs384", &[("a", "read")], &["k"]),
        enriched("p2", "rs256", &[("a", "read")], &["k"]),
        enriched("p3", "rs256", &[("a", "read")], &["k"]),
    ]);
    let found = registry.find_by_key_id("k");
    let all = vec![true, true, true];
    assert_eq!(select_policy(&found, Algorithm::RS256, &all), Some(1));
    assert_eq!(select_policy(&found, Algorithm::RS384, &all), Some(0));
    assert_eq!(select_policy(&found, Algorithm::RS512, &all), None);
    assert_eq!(select_policy(&found, Algorithm::RS256, &vec![true, false, true]), Some(2));
    assert_eq!(select_policy(&found, Algorithm::RS256, &vec![true, false]), None);
    assert_eq!(select_policy(&found, Algorithm::RS256, &vec![]), None);
    assert_eq!(select_policy(&found, Algorithm::RS384, &vec![false, true, true]), None);
    let other = registry.find_by_key_id("other");
    assert_eq!(select_policy(&other, Algorithm::RS256, &vec![true]), Some(0));
    let none = registry.find_by_key_id("none");
    assert_eq!(select_policy(&none, Algorithm::RS256, &all), None);
}

#[test]
fn scopes_are_judged_entry_by_entry() {
    let policy = enriched("svc", "rs256", &[("files:read", "write"), ("dns", "read")], &["k"]);
    assert_eq!(
        authorize_scopes(&policy, &scopes(&[("files:read", "read"), ("dns", "read")])),
        AuthorizationDecision::Granted(scopes(&[("files:read", "read"), ("dns", "read")]))
    );
    assert_eq!(
        authorize_scopes(&policy, &scopes(&[("files:read", "write")])),
        AuthorizationDecision::Granted(scopes(&[("files:read", "write")]))
    );
    assert_eq!(
        authorize_scopes(&policy, &scopes(&[("files:read", "write"), ("dns", "write"), ("x", "read")])),
        denied(DenialReason::ScopeNotAllowed("dns".to_string()))
    );
    assert_eq!(authorize_scopes(&policy, &ScopeMap::new()), AuthorizationDecision::Granted(ScopeMap::new()));
}

#[test]
fn same_inputs_give_the_same_decision() {
    let registry = dns_registry();
    let h = header(Algorithm::RS256, Some("key-1"));
    let requested = scopes(&[("dns:write", "read")]);
    for outcomes in [vec![], vec![false], vec![true]] {
        assert_eq!(
            decide(Some(&h), &requested, &registry, &outcomes),
            decide(Some(&h), &requested, &registry, &outcomes)
        );
    }
}
