//! Validation of configured policies and their enrichment.

use jsonwebtoken::jwk::{AlgorithmParameters, CommonParameters, Jwk, JwkSet, RSAKeyParameters, RSAKeyType};
use jsonwebtoken::Algorithm;
use token_broker::policy::{LocalPolicy, PolicyError};
use token_broker::scopes::ScopeMap;

fn scopes(pairs: &[(&str, &str)]) -> ScopeMap {
    let mut map = ScopeMap::new();
    for (name, level) in pairs {
        map.insert(name.to_string(), level.to_string());
    }
    map
}

fn sample() -> LocalPolicy {
    LocalPolicy {
        issuer: vec!["https://idp.example".to_string()],
        subject: "svc-a".to_string(),
        algorithm: "rs256".to_string(),
        jwks_url: "https://idp.example/keys".to_string(),
        allowed_scopes: scopes(&[("dns:write", "write")]),
    }
}

fn key(kid: &str) -> Jwk {
    Jwk {
        common: CommonParameters { key_id: Some(kid.to_string()), ..Default::default() },
        algorithm: AlgorithmParameters::RSA(RSAKeyParameters {
            key_type: RSAKeyType::RSA,
            n: "AQAB".to_string(),
            e: "AQAB".to_string(),
        }),
    }
}

fn defect(policy: &LocalPolicy) -> Option<PolicyError> {
    policy.validate().err()
}

#[test]
fn sound_policy_validates_to_its_checked_form() {
    let policy = sample();
    let checked = match policy.validate() {
        Ok(v) => v,
        Err(e) => panic!("refused: {:?}", e),
    };
    assert_eq!(checked.issuer(), &vec!["https://idp.example".to_string()]);
    assert_eq!(checked.subject(), "svc-a");
    assert_eq!(checked.algorithm().wrapped(), Algorithm::RS256);
    assert_eq!(checked.jwks_url(), "https://idp.example/keys");
    assert_eq!(checked.allowed_scopes(), &scopes(&[("dns:write", "write")]));
    assert_eq!(policy, sample());
}

#[test]
fn empty_issuer_set_is_refused() {
    let mut policy = sample();
    policy.issuer = vec![];
    assert_eq!(defect(&policy), Some(PolicyError::NoIssuer));
    assert_eq!(policy.attach_jwks(JwkSet { keys: vec![] }).err(), Some(PolicyError::NoIssuer));
}

#[test]
fn empty_issuer_member_is_refused() {
    let mut policy = sample();
    policy.issuer = vec!["https://idp.example".to_string(), String::new()];
    assert_eq!(defect(&policy), Some(PolicyError::EmptyIssuerEntry));
    policy.issuer = vec![String::new()];
    assert_eq!(defect(&policy), Some(PolicyError::EmptyIssuerEntry));
}

#[test]
fn empty_subject_is_refused() {
    let mut policy = sample();
    policy.subject = String::new();
    assert_eq!(defect(&policy), Some(PolicyError::EmptySubject));
    assert_eq!(policy.attach_jwks(JwkSet { keys: vec![] }).err(), Some(PolicyError::EmptySubject));
}

#[test]
fn unsupported_algorithm_is_refused() {
    for name in ["", "es256", "HS256", "rs1024", "none"] {
        let mut policy = sample();
        policy.algorithm = name.to_string();
        assert_eq!(defect(&policy), Some(PolicyError::UnsupportedAlgorithm), "{}", name);
        assert_eq!(
            policy.attach_jwks(JwkSet { keys: vec![] }).err(),
            Some(PolicyError::UnsupportedAlgorithm)
        );
    }
}

#[test]
fn algorithm_name_is_resolved_whatever_its_case() {
    for (name, alg) in [("RS256", Algorithm::RS256), ("rS384", Algorithm::RS384), ("Rs512", Algorithm::RS512)] {
        let mut policy = sample();
        policy.algorithm = name.to_string();
        assert_eq!(policy.validate().ok().map(|v| v.algorithm().wrapped()), Some(alg));
    }
}

#[test]
fn empty_key_set_location_is_refused() {
    let mut policy = sample();
    policy.jwks_url = String::new();
    assert_eq!(defect(&policy), Some(PolicyError::EmptyKeySetLocation));
    assert_eq!(
        policy.attach_jwks(JwkSet { keys: vec![] }).err(),
        Some(PolicyError::EmptyKeySetLocation)
    );
}

#[test]
fn key_set_location_must_be_a_url() {
    for text in ["not a url", "idp.example/keys", "/keys", "https://", "http://[::1", "://x"] {
        let mut policy = sample();
        policy.jwks_url = text.to_string();
        assert_eq!(defect(&policy), Some(PolicyError::InvalidKeySetLocation), "{}", text);
    }
    for text in ["https://idp.example/keys", "http://localhost:8080/jwks.json", "https://[::1]/k"] {
        let mut policy = sample();
        policy.jwks_url = text.to_string();
        assert_eq!(defect(&policy), None, "{}", text);
    }
}

#[test]
fn empty_grants_are_refused() {
    let mut policy = sample();
    policy.allowed_scopes = ScopeMap::new();
    assert_eq!(defect(&policy), Some(PolicyError::NoGrants));
    assert_eq!(policy.attach_jwks(JwkSet { keys: vec![] }).err(), Some(PolicyError::NoGrants));
}

#[test]
fn grant_with_empty_name_is_refused() {
    let mut policy = sample();
    policy.allowed_scopes = scopes(&[("dns", "read"), ("", "read")]);
    assert_eq!(defect(&policy), Some(PolicyError::EmptyGrantName));
    policy.allowed_scopes = scopes(&[("", "")]);
    assert_eq!(defect(&policy), Some(PolicyError::EmptyGrantName));
}

#[test]
fn grant_with_empty_level_is_refused() {
    let mut policy = sample();
    policy.allowed_scopes = scopes(&[("dns", "read"), ("files", "")]);
    assert_eq!(defect(&policy), Some(PolicyError::EmptyGrantLevel("files".to_string())));
}

#[test]
fn grant_level_must_be_read_or_write() {
    for level in ["admin", "READ", "Write", "read ", "rw", "w"] {
        let mut policy = sample();
        policy.allowed_scopes = scopes(&[("dns", "write"), ("files", level)]);
        assert_eq!(
            defect(&policy),
            Some(PolicyError::InvalidGrantLevel("files".to_string())),
            "{}",
            level
        );
    }
    let mut policy = sample();
    policy.allowed_scopes = scopes(&[("dns", "write"), ("files", "read")]);
    assert_eq!(defect(&policy), None);
}

#[test]
fn first_defective_grant_is_reported() {
    let mut policy = sample();
    policy.allowed_scopes = scopes(&[("a", "read"), ("b", "bogus"), ("c", ""), ("", "read")]);
    assert_eq!(defect(&policy), Some(PolicyError::InvalidGrantLevel("b".to_string())));
}

#[test]
fn defects_are_reported_in_the_order_of_the_checks() {
    let mut policy = LocalPolicy {
        issuer: vec![],
        subject: String::new(),
        algorithm: "none".to_string(),
        jwks_url: String::new(),
        allowed_scopes: ScopeMap::new(),
    };
    assert_eq!(defect(&policy), Some(PolicyError::NoIssuer));
    policy.issuer = vec!["i".to_string()];
    assert_eq!(defect(&policy), Some(PolicyError::UnsupportedAlgorithm));
    policy.algorithm = "RS512".to_string();
    assert_eq!(defect(&policy), Some(PolicyError::EmptySubject));
    policy.subject = "s".to_string();
    assert_eq!(defect(&policy), Some(PolicyError::EmptyKeySetLocation));
    policy.jwks_url = "nonsense".to_string();
    assert_eq!(defect(&policy), Some(PolicyError::InvalidKeySetLocation));
    policy.jwks_url = "https://k.example".to_string();
    assert_eq!(defect(&policy), Some(PolicyError::NoGrants));
    policy.allowed_scopes = scopes(&[("p", "read")]);
    assert_eq!(defect(&policy), None);
}

#[test]
fn enrichment_attaches_the_key_set() {
    let jwks = JwkSet { keys: vec![key("k1"), key("k2")] };
    let enriched = match sample().attach_jwks(jwks.clone()) {
        Ok(p) => p,
        Err(e) => panic!("refused: {:?}", e),
    };
    assert_eq!(enriched.issuer(), &vec!["https://idp.example".to_string()]);
    assert_eq!(enriched.subject(), "svc-a");
    assert_eq!(enriched.algorithm().wrapped(), Algorithm::RS256);
    assert_eq!(enriched.jwks(), &jwks);
    assert_eq!(enriched.allowed_scopes(), &scopes(&[("dns:write", "write")]));
}

#[test]
fn checked_policy_attaches_without_a_second_check() {
    let checked = match sample().validate() {
        Ok(v) => v,
        Err(e) => panic!("refused: {:?}", e),
    };
    let jwks = JwkSet { keys: vec![key("k1")] };
    let enriched = checked.attach_jwks(jwks.clone());
    assert_eq!(enriched.jwks(), &jwks);
    assert_eq!(enriched.subject(), "svc-a");
}

#[test]
fn enriched_policy_judges_scopes() {
    let mut policy = sample();
    policy.allowed_scopes = scopes(&[("files:read", "write"), ("dns", "read")]);
    let enriched = match policy.attach_jwks(JwkSet { keys: vec![] }) {
        Ok(p) => p,
        Err(e) => panic!("refused: {:?}", e),
    };
    assert!(enriched.check_scope_allowed("files:read", "read"));
    assert!(enriched.check_scope_allowed("files:read", "write"));
    assert!(enriched.check_scope_allowed("dns", "read"));
    assert!(!enriched.check_scope_allowed("dns", "write"));
    assert!(!enriched.check_scope_allowed("mail", "read"));
    assert!(!enriched.check_scope_allowed("dns", "admin"));
}

#[test]
fn constraints_state_what_a_token_must_meet() {
    let mut policy = sample();
    policy.issuer = vec!["https://a.example".to_string(), "https://b.example".to_string()];
    policy.algorithm = "RS384".to_string();
    let enriched = match policy.attach_jwks(JwkSet { keys: vec![] }) {
        Ok(p) => p,
        Err(e) => panic!("refused: {:?}", e),
    };
    let c = enriched.constraints();
    assert_eq!(c.algorithm, Algorithm::RS384);
    assert_eq!(c.issuer, &vec!["https://a.example".to_string(), "https://b.example".to_string()]);
    assert_eq!(c.subject, "svc-a");
    assert!(!c.validate_audience);
    assert!(c.validate_not_before);
    assert_eq!(c.required_claims, vec!["exp".to_string(), "iss".to_string(), "sub".to_string()]);
}

#[test]
fn sound_policy_has_no_defects() {
    assert_eq!(sample().defects(), vec![]);
}

#[test]
fn every_defect_is_reported_in_the_order_of_the_checks() {
    let policy = LocalPolicy {
        issuer: vec![],
        subject: String::new(),
        algorithm: "hs256".to_string(),
        jwks_url: String::new(),
        allowed_scopes: ScopeMap::new(),
    };
    assert_eq!(
        policy.defects(),
        vec![
            PolicyError::NoIssuer,
            PolicyError::UnsupportedAlgorithm,
            PolicyError::EmptySubject,
            PolicyError::EmptyKeySetLocation,
            PolicyError::NoGrants,
        ]
    );
    assert_eq!(policy.validate().err(), Some(PolicyError::NoIssuer));
}

#[test]
fn every_defective_grant_is_reported() {
    let mut policy = sample();
    policy.issuer = vec!["a".to_string(), String::new(), String::new()];
    policy.jwks_url = "no url".to_string();
    policy.allowed_scopes =
        scopes(&[("a", "read"), ("b", "bogus"), ("c", ""), ("", "read"), ("d", "write"), ("e", "Read")]);
    assert_eq!(
        policy.defects(),
        vec![
            PolicyError::EmptyIssuerEntry,
            PolicyError::InvalidKeySetLocation,
            PolicyError::InvalidGrantLevel("b".to_string()),
            PolicyError::EmptyGrantLevel("c".to_string()),
            PolicyError::EmptyGrantName,
            PolicyError::InvalidGrantLevel("e".to_string()),
        ]
    );
    assert_eq!(policy.validate().err(), Some(PolicyError::EmptyIssuerEntry));
}

#[test]
fn validation_reports_the_first_of_all_defects() {
    let mut a = sample();
    a.subject = String::new();
    a.allowed_scopes = scopes(&[("x", "")]);
    let mut b = sample();
    b.allowed_scopes = scopes(&[("x", "read"), ("y", "nope")]);
    let mut c = sample();
    c.algorithm = "RS999".to_string();
    c.jwks_url = String::new();
    for policy in [a, b, c, sample()] {
        assert_eq!(policy.validate().err(), policy.defects().into_iter().next());
    }
}
