//! The algorithm allowlist.

use jsonwebtoken::Algorithm;
use token_broker::algorithm::{is_acceptable, AcceptedAlgorithm, UnsupportedAlgorithm};

const ALL: [Algorithm; 12] = [
    Algorithm::HS256,
    Algorithm::HS384,
    Algorithm::HS512,
    Algorithm::ES256,
    Algorithm::ES384,
    Algorithm::RS256,
    Algorithm::RS384,
    Algorithm::RS512,
    Algorithm::PS256,
    Algorithm::PS384,
    Algorithm::PS512,
    Algorithm::EdDSA,
];

fn accepted(alg: Algorithm) -> bool {
    matches!(alg, Algorithm::RS256 | Algorithm::RS384 | Algorithm::RS512)
}

#[test]
fn allowlist_is_the_three_rsa_pkcs1_algorithms() {
    for alg in ALL {
        assert_eq!(is_acceptable(alg), accepted(alg), "{:?}", alg);
    }
}

#[test]
fn new_admits_exactly_the_allowlist() {
    for alg in ALL {
        match AcceptedAlgorithm::new(alg) {
            Ok(a) => {
                assert!(accepted(alg));
                assert_eq!(a.wrapped(), alg);
            }
            Err(e) => {
                assert!(!accepted(alg));
                assert_eq!(e, UnsupportedAlgorithm);
            }
        }
    }
}

#[test]
fn names_resolve_whatever_their_case() {
    for (name, alg) in [
        ("rs256", Algorithm::RS256),
        ("RS256", Algorithm::RS256),
        ("Rs256", Algorithm::RS256),
        ("rS256", Algorithm::RS256),
        ("rs384", Algorithm::RS384),
        ("RS384", Algorithm::RS384),
        ("rS384", Algorithm::RS384),
        ("rs512", Algorithm::RS512),
        ("RS512", Algorithm::RS512),
        ("Rs512", Algorithm::RS512),
    ] {
        let resolved = AcceptedAlgorithm::normalize(name).map(|a| a.wrapped());
        assert_eq!(resolved, Ok(alg), "{}", name);
        let owned = AcceptedAlgorithm::try_from(name.to_string()).map(|a| a.wrapped());
        assert_eq!(owned, Ok(alg), "{}", name);
    }
}

#[test]
fn other_names_are_unsupported() {
    for name in [
        "", "rs", "rs25", "rs2566", "rs257", "rs385", "rs513", "xs256", "rx256", "es256", "ES256",
        "hs256", "HS512", "ps256", "EdDSA", "none", " rs256", "rs256 ", "r\u{17f}256", "rs\u{662}56",
        "RS-256", "rsa256", "256rs", "\u{212a}s256", "rs256\0",
    ] {
        assert_eq!(
            AcceptedAlgorithm::normalize(name).map(|a| a.wrapped()),
            Err(UnsupportedAlgorithm),
            "{:?}",
            name
        );
        assert_eq!(
            AcceptedAlgorithm::try_from(name.to_string()).map(|a| a.wrapped()),
            Err(UnsupportedAlgorithm),
            "{:?}",
            name
        );
    }
}

#[test]
fn resolution_agrees_with_lower_casing() {
    for name in ["rs256", "RS256", "Rs384", "rS512", "es256", "RS1024", "", "r"] {
        let lower = name.to_lowercase();
        let expected = match lower.as_str() {
            "rs256" => Some(Algorithm::RS256),
            "rs384" => Some(Algorithm::RS384),
            "rs512" => Some(Algorithm::RS512),
            _ => None,
        };
        assert_eq!(AcceptedAlgorithm::normalize(name).ok().map(|a| a.wrapped()), expected);
    }
}

#[test]
fn pinning_accepts_the_very_algorithm_only() {
    for held in [Algorithm::RS256, Algorithm::RS384, Algorithm::RS512] {
        let a = match AcceptedAlgorithm::new(held) {
            Ok(a) => a,
            Err(_) => panic!("refused"),
        };
        for asserted in ALL {
            assert_eq!(a.pins(asserted), held == asserted, "{:?} {:?}", held, asserted);
        }
    }
}
