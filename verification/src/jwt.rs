//! The verification primitive: what the broker takes from `jsonwebtoken`.
//!
//! Reading a token's header, finding a key in a key set and checking a
//! signature with its claims are done by that crate. This module declares
//! its types to Verus and states what the broker relies on.

use jsonwebtoken::errors::Error;
use jsonwebtoken::jwk::{Jwk, JwkSet};
use jsonwebtoken::{Algorithm, DecodingKey, Header};
use vstd::prelude::*;

use crate::search::first;

verus! {

/// `jsonwebtoken::Header`; Verus reads its public fields.
#[verifier::external_type_specification]
pub struct ExHeader(jsonwebtoken::Header);

/// `jsonwebtoken::jwk::JwkSet`: a public vector of keys.
#[verifier::external_type_specification]
pub struct ExJwkSet(jsonwebtoken::jwk::JwkSet);

/// `jsonwebtoken::jwk::Jwk`: common parameters and key material.
#[verifier::external_type_specification]
pub struct ExJwk(jsonwebtoken::jwk::Jwk);

/// `jsonwebtoken::jwk::CommonParameters`; the broker reads `key_id` only.
#[verifier::external_type_specification]
pub struct ExCommonParameters(jsonwebtoken::jwk::CommonParameters);

/// `jsonwebtoken::jwk::AlgorithmParameters`, the key material; carried, never read.
#[verifier::external_type_specification]
#[verifier::external_body]
pub struct ExAlgorithmParameters(jsonwebtoken::jwk::AlgorithmParameters);

/// `jsonwebtoken::jwk::PublicKeyUse`; carried, never read.
#[verifier::external_type_specification]
#[verifier::external_body]
pub struct ExPublicKeyUse(jsonwebtoken::jwk::PublicKeyUse);

/// `jsonwebtoken::jwk::KeyOperations`; carried, never read.
#[verifier::external_type_specification]
#[verifier::external_body]
pub struct ExKeyOperations(jsonwebtoken::jwk::KeyOperations);

/// `jsonwebtoken::jwk::KeyAlgorithm`; carried, never read.
#[verifier::external_type_specification]
#[verifier::external_body]
pub struct ExKeyAlgorithm(jsonwebtoken::jwk::KeyAlgorithm);

/// `jsonwebtoken::DecodingKey`, a key made ready for verification.
#[verifier::external_type_specification]
#[verifier::external_body]
pub struct ExDecodingKey(jsonwebtoken::DecodingKey);

/// `jsonwebtoken::errors::Error`; the broker only tells success from failure.
#[verifier::external_type_specification]
#[verifier::external_body]
pub struct ExError(jsonwebtoken::errors::Error);

/// What the broker reads in a token's header.
pub struct HeaderView {
    /// The algorithm that the token asserts.
    pub alg: Algorithm,
    /// The identifier of the key that signed it, if the header names one.
    pub kid: Option<Seq<char>>,
}

/// The part of a decoded header that the broker reads.
pub open spec fn header_view(header: Header) -> HeaderView {
    HeaderView {
        alg: header.alg,
        kid: match header.kid {
            Some(kid) => Some(kid@),
            None => None,
        },
    }
}

/// The header that `jsonwebtoken::decode_header` reads from a token, or
/// `None` where it fails. It depends on the token's text alone.
pub uninterp spec fn decoded_header(token: Seq<char>) -> Option<HeaderView>;

/// `jsonwebtoken::decode_header` splits the token at its dots, decodes the
/// first part from base64 and parses it as JSON, without looking at the
/// signature. The result is named, not spelled out: `decoded_header`.
pub assume_specification[ jsonwebtoken::decode_header ](token: &str) -> (r: Result<Header, Error>)
    ensures
        r matches Ok(header) ==> decoded_header(token@) == Some(header_view(header)),
        r is Err ==> decoded_header(token@) is None,
;

/// The identifier that a key carries.
pub open spec fn key_id(key: Jwk) -> Option<Seq<char>> {
    match key.common.key_id {
        Some(id) => Some(id@),
        None => None,
    }
}

/// Whether the key at a position of `set` carries the identifier `kid`.
pub open spec fn identified(set: JwkSet, kid: Seq<char>) -> spec_fn(int) -> bool {
    |i: int| key_id(set.keys@[i]) == Some(kid)
}

/// The position of the first key of `set` that carries `kid`.
pub open spec fn key_position(set: JwkSet, kid: Seq<char>) -> Option<int> {
    first(set.keys@.len() as int, identified(set, kid))
}

/// `JwkSet::find` walks the keys in order and returns the first whose
/// `key_id` is present and equal to `kid`.
pub assume_specification<'a>[ JwkSet::find ](set: &'a JwkSet, kid: &str) -> (r: Option<&'a Jwk>)
    ensures
        match key_position(*set, kid@) {
            Some(i) => r == Some(&set.keys@[i]),
            None => r is None,
        },
;

/// `DecodingKey::from_jwk` decodes the key material from base64. It fails on
/// material that does not decode; the broker relies on nothing else.
pub assume_specification[ DecodingKey::from_jwk ](jwk: &Jwk) -> (r: Result<DecodingKey, Error>)
;

/// What a token must satisfy besides carrying a valid signature.
pub struct Constraints<'a> {
    /// The one algorithm under which the signature is checked.
    pub algorithm: Algorithm,
    /// The issuers that are accepted.
    pub issuer: &'a Vec<String>,
    /// The subject that the token must name.
    pub subject: &'a String,
    /// Whether the audience claim is checked.
    pub validate_audience: bool,
    /// Whether a token is refused before its not-before time.
    pub validate_not_before: bool,
    /// The claims that the token must carry.
    pub required_claims: Vec<String>,
}

/// `jsonwebtoken::decode` under a `Validation` that holds `constraints` field
/// for field, with the crate's defaults elsewhere (the signature is checked,
/// and so is expiry, with a leeway of 60 seconds). It succeeds only on a
/// token whose signature verifies under `key` and whose claims meet the
/// constraints at the time of the call. Whether it succeeds depends on the
/// clock, so that is not stated. What is stated holds of every success:
/// `decode` reads the header as `decode_header` does, and refuses a token
/// whose header asserts another algorithm than the one it was given.
#[verifier::external_body]
pub(crate) fn verify_token(token: &str, key: &DecodingKey, constraints: &Constraints) -> (r: Result<
    (),
    Error,
>)
    ensures
        r is Ok ==> (decoded_header(token@) matches Some(header) && header.alg
            == constraints.algorithm),
{
    let mut validation = jsonwebtoken::Validation::new(constraints.algorithm);
    validation.validate_aud = constraints.validate_audience;
    validation.validate_nbf = constraints.validate_not_before;
    validation.sub = Some(constraints.subject.clone());
    validation.iss = Some(constraints.issuer.iter().cloned().collect());
    validation.required_spec_claims = constraints.required_claims.iter().cloned().collect();
    match jsonwebtoken::decode::<serde::de::IgnoredAny>(token, key, &validation) {
        Ok(_) => Ok(()),
        Err(e) => Err(e),
    }
}

} // verus!
