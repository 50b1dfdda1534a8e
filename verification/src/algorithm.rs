//! The signature algorithms that a policy may name and a token may assert.
//!
//! The set is closed: RS256, RS384 and RS512. The broker only verifies, so it
//! has no use for algorithms that need a secret shared with the issuer.

use jsonwebtoken::Algorithm;
use vstd::prelude::*;

use crate::text::{ascii_lower, ascii_lowercase, same_ignoring_case};

verus! {

/// `jsonwebtoken::Algorithm`, an enum of unit variants that Verus reads as
/// it is declared.
#[verifier::external_type_specification]
pub struct ExAlgorithm(jsonwebtoken::Algorithm);

/// Membership in the allowlist.
pub open spec fn acceptable(alg: Algorithm) -> bool {
    alg == Algorithm::RS256 || alg == Algorithm::RS384 || alg == Algorithm::RS512
}

/// The name of RS256, in lower case.
pub open spec fn rs256_name() -> Seq<char> {
    seq!['r', 's', '2', '5', '6']
}

/// The name of RS384, in lower case.
pub open spec fn rs384_name() -> Seq<char> {
    seq!['r', 's', '3', '8', '4']
}

/// The name of RS512, in lower case.
pub open spec fn rs512_name() -> Seq<char> {
    seq!['r', 's', '5', '1', '2']
}

/// The algorithm that a textual name stands for, letter case aside.
pub open spec fn algorithm_named(name: Seq<char>) -> Option<Algorithm> {
    let lower = ascii_lowercase(name);
    if lower == rs256_name() {
        Some(Algorithm::RS256)
    } else if lower == rs384_name() {
        Some(Algorithm::RS384)
    } else if lower == rs512_name() {
        Some(Algorithm::RS512)
    } else {
        None
    }
}

/// The error of every attempt to use an algorithm outside the allowlist.
#[derive(Clone, Copy, Debug, PartialEq, Eq, Structural)]
pub struct UnsupportedAlgorithm;

/// An algorithm that is known to be on the allowlist.
#[derive(Clone, Copy, Debug)]
pub struct AcceptedAlgorithm(Algorithm);

impl View for AcceptedAlgorithm {
    type V = Algorithm;

    closed spec fn view(&self) -> Algorithm {
        self.0
    }
}

/// Whether `alg` is on the allowlist.
pub fn is_acceptable(alg: Algorithm) -> (r: bool)
    ensures
        r == acceptable(alg),
{
    match alg {
        Algorithm::RS256 => true,
        Algorithm::RS384 => true,
        Algorithm::RS512 => true,
        _ => false,
    }
}

/// Whether `c` is the letter `lower`, in either case.
fn is_letter(c: char, lower: char, upper: char) -> (r: bool)
    requires
        'a' <= lower <= 'z',
        'A' <= upper <= 'Z',
        upper as u8 + 32 == lower as u8,
    ensures
        r == (ascii_lower(c) == lower),
{
    c == lower || c == upper
}

impl AcceptedAlgorithm {
    /// Every value of this type holds an algorithm of the allowlist.
    #[verifier::type_invariant]
    pub closed spec fn wf(self) -> bool {
        acceptable(self.0)
    }

    /// Admits `alg` if it is on the allowlist.
    pub fn new(alg: Algorithm) -> (r: Result<AcceptedAlgorithm, UnsupportedAlgorithm>)
        ensures
            r is Ok <==> acceptable(alg),
            r matches Ok(a) ==> a@ == alg && a.wf(),
    {
        if !is_acceptable(alg) {
            return Err(UnsupportedAlgorithm);
        }
        Ok(AcceptedAlgorithm(alg))
    }

    /// The algorithm held.
    pub fn wrapped(&self) -> (alg: Algorithm)
        ensures
            alg == self@,
            acceptable(alg),
            self.wf(),
    {
        proof {
            use_type_invariant(self);
        }
        self.0
    }

    /// Resolves a textual name, whatever the case of its letters.
    pub fn normalize(name: &str) -> (r: Result<AcceptedAlgorithm, UnsupportedAlgorithm>)
        ensures
            r is Ok <==> algorithm_named(name@) is Some,
            r matches Ok(a) ==> Some(a@) == algorithm_named(name@) && a.wf(),
    {
        if name.unicode_len() != 5 {
            assert(ascii_lowercase(name@).len() != 5);
            return Err(UnsupportedAlgorithm);
        }
        let c0 = name.get_char(0);
        let c1 = name.get_char(1);
        let c2 = name.get_char(2);
        let c3 = name.get_char(3);
        let c4 = name.get_char(4);
        let ghost lower = ascii_lowercase(name@);
        assert(lower[0] == ascii_lower(c0));
        assert(lower[1] == ascii_lower(c1));
        assert(lower[2] == ascii_lower(c2));
        assert(lower[3] == ascii_lower(c3));
        assert(lower[4] == ascii_lower(c4));
        if !(is_letter(c0, 'r', 'R') && is_letter(c1, 's', 'S')) {
            return Err(UnsupportedAlgorithm);
        }
        if c2 == '2' && c3 == '5' && c4 == '6' {
            assert(lower =~= rs256_name());
            AcceptedAlgorithm::new(Algorithm::RS256)
        } else if c2 == '3' && c3 == '8' && c4 == '4' {
            assert(lower =~= rs384_name());
            AcceptedAlgorithm::new(Algorithm::RS384)
        } else if c2 == '5' && c3 == '1' && c4 == '2' {
            assert(lower =~= rs512_name());
            AcceptedAlgorithm::new(Algorithm::RS512)
        } else {
            Err(UnsupportedAlgorithm)
        }
    }

    /// Resolves an owned name; see [`AcceptedAlgorithm::normalize`].
    pub fn try_from(value: String) -> (r: Result<AcceptedAlgorithm, UnsupportedAlgorithm>)
        ensures
            r is Ok <==> algorithm_named(value@) is Some,
            r matches Ok(a) ==> Some(a@) == algorithm_named(value@) && a.wf(),
    {
        AcceptedAlgorithm::normalize(value.as_str())
    }

    /// Whether a token that asserts `asserted` may be checked under this
    /// algorithm: only if it asserts this very algorithm.
    pub fn pins(&self, asserted: Algorithm) -> (r: bool)
        ensures
            r == (self@ == asserted),
    {
        proof {
            use_type_invariant(self);
        }
        match (self.0, asserted) {
            (Algorithm::RS256, Algorithm::RS256) => true,
            (Algorithm::RS384, Algorithm::RS384) => true,
            (Algorithm::RS512, Algorithm::RS512) => true,
            _ => false,
        }
    }
}

/// A name outside the three accepted ones, letter case aside, resolves to
/// nothing.
pub proof fn lemma_foreign_name_rejected(name: Seq<char>)
    requires
        ascii_lowercase(name) != rs256_name(),
        ascii_lowercase(name) != rs384_name(),
        ascii_lowercase(name) != rs512_name(),
    ensures
        algorithm_named(name) is None,
{
}

/// Two names that differ only in letter case resolve alike.
pub proof fn lemma_case_variants_agree(a: Seq<char>, b: Seq<char>)
    requires
        same_ignoring_case(a, b),
    ensures
        algorithm_named(a) == algorithm_named(b),
{
}

/// Whatever resolves is on the allowlist, and each accepted name resolves to
/// the algorithm it spells.
pub proof fn lemma_named_algorithms()
    ensures
        forall|name: Seq<char>| #[trigger]
            algorithm_named(name) matches Some(alg) ==> acceptable(alg),
        algorithm_named(rs256_name()) == Some(Algorithm::RS256),
        algorithm_named(rs384_name()) == Some(Algorithm::RS384),
        algorithm_named(rs512_name()) == Some(Algorithm::RS512),
{
    assert(ascii_lowercase(rs256_name()) =~= rs256_name());
    assert(ascii_lowercase(rs384_name()) =~= rs384_name());
    assert(ascii_lowercase(rs512_name()) =~= rs512_name());
}

} // verus!
