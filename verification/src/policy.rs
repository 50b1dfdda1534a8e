//! Trust policies: as they are configured, once they are checked, and once
//! their verification keys are attached.

use jsonwebtoken::jwk::JwkSet;
use jsonwebtoken::Algorithm;
use vstd::prelude::*;

use crate::algorithm::{acceptable, algorithm_named, lemma_named_algorithms, AcceptedAlgorithm};
use crate::jwt::Constraints;
use crate::scopes::{read_word, scope_allowed, write_word, ScopeMap, ScopeSeq};
use crate::search::{first, lemma_first, lemma_first_at, lemma_first_none};
use crate::text::same_text;

verus! {

/// Whether `reqwest::Url::parse` accepts a text. It depends on the text
/// alone.
pub uninterp spec fn url_parses(text: Seq<char>) -> bool;

/// `reqwest::Url::parse`, asked only whether it succeeds. The URL grammar is
/// the parser's; its verdict is named, not spelled out: `url_parses`.
#[verifier::external_body]
fn parses_as_url(text: &str) -> (r: bool)
    ensures
        r == url_parses(text@),
{
    reqwest::Url::parse(text).is_ok()
}

/// The texts that a vector of strings holds.
pub open spec fn texts(v: Seq<String>) -> Seq<Seq<char>> {
    Seq::new(v.len(), |i: int| v[i]@)
}

/// What is wrong with a policy.
pub enum Defect {
    /// No issuer is named.
    NoIssuer,
    /// An issuer is the empty text.
    EmptyIssuerEntry,
    /// The algorithm is not on the allowlist.
    UnsupportedAlgorithm,
    /// The subject is the empty text.
    EmptySubject,
    /// The key-set location is the empty text.
    EmptyKeySetLocation,
    /// The key-set location is no URL.
    InvalidKeySetLocation,
    /// Nothing is granted.
    NoGrants,
    /// A grant has the empty text for its name.
    EmptyGrantName,
    /// The named grant has the empty text for its level.
    EmptyGrantLevel(Seq<char>),
    /// The named grant has a level other than `read` and `write`.
    InvalidGrantLevel(Seq<char>),
}

/// The reason for which a policy is refused.
#[derive(Clone, Debug, PartialEq, Eq)]
pub enum PolicyError {
    /// No issuer is named.
    NoIssuer,
    /// An issuer is the empty text.
    EmptyIssuerEntry,
    /// The algorithm is not on the allowlist.
    UnsupportedAlgorithm,
    /// The subject is the empty text.
    EmptySubject,
    /// The key-set location is the empty text.
    EmptyKeySetLocation,
    /// The key-set location is no URL.
    InvalidKeySetLocation,
    /// Nothing is granted.
    NoGrants,
    /// A grant has the empty text for its name.
    EmptyGrantName,
    /// The named grant has the empty text for its level.
    EmptyGrantLevel(String),
    /// The named grant has a level other than `read` and `write`.
    InvalidGrantLevel(String),
}

impl View for PolicyError {
    type V = Defect;

    open spec fn view(&self) -> Defect {
        match self {
            PolicyError::NoIssuer => Defect::NoIssuer,
            PolicyError::EmptyIssuerEntry => Defect::EmptyIssuerEntry,
            PolicyError::UnsupportedAlgorithm => Defect::UnsupportedAlgorithm,
            PolicyError::EmptySubject => Defect::EmptySubject,
            PolicyError::EmptyKeySetLocation => Defect::EmptyKeySetLocation,
            PolicyError::InvalidKeySetLocation => Defect::InvalidKeySetLocation,
            PolicyError::NoGrants => Defect::NoGrants,
            PolicyError::EmptyGrantName => Defect::EmptyGrantName,
            PolicyError::EmptyGrantLevel(name) => Defect::EmptyGrantLevel(name@),
            PolicyError::InvalidGrantLevel(name) => Defect::InvalidGrantLevel(name@),
        }
    }
}

/// A policy as it is configured, before any check.
#[derive(Clone, Debug, PartialEq, Eq)]
pub struct LocalPolicy {
    /// The issuers whose tokens the policy accepts.
    pub issuer: Vec<String>,
    /// The subject that a token must name.
    pub subject: String,
    /// The name of the signature algorithm.
    pub algorithm: String,
    /// Where the issuer publishes its verification keys.
    pub jwks_url: String,
    /// The permissions that the policy grants, each with its level.
    pub allowed_scopes: ScopeMap,
}

/// What a configured policy says.
pub struct LocalPolicyView {
    pub issuer: Seq<Seq<char>>,
    pub subject: Seq<char>,
    pub algorithm: Seq<char>,
    pub jwks_url: Seq<char>,
    pub allowed_scopes: ScopeSeq,
}

impl View for LocalPolicy {
    type V = LocalPolicyView;

    open spec fn view(&self) -> LocalPolicyView {
        LocalPolicyView {
            issuer: texts(self.issuer@),
            subject: self.subject@,
            algorithm: self.algorithm@,
            jwks_url: self.jwks_url@,
            allowed_scopes: self.allowed_scopes@,
        }
    }
}

/// Whether the issuer at a position is the empty text.
pub open spec fn empty_issuer(p: LocalPolicyView) -> spec_fn(int) -> bool {
    |i: int| p.issuer[i].len() == 0
}

/// The defect of the issuer set: it is empty, or it has an empty member.
pub open spec fn issuer_defect(p: LocalPolicyView) -> Option<Defect> {
    if p.issuer.len() == 0 {
        Some(Defect::NoIssuer)
    } else if first(p.issuer.len() as int, empty_issuer(p)) is Some {
        Some(Defect::EmptyIssuerEntry)
    } else {
        None
    }
}

/// The defect of the algorithm: its name resolves to nothing.
pub open spec fn algorithm_defect(p: LocalPolicyView) -> Option<Defect> {
    if algorithm_named(p.algorithm) is None {
        Some(Defect::UnsupportedAlgorithm)
    } else {
        None
    }
}

/// The defect of the subject: it is empty.
pub open spec fn subject_defect(p: LocalPolicyView) -> Option<Defect> {
    if p.subject.len() == 0 {
        Some(Defect::EmptySubject)
    } else {
        None
    }
}

/// The defect of the key-set location: it is empty, or it is no URL.
pub open spec fn location_defect(p: LocalPolicyView) -> Option<Defect> {
    if p.jwks_url.len() == 0 {
        Some(Defect::EmptyKeySetLocation)
    } else if !url_parses(p.jwks_url) {
        Some(Defect::InvalidKeySetLocation)
    } else {
        None
    }
}

/// The defect of one grant: an empty name, an empty level, or a level that
/// is neither `read` nor `write`.
pub open spec fn grant_defect(grant: (Seq<char>, Seq<char>)) -> Option<Defect> {
    if grant.0.len() == 0 {
        Some(Defect::EmptyGrantName)
    } else if grant.1.len() == 0 {
        Some(Defect::EmptyGrantLevel(grant.0))
    } else if grant.1 != read_word() && grant.1 != write_word() {
        Some(Defect::InvalidGrantLevel(grant.0))
    } else {
        None
    }
}

/// Whether the grant at a position has a defect.
pub open spec fn defective_grant(p: LocalPolicyView) -> spec_fn(int) -> bool {
    |i: int| grant_defect(p.allowed_scopes[i]) is Some
}

/// The defect of the grants: there are none, or else that of the first
/// grant that has one.
pub open spec fn grants_defect(p: LocalPolicyView) -> Option<Defect> {
    if p.allowed_scopes.len() == 0 {
        Some(Defect::NoGrants)
    } else {
        match first(p.allowed_scopes.len() as int, defective_grant(p)) {
            Some(i) => grant_defect(p.allowed_scopes[i]),
            None => None,
        }
    }
}

/// The defect that validation reports: the first found when the issuer
/// set, the algorithm, the subject, the key-set location and the grants are
/// checked in this order.
pub open spec fn first_defect(p: LocalPolicyView) -> Option<Defect> {
    if issuer_defect(p) is Some {
        issuer_defect(p)
    } else if algorithm_defect(p) is Some {
        algorithm_defect(p)
    } else if subject_defect(p) is Some {
        subject_defect(p)
    } else if location_defect(p) is Some {
        location_defect(p)
    } else {
        grants_defect(p)
    }
}

/// A sequence of one defect, or of none.
pub open spec fn defect_seq(defect: Option<Defect>) -> Seq<Defect> {
    match defect {
        Some(d) => seq![d],
        None => Seq::empty(),
    }
}

/// The defects of the first `n` grants, in their order.
pub open spec fn grant_defects_below(p: LocalPolicyView, n: int) -> Seq<Defect>
    decreases n,
{
    if n <= 0 {
        Seq::empty()
    } else {
        grant_defects_below(p, n - 1) + defect_seq(grant_defect(p.allowed_scopes[n - 1]))
    }
}

/// Every defect of the grants: that there are none, or else the defect of
/// each grant that has one.
pub open spec fn all_grant_defects(p: LocalPolicyView) -> Seq<Defect> {
    if p.allowed_scopes.len() == 0 {
        seq![Defect::NoGrants]
    } else {
        grant_defects_below(p, p.allowed_scopes.len() as int)
    }
}

/// Every defect of a policy, in the order in which validation looks for
/// them.
pub open spec fn all_defects(p: LocalPolicyView) -> Seq<Defect> {
    defect_seq(issuer_defect(p)) + defect_seq(algorithm_defect(p)) + defect_seq(subject_defect(p))
        + defect_seq(location_defect(p)) + all_grant_defects(p)
}

/// The defects that a vector of errors reports.
pub open spec fn reported(errors: Seq<PolicyError>) -> Seq<Defect> {
    Seq::new(errors.len(), |i: int| errors[i]@)
}

/// What a policy says once it has passed every check.
pub struct ValidatedPolicyView {
    pub issuer: Seq<Seq<char>>,
    pub subject: Seq<char>,
    pub algorithm: Algorithm,
    pub jwks_url: Seq<char>,
    pub grants: ScopeSeq,
}

/// The checked form of a configured policy that has no defect.
pub open spec fn validated(p: LocalPolicyView) -> ValidatedPolicyView {
    ValidatedPolicyView {
        issuer: p.issuer,
        subject: p.subject,
        algorithm: algorithm_named(p.algorithm)->0,
        jwks_url: p.jwks_url,
        grants: p.allowed_scopes,
    }
}

/// What every checked policy satisfies.
pub open spec fn well_formed(v: ValidatedPolicyView) -> bool {
    &&& v.issuer.len() > 0
    &&& forall|i: int| 0 <= i < v.issuer.len() ==> (#[trigger] v.issuer[i]).len() > 0
    &&& v.subject.len() > 0
    &&& acceptable(v.algorithm)
    &&& v.jwks_url.len() > 0
    &&& url_parses(v.jwks_url)
    &&& v.grants.len() > 0
    &&& forall|i: int| 0 <= i < v.grants.len() ==> grant_defect(#[trigger] v.grants[i]) is None
}

/// A policy that has passed every check.
#[derive(Debug)]
pub struct ValidatedPolicy {
    issuer: Vec<String>,
    subject: String,
    algorithm: AcceptedAlgorithm,
    jwks_url: String,
    allowed_scopes: ScopeMap,
}

impl View for ValidatedPolicy {
    type V = ValidatedPolicyView;

    closed spec fn view(&self) -> ValidatedPolicyView {
        ValidatedPolicyView {
            issuer: texts(self.issuer@),
            subject: self.subject@,
            algorithm: self.algorithm@,
            jwks_url: self.jwks_url@,
            grants: self.allowed_scopes@,
        }
    }
}

/// What a policy says once its verification keys are attached.
pub struct EnrichedPolicyView {
    pub issuer: Seq<Seq<char>>,
    pub subject: Seq<char>,
    pub algorithm: Algorithm,
    pub jwks: JwkSet,
    pub grants: ScopeSeq,
}

/// A checked policy together with a key set.
pub open spec fn enriched(v: ValidatedPolicyView, jwks: JwkSet) -> EnrichedPolicyView {
    EnrichedPolicyView {
        issuer: v.issuer,
        subject: v.subject,
        algorithm: v.algorithm,
        jwks: jwks,
        grants: v.grants,
    }
}

/// What every policy satisfies that was enriched from a checked one.
pub open spec fn sound(e: EnrichedPolicyView) -> bool {
    &&& e.issuer.len() > 0
    &&& forall|i: int| 0 <= i < e.issuer.len() ==> (#[trigger] e.issuer[i]).len() > 0
    &&& e.subject.len() > 0
    &&& acceptable(e.algorithm)
    &&& e.grants.len() > 0
    &&& forall|i: int| 0 <= i < e.grants.len() ==> grant_defect(#[trigger] e.grants[i]) is None
}

/// The claims that a token must carry: its expiry, its issuer and its
/// subject.
pub open spec fn required_claims() -> Seq<Seq<char>> {
    seq![seq!['e', 'x', 'p'], seq!['i', 's', 's'], seq!['s', 'u', 'b']]
}

/// A policy with its verification keys: what a token is judged against.
#[derive(Debug)]
pub struct PolicyWithJWKS {
    issuer: Vec<String>,
    subject: String,
    algorithm: AcceptedAlgorithm,
    jwks: JwkSet,
    allowed_scopes: ScopeMap,
}

impl View for PolicyWithJWKS {
    type V = EnrichedPolicyView;

    closed spec fn view(&self) -> EnrichedPolicyView {
        EnrichedPolicyView {
            issuer: texts(self.issuer@),
            subject: self.subject@,
            algorithm: self.algorithm@,
            jwks: self.jwks,
            grants: self.allowed_scopes@,
        }
    }
}

/// A copy of a vector of strings.
fn copy_texts(v: &Vec<String>) -> (r: Vec<String>)
    ensures
        texts(r@) == texts(v@),
{
    let mut r: Vec<String> = Vec::new();
    let n = v.len();
    let mut i: usize = 0;
    while i < n
        invariant
            n == v@.len(),
            i <= n,
            r@.len() == i,
            forall|k: int| 0 <= k < i ==> (#[trigger] r@[k])@ == v@[k]@,
        decreases n - i,
    {
        r.push(v[i].clone());
        i = i + 1;
    }
    assert(texts(r@) =~= texts(v@));
    r
}

impl LocalPolicy {
    /// Checks the issuer set.
    fn validate_iss(&self) -> (r: Result<(), PolicyError>)
        ensures
            match issuer_defect(self@) {
                Some(d) => r matches Err(e) && e@ == d,
                None => r is Ok,
            },
    {
        let n = self.issuer.len();
        if n == 0 {
            return Err(PolicyError::NoIssuer);
        }
        let mut i: usize = 0;
        while i < n
            invariant
                n == self@.issuer.len(),
                n == self.issuer@.len(),
                i <= n,
                forall|k: int| 0 <= k < i ==> !#[trigger] empty_issuer(self@)(k),
            decreases n - i,
        {
            if self.issuer[i].as_str().is_empty() {
                proof {
                    assert(empty_issuer(self@)(i as int));
                    lemma_first_at(n as int, empty_issuer(self@), i as int);
                }
                return Err(PolicyError::EmptyIssuerEntry);
            }
            assert(!empty_issuer(self@)(i as int));
            i = i + 1;
        }
        proof {
            lemma_first_none(n as int, empty_issuer(self@));
        }
        Ok(())
    }

    /// Checks the subject.
    fn validate_sub(&self) -> (r: Result<(), PolicyError>)
        ensures
            match subject_defect(self@) {
                Some(d) => r matches Err(e) && e@ == d,
                None => r is Ok,
            },
    {
        if self.subject.as_str().is_empty() {
            return Err(PolicyError::EmptySubject);
        }
        Ok(())
    }

    /// Checks the algorithm, and resolves it.
    fn validate_alg(&self) -> (r: Result<AcceptedAlgorithm, PolicyError>)
        ensures
            match algorithm_defect(self@) {
                Some(d) => r matches Err(e) && e@ == d,
                None => r matches Ok(a) && Some(a@) == algorithm_named(self@.algorithm),
            },
    {
        match AcceptedAlgorithm::normalize(self.algorithm.as_str()) {
            Ok(a) => Ok(a),
            Err(_) => Err(PolicyError::UnsupportedAlgorithm),
        }
    }

    /// Checks the key-set location.
    fn validate_jwks_url(&self) -> (r: Result<(), PolicyError>)
        ensures
            match location_defect(self@) {
                Some(d) => r matches Err(e) && e@ == d,
                None => r is Ok,
            },
    {
        if self.jwks_url.as_str().is_empty() {
            return Err(PolicyError::EmptyKeySetLocation);
        }
        if !parses_as_url(self.jwks_url.as_str()) {
            return Err(PolicyError::InvalidKeySetLocation);
        }
        Ok(())
    }

    /// Checks the grants, up to the first that has a defect.
    fn validate_allowed_scopes(&self) -> (r: Result<(), PolicyError>)
        ensures
            match grants_defect(self@) {
                Some(d) => r matches Err(e) && e@ == d,
                None => r is Ok,
            },
    {
        let n = self.allowed_scopes.len();
        if n == 0 {
            return Err(PolicyError::NoGrants);
        }
        let mut i: usize = 0;
        while i < n
            invariant
                n == self@.allowed_scopes.len(),
                i <= n,
                forall|k: int| 0 <= k < i ==> !#[trigger] defective_grant(self@)(k),
            decreases n - i,
        {
            let name = self.allowed_scopes.name_at(i);
            let level = self.allowed_scopes.level_at(i);
            match LocalPolicy::grant_error(name, level) {
                Some(e) => {
                    proof {
                        assert(defective_grant(self@)(i as int));
                        lemma_first_at(n as int, defective_grant(self@), i as int);
                    }
                    return Err(e);
                },
                None => {
                    assert(!defective_grant(self@)(i as int));
                },
            }
            i = i + 1;
        }
        proof {
            lemma_first_none(n as int, defective_grant(self@));
        }
        Ok(())
    }

    /// Checks one grant.
    fn grant_error(name: &str, level: &str) -> (r: Option<PolicyError>)
        ensures
            match grant_defect((name@, level@)) {
                Some(d) => r matches Some(e) && e@ == d,
                None => r is None,
            },
    {
        proof {
            reveal_strlit("read");
            reveal_strlit("write");
        }
        assert("read"@ =~= read_word());
        assert("write"@ =~= write_word());
        if name.is_empty() {
            Some(PolicyError::EmptyGrantName)
        } else if level.is_empty() {
            Some(PolicyError::EmptyGrantLevel(name.to_owned()))
        } else if !same_text(level, "read") && !same_text(level, "write") {
            Some(PolicyError::InvalidGrantLevel(name.to_owned()))
        } else {
            None
        }
    }

    /// Every defect of the policy, in the order issuer set, algorithm,
    /// subject, key-set location, grants. The first of them is the one that
    /// `validate` reports.
    pub fn defects(&self) -> (r: Vec<PolicyError>)
        ensures
            reported(r@) == all_defects(self@),
    {
        let mut found: Vec<PolicyError> = Vec::new();
        match self.validate_iss() {
            Err(e) => {
                found.push(e);
            },
            Ok(_) => {},
        }
        assert(reported(found@) =~= defect_seq(issuer_defect(self@)));
        match self.validate_alg() {
            Err(e) => {
                found.push(e);
            },
            Ok(_) => {},
        }
        assert(reported(found@) =~= defect_seq(issuer_defect(self@)) + defect_seq(
            algorithm_defect(self@),
        ));
        match self.validate_sub() {
            Err(e) => {
                found.push(e);
            },
            Ok(_) => {},
        }
        assert(reported(found@) =~= defect_seq(issuer_defect(self@)) + defect_seq(
            algorithm_defect(self@),
        ) + defect_seq(subject_defect(self@)));
        match self.validate_jwks_url() {
            Err(e) => {
                found.push(e);
            },
            Ok(_) => {},
        }
        let ghost head = defect_seq(issuer_defect(self@)) + defect_seq(algorithm_defect(self@))
            + defect_seq(subject_defect(self@)) + defect_seq(location_defect(self@));
        assert(reported(found@) =~= head);
        let n = self.allowed_scopes.len();
        if n == 0 {
            found.push(PolicyError::NoGrants);
            assert(reported(found@) =~= head + seq![Defect::NoGrants]);
            return found;
        }
        let mut i: usize = 0;
        while i < n
            invariant
                n == self@.allowed_scopes.len(),
                i <= n,
                head == defect_seq(issuer_defect(self@)) + defect_seq(algorithm_defect(self@))
                    + defect_seq(subject_defect(self@)) + defect_seq(location_defect(self@)),
                reported(found@) == head + grant_defects_below(self@, i as int),
            decreases n - i,
        {
            let ghost before = reported(found@);
            match LocalPolicy::grant_error(
                self.allowed_scopes.name_at(i),
                self.allowed_scopes.level_at(i),
            ) {
                Some(e) => {
                    found.push(e);
                    assert(reported(found@) =~= before + seq![e@]);
                },
                None => {
                    assert(reported(found@) =~= before + Seq::<Defect>::empty());
                },
            }
            assert(reported(found@) =~= head + grant_defects_below(self@, i as int + 1));
            i = i + 1;
        }
        found
    }

    /// Checks the policy and gives its checked form, or the first defect in
    /// the order issuer set, algorithm, subject, key-set location, grants.
    pub fn validate(&self) -> (r: Result<ValidatedPolicy, PolicyError>)
        ensures
            match first_defect(self@) {
                Some(d) => r matches Err(e) && e@ == d,
                None => r matches Ok(v) && v@ == validated(self@) && well_formed(v@),
            },
    {
        match self.validate_iss() {
            Err(e) => {
                return Err(e);
            },
            Ok(_) => {},
        }
        let algorithm = match self.validate_alg() {
            Err(e) => {
                return Err(e);
            },
            Ok(a) => a,
        };
        match self.validate_sub() {
            Err(e) => {
                return Err(e);
            },
            Ok(_) => {},
        }
        match self.validate_jwks_url() {
            Err(e) => {
                return Err(e);
            },
            Ok(_) => {},
        }
        match self.validate_allowed_scopes() {
            Err(e) => {
                return Err(e);
            },
            Ok(_) => {},
        }
        let v = ValidatedPolicy {
            issuer: copy_texts(&self.issuer),
            subject: self.subject.clone(),
            algorithm,
            jwks_url: self.jwks_url.clone(),
            allowed_scopes: self.allowed_scopes.clone(),
        };
        proof {
            lemma_no_defect_well_formed(self@);
        }
        Ok(v)
    }

    /// Checks the policy and attaches the key set fetched for it. A policy
    /// with a defect is refused with that defect and never enriched.
    pub fn attach_jwks(self, jwks: JwkSet) -> (r: Result<PolicyWithJWKS, PolicyError>)
        ensures
            match first_defect(self@) {
                Some(d) => r matches Err(e) && e@ == d,
                None => r matches Ok(p) && p@ == enriched(validated(self@), jwks) && sound(p@),
            },
    {
        match self.validate() {
            Err(e) => Err(e),
            Ok(v) => Ok(v.attach_jwks(jwks)),
        }
    }
}

/// A policy without a defect has a well-formed checked form.
pub proof fn lemma_no_defect_well_formed(p: LocalPolicyView)
    requires
        first_defect(p) is None,
    ensures
        well_formed(validated(p)),
{
    let v = validated(p);
    lemma_first(p.issuer.len() as int, empty_issuer(p));
    lemma_first(p.allowed_scopes.len() as int, defective_grant(p));
    lemma_named_algorithms();
    assert forall|i: int| 0 <= i < v.issuer.len() implies (#[trigger] v.issuer[i]).len() > 0 by {
        assert(!empty_issuer(p)(i));
    }
    assert forall|i: int| 0 <= i < v.grants.len() implies grant_defect(#[trigger] v.grants[i])
        is None by {
        assert(!defective_grant(p)(i));
    }
}

/// The defects of the first `n` grants begin with the defect of the first
/// defective grant among them, and there are none where no grant among
/// them is defective.
proof fn lemma_grant_defects_head(p: LocalPolicyView, n: int)
    requires
        0 <= n <= p.allowed_scopes.len(),
    ensures
        match first(n, defective_grant(p)) {
            Some(i) => grant_defects_below(p, n).len() > 0 && grant_defects_below(p, n)[0]
                == grant_defect(p.allowed_scopes[i])->0,
            None => grant_defects_below(p, n).len() == 0,
        },
    decreases n,
{
    lemma_first(n, defective_grant(p));
    if n > 0 {
        lemma_grant_defects_head(p, n - 1);
        lemma_first(n - 1, defective_grant(p));
        match first(n - 1, defective_grant(p)) {
            Some(i) => {
                lemma_first_at(n, defective_grant(p), i);
            },
            None => {
                if defective_grant(p)(n - 1) {
                    lemma_first_at(n, defective_grant(p), n - 1);
                } else {
                    assert forall|k: int| 0 <= k < n implies !#[trigger] defective_grant(p)(k) by {
                        if k < n - 1 {
                        }
                    }
                    lemma_first_none(n, defective_grant(p));
                }
            },
        }
    }
}

/// Validation reports the first of all defects, and succeeds exactly where
/// there is none.
pub proof fn lemma_first_of_all_defects(p: LocalPolicyView)
    ensures
        first_defect(p) == if all_defects(p).len() > 0 {
            Some(all_defects(p)[0])
        } else {
            None::<Defect>
        },
{
    lemma_grant_defects_head(p, p.allowed_scopes.len() as int);
}

/// A policy whose issuer set, subject, key-set location or grants are empty
/// has a defect.
pub proof fn lemma_empty_field_is_defect(p: LocalPolicyView)
    requires
        p.issuer.len() == 0 || p.subject.len() == 0 || p.jwks_url.len() == 0
            || p.allowed_scopes.len() == 0,
    ensures
        first_defect(p) is Some,
{
}

impl ValidatedPolicy {
    /// The issuers whose tokens the policy accepts.
    pub fn issuer(&self) -> (r: &Vec<String>)
        ensures
            texts(r@) == self@.issuer,
    {
        &self.issuer
    }

    /// The subject that a token must name.
    pub fn subject(&self) -> (r: &str)
        ensures
            r@ == self@.subject,
    {
        self.subject.as_str()
    }

    /// The signature algorithm.
    pub fn algorithm(&self) -> (r: AcceptedAlgorithm)
        ensures
            r@ == self@.algorithm,
    {
        self.algorithm
    }

    /// Where the issuer publishes its verification keys.
    pub fn jwks_url(&self) -> (r: &str)
        ensures
            r@ == self@.jwks_url,
    {
        self.jwks_url.as_str()
    }

    /// The permissions that the policy grants.
    pub fn allowed_scopes(&self) -> (r: &ScopeMap)
        ensures
            r@ == self@.grants,
    {
        &self.allowed_scopes
    }

    /// Attaches the key set fetched from the policy's key-set location.
    pub fn attach_jwks(self, jwks: JwkSet) -> (r: PolicyWithJWKS)
        ensures
            r@ == enriched(self@, jwks),
    {
        PolicyWithJWKS {
            issuer: self.issuer,
            subject: self.subject,
            algorithm: self.algorithm,
            jwks,
            allowed_scopes: self.allowed_scopes,
        }
    }
}

impl PolicyWithJWKS {
    /// The issuers whose tokens the policy accepts.
    pub fn issuer(&self) -> (r: &Vec<String>)
        ensures
            texts(r@) == self@.issuer,
    {
        &self.issuer
    }

    /// The subject that a token must name.
    pub fn subject(&self) -> (r: &str)
        ensures
            r@ == self@.subject,
    {
        self.subject.as_str()
    }

    /// The signature algorithm.
    pub fn algorithm(&self) -> (r: AcceptedAlgorithm)
        ensures
            r@ == self@.algorithm,
    {
        self.algorithm
    }

    /// The verification keys.
    pub fn jwks(&self) -> (r: &JwkSet)
        ensures
            *r == self@.jwks,
    {
        &self.jwks
    }

    /// The permissions that the policy grants.
    pub fn allowed_scopes(&self) -> (r: &ScopeMap)
        ensures
            r@ == self@.grants,
    {
        &self.allowed_scopes
    }

    /// What a token must satisfy to be accepted under this policy: signed
    /// under the policy's algorithm, issued by one of its issuers for its
    /// subject, neither expired nor used before its time, with the audience
    /// left unchecked.
    pub fn constraints(&self) -> (c: Constraints<'_>)
        ensures
            c.algorithm == self@.algorithm,
            acceptable(c.algorithm),
            texts(c.issuer@) == self@.issuer,
            c.subject@ == self@.subject,
            !c.validate_audience,
            c.validate_not_before,
            texts(c.required_claims@) == required_claims(),
    {
        proof {
            reveal_strlit("exp");
            reveal_strlit("iss");
            reveal_strlit("sub");
        }
        let mut claims: Vec<String> = Vec::new();
        claims.push("exp".to_owned());
        claims.push("iss".to_owned());
        claims.push("sub".to_owned());
        assert(texts(claims@) =~= required_claims()) by {
            assert(claims@[0]@ =~= seq!['e', 'x', 'p']);
            assert(claims@[1]@ =~= seq!['i', 's', 's']);
            assert(claims@[2]@ =~= seq!['s', 'u', 'b']);
        }
        Constraints {
            algorithm: self.algorithm.wrapped(),
            issuer: &self.issuer,
            subject: &self.subject,
            validate_audience: false,
            validate_not_before: true,
            required_claims: claims,
        }
    }

    /// Whether the policy allows the permission `scope_name` at the level
    /// `scope_value`: it must grant that name, and `write` where `write` is
    /// asked for.
    pub fn check_scope_allowed(&self, scope_name: &str, scope_value: &str) -> (r: bool)
        ensures
            r == scope_allowed(self@.grants, scope_name@, scope_value@),
    {
        self.allowed_scopes.allows(scope_name, scope_value)
    }
}

} // verus!
