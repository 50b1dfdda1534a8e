//! Where policies come from, and the check that none of them is served
//! unchecked.
//!
//! Reading a directory is the caller's; this module decides which of the
//! files found there count as policies, and refuses a set of policies that
//! holds a defective one.

use std::path::PathBuf;
use vstd::prelude::*;

use crate::policy::{
    first_defect, lemma_empty_field_is_defect, validated, well_formed, Defect, LocalPolicy,
    PolicyError, ValidatedPolicy,
};
use crate::search::{first, lemma_first, lemma_first_at, lemma_first_exists, lemma_first_none};

verus! {

/// `std::path::PathBuf`; carried, never read.
#[verifier::external_type_specification]
#[verifier::external_body]
pub struct ExPathBuf(std::path::PathBuf);

/// Why no policies were loaded, as the contracts speak of it.
pub enum LoadFailure {
    /// The policy path is no directory.
    NotADirectory,
    /// The directory could not be listed.
    Unlistable,
    /// The policy at `index` has the defect `defect`.
    InvalidPolicy { index: int, defect: Defect },
}

/// Why no policies were loaded.
#[derive(Clone, Debug, PartialEq, Eq)]
pub enum LoadError {
    /// The policy path is no directory.
    NotADirectory,
    /// The directory could not be listed.
    Unlistable,
    /// The policy at `index` has the defect `error`.
    InvalidPolicy { index: usize, error: PolicyError },
}

impl View for LoadError {
    type V = LoadFailure;

    open spec fn view(&self) -> LoadFailure {
        match self {
            LoadError::NotADirectory => LoadFailure::NotADirectory,
            LoadError::Unlistable => LoadFailure::Unlistable,
            LoadError::InvalidPolicy { index, error } => LoadFailure::InvalidPolicy {
                index: *index as int,
                defect: error@,
            },
        }
    }
}

/// A source of policies.
pub trait PolicyLoader {
    /// Loads the policies that the source holds.
    fn load_policies(&self) -> Result<Vec<LocalPolicy>, LoadError>;
}

/// What became of one entry of the policy directory.
#[derive(Debug)]
pub enum PolicyFile {
    /// The listing failed at this entry.
    Unlisted,
    /// The kind of the entry could not be told.
    UnknownKind,
    /// The entry is no file.
    NotAFile,
    /// The file could not be read.
    Unreadable,
    /// The file's content is no policy.
    Malformed,
    /// The file holds this policy.
    Policy(LocalPolicy),
}

/// What was found at the policy path.
#[derive(Debug)]
pub enum Directory {
    /// The path is no directory.
    NotADirectory,
    /// The directory could not be listed.
    Unlistable,
    /// The directory's entries, in the order of the listing.
    Entries(Vec<PolicyFile>),
}

/// The policies among the entries of a directory, in the order of the
/// listing. Every entry that yields no policy is passed over.
pub open spec fn policies_among(files: Seq<PolicyFile>) -> Seq<LocalPolicy>
    decreases files.len(),
{
    if files.len() == 0 {
        Seq::empty()
    } else {
        let before = policies_among(files.drop_last());
        match files.last() {
            PolicyFile::Policy(policy) => before.push(policy),
            _ => before,
        }
    }
}

/// Loads policies from the files of one directory.
#[derive(Debug)]
pub struct Fs {
    policy_path: PathBuf,
}

impl Fs {
    /// The directory that the loader reads.
    pub closed spec fn path(&self) -> PathBuf {
        self.policy_path
    }

    /// A loader for the directory at `policy_path`.
    pub fn new(policy_path: PathBuf) -> (r: Fs)
        ensures
            r.path() == policy_path,
    {
        Fs { policy_path }
    }

    /// The directory that the loader reads.
    pub fn policy_path(&self) -> (r: &PathBuf)
        ensures
            *r == self.path(),
    {
        &self.policy_path
    }

    /// The policies to load, given what was found at the policy path. A path
    /// that is no directory, or one that cannot be listed, fails the load;
    /// an entry that is no readable policy file is passed over.
    pub fn read_policy_files(&self, found: Directory) -> (r: Result<Vec<LocalPolicy>, LoadError>)
        ensures
            match found {
                Directory::NotADirectory => r matches Err(e) && e@ == LoadFailure::NotADirectory,
                Directory::Unlistable => r matches Err(e) && e@ == LoadFailure::Unlistable,
                Directory::Entries(files) => r matches Ok(policies) && policies@ == policies_among(
                    files@,
                ),
            },
    {
        match found {
            Directory::NotADirectory => Err(LoadError::NotADirectory),
            Directory::Unlistable => Err(LoadError::Unlistable),
            Directory::Entries(files) => {
                let ghost all = files@;
                let mut policies: Vec<LocalPolicy> = Vec::new();
                for file in it: files
                    invariant
                        it.seq() == all,
                        policies@ == policies_among(all.take(it.index())),
                {
                    proof {
                        let i = it.index();
                        assert(all.take(i + 1).drop_last() =~= all.take(i));
                        assert(all.take(i + 1).last() == all[i]);
                    }
                    match file {
                        PolicyFile::Policy(policy) => {
                            policies.push(policy);
                        },
                        _ => {},
                    }
                }
                assert(all.take(all.len() as int) =~= all);
                Ok(policies)
            },
        }
    }
}

/// Whether the policy at a position has a defect.
pub open spec fn defective(policies: Seq<LocalPolicy>) -> spec_fn(int) -> bool {
    |i: int| first_defect(policies[i]@) is Some
}

/// The failure that a set of policies is refused with: that of the first
/// policy with a defect.
pub open spec fn first_invalid(policies: Seq<LocalPolicy>) -> Option<LoadFailure> {
    match first(policies.len() as int, defective(policies)) {
        Some(i) => Some(
            LoadFailure::InvalidPolicy { index: i, defect: first_defect(policies[i]@)->0 },
        ),
        None => None,
    }
}

/// Checks every policy and gives their checked forms, in order. One
/// defective policy fails the whole: the first such policy is reported with
/// its defect.
pub fn validate_all(policies: &Vec<LocalPolicy>) -> (r: Result<Vec<ValidatedPolicy>, LoadError>)
    ensures
        match first_invalid(policies@) {
            Some(failure) => r matches Err(e) && e@ == failure,
            None => r matches Ok(checked) && checked@.len() == policies@.len() && forall|i: int|
                0 <= i < policies@.len() ==> (#[trigger] checked@[i])@ == validated(policies@[i]@)
                    && well_formed(checked@[i]@),
        },
{
    let n = policies.len();
    let mut checked: Vec<ValidatedPolicy> = Vec::new();
    let mut i: usize = 0;
    while i < n
        invariant
            n == policies@.len(),
            i <= n,
            checked@.len() == i,
            forall|k: int| 0 <= k < i ==> !#[trigger] defective(policies@)(k),
            forall|k: int|
                0 <= k < i ==> (#[trigger] checked@[k])@ == validated(policies@[k]@) && well_formed(
                    checked@[k]@,
                ),
        decreases n - i,
    {
        match policies[i].validate() {
            Err(error) => {
                proof {
                    assert(defective(policies@)(i as int));
                    lemma_first_at(n as int, defective(policies@), i as int);
                }
                return Err(LoadError::InvalidPolicy { index: i, error });
            },
            Ok(policy) => {
                assert(!defective(policies@)(i as int));
                checked.push(policy);
            },
        }
        i = i + 1;
    }
    proof {
        lemma_first_none(n as int, defective(policies@));
    }
    Ok(checked)
}

/// What a validating loader makes of what another loader gave: a failure is
/// handed on, and so are the policies where none has a defect; where one
/// has, the first such policy is reported.
pub fn check_loaded(loaded: Result<Vec<LocalPolicy>, LoadError>) -> (r: Result<
    Vec<LocalPolicy>,
    LoadError,
>)
    ensures
        match loaded {
            Err(e) => r == Err::<Vec<LocalPolicy>, LoadError>(e),
            Ok(policies) => match first_invalid(policies@) {
                Some(failure) => r matches Err(e) && e@ == failure,
                None => r == Ok::<Vec<LocalPolicy>, LoadError>(policies),
            },
        },
{
    match loaded {
        Err(e) => Err(e),
        Ok(policies) => match validate_all(&policies) {
            Err(e) => Err(e),
            Ok(_) => Ok(policies),
        },
    }
}

/// A loader that hands on the policies of another, and only where every
/// one of them passes validation.
#[derive(Debug)]
pub struct ValidatingPolicyLoader<L: PolicyLoader> {
    wrapped: L,
}

impl<L: PolicyLoader> ValidatingPolicyLoader<L> {
    /// The loader that is wrapped.
    pub closed spec fn inner(&self) -> L {
        self.wrapped
    }

    /// A validating loader around `wrapped`.
    pub fn new(wrapped: L) -> (r: ValidatingPolicyLoader<L>)
        ensures
            r.inner() == wrapped,
    {
        ValidatingPolicyLoader { wrapped }
    }
}

impl<L: PolicyLoader> PolicyLoader for ValidatingPolicyLoader<L> {
    /// Loads the policies of the wrapped loader. Its failure is handed on;
    /// its policies are checked, and handed on only where none has a defect.
    fn load_policies(&self) -> (r: Result<Vec<LocalPolicy>, LoadError>)
        ensures
            r matches Ok(policies) ==> first_invalid(policies@) is None,
            r matches Ok(policies) ==> forall|i: int|
                0 <= i < policies@.len() ==> first_defect((#[trigger] policies@[i])@) is None,
    {
        let r = check_loaded(self.wrapped.load_policies());
        proof {
            match &r {
                Ok(policies) => {
                    lemma_first(policies@.len() as int, defective(policies@));
                    assert forall|i: int| 0 <= i < policies@.len() implies first_defect(
                        (#[trigger] policies@[i])@,
                    ) is None by {
                        assert(!defective(policies@)(i));
                    }
                },
                Err(_) => {},
            }
        }
        r
    }
}

/// A set of policies that holds one with an empty issuer set, subject,
/// key-set location or grants is refused, so that none of its policies is
/// ever enriched.
pub proof fn lemma_empty_field_refuses_all(policies: Seq<LocalPolicy>, i: int)
    requires
        0 <= i < policies.len(),
        policies[i]@.issuer.len() == 0 || policies[i]@.subject.len() == 0
            || policies[i]@.jwks_url.len() == 0 || policies[i]@.allowed_scopes.len() == 0,
    ensures
        first_invalid(policies) is Some,
{
    lemma_empty_field_is_defect(policies[i]@);
    assert(defective(policies)(i));
    lemma_first_exists(policies.len() as int, defective(policies), i);
}

} // verus!
