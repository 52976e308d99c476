//! Sources of repositories: where a repository comes from and the name
//! its local copy goes by.

use crate::text::{last_segment, spec_last_segment};
use vstd::prelude::*;
use vstd::string::*;

verus! {

/// Why a repository could not be had.
#[derive(Clone, Debug, PartialEq, Eq)]
pub enum DownloadOrUseCacheError {
    /// The remote identifier has no segment to name the repository by.
    InvalidRemoteUrl,
    /// Fetching or opening the repository failed; the message says why.
    GitError(String),
}

impl DownloadOrUseCacheError {
    /// What to tell the user.
    pub fn message(&self) -> (text: String)
        ensures
            (match self {
                DownloadOrUseCacheError::InvalidRemoteUrl => text@ == "InvalidRemoteUrl"@,
                DownloadOrUseCacheError::GitError(reason) => text@ == "git error "@ + reason@,
            }),
    {
        match self {
            DownloadOrUseCacheError::InvalidRemoteUrl => "InvalidRemoteUrl".to_owned(),
            DownloadOrUseCacheError::GitError(reason) => "git error ".to_owned().concat(
                reason.as_str(),
            ),
        }
    }
}

/// A remote repository and the short name derived from its identifier: the
/// last non-empty segment of the identifier.
#[derive(Debug)]
pub struct RepositorySource {
    remote_url: String,
    name: String,
}

impl RepositorySource {
    /// The remote identifier.
    pub closed spec fn spec_remote_url(&self) -> Seq<char> {
        self.remote_url@
    }

    /// The short name.
    pub closed spec fn spec_name(&self) -> Seq<char> {
        self.name@
    }

    #[verifier::type_invariant]
    spec fn named_after_its_url(&self) -> bool {
        spec_last_segment(self.remote_url@) == Some(self.name@)
    }

    /// Reads a source from its remote identifier. Fails on an identifier
    /// without a non-empty segment, and on no other.
    pub fn new(remote_url: &str) -> (source: Result<RepositorySource, DownloadOrUseCacheError>)
        ensures
            (match source {
                Ok(source) => source.spec_remote_url() == remote_url@ && spec_last_segment(remote_url@)
                    == Some(source.spec_name()),
                Err(error) => error is InvalidRemoteUrl && spec_last_segment(remote_url@) is None,
            }),
    {
        match last_segment(remote_url) {
            Some(name) => Ok(RepositorySource { remote_url: remote_url.to_owned(), name }),
            None => Err(DownloadOrUseCacheError::InvalidRemoteUrl),
        }
    }

    /// The remote identifier.
    pub fn remote_url(&self) -> (url: &str)
        ensures
            url@ == self.spec_remote_url(),
    {
        self.remote_url.as_str()
    }

    /// The short name, by which the local copy goes.
    pub fn name(&self) -> (name: &str)
        ensures
            name@ == self.spec_name(),
            spec_last_segment(self.spec_remote_url()) == Some(name@),
    {
        proof {
            use_type_invariant(self);
        }
        self.name.as_str()
    }
}

/// Gathers what acquiring each source came to, in the order of the
/// sources: all the repositories where every one was had, and otherwise the
/// first failure, with no repository at all.
pub fn collect_or_fail<T, E>(outcomes: Vec<Result<T, E>>) -> (all: Result<Vec<T>, E>)
    ensures
        all matches Ok(repositories) ==> repositories.len() == outcomes.len() && forall|i: int|
            0 <= i < outcomes.len() ==> (#[trigger] outcomes[i]) == Ok::<T, E>(repositories[i]),
        all matches Err(error) ==> exists|i: int|
            0 <= i < outcomes.len() && (#[trigger] outcomes[i]) == Err::<T, E>(error) && forall|
                j: int,
            | 0 <= j < i ==> (#[trigger] outcomes[j]) is Ok,
{
    let mut repositories: Vec<T> = Vec::new();
    for outcome in it: outcomes
        invariant
            it.seq() == outcomes@,
            repositories.len() == it.index(),
            forall|j: int|
                0 <= j < it.index() ==> (#[trigger] outcomes[j]) == Ok::<T, E>(repositories[j]),
    {
        match outcome {
            Ok(repository) => {
                repositories.push(repository);
            },
            Err(error) => {
                return Err(error);
            },
        }
    }
    Ok(repositories)
}

} // verus!
