//! Options for creating and merging pull requests.
use vstd::prelude::*;

verus! {

/// Options for PR creation.
#[derive(Clone, Debug)]
pub struct CreatePrOptions {
    /// Url of the repository where the PR should be created.
    pub url: String,
    /// The branch where changes are implemented.
    pub head: String,
    /// The branch where changes should be merged into.
    pub base: String,
    /// Title of the PR.
    pub title: String,
    /// Body of the PR.
    pub body: Option<String>,
    /// The GitHub users asked to approve the PR.
    pub reviewers: Option<Vec<String>>,
    /// Whether this should be merged. If it isn't going to be, we can skip grabbing the SHA and
    /// PR number for this.
    pub should_merge: bool,
}

/// Options for merging a PR.
#[derive(Clone, Debug)]
pub struct MergePrOptions {
    /// Url of the repository where the PR exists.
    pub url: String,
    /// PR number to merge.
    pub pr_number: u64,
    /// The method to use for merging the PR. Defaults to 'merge' with the GitHub API.
    pub method: MergeMethod,
    /// Title for the automatic commit message.
    pub title: Option<String>,
    /// Extra detail to append to automatic commit message.
    pub message: Option<String>,
    /// SHA that pull request head must match to allow merge.
    pub sha: Option<String>,
    /// Whether to merge by writing to the base branch when its rules refuse the merge.
    pub force: bool,
}

/// How GitHub merges a pull request; GitHub's own default is `Merge`.
#[derive(Copy, Clone, Debug, PartialEq, Eq, Structural)]
pub enum MergeMethod {
    Merge,
    Squash,
    Rebase,
}

impl Default for MergeMethod {
    fn default() -> (r: Self)
        ensures
            r == MergeMethod::Merge,
    {
        MergeMethod::Merge
    }
}

} // verus!
