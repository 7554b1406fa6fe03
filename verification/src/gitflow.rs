//! The decisions of the shader-repository pull.
//!
//! Keeping a shader source up to date means fetching its branch from
//! `origin` and bringing the local copy forward. The git work itself —
//! opening the repository, fetching, moving refs, checking out — is outside
//! work; every decision of the flow is made here: which ref to fetch, what a
//! merge analysis means, and how the flow ends.

use vstd::prelude::*;
use vstd::string::*;

use crate::errors::ReShaderError;
use crate::errors::ReShaderResult;

verus! {

/// What the merge analysis of local `HEAD` against the fetched commit says.
#[derive(Debug, Clone, Copy, PartialEq, Eq, Structural)]
pub enum MergeAnalysis {
    /// The local branch can be moved straight to the fetched commit.
    FastForward,
    /// A non-trivial merge of the two histories is needed.
    Normal,
    /// Nothing to do: the local copy is up to date or unrelated.
    UpToDate,
}

/// The action the pull flow takes after the merge analysis.
#[derive(Debug, Clone, Copy, PartialEq, Eq, Structural)]
pub enum PullAction {
    /// Move the local branch ref to the fetched commit and force-checkout,
    /// discarding local modifications.
    FastForward,
    /// Three-way-merge the trees, commit with both parents, and check out.
    Merge,
    /// Leave the working tree as it is.
    Nothing,
}

/// The ref to fetch: the configured branch when one is given, else the
/// repository's current `HEAD` branch.
pub fn resolve_refspec(branch: Option<String>, head_branch: &str) -> (r: String)
    ensures
        branch matches Some(b) ==> r@ == b@,
        branch is None ==> r@ == head_branch@,
{
    match branch {
        Some(b) => b,
        None => head_branch.to_owned(),
    }
}

/// The full ref name of a local branch.
pub fn branch_ref_name(refspec: &str) -> (r: String)
    ensures
        r@ == "refs/heads/"@ + refspec@,
{
    let mut r = String::from_str("refs/heads/");
    r.append(refspec);
    r
}

/// Whether the pull may proceed: a repository must exist at the expected
/// path, else the flow fails with `RepositoryNotFound` naming the
/// repository, before any git operation.
pub fn check_repository_exists(repo_exists: bool, name: &String) -> (r: ReShaderResult<()>)
    ensures
        (r is Ok) <==> repo_exists,
        r matches Err(e) ==> e == ReShaderError::RepositoryNotFound(*name),
{
    if repo_exists {
        Ok(())
    } else {
        Err(ReShaderError::RepositoryNotFound(name.clone()))
    }
}

/// Decides the pull from the merge analysis.
///
/// A possible fast-forward requires the local branch ref named by the
/// refspec: when it is missing the flow fails with `BranchNotFound` naming
/// the refspec and the repository. A needed merge is refused with
/// `MergeConflict` when the merged index reports conflicts — the working
/// tree is left conflicted for manual resolution. Anything else is left
/// alone.
pub fn decide_pull(
    analysis: MergeAnalysis,
    branch_ref_found: bool,
    index_has_conflicts: bool,
    refspec: &String,
    repo_name: &String,
) -> (r: ReShaderResult<PullAction>)
    ensures
        analysis is FastForward && branch_ref_found ==> r == Ok::<PullAction, ReShaderError>(
            PullAction::FastForward,
        ),
        analysis is FastForward && !branch_ref_found ==> r == Err::<PullAction, ReShaderError>(
            ReShaderError::BranchNotFound(*refspec, *repo_name),
        ),
        analysis is Normal && !index_has_conflicts ==> r == Ok::<PullAction, ReShaderError>(
            PullAction::Merge,
        ),
        analysis is Normal && index_has_conflicts ==> r == Err::<PullAction, ReShaderError>(
            ReShaderError::MergeConflict(*refspec, *repo_name),
        ),
        analysis is UpToDate ==> r == Ok::<PullAction, ReShaderError>(PullAction::Nothing),
{
    match analysis {
        MergeAnalysis::FastForward => {
            if branch_ref_found {
                Ok(PullAction::FastForward)
            } else {
                Err(ReShaderError::BranchNotFound(refspec.clone(), repo_name.clone()))
            }
        },
        MergeAnalysis::Normal => {
            if index_has_conflicts {
                Err(ReShaderError::MergeConflict(refspec.clone(), repo_name.clone()))
            } else {
                Ok(PullAction::Merge)
            }
        },
        MergeAnalysis::UpToDate => Ok(PullAction::Nothing),
    }
}

} // verus!
