//! Gathering the outcomes of an operation run on several repositories: every failure is kept,
//! with the repository it concerns.
use vstd::prelude::*;
use crate::error::GitError;

verus! {

/// The failures among the outcomes, with their repositories, in order.
pub open spec fn failures<T>(outcomes: Seq<(String, Result<T, GitError>)>) -> Seq<(String, GitError)>
    decreases outcomes.len(),
{
    if outcomes.len() == 0 {
        seq![]
    } else {
        let rest = failures(outcomes.drop_last());
        match outcomes.last().1 {
            Err(e) => rest.push((outcomes.last().0, e)),
            Ok(_) => rest,
        }
    }
}

/// The successes among the outcomes, with their repositories, in order.
pub open spec fn successes<T>(outcomes: Seq<(String, Result<T, GitError>)>) -> Seq<(String, T)>
    decreases outcomes.len(),
{
    if outcomes.len() == 0 {
        seq![]
    } else {
        let rest = successes(outcomes.drop_last());
        match outcomes.last().1 {
            Ok(v) => rest.push((outcomes.last().0, v)),
            Err(_) => rest,
        }
    }
}

/// The outcomes of an operation on several repositories, taken together: every success when
/// none failed, and otherwise [`GitError::MultipleErrors`] with every failure.
pub fn gather<T>(outcomes: Vec<(String, Result<T, GitError>)>) -> (r: Result<Vec<(String, T)>, GitError>)
    ensures
        failures(outcomes@).len() == 0 ==> (r matches Ok(v) && v@ == successes(outcomes@)),
        failures(outcomes@).len() > 0 ==> (r matches Err(GitError::MultipleErrors(errors)) && errors@
            == failures(outcomes@)),
{
    let ghost all = outcomes@;
    let mut ok: Vec<(String, T)> = Vec::new();
    let mut errors: Vec<(String, GitError)> = Vec::new();
    let mut rest = outcomes;
    let ghost mut done: Seq<(String, Result<T, GitError>)> = seq![];
    assert(all =~= done + rest@);
    while rest.len() > 0
        invariant
            all == done + rest@,
            ok@ == successes(done),
            errors@ == failures(done),
        decreases rest@.len(),
    {
        let ghost before = rest@;
        let (repo, result) = rest.remove(0);
        proof {
            assert(before[0] == (repo, result));
            assert(before.remove(0) =~= rest@);
            let next = done.push((repo, result));
            assert(next.drop_last() =~= done);
            assert(all =~= next + rest@);
            done = next;
        }
        match result {
            Ok(v) => ok.push((repo, v)),
            Err(e) => errors.push((repo, e)),
        }
    }
    assert(done =~= all);
    if errors.len() > 0 {
        Err(GitError::MultipleErrors(errors))
    } else {
        Ok(ok)
    }
}

} // verus!
