//! Carrying out a manifest's plan: what a dry run shows, and what the outcomes come to.
use vstd::prelude::*;
use crate::cache::store::strings_view;
use crate::error::{decimal, decimal_string, describe, GitError};
use crate::manifest::{plan_views, ManifestRefPlan, PlanView};
use crate::text::owned;

verus! {

/// The line that shows one operation of a plan: its fields separated by tabs.
pub open spec fn operation_line(p: PlanView) -> Seq<char> {
    p.0 + "\t"@ + p.1 + "\t"@ + p.2 + "\t"@ + p.3 + "\t"@ + p.4
}

/// The lines that a dry run shows for a plan of `kind` references (`branch` or `tag`): how
/// many would be created, then one line per operation.
pub fn dry_run_lines(kind: &str, plan: &Vec<ManifestRefPlan>) -> (r: Vec<String>)
    ensures
        r@.len() == plan@.len() + 1,
        r@[0]@ == "DRY RUN: "@ + decimal(plan@.len() as nat) + " "@ + kind@ + " reference(s) would be created"@,
        forall|i: int| 0 <= i < plan@.len() ==> (#[trigger] r@[i + 1])@ == operation_line(plan@[i]@),
{
    let mut lines: Vec<String> = Vec::new();
    let mut head = owned("DRY RUN: ");
    let count = decimal_string(plan.len() as u64);
    head.append(count.as_str());
    head.append(" ");
    head.append(kind);
    head.append(" reference(s) would be created");
    lines.push(head);
    let mut i: usize = 0;
    while i < plan.len()
        invariant
            i <= plan@.len(),
            lines@.len() == i + 1,
            lines@[0]@ == "DRY RUN: "@ + decimal(plan@.len() as nat) + " "@ + kind@ + " reference(s) would be created"@,
            forall|j: int| 0 <= j < i ==> (#[trigger] lines@[j + 1])@ == operation_line(plan@[j]@),
        decreases plan@.len() - i,
    {
        let p = &plan[i];
        let mut line = owned(p.component.as_str());
        line.append("\t");
        line.append(p.repository.as_str());
        line.append("\t");
        line.append(p.source_branch.as_str());
        line.append("\t");
        line.append(p.target_ref.as_str());
        line.append("\t");
        line.append(p.sha.as_str());
        lines.push(line);
        i += 1;
    }
    lines
}

/// The line that reports the outcome of one operation.
pub fn outcome_line(kind: &str, operation: &ManifestRefPlan, result: &Result<(), GitError>) -> (r: String)
    ensures
        result is Ok ==> r@ == "Successfully created "@ + kind@ + " '"@ + operation.target_ref@
            + "' for "@ + operation.component@ + " ("@ + operation.repository@ + ")"@,
        result matches Err(e) ==> r@ == "Failed to create "@ + kind@ + " '"@ + operation.target_ref@
            + "' for "@ + operation.component@ + " ("@ + operation.repository@ + ")"@ + ": "@ + describe(*e),
{
    let mut line = owned(match result {
        Ok(()) => "Successfully created ",
        Err(_) => "Failed to create ",
    });
    line.append(kind);
    line.append(" '");
    line.append(operation.target_ref.as_str());
    line.append("' for ");
    line.append(operation.component.as_str());
    line.append(" (");
    line.append(operation.repository.as_str());
    line.append(")");
    match result {
        Ok(()) => {},
        Err(e) => {
            let m = e.message();
            line.append(": ");
            line.append(m.as_str());
        },
    }
    line
}

/// The failed operations, by component, in order.
pub open spec fn failed_components(outcomes: Seq<(ManifestRefPlan, Result<(), GitError>)>) -> Seq<(Seq<char>, GitError)>
    decreases outcomes.len(),
{
    if outcomes.len() == 0 {
        seq![]
    } else {
        let rest = failed_components(outcomes.drop_last());
        match outcomes.last().1 {
            Err(e) => rest.push((outcomes.last().0.component@, e)),
            Ok(_) => rest,
        }
    }
}

/// What carrying out a plan came to: success when every operation succeeded, and otherwise
/// [`GitError::MultipleErrors`] with each failure under its component.
pub fn plan_outcome(outcomes: Vec<(ManifestRefPlan, Result<(), GitError>)>) -> (r: Result<(), GitError>)
    ensures
        failed_components(outcomes@).len() == 0 ==> r is Ok,
        failed_components(outcomes@).len() > 0 ==> (r matches Err(GitError::MultipleErrors(errors))
            && errors@.map_values(|p: (String, GitError)| (p.0@, p.1)) == failed_components(outcomes@)),
{
    let ghost all = outcomes@;
    let mut errors: Vec<(String, GitError)> = Vec::new();
    let mut rest = outcomes;
    let ghost mut done: Seq<(ManifestRefPlan, Result<(), GitError>)> = seq![];
    assert(all =~= done + rest@);
    assert(errors@.map_values(|p: (String, GitError)| (p.0@, p.1)) =~= Seq::<(Seq<char>, GitError)>::empty());
    while rest.len() > 0
        invariant
            all == done + rest@,
            errors@.map_values(|p: (String, GitError)| (p.0@, p.1)) == failed_components(done),
        decreases rest@.len(),
    {
        let ghost before = rest@;
        let (operation, result) = rest.remove(0);
        proof {
            assert(before[0] == (operation, result));
            assert(before.remove(0) =~= rest@);
            let next = done.push((operation, result));
            assert(next.drop_last() =~= done);
            assert(all =~= next + rest@);
            done = next;
        }
        if let Err(e) = result {
            let ghost old_errors = errors@;
            errors.push((operation.component, e));
            assert(errors@.map_values(|p: (String, GitError)| (p.0@, p.1)) =~= old_errors.map_values(|p: (String, GitError)| (p.0@, p.1)).push((operation.component@, e)));
        }
    }
    assert(done =~= all);
    if errors.len() > 0 {
        Err(GitError::MultipleErrors(errors))
    } else {
        Ok(())
    }
}

} // verus!
