//! Per-package synchronization control.
//!
//! A package's sync run is a two-step state machine: checking, which
//! compares the normalized downstream version against the upstream tag and
//! either ends up to date or moves on to publishing; and publishing, which
//! ends updated or failed. Packages are independent: one package's failure
//! is recorded in its own result and blocks nothing else.

use vstd::prelude::*;
use crate::apply::{apply_subs, spec_apply_subs};
use crate::plan::{plan_model, Replaces};
use crate::version::{spec_normalize_downstream, spec_strip_tag_prefix, versions_match};
use crate::Error;

verus! {

/// What the checking step decides for one package.
#[derive(Clone, Copy, Debug, PartialEq, Eq, Structural)]
pub enum SyncDecision {
    /// The downstream version already names the upstream release.
    UpToDate,
    /// The package is stale and must be patched and published.
    Publish,
}

/// The recorded outcome of one package's sync run.
#[derive(Debug, Clone, PartialEq, Eq)]
pub enum SyncResult {
    /// Nothing to do: downstream already matches upstream.
    UpToDate,
    /// The package was advanced from the first version to the second.
    Updated(String, String),
    /// The run failed with the originating error; the next run starts the
    /// package over at the checking step.
    Failed(Error),
}

/// The checking step: compares the downstream version with the upstream
/// tag, each normalized by its own rule, and decides whether to publish.
pub fn decide_sync(downstream: &str, tag: &str) -> (r: SyncDecision)
    ensures
        r == (if spec_normalize_downstream(downstream@) == spec_strip_tag_prefix(tag@) {
            SyncDecision::UpToDate
        } else {
            SyncDecision::Publish
        }),
{
    if versions_match(downstream, tag) {
        SyncDecision::UpToDate
    } else {
        SyncDecision::Publish
    }
}

/// The author email that the publish step commits under: the last
/// whitespace-delimited token of the supplied public key, where the key's
/// comment field holds it. Nothing when the key holds no token at all.
pub fn author_email(public_key: &str) -> (r: Option<String>)
    ensures
        match crate::checksum::spec_last_token(public_key@) {
            Some(t) => r matches Some(x) && x@ == t,
            None => r is None,
        },
{
    crate::checksum::last_token(public_key)
}

/// The publishing step's conclusion: a successful publish records the
/// version movement; a failed one records the originating error.
pub fn publish_result(old_version: &str, new_version: &str, outcome: Result<(), Error>) -> (r:
    SyncResult)
    ensures
        match outcome {
            Ok(u) => r matches SyncResult::Updated(o, n) && o@ == old_version@ && n@
                == new_version@,
            Err(e) => r matches SyncResult::Failed(err) && err == e,
        },
{
    match outcome {
        Ok(_) => SyncResult::Updated(old_version.to_owned(), new_version.to_owned()),
        Err(e) => SyncResult::Failed(e),
    }
}

/// Applies a whole plan to the contents of the files it names, one content
/// per file patch, in plan order. Returns the rewritten contents and, for
/// each file, whether it changed: only a changed file is to be written
/// back. Fails exactly when some substitution of some file matches nowhere
/// in that file's content, naming the field text that opens that
/// substitution's pattern.
pub fn apply_plan(plan: &Vec<Replaces>, contents: &Vec<String>) -> (r: Result<
    (Vec<String>, Vec<bool>),
    Error,
>)
    requires
        plan@.len() == contents@.len(),
    ensures
        match r {
            Ok(p) => {
                &&& p.0@.len() == plan@.len()
                &&& p.1@.len() == plan@.len()
                &&& forall|k: int|
                    0 <= k < plan@.len() ==> {
                        &&& spec_apply_subs(contents@[k]@, plan_model(plan@)[k].subs) == Some(
                            #[trigger] p.0@[k]@,
                        )
                        &&& p.1@[k] == (p.0@[k]@ != contents@[k]@)
                    }
            },
            Err(e) => {
                &&& e matches Error::PatternError(p)
                &&& exists|k: int|
                    0 <= k < plan@.len() && spec_apply_subs(
                        contents@[k]@,
                        #[trigger] plan_model(plan@)[k].subs,
                    ) is None
                &&& exists|k: int, j: int|
                    0 <= k < plan@.len() && 0 <= j < plan_model(plan@)[k].subs.len() && p@ == (
                    #[trigger] plan_model(plan@)[k].subs[j]).prefix
            },
        },
{
    let mut outs: Vec<String> = Vec::new();
    let mut changed: Vec<bool> = Vec::new();
    let mut k: usize = 0;
    while k < plan.len()
        invariant
            k <= plan@.len(),
            plan@.len() == contents@.len(),
            outs@.len() == k as nat,
            changed@.len() == k as nat,
            forall|j: int|
                0 <= j < k ==> {
                    &&& spec_apply_subs(contents@[j]@, plan_model(plan@)[j].subs) == Some(
                        #[trigger] outs@[j]@,
                    )
                    &&& changed@[j] == (outs@[j]@ != contents@[j]@)
                },
        decreases plan@.len() - k,
    {
        proof {
            assert(plan_model(plan@)[k as int].subs =~= Seq::new(
                plan@[k as int].subs@.len(),
                |i: int| plan@[k as int].subs@[i]@,
            ));
        }
        match apply_subs(contents[k].as_str(), &plan[k].subs) {
            Ok(p) => {
                outs.push(p.0);
                changed.push(p.1);
            },
            Err(e) => {
                proof {
                    let pe = e->PatternError_0;
                    let j = choose|j: int|
                        0 <= j < plan@[k as int].subs@.len() && pe@ == plan@[k as int].subs@[j]@.prefix;
                    assert(0 <= k < plan@.len() && 0 <= j < plan_model(plan@)[k as int].subs.len()
                        && pe@ == (plan_model(plan@)[k as int].subs[j]).prefix);
                }
                return Err(e);
            },
        }
        k = k + 1;
    }
    Ok((outs, changed))
}

} // verus!
