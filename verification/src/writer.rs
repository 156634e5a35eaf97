//! The idempotent writer's decisions: whether a newly generated text has to
//! replace what the target path holds, and by which steps.
//!
//! The writer takes any text and knows nothing of headers: its change oracle
//! is the digest of the whole text. A text generated at another moment
//! carries another timestamp in its header and so counts as changed, even
//! where the policy in it is the same.

use vstd::prelude::*;
use vstd::string::*;
use crate::digest::{content_digest, digests_differ, sha256, sha256_of};

verus! {

/// One step of replacing the target.
#[derive(Debug, Clone, Copy, PartialEq, Eq, Structural)]
pub enum WriteStep {
    /// Write the new content to the temporary sibling of the target.
    WriteTemporary,
    /// Rename the temporary file onto the target, replacing it in one step.
    ReplaceTarget,
}

/// The bytes a path counts for: its content, or no bytes where nothing is
/// there.
pub open spec fn baseline(existing: Option<Seq<u8>>) -> Seq<u8> {
    match existing {
        Some(bytes) => bytes,
        None => Seq::empty(),
    }
}

/// Whether the new content counts as different from what the target holds:
/// the two digests differ.
pub open spec fn content_changed(existing: Option<Seq<u8>>, content: Seq<u8>) -> bool {
    sha256(content) != sha256(baseline(existing))
}

/// The steps for a change, in the order to take them, and none without one.
pub open spec fn steps_for(changed: bool) -> Seq<WriteStep> {
    if changed {
        seq![WriteStep::WriteTemporary, WriteStep::ReplaceTarget]
    } else {
        Seq::empty()
    }
}

/// The steps to take for `content` over a target that holds `existing`.
pub open spec fn write_plan(existing: Option<Seq<u8>>, content: Seq<u8>) -> Seq<WriteStep> {
    steps_for(content_changed(existing, content))
}

/// What a target holds, as plain values.
pub open spec fn held(existing: Option<&[u8]>) -> Option<Seq<u8>> {
    match existing {
        Some(bytes) => Some(bytes@),
        None => None,
    }
}

/// The plan that follows from the digest of the new content and the digest
/// of what the target holds: the write to the temporary file and then the
/// rename where the two differ, nothing where they are equal.
pub fn plan_for_digests(new_digest: &[u8], old_digest: &[u8]) -> (plan: Vec<WriteStep>)
    ensures
        plan@ == steps_for(new_digest@ != old_digest@),
{
    let mut plan: Vec<WriteStep> = Vec::new();
    if digests_differ(new_digest, old_digest) {
        plan.push(WriteStep::WriteTemporary);
        plan.push(WriteStep::ReplaceTarget);
    }
    assert(plan@ =~= steps_for(new_digest@ != old_digest@));
    plan
}

/// Plans the write of `content` over a target that holds `existing`, `None`
/// standing for a target that does not exist. An empty plan says that
/// nothing changed and nothing is to be touched.
pub fn plan_write(existing: Option<&[u8]>, content: &str) -> (plan: Vec<WriteStep>)
    ensures
        plan@ == write_plan(held(existing), content.spec_bytes()),
{
    let new_digest = content_digest(content);
    let old_digest = match existing {
        Some(bytes) => sha256_of(bytes),
        None => {
            let nothing: Vec<u8> = Vec::new();
            sha256_of(nothing.as_slice())
        },
    };
    plan_for_digests(new_digest.as_slice(), old_digest.as_slice())
}

/// What is put behind the name of the target to name its temporary sibling.
pub const TEMPORARY_SUFFIX: &'static str = ".tmp";

/// The file name of the temporary sibling of a target: the target's own file
/// name with `.tmp` behind it. Whatever the target is called, and also where
/// its name ends in `.tmp` already, the sibling is another file in the same
/// directory.
pub fn temporary_name(file_name: &str) -> (temporary: String)
    ensures
        temporary@ == file_name@ + TEMPORARY_SUFFIX@,
        temporary@ != file_name@,
{
    let mut temporary = String::new();
    temporary.append(file_name);
    temporary.append(TEMPORARY_SUFFIX);
    proof {
        reveal_strlit(".tmp");
        assert(temporary@ =~= file_name@ + TEMPORARY_SUFFIX@);
        assert(temporary@.len() == file_name@.len() + 4);
    }
    temporary
}

/// The two paths the writer touches, as a model: what each holds, `None`
/// where there is no file. The two are different files, as `temporary_name`
/// sees to.
pub struct Files {
    pub target: Option<Seq<u8>>,
    pub temporary: Option<Seq<u8>>,
}

/// The files after one step that succeeded. A rename with no temporary file
/// to rename cannot succeed and leaves the files as they were.
pub open spec fn after_step(files: Files, step: WriteStep, content: Seq<u8>) -> Files {
    match step {
        WriteStep::WriteTemporary => Files { target: files.target, temporary: Some(content) },
        WriteStep::ReplaceTarget => match files.temporary {
            Some(bytes) => Files { target: Some(bytes), temporary: None },
            None => files,
        },
    }
}

/// The files after the given steps, each of which succeeded.
pub open spec fn after_steps(files: Files, steps: Seq<WriteStep>, content: Seq<u8>) -> Files
    decreases steps.len(),
{
    if steps.len() == 0 {
        files
    } else {
        after_step(after_steps(files, steps.drop_last(), content), steps.last(), content)
    }
}

/// The files after a whole run of the writer that succeeded.
pub open spec fn after_write(files: Files, content: Seq<u8>) -> Files {
    after_steps(files, write_plan(files.target, content), content)
}

/// A run that reports a change leaves the target holding exactly the new
/// content and no temporary file behind; a run that reports none touches
/// nothing.
pub proof fn lemma_write_outcome(files: Files, content: Seq<u8>)
    ensures
        content_changed(files.target, content) ==> after_write(files, content) == (Files {
            target: Some(content),
            temporary: None,
        }),
        !content_changed(files.target, content) ==> after_write(files, content) == files,
{
    let plan = write_plan(files.target, content);
    if content_changed(files.target, content) {
        assert(plan.drop_last() =~= seq![WriteStep::WriteTemporary]);
        assert(plan.drop_last().drop_last() =~= Seq::<WriteStep>::empty());
        reveal_with_fuel(after_steps, 3);
    }
}

/// Until its last step has been taken, a run leaves the target as it found
/// it: the target never holds anything but the old or the new content.
pub proof fn lemma_target_untouched_before_rename(files: Files, content: Seq<u8>, taken: int)
    requires
        0 <= taken < write_plan(files.target, content).len(),
    ensures
        after_steps(files, write_plan(files.target, content).take(taken), content).target
            == files.target,
{
    let plan = write_plan(files.target, content);
    if taken == 1 {
        assert(plan.take(1) =~= seq![WriteStep::WriteTemporary]);
        assert(plan.take(1).drop_last() =~= Seq::<WriteStep>::empty());
        reveal_with_fuel(after_steps, 2);
    } else {
        assert(plan.take(0) =~= Seq::<WriteStep>::empty());
    }
}

/// Writing the same content twice in a row: the second run reports no change
/// and touches nothing.
pub proof fn lemma_second_write_changes_nothing(files: Files, content: Seq<u8>)
    ensures
        write_plan(after_write(files, content).target, content) == Seq::<WriteStep>::empty(),
        after_write(after_write(files, content), content) == after_write(files, content),
{
    lemma_write_outcome(files, content);
    lemma_write_outcome(after_write(files, content), content);
}

/// The first write to a path that does not exist reports a change, and
/// leaves the path holding exactly the content and no temporary file. Left
/// out is content whose digest is that of no bytes at all, such as the empty
/// text: beside a missing target it does not count as a change.
pub proof fn lemma_first_write_creates_target(temporary: Option<Seq<u8>>, content: Seq<u8>)
    requires
        sha256(content) != sha256(Seq::empty()),
    ensures
        write_plan(None, content).len() > 0,
        after_write(Files { target: None, temporary }, content) == (Files {
            target: Some(content),
            temporary: None,
        }),
{
    lemma_write_outcome(Files { target: None, temporary }, content);
}

} // verus!
