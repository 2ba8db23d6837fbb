//! The decisions taken while applying and recovering plans. The filesystem
//! and database work around them is done by the caller, which hands in what it
//! observed.

use vstd::prelude::*;
use vstd::string::*;
use crate::error::{Error, ErrorView, fault};
use crate::model::{Action, Conflict, Plan, Receipt, Snapshot, moves_ref, transfer_of};
use crate::paths::{FsPath, path_text};
use crate::snapshot::{same_version, same_version_spec, verify, verify_outcome};
use crate::text::same_text;

verus! {

/// How an `apply` request for a stored plan proceeds.
#[derive(Debug, Clone, Copy, PartialEq, Eq, Structural)]
pub enum Admission {
    /// The plan already succeeded; its stored result is reused.
    Reuse,
    /// The plan has not started: its input and destinations are checked first.
    Fresh,
    /// The plan was interrupted and resumes from its recorded steps.
    Resume,
}

/// Whether a job status is one that blocks further automatic work.
pub open spec fn is_blocking_status(status: Seq<char>) -> bool {
    status == "failed"@ || status == "needs_review"@
}

/// How `apply` treats a stored plan in job status `status`, under the current
/// configuration revision, where `blocked` tells whether other unresolved
/// work touches its input.
pub open spec fn admission(plan: Plan, status: Seq<char>, revision: Seq<char>, blocked: bool) -> Result<
    Admission,
    ErrorView,
> {
    if status == "succeeded"@ {
        Ok(Admission::Reuse)
    } else if is_blocking_status(status) {
        Err(fault("JOB_BLOCKED"@, plan.plan_id@ + ": "@ + status + "; inspect history before taking manual action"@))
    } else if plan.format_version != 1 || plan.rule_revision@ != revision {
        Err(fault("PLAN_STALE"@, "configuration or script dependencies changed"@))
    } else if blocked {
        Err(fault("JOB_BLOCKED"@, "unresolved prior work blocks this file"@))
    } else if status == "planned"@ {
        Ok(Admission::Fresh)
    } else {
        Ok(Admission::Resume)
    }
}

/// Decides how to apply a stored plan.
pub fn decide_admission(plan: &Plan, status: &str, revision: &str, blocked: bool) -> (r: Result<Admission, Error>)
    ensures
        match r {
            Ok(a) => admission(*plan, status@, revision@, blocked) == Ok::<Admission, ErrorView>(a),
            Err(e) => admission(*plan, status@, revision@, blocked) == Err::<Admission, ErrorView>(e@),
        },
{
    if same_text(status, "succeeded") {
        return Ok(Admission::Reuse);
    }
    if same_text(status, "failed") || same_text(status, "needs_review") {
        let mut m = plan.plan_id.clone();
        m.append(": ");
        m.append(status);
        m.append("; inspect history before taking manual action");
        return Err(Error::with_message("JOB_BLOCKED", m));
    }
    if plan.format_version != 1 || !same_text(plan.rule_revision.as_str(), revision) {
        return Err(Error::new("PLAN_STALE", "configuration or script dependencies changed"));
    }
    if blocked {
        return Err(Error::new("JOB_BLOCKED", "unresolved prior work blocks this file"));
    }
    if same_text(status, "planned") {
        Ok(Admission::Fresh)
    } else {
        Ok(Admission::Resume)
    }
}

/// The first refusal among the destinations of `actions[i..]`, where
/// `present[k]` tells whether the destination of action `k` exists (or why
/// that could not be checked): an existing destination refuses the plan when
/// its policy is `error`.
pub open spec fn conflict_from(actions: Seq<Action>, present: Seq<Result<bool, Error>>, i: int) -> Option<ErrorView>
    decreases actions.len() - i,
{
    if i < 0 || i >= actions.len() {
        None
    } else {
        match transfer_of(actions[i]) {
            None => conflict_from(actions, present, i + 1),
            Some((_, to, policy)) => match present[i] {
                Err(e) => Some(e@),
                Ok(true) => if policy == Conflict::Error {
                    Some(fault("TARGET_CONFLICT"@, path_text(to)))
                } else {
                    conflict_from(actions, present, i + 1)
                },
                Ok(false) => conflict_from(actions, present, i + 1),
            },
        }
    }
}

/// Checks all destinations of a plan before any mutation.
pub fn check_conflicts(actions: &Vec<Action>, present: &Vec<Result<bool, Error>>) -> (r: Result<(), Error>)
    requires
        present.len() == actions.len(),
    ensures
        match r {
            Ok(()) => conflict_from(actions@, present@, 0) is None,
            Err(e) => conflict_from(actions@, present@, 0) == Some(e@),
        },
{
    let mut i: usize = 0;
    while i < actions.len()
        invariant
            present.len() == actions.len(),
            i <= actions.len(),
            conflict_from(actions@, present@, 0) == conflict_from(actions@, present@, i as int),
        decreases actions.len() - i,
    {
        match actions[i].transfer() {
            None => {},
            Some((_, to, policy)) => {
                match &present[i] {
                    Err(e) => {
                        return Err(e.clone_error());
                    },
                    Ok(true) => {
                        if *policy == Conflict::Error {
                            return Err(Error::with_message("TARGET_CONFLICT", to.display()));
                        }
                    },
                    Ok(false) => {},
                }
            },
        }
        i = i + 1;
    }
    Ok(())
}

/// What recovery observed about an interrupted step: the destination's
/// snapshot (`None` where it could not be taken), the snapshot of the
/// recorded temporary file, whether the source is still present, and a fresh
/// snapshot of the source.
pub struct RecoveryProbe {
    pub target: Option<Snapshot>,
    pub temp: Option<Snapshot>,
    pub source_present: Result<bool, Error>,
    pub source_now: Result<Snapshot, Error>,
}

/// Whether the destination snapshot is provably this step's output: the
/// recorded output version, or for a move the input's own identity, or the
/// version of the step's recorded temporary copy.
pub open spec fn owned(action: Action, r: Receipt, after: Snapshot, temp: Option<Snapshot>) -> bool {
    match r.after {
        Some(rec) => same_version_spec(rec, after),
        None => if moves_ref(action) && after.identity@ == r.before.identity@ {
            true
        } else {
            r.temp is Some && temp is Some && same_version_spec(temp->0, after)
        },
    }
}

/// What recovering an interrupted step gives: the destination's snapshot where
/// the step provably completed, `None` where it must be reviewed, or an error.
/// A move also needs its source gone; a copy needs its source unchanged.
pub open spec fn recovery(action: Action, r: Receipt, probe: RecoveryProbe) -> Result<Option<Snapshot>, ErrorView> {
    if transfer_of(action) is None {
        Ok(None)
    } else {
        match probe.target {
            None => Ok(None),
            Some(after) => if after.sha256@ != r.before.sha256@ || after.size_bytes != r.before.size_bytes {
                Ok(None)
            } else if !owned(action, r, after, probe.temp) {
                Ok(None)
            } else if moves_ref(action) {
                match probe.source_present {
                    Err(e) => Err(e@),
                    Ok(true) => Ok(None),
                    Ok(false) => Ok(Some(after)),
                }
            } else {
                match verify_outcome(r.before, probe.source_now) {
                    Some(e) => Err(e),
                    None => Ok(Some(after)),
                }
            },
        }
    }
}

/// Decides whether an interrupted copy, move or rename completed, so that it
/// can be acknowledged without being replayed. Commands never are.
pub fn recover_step(action: &Action, r: &Receipt, probe: RecoveryProbe) -> (res: Result<Option<Snapshot>, Error>)
    ensures
        match res {
            Ok(x) => recovery(*action, *r, probe) == Ok::<Option<Snapshot>, ErrorView>(x),
            Err(e) => recovery(*action, *r, probe) == Err::<Option<Snapshot>, ErrorView>(e@),
        },
{
    let ghost p = probe;
    if action.transfer().is_none() {
        return Ok(None);
    }
    let RecoveryProbe { target, temp, source_present, source_now } = probe;
    let after = match target {
        None => {
            return Ok(None);
        },
        Some(a) => a,
    };
    if after.sha256 != r.before.sha256 || after.size_bytes != r.before.size_bytes {
        return Ok(None);
    }
    let is_owned = match &r.after {
        Some(rec) => same_version(rec, &after),
        None => {
            if action.is_move() && after.identity == r.before.identity {
                true
            } else {
                match (&r.temp, &temp) {
                    (Some(_), Some(t)) => same_version(t, &after),
                    _ => false,
                }
            }
        },
    };
    if !is_owned {
        return Ok(None);
    }
    if action.is_move() {
        match source_present {
            Err(e) => Err(e),
            Ok(true) => Ok(None),
            Ok(false) => Ok(Some(after)),
        }
    } else {
        match verify(&r.before, source_now) {
            Err(e) => Err(e),
            Ok(()) => Ok(Some(after)),
        }
    }
}

/// Commands are never recovered: an interrupted command step always needs
/// review and is never replayed.
pub proof fn law_commands_are_not_recovered(action: Action, r: Receipt, probe: RecoveryProbe)
    requires
        action is Exec,
    ensures
        recovery(action, r, probe) == Ok::<Option<Snapshot>, ErrorView>(None),
{
}

/// A step is recovered only where it provably completed: the destination
/// holds exactly the input's bytes and is the step's own output, a recovered
/// move has left its source, and a recovered copy's source is unchanged.
pub proof fn law_recovered_steps_completed(action: Action, r: Receipt, probe: RecoveryProbe, after: Snapshot)
    requires
        recovery(action, r, probe) == Ok::<Option<Snapshot>, ErrorView>(Some(after)),
    ensures
        transfer_of(action) is Some,
        probe.target == Some(after),
        after.sha256@ == r.before.sha256@,
        after.size_bytes == r.before.size_bytes,
        owned(action, r, after, probe.temp),
        moves_ref(action) ==> probe.source_present matches Ok(false),
        !moves_ref(action) ==> verify_outcome(r.before, probe.source_now) is None,
{
}

/// A move whose input and destination are both present is left for review:
/// which of the two to keep is never guessed.
pub proof fn law_moves_with_both_paths_are_reviewed(action: Action, r: Receipt, probe: RecoveryProbe)
    requires
        moves_ref(action),
        probe.source_present matches Ok(true),
    ensures
        recovery(action, r, probe) == Ok::<Option<Snapshot>, ErrorView>(None),
{
}

/// The same content from another file is no proof of ownership: a copy
/// whose output was never recorded and whose temporary file is gone is not
/// recovered, whatever its destination holds.
pub proof fn law_content_alone_proves_nothing(action: Action, r: Receipt, probe: RecoveryProbe)
    requires
        action is Copy,
        r.after is None,
        probe.temp is None,
    ensures
        recovery(action, r, probe) == Ok::<Option<Snapshot>, ErrorView>(None),
{
}

/// Applying a plan that already succeeded changes nothing: its result is reused.
pub proof fn law_succeeded_plans_are_reused(plan: Plan, revision: Seq<char>, blocked: bool)
    ensures
        admission(plan, "succeeded"@, revision, blocked) == Ok::<Admission, ErrorView>(Admission::Reuse),
{
}

/// Plans that failed or need review are never applied again automatically.
pub proof fn law_blocked_jobs_stay_blocked(plan: Plan, status: Seq<char>, revision: Seq<char>, blocked: bool)
    requires
        is_blocking_status(status),
    ensures
        admission(plan, status, revision, blocked) matches Err(e) && e.code == "JOB_BLOCKED"@,
{
    reveal_strlit("succeeded");
    reveal_strlit("failed");
    reveal_strlit("needs_review");
    assert("failed"@ != "succeeded"@ && "needs_review"@ != "succeeded"@) by {
        assert("failed"@.len() != "succeeded"@.len());
        assert("needs_review"@.len() != "succeeded"@.len());
    }
}

/// A plan made under another configuration or script revision is stale
/// unless it already succeeded or is blocked.
pub proof fn law_revision_change_makes_plans_stale(plan: Plan, status: Seq<char>, revision: Seq<char>, blocked: bool)
    requires
        status != "succeeded"@,
        !is_blocking_status(status),
        plan.rule_revision@ != revision,
    ensures
        admission(plan, status, revision, blocked) == Err::<Admission, ErrorView>(
            fault("PLAN_STALE"@, "configuration or script dependencies changed"@),
        ),
{
}

/// A plan that passes the conflict check overwrites nothing: every
/// destination whose policy is `error` was found absent.
pub proof fn law_checked_plans_overwrite_nothing(actions: Seq<Action>, present: Seq<Result<bool, Error>>, i: int)
    requires
        present.len() == actions.len(),
        0 <= i <= actions.len(),
        conflict_from(actions, present, i) is None,
    ensures
        forall|k: int|
            i <= k < actions.len() && (#[trigger] transfer_of(actions[k]) matches Some(t) && t.2 == Conflict::Error)
                ==> (present[k] matches Ok(false)),
    decreases actions.len() - i,
{
    if i < actions.len() {
        law_checked_plans_overwrite_nothing(actions, present, i + 1);
    }
}

/// How a failed step is recorded: as uncertain (its job needing review) or as
/// a plain failure.
#[derive(Debug, Clone, Copy, PartialEq, Eq, Structural)]
pub enum Failure {
    NeedsReview,
    Failed,
}

/// A failed step needs review when it may have had effects: an output was
/// recorded, it is a command, or its temporary file or destination exists.
pub open spec fn failure_kind(output_recorded: bool, is_command: bool, temp_exists: bool, target_exists: bool) -> Failure {
    if output_recorded || is_command || temp_exists || target_exists {
        Failure::NeedsReview
    } else {
        Failure::Failed
    }
}

pub fn classify_failure(output_recorded: bool, is_command: bool, temp_exists: bool, target_exists: bool) -> (f: Failure)
    ensures
        f == failure_kind(output_recorded, is_command, temp_exists, target_exists),
{
    if output_recorded || is_command || temp_exists || target_exists {
        Failure::NeedsReview
    } else {
        Failure::Failed
    }
}

impl Failure {
    /// The status recorded for the job.
    pub fn job_status(&self) -> (s: &'static str)
        ensures
            s@ == if *self == Failure::NeedsReview { "needs_review"@ } else { "failed"@ },
    {
        match self {
            Failure::NeedsReview => "needs_review",
            Failure::Failed => "failed",
        }
    }

    /// The status recorded for the step.
    pub fn step_status(&self) -> (s: &'static str)
        ensures
            s@ == if *self == Failure::NeedsReview { "uncertain"@ } else { "failed"@ },
    {
        match self {
            Failure::NeedsReview => "uncertain",
            Failure::Failed => "failed",
        }
    }
}

/// A failed command always needs review: its job is never merely marked
/// failed, so it is never retried.
pub proof fn law_failed_commands_need_review(output_recorded: bool, temp_exists: bool, target_exists: bool)
    ensures
        failure_kind(output_recorded, true, temp_exists, target_exists) == Failure::NeedsReview,
{
}

/// What a finished command's result means for its step: a timeout or output
/// pipes left open make the effects uncertain; any exit code but 0 fails it.
pub open spec fn command_verdict(timed_out: bool, output_incomplete: bool, exit_code: Option<i64>) -> Option<ErrorView> {
    if timed_out || output_incomplete {
        Some(fault(
            "EXEC_UNCERTAIN"@,
            "command timed out or output pipes did not close; external effects need review"@,
        ))
    } else if exit_code != Some(0i64) {
        Some(fault("EXEC_FAILED"@, "command failed; external effects need review"@))
    } else {
        None
    }
}

pub fn judge_command(timed_out: bool, output_incomplete: bool, exit_code: Option<i64>) -> (r: Result<(), Error>)
    ensures
        match r {
            Ok(()) => command_verdict(timed_out, output_incomplete, exit_code) is None,
            Err(e) => command_verdict(timed_out, output_incomplete, exit_code) == Some(e@),
        },
{
    if timed_out || output_incomplete {
        return Err(Error::new(
            "EXEC_UNCERTAIN",
            "command timed out or output pipes did not close; external effects need review",
        ));
    }
    match exit_code {
        Some(0) => Ok(()),
        _ => Err(Error::new("EXEC_FAILED", "command failed; external effects need review")),
    }
}

/// Checks that a published destination holds the input's bytes.
pub fn check_published(current: &Snapshot, after: &Snapshot) -> (r: Result<(), Error>)
    ensures
        r is Ok <==> after.sha256@ == current.sha256@ && after.size_bytes == current.size_bytes,
        r matches Err(e) ==> e@ == fault("OPERATION_UNCERTAIN"@, "destination changed before verification"@),
{
    if after.sha256 != current.sha256 || after.size_bytes != current.size_bytes {
        return Err(Error::new("OPERATION_UNCERTAIN", "destination changed before verification"));
    }
    Ok(())
}

/// Checks that the step's recorded source is where the file reference stands.
pub fn check_source(from: &FsPath, current: &Snapshot) -> (r: Result<(), Error>)
    ensures
        r is Ok <==> from@ == current.path@,
        r matches Err(e) ==> e@ == fault("STATE_ERROR"@, "FileRef and resolved plan disagree"@),
{
    if !from.same(&current.path) {
        return Err(Error::new("STATE_ERROR", "FileRef and resolved plan disagree"));
    }
    Ok(())
}

/// Whether a skipped step ends the plan: later steps were derived from where a
/// move or rename would have put the file.
pub open spec fn stops_plan(action: Action, skipped: bool) -> bool {
    skipped && moves_ref(action)
}

pub fn skip_stops_plan(action: &Action, skipped: bool) -> (r: bool)
    ensures
        r == stops_plan(*action, skipped),
{
    skipped && action.is_move()
}

/// Where the file reference stands after a step that a previous run recorded
/// as succeeded, and whether the plan stops there: an unskipped move or
/// rename leaves it at its recorded output (which must be there), a skipped
/// one stops the plan, and any other step leaves it where it was.
pub open spec fn replayed(action: Action, r: Receipt, current: Snapshot) -> Result<(Snapshot, bool), ErrorView> {
    if moves_ref(action) && !r.skipped {
        match r.after {
            Some(a) => Ok((a, false)),
            None => Err(fault("STATE_ERROR"@, "missing move receipt"@)),
        }
    } else {
        Ok((current, stops_plan(action, r.skipped)))
    }
}

pub fn replay_recorded(action: &Action, r: Receipt, current: Snapshot) -> (res: Result<(Snapshot, bool), Error>)
    ensures
        match res {
            Ok(x) => replayed(*action, r, current) == Ok::<(Snapshot, bool), ErrorView>(x),
            Err(e) => replayed(*action, r, current) == Err::<(Snapshot, bool), ErrorView>(e@),
        },
{
    if action.is_move() && !r.skipped {
        match r.after {
            Some(a) => Ok((a, false)),
            None => Err(Error::new("STATE_ERROR", "missing move receipt")),
        }
    } else {
        let stop = skip_stops_plan(action, r.skipped);
        Ok((current, stop))
    }
}

/// Whether the final observed version of the file reference is recorded as
/// the engine's own effect: after a command (which may have changed it), or
/// where it is unchanged.
pub fn final_is_own(actions: &Vec<Action>, current: &Snapshot, observed: &Snapshot) -> (r: bool)
    ensures
        r == ((exists|i: int| 0 <= i < actions.len() && #[trigger] actions@[i] is Exec) || same_version_spec(*current, *observed)),
{
    let mut i: usize = 0;
    while i < actions.len()
        invariant
            i <= actions.len(),
            forall|k: int| 0 <= k < i ==> !(#[trigger] actions@[k] is Exec),
        decreases actions.len() - i,
    {
        if actions[i].is_exec() {
            return true;
        }
        i = i + 1;
    }
    same_version(current, observed)
}

/// A command that timed out is never run again by a later apply: its
/// verdict is `EXEC_UNCERTAIN`, its failure needs review whatever else is
/// known, and a job in the status that records (`needs_review`) is refused
/// with `JOB_BLOCKED` under any revision.
pub proof fn law_timed_out_commands_are_never_replayed(
    plan: Plan,
    revision: Seq<char>,
    blocked: bool,
    output_incomplete: bool,
    exit_code: Option<i64>,
    output_recorded: bool,
    temp_exists: bool,
    target_exists: bool,
)
    ensures
        command_verdict(true, output_incomplete, exit_code) matches Some(e) && e.code == "EXEC_UNCERTAIN"@,
        failure_kind(output_recorded, true, temp_exists, target_exists) == Failure::NeedsReview,
        admission(plan, "needs_review"@, revision, blocked) matches Err(e) && e.code == "JOB_BLOCKED"@,
{
    reveal_strlit("needs_review");
    reveal_strlit("succeeded");
}

/// An interrupted copy whose recorded output is at its destination,
/// unchanged, with the input's content, while the input itself still
/// verifies, is acknowledged: recovery gives that destination snapshot.
pub proof fn law_completed_copies_are_acknowledged(
    from: FsPath,
    to: FsPath,
    conflict: Conflict,
    r: Receipt,
    probe: RecoveryProbe,
    recorded: Snapshot,
    found: Snapshot,
)
    requires
        r.after == Some(recorded),
        probe.target == Some(found),
        same_version_spec(recorded, found),
        found.sha256@ == r.before.sha256@,
        found.size_bytes == r.before.size_bytes,
        probe.source_now == Ok::<Snapshot, Error>(r.before),
    ensures
        recovery(Action::Copy { from, to, conflict }, r, probe) == Ok::<Option<Snapshot>, ErrorView>(Some(found)),
{
}

/// Unresolved prior work on a plan's input refuses every admission but the
/// reuse of a succeeded result: a current plan in any other status, an
/// interrupted one included, is refused with `JOB_BLOCKED`.
pub proof fn law_blocked_inputs_refuse_admission(plan: Plan, status: Seq<char>, revision: Seq<char>)
    requires
        status != "succeeded"@,
        plan.format_version == 1,
        plan.rule_revision@ == revision,
    ensures
        admission(plan, status, revision, true) matches Err(e) && e.code == "JOB_BLOCKED"@,
{
}

/// A current, unblocked plan that has not started starts fresh, and one
/// that was interrupted in any other non-final status resumes.
pub proof fn law_unblocked_plans_start_or_resume(plan: Plan, status: Seq<char>, revision: Seq<char>)
    requires
        status != "succeeded"@,
        !is_blocking_status(status),
        plan.format_version == 1,
        plan.rule_revision@ == revision,
    ensures
        status == "planned"@ ==> admission(plan, status, revision, false) == Ok::<Admission, ErrorView>(
            Admission::Fresh,
        ),
        status != "planned"@ ==> admission(plan, status, revision, false) == Ok::<Admission, ErrorView>(
            Admission::Resume,
        ),
{
}

/// An interrupted move or rename whose recorded output is at its
/// destination, unchanged, with the input's content, is acknowledged once
/// its source is gone, and left for review while the source is still there.
pub proof fn law_completed_moves_are_acknowledged(
    action: Action,
    r: Receipt,
    probe: RecoveryProbe,
    recorded: Snapshot,
    found: Snapshot,
)
    requires
        action is Move || action is Rename,
        r.after == Some(recorded),
        probe.target == Some(found),
        same_version_spec(recorded, found),
        found.sha256@ == r.before.sha256@,
        found.size_bytes == r.before.size_bytes,
    ensures
        probe.source_present == Ok::<bool, Error>(false) ==> recovery(action, r, probe) == Ok::<
            Option<Snapshot>,
            ErrorView,
        >(Some(found)),
        probe.source_present == Ok::<bool, Error>(true) ==> recovery(action, r, probe) == Ok::<
            Option<Snapshot>,
            ErrorView,
        >(None),
{
}

/// Nothing is acknowledged where the destination is missing or does not
/// hold the input's content.
pub proof fn law_missing_or_different_outputs_are_not_acknowledged(action: Action, r: Receipt, probe: RecoveryProbe)
    requires
        probe.target is None || probe.target->0.sha256@ != r.before.sha256@ || probe.target->0.size_bytes
            != r.before.size_bytes,
    ensures
        recovery(action, r, probe) == Ok::<Option<Snapshot>, ErrorView>(None),
{
}

} // verus!
