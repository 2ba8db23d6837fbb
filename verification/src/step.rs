//! The protocol of one step of a plan, as a state machine: the caller performs
//! each requested action (a snapshot, a link, a copy, a removal, a command)
//! and hands back what happened; the machine decides what comes next and
//! keeps the step's receipt.

use vstd::prelude::*;
use vstd::string::*;
use crate::error::{Error, ErrorView, fault};
use crate::executor::{check_published, check_source, command_verdict, judge_command};
use crate::model::{Action, Conflict, Receipt, Snapshot, moves_ref, transfer_of};
use crate::paths::{FsPath, path_text};
use crate::snapshot::{same_version_spec, verify, verify_outcome};
use crate::text::opt_text;

verus! {

/// How far a step has come.
#[derive(Debug, Clone, Copy, PartialEq, Eq, Structural)]
pub enum Phase {
    /// Nothing done yet.
    Begin,
    /// Waiting for a fresh snapshot of the input.
    Verifying,
    /// Waiting to learn whether the destination exists.
    Probing,
    /// Waiting for the destination directory (and the record that the step started).
    Preparing,
    /// Waiting for the input to be hard-linked to the destination.
    Linking,
    /// Waiting for the input to be copied to the temporary file and published.
    Copying,
    /// Waiting for a snapshot of the published destination; `linked` tells
    /// whether it was published by a link of the input itself.
    Snapshotting { linked: bool },
    /// Waiting for the published output to be recorded.
    Recording { linked: bool },
    /// Waiting for a fresh snapshot of the input after publication.
    Reverifying { linked: bool },
    /// Waiting for the input of a move to be removed.
    Removing { linked: bool },
    /// Waiting for the temporary file to be removed.
    Cleaning,
    /// Waiting for the command to run.
    Running,
    /// The step succeeded (perhaps skipped).
    Finished,
    /// The step failed.
    Failed,
}

/// How a hard link of the input to the destination went.
#[derive(Debug, Clone, Copy, PartialEq, Eq, Structural)]
pub enum LinkResult {
    Linked,
    /// The destination appeared in the meantime.
    Exists,
    /// The filesystem cannot link here; the input is copied instead.
    Unsupported,
}

/// What a finished command reported.
#[derive(Debug, Clone)]
pub struct CommandResult {
    pub timed_out: bool,
    pub output_incomplete: bool,
    pub exit_code: Option<i64>,
    /// The command's result as JSON text.
    pub output: String,
}

/// What happened when the caller performed the last action.
#[derive(Debug)]
pub enum StepEvent {
    /// The step begins.
    Go,
    /// A snapshot was taken (of the input or the destination).
    Snapshot(Result<Snapshot, Error>),
    /// Whether the destination exists.
    Present(Result<bool, Error>),
    /// A preparation, copy, record or removal was done.
    Done(Result<(), Error>),
    /// A hard link was attempted.
    Linked(LinkResult),
    /// The command ran.
    Command(Result<CommandResult, Error>),
}

/// What the caller is to do next.
#[derive(Debug)]
pub enum StepAction {
    /// Take a fresh snapshot of the input.
    VerifyInput,
    /// Refuse links on the destination's path and tell whether it exists.
    ProbeTarget,
    /// Create the destination's directory, refusing links, and record the step as started.
    Prepare,
    /// Hard-link the input to the destination without replacing anything.
    Link,
    /// Copy the input to the temporary file, check the copy, and hard-link it
    /// to the destination without replacing anything.
    CopyViaTemp,
    /// Make the destination durable and take its snapshot.
    SnapshotTarget,
    /// Record the published output in the receipt.
    RecordPublished,
    /// Remove the input and make that durable.
    RemoveSource,
    /// Remove the temporary file and make that durable.
    RemoveTemp,
    /// Record the step as started and run the command.
    RunCommand,
    /// The step is over and succeeded.
    Finish,
    /// The step failed.
    Fail(Error),
}

/// The kinds of actions, as contracts speak of them.
#[derive(Debug, Clone, Copy, PartialEq, Eq, Structural)]
pub enum Kind {
    VerifyInput,
    ProbeTarget,
    Prepare,
    Link,
    CopyViaTemp,
    SnapshotTarget,
    RecordPublished,
    RemoveSource,
    RemoveTemp,
    RunCommand,
    Finish,
}

/// An action as contracts speak of it.
pub enum Outcome {
    Act(Kind),
    Fail(ErrorView),
}

pub open spec fn outcome_of(a: StepAction) -> Outcome {
    match a {
        StepAction::VerifyInput => Outcome::Act(Kind::VerifyInput),
        StepAction::ProbeTarget => Outcome::Act(Kind::ProbeTarget),
        StepAction::Prepare => Outcome::Act(Kind::Prepare),
        StepAction::Link => Outcome::Act(Kind::Link),
        StepAction::CopyViaTemp => Outcome::Act(Kind::CopyViaTemp),
        StepAction::SnapshotTarget => Outcome::Act(Kind::SnapshotTarget),
        StepAction::RecordPublished => Outcome::Act(Kind::RecordPublished),
        StepAction::RemoveSource => Outcome::Act(Kind::RemoveSource),
        StepAction::RemoveTemp => Outcome::Act(Kind::RemoveTemp),
        StepAction::RunCommand => Outcome::Act(Kind::RunCommand),
        StepAction::Finish => Outcome::Act(Kind::Finish),
        StepAction::Fail(e) => Outcome::Fail(e@),
    }
}

/// One step of a plan in progress: its action, its receipt so far, and its phase.
#[derive(Debug)]
pub struct StepMachine {
    pub action: Action,
    pub receipt: Receipt,
    pub phase: Phase,
}

/// What one transition gives: the next phase, the receipt's changing parts
/// (skipped, published output, command output) and what to do.
pub struct Transition {
    pub phase: Phase,
    pub skipped: bool,
    pub after: Option<Snapshot>,
    pub output: Option<Seq<char>>,
    pub outcome: Outcome,
}

/// A transition that changes only the phase and asks for `kind`.
pub open spec fn go(m: StepMachine, phase: Phase, kind: Kind) -> Transition {
    Transition {
        phase,
        skipped: m.receipt.skipped,
        after: m.receipt.after,
        output: opt_text(m.receipt.output),
        outcome: Outcome::Act(kind),
    }
}

/// A failing transition.
pub open spec fn fail(m: StepMachine, e: ErrorView) -> Transition {
    Transition {
        phase: Phase::Failed,
        skipped: m.receipt.skipped,
        after: m.receipt.after,
        output: opt_text(m.receipt.output),
        outcome: Outcome::Fail(e),
    }
}

/// The destination of the step's transfer.
pub open spec fn target(m: StepMachine) -> Seq<Seq<char>> {
    match transfer_of(m.action) {
        Some((_, to, _)) => to,
        None => seq![],
    }
}

/// Once the input is verified afresh, what follows the publication: the
/// input's removal (moves), the temporary file's removal (copies made through
/// it), or the end.
pub open spec fn after_reverify(m: StepMachine, linked: bool) -> Transition {
    if moves_ref(m.action) {
        go(m, Phase::Removing { linked }, Kind::RemoveSource)
    } else if !linked {
        go(m, Phase::Cleaning, Kind::RemoveTemp)
    } else {
        go(m, Phase::Finished, Kind::Finish)
    }
}

/// The transition of a step on an event. An event that does not fit the
/// phase fails the step.
pub open spec fn transition(m: StepMachine, e: StepEvent) -> Transition {
    let input = m.receipt.before;
    match (m.phase, e) {
        (Phase::Begin, StepEvent::Go) => go(m, Phase::Verifying, Kind::VerifyInput),
        (Phase::Verifying, StepEvent::Snapshot(s)) => match verify_outcome(input, s) {
            Some(err) => fail(m, err),
            None => match transfer_of(m.action) {
                Some((from, _, _)) => if from != input.path@ {
                    fail(m, fault("STATE_ERROR"@, "FileRef and resolved plan disagree"@))
                } else {
                    go(m, Phase::Probing, Kind::ProbeTarget)
                },
                None => go(m, Phase::Running, Kind::RunCommand),
            },
        },
        (Phase::Probing, StepEvent::Present(p)) => match p {
            Err(err) => fail(m, err@),
            Ok(true) => match transfer_of(m.action) {
                Some((_, _, Conflict::Skip)) => Transition {
                    phase: Phase::Finished,
                    skipped: true,
                    after: m.receipt.after,
                    output: opt_text(m.receipt.output),
                    outcome: Outcome::Act(Kind::Finish),
                },
                Some((_, to, _)) => fail(m, fault("TARGET_CONFLICT"@, path_text(to))),
                None => fail(m, fault("STATE_ERROR"@, "unexpected event for this step"@)),
            },
            Ok(false) => go(m, Phase::Preparing, Kind::Prepare),
        },
        (Phase::Preparing, StepEvent::Done(d)) => match d {
            Err(err) => fail(m, err@),
            Ok(()) => if moves_ref(m.action) {
                go(m, Phase::Linking, Kind::Link)
            } else {
                go(m, Phase::Copying, Kind::CopyViaTemp)
            },
        },
        (Phase::Linking, StepEvent::Linked(l)) => match l {
            LinkResult::Linked => go(m, Phase::Snapshotting { linked: true }, Kind::SnapshotTarget),
            LinkResult::Exists => match transfer_of(m.action) {
                Some((_, to, _)) => fail(m, fault("TARGET_CONFLICT"@, path_text(to))),
                None => fail(m, fault("STATE_ERROR"@, "unexpected event for this step"@)),
            },
            LinkResult::Unsupported => go(m, Phase::Copying, Kind::CopyViaTemp),
        },
        (Phase::Copying, StepEvent::Done(d)) => match d {
            Err(err) => fail(m, err@),
            Ok(()) => go(m, Phase::Snapshotting { linked: false }, Kind::SnapshotTarget),
        },
        (Phase::Snapshotting { linked }, StepEvent::Snapshot(s)) => match s {
            Err(err) => fail(m, err@),
            Ok(after) => if after.sha256@ != input.sha256@ || after.size_bytes != input.size_bytes {
                fail(m, fault("OPERATION_UNCERTAIN"@, "destination changed before verification"@))
            } else {
                Transition {
                    phase: Phase::Recording { linked },
                    skipped: m.receipt.skipped,
                    after: Some(after),
                    output: opt_text(m.receipt.output),
                    outcome: Outcome::Act(Kind::RecordPublished),
                }
            },
        },
        (Phase::Recording { linked }, StepEvent::Done(d)) => match d {
            Err(err) => fail(m, err@),
            Ok(()) => go(m, Phase::Reverifying { linked }, Kind::VerifyInput),
        },
        (Phase::Reverifying { linked }, StepEvent::Snapshot(s)) => match verify_outcome(input, s) {
            Some(err) => fail(m, err),
            None => after_reverify(m, linked),
        },
        (Phase::Removing { linked }, StepEvent::Done(d)) => match d {
            Err(err) => fail(m, err@),
            Ok(()) => if !linked {
                go(m, Phase::Cleaning, Kind::RemoveTemp)
            } else {
                go(m, Phase::Finished, Kind::Finish)
            },
        },
        (Phase::Cleaning, StepEvent::Done(d)) => match d {
            Err(err) => fail(m, err@),
            Ok(()) => go(m, Phase::Finished, Kind::Finish),
        },
        (Phase::Running, StepEvent::Command(c)) => match c {
            Err(err) => fail(m, err@),
            Ok(r) => {
                let t = Transition {
                    phase: Phase::Finished,
                    skipped: m.receipt.skipped,
                    after: m.receipt.after,
                    output: Some(r.output@),
                    outcome: Outcome::Act(Kind::Finish),
                };
                match command_verdict(r.timed_out, r.output_incomplete, r.exit_code) {
                    Some(err) => Transition {
                        phase: Phase::Failed,
                        skipped: t.skipped,
                        after: t.after,
                        output: t.output,
                        outcome: Outcome::Fail(err),
                    },
                    None => t,
                }
            },
        },
        _ => fail(m, fault("STATE_ERROR"@, "unexpected event for this step"@)),
    }
}

/// The path of the file reference after a step: the destination of a
/// finished, unskipped move or rename, otherwise the input's path.
pub open spec fn current_after(m: StepMachine) -> Snapshot {
    if m.phase == Phase::Finished && moves_ref(m.action) && !m.receipt.skipped && m.receipt.after is Some {
        m.receipt.after->0
    } else {
        m.receipt.before
    }
}

/// The machine's invariant over its parts: a published output has the
/// input's content, once past publication it is recorded, and only moves
/// remove their input.
pub open spec fn wf_parts(phase: Phase, action: Action, before: Snapshot, after: Option<Snapshot>) -> bool {
    &&& (after matches Some(a) ==> a.sha256@ == before.sha256@ && a.size_bytes == before.size_bytes)
    &&& (phase is Recording || phase is Reverifying || phase is Removing) ==> after is Some
    &&& (phase is Removing ==> moves_ref(action))
}

pub open spec fn step_wf(m: StepMachine) -> bool {
    wf_parts(m.phase, m.action, m.receipt.before, m.receipt.after)
}

/// Every transition keeps the machine's invariant.
pub proof fn law_steps_keep_their_invariant(m: StepMachine, e: StepEvent)
    requires
        step_wf(m),
    ensures
        ({
            let t = transition(m, e);
            wf_parts(t.phase, m.action, m.receipt.before, t.after)
        }),
{
}

/// A move removes its input only once its output is published with the
/// input's exact content and the input has been verified unchanged
/// afterwards.
pub proof fn law_inputs_are_removed_only_after_verified_publication(m: StepMachine, e: StepEvent)
    requires
        step_wf(m),
        transition(m, e).outcome == Outcome::Act(Kind::RemoveSource),
    ensures
        moves_ref(m.action),
        m.phase is Reverifying,
        e matches StepEvent::Snapshot(Ok(s)) && same_version_spec(m.receipt.before, s),
        m.receipt.after matches Some(a) && a.sha256@ == m.receipt.before.sha256@ && a.size_bytes
            == m.receipt.before.size_bytes,
{
}

/// Nothing is written to a destination that was found to exist: the step
/// prepares its destination only once the probe found it absent, and links
/// or copies only after that preparation.
pub proof fn law_existing_destinations_are_never_replaced(m: StepMachine, e: StepEvent)
    ensures
        transition(m, e).outcome == Outcome::Act(Kind::Prepare) ==> m.phase == Phase::Probing && (
        e matches StepEvent::Present(Ok(false))),
        transition(m, e).outcome == Outcome::Act(Kind::Link) ==> m.phase == Phase::Preparing,
        transition(m, e).outcome == Outcome::Act(Kind::CopyViaTemp) ==> m.phase == Phase::Preparing
            || m.phase == Phase::Linking,
{
}

/// A step is skipped only where its destination exists and its policy is `skip`.
pub proof fn law_only_existing_destinations_are_skipped(m: StepMachine, e: StepEvent)
    requires
        !m.receipt.skipped,
        transition(m, e).skipped,
    ensures
        m.phase == Phase::Probing,
        e matches StepEvent::Present(Ok(true)),
        transfer_of(m.action) matches Some(t) && t.2 == Conflict::Skip,
{
}

/// A command's output is always recorded, and its step succeeds only when it
/// finished in time with its pipes closed and exit code 0.
pub proof fn law_commands_are_judged_on_their_output(m: StepMachine, e: StepEvent, r: CommandResult)
    requires
        m.phase == Phase::Running,
        e == StepEvent::Command(Ok(r)),
    ensures
        transition(m, e).output == Some(r.output@),
        transition(m, e).outcome == Outcome::Act(Kind::Finish) <==> command_verdict(
            r.timed_out,
            r.output_incomplete,
            r.exit_code,
        ) is None,
{
}

impl StepMachine {
    /// A step about to begin on the file now at `current`, with the temporary
    /// file recorded for it.
    pub fn start(action: Action, current: Snapshot, temp: Option<FsPath>) -> (m: StepMachine)
        ensures
            m.action == action,
            m.receipt.before == current,
            m.receipt.after is None,
            m.receipt.temp == temp,
            !m.receipt.skipped,
            m.receipt.output is None,
            m.phase == Phase::Begin,
            step_wf(m),
    {
        StepMachine {
            action,
            receipt: Receipt { before: current, after: None, temp, skipped: false, output: None },
            phase: Phase::Begin,
        }
    }

    fn failing(&mut self, e: Error) -> (a: StepAction)
        ensures
            final(self).phase == Phase::Failed,
            final(self).action == old(self).action,
            final(self).receipt == old(self).receipt,
            a matches StepAction::Fail(x) && x@ == e@,
    {
        self.phase = Phase::Failed;
        StepAction::Fail(e)
    }

    fn moving(&mut self, phase: Phase, a: StepAction) -> (r: StepAction)
        ensures
            final(self).phase == phase,
            final(self).action == old(self).action,
            final(self).receipt == old(self).receipt,
            r == a,
    {
        self.phase = phase;
        a
    }

    /// Takes the step one transition further on what the last action gave.
    #[verifier::rlimit(60)]
    pub fn advance(&mut self, e: StepEvent) -> (a: StepAction)
        ensures
            ({
                let t = transition(*old(self), e);
                &&& final(self).phase == t.phase
                &&& final(self).action == old(self).action
                &&& final(self).receipt.before == old(self).receipt.before
                &&& final(self).receipt.temp == old(self).receipt.temp
                &&& final(self).receipt.skipped == t.skipped
                &&& final(self).receipt.after == t.after
                &&& opt_text(final(self).receipt.output) == t.output
                &&& outcome_of(a) == t.outcome
            }),
    {
        let phase = self.phase;
        match (phase, e) {
            (Phase::Begin, StepEvent::Go) => self.moving(Phase::Verifying, StepAction::VerifyInput),
            (Phase::Verifying, StepEvent::Snapshot(s)) => match verify(&self.receipt.before, s) {
                Err(err) => self.failing(err),
                Ok(()) => {
                    let checked = match self.action.transfer() {
                        Some((from, _, _)) => Some(check_source(from, &self.receipt.before)),
                        None => None,
                    };
                    match checked {
                        Some(Err(err)) => self.failing(err),
                        Some(Ok(())) => self.moving(Phase::Probing, StepAction::ProbeTarget),
                        None => self.moving(Phase::Running, StepAction::RunCommand),
                    }
                },
            },
            (Phase::Probing, StepEvent::Present(p)) => match p {
                Err(err) => self.failing(err),
                Ok(true) => {
                    let found = match self.action.transfer() {
                        Some((_, to, policy)) => Some((*policy == Conflict::Skip, to.display())),
                        None => None,
                    };
                    match found {
                        Some((true, _)) => {
                            self.receipt.skipped = true;
                            self.moving(Phase::Finished, StepAction::Finish)
                        },
                        Some((false, shown)) => self.failing(Error::with_message("TARGET_CONFLICT", shown)),
                        None => self.failing(Error::new("STATE_ERROR", "unexpected event for this step")),
                    }
                },
                Ok(false) => self.moving(Phase::Preparing, StepAction::Prepare),
            },
            (Phase::Preparing, StepEvent::Done(d)) => match d {
                Err(err) => self.failing(err),
                Ok(()) => if self.action.is_move() {
                    self.moving(Phase::Linking, StepAction::Link)
                } else {
                    self.moving(Phase::Copying, StepAction::CopyViaTemp)
                },
            },
            (Phase::Linking, StepEvent::Linked(l)) => match l {
                LinkResult::Linked => self.moving(Phase::Snapshotting { linked: true }, StepAction::SnapshotTarget),
                LinkResult::Exists => {
                    let shown = match self.action.transfer() {
                        Some((_, to, _)) => Some(to.display()),
                        None => None,
                    };
                    match shown {
                        Some(t) => self.failing(Error::with_message("TARGET_CONFLICT", t)),
                        None => self.failing(Error::new("STATE_ERROR", "unexpected event for this step")),
                    }
                },
                LinkResult::Unsupported => self.moving(Phase::Copying, StepAction::CopyViaTemp),
            },
            (Phase::Copying, StepEvent::Done(d)) => match d {
                Err(err) => self.failing(err),
                Ok(()) => self.moving(Phase::Snapshotting { linked: false }, StepAction::SnapshotTarget),
            },
            (Phase::Snapshotting { linked }, StepEvent::Snapshot(s)) => match s {
                Err(err) => self.failing(err),
                Ok(after) => match check_published(&self.receipt.before, &after) {
                    Err(err) => self.failing(err),
                    Ok(()) => {
                        self.receipt.after = Some(after);
                        self.moving(Phase::Recording { linked }, StepAction::RecordPublished)
                    },
                },
            },
            (Phase::Recording { linked }, StepEvent::Done(d)) => match d {
                Err(err) => self.failing(err),
                Ok(()) => self.moving(Phase::Reverifying { linked }, StepAction::VerifyInput),
            },
            (Phase::Reverifying { linked }, StepEvent::Snapshot(s)) => match verify(&self.receipt.before, s) {
                Err(err) => self.failing(err),
                Ok(()) => if self.action.is_move() {
                    self.moving(Phase::Removing { linked }, StepAction::RemoveSource)
                } else if !linked {
                    self.moving(Phase::Cleaning, StepAction::RemoveTemp)
                } else {
                    self.moving(Phase::Finished, StepAction::Finish)
                },
            },
            (Phase::Removing { linked }, StepEvent::Done(d)) => match d {
                Err(err) => self.failing(err),
                Ok(()) => if !linked {
                    self.moving(Phase::Cleaning, StepAction::RemoveTemp)
                } else {
                    self.moving(Phase::Finished, StepAction::Finish)
                },
            },
            (Phase::Cleaning, StepEvent::Done(d)) => match d {
                Err(err) => self.failing(err),
                Ok(()) => self.moving(Phase::Finished, StepAction::Finish),
            },
            (Phase::Running, StepEvent::Command(c)) => match c {
                Err(err) => self.failing(err),
                Ok(r) => {
                    let verdict = judge_command(r.timed_out, r.output_incomplete, r.exit_code);
                    self.receipt.output = Some(r.output);
                    match verdict {
                        Err(err) => self.failing(err),
                        Ok(()) => self.moving(Phase::Finished, StepAction::Finish),
                    }
                },
            },
            _ => self.failing(Error::new("STATE_ERROR", "unexpected event for this step")),
        }
    }

    /// Whether the step moved the file reference: a finished, unskipped move
    /// or rename whose output was published.
    pub fn moved(&self) -> (r: bool)
        ensures
            r == (self.phase == Phase::Finished && moves_ref(self.action) && !self.receipt.skipped
                && self.receipt.after is Some),
    {
        self.phase == Phase::Finished && self.action.is_move() && !self.receipt.skipped && self.receipt.after.is_some()
    }
}

} // verus!
