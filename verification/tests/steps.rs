use filet_core::paths::FsPath;
use filet_core::step::{CommandResult, LinkResult, Phase, StepAction, StepEvent, StepMachine};
use filet_core::{Action, Conflict, Error, Snapshot};

fn path(parts: &[&str]) -> FsPath {
    FsPath { parts: parts.iter().map(|s| s.to_string()).collect() }
}

fn snap(p: FsPath, sha: &str) -> Snapshot {
    Snapshot {
        path: p,
        identity: "1:2".into(),
        size_bytes: 14,
        modified_ns: "100".into(),
        modified_at: None,
        created_at: None,
        sha256: sha.into(),
    }
}

fn input() -> Snapshot {
    snap(path(&["inbox", "a.pdf"]), "aaa")
}

fn moved(conflict: Conflict) -> Action {
    Action::Move { from: path(&["inbox", "a.pdf"]), to: path(&["archive", "a.pdf"]), conflict }
}

fn copied() -> Action {
    Action::Copy { from: path(&["inbox", "a.pdf"]), to: path(&["backup", "a.pdf"]), conflict: Conflict::Error }
}

fn published(p: &[&str]) -> Snapshot {
    let mut s = snap(path(p), "aaa");
    s.identity = "3:4".into();
    s
}

#[test]
fn a_linked_move_publishes_verifies_then_removes_its_input() {
    let mut m = StepMachine::start(moved(Conflict::Error), input(), Some(path(&["archive", ".filet-p-0.tmp"])));
    assert!(matches!(m.advance(StepEvent::Go), StepAction::VerifyInput));
    assert!(matches!(m.advance(StepEvent::Snapshot(Ok(input()))), StepAction::ProbeTarget));
    assert!(matches!(m.advance(StepEvent::Present(Ok(false))), StepAction::Prepare));
    assert!(matches!(m.advance(StepEvent::Done(Ok(()))), StepAction::Link));
    assert!(matches!(m.advance(StepEvent::Linked(LinkResult::Linked)), StepAction::SnapshotTarget));
    assert!(matches!(m.advance(StepEvent::Snapshot(Ok(published(&["archive", "a.pdf"])))), StepAction::RecordPublished));
    assert!(m.receipt.after.is_some());
    assert!(matches!(m.advance(StepEvent::Done(Ok(()))), StepAction::VerifyInput));
    assert!(matches!(m.advance(StepEvent::Snapshot(Ok(input()))), StepAction::RemoveSource));
    assert!(matches!(m.advance(StepEvent::Done(Ok(()))), StepAction::Finish));
    assert_eq!(m.phase, Phase::Finished);
    assert!(m.moved());
}

#[test]
fn a_copy_goes_through_its_temporary_file_and_keeps_its_input() {
    let mut m = StepMachine::start(copied(), input(), Some(path(&["backup", ".filet-p-0.tmp"])));
    m.advance(StepEvent::Go);
    m.advance(StepEvent::Snapshot(Ok(input())));
    m.advance(StepEvent::Present(Ok(false)));
    assert!(matches!(m.advance(StepEvent::Done(Ok(()))), StepAction::CopyViaTemp));
    assert!(matches!(m.advance(StepEvent::Done(Ok(()))), StepAction::SnapshotTarget));
    m.advance(StepEvent::Snapshot(Ok(published(&["backup", "a.pdf"]))));
    m.advance(StepEvent::Done(Ok(())));
    assert!(matches!(m.advance(StepEvent::Snapshot(Ok(input()))), StepAction::RemoveTemp));
    assert!(matches!(m.advance(StepEvent::Done(Ok(()))), StepAction::Finish));
    assert!(!m.moved());
}

#[test]
fn a_move_that_cannot_link_copies_and_cleans_up() {
    let mut m = StepMachine::start(moved(Conflict::Error), input(), Some(path(&["archive", ".filet-p-0.tmp"])));
    m.advance(StepEvent::Go);
    m.advance(StepEvent::Snapshot(Ok(input())));
    m.advance(StepEvent::Present(Ok(false)));
    m.advance(StepEvent::Done(Ok(())));
    assert!(matches!(m.advance(StepEvent::Linked(LinkResult::Unsupported)), StepAction::CopyViaTemp));
    m.advance(StepEvent::Done(Ok(())));
    m.advance(StepEvent::Snapshot(Ok(published(&["archive", "a.pdf"]))));
    m.advance(StepEvent::Done(Ok(())));
    assert!(matches!(m.advance(StepEvent::Snapshot(Ok(input()))), StepAction::RemoveSource));
    assert!(matches!(m.advance(StepEvent::Done(Ok(()))), StepAction::RemoveTemp));
    assert!(matches!(m.advance(StepEvent::Done(Ok(()))), StepAction::Finish));
    assert!(m.moved());
}

#[test]
fn existing_destinations_fail_or_skip_the_step() {
    let mut m = StepMachine::start(moved(Conflict::Error), input(), None);
    m.advance(StepEvent::Go);
    m.advance(StepEvent::Snapshot(Ok(input())));
    match m.advance(StepEvent::Present(Ok(true))) {
        StepAction::Fail(e) => {
            assert_eq!(e.code, "TARGET_CONFLICT");
            assert_eq!(e.message, "/archive/a.pdf");
        }
        other => panic!("unexpected {other:?}"),
    }
    let mut m = StepMachine::start(moved(Conflict::Skip), input(), None);
    m.advance(StepEvent::Go);
    m.advance(StepEvent::Snapshot(Ok(input())));
    assert!(matches!(m.advance(StepEvent::Present(Ok(true))), StepAction::Finish));
    assert!(m.receipt.skipped);
    assert!(!m.moved());
    let mut m = StepMachine::start(moved(Conflict::Error), input(), None);
    m.advance(StepEvent::Go);
    m.advance(StepEvent::Snapshot(Ok(input())));
    m.advance(StepEvent::Present(Ok(false)));
    m.advance(StepEvent::Done(Ok(())));
    assert!(matches!(m.advance(StepEvent::Linked(LinkResult::Exists)), StepAction::Fail(e) if e.code == "TARGET_CONFLICT"));
}

#[test]
fn changed_inputs_and_outputs_stop_the_step() {
    let mut m = StepMachine::start(moved(Conflict::Error), input(), None);
    m.advance(StepEvent::Go);
    let changed = snap(path(&["inbox", "a.pdf"]), "bbb");
    assert!(matches!(m.advance(StepEvent::Snapshot(Ok(changed))), StepAction::Fail(e) if e.code == "PLAN_STALE"));
    let mut m = StepMachine::start(moved(Conflict::Error), input(), None);
    m.advance(StepEvent::Go);
    m.advance(StepEvent::Snapshot(Ok(input())));
    m.advance(StepEvent::Present(Ok(false)));
    m.advance(StepEvent::Done(Ok(())));
    m.advance(StepEvent::Linked(LinkResult::Linked));
    let wrong = snap(path(&["archive", "a.pdf"]), "ccc");
    assert!(matches!(m.advance(StepEvent::Snapshot(Ok(wrong))), StepAction::Fail(e) if e.code == "OPERATION_UNCERTAIN"));
    assert!(m.receipt.after.is_none());
    let mut m = StepMachine::start(copied(), snap(path(&["elsewhere", "a.pdf"]), "aaa"), None);
    m.advance(StepEvent::Go);
    let there = snap(path(&["elsewhere", "a.pdf"]), "aaa");
    assert!(matches!(m.advance(StepEvent::Snapshot(Ok(there))), StepAction::Fail(e) if e.code == "STATE_ERROR"));
}

#[test]
fn commands_are_judged_and_their_output_kept() {
    let exec = Action::Exec { program: path(&["bin", "sh"]), args: vec![], cwd: path(&["cfg"]), env: vec![], timeout_ms: 30 };
    let mut m = StepMachine::start(exec, input(), None);
    m.advance(StepEvent::Go);
    assert!(matches!(m.advance(StepEvent::Snapshot(Ok(input()))), StepAction::RunCommand));
    let r = CommandResult { timed_out: true, output_incomplete: false, exit_code: None, output: "{\"timedOut\":true}".into() };
    assert!(matches!(m.advance(StepEvent::Command(Ok(r))), StepAction::Fail(e) if e.code == "EXEC_UNCERTAIN"));
    assert_eq!(m.receipt.output.as_deref(), Some("{\"timedOut\":true}"));
    assert!(matches!(m.advance(StepEvent::Go), StepAction::Fail(e) if e.code == "STATE_ERROR"));
    let exec = Action::Exec { program: path(&["bin", "sh"]), args: vec![], cwd: path(&["cfg"]), env: vec![], timeout_ms: 30 };
    let mut m = StepMachine::start(exec, input(), None);
    m.advance(StepEvent::Go);
    m.advance(StepEvent::Snapshot(Ok(input())));
    let ok = CommandResult { timed_out: false, output_incomplete: false, exit_code: Some(0), output: "{}".into() };
    assert!(matches!(m.advance(StepEvent::Command(Ok(ok))), StepAction::Finish));
    let failed = StepMachine::start(copied(), input(), None);
    let mut failed = failed;
    assert!(matches!(failed.advance(StepEvent::Done(Err(Error::new("IO_ERROR", "x")))), StepAction::Fail(e) if e.code == "STATE_ERROR"));
}
