use filet_core::bindings::{glob_check, glob_match, parse_rfc3339};
use filet_core::config::{admit_module, ascending_ids, insert_package, text_precedes, Package, check_yaml, duration, validate_condition, Condition, Source, Ready, YamlValue};
use filet_core::daemon::{
    observations_outdated, observe, rule_delay, scan_depth, scan_is_initial, scan_status, scan_waits, source_delay, Observation,
    Observed, UNAVAILABLE_RETRY_MS,
};
use filet_core::executor::{
    check_conflicts, classify_failure, decide_admission, judge_command, recover_step, replay_recorded, skip_stops_plan, Admission,
    Failure, RecoveryProbe,
};
use filet_core::imports::{resolve_import, ImportError};
use filet_core::json::{decode_drafts, encode_evaluation, quote, JsonValue};
use filet_core::paths::{check_windows_name, expand_lexical, split_name, valid_name, FsPath};
use filet_core::planner::{Destination, ignored, output_paths, plan_risks, resolve, validate_drafts, Placement};
use filet_core::process::{command_args, output_room};
use filet_core::script::drafts_from_output;
use filet_core::snapshot::{check_copy, context, digest_parts, hash, same_version, snapshot_of, verify, ContentHasher};
use filet_core::state::plan_touches;
use filet_core::{Action, Arg, Conflict, Draft, Error, Evaluation, Event, Exec, FileContext, PathArg, Plan, Receipt, Rename, Snapshot, Transfer};

fn path(parts: &[&str]) -> FsPath {
    FsPath { parts: parts.iter().map(|s| s.to_string()).collect() }
}

fn snap(p: FsPath, sha: &str) -> Snapshot {
    Snapshot {
        path: p,
        identity: "1:2".into(),
        size_bytes: 14,
        modified_ns: "100".into(),
        modified_at: Some("2026-09-01T00:00:00+00:00".into()),
        created_at: None,
        sha256: sha.into(),
    }
}

fn transfer(to: &str) -> Transfer {
    Transfer { file: "input".into(), to: to.into(), on_conflict: Conflict::Error }
}

fn empty_condition() -> Condition {
    Condition {
        extension: None,
        name_glob: None,
        min_size_bytes: None,
        max_size_bytes: None,
        modified_older_than: None,
        created_older_than: None,
        all: None,
        any: None,
        not: None,
    }
}

fn evaluation(name: &str, ext: &str, size: u64, modified: Option<&str>) -> Evaluation {
    Evaluation {
        file: FileContext {
            file_ref: "input".into(),
            name: name.into(),
            stem: name.into(),
            extension: ext.into(),
            size_bytes: size,
            modified_at: modified.map(|s| s.to_string()),
            created_at: None,
            path: None,
        },
        event: Event { reason: "manual".into() },
        now: "2026-09-22T00:00:00Z".into(),
    }
}

fn absent(n: usize) -> Vec<Result<Destination, Error>> {
    (0..n).map(|_| Ok(Destination::Absent)).collect()
}

fn code(e: &Error) -> &str {
    e.code.as_str()
}

#[test]
fn durations_in_each_unit() {
    assert_eq!(duration("250ms").unwrap(), 250);
    assert_eq!(duration("3s").unwrap(), 3_000);
    assert_eq!(duration("10m").unwrap(), 600_000);
    assert_eq!(duration("1h").unwrap(), 3_600_000);
    assert_eq!(duration("2d").unwrap(), 172_800_000);
    assert_eq!(duration("18446744073709551615ms").unwrap(), u64::MAX);
}

#[test]
fn invalid_durations_are_refused() {
    let e = duration("5").unwrap_err();
    assert_eq!(code(&e), "CONFIG_INVALID");
    assert_eq!(e.message, "invalid duration: 5");
    for s in ["0s", "s", "-1s", "1.5s", "18446744073709551615s"] {
        let e = duration(s).unwrap_err();
        assert_eq!(e.message, format!("positive integer duration required: {s}"));
    }
}

#[test]
fn filenames_must_be_single_components() {
    assert!(valid_name("renamed.pdf").is_ok());
    for n in ["", ".", "..", "a/b", "a\\b", "a\0b"] {
        assert_eq!(code(&valid_name(n).unwrap_err()), "INVALID_PATH");
    }
}

#[test]
fn extension_and_dotfile_contract() {
    for (name, stem, ext) in [
        ("report.PDF", "report", "pdf"),
        (".profile", ".profile", ""),
        ("a.tar.gz", "a.tar", "gz"),
        ("plain", "plain", ""),
    ] {
        let s = snap(path(&["inbox", name]), "x");
        let c = context(&s, "manual", "2026-09-22T00:00:00+00:00".into()).unwrap();
        assert_eq!(c.file.extension, ext);
        assert_eq!(c.file.stem, stem);
        assert_eq!(c.file.name, name);
        assert_eq!(c.file.file_ref, "input");
        assert_eq!(c.file.path.as_deref(), Some(format!("/inbox/{name}").as_str()));
    }
    assert_eq!(split_name("a.tar.gz"), ("a.tar".to_string(), Some("gz".to_string())));
}

#[test]
fn oversized_files_cannot_be_shown_to_scripts() {
    let mut s = snap(path(&["inbox", "a.pdf"]), "x");
    s.size_bytes = 9_007_199_254_740_992;
    assert_eq!(code(&context(&s, "manual", "now".into()).unwrap_err()), "INTEGER_RANGE");
}

#[test]
fn draft_validation() {
    assert!(validate_drafts(&[Draft::Move(transfer("archive"))]).is_ok());
    let bad_ref = Draft::Move(Transfer { file: "someone-else".into(), to: "x".into(), on_conflict: Conflict::Error });
    assert_eq!(code(&validate_drafts(&[bad_ref]).unwrap_err()), "INVALID_FILE_REF");
    assert_eq!(code(&validate_drafts(&[Draft::Copy(transfer(""))]).unwrap_err()), "INVALID_ACTION");
    let exec = Exec {
        program: "/bin/echo".into(),
        args: vec![Arg::Path(PathArg { path_of: "input".into() })],
        cwd: None,
        env: vec![],
        timeout: "30s".into(),
    };
    let e = validate_drafts(&[Draft::Exec(exec.clone()), Draft::Move(transfer("x"))]).unwrap_err();
    assert_eq!(e.message, "exec must be the final action");
    let mut long = exec.clone();
    long.timeout = "2h".into();
    assert_eq!(validate_drafts(&[Draft::Exec(long)]).unwrap_err().message, "exec timeout exceeds one hour");
    let mut env = exec.clone();
    env.env = vec![("A=B".into(), "1".into())];
    assert_eq!(validate_drafts(&[Draft::Exec(env)]).unwrap_err().message, "invalid environment");
    let many: Vec<Draft> = (0..65).map(|_| Draft::Copy(transfer("x"))).collect();
    assert_eq!(code(&validate_drafts(&many).unwrap_err()), "ACTION_LIMIT");
}

#[test]
fn copy_rename_move_follow_the_file_reference() {
    let drafts = vec![
        Draft::Copy(transfer("backup")),
        Draft::Rename(Rename { file: "input".into(), name: "renamed.pdf".into(), on_conflict: Conflict::Error }),
        Draft::Move(transfer("archive")),
    ];
    let places = vec![Ok(Placement::Dir(path(&["backup"]))), Ok(Placement::Here), Ok(Placement::Dir(path(&["archive"])))];
    let actions = resolve(&path(&["inbox", "a.pdf"]), drafts, places, absent(3), false).unwrap();
    let shown: Vec<(String, String)> = actions
        .iter()
        .map(|a| {
            let (f, t, _) = a.transfer().unwrap();
            (f.display(), t.display())
        })
        .collect();
    assert_eq!(
        shown,
        vec![
            ("/inbox/a.pdf".to_string(), "/backup/a.pdf".to_string()),
            ("/inbox/a.pdf".to_string(), "/inbox/renamed.pdf".to_string()),
            ("/inbox/renamed.pdf".to_string(), "/archive/renamed.pdf".to_string()),
        ]
    );
    assert!(!actions[0].is_move());
    assert!(actions[1].is_move() && actions[2].is_move());
}

#[test]
fn repeated_or_noop_targets_are_refused() {
    let drafts = vec![Draft::Move(transfer("inbox"))];
    let e = resolve(&path(&["inbox", "a.pdf"]), drafts, vec![Ok(Placement::Dir(path(&["inbox"])))], absent(1), false).unwrap_err();
    assert_eq!(e.message, "no-op, cyclic, or repeated targets are unsupported");
    let drafts = vec![Draft::Copy(transfer("b")), Draft::Copy(transfer("b"))];
    let places = vec![Ok(Placement::Dir(path(&["b"]))), Ok(Placement::Dir(path(&["b"])))];
    assert_eq!(code(&resolve(&path(&["inbox", "a.pdf"]), drafts, places, absent(2), false).unwrap_err()), "INVALID_ACTION");
    let drafts = vec![Draft::Copy(transfer("b"))];
    let failed = resolve(&path(&["inbox", "a.pdf"]), drafts, vec![Err(Error::new("INVALID_PATH", "x"))], absent(1), false).unwrap_err();
    assert_eq!(code(&failed), "INVALID_PATH");
}

#[test]
fn resolved_commands_take_their_placement() {
    let exec = Exec {
        program: "tool".into(),
        args: vec![Arg::Literal("--in".into()), Arg::Path(PathArg { path_of: "input".into() })],
        cwd: None,
        env: vec![("PATH".into(), "/usr/bin".into())],
        timeout: "30ms".into(),
    };
    let places = vec![Ok(Placement::Command { program: path(&["usr", "bin", "tool"]), cwd: path(&["cfg"]) })];
    let actions = resolve(&path(&["inbox", "a.pdf"]), vec![Draft::Exec(exec)], places, absent(1), false).unwrap();
    match &actions[0] {
        Action::Exec { program, cwd, timeout_ms, .. } => {
            assert_eq!(program.display(), "/usr/bin/tool");
            assert_eq!(cwd.display(), "/cfg");
            assert_eq!(*timeout_ms, 30);
        }
        _ => panic!("expected a command"),
    }
    assert_eq!(plan_risks(&actions), vec!["external_effects_not_previewable_or_undoable".to_string()]);
    if let Action::Exec { args, .. } = &actions[0] {
        assert_eq!(command_args(args, &path(&["archive", "a.pdf"])), vec!["--in".to_string(), "/archive/a.pdf".to_string()]);
    }
}

#[test]
fn conditions_match_files() {
    let ev = evaluation("report.PDF", "pdf", 42, Some("2026-09-01T00:00:00Z"));
    let mut c = empty_condition();
    c.extension = Some("pdf".into());
    assert!(filet_core::planner::matches(&c, &ev).unwrap());
    c.name_glob = Some("*.PDF".into());
    assert!(filet_core::planner::matches(&c, &ev).unwrap());
    c.min_size_bytes = Some(43);
    assert!(!filet_core::planner::matches(&c, &ev).unwrap());
    let mut old = empty_condition();
    old.modified_older_than = Some("30d".into());
    assert!(!filet_core::planner::matches(&old, &ev).unwrap());
    old.modified_older_than = Some("20d".into());
    assert!(filet_core::planner::matches(&old, &ev).unwrap());
    let mut none = empty_condition();
    none.created_older_than = Some("1s".into());
    assert!(!filet_core::planner::matches(&none, &ev).unwrap());
    let mut not = empty_condition();
    not.not = Some(Box::new({
        let mut n = empty_condition();
        n.extension = Some("pdf".into());
        n
    }));
    assert!(!filet_core::planner::matches(&not, &ev).unwrap());
    let mut any = empty_condition();
    any.any = Some(vec![
        {
            let mut n = empty_condition();
            n.extension = Some("txt".into());
            n
        },
        empty_condition(),
    ]);
    assert!(filet_core::planner::matches(&any, &ev).unwrap());
}

#[test]
fn conditions_are_validated() {
    let mut c = empty_condition();
    c.extension = Some(".pdf".into());
    assert_eq!(validate_condition(&c).unwrap_err().message, "extension must be ASCII lowercase without a dot");
    let mut c = empty_condition();
    c.min_size_bytes = Some(5);
    c.max_size_bytes = Some(4);
    assert_eq!(validate_condition(&c).unwrap_err().message, "minSizeBytes exceeds maxSizeBytes");
    let mut c = empty_condition();
    c.name_glob = Some("[".into());
    assert_eq!(code(&validate_condition(&c).unwrap_err()), "CONFIG_INVALID");
    assert!(validate_condition(&empty_condition()).is_ok());
}

#[test]
fn glob_and_time_bindings() {
    assert!(glob_match("*.pdf", "a.pdf").unwrap());
    assert!(!glob_match("*.pdf", "a.txt").unwrap());
    assert!(glob_check("[").is_err());
    assert_eq!(parse_rfc3339("2026-09-22T00:00:00Z").unwrap(), (1_790_035_200, 0));
    assert!(parse_rfc3339("yesterday").is_err());
}

#[test]
fn sha256_is_hex() {
    assert_eq!(hash(b"abc"), "ba7816bf8f01cfea414140de5dae2223b00361a396177a9cb410ff61f20015ad");
    assert_eq!(digest_parts(&vec![b"a".to_vec(), vec![], b"bc".to_vec()]), hash(b"abc"));
}

#[test]
fn changed_content_is_stale() {
    let expected = snap(path(&["inbox", "a.pdf"]), "aaa");
    assert!(verify(&expected, Ok(expected.clone())).is_ok());
    let e = verify(&expected, Ok(snap(path(&["inbox", "a.pdf"]), "bbb"))).unwrap_err();
    assert_eq!(code(&e), "PLAN_STALE");
    assert_eq!(e.message, "input changed: /inbox/a.pdf");
    let e = verify(&expected, Err(Error::new("IO_ERROR", "gone"))).unwrap_err();
    assert_eq!(e.message, "IO_ERROR: gone");
    assert!(same_version(&expected, &expected.clone()));
}

fn probe(target: Option<Snapshot>, source_present: bool) -> RecoveryProbe {
    RecoveryProbe { target, temp: None, source_present: Ok(source_present), source_now: Err(Error::new("IO_ERROR", "gone")) }
}

#[test]
fn recovery_of_interrupted_steps() {
    let before = snap(path(&["inbox", "a.pdf"]), "aaa");
    let receipt = Receipt { before: before.clone(), after: None, temp: None, skipped: false, output: None };
    let moved = Action::Move { from: path(&["inbox", "a.pdf"]), to: path(&["archive", "a.pdf"]), conflict: Conflict::Error };
    let mut target = before.clone();
    target.path = path(&["archive", "a.pdf"]);
    let done = recover_step(&moved, &receipt, probe(Some(target.clone()), false)).unwrap();
    assert_eq!(done.unwrap().path.display(), "/archive/a.pdf");
    assert!(recover_step(&moved, &receipt, probe(Some(target.clone()), true)).unwrap().is_none());
    let exec = Action::Exec { program: path(&["bin", "echo"]), args: vec![], cwd: path(&["cfg"]), env: vec![], timeout_ms: 1 };
    assert!(recover_step(&exec, &receipt, probe(Some(target.clone()), false)).unwrap().is_none());
    let copy = Action::Copy { from: path(&["inbox", "a.pdf"]), to: path(&["backup", "a.pdf"]), conflict: Conflict::Error };
    let mut other = target.clone();
    other.identity = "9:9".into();
    assert!(recover_step(&copy, &receipt, probe(Some(other), false)).unwrap().is_none());
}

#[test]
fn admission_of_stored_plans() {
    let plan = Plan {
        format_version: 1,
        plan_id: "p1".into(),
        rule_id: "r".into(),
        rule_revision: "rev".into(),
        source: "inbox".into(),
        input_snapshot: snap(path(&["inbox", "a.pdf"]), "aaa"),
        actions: vec![],
        risks: vec![],
    };
    assert_eq!(decide_admission(&plan, "succeeded", "other", true).unwrap(), Admission::Reuse);
    let e = decide_admission(&plan, "failed", "rev", false).unwrap_err();
    assert_eq!(e.message, "p1: failed; inspect history before taking manual action");
    assert_eq!(code(&decide_admission(&plan, "planned", "new", false).unwrap_err()), "PLAN_STALE");
    assert_eq!(code(&decide_admission(&plan, "planned", "rev", true).unwrap_err()), "JOB_BLOCKED");
    assert_eq!(decide_admission(&plan, "planned", "rev", false).unwrap(), Admission::Fresh);
    assert_eq!(decide_admission(&plan, "applying", "rev", false).unwrap(), Admission::Resume);
}

#[test]
fn existing_destinations_refuse_or_skip() {
    let error = Action::Move { from: path(&["inbox", "a.pdf"]), to: path(&["archive", "a.pdf"]), conflict: Conflict::Error };
    let skip = Action::Move { from: path(&["inbox", "a.pdf"]), to: path(&["archive", "a.pdf"]), conflict: Conflict::Skip };
    let e = check_conflicts(&vec![error], &vec![Ok(true)]).unwrap_err();
    assert_eq!(code(&e), "TARGET_CONFLICT");
    assert_eq!(e.message, "/archive/a.pdf");
    assert!(check_conflicts(&vec![skip.clone()], &vec![Ok(true)]).is_ok());
    assert!(skip_stops_plan(&skip, true));
    let copy = Action::Copy { from: path(&["inbox", "a.pdf"]), to: path(&["b", "a.pdf"]), conflict: Conflict::Skip };
    assert!(!skip_stops_plan(&copy, true));
}

#[test]
fn command_outcomes() {
    assert_eq!(code(&judge_command(true, false, None).unwrap_err()), "EXEC_UNCERTAIN");
    assert_eq!(code(&judge_command(false, false, Some(1)).unwrap_err()), "EXEC_FAILED");
    assert!(judge_command(false, false, Some(0)).is_ok());
    let f = classify_failure(false, true, false, false);
    assert_eq!(f, Failure::NeedsReview);
    assert_eq!(f.job_status(), "needs_review");
    assert_eq!(f.step_status(), "uncertain");
    assert_eq!(classify_failure(false, false, false, false).job_status(), "failed");
}

fn observed(version: &str, handled: bool, status: &str) -> Observed {
    Observed { version: version.into(), handled, stable_since: 0, first_seen: 0, status: status.into() }
}

#[test]
fn observations_drive_processing() {
    assert_eq!(observe(&None, "v1", 1000, true, false, 10, 100), Observation::Record { first_seen: 1000, baseline: true });
    assert_eq!(observe(&None, "v1", 1000, false, false, 10, 100), Observation::Record { first_seen: 1000, baseline: false });
    let own = Some(observed("v1", true, "own_effect"));
    assert_eq!(observe(&own, "v1", 1000, false, true, 10, 100), Observation::Skip);
    let handled = Some(observed("v1", true, "observed"));
    assert_eq!(observe(&handled, "v1", 1000, false, false, 10, 100), Observation::Skip);
    assert_eq!(observe(&handled, "v1", 1000, false, true, 10, 100), Observation::Process { scheduled: true });
    let waiting = Some(observed("v1", false, "waiting"));
    assert_eq!(observe(&waiting, "v1", 5, false, false, 10, 100), Observation::Skip);
    assert_eq!(observe(&waiting, "v1", 500, false, false, 10, 100), Observation::Process { scheduled: false });
    let changing = Some(observed("v0", false, "waiting"));
    assert_eq!(observe(&changing, "v1", 500, false, false, 10, 100), Observation::Expired { first_seen: 0 });
    assert!(scan_is_initial(&None, "sig"));
    assert!(!scan_is_initial(&Some(("sig".into(), true)), "sig"));
    assert!(scan_is_initial(&Some(("old".into(), true)), "sig"));
    assert_eq!(rule_delay(true, 3, 60), 3);
    assert_eq!(source_delay(true, 600), 250);
    assert_eq!(source_delay(false, 600), 600);
}

#[test]
fn package_imports() {
    assert_eq!(resolve_import("rule.mjs", "rule.mjs", "./helper.mjs", false).unwrap(), "helper.mjs");
    assert_eq!(resolve_import("rule.mjs", "lib/a.mjs", "../b.mjs", false).unwrap(), "b.mjs");
    assert_eq!(resolve_import("rule.mjs", "filet:runner", "filet:entry", false).unwrap(), "rule.mjs");
    assert_eq!(resolve_import("rule.mjs", "rule.mjs", "@app/api", false).unwrap(), "@app/api");
    assert_eq!(resolve_import("rule.mjs", "rule.mjs", "../outside.mjs", false).unwrap_err(), ImportError::Escapes);
    assert_eq!(resolve_import("rule.mjs", "rule.mjs", "node:fs", false).unwrap_err(), ImportError::NotRelative);
    assert_eq!(resolve_import("rule.mjs", "rule.mjs", "./a.mjs", true).unwrap_err(), ImportError::Attributes);
}

#[test]
fn lexical_paths() {
    let base = path(&["cfg"]);
    assert_eq!(expand_lexical(&base, "inbox", None).unwrap().display(), "/cfg/inbox");
    assert_eq!(expand_lexical(&base, "a/../b/./c", None).unwrap().display(), "/cfg/b/c");
    assert_eq!(expand_lexical(&base, "/abs/x", None).unwrap().display(), "/abs/x");
    assert_eq!(expand_lexical(&base, "~/docs", Some("/home/u")).unwrap().display(), "/home/u/docs");
    assert_eq!(code(&expand_lexical(&base, "~", None).unwrap_err()), "INVALID_PATH");
}

#[test]
fn strict_yaml_shapes() {
    let tagged = YamlValue::Tagged;
    assert_eq!(check_yaml(&tagged, 0).unwrap_err().message, "YAML tags are unsupported");
    let merge = YamlValue::Mapping(vec![(Some("<<".into()), YamlValue::Scalar)]);
    assert_eq!(check_yaml(&merge, 0).unwrap_err().message, "YAML merge keys are unsupported");
    let key = YamlValue::Mapping(vec![(None, YamlValue::Scalar)]);
    assert_eq!(check_yaml(&key, 0).unwrap_err().message, "mapping keys must be strings");
    let mut deep = YamlValue::Scalar;
    for _ in 0..26 {
        deep = YamlValue::Sequence(vec![deep]);
    }
    assert_eq!(check_yaml(&deep, 0).unwrap_err().message, "YAML nesting exceeds 24");
    assert!(check_yaml(&YamlValue::Mapping(vec![(Some("path".into()), YamlValue::Scalar)]), 0).is_ok());
}

#[test]
fn ignored_names() {
    let source = Source {
        path: "inbox".into(),
        recursive: false,
        ignore: vec!["**/*.part".into()],
        ready: Ready { stable_for: "3s".into(), retry_for: "10m".into() },
        reconcile_every: "10m".into(),
    };
    let root = path(&["inbox"]);
    assert!(ignored(&source, &root, &path(&["inbox", ".filet-p-0.tmp"])).unwrap());
    assert!(ignored(&source, &root, &path(&["inbox", "a.part"])).unwrap());
    assert!(!ignored(&source, &root, &path(&["inbox", "a.pdf"])).unwrap());
}

#[test]
fn package_budgets() {
    assert_eq!(admit_module(0, 0, 10).unwrap(), 10);
    assert_eq!(code(&admit_module(128, 0, 1).unwrap_err()), "SCRIPT_LIMIT");
    assert_eq!(code(&admit_module(0, 4_194_300, 10).unwrap_err()), "SCRIPT_LIMIT");
    assert_eq!(code(&admit_module(0, 0, 1_048_577).unwrap_err()), "SCRIPT_LIMIT");
}

#[test]
fn plans_touch_their_paths() {
    let plan = Plan {
        format_version: 1,
        plan_id: "p".into(),
        rule_id: "r".into(),
        rule_revision: "rev".into(),
        source: "inbox".into(),
        input_snapshot: snap(path(&["inbox", "a.pdf"]), "aaa"),
        actions: vec![Action::Copy { from: path(&["inbox", "a.pdf"]), to: path(&["backup", "a.pdf"]), conflict: Conflict::Error }],
        risks: vec![],
    };
    assert!(plan_touches(&plan, &path(&["backup", "a.pdf"])));
    assert!(!plan_touches(&plan, &path(&["other"])));
    assert_eq!(output_paths(&plan).iter().map(|p| p.display()).collect::<Vec<_>>(), vec!["/backup/a.pdf".to_string()]);
    assert!(plan_risks(&plan.actions).is_empty());
}

#[test]
fn json_text_for_scripts() {
    assert_eq!(quote("a\"b\\c\n\u{1}"), "\"a\\\"b\\\\c\\n\\u0001\"");
    let ev = evaluation("r.pdf", "pdf", 42, None);
    assert_eq!(
        encode_evaluation(&ev),
        "{\"file\":{\"ref\":\"input\",\"name\":\"r.pdf\",\"stem\":\"r.pdf\",\"extension\":\"pdf\",\"sizeBytes\":42,\"modifiedAt\":null,\"createdAt\":null,\"path\":null},\"event\":{\"reason\":\"manual\"},\"now\":\"2026-09-22T00:00:00Z\"}"
    );
}

#[test]
fn script_output_is_decoded_and_checked() {
    let drafts = drafts_from_output("[{\"move\":{\"to\":\"archive\"}},{\"rename\":{\"name\":\"b.pdf\",\"onConflict\":\"skip\"}}]").unwrap();
    assert_eq!(drafts.len(), 2);
    match &drafts[0] {
        Draft::Move(t) => {
            assert_eq!(t.file, "input");
            assert_eq!(t.to, "archive");
            assert_eq!(t.on_conflict, Conflict::Error);
        }
        _ => panic!("expected a move"),
    }
    match &drafts[1] {
        Draft::Rename(r) => assert_eq!(r.on_conflict, Conflict::Skip),
        _ => panic!("expected a rename"),
    }
    let e = drafts_from_output("[{\"move\":{\"to\":\"x\",\"overwrite\":true}}]").unwrap_err();
    assert_eq!(code(&e), "INVALID_ACTION");
    assert_eq!(e.message, "unknown field `overwrite`, expected one of `file`, `to`, `onConflict`");
    assert_eq!(drafts_from_output("[{\"delete\":{}}]").unwrap_err().message, "unknown action; expected copy/move/rename/exec");
    assert_eq!(drafts_from_output("{}").unwrap_err().message, "expected an array of actions");
    assert_eq!(code(&drafts_from_output("[{\"move\":{\"to\":\"x\",\"file\":\"other\"}}]").unwrap_err()), "INVALID_FILE_REF");
    assert_eq!(code(&drafts_from_output("not json").unwrap_err()), "INVALID_ACTION");
    let big = format!("[\"{}\"]", "x".repeat(1_048_576));
    assert_eq!(code(&drafts_from_output(&big).unwrap_err()), "JS_OUTPUT_LIMIT");
    let exec = drafts_from_output("[{\"exec\":{\"program\":\"/bin/echo\",\"args\":[\"a\",{\"pathOf\":\"input\"}],\"env\":{\"PATH\":\"/bin\"}}}]").unwrap();
    match &exec[0] {
        Draft::Exec(x) => {
            assert_eq!(x.timeout, "30s");
            assert_eq!(x.args.len(), 2);
            assert!(matches!(&x.args[1], Arg::Path(p) if p.path_of == "input"));
            assert_eq!(x.env, vec![("PATH".to_string(), "/bin".to_string())]);
            assert!(x.cwd.is_none());
        }
        _ => panic!("expected a command"),
    }
}

#[test]
fn decoding_a_tree_directly() {
    let tree = JsonValue::List(vec![JsonValue::Fields(vec![(
        "copy".into(),
        JsonValue::Fields(vec![("to".into(), JsonValue::Number)]),
    )])]);
    assert_eq!(decode_drafts(&tree).unwrap_err().message, "expected a string for field `to`");
    let tree = JsonValue::List(vec![JsonValue::Fields(vec![("copy".into(), JsonValue::Fields(vec![]))])]);
    assert_eq!(decode_drafts(&tree).unwrap_err().message, "missing field `to`");
}

#[test]
fn recorded_steps_replay_the_file_reference() {
    let before = snap(path(&["inbox", "a.pdf"]), "aaa");
    let mut after = before.clone();
    after.path = path(&["archive", "a.pdf"]);
    let moved = Action::Move { from: path(&["inbox", "a.pdf"]), to: path(&["archive", "a.pdf"]), conflict: Conflict::Skip };
    let done = Receipt { before: before.clone(), after: Some(after.clone()), temp: None, skipped: false, output: None };
    let (current, stop) = replay_recorded(&moved, done, before.clone()).unwrap();
    assert_eq!(current.path.display(), "/archive/a.pdf");
    assert!(!stop);
    let skipped = Receipt { before: before.clone(), after: None, temp: None, skipped: true, output: None };
    let (current, stop) = replay_recorded(&moved, skipped, before.clone()).unwrap();
    assert_eq!(current.path.display(), "/inbox/a.pdf");
    assert!(stop);
    let missing = Receipt { before: before.clone(), after: None, temp: None, skipped: false, output: None };
    assert_eq!(replay_recorded(&moved, missing, before.clone()).unwrap_err().message, "missing move receipt");
    let copy = Action::Copy { from: path(&["inbox", "a.pdf"]), to: path(&["b", "a.pdf"]), conflict: Conflict::Skip };
    let skipped = Receipt { before: before.clone(), after: None, temp: None, skipped: true, output: None };
    assert!(!replay_recorded(&copy, skipped, before).unwrap().1);
}

#[test]
fn command_output_is_capped() {
    assert_eq!(output_room(0, 4096), 4096);
    assert_eq!(output_room(65_000, 4096), 536);
    assert_eq!(output_room(65_536, 10), 0);
}

#[test]
fn exec_timeout_is_at_most_one_hour() {
    let x = |t: &str| {
        Draft::Exec(Exec { program: "/bin/echo".into(), args: vec![], cwd: None, env: vec![], timeout: t.into() })
    };
    assert!(validate_drafts(&[x("1h")]).is_ok());
    assert!(validate_drafts(&[x("3600000ms")]).is_ok());
    assert_eq!(code(&validate_drafts(&[x("3601s")]).unwrap_err()), "INVALID_ACTION");
    assert_eq!(code(&validate_drafts(&[x("3600500ms")]).unwrap_err()), "INVALID_ACTION");
    assert_eq!(code(&validate_drafts(&[x("30s"), Draft::Copy(transfer("backup"))]).unwrap_err()), "INVALID_ACTION");
}

#[test]
fn prefixes_of_valid_drafts_are_valid() {
    let exec = Draft::Exec(Exec { program: "/bin/true".into(), args: vec![], cwd: None, env: vec![], timeout: "1s".into() });
    let ds = vec![Draft::Copy(transfer("a")), Draft::Move(transfer("b")), exec];
    assert!(validate_drafts(&ds).is_ok());
    for k in 0..=ds.len() {
        assert!(validate_drafts(&ds[..k]).is_ok());
    }
}

#[test]
fn conditions_compose_from_their_parts() {
    let ev = evaluation("report.PDF", "pdf", 42, None);
    let pdf = || {
        let mut n = empty_condition();
        n.extension = Some("pdf".into());
        n
    };
    let txt = || {
        let mut n = empty_condition();
        n.extension = Some("txt".into());
        n
    };
    let m = |c: &Condition| filet_core::planner::matches(c, &ev).unwrap();
    let mut all = empty_condition();
    all.all = Some(vec![]);
    assert!(m(&all));
    all.all = Some(vec![pdf(), txt()]);
    assert!(!m(&all));
    all.all = Some(vec![pdf(), pdf()]);
    assert!(m(&all));
    let mut any = empty_condition();
    any.any = Some(vec![]);
    assert!(!m(&any));
    any.any = Some(vec![txt(), pdf()]);
    assert!(m(&any));
    let mut both = empty_condition();
    both.all = Some(vec![pdf()]);
    both.any = Some(vec![pdf()]);
    both.not = Some(Box::new(txt()));
    assert!(m(&both));
    both.not = Some(Box::new(pdf()));
    assert!(!m(&both));
}

#[test]
fn oversized_globs_are_errors_not_panics() {
    let pattern: String = std::iter::repeat("[a-z]").take(200_000).collect();
    match glob_match(&pattern, "a") {
        Ok(_) => {}
        Err(m) => assert!(!m.is_empty()),
    }
}

#[test]
fn content_hashing_streams_chunks() {
    let mut h = ContentHasher::new();
    h.feed(b"a");
    h.feed(b"");
    h.feed(b"bc");
    assert_eq!(h.finish(), hash(b"abc"));
}

#[test]
fn snapshots_refuse_files_that_changed_while_read() {
    let p = path(&["inbox", "a.pdf"]);
    let mk = |idb: &str, ida: &str, lb: u64, la: u64, mb: &str, ma: &str| {
        snapshot_of(
            p.clone(),
            idb.into(),
            ida.into(),
            lb,
            la,
            mb.into(),
            ma.into(),
            Some("2026-09-01T00:00:00+00:00".into()),
            None,
            "aaa".into(),
        )
    };
    let s = mk("1:2", "1:2", 14, 14, "100", "100").unwrap();
    assert_eq!(s.identity, "1:2");
    assert_eq!(s.size_bytes, 14);
    assert_eq!(s.modified_ns, "100");
    assert_eq!(s.sha256, "aaa");
    assert_eq!(s.path.parts, vec!["inbox".to_string(), "a.pdf".to_string()]);
    for e in [
        mk("1:2", "1:2", 14, 15, "100", "100"),
        mk("1:2", "1:2", 14, 14, "100", "101"),
        mk("1:2", "1:3", 14, 14, "100", "100"),
    ] {
        let e = e.unwrap_err();
        assert_eq!(code(&e), "NOT_READY");
        assert_eq!(e.message, "input changed while being read");
    }
}

#[test]
fn copies_are_checked_on_hash_and_size() {
    let a = snap(path(&["inbox", "a.pdf"]), "aaa");
    assert!(check_copy(&a, &snap(path(&["tmp", "b"]), "aaa")).is_ok());
    assert_eq!(code(&check_copy(&a, &snap(path(&["tmp", "b"]), "bbb")).unwrap_err()), "COPY_VERIFY_FAILED");
    let mut small = snap(path(&["tmp", "b"]), "aaa");
    small.size_bytes = 13;
    assert_eq!(code(&check_copy(&a, &small).unwrap_err()), "COPY_VERIFY_FAILED");
}

#[test]
fn script_output_is_decoded_from_its_text() {
    assert!(drafts_from_output("[]").unwrap().is_empty());
    assert_eq!(code(&drafts_from_output("[{\"delete\":{}}]").unwrap_err()), "INVALID_ACTION");
    assert_eq!(code(&drafts_from_output("[{\"move\":{\"to\":\"x\",\"file\":\"someone-else\"}}]").unwrap_err()), "INVALID_FILE_REF");
    assert_eq!(code(&drafts_from_output("not json").unwrap_err()), "INVALID_ACTION");
    let d = drafts_from_output("[{\"copy\":{\"file\":\"input\",\"to\":\"backup\"}}]").unwrap();
    assert_eq!(d.len(), 1);
}

#[test]
fn ids_are_ordered_as_strings() {
    use_ordering();
}

fn use_ordering() {
    assert!(text_precedes("a", "b"));
    assert!(text_precedes("a", "ab"));
    assert!(!text_precedes("ab", "a"));
    assert!(!text_precedes("a", "a"));
    assert!(text_precedes("Z", "a"));
    let pkg = || Package { entry: "rule.mjs".into(), modules: std::collections::BTreeMap::new() };
    let mut ps: Vec<(String, Package)> = Vec::new();
    for id in ["m", "b", "z", "a"] {
        insert_package(&mut ps, id.to_string(), pkg());
    }
    let ids: Vec<&str> = ps.iter().map(|(k, _)| k.as_str()).collect();
    assert_eq!(ids, vec!["a", "b", "m", "z"]);
    assert!(ascending_ids(&ps));
    ps.swap(0, 1);
    assert!(!ascending_ids(&ps));
}

#[test]
fn timed_out_commands_are_never_replayed() {
    let plan = Plan {
        format_version: 1,
        plan_id: "p1".into(),
        rule_id: "r".into(),
        rule_revision: "rev".into(),
        source: "inbox".into(),
        input_snapshot: snap(path(&["inbox", "a.pdf"]), "aaa"),
        actions: vec![],
        risks: vec![],
    };
    assert_eq!(code(&judge_command(true, false, Some(0)).unwrap_err()), "EXEC_UNCERTAIN");
    let f = classify_failure(false, true, false, false);
    assert_eq!(f.job_status(), "needs_review");
    for rev in ["rev", "other"] {
        assert_eq!(code(&decide_admission(&plan, f.job_status(), rev, false).unwrap_err()), "JOB_BLOCKED");
    }
}

#[test]
fn nonrecursive_sources_admit_only_their_own_files() {
    use_admission();
}

fn use_admission() {
    let root = path(&["inbox"]);
    assert!(filet_core::planner::admit_input(false, &root, &path(&["inbox", "a.pdf"])).is_ok());
    let e = filet_core::planner::admit_input(false, &root, &path(&["inbox", "sub", "a.pdf"])).unwrap_err();
    assert_eq!(code(&e), "OUTSIDE_SOURCE");
    assert!(filet_core::planner::admit_input(true, &root, &path(&["inbox", "sub", "a.pdf"])).is_ok());
}

#[test]
fn destinations_must_be_reachable_files_and_are_checked_in_step_order() {
    let input = path(&["inbox", "a.pdf"]);
    let drafts = vec![Draft::Copy(transfer("out")), Draft::Copy(transfer("out"))];
    let places = vec![Ok(Placement::Dir(path(&["out"]))), Ok(Placement::Dir(path(&["out"])))];
    let targets = filet_core::planner::step_targets(&input, &drafts, &places);
    assert_eq!(targets[0].as_ref().unwrap().display(), "/out/a.pdf");
    assert_eq!(targets[1].as_ref().unwrap().display(), "/out/a.pdf");
    let one = vec![Draft::Copy(transfer("out"))];
    let one_place = || vec![Ok(Placement::Dir(path(&["out"])))];
    assert!(resolve(&input, one.clone(), one_place(), vec![Ok(Destination::File)], false).is_ok());
    let e = resolve(&input, one.clone(), one_place(), vec![Ok(Destination::Other)], false).unwrap_err();
    assert_eq!(code(&e), "TARGET_CONFLICT");
    let e = resolve(&input, one, one_place(), vec![Err(Error::new("LINK_REFUSED", "x"))], false).unwrap_err();
    assert_eq!(code(&e), "LINK_REFUSED");
    // A link on the way to the first destination is reported before the
    // repeated second destination.
    let e = resolve(&input, drafts, places, vec![Err(Error::new("LINK_REFUSED", "x")), Ok(Destination::Absent)], false).unwrap_err();
    assert_eq!(code(&e), "LINK_REFUSED");
}

#[test]
fn scan_scheduling_decisions() {
    assert!(scan_waits(0, true));
    assert!(!scan_waits(1, true));
    assert!(!scan_waits(0, false));
    assert!(!observations_outdated(&None, "sig"));
    assert!(!observations_outdated(&Some(("sig".into(), true)), "sig"));
    assert!(observations_outdated(&Some(("old".into(), true)), "sig"));
    assert_eq!(UNAVAILABLE_RETRY_MS, 5000);
    assert_eq!(scan_depth(false), 1);
    assert_eq!(scan_depth(true), usize::MAX);
    assert_eq!(scan_status(true), "unavailable");
    assert_eq!(scan_status(false), "available");
}

#[test]
fn plans_carry_their_risks() {
    let copy = Action::Copy { from: path(&["inbox", "a"]), to: path(&["out", "a"]), conflict: Conflict::Error };
    let p = filet_core::planner::assemble_plan(
        "id".into(),
        "r".into(),
        "rev".into(),
        "inbox".into(),
        snap(path(&["inbox", "a"]), "aaa"),
        vec![copy],
    );
    assert_eq!(p.format_version, 1);
    assert_eq!(p.rule_revision, "rev");
    assert!(p.risks.is_empty());
    let exec = Action::Exec { program: path(&["bin", "true"]), args: vec![], cwd: path(&["out"]), env: vec![], timeout_ms: 1 };
    let p = filet_core::planner::assemble_plan(
        "id".into(),
        "r".into(),
        "rev".into(),
        "inbox".into(),
        snap(path(&["inbox", "a"]), "aaa"),
        vec![exec],
    );
    assert_eq!(p.risks, vec!["external_effects_not_previewable_or_undoable".to_string()]);
}

#[test]
fn temporary_files_are_the_engines_own() {
    let t = filet_core::planner::temp_path(&path(&["out", "a.pdf"]), "p1", 3);
    assert_eq!(t.parts, vec!["out".to_string(), ".filet-p1-3.tmp".to_string()]);
    assert!(filet_core::config::check_config_size(1_048_576).is_ok());
    assert_eq!(code(&filet_core::config::check_config_size(1_048_577).unwrap_err()), "CONFIG_INVALID");
}

#[test]
fn commands_get_system_root_only_where_unset() {
    assert!(filet_core::process::needs_system_root(&vec![("PATH".into(), "x".into())]));
    assert!(!filet_core::process::needs_system_root(&vec![("systemroot".into(), "C:\\W".into())]));
    assert!(!filet_core::process::needs_system_root(&vec![("SystemRoot".into(), "C:\\W".into())]));
}

#[test]
fn failed_plans_are_recorded_as_failed_not_no_match() {
    use_recording();
}

fn use_recording() {
    let r = filet_core::daemon::outcome_record(&filet_core::daemon::Planned::Failed(Error::new("JS_ERROR", "x").rule("r1")));
    assert_eq!(r.job_status.as_deref(), Some("failed"));
    assert_eq!(r.rule_id, "r1");
    assert_eq!(r.observation, "failed");
    let r = filet_core::daemon::outcome_record(&filet_core::daemon::Planned::Failed(Error::new("IO_ERROR", "x")));
    assert_eq!(r.rule_id, "");
    let r = filet_core::daemon::outcome_record(&filet_core::daemon::Planned::NoMatch);
    assert_eq!(r.job_status.as_deref(), Some("no_match"));
    assert_eq!(r.observation, "observed");
    let r = filet_core::daemon::outcome_record(&filet_core::daemon::Planned::Applied { ok: false });
    assert!(r.job_status.is_none());
    assert_eq!(r.observation, "failed");
    let r = filet_core::daemon::outcome_record(&filet_core::daemon::Planned::Applied { ok: true });
    assert_eq!(r.observation, "observed");
}

#[test]
fn windows_file_names_are_checked_where_windows_runs() {
    for bad in ["CON", "con.txt", "Lpt3.log", "com9", "a:b", "a?", "trailing.", "trailing ", "tab\tname", "x<y"] {
        assert_eq!(check_windows_name(bad).unwrap_err().message, "unsupported Windows filename");
    }
    for good in ["report.pdf", "COM0", "COM10", "console", "nul2.txt", ".hidden"] {
        assert!(check_windows_name(good).is_ok());
    }
    let drafts = vec![Draft::Rename(Rename { file: "input".into(), name: "aux.pdf".into(), on_conflict: Conflict::Error })];
    let input = path(&["inbox", "a.pdf"]);
    assert!(resolve(&input, drafts.clone(), vec![Ok(Placement::Here)], absent(1), false).is_ok());
    let e = resolve(&input, drafts, vec![Ok(Placement::Here)], absent(1), true).unwrap_err();
    assert_eq!(e.message, "unsupported Windows filename");
}
