use filet_core::config::{Condition, Config, Loaded, Package, Ready, Rule, Script, Source, Trigger};
use filet_core::paths::FsPath;
use filet_core::planner::{check, select_rule, Claim, NoScripts};
use filet_core::{Conflict, Draft, Evaluation, Event, FileContext, JsEvaluator, Transfer};
use std::collections::BTreeMap;

fn path(parts: &[&str]) -> FsPath {
    FsPath { parts: parts.iter().map(|s| s.to_string()).collect() }
}

fn condition(ext: &str) -> Condition {
    Condition {
        extension: Some(ext.into()),
        name_glob: None,
        min_size_bytes: None,
        max_size_bytes: None,
        modified_older_than: None,
        created_older_than: None,
        all: None,
        any: None,
        not: None,
    }
}

fn fixed(id: &str, kind: &str, ext: &str, actions: usize) -> Rule {
    Rule {
        id: id.into(),
        on: Trigger { kind: kind.into(), source: "inbox".into(), every: if kind == "scan" { Some("1m".into()) } else { None } },
        when: Some(condition(ext)),
        actions: Some(
            (0..actions)
                .map(|_| Draft::Move(Transfer { file: "input".into(), to: "archive".into(), on_conflict: Conflict::Error }))
                .collect(),
        ),
        script: None,
    }
}

fn scripted(id: &str) -> Rule {
    Rule {
        id: id.into(),
        on: Trigger { kind: "file.ready".into(), source: "inbox".into(), every: None },
        when: None,
        actions: None,
        script: Some(Script { file: "rules/rule.mjs".into(), api_version: 1 }),
    }
}

fn loaded(rules: Vec<Rule>, packages: Vec<(String, Package)>) -> Loaded {
    Loaded {
        config: Config {
            schema_version: 1,
            sources: vec![(
                "inbox".into(),
                Source {
                    path: "inbox".into(),
                    recursive: false,
                    ignore: vec![],
                    ready: Ready { stable_for: "3s".into(), retry_for: "10m".into() },
                    reconcile_every: "10m".into(),
                },
            )],
            rules,
        },
        path: path(&["cfg", "filet.yaml"]),
        base: path(&["cfg"]),
        revision: "rev".into(),
        roots: vec![("inbox".into(), path(&["cfg", "inbox"]))],
        packages,
    }
}

fn input() -> Evaluation {
    Evaluation {
        file: FileContext {
            file_ref: "input".into(),
            name: "a.pdf".into(),
            stem: "a".into(),
            extension: "pdf".into(),
            size_bytes: 1,
            modified_at: None,
            created_at: None,
            path: Some("/cfg/inbox/a.pdf".into()),
        },
        event: Event { reason: "manual".into() },
        now: "2026-09-22T00:00:00Z".into(),
    }
}

#[test]
fn first_claiming_rule_wins_in_configuration_order() {
    let config = loaded(
        vec![fixed("first", "file.ready", "txt", 1), fixed("second", "file.ready", "pdf", 1), fixed("third", "file.ready", "pdf", 1)],
        vec![],
    );
    match select_rule(&config, &NoScripts, "inbox", "manual", None, &input()).unwrap() {
        Some(Claim::Rule(k)) => assert_eq!(k, 1),
        _ => panic!("expected the second rule"),
    }
}

#[test]
fn rules_without_actions_do_not_claim() {
    let config = loaded(vec![fixed("empty", "file.ready", "pdf", 0), fixed("next", "file.ready", "pdf", 1)], vec![]);
    match select_rule(&config, &NoScripts, "inbox", "reconcile", None, &input()).unwrap() {
        Some(Claim::Rule(k)) => assert_eq!(k, 1),
        _ => panic!("expected the second rule"),
    }
}

#[test]
fn scheduled_plans_consider_only_due_scan_rules() {
    let config = loaded(vec![fixed("ready", "file.ready", "pdf", 1), fixed("aged", "scan", "pdf", 1)], vec![]);
    let due = vec!["aged".to_string()];
    match select_rule(&config, &NoScripts, "inbox", "scheduled", Some(&due), &input()).unwrap() {
        Some(Claim::Rule(k)) => assert_eq!(k, 1),
        _ => panic!("expected the scan rule"),
    }
    let none: Vec<String> = vec![];
    assert!(select_rule(&config, &NoScripts, "inbox", "scheduled", Some(&none), &input()).unwrap().is_none());
    assert!(select_rule(&config, &NoScripts, "other", "manual", None, &input()).unwrap().is_none());
}

#[test]
fn a_script_with_no_actions_leaves_the_file_to_later_rules() {
    let package = Package {
        entry: "rule.mjs".into(),
        modules: BTreeMap::from([("rule.mjs".into(), "export function run(){return []}".into())]),
    };
    let config = loaded(vec![scripted("js"), fixed("yaml", "file.ready", "pdf", 1)], vec![("js".into(), package)]);
    let js = JsEvaluator::default();
    check(&config, &js).unwrap();
    match select_rule(&config, &js, "inbox", "manual", None, &input()).unwrap() {
        Some(Claim::Rule(k)) => assert_eq!(k, 1),
        _ => panic!("expected the fixed rule"),
    }
}

#[test]
fn a_script_that_claims_gives_its_drafts_and_errors_name_the_rule() {
    let claims = Package {
        entry: "rule.mjs".into(),
        modules: BTreeMap::from([(
            "rule.mjs".into(),
            "import {actions as a} from '@app/api'; export function run(c){return [a.copy(c.file.ref,{to:'backup'})]}".into(),
        )]),
    };
    let config = loaded(vec![scripted("js")], vec![("js".into(), claims)]);
    match select_rule(&config, &JsEvaluator::default(), "inbox", "manual", None, &input()).unwrap() {
        Some(Claim::Script(0, drafts)) => assert!(matches!(&drafts[0], Draft::Copy(t) if t.to == "backup")),
        _ => panic!("expected the script's drafts"),
    }
    let broken = Package { entry: "rule.mjs".into(), modules: BTreeMap::from([("rule.mjs".into(), "export function run(){throw new Error('bad')}".into())]) };
    let config = loaded(vec![scripted("js")], vec![("js".into(), broken)]);
    let e = select_rule(&config, &JsEvaluator::default(), "inbox", "manual", None, &input()).unwrap_err();
    assert_eq!(e.code, "JS_ERROR");
    assert_eq!(e.rule_id.as_deref(), Some("js"));
    let e = check(&loaded(vec![scripted("js")], vec![("js".into(), Package { entry: "rule.mjs".into(), modules: BTreeMap::new() })]), &JsEvaluator::default()).unwrap_err();
    assert_eq!(e.rule_id.as_deref(), Some("js"));
}

#[test]
fn assembled_configurations_are_consistent() {
    let pkg = || Package { entry: "rule.mjs".into(), modules: BTreeMap::new() };
    let parts = |rules: Vec<Rule>, packages: Vec<(String, Package)>| {
        let l = loaded(rules, packages);
        filet_core::config::assemble(l.config, l.path, l.base, l.revision, l.roots, l.packages)
    };
    assert!(parts(vec![fixed("a", "file.ready", "pdf", 1), scripted("s")], vec![("s".into(), pkg())]).is_ok());
    // A script rule without its package.
    assert!(parts(vec![scripted("s")], vec![]).is_err());
    // Two rules with one ID.
    assert!(parts(vec![fixed("a", "file.ready", "pdf", 1), fixed("a", "file.ready", "txt", 1)], vec![]).is_err());
    // A package for no script rule.
    assert!(parts(vec![fixed("a", "file.ready", "pdf", 1)], vec![("a".into(), pkg())]).is_err());
    // A base that is not the configuration's directory.
    let l = loaded(vec![], vec![]);
    assert!(filet_core::config::assemble(l.config, l.path, path(&["elsewhere"]), l.revision, l.roots, l.packages).is_err());
    // An unsupported schema version keeps its own code.
    let mut l = loaded(vec![], vec![]);
    l.config.schema_version = 2;
    let e = filet_core::config::assemble(l.config, l.path, l.base, l.revision, l.roots, l.packages).unwrap_err();
    assert_eq!(e.code, "UNSUPPORTED_VERSION");
}
