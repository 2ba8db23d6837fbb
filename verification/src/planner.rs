use vstd::prelude::*;
use crate::bindings::{glob_error, glob_is_match, glob_match, glob_set_error, parse_rfc3339, rfc3339_instant};
use crate::config::{Condition, Loaded, Package, Rule, Source, duration, duration_spec, has_name};
use crate::error::{Error, ErrorView, fault, with_rule};
use crate::model::{Action, Arg, Draft, Evaluation, Exec, Plan, Snapshot, dest_of, moves_ref, source_of, transfer_of};
use crate::paths::{
    FsPath, check_windows_name, components_text, is_prefix_of, path_text, replace_name, valid_name, valid_name_spec,
    windows_name_bad,
};
use crate::text::{has_char, same_text};
use crate::json::{decimal, decimal_text};

verus! {

/// The error for a file reference other than the rule's input, if any.
pub open spec fn ref_error(r: Seq<char>) -> Option<ErrorView> {
    if r != "input"@ {
        Some(fault("INVALID_FILE_REF"@, "a FileRef must name the input"@))
    } else {
        None
    }
}

pub open spec fn name_error(n: Seq<char>) -> Option<ErrorView> {
    if valid_name_spec(n) {
        None
    } else {
        Some(fault("INVALID_PATH"@, "rename.name must be one filename"@))
    }
}

pub open spec fn arg_error(a: Arg) -> Option<ErrorView> {
    match a {
        Arg::Path(p) => ref_error(p.path_of@),
        Arg::Literal(s) => if s@.contains('\0') {
            Some(fault("INVALID_ACTION"@, "NUL argument"@))
        } else {
            None
        },
    }
}

/// The first error among `args[i..]`.
pub open spec fn first_arg_error(args: Seq<Arg>, i: int) -> Option<ErrorView>
    decreases args.len() - i,
{
    if i < 0 || i >= args.len() {
        None
    } else {
        match arg_error(args[i]) {
            Some(e) => Some(e),
            None => first_arg_error(args, i + 1),
        }
    }
}

pub open spec fn env_entry_bad(k: Seq<char>, v: Seq<char>) -> bool {
    k.len() == 0 || k.contains('=') || k.contains('\0') || v.contains('\0')
}

pub open spec fn env_bad(env: Seq<(String, String)>) -> bool {
    exists|i: int| 0 <= i < env.len() && #[trigger] env_entry_bad(env[i].0@, env[i].1@)
}

pub open spec fn exec_error(e: Exec, last: bool) -> Option<ErrorView> {
    if !last {
        Some(fault("INVALID_ACTION"@, "exec must be the final action"@))
    } else if e.program@.len() == 0 || e.program@.contains('\0') || e.args.len() > 256 {
        Some(fault("INVALID_ACTION"@, "invalid program/argument count"@))
    } else if first_arg_error(e.args@, 0) is Some {
        first_arg_error(e.args@, 0)
    } else if env_bad(e.env@) {
        Some(fault("INVALID_ACTION"@, "invalid environment"@))
    } else {
        match duration_spec(e.timeout@) {
            Err(x) => Some(x),
            Ok(ms) => if ms > 3_600_000 {
                Some(fault("INVALID_ACTION"@, "exec timeout exceeds one hour"@))
            } else {
                None
            },
        }
    }
}

/// The error of one draft; `last` tells whether it is the final draft.
pub open spec fn draft_error(d: Draft, last: bool) -> Option<ErrorView> {
    match d {
        Draft::Copy(t) => if ref_error(t.file@) is Some {
            ref_error(t.file@)
        } else if t.to@.len() == 0 {
            Some(fault("INVALID_ACTION"@, "empty destination"@))
        } else {
            None
        },
        Draft::Move(t) => if ref_error(t.file@) is Some {
            ref_error(t.file@)
        } else if t.to@.len() == 0 {
            Some(fault("INVALID_ACTION"@, "empty destination"@))
        } else {
            None
        },
        Draft::Rename(t) => if ref_error(t.file@) is Some {
            ref_error(t.file@)
        } else {
            name_error(t.name@)
        },
        Draft::Exec(e) => exec_error(e, last),
    }
}

/// The first error among `ds[i..]`.
pub open spec fn first_draft_error(ds: Seq<Draft>, i: int) -> Option<ErrorView>
    decreases ds.len() - i,
{
    if i < 0 || i >= ds.len() {
        None
    } else {
        match draft_error(ds[i], i + 1 == ds.len()) {
            Some(e) => Some(e),
            None => first_draft_error(ds, i + 1),
        }
    }
}

/// The error that makes a list of drafts invalid, if any: at most 64 drafts,
/// each referring to the input, with valid destinations and names, and at most
/// one command, in final position, with valid arguments, environment and timeout.
pub open spec fn drafts_error(ds: Seq<Draft>) -> Option<ErrorView> {
    if ds.len() > 64 {
        Some(fault("ACTION_LIMIT"@, "at most 64 actions are allowed"@))
    } else {
        first_draft_error(ds, 0)
    }
}

pub fn valid_ref(r: &str) -> (res: Result<(), Error>)
    ensures
        match res {
            Ok(()) => ref_error(r@) is None,
            Err(e) => ref_error(r@) == Some(e@),
        },
{
    if !same_text(r, "input") {
        Err(Error::new("INVALID_FILE_REF", "a FileRef must name the input"))
    } else {
        Ok(())
    }
}

fn check_arg(a: &Arg) -> (res: Result<(), Error>)
    ensures
        match res {
            Ok(()) => arg_error(*a) is None,
            Err(e) => arg_error(*a) == Some(e@),
        },
{
    match a {
        Arg::Path(p) => valid_ref(&p.path_of),
        Arg::Literal(s) => {
            if has_char(s, '\0') {
                Err(Error::new("INVALID_ACTION", "NUL argument"))
            } else {
                Ok(())
            }
        },
    }
}

fn check_env(env: &Vec<(String, String)>) -> (bad: bool)
    ensures
        bad == env_bad(env@),
{
    let mut i: usize = 0;
    while i < env.len()
        invariant
            i <= env.len(),
            forall|j: int| 0 <= j < i ==> !#[trigger] env_entry_bad(env@[j].0@, env@[j].1@),
        decreases env.len() - i,
    {
        let k = &env[i].0;
        let v = &env[i].1;
        if k.as_str().unicode_len() == 0 || has_char(k, '=') || has_char(k, '\0') || has_char(v, '\0') {
            assert(env_entry_bad(env@[i as int].0@, env@[i as int].1@));
            return true;
        }
        i = i + 1;
    }
    false
}

fn check_exec(e: &Exec, last: bool) -> (res: Result<(), Error>)
    ensures
        match res {
            Ok(()) => exec_error(*e, last) is None,
            Err(x) => exec_error(*e, last) == Some(x@),
        },
{
    if !last {
        return Err(Error::new("INVALID_ACTION", "exec must be the final action"));
    }
    if e.program.as_str().unicode_len() == 0 || has_char(&e.program, '\0') || e.args.len() > 256 {
        return Err(Error::new("INVALID_ACTION", "invalid program/argument count"));
    }
    let mut i: usize = 0;
    while i < e.args.len()
        invariant
            i <= e.args.len(),
            last,
            !(e.program@.len() == 0 || e.program@.contains('\0') || e.args.len() > 256),
            first_arg_error(e.args@, 0) == first_arg_error(e.args@, i as int),
        decreases e.args.len() - i,
    {
        match check_arg(&e.args[i]) {
            Err(x) => {
                assert(first_arg_error(e.args@, i as int) == Some(x@));
                return Err(x);
            },
            Ok(()) => {},
        }
        i = i + 1;
    }
    if check_env(&e.env) {
        return Err(Error::new("INVALID_ACTION", "invalid environment"));
    }
    let ms = duration(&e.timeout)?;
    if ms > 3_600_000 {
        return Err(Error::new("INVALID_ACTION", "exec timeout exceeds one hour"));
    }
    Ok(())
}

fn check_draft(d: &Draft, last: bool) -> (res: Result<(), Error>)
    ensures
        match res {
            Ok(()) => draft_error(*d, last) is None,
            Err(x) => draft_error(*d, last) == Some(x@),
        },
{
    match d {
        Draft::Copy(t) | Draft::Move(t) => {
            valid_ref(&t.file)?;
            if t.to.as_str().unicode_len() == 0 {
                return Err(Error::new("INVALID_ACTION", "empty destination"));
            }
            Ok(())
        },
        Draft::Rename(t) => {
            valid_ref(&t.file)?;
            valid_name(&t.name)
        },
        Draft::Exec(e) => check_exec(e, last),
    }
}

/// Checks a rule's drafts before any path is resolved.
pub fn validate_drafts(drafts: &[Draft]) -> (res: Result<(), Error>)
    ensures
        match res {
            Ok(()) => drafts_error(drafts@) is None,
            Err(e) => drafts_error(drafts@) == Some(e@),
        },
{
    if drafts.len() > 64 {
        return Err(Error::new("ACTION_LIMIT", "at most 64 actions are allowed"));
    }
    let mut i: usize = 0;
    while i < drafts.len()
        invariant
            i <= drafts.len(),
            drafts.len() <= 64,
            first_draft_error(drafts@, 0) == first_draft_error(drafts@, i as int),
        decreases drafts.len() - i,
    {
        check_draft(&drafts[i], i + 1 == drafts.len())?;
        i = i + 1;
    }
    Ok(())
}

/// Where a draft's destination lies once resolved against the filesystem:
/// the directory of a copy or move, the program and working directory of a
/// command, or nothing to resolve for a rename.
#[derive(Debug, Clone)]
pub enum Placement {
    Dir(FsPath),
    Command { program: FsPath, cwd: FsPath },
    Here,
}

/// Whether a placement is of the kind its draft needs.
pub open spec fn placement_fits(d: Draft, p: Placement) -> bool {
    match d {
        Draft::Copy(_) => p is Dir,
        Draft::Move(_) => p is Dir,
        Draft::Rename(_) => p is Here,
        Draft::Exec(_) => p is Command,
    }
}

/// The destination of a copy, move or rename of the file now at `cur`.
pub open spec fn target_of(d: Draft, p: Result<Placement, Error>, cur: Seq<Seq<char>>) -> Option<Seq<Seq<char>>> {
    match p {
        Ok(Placement::Dir(dir)) => match d {
            Draft::Copy(_) => Some(dir@.push(cur.last())),
            Draft::Move(_) => Some(dir@.push(cur.last())),
            _ => None,
        },
        Ok(Placement::Here) => match d {
            Draft::Rename(t) => Some(replace_name(cur, t.name@)),
            _ => None,
        },
        _ => None,
    }
}

/// Where the file reference stands after a draft: a copy leaves it on the
/// original, a move or rename advances it to the destination.
pub open spec fn next_cursor(d: Draft, p: Result<Placement, Error>, cur: Seq<Seq<char>>) -> Seq<Seq<char>> {
    match target_of(d, p, cur) {
        Some(t) => if d is Move || d is Rename { t } else { cur },
        None => cur,
    }
}

/// Where the file reference stands before draft `i`.
pub open spec fn cursor(
    input: Seq<Seq<char>>,
    ds: Seq<Draft>,
    ps: Seq<Result<Placement, Error>>,
    i: int,
) -> Seq<Seq<char>>
    decreases i,
{
    if i <= 0 {
        input
    } else {
        next_cursor(ds[i - 1], ps[i - 1], cursor(input, ds, ps, i - 1))
    }
}

/// The destinations of the drafts before draft `i`.
pub open spec fn targets_before(
    input: Seq<Seq<char>>,
    ds: Seq<Draft>,
    ps: Seq<Result<Placement, Error>>,
    i: int,
) -> Seq<Seq<Seq<char>>>
    decreases i,
{
    if i <= 0 {
        seq![]
    } else {
        let prev = targets_before(input, ds, ps, i - 1);
        match target_of(ds[i - 1], ps[i - 1], cursor(input, ds, ps, i - 1)) {
            Some(t) => prev.push(t),
            None => prev,
        }
    }
}

/// The error of resolving draft `i`: its placement failed, its destination
/// could not be reached (`qs[i]`, what was found there, is an error, such as
/// a link on the way), its name is invalid, it is its own source, the input
/// or an earlier destination, or it exists as something other than a regular
/// file.
pub open spec fn step_error(
    input: Seq<Seq<char>>,
    ds: Seq<Draft>,
    ps: Seq<Result<Placement, Error>>,
    qs: Seq<Result<Destination, Error>>,
    windows: bool,
    i: int,
) -> Option<ErrorView> {
    match ps[i] {
        Err(e) => Some(e@),
        Ok(_) => match target_of(ds[i], ps[i], cursor(input, ds, ps, i)) {
            None => None,
            Some(to) => if qs[i] is Err {
                Some(qs[i]->Err_0@)
            } else if !valid_name_spec(to.last()) {
                Some(fault("INVALID_PATH"@, "rename.name must be one filename"@))
            } else if windows && windows_name_bad(to.last()) {
                Some(fault("INVALID_PATH"@, "unsupported Windows filename"@))
            } else if to == cursor(input, ds, ps, i) || to == input
                || targets_before(input, ds, ps, i).contains(to) {
                Some(fault("INVALID_ACTION"@, "no-op, cyclic, or repeated targets are unsupported"@))
            } else if qs[i] == Ok::<Destination, Error>(Destination::Other) {
                Some(fault("TARGET_CONFLICT"@, "destination is not a regular file"@))
            } else {
                None
            },
        },
    }
}

/// The first resolution error among drafts `i..`.
pub open spec fn first_step_error(
    input: Seq<Seq<char>>,
    ds: Seq<Draft>,
    ps: Seq<Result<Placement, Error>>,
    qs: Seq<Result<Destination, Error>>,
    windows: bool,
    i: int,
) -> Option<ErrorView>
    decreases ds.len() - i,
{
    if i < 0 || i >= ds.len() {
        None
    } else {
        match step_error(input, ds, ps, qs, windows, i) {
            Some(e) => Some(e),
            None => first_step_error(input, ds, ps, qs, windows, i + 1),
        }
    }
}

/// The error of resolving drafts, if any: first their validation, then each
/// draft in order.
pub open spec fn resolve_error(
    input: Seq<Seq<char>>,
    ds: Seq<Draft>,
    ps: Seq<Result<Placement, Error>>,
    qs: Seq<Result<Destination, Error>>,
    windows: bool,
) -> Option<ErrorView> {
    if drafts_error(ds) is Some {
        drafts_error(ds)
    } else {
        first_step_error(input, ds, ps, qs, windows, 0)
    }
}

/// Whether `a` is the concrete action of draft `d` placed at `p` for the file
/// now at `cur`.
pub open spec fn action_fits(a: Action, d: Draft, p: Placement, cur: Seq<Seq<char>>) -> bool {
    match d {
        Draft::Copy(t) => p matches Placement::Dir(dir) && a matches Action::Copy { from, to, conflict }
            && from@ == cur && to@ == dir@.push(cur.last()) && conflict == t.on_conflict,
        Draft::Move(t) => p matches Placement::Dir(dir) && a matches Action::Move { from, to, conflict }
            && from@ == cur && to@ == dir@.push(cur.last()) && conflict == t.on_conflict,
        Draft::Rename(t) => a matches Action::Rename { from, to, conflict } && from@ == cur
            && to@ == replace_name(cur, t.name@) && conflict == t.on_conflict,
        Draft::Exec(e) => p matches Placement::Command { program, cwd }
            && a matches Action::Exec { program: pr, args, cwd: wd, env, timeout_ms }
            && pr@ == program@ && args == e.args && wd@ == cwd@ && env == e.env
            && duration_spec(e.timeout@) == Ok::<u64, ErrorView>(timeout_ms),
    }
}

proof fn lemma_no_draft_error(ds: Seq<Draft>, i: int, k: int)
    requires
        0 <= i <= k < ds.len(),
        first_draft_error(ds, i) is None,
    ensures
        draft_error(ds[k], k + 1 == ds.len()) is None,
    decreases k - i,
{
    if i < k {
        lemma_no_draft_error(ds, i + 1, k);
    }
}

proof fn lemma_cursor_nonempty(
    input: Seq<Seq<char>>,
    ds: Seq<Draft>,
    ps: Seq<Result<Placement, Error>>,
    i: int,
)
    requires
        input.len() > 0,
    ensures
        cursor(input, ds, ps, i).len() > 0,
    decreases i,
{
    if i > 0 {
        lemma_cursor_nonempty(input, ds, ps, i - 1);
    }
}

fn contains_path(ps: &Vec<FsPath>, p: &FsPath) -> (r: bool)
    ensures
        r == ps@.map_values(|q: FsPath| q@).contains(p@),
{
    let ghost views = ps@.map_values(|q: FsPath| q@);
    let mut i: usize = 0;
    while i < ps.len()
        invariant
            i <= ps.len(),
            views == ps@.map_values(|q: FsPath| q@),
            forall|j: int| 0 <= j < i ==> views[j] != p@,
        decreases ps.len() - i,
    {
        if ps[i].same(p) {
            assert(views[i as int] == p@);
            return true;
        }
        i = i + 1;
    }
    false
}

/// The destination of each draft, taken from where the file reference
/// stands before it: what `resolve` writes to at that step (`None` for a
/// command or a draft whose placement failed or does not fit it).
pub fn step_targets(input: &FsPath, drafts: &Vec<Draft>, places: &Vec<Result<Placement, Error>>) -> (r: Vec<
    Option<FsPath>,
>)
    requires
        input@.len() > 0,
        places.len() == drafts.len(),
    ensures
        r.len() == drafts.len(),
        forall|i: int|
            0 <= i < r.len() ==> match #[trigger] r@[i] {
                Some(t) => target_of(drafts@[i], places@[i], cursor(input@, drafts@, places@, i)) == Some(t@),
                None => target_of(drafts@[i], places@[i], cursor(input@, drafts@, places@, i)) is None,
            },
{
    let ghost ds = drafts@;
    let ghost ps = places@;
    let mut current = input.duplicate();
    let mut r: Vec<Option<FsPath>> = Vec::new();
    let mut i: usize = 0;
    while i < drafts.len()
        invariant
            ds == drafts@,
            ps == places@,
            places.len() == drafts.len(),
            input@.len() > 0,
            i <= drafts.len(),
            r.len() == i,
            current@ == cursor(input@, ds, ps, i as int),
            forall|k: int|
                0 <= k < i ==> match #[trigger] r@[k] {
                    Some(t) => target_of(ds[k], ps[k], cursor(input@, ds, ps, k)) == Some(t@),
                    None => target_of(ds[k], ps[k], cursor(input@, ds, ps, k)) is None,
                },
        decreases drafts.len() - i,
    {
        proof {
            lemma_cursor_nonempty(input@, ds, ps, i as int);
        }
        let t: Option<FsPath> = match &places[i] {
            Ok(Placement::Dir(dir)) => match &drafts[i] {
                Draft::Copy(_) | Draft::Move(_) => match current.file_name() {
                    Some(name) => Some(dir.join_name(name.as_str())),
                    None => None,
                },
                _ => None,
            },
            Ok(Placement::Here) => match &drafts[i] {
                Draft::Rename(x) => Some(current.with_file_name(x.name.as_str())),
                _ => None,
            },
            _ => None,
        };
        proof {
            if t is Some {
                assert(target_of(ds[i as int], ps[i as int], current@) == Some(t->0@));
            } else {
                assert(target_of(ds[i as int], ps[i as int], current@) is None);
            }
        }
        let moves = match &drafts[i] {
            Draft::Move(_) | Draft::Rename(_) => true,
            _ => false,
        };
        match &t {
            Some(tt) => if moves {
                current = tt.duplicate();
            },
            None => {},
        }
        r.push(t);
        i = i + 1;
    }
    r
}

/// Turns a rule's drafts into concrete actions for `input`. `places[i]` is
/// where draft `i` resolved to in the filesystem (or why it could not), and
/// `probes[i]` what was found at its destination (see `step_targets`).
/// A copy keeps the file reference on its original; a move or rename moves it
/// to the destination, which later drafts then act on.
pub fn resolve(
    input: &FsPath,
    drafts: Vec<Draft>,
    places: Vec<Result<Placement, Error>>,
    probes: Vec<Result<Destination, Error>>,
    windows: bool,
) -> (res: Result<Vec<Action>, Error>)
    requires
        input@.len() > 0,
        places.len() == drafts.len(),
        probes.len() == drafts.len(),
        forall|i: int| 0 <= i < places.len() && places@[i] is Ok ==> placement_fits(drafts@[i], #[trigger] places@[i]->Ok_0),
    ensures
        match res {
            Ok(actions) => resolved(input@, drafts@, places@, probes@, windows, actions@),
            Err(e) => resolve_error(input@, drafts@, places@, probes@, windows) == Some(e@),
        },
{
    validate_drafts(drafts.as_slice())?;
    let ghost ds = drafts@;
    let ghost ps = places@;
    let ghost qs = probes@;
    let ghost inp = input@;
    let n = drafts.len();
    let mut rest_d = drafts;
    let mut rest_p = places;
    let mut rest_q = probes;
    let mut current = input.duplicate();
    let mut targets: Vec<FsPath> = Vec::new();
    let mut actions: Vec<Action> = Vec::new();
    let mut i: usize = 0;
    assert(rest_d@ =~= ds.subrange(0, n as int));
    assert(rest_p@ =~= ps.subrange(0, n as int));
    assert(rest_q@ =~= qs.subrange(0, n as int));
    assert(targets@.map_values(|q: FsPath| q@) =~= targets_before(inp, ds, ps, 0));
    while i < n
        invariant
            n == ds.len(),
            ds == drafts@,
            ps == places@,
            qs == probes@,
            inp == input@,
            ps.len() == n,
            qs.len() == n,
            rest_q@ == qs.subrange(i as int, n as int),
            inp.len() > 0,
            i <= n,
            drafts_error(ds) is None,
            forall|k: int| 0 <= k < n && ps[k] is Ok ==> placement_fits(ds[k], #[trigger] ps[k]->Ok_0),
            rest_d@ == ds.subrange(i as int, n as int),
            rest_p@ == ps.subrange(i as int, n as int),
            current@ == cursor(inp, ds, ps, i as int),
            targets@.map_values(|q: FsPath| q@) == targets_before(inp, ds, ps, i as int),
            actions.len() == i,
            forall|k: int| 0 <= k < i ==> #[trigger] ps[k] is Ok,
            forall|k: int| 0 <= k < i ==> action_fits(#[trigger] actions@[k], ds[k], ps[k]->Ok_0,
                cursor(inp, ds, ps, k)),
            first_step_error(inp, ds, ps, qs, windows, 0) == first_step_error(inp, ds, ps, qs, windows, i as int),
        decreases n - i,
    {
        proof {
            lemma_cursor_nonempty(inp, ds, ps, i as int);
        }
        let d = rest_d.remove(0);
        let p = rest_p.remove(0);
        let q = rest_q.remove(0);
        assert(d == ds[i as int]);
        assert(p == ps[i as int]);
        assert(q == qs[i as int]);
        let place = match p {
            Err(e) => {
                assert(step_error(inp, ds, ps, qs, windows, i as int) == Some(e@));
                assert(first_step_error(inp, ds, ps, qs, windows, i as int) == Some(e@));
                return Err(e);
            },
            Ok(x) => x,
        };
        let ghost cur = current@;
        let ghost tb = targets_before(inp, ds, ps, i as int);
        let is_move = d.is_move_draft();
        let action = match d {
            Draft::Exec(e) => {
                proof {
                    lemma_no_draft_error(ds, 0, i as int);
                    assert(draft_error(ds[i as int], i + 1 == n) is None);
                    assert(exec_error(e, i + 1 == n) is None);
                }
                match place {
                    Placement::Command { program, cwd } => {
                        let ms = match duration(&e.timeout) {
                            Ok(ms) => ms,
                            Err(x) => {
                                assert(duration_spec(e.timeout@) is Err);
                                return Err(x);
                            },
                        };
                        Action::Exec { program, args: e.args, cwd, env: e.env, timeout_ms: ms }
                    },
                    _ => {
                        return Err(Error::new("INVALID_ACTION", "placement does not fit the action"));
                    },
                }
            },
            Draft::Copy(t) | Draft::Move(t) => {
                let dir = match place {
                    Placement::Dir(dir) => dir,
                    _ => {
                        return Err(Error::new("INVALID_ACTION", "placement does not fit the action"));
                    },
                };
                let name = match current.file_name() {
                    Some(name) => name,
                    None => {
                        return Err(Error::new("INVALID_ACTION", "placement does not fit the action"));
                    },
                };
                let to = dir.join_name(&name);
                assert(target_of(ds[i as int], ps[i as int], cur) == Some(to@));
                let found = match q {
                    Err(x) => {
                        assert(step_error(inp, ds, ps, qs, windows, i as int) == Some(x@));
                        assert(first_step_error(inp, ds, ps, qs, windows, i as int) == Some(x@));
                        return Err(x);
                    },
                    Ok(f) => f,
                };
                match valid_name(&name) {
                    Err(x) => {
                        assert(step_error(inp, ds, ps, qs, windows, i as int) == Some(x@));
                        assert(first_step_error(inp, ds, ps, qs, windows, i as int) == Some(x@));
                        return Err(x);
                    },
                    Ok(()) => {},
                }
                if windows {
                    match check_windows_name(&name) {
                        Err(x) => {
                            assert(step_error(inp, ds, ps, qs, windows, i as int) == Some(x@));
                            assert(first_step_error(inp, ds, ps, qs, windows, i as int) == Some(x@));
                            return Err(x);
                        },
                        Ok(()) => {},
                    }
                }
                if to.same(&current) || to.same(input) || contains_path(&targets, &to) {
                    let x = Error::new("INVALID_ACTION", "no-op, cyclic, or repeated targets are unsupported");
                    assert(step_error(inp, ds, ps, qs, windows, i as int) == Some(x@));
                    assert(first_step_error(inp, ds, ps, qs, windows, i as int) == Some(x@));
                    return Err(x);
                }
                if found == Destination::Other {
                    let x = Error::new("TARGET_CONFLICT", "destination is not a regular file");
                    assert(step_error(inp, ds, ps, qs, windows, i as int) == Some(x@));
                    assert(first_step_error(inp, ds, ps, qs, windows, i as int) == Some(x@));
                    return Err(x);
                }
                let from = current.duplicate();
                targets.push(to.duplicate());
                if is_move {
                    current = to.duplicate();
                    Action::Move { from, to, conflict: t.on_conflict }
                } else {
                    Action::Copy { from, to, conflict: t.on_conflict }
                }
            },
            Draft::Rename(t) => {
                let to = current.with_file_name(&t.name);
                assert(to@.last() == t.name@);
                let found = match q {
                    Err(x) => {
                        assert(step_error(inp, ds, ps, qs, windows, i as int) == Some(x@));
                        assert(first_step_error(inp, ds, ps, qs, windows, i as int) == Some(x@));
                        return Err(x);
                    },
                    Ok(f) => f,
                };
                match valid_name(&t.name) {
                    Err(x) => {
                        assert(step_error(inp, ds, ps, qs, windows, i as int) == Some(x@));
                        assert(first_step_error(inp, ds, ps, qs, windows, i as int) == Some(x@));
                        return Err(x);
                    },
                    Ok(()) => {},
                }
                if windows {
                    match check_windows_name(&t.name) {
                        Err(x) => {
                            assert(step_error(inp, ds, ps, qs, windows, i as int) == Some(x@));
                            assert(first_step_error(inp, ds, ps, qs, windows, i as int) == Some(x@));
                            return Err(x);
                        },
                        Ok(()) => {},
                    }
                }
                if to.same(&current) || to.same(input) || contains_path(&targets, &to) {
                    let x = Error::new("INVALID_ACTION", "no-op, cyclic, or repeated targets are unsupported");
                    assert(step_error(inp, ds, ps, qs, windows, i as int) == Some(x@));
                    assert(first_step_error(inp, ds, ps, qs, windows, i as int) == Some(x@));
                    return Err(x);
                }
                if found == Destination::Other {
                    let x = Error::new("TARGET_CONFLICT", "destination is not a regular file");
                    assert(step_error(inp, ds, ps, qs, windows, i as int) == Some(x@));
                    assert(first_step_error(inp, ds, ps, qs, windows, i as int) == Some(x@));
                    return Err(x);
                }
                let from = current.duplicate();
                targets.push(to.duplicate());
                current = to.duplicate();
                Action::Rename { from, to, conflict: t.on_conflict }
            },
        };
        actions.push(action);
        assert(step_error(inp, ds, ps, qs, windows, i as int) is None);
        assert(targets@.map_values(|q: FsPath| q@) =~= targets_before(inp, ds, ps, i + 1));
        i = i + 1;
        assert(rest_d@ =~= ds.subrange(i as int, n as int));
        assert(rest_p@ =~= ps.subrange(i as int, n as int));
        assert(rest_q@ =~= qs.subrange(i as int, n as int));
    }
    Ok(actions)
}

/// What a successful `resolve` states of its actions.
pub open spec fn resolved(
    input: Seq<Seq<char>>,
    ds: Seq<Draft>,
    ps: Seq<Result<Placement, Error>>,
    qs: Seq<Result<Destination, Error>>,
    windows: bool,
    actions: Seq<Action>,
) -> bool {
    &&& resolve_error(input, ds, ps, qs, windows) is None
    &&& actions.len() == ds.len()
    &&& ps.len() == ds.len()
    &&& forall|i: int| 0 <= i < ps.len() ==> #[trigger] ps[i] is Ok && placement_fits(ds[i], ps[i]->Ok_0)
    &&& forall|i: int| 0 <= i < actions.len() ==> action_fits(#[trigger] actions[i], ds[i], ps[i]->Ok_0,
        cursor(input, ds, ps, i))
}

proof fn lemma_no_step_error(
    input: Seq<Seq<char>>,
    ds: Seq<Draft>,
    ps: Seq<Result<Placement, Error>>,
    qs: Seq<Result<Destination, Error>>,
    windows: bool,
    i: int,
    k: int,
)
    requires
        0 <= i <= k < ds.len(),
        first_step_error(input, ds, ps, qs, windows, i) is None,
    ensures
        step_error(input, ds, ps, qs, windows, k) is None,
    decreases k - i,
{
    if i < k {
        lemma_no_step_error(input, ds, ps, qs, windows, i + 1, k);
    }
}

proof fn lemma_target_recorded(
    input: Seq<Seq<char>>,
    ds: Seq<Draft>,
    ps: Seq<Result<Placement, Error>>,
    i: int,
    j: int,
)
    requires
        0 <= i < j <= ds.len(),
        target_of(ds[i], ps[i], cursor(input, ds, ps, i)) is Some,
    ensures
        targets_before(input, ds, ps, j).contains(target_of(ds[i], ps[i], cursor(input, ds, ps, i))->0),
    decreases j - i,
{
    let t = target_of(ds[i], ps[i], cursor(input, ds, ps, i))->0;
    if j == i + 1 {
        let tb = targets_before(input, ds, ps, j);
        assert(tb == targets_before(input, ds, ps, i).push(t));
        assert(tb[tb.len() - 1] == t);
    } else {
        lemma_target_recorded(input, ds, ps, i, j - 1);
        let prev = targets_before(input, ds, ps, j - 1);
        let k = choose|k: int| 0 <= k < prev.len() && prev[k] == t;
        let tb = targets_before(input, ds, ps, j);
        match target_of(ds[j - 1], ps[j - 1], cursor(input, ds, ps, j - 1)) {
            Some(u) => {
                assert(tb == prev.push(u));
                assert(tb[k] == t);
            },
            None => {},
        }
    }
}

/// The action of a successful resolution at `i` is the draft's destination
/// taken from the current position of the file reference.
proof fn lemma_fits_transfer(
    input: Seq<Seq<char>>,
    ds: Seq<Draft>,
    ps: Seq<Result<Placement, Error>>,
    qs: Seq<Result<Destination, Error>>,
    windows: bool,
    actions: Seq<Action>,
    i: int,
)
    requires
        resolved(input, ds, ps, qs, windows, actions),
        0 <= i < ds.len(),
    ensures
        ps[i] is Ok,
        step_error(input, ds, ps, qs, windows, i) is None,
        transfer_of(actions[i]) is Some ==> source_of(actions[i]) == cursor(input, ds, ps, i)
            && target_of(ds[i], ps[i], cursor(input, ds, ps, i)) == Some(dest_of(actions[i])),
        transfer_of(actions[i]) is None ==> target_of(ds[i], ps[i], cursor(input, ds, ps, i)) is None,
        moves_ref(actions[i]) == (ds[i] is Move || ds[i] is Rename),
{
    lemma_no_step_error(input, ds, ps, qs, windows, 0, i);
    assert(action_fits(actions[i], ds[i], ps[i]->Ok_0, cursor(input, ds, ps, i)));
    assert(ps[i] == Ok::<Placement, Error>(ps[i]->Ok_0));
    let cur = cursor(input, ds, ps, i);
    let a = actions[i];
    match ds[i] {
        Draft::Copy(t) => {
            let dir = ps[i]->Ok_0->Dir_0;
            assert(ps[i] == Ok::<Placement, Error>(Placement::Dir(dir)));
            assert(target_of(ds[i], ps[i], cur) == Some(dir@.push(cur.last())));
            assert(transfer_of(a) == Some((source_of(a), dest_of(a), t.on_conflict)));
        },
        Draft::Move(t) => {
            let dir = ps[i]->Ok_0->Dir_0;
            assert(ps[i] == Ok::<Placement, Error>(Placement::Dir(dir)));
            assert(target_of(ds[i], ps[i], cur) == Some(dir@.push(cur.last())));
            assert(transfer_of(a) == Some((source_of(a), dest_of(a), t.on_conflict)));
        },
        Draft::Rename(t) => {
            assert(ps[i] == Ok::<Placement, Error>(Placement::Here));
            assert(target_of(ds[i], ps[i], cur) == Some(replace_name(cur, t.name@)));
            assert(transfer_of(a) == Some((source_of(a), dest_of(a), t.on_conflict)));
        },
        Draft::Exec(_) => {},
    }
}

/// A resolved plan writes only to destinations that could be reached and
/// are absent or regular files.
pub proof fn law_destinations_are_absent_or_files(
    input: Seq<Seq<char>>,
    ds: Seq<Draft>,
    ps: Seq<Result<Placement, Error>>,
    qs: Seq<Result<Destination, Error>>,
    windows: bool,
    actions: Seq<Action>,
)
    requires
        resolved(input, ds, ps, qs, windows, actions),
    ensures
        forall|i: int|
            0 <= i < actions.len() && (#[trigger] transfer_of(actions[i])) is Some ==> qs[i] is Ok && qs[i]
                != Ok::<Destination, Error>(Destination::Other),
{
    assert forall|i: int| 0 <= i < actions.len() && (#[trigger] transfer_of(actions[i])) is Some implies qs[i] is Ok
        && qs[i] != Ok::<Destination, Error>(Destination::Other) by {
        lemma_fits_transfer(input, ds, ps, qs, windows, actions, i);
    }
}

/// No resolved plan writes the same destination twice, writes over its input,
/// or moves a file onto itself.
pub proof fn law_targets_are_fresh(
    input: Seq<Seq<char>>,
    ds: Seq<Draft>,
    ps: Seq<Result<Placement, Error>>,
    qs: Seq<Result<Destination, Error>>,
    windows: bool,
    actions: Seq<Action>,
)
    requires
        resolved(input, ds, ps, qs, windows, actions),
    ensures
        forall|i: int| 0 <= i < actions.len() && (#[trigger] transfer_of(actions[i])) is Some ==> {
            &&& dest_of(actions[i]) != input
            &&& dest_of(actions[i]) != source_of(actions[i])
        },
        forall|i: int, j: int|
            0 <= i < j < actions.len() && (#[trigger] transfer_of(actions[i])) is Some && (#[trigger] transfer_of(
                actions[j],
            )) is Some ==> dest_of(actions[i]) != dest_of(actions[j]),
{
    assert forall|i: int| 0 <= i < actions.len() && (#[trigger] transfer_of(actions[i])) is Some implies {
        &&& dest_of(actions[i]) != input
        &&& dest_of(actions[i]) != source_of(actions[i])
    } by {
        lemma_fits_transfer(input, ds, ps, qs, windows, actions, i);
    }
    assert forall|i: int, j: int|
        0 <= i < j < actions.len() && (#[trigger] transfer_of(actions[i])) is Some && (#[trigger] transfer_of(
            actions[j],
        )) is Some implies dest_of(actions[i]) != dest_of(actions[j]) by {
        lemma_fits_transfer(input, ds, ps, qs, windows, actions, i);
        lemma_fits_transfer(input, ds, ps, qs, windows, actions, j);
        lemma_target_recorded(input, ds, ps, i, j);
    }
}

/// The file reference: the first action acts on the input, and each later
/// copy, move or rename acts where the previous action left the file; a copy
/// leaves it in place, a move or rename carries it to the destination.
pub proof fn law_file_reference_follows_moves(
    input: Seq<Seq<char>>,
    ds: Seq<Draft>,
    ps: Seq<Result<Placement, Error>>,
    qs: Seq<Result<Destination, Error>>,
    windows: bool,
    actions: Seq<Action>,
)
    requires
        resolved(input, ds, ps, qs, windows, actions),
    ensures
        actions.len() > 0 && transfer_of(actions[0]) is Some ==> source_of(actions[0]) == input,
        forall|i: int|
            0 <= i && i + 1 < actions.len() && transfer_of(actions[i]) is Some && (#[trigger] transfer_of(
                actions[i + 1],
            )) is Some ==> source_of(actions[i + 1]) == if moves_ref(actions[i]) {
                dest_of(actions[i])
            } else {
                source_of(actions[i])
            },
{
    if actions.len() > 0 {
        lemma_fits_transfer(input, ds, ps, qs, windows, actions, 0);
    }
    assert forall|i: int|
        0 <= i && i + 1 < actions.len() && transfer_of(actions[i]) is Some && (#[trigger] transfer_of(
            actions[i + 1],
        )) is Some implies source_of(actions[i + 1]) == if moves_ref(actions[i]) {
        dest_of(actions[i])
    } else {
        source_of(actions[i])
    } by {
        lemma_fits_transfer(input, ds, ps, qs, windows, actions, i);
        lemma_fits_transfer(input, ds, ps, qs, windows, actions, i + 1);
        assert(cursor(input, ds, ps, i + 1) == next_cursor(ds[i], ps[i], cursor(input, ds, ps, i)));
    }
}

/// An instant as nanoseconds since the UNIX epoch.
pub open spec fn instant_ns(t: (i64, u32)) -> int {
    t.0 * 1_000_000_000 + t.1
}

/// Whether the time elapsed from `then` to `now` is not negative and at
/// least `ms` milliseconds.
pub open spec fn old_enough(now: (i64, u32), then: (i64, u32), ms: u64) -> bool {
    let age = instant_ns(now) - instant_ns(then);
    age >= 0 && age >= ms * 1_000_000
}

/// The outcome of an age limit: `None` where the limit is absent or met,
/// otherwise a non-match or an error.
pub open spec fn age_outcome(limit: Option<String>, time: Option<String>, now: (i64, u32)) -> Option<
    Result<bool, ErrorView>,
> {
    match limit {
        None => None,
        Some(l) => match time {
            None => Some(Ok(false)),
            Some(t) => match rfc3339_instant(t@) {
                Err(m) => Some(Err(fault("INVALID_DATA"@, m))),
                Ok(then) => match duration_spec(l@) {
                    Err(e) => Some(Err(e)),
                    Ok(ms) => if !old_enough(now, then, ms) {
                        Some(Ok(false))
                    } else {
                        None
                    },
                },
            },
        },
    }
}

/// Whether a condition holds for an evaluation input, or the error that stops
/// its evaluation. Fields are checked in order and combined with AND; the
/// evaluation time is parsed even where no age limit needs it; every `any`
/// child is evaluated.
pub open spec fn condition_outcome(c: Condition, ev: Evaluation) -> Result<bool, ErrorView>
    decreases c, 0int,
{
    let f = ev.file;
    if c.extension is Some && c.extension->0@ != f.extension@ {
        Ok(false)
    } else if c.name_glob is Some && glob_error(c.name_glob->0@) is Some {
        Err(fault("CONFIG_INVALID"@, glob_error(c.name_glob->0@)->0))
    } else if c.name_glob is Some && glob_set_error(c.name_glob->0@) is Some {
        Err(fault("CONFIG_INVALID"@, glob_set_error(c.name_glob->0@)->0))
    } else if c.name_glob is Some && !glob_is_match(c.name_glob->0@, f.name@) {
        Ok(false)
    } else if (c.min_size_bytes is Some && f.size_bytes < c.min_size_bytes->0) || (c.max_size_bytes is Some
        && f.size_bytes > c.max_size_bytes->0) {
        Ok(false)
    } else {
        match rfc3339_instant(ev.now@) {
            Err(m) => Err(fault("INVALID_DATA"@, m)),
            Ok(now) => match age_outcome(c.modified_older_than, f.modified_at, now) {
                Some(r) => r,
                None => match age_outcome(c.created_older_than, f.created_at, now) {
                    Some(r) => r,
                    None => {
                        let all = match c.all {
                            Some(v) => all_outcome(v@, 0, ev),
                            None => Ok(true),
                        };
                        match all {
                            Err(e) => Err(e),
                            Ok(false) => Ok(false),
                            Ok(true) => {
                                let any = match c.any {
                                    Some(v) => any_outcome(v@, 0, ev),
                                    None => Ok(true),
                                };
                                match any {
                                    Err(e) => Err(e),
                                    Ok(false) => Ok(false),
                                    Ok(true) => match c.not {
                                        Some(n) => match condition_outcome(*n, ev) {
                                            Err(e) => Err(e),
                                            Ok(b) => Ok(!b),
                                        },
                                        None => Ok(true),
                                    },
                                }
                            },
                        }
                    },
                },
            },
        }
    }
}

/// Whether all of `cs[i..]` hold, evaluated in order up to the first that
/// fails or errs.
pub open spec fn all_outcome(cs: Seq<Condition>, i: int, ev: Evaluation) -> Result<bool, ErrorView>
    decreases cs, cs.len() - i,
{
    if i < 0 || i >= cs.len() {
        Ok(true)
    } else {
        match condition_outcome(cs[i], ev) {
            Err(e) => Err(e),
            Ok(false) => Ok(false),
            Ok(true) => all_outcome(cs, i + 1, ev),
        }
    }
}

/// Whether any of `cs[i..]` holds; every one is evaluated, in order.
pub open spec fn any_outcome(cs: Seq<Condition>, i: int, ev: Evaluation) -> Result<bool, ErrorView>
    decreases cs, cs.len() - i,
{
    if i < 0 || i >= cs.len() {
        Ok(false)
    } else {
        match condition_outcome(cs[i], ev) {
            Err(e) => Err(e),
            Ok(b) => match any_outcome(cs, i + 1, ev) {
                Err(e) => Err(e),
                Ok(r) => Ok(b || r),
            },
        }
    }
}

/// What a condition evaluation says, as values.
pub open spec fn outcome_view(r: Result<bool, Error>) -> Result<bool, ErrorView> {
    match r {
        Ok(b) => Ok(b),
        Err(e) => Err(e@),
    }
}

fn age_check(limit: &Option<String>, time: &Option<String>, now: (i64, u32)) -> (r: Option<Result<bool, Error>>)
    ensures
        match r {
            None => age_outcome(*limit, *time, now) is None,
            Some(x) => age_outcome(*limit, *time, now) == Some(outcome_view(x)),
        },
{
    let l = match limit {
        None => {
            return None;
        },
        Some(l) => l,
    };
    let t = match time {
        None => {
            return Some(Ok(false));
        },
        Some(t) => t,
    };
    let then = match parse_rfc3339(t) {
        Err(m) => {
            return Some(Err(Error::with_message("INVALID_DATA", m)));
        },
        Ok(then) => then,
    };
    let ms = match duration(l) {
        Err(e) => {
            return Some(Err(e));
        },
        Ok(ms) => ms,
    };
    let secs: i128 = now.0 as i128 - then.0 as i128;
    assert(-0x1_0000_0000_0000_0000 < secs < 0x1_0000_0000_0000_0000);
    assert(-0x1_0000_0000_0000_0000 * 1_000_000_000 < secs * 1_000_000_000 < 0x1_0000_0000_0000_0000
        * 1_000_000_000) by (nonlinear_arith)
        requires
            -0x1_0000_0000_0000_0000 < secs < 0x1_0000_0000_0000_0000,
    ;
    let age: i128 = secs * 1_000_000_000 + (now.1 as i128 - then.1 as i128);
    let threshold: i128 = ms as i128 * 1_000_000;
    if age < 0 || age < threshold {
        Some(Ok(false))
    } else {
        None
    }
}

/// Evaluates a condition against the evaluation input.
#[verifier::loop_isolation(false)]
pub fn matches(c: &Condition, input: &Evaluation) -> (r: Result<bool, Error>)
    ensures
        outcome_view(r) == condition_outcome(*c, *input),
    decreases c,
{
    let f = &input.file;
    if let Some(e) = &c.extension {
        if !same_text(e, &f.extension) {
            return Ok(false);
        }
    }
    if let Some(g) = &c.name_glob {
        match glob_match(g, &f.name) {
            Err(m) => {
                return Err(Error::with_message("CONFIG_INVALID", m));
            },
            Ok(false) => {
                return Ok(false);
            },
            Ok(true) => {},
        }
    }
    let too_small = match c.min_size_bytes {
        Some(s) => f.size_bytes < s,
        None => false,
    };
    let too_large = match c.max_size_bytes {
        Some(s) => f.size_bytes > s,
        None => false,
    };
    if too_small || too_large {
        return Ok(false);
    }
    let now = match parse_rfc3339(&input.now) {
        Err(m) => {
            return Err(Error::with_message("INVALID_DATA", m));
        },
        Ok(now) => now,
    };
    match age_check(&c.modified_older_than, &f.modified_at, now) {
        Some(r) => {
            return r;
        },
        None => {},
    }
    match age_check(&c.created_older_than, &f.created_at, now) {
        Some(r) => {
            return r;
        },
        None => {},
    }
    if let Some(all) = &c.all {
        let mut i: usize = 0;
        while i < all.len()
            invariant
                i <= all.len(),
                all_outcome(all@, 0, *input) == all_outcome(all@, i as int, *input),
            decreases all.len() - i,
        {
            proof {
                assert(decreases_to!(*c => c.all));
                assert(decreases_to!(c.all => c.all->0));
                assert(decreases_to!(c.all->0 => c.all->0@));
                assert(decreases_to!(c.all->0@ => c.all->0@[i as int]));
            }
            match matches(&all[i], input) {
                Err(e) => {
                    return Err(e);
                },
                Ok(false) => {
                    return Ok(false);
                },
                Ok(true) => {},
            }
            i = i + 1;
        }
    }
    if let Some(any) = &c.any {
        let mut hit = false;
        let mut i: usize = 0;
        while i < any.len()
            invariant
                i <= any.len(),
                any_outcome(any@, 0, *input) == match any_outcome(any@, i as int, *input) {
                    Err(e) => Err(e),
                    Ok(r) => Ok(hit || r),
                },
            decreases any.len() - i,
        {
            proof {
                assert(decreases_to!(*c => c.any));
                assert(decreases_to!(c.any => c.any->0));
                assert(decreases_to!(c.any->0 => c.any->0@));
                assert(decreases_to!(c.any->0@ => c.any->0@[i as int]));
            }
            match matches(&any[i], input) {
                Err(e) => {
                    return Err(e);
                },
                Ok(b) => {
                    hit = hit || b;
                },
            }
            i = i + 1;
        }
        if !hit {
            return Ok(false);
        }
    }
    if let Some(n) = &c.not {
        match matches(n, input) {
            Err(e) => {
                return Err(e);
            },
            Ok(true) => {
                return Ok(false);
            },
            Ok(false) => {},
        }
    }
    Ok(true)
}

/// Evaluates JavaScript rule packages.
pub trait ScriptEvaluator {
    /// Loads a package and checks its exports without running a rule.
    fn check(&self, package: &Package) -> Result<(), Error>;

    /// Runs a package's rule on an evaluation input, giving its drafts.
    fn evaluate(&self, package: &Package, input: &Evaluation) -> Result<Vec<Draft>, Error>;
}

/// An evaluator for configurations without scripts: it refuses every package.
pub struct NoScripts;

impl ScriptEvaluator for NoScripts {
    fn check(&self, _package: &Package) -> (r: Result<(), Error>)
        ensures
            r matches Err(e) && e@ == fault("JS_UNAVAILABLE"@, "no script evaluator"@),
    {
        Err(Error::new("JS_UNAVAILABLE", "no script evaluator"))
    }

    fn evaluate(&self, _package: &Package, _input: &Evaluation) -> (r: Result<Vec<Draft>, Error>)
        ensures
            r matches Err(e) && e@ == fault("JS_UNAVAILABLE"@, "no script evaluator"@),
    {
        Err(Error::new("JS_UNAVAILABLE", "no script evaluator"))
    }
}

/// Loads and checks every rule package of a configuration, in rule ID order,
/// and stops at the first one the evaluator refuses: the error is the
/// evaluator's, naming that rule.
pub fn check<J: ScriptEvaluator>(config: &Loaded, js: &J) -> (r: Result<(), Error>)
    ensures
        r is Ok ==> forall|k: int|
            0 <= k < config.packages.len() ==> call_ensures(
                J::check,
                (js, &#[trigger] config.packages@[k].1),
                Ok::<(), Error>(()),
            ),
        r matches Err(e) ==> exists|k: int, f: Error|
            0 <= k < config.packages.len() && call_ensures(
                J::check,
                (js, &#[trigger] config.packages@[k].1),
                Err::<(), Error>(f),
            ) && e@ == with_rule(f@, config.packages@[k].0@) && forall|j: int|
                0 <= j < k ==> call_ensures(J::check, (js, &config.packages@[j].1), Ok::<(), Error>(())),
        config.packages.len() == 0 ==> r is Ok,
{
    let mut i: usize = 0;
    while i < config.packages.len()
        invariant
            i <= config.packages.len(),
            forall|j: int|
                0 <= j < i ==> call_ensures(J::check, (js, &#[trigger] config.packages@[j].1), Ok::<(), Error>(())),
        decreases config.packages.len() - i,
    {
        let (id, p) = &config.packages[i];
        let res = js.check(p);
        match res {
            Err(f) => {
                assert(call_ensures(J::check, (js, &config.packages@[i as int].1), Err::<(), Error>(f)));
                let e = f.rule(id.as_str());
                return Err(e);
            },
            Ok(u) => {
                assert(res == Ok::<(), Error>(u));
                assert(call_ensures(J::check, (js, &config.packages@[i as int].1), Ok::<(), Error>(())));
            },
        }
        i = i + 1;
    }
    Ok(())
}

/// The IDs of a due list.
pub open spec fn due_view(due: Option<&Vec<String>>) -> Option<Seq<String>> {
    match due {
        None => None,
        Some(v) => Some(v@),
    }
}

/// Whether the due list (if any) names `id`.
pub open spec fn due_allows(due: Option<Seq<String>>, id: Seq<char>) -> bool {
    match due {
        None => true,
        Some(ids) => exists|i: int| 0 <= i < ids.len() && #[trigger] ids[i]@ == id,
    }
}

/// Whether a rule is considered for an input of `source` planned for
/// `reason`: manual plans consider every rule of the source, scheduled plans
/// the due scan rules, and other plans the `file.ready` rules.
pub open spec fn rule_eligible(r: Rule, source: Seq<char>, reason: Seq<char>, due: Option<Seq<String>>) -> bool {
    &&& r.on.source@ == source
    &&& if reason == "manual"@ {
        true
    } else if reason == "scheduled"@ {
        r.on.kind@ == "scan"@ && due_allows(due, r.id@)
    } else {
        r.on.kind@ == "file.ready"@
    }
}

/// Whether a rule of ID `id` has a script package.
pub open spec fn has_package(packages: Seq<(String, Package)>, id: Seq<char>) -> bool {
    exists|i: int| 0 <= i < packages.len() && #[trigger] packages[i].0@ == id
}

/// Whether a rule with fixed actions claims the input: its condition (if any)
/// holds and it has at least one action.
pub open spec fn fixed_claim(r: Rule, ev: Evaluation) -> Result<bool, ErrorView> {
    let holds = match r.when {
        Some(c) => condition_outcome(c, ev),
        None => Ok(true),
    };
    match holds {
        Err(e) => Err(e),
        Ok(false) => Ok(false),
        Ok(true) => Ok(r.actions is Some && r.actions->0.len() > 0),
    }
}

/// Package `k` is the first one of ID `id`.
pub open spec fn first_package(packages: Seq<(String, Package)>, id: Seq<char>, k: int) -> bool {
    &&& 0 <= k < packages.len()
    &&& packages[k].0@ == id
    &&& forall|j: int| 0 <= j < k ==> #[trigger] packages[j].0@ != id
}

/// The evaluator may answer `res` for the first package of rule ID `id`.
pub open spec fn package_answer<J: ScriptEvaluator>(
    config: Loaded,
    js: &J,
    id: Seq<char>,
    ev: Evaluation,
    res: Result<Vec<Draft>, Error>,
) -> bool {
    exists|k: int|
        #![trigger config.packages@[k]]
        first_package(config.packages@, id, k) && call_ensures(J::evaluate, (js, &config.packages@[k].1, &ev), res)
}

/// Rule `j` of a configuration is passed over: it is not eligible, it is a
/// script rule whose evaluator returned no drafts, or it has fixed actions
/// and does not claim the input.
pub open spec fn passed_over<J: ScriptEvaluator>(
    config: Loaded,
    js: &J,
    j: int,
    source: Seq<char>,
    reason: Seq<char>,
    due: Option<Seq<String>>,
    ev: Evaluation,
) -> bool {
    let r = config.config.rules@[j];
    ||| !rule_eligible(r, source, reason, due)
    ||| has_package(config.packages@, r.id@) && exists|v: Vec<Draft>|
        v.len() == 0 && #[trigger] package_answer(config, js, r.id@, ev, Ok::<Vec<Draft>, Error>(v))
    ||| !has_package(config.packages@, r.id@) && fixed_claim(r, ev) == Ok::<bool, ErrorView>(false)
}

/// The rule that claimed an input: a rule with fixed actions, or a script rule
/// with the drafts it returned.
#[derive(Debug)]
pub enum Claim {
    Rule(usize),
    Script(usize, Vec<Draft>),
}

fn due_has(due: Option<&Vec<String>>, id: &str) -> (r: bool)
    ensures
        r == due_allows(due_view(due), id@),
{
    match due {
        None => {
            assert(due_view(due) is None);
            assert(due_allows(due_view(due), id@));
            true
        },
        Some(ids) => {
            let b = has_name(ids, id);
            proof {
                let s = ids@;
                if b {
                    let k = choose|k: int| 0 <= k < ids.len() && #[trigger] ids@[k]@ == id@;
                    assert(s[k]@ == id@);
                    assert(0 <= k < s.len());
                    assert(due_allows(Some(s), id@));
                } else {
                    assert forall|k: int| 0 <= k < s.len() implies #[trigger] s[k]@ != id@ by {
                        assert(ids@[k]@ != id@);
                    }
                }
                assert(due_view(due) == Some(s));
                assert(b == due_allows(Some(s), id@));
            }
            b
        },
    }
}

fn eligible(r: &Rule, source: &str, reason: &str, due: Option<&Vec<String>>) -> (b: bool)
    ensures
        b == rule_eligible(*r, source@, reason@, due_view(due)),
{
    if !same_text(r.on.source.as_str(), source) {
        return false;
    }
    if same_text(reason, "manual") {
        true
    } else if same_text(reason, "scheduled") {
        same_text(r.on.kind.as_str(), "scan") && due_has(due, r.id.as_str())
    } else {
        same_text(r.on.kind.as_str(), "file.ready")
    }
}

fn find_package(packages: &Vec<(String, Package)>, id: &str) -> (r: Option<usize>)
    ensures
        match r {
            Some(k) => first_package(packages@, id@, k as int),
            None => !has_package(packages@, id@),
        },
{
    let mut i: usize = 0;
    while i < packages.len()
        invariant
            i <= packages.len(),
            forall|k: int| 0 <= k < i ==> #[trigger] packages@[k].0@ != id@,
        decreases packages.len() - i,
    {
        if same_text(packages[i].0.as_str(), id) {
            return Some(i);
        }
        i = i + 1;
    }
    None
}

/// Finds the first rule, in configuration order, that claims an input of
/// `source`: an eligible rule whose script returns drafts, or whose condition
/// holds and that has actions. Evaluation errors end the search; an error of a
/// script names its rule.
#[verifier::loop_isolation(false)]
pub fn select_rule<J: ScriptEvaluator>(
    config: &Loaded,
    js: &J,
    source: &str,
    reason: &str,
    due: Option<&Vec<String>>,
    ev: &Evaluation,
) -> (r: Result<Option<Claim>, Error>)
    ensures
        ({
            let d = due_view(due);
            let rules = config.config.rules@;
            match r {
                Ok(None) => forall|j: int| 0 <= j < rules.len() ==> passed_over(*config, js, j, source@, reason@, d, *ev),
                Ok(Some(Claim::Rule(k))) => {
                    &&& k < rules.len()
                    &&& rule_eligible(rules[k as int], source@, reason@, d)
                    &&& !has_package(config.packages@, rules[k as int].id@)
                    &&& fixed_claim(rules[k as int], *ev) == Ok::<bool, ErrorView>(true)
                    &&& forall|j: int| 0 <= j < k ==> passed_over(*config, js, j, source@, reason@, d, *ev)
                },
                Ok(Some(Claim::Script(k, drafts))) => {
                    &&& k < rules.len()
                    &&& rule_eligible(rules[k as int], source@, reason@, d)
                    &&& has_package(config.packages@, rules[k as int].id@)
                    &&& drafts.len() > 0
                    &&& package_answer(*config, js, rules[k as int].id@, *ev, Ok::<Vec<Draft>, Error>(drafts))
                    &&& forall|j: int| 0 <= j < k ==> passed_over(*config, js, j, source@, reason@, d, *ev)
                },
                Err(e) => exists|k: int| {
                    &&& 0 <= k < rules.len()
                    &&& rule_eligible(rules[k], source@, reason@, d)
                    &&& forall|j: int| 0 <= j < k ==> passed_over(*config, js, j, source@, reason@, d, *ev)
                    &&& if has_package(config.packages@, rules[k].id@) {
                        exists|f: Error|
                            e@ == with_rule(f@, rules[k].id@) && #[trigger] package_answer(
                                *config,
                                js,
                                rules[k].id@,
                                *ev,
                                Err::<Vec<Draft>, Error>(f),
                            )
                    } else {
                        fixed_claim(rules[k], *ev) == Err::<bool, ErrorView>(e@)
                    }
                },
            }
        }),
{
    let rules = &config.config.rules;
    let ghost d = due_view(due);
    let mut i: usize = 0;
    while i < rules.len()
        invariant
            i <= rules.len(),
            forall|j: int| 0 <= j < i ==> passed_over(*config, js, j, source@, reason@, d, *ev),
        decreases rules.len() - i,
    {
        let r = &rules[i];
        if eligible(r, source, reason, due) {
            match find_package(&config.packages, r.id.as_str()) {
                Some(k) => {
                    proof {
                        assert(has_package(config.packages@, r.id@));
                    }
                    let res = js.evaluate(&config.packages[k].1, ev);
                    proof {
                        assert(package_answer(*config, js, r.id@, *ev, res));
                    }
                    match res {
                        Err(f) => {
                            let e = f.rule(r.id.as_str());
                            return Err(e);
                        },
                        Ok(drafts) => {
                            if drafts.len() > 0 {
                                return Ok(Some(Claim::Script(i, drafts)));
                            }
                        },
                    }
                },
                None => {
                    let holds = match &r.when {
                        Some(c) => matches(c, ev),
                        None => Ok(true),
                    };
                    match holds {
                        Err(e) => {
                            return Err(e);
                        },
                        Ok(true) => {
                            let n = match &r.actions {
                                Some(a) => a.len(),
                                None => 0,
                            };
                            if n > 0 {
                                return Ok(Some(Claim::Rule(i)));
                            }
                        },
                        Ok(false) => {},
                    }
                },
            }
        }
        i = i + 1;
    }
    Ok(None)
}

/// The risks a plan of `actions` carries: an external command's effects can be
/// neither previewed nor undone.
pub fn plan_risks(actions: &Vec<Action>) -> (r: Vec<String>)
    ensures
        (exists|i: int| 0 <= i < actions.len() && #[trigger] actions@[i] is Exec) ==> r@.map_values(|s: String| s@) == seq![
            "external_effects_not_previewable_or_undoable"@,
        ],
        !(exists|i: int| 0 <= i < actions.len() && #[trigger] actions@[i] is Exec) ==> r@.len() == 0,
{
    let mut i: usize = 0;
    while i < actions.len()
        invariant
            i <= actions.len(),
            forall|k: int| 0 <= k < i ==> !(#[trigger] actions@[k] is Exec),
        decreases actions.len() - i,
    {
        if actions[i].is_exec() {
            let mut r: Vec<String> = Vec::new();
            r.push("external_effects_not_previewable_or_undoable".to_owned());
            assert(r@.map_values(|s: String| s@) =~= seq!["external_effects_not_previewable_or_undoable"@]);
            return r;
        }
        i = i + 1;
    }
    Vec::new()
}

/// What the filesystem holds at a destination.
#[derive(Debug, Clone, Copy, PartialEq, Eq, Structural)]
pub enum Destination {
    Absent,
    File,
    /// Something other than a regular file.
    Other,
}

/// Whether a source admits an input: a recursive source admits every path
/// below its root, a nonrecursive one only the files directly in it.
pub open spec fn admits_input(recursive: bool, root: Seq<Seq<char>>, input: Seq<Seq<char>>) -> bool {
    recursive || (input.len() > 0 && input.drop_last() == root)
}

/// Refuses an input below a nonrecursive source's root.
pub fn admit_input(recursive: bool, root: &FsPath, input: &FsPath) -> (r: Result<(), Error>)
    ensures
        r is Ok <==> admits_input(recursive, root@, input@),
        r matches Err(e) ==> e@ == fault("OUTSIDE_SOURCE"@, "input is below a nonrecursive source"@),
{
    if recursive {
        return Ok(());
    }
    match input.parent() {
        Some(p) => if p.same(root) {
            Ok(())
        } else {
            Err(Error::new("OUTSIDE_SOURCE", "input is below a nonrecursive source"))
        },
        None => Err(Error::new("OUTSIDE_SOURCE", "input is below a nonrecursive source")),
    }
}

/// The index of the first root that `path` lies in.
pub fn find_source(roots: &Vec<(String, FsPath)>, path: &FsPath) -> (r: Option<usize>)
    ensures
        match r {
            Some(k) => k < roots.len() && is_prefix_of(roots@[k as int].1@, path@) && forall|j: int|
                0 <= j < k ==> !is_prefix_of(#[trigger] roots@[j].1@, path@),
            None => forall|j: int| 0 <= j < roots.len() ==> !is_prefix_of(#[trigger] roots@[j].1@, path@),
        },
{
    let mut i: usize = 0;
    while i < roots.len()
        invariant
            i <= roots.len(),
            forall|j: int| 0 <= j < i ==> !is_prefix_of(#[trigger] roots@[j].1@, path@),
        decreases roots.len() - i,
    {
        if path.starts_with(&roots[i].1) {
            return Some(i);
        }
        i = i + 1;
    }
    None
}

/// The path of `path` relative to `root` as glob matching sees it: the
/// components below the root joined with `/`, or the whole path where it does
/// not lie in the root.
pub open spec fn relative_text(root: Seq<Seq<char>>, path: Seq<Seq<char>>) -> Seq<char> {
    if is_prefix_of(root, path) {
        let rest = path.subrange(root.len() as int, path.len() as int);
        if rest.len() == 0 {
            seq![]
        } else {
            components_text(rest).drop_first()
        }
    } else {
        path_text(path)
    }
}

proof fn lemma_components_text_starts_with_slash(p: Seq<Seq<char>>)
    requires
        p.len() > 0,
    ensures
        components_text(p).len() > 0,
        components_text(p)[0] == '/',
    decreases p.len(),
{
    let q = p.drop_last();
    assert(components_text(p) == components_text(q) + seq!['/'] + p.last());
    if q.len() > 0 {
        lemma_components_text_starts_with_slash(q);
    } else {
        assert(components_text(q) =~= seq![]);
    }
    assert((components_text(q) + seq!['/'] + p.last())[0] == '/');
}

fn relative(root: &FsPath, path: &FsPath) -> (r: String)
    ensures
        r@ == relative_text(root@, path@),
{
    if path.starts_with(root) {
        let mut parts: Vec<String> = Vec::new();
        let mut i: usize = root.parts.len();
        while i < path.parts.len()
            invariant
                root@.len() <= i <= path@.len(),
                parts@.map_values(|q: String| q@) == path@.subrange(root@.len() as int, i as int),
            decreases path.parts.len() - i,
        {
            assert(path.parts@[i as int]@ == path@[i as int]);
            let ghost old = parts@;
            let item = path.parts[i].clone();
            parts.push(item);
            assert(parts@ == old.push(item));
            assert(parts@.map_values(|q: String| q@) =~= old.map_values(|q: String| q@).push(item@));
            assert(path@.subrange(root@.len() as int, i + 1) =~= path@.subrange(root@.len() as int, i as int).push(
                path@[i as int],
            ));
            i = i + 1;
        }
        if parts.len() == 0 {
            return String::new();
        }
        let rest = FsPath { parts };
        let full = rest.display();
        proof {
            lemma_components_text_starts_with_slash(rest@);
        }
        let n = full.as_str().unicode_len();
        let r = crate::text::text_of(full.as_str(), 1, n);
        assert(r@ =~= components_text(rest@).drop_first());
        r
    } else {
        path.display()
    }
}

/// The first ignore pattern among `gs[i..]` that matches `rel` or does not
/// compile.
pub open spec fn ignore_outcome(gs: Seq<String>, i: int, rel: Seq<char>) -> Result<bool, ErrorView>
    decreases gs.len() - i,
{
    if i < 0 || i >= gs.len() {
        Ok(false)
    } else {
        match glob_error(gs[i]@) {
            Some(m) => Err(fault("CONFIG_INVALID"@, m)),
            None => match glob_set_error(gs[i]@) {
                Some(m) => Err(fault("CONFIG_INVALID"@, m)),
                None => if glob_is_match(gs[i]@, rel) {
                    Ok(true)
                } else {
                    ignore_outcome(gs, i + 1, rel)
                },
            },
        }
    }
}

/// Whether a name is one of the engine's own intermediate files.
pub open spec fn is_own_name(name: Seq<char>) -> bool {
    name.len() >= 7 && name.subrange(0, 7) == ".filet-"@
}

/// Whether an input of a source is ignored: the engine's own `.filet-` files
/// always are; otherwise the first ignore pattern (matched against the path
/// relative to the source root) that matches decides.
pub open spec fn ignored_outcome(source: Source, root: Seq<Seq<char>>, path: Seq<Seq<char>>) -> Result<bool, ErrorView> {
    if path.len() > 0 && is_own_name(path.last()) {
        Ok(true)
    } else {
        ignore_outcome(source.ignore@, 0, relative_text(root, path))
    }
}

pub fn ignored(source: &Source, root: &FsPath, path: &FsPath) -> (r: Result<bool, Error>)
    ensures
        outcome_view(r) == ignored_outcome(*source, root@, path@),
{
    let rel = relative(root, path);
    match path.file_name() {
        Some(name) => {
            let n = name.as_str().unicode_len();
            if n >= 7 {
                let head = crate::text::text_of(name.as_str(), 0, 7);
                proof {
                    reveal_strlit(".filet-");
                }
                if same_text(head.as_str(), ".filet-") {
                    return Ok(true);
                }
            }
        },
        None => {},
    }
    let mut i: usize = 0;
    while i < source.ignore.len()
        invariant
            i <= source.ignore.len(),
            ignored_outcome(*source, root@, path@) == ignore_outcome(source.ignore@, i as int, rel@),
        decreases source.ignore.len() - i,
    {
        match glob_match(source.ignore[i].as_str(), rel.as_str()) {
            Err(m) => {
                return Err(Error::with_message("CONFIG_INVALID", m));
            },
            Ok(true) => {
                return Ok(true);
            },
            Ok(false) => {},
        }
        i = i + 1;
    }
    Ok(false)
}

/// The destinations of the copies, moves and renames among `actions`, in order.
pub open spec fn outputs(actions: Seq<Action>) -> Seq<Seq<Seq<char>>>
    decreases actions.len(),
{
    if actions.len() == 0 {
        seq![]
    } else {
        let prev = outputs(actions.drop_last());
        match transfer_of(actions.last()) {
            Some((_, to, _)) => prev.push(to),
            None => prev,
        }
    }
}

/// The paths a plan writes.
pub fn output_paths(plan: &crate::model::Plan) -> (r: Vec<FsPath>)
    ensures
        r@.map_values(|p: FsPath| p@) == outputs(plan.actions@),
{
    let mut r: Vec<FsPath> = Vec::new();
    let mut i: usize = 0;
    while i < plan.actions.len()
        invariant
            i <= plan.actions.len(),
            r@.map_values(|p: FsPath| p@) == outputs(plan.actions@.subrange(0, i as int)),
        decreases plan.actions.len() - i,
    {
        let ghost pre = plan.actions@.subrange(0, i as int);
        assert(plan.actions@.subrange(0, i + 1).drop_last() =~= pre);
        match plan.actions[i].transfer() {
            Some((_, to, _)) => {
                r.push(to.duplicate());
            },
            None => {},
        }
        i = i + 1;
        assert(r@.map_values(|p: FsPath| p@) =~= outputs(plan.actions@.subrange(0, i as int)));
    }
    assert(plan.actions@.subrange(0, plan.actions@.len() as int) =~= plan.actions@);
    r
}

/// Whether every one of `cs` holds.
pub open spec fn all_hold(cs: Seq<Condition>, ev: Evaluation) -> bool {
    forall|i: int| 0 <= i < cs.len() ==> condition_outcome(#[trigger] cs[i], ev) == Ok::<bool, ErrorView>(true)
}

/// Whether one of `cs` holds.
pub open spec fn any_holds(cs: Seq<Condition>, ev: Evaluation) -> bool {
    exists|i: int| 0 <= i < cs.len() && condition_outcome(#[trigger] cs[i], ev) == Ok::<bool, ErrorView>(true)
}

/// Whether every one of `cs` is evaluated without error.
pub open spec fn all_evaluate(cs: Seq<Condition>, ev: Evaluation) -> bool {
    forall|i: int| 0 <= i < cs.len() ==> (#[trigger] condition_outcome(cs[i], ev)) is Ok
}

proof fn lemma_all_outcome(cs: Seq<Condition>, i: int, ev: Evaluation)
    requires
        0 <= i <= cs.len(),
        all_evaluate(cs, ev),
    ensures
        all_outcome(cs, i, ev) == Ok::<bool, ErrorView>(
            forall|j: int| i <= j < cs.len() ==> condition_outcome(#[trigger] cs[j], ev) == Ok::<bool, ErrorView>(true),
        ),
    decreases cs.len() - i,
{
    if i < cs.len() {
        lemma_all_outcome(cs, i + 1, ev);
        assert(condition_outcome(cs[i], ev) is Ok);
    }
}

proof fn lemma_any_outcome(cs: Seq<Condition>, i: int, ev: Evaluation)
    requires
        0 <= i <= cs.len(),
        all_evaluate(cs, ev),
    ensures
        any_outcome(cs, i, ev) == Ok::<bool, ErrorView>(
            exists|j: int| i <= j < cs.len() && condition_outcome(#[trigger] cs[j], ev) == Ok::<bool, ErrorView>(true),
        ),
    decreases cs.len() - i,
{
    if i < cs.len() {
        lemma_any_outcome(cs, i + 1, ev);
        assert(condition_outcome(cs[i], ev) is Ok);
    }
}

/// Conditions compose: where the evaluation time is a valid RFC 3339
/// timestamp and every sub-condition evaluates, a condition made only of
/// `all`, `any` and `not` holds exactly when every `all` child holds, some
/// `any` child holds and the `not` child does not; the parts set together
/// are combined with AND, an empty `all` holds and an empty `any` does not.
pub proof fn law_conditions_compose(c: Condition, ev: Evaluation)
    requires
        rfc3339_instant(ev.now@) is Ok,
        c.extension is None,
        c.name_glob is None,
        c.min_size_bytes is None,
        c.max_size_bytes is None,
        c.modified_older_than is None,
        c.created_older_than is None,
        c.all matches Some(v) ==> all_evaluate(v@, ev),
        c.any matches Some(v) ==> all_evaluate(v@, ev),
        c.not matches Some(n) ==> condition_outcome(*n, ev) is Ok,
    ensures
        condition_outcome(c, ev) == Ok::<bool, ErrorView>(
            (match c.all {
                Some(v) => all_hold(v@, ev),
                None => true,
            }) && (match c.any {
                Some(v) => any_holds(v@, ev),
                None => true,
            }) && (match c.not {
                Some(n) => condition_outcome(*n, ev) == Ok::<bool, ErrorView>(false),
                None => true,
            }),
        ),
{
    if let Some(v) = c.all {
        lemma_all_outcome(v@, 0, ev);
    }
    if let Some(v) = c.any {
        lemma_any_outcome(v@, 0, ev);
    }
}

proof fn lemma_each_draft_valid(ds: Seq<Draft>, i: int)
    requires
        0 <= i,
        first_draft_error(ds, i) is None,
    ensures
        forall|j: int| i <= j < ds.len() ==> draft_error(#[trigger] ds[j], j + 1 == ds.len()) is None,
    decreases ds.len() - i,
{
    if i < ds.len() {
        lemma_each_draft_valid(ds, i + 1);
    }
}

proof fn lemma_drafts_valid_from(ds: Seq<Draft>, i: int)
    requires
        0 <= i,
        forall|j: int| i <= j < ds.len() ==> draft_error(#[trigger] ds[j], j + 1 == ds.len()) is None,
    ensures
        first_draft_error(ds, i) is None,
    decreases ds.len() - i,
{
    if i < ds.len() {
        lemma_drafts_valid_from(ds, i + 1);
    }
}

/// Every prefix of a valid list of drafts, the empty one included, is valid.
pub proof fn law_prefix_of_valid_drafts_is_valid(ds: Seq<Draft>, k: int)
    requires
        drafts_error(ds) is None,
        0 <= k <= ds.len(),
    ensures
        drafts_error(ds.take(k)) is None,
{
    let p = ds.take(k);
    lemma_each_draft_valid(ds, 0);
    assert forall|j: int| 0 <= j < p.len() implies draft_error(#[trigger] p[j], j + 1 == p.len()) is None by {
        assert(p[j] == ds[j]);
        assert(draft_error(ds[j], j + 1 == ds.len()) is None);
        if j + 1 < ds.len() {
            assert(!(ds[j] is Exec));
        }
    }
    lemma_drafts_valid_from(p, 0);
}

/// Whether a list of actions runs an external command.
pub open spec fn has_command(actions: Seq<Action>) -> bool {
    exists|i: int| 0 <= i < actions.len() && #[trigger] actions[i] is Exec
}

/// The plan of a rule's actions for an input: the current format, the
/// configuration revision it was made under, and the risks of its actions.
pub fn assemble_plan(
    plan_id: String,
    rule_id: String,
    revision: String,
    source: String,
    input: Snapshot,
    actions: Vec<Action>,
) -> (p: Plan)
    ensures
        p.format_version == 1,
        p.plan_id == plan_id,
        p.rule_id == rule_id,
        p.rule_revision == revision,
        p.source == source,
        p.input_snapshot == input,
        p.actions == actions,
        has_command(actions@) ==> p.risks@.map_values(|s: String| s@) == seq![
            "external_effects_not_previewable_or_undoable"@,
        ],
        !has_command(actions@) ==> p.risks@.len() == 0,
{
    let risks = plan_risks(&actions);
    Plan {
        format_version: 1,
        plan_id,
        rule_id,
        rule_revision: revision,
        source,
        input_snapshot: input,
        actions,
        risks,
    }
}

/// The name of the temporary file that step `step` of plan `plan_id`
/// writes beside its destination.
pub open spec fn temp_name(plan_id: Seq<char>, step: nat) -> Seq<char> {
    ".filet-"@ + plan_id + "-"@ + decimal(step) + ".tmp"@
}

/// Where step `step` of plan `plan_id` writes before publishing to `to`: a
/// file beside the destination whose name marks it as the engine's own, so
/// that scans ignore it.
pub fn temp_path(to: &FsPath, plan_id: &str, step: u64) -> (r: FsPath)
    ensures
        r@ == replace_name(to@, temp_name(plan_id@, step as nat)),
        r@.len() > 0 && is_own_name(r@.last()),
{
    let mut name = ".filet-".to_owned();
    name.append(plan_id);
    name.append("-");
    name.append(decimal_text(step).as_str());
    name.append(".tmp");
    proof {
        reveal_strlit(".filet-");
        assert(name@.subrange(0, 7) =~= ".filet-"@);
    }
    to.with_file_name(name.as_str())
}

/// Size limits are inclusive bounds: a condition never holds for a file
/// larger than its `maxSizeBytes` or smaller than its `minSizeBytes`.
pub proof fn law_size_limits_exclude(c: Condition, ev: Evaluation)
    ensures
        c.max_size_bytes matches Some(m) && ev.file.size_bytes > m ==> condition_outcome(c, ev) != Ok::<
            bool,
            ErrorView,
        >(true),
        c.min_size_bytes matches Some(m) && ev.file.size_bytes < m ==> condition_outcome(c, ev) != Ok::<
            bool,
            ErrorView,
        >(true),
{
}

/// A condition of size limits alone holds exactly for the files whose size
/// lies within them, bounds included.
pub proof fn law_size_limits_alone(c: Condition, ev: Evaluation)
    requires
        rfc3339_instant(ev.now@) is Ok,
        c.extension is None,
        c.name_glob is None,
        c.modified_older_than is None,
        c.created_older_than is None,
        c.all is None,
        c.any is None,
        c.not is None,
    ensures
        condition_outcome(c, ev) == Ok::<bool, ErrorView>(
            (c.min_size_bytes matches Some(m) ==> m <= ev.file.size_bytes) && (c.max_size_bytes matches Some(m)
                ==> ev.file.size_bytes <= m),
        ),
{
}

/// A condition with an extension never holds for a file with another
/// extension, and one with a name glob never for a file whose name the glob
/// does not match.
pub proof fn law_extension_and_glob_exclude(c: Condition, ev: Evaluation)
    ensures
        c.extension matches Some(x) && x@ != ev.file.extension@ ==> condition_outcome(c, ev) == Ok::<
            bool,
            ErrorView,
        >(false),
        c.name_glob matches Some(g) && glob_error(g@) is None && glob_set_error(g@) is None && !glob_is_match(
            g@,
            ev.file.name@,
        ) ==> condition_outcome(c, ev) != Ok::<bool, ErrorView>(true),
{
}

/// An age limit never holds for a file without the timestamp it limits.
pub proof fn law_age_limits_need_their_time(c: Condition, ev: Evaluation)
    ensures
        c.modified_older_than is Some && ev.file.modified_at is None ==> condition_outcome(c, ev) != Ok::<
            bool,
            ErrorView,
        >(true),
        c.created_older_than is Some && ev.file.created_at is None ==> condition_outcome(c, ev) != Ok::<
            bool,
            ErrorView,
        >(true),
{
}

} // verus!
