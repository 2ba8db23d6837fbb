//! JSON as rule scripts exchange it with the host: the actions a script
//! returns are decoded from a JSON tree, and the evaluation input is written
//! as JSON text.

use vstd::prelude::*;
use vstd::string::*;
use crate::error::{Error, ErrorView, fault};
use crate::model::{Arg, Conflict, Draft, Exec, PathArg, Rename, Transfer};
use crate::model::{Evaluation, FileContext};
use crate::text::{char_text, chars, opt_text, same_text};

verus! {

/// A JSON value. Numbers carry no payload: no action field takes one.
#[derive(Debug)]
pub enum JsonValue {
    Null,
    Bool(bool),
    Number,
    Text(String),
    List(Vec<JsonValue>),
    Fields(Vec<(String, JsonValue)>),
}

/// A command argument as text.
pub enum ArgView {
    Literal(Seq<char>),
    Path(Seq<char>),
}

/// A draft action as text: the file reference, the destination directory or
/// new name and the conflict policy of a transfer or rename; the program,
/// arguments, working directory, environment and timeout of a command.
pub enum DraftView {
    Copy(Seq<char>, Seq<char>, Conflict),
    Move(Seq<char>, Seq<char>, Conflict),
    Rename(Seq<char>, Seq<char>, Conflict),
    Exec(Seq<char>, Seq<ArgView>, Option<Seq<char>>, Seq<(Seq<char>, Seq<char>)>, Seq<char>),
}

pub open spec fn arg_view(a: Arg) -> ArgView {
    match a {
        Arg::Literal(s) => ArgView::Literal(s@),
        Arg::Path(p) => ArgView::Path(p.path_of@),
    }
}

pub open spec fn env_view(e: (String, String)) -> (Seq<char>, Seq<char>) {
    (e.0@, e.1@)
}

pub open spec fn draft_view(d: Draft) -> DraftView {
    match d {
        Draft::Copy(t) => DraftView::Copy(t.file@, t.to@, t.on_conflict),
        Draft::Move(t) => DraftView::Move(t.file@, t.to@, t.on_conflict),
        Draft::Rename(r) => DraftView::Rename(r.file@, r.name@, r.on_conflict),
        Draft::Exec(x) => DraftView::Exec(
            x.program@,
            x.args@.map_values(|a: Arg| arg_view(a)),
            opt_text(x.cwd),
            x.env@.map_values(|e: (String, String)| env_view(e)),
            x.timeout@,
        ),
    }
}

/// The value of the first field named `key`.
pub open spec fn lookup(fs: Seq<(String, JsonValue)>, key: Seq<char>) -> Option<JsonValue>
    decreases fs.len(),
{
    if fs.len() == 0 {
        None
    } else if fs[0].0@ == key {
        Some(fs[0].1)
    } else {
        lookup(fs.drop_first(), key)
    }
}

/// The field names an object of each shape may hold.
pub enum Shape {
    Transfer,
    Rename,
    Exec,
    PathArg,
}

/// The fields a shape expects, as serde lists them after an unknown field.
pub open spec fn expected_fields(shape: Shape) -> Seq<char> {
    match shape {
        Shape::Transfer => ", expected one of `file`, `to`, `onConflict`"@,
        Shape::Rename => ", expected one of `file`, `name`, `onConflict`"@,
        Shape::Exec => ", expected one of `program`, `args`, `cwd`, `env`, `timeout`"@,
        Shape::PathArg => ", expected `pathOf`"@,
    }
}

pub open spec fn allowed(shape: Shape, k: Seq<char>) -> bool {
    match shape {
        Shape::Transfer => k == "file"@ || k == "to"@ || k == "onConflict"@,
        Shape::Rename => k == "file"@ || k == "name"@ || k == "onConflict"@,
        Shape::Exec => k == "program"@ || k == "args"@ || k == "cwd"@ || k == "env"@ || k == "timeout"@,
        Shape::PathArg => k == "pathOf"@,
    }
}

/// The first field name that the shape does not allow.
pub open spec fn first_unknown(fs: Seq<(String, JsonValue)>, shape: Shape) -> Option<Seq<char>>
    decreases fs.len(),
{
    if fs.len() == 0 {
        None
    } else if !allowed(shape, fs[0].0@) {
        Some(fs[0].0@)
    } else {
        first_unknown(fs.drop_first(), shape)
    }
}

/// `before`, the name `k` in backquotes, then `after`.
pub open spec fn naming(before: Seq<char>, k: Seq<char>) -> Seq<char> {
    before + "`"@ + k + "`"@
}

/// A text field, with `default` where it is absent.
pub open spec fn text_field(fs: Seq<(String, JsonValue)>, key: Seq<char>, default: Option<Seq<char>>) -> Result<
    Seq<char>,
    Seq<char>,
> {
    match lookup(fs, key) {
        None => match default {
            Some(d) => Ok(d),
            None => Err(naming("missing field "@, key)),
        },
        Some(JsonValue::Text(s)) => Ok(s@),
        Some(_) => Err(naming("expected a string for field "@, key)),
    }
}

/// The `onConflict` field: `error` where absent.
pub open spec fn conflict_field(fs: Seq<(String, JsonValue)>) -> Result<Conflict, Seq<char>> {
    match lookup(fs, "onConflict"@) {
        None => Ok(Conflict::Error),
        Some(JsonValue::Text(s)) => if s@ == "error"@ {
            Ok(Conflict::Error)
        } else if s@ == "skip"@ {
            Ok(Conflict::Skip)
        } else {
            Err(naming("unknown variant "@, s@) + ", expected `error` or `skip`"@)
        },
        Some(_) => Err(naming("expected a string for field "@, "onConflict"@)),
    }
}

/// A transfer or rename body: the file reference, the field `target`
/// (`to` or `name`) and the conflict policy.
pub open spec fn moved_spec(j: JsonValue, shape: Shape, target: Seq<char>) -> Result<
    (Seq<char>, Seq<char>, Conflict),
    Seq<char>,
> {
    match j {
        JsonValue::Fields(fs) => match first_unknown(fs@, shape) {
            Some(k) => Err(naming("unknown field "@, k) + expected_fields(shape)),
            None => match text_field(fs@, "file"@, Some("input"@)) {
                Err(m) => Err(m),
                Ok(file) => match text_field(fs@, target, None) {
                    Err(m) => Err(m),
                    Ok(t) => match conflict_field(fs@) {
                        Err(m) => Err(m),
                        Ok(c) => Ok((file, t, c)),
                    },
                },
            },
        },
        _ => Err("an action body must be an object"@),
    }
}

/// A command argument: a string, or an object with just `pathOf`.
pub open spec fn arg_spec(j: JsonValue) -> Result<ArgView, Seq<char>> {
    match j {
        JsonValue::Text(s) => Ok(ArgView::Literal(s@)),
        JsonValue::Fields(fs) => match first_unknown(fs@, Shape::PathArg) {
            Some(k) => Err(naming("unknown field "@, k) + expected_fields(Shape::PathArg)),
            None => match text_field(fs@, "pathOf"@, None) {
                Err(m) => Err(m),
                Ok(r) => Ok(ArgView::Path(r)),
            },
        },
        _ => Err("a command argument must be a string or a pathOf object"@),
    }
}

/// The arguments of `items`, or the error of the first that is not one.
pub open spec fn args_spec(items: Seq<JsonValue>) -> Result<Seq<ArgView>, Seq<char>>
    decreases items.len(),
{
    if items.len() == 0 {
        Ok(seq![])
    } else {
        match args_spec(items.drop_last()) {
            Err(m) => Err(m),
            Ok(prev) => match arg_spec(items.last()) {
                Err(m) => Err(m),
                Ok(a) => Ok(prev.push(a)),
            },
        }
    }
}

/// The environment of `es`, whose values must be strings.
pub open spec fn env_spec(es: Seq<(String, JsonValue)>) -> Result<Seq<(Seq<char>, Seq<char>)>, Seq<char>>
    decreases es.len(),
{
    if es.len() == 0 {
        Ok(seq![])
    } else {
        match env_spec(es.drop_last()) {
            Err(m) => Err(m),
            Ok(prev) => match es.last().1 {
                JsonValue::Text(v) => Ok(prev.push((es.last().0@, v@))),
                _ => Err(naming("expected a string for environment variable "@, es.last().0@)),
            },
        }
    }
}

pub open spec fn args_field(fs: Seq<(String, JsonValue)>) -> Result<Seq<ArgView>, Seq<char>> {
    match lookup(fs, "args"@) {
        None => Ok(seq![]),
        Some(JsonValue::List(items)) => args_spec(items@),
        Some(_) => Err(naming("expected an array for field "@, "args"@)),
    }
}

pub open spec fn cwd_field(fs: Seq<(String, JsonValue)>) -> Result<Option<Seq<char>>, Seq<char>> {
    match lookup(fs, "cwd"@) {
        None => Ok(None),
        Some(JsonValue::Null) => Ok(None),
        Some(JsonValue::Text(s)) => Ok(Some(s@)),
        Some(_) => Err(naming("expected a string for field "@, "cwd"@)),
    }
}

pub open spec fn env_field(fs: Seq<(String, JsonValue)>) -> Result<Seq<(Seq<char>, Seq<char>)>, Seq<char>> {
    match lookup(fs, "env"@) {
        None => Ok(seq![]),
        Some(JsonValue::Fields(es)) => env_spec(es@),
        Some(_) => Err(naming("expected an object for field "@, "env"@)),
    }
}

/// A command body.
pub open spec fn exec_spec(j: JsonValue) -> Result<DraftView, Seq<char>> {
    match j {
        JsonValue::Fields(fs) => match first_unknown(fs@, Shape::Exec) {
            Some(k) => Err(naming("unknown field "@, k) + expected_fields(Shape::Exec)),
            None => match text_field(fs@, "program"@, None) {
                Err(m) => Err(m),
                Ok(program) => match args_field(fs@) {
                    Err(m) => Err(m),
                    Ok(args) => match cwd_field(fs@) {
                        Err(m) => Err(m),
                        Ok(cwd) => match env_field(fs@) {
                            Err(m) => Err(m),
                            Ok(env) => match text_field(fs@, "timeout"@, Some("30s"@)) {
                                Err(m) => Err(m),
                                Ok(t) => Ok(DraftView::Exec(program, args, cwd, env, t)),
                            },
                        },
                    },
                },
            },
        },
        _ => Err("an action body must be an object"@),
    }
}

/// One action: an object with exactly one key naming its kind.
pub open spec fn draft_spec(j: JsonValue) -> Result<DraftView, Seq<char>> {
    match j {
        JsonValue::Fields(fs) if fs@.len() == 1 => {
            let kind = fs@[0].0@;
            let body = fs@[0].1;
            if kind == "copy"@ {
                match moved_spec(body, Shape::Transfer, "to"@) {
                    Err(m) => Err(m),
                    Ok((f, t, c)) => Ok(DraftView::Copy(f, t, c)),
                }
            } else if kind == "move"@ {
                match moved_spec(body, Shape::Transfer, "to"@) {
                    Err(m) => Err(m),
                    Ok((f, t, c)) => Ok(DraftView::Move(f, t, c)),
                }
            } else if kind == "rename"@ {
                match moved_spec(body, Shape::Rename, "name"@) {
                    Err(m) => Err(m),
                    Ok((f, t, c)) => Ok(DraftView::Rename(f, t, c)),
                }
            } else if kind == "exec"@ {
                exec_spec(body)
            } else {
                Err("unknown action; expected copy/move/rename/exec"@)
            }
        },
        _ => Err("an action must have exactly one key"@),
    }
}

/// The actions of `items`, or the error of the first that is not one.
pub open spec fn items_spec(items: Seq<JsonValue>) -> Result<Seq<DraftView>, Seq<char>>
    decreases items.len(),
{
    if items.len() == 0 {
        Ok(seq![])
    } else {
        match items_spec(items.drop_last()) {
            Err(m) => Err(m),
            Ok(prev) => match draft_spec(items.last()) {
                Err(m) => Err(m),
                Ok(d) => Ok(prev.push(d)),
            },
        }
    }
}

/// The actions that a script's result decodes to.
pub open spec fn drafts_spec(j: JsonValue) -> Result<Seq<DraftView>, Seq<char>> {
    match j {
        JsonValue::List(items) => items_spec(items@),
        _ => Err("expected an array of actions"@),
    }
}

} // verus!

verus! {

fn lookup_field<'a>(fs: &'a Vec<(String, JsonValue)>, key: &str) -> (r: Option<&'a JsonValue>)
    ensures
        match r {
            Some(v) => lookup(fs@, key@) == Some(*v),
            None => lookup(fs@, key@) is None,
        },
{
    let mut i: usize = 0;
    assert(fs@.skip(0) =~= fs@);
    while i < fs.len()
        invariant
            i <= fs.len(),
            lookup(fs@, key@) == lookup(fs@.skip(i as int), key@),
        decreases fs.len() - i,
    {
        assert(fs@.skip(i as int).drop_first() =~= fs@.skip(i + 1));
        if same_text(fs[i].0.as_str(), key) {
            return Some(&fs[i].1);
        }
        i = i + 1;
    }
    None
}

fn is_allowed(shape: &Shape, k: &str) -> (r: bool)
    ensures
        r == allowed(*shape, k@),
{
    match shape {
        Shape::Transfer => same_text(k, "file") || same_text(k, "to") || same_text(k, "onConflict"),
        Shape::Rename => same_text(k, "file") || same_text(k, "name") || same_text(k, "onConflict"),
        Shape::Exec => same_text(k, "program") || same_text(k, "args") || same_text(k, "cwd")
            || same_text(k, "env") || same_text(k, "timeout"),
        Shape::PathArg => same_text(k, "pathOf"),
    }
}

/// `before`, then `k` in backquotes.
fn naming_text(before: &str, k: &str) -> (r: String)
    ensures
        r@ == naming(before@, k@),
{
    let mut r = before.to_owned();
    r.append("`");
    r.append(k);
    r.append("`");
    r
}

fn check_known(fs: &Vec<(String, JsonValue)>, shape: Shape) -> (r: Result<(), String>)
    ensures
        match r {
            Ok(()) => first_unknown(fs@, shape) is None,
            Err(m) => first_unknown(fs@, shape) matches Some(k) && m@ == naming("unknown field "@, k)
                + expected_fields(shape),
        },
{
    let mut i: usize = 0;
    assert(fs@.skip(0) =~= fs@);
    while i < fs.len()
        invariant
            i <= fs.len(),
            first_unknown(fs@, shape) == first_unknown(fs@.skip(i as int), shape),
        decreases fs.len() - i,
    {
        assert(fs@.skip(i as int).drop_first() =~= fs@.skip(i + 1));
        if !is_allowed(&shape, fs[i].0.as_str()) {
            let mut m = naming_text("unknown field ", fs[i].0.as_str());
            match shape {
                Shape::Transfer => m.append(", expected one of `file`, `to`, `onConflict`"),
                Shape::Rename => m.append(", expected one of `file`, `name`, `onConflict`"),
                Shape::Exec => m.append(", expected one of `program`, `args`, `cwd`, `env`, `timeout`"),
                Shape::PathArg => m.append(", expected `pathOf`"),
            }
            return Err(m);
        }
        i = i + 1;
    }
    Ok(())
}

fn text_value(fs: &Vec<(String, JsonValue)>, key: &str, default: Option<&str>) -> (r: Result<String, String>)
    ensures
        ({
            let d = match default {
                Some(t) => Some(t@),
                None => None,
            };
            match r {
                Ok(s) => text_field(fs@, key@, d) == Ok::<Seq<char>, Seq<char>>(s@),
                Err(m) => text_field(fs@, key@, d) == Err::<Seq<char>, Seq<char>>(m@),
            }
        }),
{
    match lookup_field(fs, key) {
        None => match default {
            Some(d) => Ok(d.to_owned()),
            None => Err(naming_text("missing field ", key)),
        },
        Some(JsonValue::Text(s)) => Ok(s.clone()),
        Some(_) => Err(naming_text("expected a string for field ", key)),
    }
}

fn conflict_value(fs: &Vec<(String, JsonValue)>) -> (r: Result<Conflict, String>)
    ensures
        match r {
            Ok(c) => conflict_field(fs@) == Ok::<Conflict, Seq<char>>(c),
            Err(m) => conflict_field(fs@) == Err::<Conflict, Seq<char>>(m@),
        },
{
    match lookup_field(fs, "onConflict") {
        None => Ok(Conflict::Error),
        Some(JsonValue::Text(s)) => {
            if same_text(s.as_str(), "error") {
                Ok(Conflict::Error)
            } else if same_text(s.as_str(), "skip") {
                Ok(Conflict::Skip)
            } else {
                let mut m = naming_text("unknown variant ", s.as_str());
                m.append(", expected `error` or `skip`");
                Err(m)
            }
        },
        Some(_) => Err(naming_text("expected a string for field ", "onConflict")),
    }
}

fn decode_moved(j: &JsonValue, shape: Shape, target: &str) -> (r: Result<(String, String, Conflict), String>)
    ensures
        match r {
            Ok((f, t, c)) => moved_spec(*j, shape, target@) == Ok::<(Seq<char>, Seq<char>, Conflict), Seq<char>>(
                (f@, t@, c),
            ),
            Err(m) => moved_spec(*j, shape, target@) == Err::<(Seq<char>, Seq<char>, Conflict), Seq<char>>(m@),
        },
{
    match j {
        JsonValue::Fields(fs) => {
            check_known(fs, shape)?;
            let file = text_value(fs, "file", Some("input"))?;
            let t = text_value(fs, target, None)?;
            let c = conflict_value(fs)?;
            Ok((file, t, c))
        },
        _ => Err("an action body must be an object".to_owned()),
    }
}

fn decode_arg(j: &JsonValue) -> (r: Result<Arg, String>)
    ensures
        match r {
            Ok(a) => arg_spec(*j) == Ok::<ArgView, Seq<char>>(arg_view(a)),
            Err(m) => arg_spec(*j) == Err::<ArgView, Seq<char>>(m@),
        },
{
    match j {
        JsonValue::Text(s) => Ok(Arg::Literal(s.clone())),
        JsonValue::Fields(fs) => {
            check_known(fs, Shape::PathArg)?;
            let r = text_value(fs, "pathOf", None)?;
            Ok(Arg::Path(PathArg { path_of: r }))
        },
        _ => Err("a command argument must be a string or a pathOf object".to_owned()),
    }
}

fn decode_args(items: &Vec<JsonValue>) -> (r: Result<Vec<Arg>, String>)
    ensures
        match r {
            Ok(v) => args_spec(items@) == Ok::<Seq<ArgView>, Seq<char>>(v@.map_values(|a: Arg| arg_view(a))),
            Err(m) => args_spec(items@) == Err::<Seq<ArgView>, Seq<char>>(m@),
        },
{
    let mut out: Vec<Arg> = Vec::new();
    let mut i: usize = 0;
    assert(items@.take(0) =~= seq![]);
    assert(out@.map_values(|a: Arg| arg_view(a)) =~= seq![]);
    while i < items.len()
        invariant
            i <= items.len(),
            args_spec(items@.take(i as int)) == Ok::<Seq<ArgView>, Seq<char>>(
                out@.map_values(|a: Arg| arg_view(a)),
            ),
        decreases items.len() - i,
    {
        assert(items@.take(i + 1).drop_last() =~= items@.take(i as int));
        assert(items@.take(i + 1).last() == items@[i as int]);
        let a = match decode_arg(&items[i]) {
            Ok(a) => a,
            Err(m) => {
                assert(args_spec(items@) == args_spec(items@.take(i + 1))) by {
                    lemma_args_prefix_error(items@, i as int + 1);
                }
                return Err(m);
            },
        };
        let ghost prev = out@;
        out.push(a);
        assert(out@.map_values(|a: Arg| arg_view(a)) =~= prev.map_values(|a: Arg| arg_view(a)).push(
            arg_view(a),
        ));
        i = i + 1;
    }
    assert(items@.take(items.len() as int) =~= items@);
    Ok(out)
}

/// Once a prefix of the arguments fails, the whole list fails the same way.
proof fn lemma_args_prefix_error(items: Seq<JsonValue>, n: int)
    requires
        0 <= n <= items.len(),
        args_spec(items.take(n)) is Err,
    ensures
        args_spec(items) == args_spec(items.take(n)),
    decreases items.len() - n,
{
    if n < items.len() {
        assert(items.take(n + 1).drop_last() =~= items.take(n));
        lemma_args_prefix_error(items, n + 1);
    } else {
        assert(items.take(n) =~= items);
    }
}

/// Once a prefix of the environment fails, the whole environment fails the same way.
proof fn lemma_env_prefix_error(es: Seq<(String, JsonValue)>, n: int)
    requires
        0 <= n <= es.len(),
        env_spec(es.take(n)) is Err,
    ensures
        env_spec(es) == env_spec(es.take(n)),
    decreases es.len() - n,
{
    if n < es.len() {
        assert(es.take(n + 1).drop_last() =~= es.take(n));
        lemma_env_prefix_error(es, n + 1);
    } else {
        assert(es.take(n) =~= es);
    }
}

/// Once a prefix of the actions fails, the whole list fails the same way.
proof fn lemma_items_prefix_error(items: Seq<JsonValue>, n: int)
    requires
        0 <= n <= items.len(),
        items_spec(items.take(n)) is Err,
    ensures
        items_spec(items) == items_spec(items.take(n)),
    decreases items.len() - n,
{
    if n < items.len() {
        assert(items.take(n + 1).drop_last() =~= items.take(n));
        lemma_items_prefix_error(items, n + 1);
    } else {
        assert(items.take(n) =~= items);
    }
}

fn decode_env(es: &Vec<(String, JsonValue)>) -> (r: Result<Vec<(String, String)>, String>)
    ensures
        match r {
            Ok(v) => env_spec(es@) == Ok::<Seq<(Seq<char>, Seq<char>)>, Seq<char>>(
                v@.map_values(|e: (String, String)| env_view(e)),
            ),
            Err(m) => env_spec(es@) == Err::<Seq<(Seq<char>, Seq<char>)>, Seq<char>>(m@),
        },
{
    let mut out: Vec<(String, String)> = Vec::new();
    let mut i: usize = 0;
    assert(es@.take(0) =~= seq![]);
    assert(out@.map_values(|e: (String, String)| env_view(e)) =~= seq![]);
    while i < es.len()
        invariant
            i <= es.len(),
            env_spec(es@.take(i as int)) == Ok::<Seq<(Seq<char>, Seq<char>)>, Seq<char>>(
                out@.map_values(|e: (String, String)| env_view(e)),
            ),
        decreases es.len() - i,
    {
        assert(es@.take(i + 1).drop_last() =~= es@.take(i as int));
        assert(es@.take(i + 1).last() == es@[i as int]);
        match &es[i].1 {
            JsonValue::Text(v) => {
                let ghost prev = out@;
                out.push((es[i].0.clone(), v.clone()));
                assert(out@.map_values(|e: (String, String)| env_view(e)) =~= prev.map_values(
                    |e: (String, String)| env_view(e),
                ).push((es@[i as int].0@, v@)));
            },
            _ => {
                let m = naming_text("expected a string for environment variable ", es[i].0.as_str());
                proof {
                    lemma_env_prefix_error(es@, i as int + 1);
                }
                return Err(m);
            },
        }
        i = i + 1;
    }
    assert(es@.take(es.len() as int) =~= es@);
    Ok(out)
}

fn decode_exec(j: &JsonValue) -> (r: Result<Exec, String>)
    ensures
        match r {
            Ok(x) => exec_spec(*j) == Ok::<DraftView, Seq<char>>(draft_view(Draft::Exec(x))),
            Err(m) => exec_spec(*j) == Err::<DraftView, Seq<char>>(m@),
        },
{
    match j {
        JsonValue::Fields(fs) => {
            check_known(fs, Shape::Exec)?;
            let program = text_value(fs, "program", None)?;
            let args = match lookup_field(fs, "args") {
                None => Vec::new(),
                Some(JsonValue::List(items)) => decode_args(items)?,
                Some(_) => {
                    return Err(naming_text("expected an array for field ", "args"));
                },
            };
            proof {
                if lookup(fs@, "args"@) is None {
                    assert(args@.map_values(|a: Arg| arg_view(a)) =~= seq![]);
                }
            }
            let cwd = match lookup_field(fs, "cwd") {
                None => None,
                Some(JsonValue::Null) => None,
                Some(JsonValue::Text(s)) => Some(s.clone()),
                Some(_) => {
                    return Err(naming_text("expected a string for field ", "cwd"));
                },
            };
            let env = match lookup_field(fs, "env") {
                None => Vec::new(),
                Some(JsonValue::Fields(es)) => decode_env(es)?,
                Some(_) => {
                    return Err(naming_text("expected an object for field ", "env"));
                },
            };
            proof {
                if lookup(fs@, "env"@) is None {
                    assert(env@.map_values(|e: (String, String)| env_view(e)) =~= seq![]);
                }
            }
            let timeout = text_value(fs, "timeout", Some("30s"))?;
            Ok(Exec { program, args, cwd, env, timeout })
        },
        _ => Err("an action body must be an object".to_owned()),
    }
}

fn decode_draft(j: &JsonValue) -> (r: Result<Draft, String>)
    ensures
        match r {
            Ok(d) => draft_spec(*j) == Ok::<DraftView, Seq<char>>(draft_view(d)),
            Err(m) => draft_spec(*j) == Err::<DraftView, Seq<char>>(m@),
        },
{
    match j {
        JsonValue::Fields(fs) => {
            if fs.len() != 1 {
                return Err("an action must have exactly one key".to_owned());
            }
            let kind = fs[0].0.as_str();
            let body = &fs[0].1;
            if same_text(kind, "copy") {
                let (file, to, on_conflict) = decode_moved(body, Shape::Transfer, "to")?;
                Ok(Draft::Copy(Transfer { file, to, on_conflict }))
            } else if same_text(kind, "move") {
                let (file, to, on_conflict) = decode_moved(body, Shape::Transfer, "to")?;
                Ok(Draft::Move(Transfer { file, to, on_conflict }))
            } else if same_text(kind, "rename") {
                let (file, name, on_conflict) = decode_moved(body, Shape::Rename, "name")?;
                Ok(Draft::Rename(Rename { file, name, on_conflict }))
            } else if same_text(kind, "exec") {
                let x = decode_exec(body)?;
                Ok(Draft::Exec(x))
            } else {
                Err("unknown action; expected copy/move/rename/exec".to_owned())
            }
        },
        _ => Err("an action must have exactly one key".to_owned()),
    }
}

/// Decodes the actions a script returned. Every failure is `INVALID_ACTION`
/// with the message of the first offending value.
pub fn decode_drafts(j: &JsonValue) -> (r: Result<Vec<Draft>, Error>)
    ensures
        match r {
            Ok(v) => drafts_spec(*j) == Ok::<Seq<DraftView>, Seq<char>>(v@.map_values(|d: Draft| draft_view(d))),
            Err(e) => drafts_spec(*j) matches Err(m) && e@ == fault("INVALID_ACTION"@, m),
        },
{
    match j {
        JsonValue::List(items) => {
            let mut out: Vec<Draft> = Vec::new();
            let mut i: usize = 0;
            assert(items@.take(0) =~= seq![]);
            assert(out@.map_values(|d: Draft| draft_view(d)) =~= seq![]);
            while i < items.len()
                invariant
                    i <= items.len(),
                    drafts_spec(*j) == items_spec(items@),
                    items_spec(items@.take(i as int)) == Ok::<Seq<DraftView>, Seq<char>>(
                        out@.map_values(|d: Draft| draft_view(d)),
                    ),
                decreases items.len() - i,
            {
                assert(items@.take(i + 1).drop_last() =~= items@.take(i as int));
                assert(items@.take(i + 1).last() == items@[i as int]);
                let d = match decode_draft(&items[i]) {
                    Ok(d) => d,
                    Err(m) => {
                        proof {
                            lemma_items_prefix_error(items@, i as int + 1);
                        }
                        return Err(Error::with_message("INVALID_ACTION", m));
                    },
                };
                let ghost prev = out@;
                out.push(d);
                assert(out@.map_values(|d: Draft| draft_view(d)) =~= prev.map_values(
                    |d: Draft| draft_view(d),
                ).push(draft_view(d)));
                i = i + 1;
            }
            assert(items@.take(items.len() as int) =~= items@);
            Ok(out)
        },
        _ => Err(Error::new("INVALID_ACTION", "expected an array of actions")),
    }
}

} // verus!

verus! {

/// A hexadecimal digit, in lower case.
pub open spec fn hex_digit(n: int) -> char {
    if n < 10 {
        (48 + n) as char
    } else {
        (87 + n) as char
    }
}

/// How a character stands inside a JSON string.
pub open spec fn escape_char(c: char) -> Seq<char> {
    if c == '"' {
        seq!['\\', '"']
    } else if c == '\\' {
        seq!['\\', '\\']
    } else if c == '\n' {
        seq!['\\', 'n']
    } else if c == '\r' {
        seq!['\\', 'r']
    } else if c == '\t' {
        seq!['\\', 't']
    } else if c == '\x08' {
        seq!['\\', 'b']
    } else if c == '\x0c' {
        seq!['\\', 'f']
    } else if (c as int) < 32 {
        seq!['\\', 'u', '0', '0', hex_digit((c as int) / 16), hex_digit((c as int) % 16)]
    } else {
        seq![c]
    }
}

/// The characters of `s`, each escaped.
pub open spec fn escaped(s: Seq<char>) -> Seq<char>
    decreases s.len(),
{
    if s.len() == 0 {
        seq![]
    } else {
        escaped(s.drop_last()) + escape_char(s.last())
    }
}

/// `s` as a JSON string.
pub open spec fn quoted(s: Seq<char>) -> Seq<char> {
    seq!['"'] + escaped(s) + seq!['"']
}

/// An optional string as JSON: the string, or `null`.
pub open spec fn nullable(o: Option<Seq<char>>) -> Seq<char> {
    match o {
        Some(s) => quoted(s),
        None => "null"@,
    }
}

/// The decimal digits of `n`, without leading zeros.
pub open spec fn decimal(n: nat) -> Seq<char>
    decreases n,
{
    if n < 10 {
        seq![hex_digit(n as int)]
    } else {
        decimal(n / 10).push(hex_digit((n % 10) as int))
    }
}

/// The JSON object that a script receives as its context.
pub open spec fn file_json(f: FileContext) -> Seq<char> {
    "{\"ref\":"@ + quoted(f.file_ref@) + ",\"name\":"@ + quoted(f.name@) + ",\"stem\":"@ + quoted(f.stem@)
        + ",\"extension\":"@ + quoted(f.extension@) + ",\"sizeBytes\":"@ + decimal(f.size_bytes as nat)
        + ",\"modifiedAt\":"@ + nullable(opt_text(f.modified_at)) + ",\"createdAt\":"@ + nullable(
        opt_text(f.created_at),
    ) + ",\"path\":"@ + nullable(opt_text(f.path)) + "}"@
}

pub open spec fn evaluation_json(ev: Evaluation) -> Seq<char> {
    "{\"file\":"@ + file_json(ev.file) + ",\"event\":{\"reason\":"@ + quoted(ev.event.reason@) + "},\"now\":"@
        + quoted(ev.now@) + "}"@
}

fn hex_char(n: u32) -> (c: char)
    requires
        n < 16,
    ensures
        c == hex_digit(n as int),
{
    if n < 10 {
        ((n + 48) as u8) as char
    } else {
        ((n + 87) as u8) as char
    }
}

fn escape_text(c: char) -> (r: String)
    ensures
        r@ == escape_char(c),
{
    let mut r = char_text('\\');
    if c == '"' {
        r.append(char_text('"').as_str());
    } else if c == '\\' {
        r.append(char_text('\\').as_str());
    } else if c == '\n' {
        r.append(char_text('n').as_str());
    } else if c == '\r' {
        r.append(char_text('r').as_str());
    } else if c == '\t' {
        r.append(char_text('t').as_str());
    } else if c == '\x08' {
        r.append(char_text('b').as_str());
    } else if c == '\x0c' {
        r.append(char_text('f').as_str());
    } else if (c as u32) < 32 {
        let n = c as u32;
        r.append(char_text('u').as_str());
        r.append(char_text('0').as_str());
        r.append(char_text('0').as_str());
        r.append(char_text(hex_char(n / 16)).as_str());
        r.append(char_text(hex_char(n % 16)).as_str());
    } else {
        return char_text(c);
    }
    r
}

/// `s` as a JSON string: in double quotes, with quotes, backslashes and
/// control characters escaped.
pub fn quote(s: &str) -> (r: String)
    ensures
        r@ == quoted(s@),
{
    let cs = chars(s);
    let mut r = char_text('"');
    let mut i: usize = 0;
    while i < cs.len()
        invariant
            i <= cs.len(),
            cs@ == s@,
            r@ == seq!['"'] + escaped(s@.take(i as int)),
        decreases cs.len() - i,
    {
        assert(s@.take(i + 1).drop_last() =~= s@.take(i as int));
        let piece = escape_text(cs[i]);
        r.append(piece.as_str());
        i = i + 1;
    }
    assert(s@.take(cs.len() as int) =~= s@);
    r.append(char_text('"').as_str());
    r
}

fn nullable_text(o: &Option<String>) -> (r: String)
    ensures
        r@ == nullable(opt_text(*o)),
{
    match o {
        Some(s) => quote(s.as_str()),
        None => {
            let r = "null".to_owned();
            proof {
                reveal_strlit("null");
            }
            r
        },
    }
}

/// The decimal digits of `n`, without leading zeros.
pub(crate) fn decimal_text(n: u64) -> (r: String)
    ensures
        r@ == decimal(n as nat),
    decreases n,
{
    if n < 10 {
        char_text(hex_char(n as u32))
    } else {
        let mut r = decimal_text(n / 10);
        r.append(char_text(hex_char((n % 10) as u32)).as_str());
        r
    }
}

fn encode_file(f: &FileContext) -> (r: String)
    ensures
        r@ == file_json(*f),
{
    let mut r = "{\"ref\":".to_owned();
    r.append(quote(f.file_ref.as_str()).as_str());
    r.append(",\"name\":");
    r.append(quote(f.name.as_str()).as_str());
    r.append(",\"stem\":");
    r.append(quote(f.stem.as_str()).as_str());
    r.append(",\"extension\":");
    r.append(quote(f.extension.as_str()).as_str());
    r.append(",\"sizeBytes\":");
    r.append(decimal_text(f.size_bytes).as_str());
    r.append(",\"modifiedAt\":");
    r.append(nullable_text(&f.modified_at).as_str());
    r.append(",\"createdAt\":");
    r.append(nullable_text(&f.created_at).as_str());
    r.append(",\"path\":");
    r.append(nullable_text(&f.path).as_str());
    r.append("}");
    r
}

/// The context object a script receives, as JSON text.
pub fn encode_evaluation(ev: &Evaluation) -> (r: String)
    ensures
        r@ == evaluation_json(*ev),
{
    let mut r = "{\"file\":".to_owned();
    r.append(encode_file(&ev.file).as_str());
    r.append(",\"event\":{\"reason\":");
    r.append(quote(ev.event.reason.as_str()).as_str());
    r.append("},\"now\":");
    r.append(quote(ev.now.as_str()).as_str());
    r.append("}");
    r
}

} // verus!

verus! {

#[verifier::external_type_specification]
#[verifier::external_body]
pub struct ExJsonValue(serde_json::Value);

#[verifier::external_type_specification]
#[verifier::external_body]
#[verifier::reject_recursive_types(K)]
#[verifier::reject_recursive_types(V)]
pub struct ExJsonMap<K, V>(serde_json::Map<K, V>);

/// The outermost layer of a parsed JSON value.
pub enum JsonNode {
    Null,
    Bool(bool),
    Number,
    Text(String),
    List(Vec<serde_json::Value>),
    Fields(serde_json::Map<String, serde_json::Value>),
}

/// What `serde_json::from_str` makes of `text`: a `serde_json::Value`, or
/// the parser's message. A function of the text alone.
pub uninterp spec fn json_from_text(text: Seq<char>) -> Result<serde_json::Value, Seq<char>>;

/// The outermost layer of a `serde_json::Value`: which variant it is, with
/// its contents moved out (a number's value dropped).
pub uninterp spec fn json_layer(v: serde_json::Value) -> JsonNode;

/// The entries of a `serde_json::Map` in its iteration order.
pub uninterp spec fn json_map_entries(m: serde_json::Map<String, serde_json::Value>) -> Seq<
    (String, serde_json::Value),
>;

/// Parses JSON text with `serde_json::from_str` into a `serde_json::Value`,
/// or gives the parser's message. Claimed: the result is the named
/// `json_from_text` of the text.
#[verifier::external_body]
fn parse_value(text: &str) -> (r: Result<serde_json::Value, String>)
    ensures
        match r {
            Ok(v) => json_from_text(text@) == Ok::<serde_json::Value, Seq<char>>(v),
            Err(m) => json_from_text(text@) == Err::<serde_json::Value, Seq<char>>(m@),
        },
{
    serde_json::from_str(text).map_err(|e| e.to_string())
}

/// Tells the variants of a `serde_json::Value` apart, moving out their
/// contents (a number's value is dropped). Claimed: the result is the named
/// `json_layer` of the value.
#[verifier::external_body]
fn json_node(v: serde_json::Value) -> (r: JsonNode)
    ensures
        r == json_layer(v),
{
    match v {
        serde_json::Value::Null => JsonNode::Null,
        serde_json::Value::Bool(b) => JsonNode::Bool(b),
        serde_json::Value::Number(_) => JsonNode::Number,
        serde_json::Value::String(s) => JsonNode::Text(s),
        serde_json::Value::Array(a) => JsonNode::List(a),
        serde_json::Value::Object(m) => JsonNode::Fields(m),
    }
}

/// The entries of a `serde_json::Map`, in its iteration order
/// (`IntoIterator::into_iter` collected into a vector). Claimed: they are the
/// named `json_map_entries` of the map.
#[verifier::external_body]
fn map_entries(m: serde_json::Map<String, serde_json::Value>) -> (r: Vec<(String, serde_json::Value)>)
    ensures
        r@ == json_map_entries(m),
{
    m.into_iter().collect()
}

/// The most levels of nesting `serde_json::from_str` accepts.
pub const JSON_DEPTH: u64 = 128;

/// Whether a tree has at most `depth` levels of arrays and objects.
pub open spec fn nested_within(t: JsonValue, depth: nat) -> bool
    decreases depth,
{
    match t {
        JsonValue::List(items) => depth > 0 && forall|i: int|
            0 <= i < items@.len() ==> nested_within(#[trigger] items@[i], (depth - 1) as nat),
        JsonValue::Fields(fs) => depth > 0 && forall|i: int|
            0 <= i < fs@.len() ==> nested_within(#[trigger] fs@[i].1, (depth - 1) as nat),
        _ => true,
    }
}

/// Whether a parsed value has at most `depth` levels of arrays and objects.
pub open spec fn json_fits(v: serde_json::Value, depth: nat) -> bool
    decreases depth,
{
    match json_layer(v) {
        JsonNode::List(items) => depth > 0 && forall|i: int|
            0 <= i < items@.len() ==> json_fits(#[trigger] items@[i], (depth - 1) as nat),
        JsonNode::Fields(m) => depth > 0 && forall|i: int|
            0 <= i < json_map_entries(m).len() ==> json_fits(
                #[trigger] json_map_entries(m)[i].1,
                (depth - 1) as nat,
            ),
        _ => true,
    }
}

/// Whether `t` is the tree of the parsed value `v`: the same variants, texts,
/// booleans, items and keys in the same order, down to `depth` levels.
pub open spec fn json_converts(t: JsonValue, v: serde_json::Value, depth: nat) -> bool
    decreases depth,
{
    match json_layer(v) {
        JsonNode::Null => t is Null,
        JsonNode::Bool(b) => t == JsonValue::Bool(b),
        JsonNode::Number => t is Number,
        JsonNode::Text(s) => t == JsonValue::Text(s),
        JsonNode::List(items) => depth > 0 && t is List && t->List_0@.len() == items@.len() && forall|i: int|
            0 <= i < items@.len() ==> json_converts(
                t->List_0@[i],
                #[trigger] items@[i],
                (depth - 1) as nat,
            ),
        JsonNode::Fields(m) => depth > 0 && t is Fields && t->Fields_0@.len() == json_map_entries(m).len()
            && forall|i: int|
            0 <= i < json_map_entries(m).len() ==> t->Fields_0@[i].0 == json_map_entries(m)[i].0
                && json_converts(t->Fields_0@[i].1, #[trigger] json_map_entries(m)[i].1, (depth - 1) as nat),
    }
}

/// Converts a parsed value with at most `depth` levels of arrays and
/// objects; `None` where it is nested deeper.
fn tree(v: serde_json::Value, depth: u64) -> (r: Option<JsonValue>)
    ensures
        r is Some <==> json_fits(v, depth as nat),
        r matches Some(t) ==> json_converts(t, v, depth as nat) && nested_within(t, depth as nat),
    decreases depth,
{
    let ghost v0 = v;
    match json_node(v) {
        JsonNode::Null => Some(JsonValue::Null),
        JsonNode::Bool(b) => Some(JsonValue::Bool(b)),
        JsonNode::Number => Some(JsonValue::Number),
        JsonNode::Text(s) => Some(JsonValue::Text(s)),
        JsonNode::List(items) => {
            if depth == 0 {
                return None;
            }
            let ghost all = items@;
            let ghost n = all.len();
            let mut items = items;
            let mut reversed: Vec<JsonValue> = Vec::new();
            while items.len() > 0
                invariant
                    depth > 0,
                    items@ == all.subrange(0, items@.len() as int),
                    n == all.len(),
                    v0 == v,
                    json_layer(v0) is List && json_layer(v0)->List_0@ == all,
                    items@.len() + reversed@.len() == n,
                    forall|i: int|
                        items@.len() <= i < n ==> json_fits(#[trigger] all[i], (depth - 1) as nat)
                            && json_converts(reversed@[n - 1 - i], all[i], (depth - 1) as nat)
                            && nested_within(reversed@[n - 1 - i], (depth - 1) as nat),
                decreases items.len(),
            {
                let ghost before = items@;
                let popped = items.pop();
                proof {
                    assert(popped == Some(before[before.len() - 1]));
                    assert(before == all.subrange(0, before.len() as int));
                    assert(before[before.len() - 1] == all.subrange(0, before.len() as int)[before.len() - 1]);
                    assert(all.subrange(0, before.len() as int)[before.len() - 1] == all[before.len() - 1]);
                    assert(items@.len() == before.len() - 1);
                    assert(before[before.len() - 1] == all[items@.len() as int]);
                }
                let x = popped.unwrap();
                let t = match tree(x, depth - 1) {
                    Some(t) => t,
                    None => {
                        return None;
                    },
                };
                reversed.push(t);
            }
            let mut out: Vec<JsonValue> = Vec::new();
            while reversed.len() > 0
                invariant
                    n == all.len(),
                    out@.len() + reversed@.len() == n,
                    forall|i: int|
                        0 <= i < n ==> json_fits(#[trigger] all[i], (depth - 1) as nat),
                    forall|i: int|
                        out@.len() <= i < n ==> json_converts(reversed@[n - 1 - i], #[trigger] all[i], (depth - 1) as nat)
                            && nested_within(reversed@[n - 1 - i], (depth - 1) as nat),
                    forall|i: int|
                        0 <= i < out@.len() ==> json_converts(out@[i], #[trigger] all[i], (depth - 1) as nat)
                            && nested_within(out@[i], (depth - 1) as nat),
                decreases reversed.len(),
            {
                proof {
                    assert(json_converts(reversed@[reversed@.len() - 1], all[out@.len() as int], (depth - 1) as nat));
                }
                out.push(reversed.pop().unwrap());
            }
            let r = JsonValue::List(out);
            assert(nested_within(r, depth as nat)) by {
                assert forall|i: int| 0 <= i < out@.len() implies nested_within(
                    #[trigger] out@[i],
                    (depth - 1) as nat,
                ) by {
                    assert(json_converts(out@[i], all[i], (depth - 1) as nat));
                }
            }
            Some(r)
        },
        JsonNode::Fields(m) => {
            if depth == 0 {
                return None;
            }
            let mut entries = map_entries(m);
            let ghost all = entries@;
            let ghost n = all.len();
            let mut reversed: Vec<(String, JsonValue)> = Vec::new();
            while entries.len() > 0
                invariant
                    depth > 0,
                    entries@ == all.subrange(0, entries@.len() as int),
                    n == all.len(),
                    v0 == v,
                    json_layer(v0) is Fields && json_map_entries(json_layer(v0)->Fields_0) == all,
                    entries@.len() + reversed@.len() == n,
                    forall|i: int|
                        entries@.len() <= i < n ==> json_fits((#[trigger] all[i]).1, (depth - 1) as nat)
                            && reversed@[n - 1 - i].0 == all[i].0
                            && json_converts(reversed@[n - 1 - i].1, all[i].1, (depth - 1) as nat)
                            && nested_within(reversed@[n - 1 - i].1, (depth - 1) as nat),
                decreases entries.len(),
            {
                let ghost before = entries@;
                let popped = entries.pop();
                proof {
                    assert(popped == Some(before[before.len() - 1]));
                    assert(before == all.subrange(0, before.len() as int));
                    assert(before[before.len() - 1] == all.subrange(0, before.len() as int)[before.len() - 1]);
                    assert(all.subrange(0, before.len() as int)[before.len() - 1] == all[before.len() - 1]);
                    assert(entries@.len() == before.len() - 1);
                    assert(before[before.len() - 1] == all[entries@.len() as int]);
                }
                let ghost idx = entries@.len() as int;
                let (k, x) = popped.unwrap();
                let t = match tree(x, depth - 1) {
                    Some(t) => t,
                    None => {
                        proof {
                            assert(!json_fits(all[idx].1, (depth - 1) as nat));
                        }
                        return None;
                    },
                };
                reversed.push((k, t));
                proof {
                    assert(reversed@[n - 1 - idx] == (k, t));
                    assert(all[idx] == (k, x));
                }
            }
            let mut out: Vec<(String, JsonValue)> = Vec::new();
            while reversed.len() > 0
                invariant
                    n == all.len(),
                    out@.len() + reversed@.len() == n,
                    forall|i: int|
                        0 <= i < n ==> json_fits((#[trigger] all[i]).1, (depth - 1) as nat),
                    forall|i: int|
                        out@.len() <= i < n ==> reversed@[n - 1 - i].0 == (#[trigger] all[i]).0 && json_converts(
                            reversed@[n - 1 - i].1,
                            all[i].1,
                            (depth - 1) as nat,
                        ) && nested_within(reversed@[n - 1 - i].1, (depth - 1) as nat),
                    forall|i: int|
                        0 <= i < out@.len() ==> out@[i].0 == (#[trigger] all[i]).0 && json_converts(
                            out@[i].1,
                            all[i].1,
                            (depth - 1) as nat,
                        ) && nested_within(out@[i].1, (depth - 1) as nat),
                decreases reversed.len(),
            {
                proof {
                    assert(reversed@[reversed@.len() - 1].0 == all[out@.len() as int].0);
                }
                out.push(reversed.pop().unwrap());
            }
            let r = JsonValue::Fields(out);
            assert(nested_within(r, depth as nat)) by {
                assert forall|i: int| 0 <= i < out@.len() implies nested_within(
                    #[trigger] out@[i].1,
                    (depth - 1) as nat,
                ) by {
                    assert(out@[i].0 == all[i].0);
                }
            }
            Some(r)
        },
    }
}

/// The result of parsing `text`: the tree of the value `serde_json` makes of
/// it, the parser's message, or the message of a value nested too deeply.
pub open spec fn parsed_json(text: Seq<char>, r: Result<JsonValue, String>) -> bool {
    match json_from_text(text) {
        Err(m) => r matches Err(x) && x@ == m,
        Ok(v) => if json_fits(v, JSON_DEPTH as nat) {
            r matches Ok(t) && json_converts(t, v, JSON_DEPTH as nat) && nested_within(t, JSON_DEPTH as nat)
        } else {
            r matches Err(x) && x@ == "recursion limit exceeded"@
        },
    }
}

/// Parses JSON text into a tree, or gives the parser's message.
pub(crate) fn parse_json(text: &str) -> (r: Result<JsonValue, String>)
    ensures
        parsed_json(text@, r),
{
    let v = parse_value(text)?;
    match tree(v, JSON_DEPTH) {
        Some(t) => Ok(t),
        None => Err("recursion limit exceeded".to_owned()),
    }
}

} // verus!
