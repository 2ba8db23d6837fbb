//! Running JavaScript rule packages: each check or evaluation gets a fresh
//! QuickJS runtime with memory, stack and time budgets, sees only its package's
//! modules and the host API module, and hands back JSON that is decoded and
//! validated here.

use vstd::prelude::*;
use vstd::string::*;
use std::time::{Duration, Instant};
use rquickjs::{CatchResultExt, Context, Ctx, Function, Module, Promise, Runtime};
use rquickjs::Error as QuickJsError;
use rquickjs::loader::ImportAttributes;
use rquickjs::module::{Declared, Evaluated};
use std::collections::{btree_map, BTreeMap};
use crate::config::Package;
use crate::error::{Error, ErrorView, fault};
use crate::imports::{import_target, resolve_import, ImportError};
use crate::json::{
    drafts_spec, draft_view, decode_drafts, encode_evaluation, json_converts, json_fits, json_from_text, parse_json,
    DraftView, JsonValue, JSON_DEPTH,
};
use crate::model::{Draft, Evaluation};
use crate::planner::{drafts_error, validate_drafts, ScriptEvaluator};
use crate::text::same_text;

verus! {

#[verifier::external_type_specification]
#[verifier::external_body]
pub struct ExInstant(Instant);

#[verifier::external_type_specification]
#[verifier::external_body]
pub struct ExRuntime(Runtime);

#[verifier::external_type_specification]
#[verifier::external_body]
pub struct ExContext(Context);

#[verifier::external_type_specification]
#[verifier::external_body]
pub struct ExCtx<'js>(Ctx<'js>);

#[verifier::external_type_specification]
#[verifier::external_body]
#[verifier::reject_recursive_types(T)]
pub struct ExModule<'js, T>(Module<'js, T>);

#[verifier::external_type_specification]
#[verifier::external_body]
pub struct ExDeclared(Declared);

#[verifier::external_type_specification]
#[verifier::external_body]
pub struct ExEvaluated(Evaluated);

#[verifier::external_type_specification]
#[verifier::external_body]
pub struct ExPromise<'js>(Promise<'js>);

#[verifier::external_type_specification]
#[verifier::external_body]
pub struct ExFunction<'js>(Function<'js>);

#[verifier::external_type_specification]
#[verifier::external_body]
pub struct ExImportAttributes<'js>(ImportAttributes<'js>);

#[verifier::external_type_specification]
#[verifier::external_body]
pub struct ExQuickJsError(QuickJsError);

/// The text of the host API module `@app/api`: constructors of action objects.
pub const API_SOURCE: &'static str = "const fileRef = (file) => {
  if (typeof file !== 'string') throw new TypeError('a file reference must be a string');
  return file;
};
const options = (value) => (value === undefined ? {} : value);
export const actions = Object.freeze({
  copy: (file, o) => ({ copy: { ...options(o), file: fileRef(file) } }),
  move: (file, o) => ({ move: { ...options(o), file: fileRef(file) } }),
  rename: (file, o) => ({ rename: { ...options(o), file: fileRef(file) } }),
  exec: (o) => ({ exec: { ...options(o) } }),
  pathOf: (file) => ({ pathOf: fileRef(file) }),
});
export const apiVersion = 1;
";

/// The host API module `@app/api`.
fn api_source() -> (r: &'static str)
    ensures
        r == API_SOURCE,
{
    API_SOURCE
}

/// The text of the runner module: it imports the package entry and, for an
/// evaluation, calls the rule with a deeply frozen context and returns its
/// actions as JSON.
pub const RUNNER_SOURCE: &'static str = "import * as rule from 'filet:entry';
const freeze = (value) => {
  if (value !== null && typeof value === 'object' && !Object.isFrozen(value)) {
    Object.freeze(value);
    for (const key of Object.keys(value)) freeze(value[key]);
  }
  return value;
};
export async function evaluate(input) {
  const ctx = freeze(JSON.parse(input));
  if ('apiVersion' in rule && rule.apiVersion !== 1) throw new Error('unsupported apiVersion; expected 1');
  const hasRun = 'run' in rule;
  const hasPair = 'match' in rule || 'actions' in rule;
  if (hasRun === hasPair) throw new Error('export either run, or match and actions');
  let result;
  if (hasRun) {
    if (typeof rule.run !== 'function') throw new TypeError('run must be a function');
    result = await rule.run(ctx);
    if (result === undefined || result === null) result = [];
  } else {
    if (typeof rule.match !== 'function' || typeof rule.actions !== 'function') {
      throw new TypeError('match and actions must both be functions');
    }
    const matched = await rule.match(ctx);
    if (typeof matched !== 'boolean') throw new TypeError('match must return a boolean');
    result = matched ? await rule.actions(ctx) : [];
  }
  if (!Array.isArray(result)) throw new TypeError('a rule must give an array of actions');
  return JSON.stringify(result);
}
";

/// The runner module.
fn runner_source() -> (r: &'static str)
    ensures
        r == RUNNER_SOURCE,
{
    RUNNER_SOURCE
}

/// The current instant (`Instant::now`). Nothing is stated: it is the clock.
#[verifier::external_body]
fn clock_now() -> (r: Instant) {
    Instant::now()
}

/// The time since `t` (`Instant::elapsed`). Nothing is stated: it is the clock.
#[verifier::external_body]
fn elapsed_since(t: &Instant) -> (r: Duration) {
    t.elapsed()
}

/// The whole nanoseconds of a duration (`Duration::as_nanos`). Nothing is
/// stated: a duration is opaque here.
#[verifier::external_body]
fn nanos(d: &Duration) -> (r: u128) {
    d.as_nanos()
}

/// A duration of whole seconds (`Duration::from_secs`). Nothing is stated:
/// a duration is opaque here.
#[verifier::external_body]
fn whole_seconds(s: u64) -> (r: Duration) {
    Duration::from_secs(s)
}

/// Whether at least `limit` has passed since `started`.
fn deadline_passed(started: &Instant, limit: &Duration) -> (r: bool) {
    nanos(&elapsed_since(started)) >= nanos(limit)
}

/// A new QuickJS runtime (`Runtime::new`), or the error's text.
#[verifier::external_body]
fn runtime_new() -> (r: Result<Runtime, String>) {
    Runtime::new().map_err(|e| e.to_string())
}

/// Caps the runtime's heap (`Runtime::set_memory_limit`).
#[verifier::external_body]
fn cap_memory(rt: &Runtime, bytes: usize) {
    rt.set_memory_limit(bytes)
}

/// Caps the runtime's stack (`Runtime::set_max_stack_size`).
#[verifier::external_body]
fn cap_stack(rt: &Runtime, bytes: usize) {
    rt.set_max_stack_size(bytes)
}

/// Makes the runtime interrupt running code once `limit` has passed since
/// `started` (`Runtime::set_interrupt_handler`, with a handler that calls
/// `deadline_passed`).
#[verifier::external_body]
fn interrupt_after(rt: &Runtime, started: Instant, limit: Duration) {
    rt.set_interrupt_handler(Some(Box::new(move || deadline_passed(&started, &limit))))
}

/// Installs the package's module resolver and loader (`Runtime::set_loader`).
#[verifier::external_body]
fn install_loader(rt: &Runtime, resolver: PackageResolver, loader: PackageLoader) {
    rt.set_loader(resolver, loader)
}

/// A context with the standard intrinsics (`Context::full`), or the error's text.
#[verifier::external_body]
fn full_context(rt: &Runtime) -> (r: Result<Context, String>) {
    Context::full(rt).map_err(|e| e.to_string())
}

/// The failures a session of the engine ends in.
pub open spec fn engine_failure(e: ErrorView) -> bool {
    e.code == "JS_TIMEOUT"@ || e.code == "JS_ERROR"@
}

/// Runs `session` inside the context (`Context::with`, which calls the
/// closure once and returns its value). Claimed: the result is one that
/// `session` can return, as its contract states it.
#[verifier::external_body]
fn with_context(cx: &Context, input: Option<String>, started: Instant, limit: Duration) -> (r: Result<
    String,
    Error,
>)
    ensures
        r matches Err(e) ==> engine_failure(e@),
        input is None ==> (r matches Ok(t) ==> t@ == "[]"@),
{
    cx.with(|ctx| session(ctx, input, &started, &limit))
}

/// Declares a module from its source (`Module::declare`). Nothing is stated:
/// whether the source compiles is the engine's to say.
#[verifier::external_body]
fn declare_module<'js>(ctx: &Ctx<'js>, name: &str, source: &str) -> (r: Result<Module<'js, Declared>, QuickJsError>) {
    Module::declare(ctx.clone(), name, source)
}

/// Evaluates a declared module (`Module::eval`), giving the evaluated module
/// and the promise of its completion.
#[verifier::external_body]
fn evaluate_module<'js>(m: Module<'js, Declared>) -> (r: Result<(Module<'js, Evaluated>, Promise<'js>), QuickJsError>) {
    m.eval()
}

/// The outcome of a promise if it has settled (`Promise::result`): its value
/// as text, `None` inside for `undefined` or `null`.
#[verifier::external_body]
fn settled<'js>(p: &Promise<'js>) -> (r: Option<Result<Option<String>, QuickJsError>>) {
    p.result::<Option<String>>()
}

/// Runs one pending job (`Ctx::execute_pending_job`); false where none was pending.
#[verifier::external_body]
fn run_job<'js>(ctx: &Ctx<'js>) -> (r: bool) {
    ctx.execute_pending_job()
}

/// The error of a promise that cannot settle (`Error::WouldBlock`).
#[verifier::external_body]
fn would_block() -> (r: QuickJsError) {
    QuickJsError::WouldBlock
}

/// A function exported by an evaluated module (`Module::get`).
#[verifier::external_body]
fn export_function<'js>(m: &Module<'js, Evaluated>, name: &str) -> (r: Result<Function<'js>, QuickJsError>) {
    m.get(name)
}

/// Calls a function with one string argument (`Function::call`), expecting a promise.
#[verifier::external_body]
fn call_with_text<'js>(f: &Function<'js>, arg: String) -> (r: Result<Promise<'js>, QuickJsError>) {
    f.call((arg,))
}

/// The text of an error, with a thrown JavaScript exception taken from the
/// context (`CatchResultExt::catch`, then the caught error's `Display`).
#[verifier::external_body]
fn caught_message<'js>(ctx: &Ctx<'js>, e: QuickJsError) -> (r: String) {
    match Err::<(), QuickJsError>(e).catch(ctx) {
        Ok(()) => String::new(),
        Err(caught) => caught.to_string(),
    }
}

/// A refused import with a message (`Error::new_resolving_message`).
#[verifier::external_body]
fn resolving_refused(base: &str, name: &str, message: &str) -> (r: QuickJsError) {
    QuickJsError::new_resolving_message(base, name, message)
}

/// A refused import (`Error::new_resolving`).
#[verifier::external_body]
fn resolving_failed(base: &str, name: &str) -> (r: QuickJsError) {
    QuickJsError::new_resolving(base, name)
}

/// A module that cannot be loaded (`Error::new_loading`).
#[verifier::external_body]
fn loading_failed(name: &str) -> (r: QuickJsError) {
    QuickJsError::new_loading(name)
}

/// Resolves the module specifiers of one rule package.
pub struct PackageResolver {
    pub entry: String,
}

impl rquickjs::loader::Resolver for PackageResolver {
    fn resolve<'js>(
        &mut self,
        _ctx: &Ctx<'js>,
        base: &str,
        name: &str,
        attributes: Option<ImportAttributes<'js>>,
    ) -> (r: rquickjs::Result<String>)
        ensures
            r matches Ok(t) ==> import_target(old(self).entry@, base@, name@, attributes is Some) == Ok::<
                Seq<char>,
                ImportError,
            >(t@),
            r is Err ==> import_target(old(self).entry@, base@, name@, attributes is Some) is Err,
    {
        match resolve_import(self.entry.as_str(), base, name, attributes.is_some()) {
            Ok(t) => Ok(t),
            Err(e) => match e.message() {
                Some(m) => Err(resolving_refused(base, name, m)),
                None => Err(resolving_failed(base, name)),
            },
        }
    }
}

/// The source of the first module named `name`.
pub open spec fn module_source(modules: Seq<(String, String)>, name: Seq<char>) -> Option<Seq<char>>
    decreases modules.len(),
{
    if modules.len() == 0 {
        None
    } else if modules[0].0@ == name {
        Some(modules[0].1@)
    } else {
        module_source(modules.drop_first(), name)
    }
}

/// The index of the first module named `name`.
fn find_module(modules: &Vec<(String, String)>, name: &str) -> (r: Option<usize>)
    ensures
        match r {
            Some(i) => i < modules.len() && module_source(modules@, name@) == Some(modules@[i as int].1@),
            None => module_source(modules@, name@) is None,
        },
{
    let mut i: usize = 0;
    assert(modules@.skip(0) =~= modules@);
    while i < modules.len()
        invariant
            i <= modules.len(),
            module_source(modules@, name@) == module_source(modules@.skip(i as int), name@),
        decreases modules.len() - i,
    {
        assert(modules@.skip(i as int).drop_first() =~= modules@.skip(i + 1));
        if same_text(modules[i].0.as_str(), name) {
            return Some(i);
        }
        i = i + 1;
    }
    None
}

/// The entries of a map of texts in key order, as `BTreeMap::iter` yields them.
pub uninterp spec fn btree_entries(m: BTreeMap<String, String>) -> Seq<(Seq<char>, Seq<char>)>;

/// The entries a map iterator has yet to yield, in order.
pub uninterp spec fn iter_remaining(it: btree_map::Iter<'_, String, String>) -> Seq<(Seq<char>, Seq<char>)>;

/// An iterator over the entries of a map (`BTreeMap::iter`). Claimed: it
/// yields the map's entries in key order.
#[verifier::external_body]
fn entries_iter<'a>(m: &'a BTreeMap<String, String>) -> (r: btree_map::Iter<'a, String, String>)
    ensures
        iter_remaining(r) == btree_entries(*m),
{
    m.iter()
}

/// The next entry of a map iterator (`btree_map::Iter::next`). Claimed: it
/// is the first entry not yet yielded, or `None` where none is left.
#[verifier::external_body]
fn next_entry<'a>(it: &mut btree_map::Iter<'a, String, String>) -> (r: Option<(&'a String, &'a String)>)
    ensures
        match r {
            Some((k, v)) => iter_remaining(*old(it)) == seq![(k@, v@)] + iter_remaining(*final(it)),
            None => iter_remaining(*old(it)).len() == 0 && iter_remaining(*final(it)).len() == 0,
        },
{
    it.next()
}

/// A module's name and source as texts.
pub open spec fn module_view(m: (String, String)) -> (Seq<char>, Seq<char>) {
    (m.0@, m.1@)
}

/// The modules of a package as a list of names and sources, in key order.
fn module_list(modules: &BTreeMap<String, String>) -> (r: Vec<(String, String)>)
    ensures
        r@.map_values(|m: (String, String)| module_view(m)) == btree_entries(*modules),
{
    let mut out: Vec<(String, String)> = Vec::new();
    let mut it = entries_iter(modules);
    loop
        invariant
            out@.map_values(|m: (String, String)| module_view(m)) + iter_remaining(it) == btree_entries(*modules),
        ensures
            out@.map_values(|m: (String, String)| module_view(m)) == btree_entries(*modules),
        decreases iter_remaining(it).len(),
    {
        let ghost rest = iter_remaining(it);
        match next_entry(&mut it) {
            Some((k, v)) => {
                let ghost before = out@;
                out.push((k.clone(), v.clone()));
                proof {
                    assert(out@.map_values(|m: (String, String)| module_view(m)) =~= before.map_values(
                        |m: (String, String)| module_view(m),
                    ).push((k@, v@)));
                    assert(before.map_values(|m: (String, String)| module_view(m)) + rest =~= out@.map_values(
                        |m: (String, String)| module_view(m),
                    ) + iter_remaining(it));
                }
            },
            None => {
                proof {
                    assert(rest =~= Seq::<(Seq<char>, Seq<char>)>::empty());
                    assert(out@.map_values(|m: (String, String)| module_view(m)) + rest =~= out@.map_values(
                        |m: (String, String)| module_view(m),
                    ));
                }
                break;
            },
        }
    }
    out
}

/// Loads the modules of one rule package, and the host API module.
pub struct PackageLoader {
    pub modules: Vec<(String, String)>,
}

impl rquickjs::loader::Loader for PackageLoader {
    fn load<'js>(
        &mut self,
        ctx: &Ctx<'js>,
        name: &str,
        _attributes: Option<ImportAttributes<'js>>,
    ) -> (r: rquickjs::Result<Module<'js, Declared>>)
        ensures
            final(self).modules@ == old(self).modules@,
            name@ != "@app/api"@ && module_source(old(self).modules@, name@) is None ==> r is Err,
    {
        if same_text(name, "@app/api") {
            return declare_module(ctx, name, api_source());
        }
        match find_module(&self.modules, name) {
            Some(i) => declare_module(ctx, name, self.modules[i].1.as_str()),
            None => Err(loading_failed(name)),
        }
    }
}

/// Waits for a promise, running pending jobs, until it settles, no job is
/// left or the deadline passes.
fn settle<'js>(ctx: &Ctx<'js>, p: &Promise<'js>, started: &Instant, limit: &Duration) -> (r: Result<
    Option<String>,
    QuickJsError,
>) {
    let mut polls: u64 = 0;
    while polls < u64::MAX
        decreases u64::MAX - polls,
    {
        if deadline_passed(started, limit) {
            return Err(would_block());
        }
        match settled(p) {
            Some(r) => {
                return r;
            },
            None => {},
        }
        if !run_job(ctx) {
            return Err(would_block());
        }
        polls = polls + 1;
    }
    Err(would_block())
}

/// Evaluates the runner module (loading the package) and, for an
/// evaluation, calls its `evaluate` with the context as JSON text.
fn run_runner<'js>(ctx: &Ctx<'js>, input: Option<String>, started: &Instant, limit: &Duration) -> (r: Result<
    Option<String>,
    QuickJsError,
>)
    ensures
        input is None ==> (r matches Ok(o) ==> o is None),
{
    let declared = declare_module(ctx, "filet:runner", runner_source())?;
    let (module, promise) = evaluate_module(declared)?;
    settle(ctx, &promise, started, limit)?;
    match input {
        Some(text) => {
            let f = export_function(&module, "evaluate")?;
            let p = call_with_text(&f, text)?;
            settle(ctx, &p, started, limit)
        },
        None => Ok(None),
    }
}

/// The error of a failed script: `JS_TIMEOUT` once the deadline has passed,
/// else `JS_ERROR`, with the engine's message.
pub fn script_failure(late: bool, message: String) -> (e: Error)
    ensures
        e@ == fault(if late { "JS_TIMEOUT"@ } else { "JS_ERROR"@ }, message@),
{
    if late {
        Error::with_message("JS_TIMEOUT", message)
    } else {
        Error::with_message("JS_ERROR", message)
    }
}

/// One run of the runner in a context: the rule's actions as JSON text (`[]`
/// for a check), or the failure.
fn session<'js>(ctx: Ctx<'js>, input: Option<String>, started: &Instant, limit: &Duration) -> (r: Result<
    String,
    Error,
>)
    ensures
        r matches Err(e) ==> engine_failure(e@),
        input is None ==> (r matches Ok(t) ==> t@ == "[]"@),
{
    let checking = input.is_none();
    match run_runner(&ctx, input, started, limit) {
        Ok(Some(json)) => Ok(json),
        Ok(None) => {
            if checking {
                let t = "[]".to_owned();
                Ok(t)
            } else {
                Err(Error::new("JS_ERROR", "the rule runner gave no result"))
            }
        },
        Err(e) => {
            let message = caught_message(&ctx, e);
            let late = deadline_passed(started, limit);
            Err(script_failure(late, message))
        },
    }
}

/// The most bytes of JSON a script may return.
pub const RESULT_LIMIT: usize = 1048576;

/// What decoding and validating the tree `t` gives: the drafts of a tree
/// that decodes to a valid list, the decoding error, or the first validation
/// error.
pub open spec fn tree_outcome(t: JsonValue, r: Result<Vec<Draft>, Error>) -> bool {
    match r {
        Ok(v) => drafts_spec(t) == Ok::<Seq<DraftView>, Seq<char>>(v@.map_values(|d: Draft| draft_view(d)))
            && drafts_error(v@) is None,
        Err(e) => (drafts_spec(t) matches Err(m) && e@ == fault("INVALID_ACTION"@, m)) || exists|v: Seq<Draft>|
            drafts_spec(t) == Ok::<Seq<DraftView>, Seq<char>>(v.map_values(|d: Draft| draft_view(d)))
                && drafts_error(v) == Some(e@),
    }
}

/// Decodes a script's result tree and validates the actions.
pub fn drafts_from_tree(t: &JsonValue) -> (r: Result<Vec<Draft>, Error>)
    ensures
        tree_outcome(*t, r),
{
    let drafts = decode_drafts(t)?;
    let checked = validate_drafts(drafts.as_slice());
    match checked {
        Ok(()) => Ok(drafts),
        Err(e) => Err(e),
    }
}

/// The errors a script's result is refused with: too large, not JSON or not
/// actions, or actions that fail validation.
pub open spec fn rejected_output(e: ErrorView) -> bool {
    e == fault("JS_OUTPUT_LIMIT"@, "script result exceeds 1 MiB"@) || e.code == "INVALID_ACTION"@ || exists|
        v: Seq<Draft>,
    | drafts_error(v) == Some(e)
}

/// Decodes and validates the JSON text a script returned: at most 1 MiB of
/// it, parsed, then decoded into actions.
pub fn drafts_from_output(json: &str) -> (r: Result<Vec<Draft>, Error>)
    ensures
        json.len() > RESULT_LIMIT ==> (r matches Err(e) && e@ == fault(
            "JS_OUTPUT_LIMIT"@,
            "script result exceeds 1 MiB"@,
        )),
        r matches Ok(v) ==> json.len() <= RESULT_LIMIT && drafts_error(v@) is None && exists|
            t: JsonValue,
        | drafts_spec(t) == Ok::<Seq<DraftView>, Seq<char>>(v@.map_values(|d: Draft| draft_view(d))),
        r matches Err(e) ==> rejected_output(e@),
        json.len() <= RESULT_LIMIT ==> match json_from_text(json@) {
            Err(m) => r matches Err(e) && e@ == fault("INVALID_ACTION"@, m),
            Ok(v) => if json_fits(v, JSON_DEPTH as nat) {
                exists|t: JsonValue| json_converts(t, v, JSON_DEPTH as nat) && tree_outcome(t, r)
            } else {
                r matches Err(e) && e@ == fault("INVALID_ACTION"@, "recursion limit exceeded"@)
            },
        },
{
    if json.len() > RESULT_LIMIT {
        return Err(Error::new("JS_OUTPUT_LIMIT", "script result exceeds 1 MiB"));
    }
    let t = match parse_json(json) {
        Ok(t) => t,
        Err(m) => {
            return Err(Error::with_message("INVALID_ACTION", m));
        },
    };
    let r = drafts_from_tree(&t);
    proof {
        if r is Ok {
            assert(drafts_spec(t) == Ok::<Seq<DraftView>, Seq<char>>(
                r->Ok_0@.map_values(|d: Draft| draft_view(d)),
            ));
        }
    }
    r
}

/// Runs rule packages in QuickJS, a fresh runtime per check or evaluation.
#[derive(Clone, Copy)]
pub struct JsEvaluator {
    pub timeout: Duration,
    pub memory_bytes: usize,
    pub stack_bytes: usize,
}

impl Default for JsEvaluator {
    /// Two seconds, 32 MiB of heap and 512 KiB of stack.
    fn default() -> (r: JsEvaluator)
        ensures
            r.memory_bytes == 32 * 1024 * 1024,
            r.stack_bytes == 512 * 1024,
    {
        JsEvaluator { timeout: whole_seconds(2), memory_bytes: 32 * 1024 * 1024, stack_bytes: 512 * 1024 }
    }
}

impl JsEvaluator {
    /// Loads the package in a fresh runtime and, given an input, runs its
    /// rule; the actions come back validated.
    fn execute(&self, package: &Package, input: Option<&Evaluation>) -> (r: Result<Vec<Draft>, Error>)
        ensures
            r matches Ok(v) ==> drafts_error(v@) is None,
            input is None ==> (r matches Ok(v) ==> v.len() == 0),
            input is Some ==> (r matches Ok(v) ==> exists|t: JsonValue|
                drafts_spec(t) == Ok::<Seq<DraftView>, Seq<char>>(v@.map_values(|d: Draft| draft_view(d)))),
            r matches Err(e) ==> e@.code == "JS_RUNTIME"@ || engine_failure(e@) || (input is Some && rejected_output(
                e@,
            )),
    {
        let started = clock_now();
        let rt = match runtime_new() {
            Ok(rt) => rt,
            Err(m) => {
                return Err(Error::with_message("JS_RUNTIME", m));
            },
        };
        cap_memory(&rt, self.memory_bytes);
        cap_stack(&rt, self.stack_bytes);
        interrupt_after(&rt, started, self.timeout);
        install_loader(
            &rt,
            PackageResolver { entry: package.entry.clone() },
            PackageLoader { modules: module_list(&package.modules) },
        );
        let cx = match full_context(&rt) {
            Ok(cx) => cx,
            Err(m) => {
                return Err(Error::with_message("JS_RUNTIME", m));
            },
        };
        let text = match input {
            Some(ev) => Some(encode_evaluation(ev)),
            None => None,
        };
        let json = with_context(&cx, text, started, self.timeout)?;
        match input {
            Some(_) => drafts_from_output(json.as_str()),
            None => Ok(Vec::new()),
        }
    }
}

impl ScriptEvaluator for JsEvaluator {
    /// Loads the package in a fresh runtime (running its modules' top-level
    /// code) without calling its rule.
    fn check(&self, package: &Package) -> (r: Result<(), Error>)
        ensures
            r matches Err(e) ==> e@.code == "JS_RUNTIME"@ || engine_failure(e@),
    {
        match self.execute(package, None) {
            Ok(_) => Ok(()),
            Err(e) => Err(e),
        }
    }

    /// The actions a package's rule returns for `input`, decoded from the
    /// JSON the rule gave and validated.
    fn evaluate(&self, package: &Package, input: &Evaluation) -> (r: Result<Vec<Draft>, Error>)
        ensures
            r matches Ok(v) ==> drafts_error(v@) is None && exists|t: JsonValue|
                drafts_spec(t) == Ok::<Seq<DraftView>, Seq<char>>(v@.map_values(|d: Draft| draft_view(d))),
            r matches Err(e) ==> e@.code == "JS_RUNTIME"@ || engine_failure(e@) || rejected_output(e@),
    {
        self.execute(package, Some(input))
    }
}

} // verus!
