use vstd::prelude::*;
use std::collections::BTreeMap;
use vstd::string::*;
use vstd::utf8::is_ascii_chars;
use crate::bindings::{glob_check, glob_error};
use crate::error::{Error, ErrorView, fault, with_rule};
use crate::model::Draft;
use crate::planner::{drafts_error, validate_drafts};
use crate::paths::{FsPath, is_prefix_of, split_name, stem_and_extension};
use crate::text::{ascii_lower, chars, has_char, parse_u64, parse_u64_spec, same_text, to_ascii_lowercase};

verus! {

/// A configuration file (schema version 1).
#[derive(Debug)]
pub struct Config {
    pub schema_version: u32,
    /// Sources by ID, in ascending ID order.
    pub sources: Vec<(String, Source)>,
    pub rules: Vec<Rule>,
}

/// A watched directory.
#[derive(Debug, Clone)]
pub struct Source {
    pub path: String,
    pub recursive: bool,
    pub ignore: Vec<String>,
    pub ready: Ready,
    pub reconcile_every: String,
}

/// Readiness timing of a source.
#[derive(Debug, Clone)]
pub struct Ready {
    pub stable_for: String,
    pub retry_for: String,
}

/// What starts a rule.
#[derive(Debug, Clone)]
pub struct Trigger {
    pub kind: String,
    pub source: String,
    pub every: Option<String>,
}

/// A JavaScript rule package entry.
#[derive(Debug, Clone)]
pub struct Script {
    pub file: String,
    pub api_version: u32,
}

/// A rule: a trigger and either a condition with actions or a script.
#[derive(Debug)]
pub struct Rule {
    pub id: String,
    pub on: Trigger,
    pub when: Option<Condition>,
    pub actions: Option<Vec<Draft>>,
    pub script: Option<Script>,
}

/// A file condition; the fields present on one condition are combined with AND.
#[derive(Debug)]
pub struct Condition {
    pub extension: Option<String>,
    pub name_glob: Option<String>,
    pub min_size_bytes: Option<u64>,
    pub max_size_bytes: Option<u64>,
    pub modified_older_than: Option<String>,
    pub created_older_than: Option<String>,
    pub all: Option<Vec<Condition>>,
    pub any: Option<Vec<Condition>>,
    pub not: Option<Box<Condition>>,
}

/// The snapshot of a rule package: its entry module and all its module sources.
#[derive(Debug, Clone)]
pub struct Package {
    pub entry: String,
    /// Module sources by package-relative name.
    pub modules: BTreeMap<String, String>,
}

/// A validated configuration with its resolved source roots and rule packages.
#[derive(Debug)]
pub struct Loaded {
    pub config: Config,
    pub path: FsPath,
    pub base: FsPath,
    pub revision: String,
    /// Source roots by source ID, in ascending ID order.
    pub roots: Vec<(String, FsPath)>,
    /// Rule packages by rule ID, in ascending ID order.
    pub packages: Vec<(String, Package)>,
}

/// Whether text `a` comes before text `b` in the order of `String`'s `Ord`:
/// by code points, a proper prefix first.
pub open spec fn text_before(a: Seq<char>, b: Seq<char>) -> bool
    decreases a.len(),
{
    if a.len() == 0 {
        b.len() > 0
    } else if b.len() == 0 {
        false
    } else if a[0] != b[0] {
        (a[0] as int) < (b[0] as int)
    } else {
        text_before(a.drop_first(), b.drop_first())
    }
}

proof fn lemma_text_order(a: Seq<char>, b: Seq<char>)
    ensures
        !text_before(a, a),
        a != b ==> (text_before(a, b) || text_before(b, a)),
        !(text_before(a, b) && text_before(b, a)),
    decreases a.len(),
{
    if a.len() > 0 && b.len() > 0 {
        lemma_text_order(a.drop_first(), b.drop_first());
        if a[0] == b[0] && a.drop_first() == b.drop_first() {
            assert(a =~= seq![a[0]] + a.drop_first());
            assert(b =~= seq![b[0]] + b.drop_first());
        }
    }
    if a.len() > 0 {
        lemma_text_order(a.drop_first(), a.drop_first());
    }
    if a.len() == 0 && b.len() == 0 {
        assert(a =~= b);
    }
}

proof fn lemma_text_transitive(a: Seq<char>, b: Seq<char>, c: Seq<char>)
    requires
        text_before(a, b),
        text_before(b, c),
    ensures
        text_before(a, c),
    decreases a.len(),
{
    if a.len() > 0 && b.len() > 0 && c.len() > 0 {
        if a[0] == b[0] && b[0] == c[0] {
            lemma_text_transitive(a.drop_first(), b.drop_first(), c.drop_first());
        }
    }
}

/// Whether the IDs of `entries` are strictly ascending, so also distinct.
pub open spec fn ids_ascending<T>(entries: Seq<(String, T)>) -> bool {
    forall|i: int, j: int| 0 <= i < j < entries.len() ==> text_before(entries[i].0@, entries[j].0@)
}

/// Whether text `a` comes before text `b` (`String`'s order).
pub fn text_precedes(a: &str, b: &str) -> (r: bool)
    ensures
        r == text_before(a@, b@),
{
    let x = chars(a);
    let y = chars(b);
    let mut i: usize = 0;
    proof {
        assert(x@.skip(0) =~= x@);
        assert(y@.skip(0) =~= y@);
    }
    while i < x.len() && i < y.len() && x[i] == y[i]
        invariant
            i <= x.len(),
            i <= y.len(),
            text_before(a@, b@) == text_before(x@.skip(i as int), y@.skip(i as int)),
        decreases x.len() - i,
    {
        proof {
            assert(x@.skip(i as int).drop_first() =~= x@.skip(i + 1));
            assert(y@.skip(i as int).drop_first() =~= y@.skip(i + 1));
        }
        i = i + 1;
    }
    if i == x.len() {
        i < y.len()
    } else if i == y.len() {
        false
    } else {
        proof {
            assert(x@.skip(i as int)[0] == x@[i as int]);
            assert(y@.skip(i as int)[0] == y@[i as int]);
        }
        x[i] < y[i]
    }
}

/// Inserts a rule's package at its place among packages kept in ascending
/// rule ID order.
pub fn insert_package(packages: &mut Vec<(String, Package)>, id: String, package: Package)
    requires
        ids_ascending(old(packages)@),
        forall|k: int| 0 <= k < old(packages)@.len() ==> (#[trigger] old(packages)@[k]).0@ != id@,
    ensures
        ids_ascending(final(packages)@),
        exists|p: int| 0 <= p <= old(packages)@.len() && final(packages)@ == old(packages)@.insert(p, (id, package)),
{
    let mut p: usize = 0;
    while p < packages.len() && text_precedes(packages[p].0.as_str(), id.as_str())
        invariant
            p <= packages.len(),
            forall|k: int| 0 <= k < p ==> text_before((#[trigger] packages@[k]).0@, id@),
        decreases packages.len() - p,
    {
        p = p + 1;
    }
    let ghost before = packages@;
    proof {
        if p < packages.len() {
            lemma_text_order(packages@[p as int].0@, id@);
            assert forall|k: int| p <= k < before.len() implies text_before(id@, (#[trigger] before[k]).0@) by {
                lemma_text_order(before[k].0@, id@);
                if k > p {
                    assert(text_before(before[p as int].0@, before[k].0@));
                    if text_before(before[k].0@, id@) {
                        lemma_text_transitive(before[p as int].0@, before[k].0@, id@);
                        lemma_text_order(before[p as int].0@, id@);
                    }
                }
            }
        }
    }
    packages.insert(p, (id, package));
    proof {
        let after = packages@;
        assert(after == before.insert(p as int, after[p as int]));
        assert forall|i: int, j: int| 0 <= i < j < after.len() implies text_before(after[i].0@, after[j].0@) by {
            if j < p {
            } else if j == p {
            } else if i < p {
                lemma_text_transitive(after[i].0@, after[p as int].0@, after[j].0@);
            } else if i == p {
            } else {
            }
        }
    }
}

/// Whether IDs are strictly ascending, checked pair by adjacent pair.
pub fn ascending_ids<T>(entries: &Vec<(String, T)>) -> (r: bool)
    ensures
        r == ids_ascending(entries@),
{
    let mut i: usize = 1;
    while i < entries.len()
        invariant
            1 <= i,
            forall|a: int, b: int| 0 <= a < b < i && b < entries@.len() ==> text_before(entries@[a].0@, entries@[b].0@),
        decreases entries.len() - i,
    {
        if !text_precedes(entries[i - 1].0.as_str(), entries[i].0.as_str()) {
            return false;
        }
        proof {
            assert forall|a: int, b: int| 0 <= a < b < i + 1 && b < entries@.len() implies text_before(
                entries@[a].0@,
                entries@[b].0@,
            ) by {
                if b == i && a < i - 1 {
                    lemma_text_transitive(entries@[a].0@, entries@[i - 1].0@, entries@[b].0@);
                }
            }
        }
        i = i + 1;
    }
    true
}

/// Whether a rule of ID `id` with a script exists.
pub open spec fn has_script_rule(rules: Seq<Rule>, id: Seq<char>) -> bool {
    exists|r: int| 0 <= r < rules.len() && #[trigger] rules[r].id@ == id && rules[r].script is Some
}

/// A loaded configuration is well formed: source IDs strictly ascending, a
/// root for each source in the same order, the roots not overlapping the
/// configuration file, and packages in strictly ascending rule ID order, each
/// for a rule with a script.
pub open spec fn loaded_wf(l: Loaded) -> bool {
    &&& header_error(l.config) is None
    &&& l.path@.len() > 0 && l.base@ == l.path@.drop_last()
    &&& ids_ascending(l.config.sources@)
    &&& l.roots@.len() == l.config.sources@.len()
    &&& forall|i: int| 0 <= i < l.roots@.len() ==> (#[trigger] l.roots@[i]).0@ == l.config.sources@[i].0@
    &&& forall|i: int|
        0 <= i < l.roots@.len() ==> source_error(
            l.config.sources@[i].0@,
            l.config.sources@[i].1,
            Ok::<FsPath, Error>((#[trigger] l.roots@[i]).1),
        ) is None
    &&& roots_error(l.path@, l.roots@) is None
    &&& rule_ids_distinct(l.config.rules@)
    &&& ids_ascending(l.packages@)
    &&& forall|k: int| 0 <= k < l.packages@.len() ==> has_script_rule(l.config.rules@, (#[trigger] l.packages@[k]).0@)
    &&& forall|r: int|
        0 <= r < l.config.rules@.len() && (#[trigger] l.config.rules@[r]).script is Some ==> packaged(
            l.packages@,
            l.config.rules@[r].id@,
        )
}

/// Whether every rule has a nonempty ID that no other rule has.
pub open spec fn rule_ids_distinct(rules: Seq<Rule>) -> bool {
    &&& forall|i: int| 0 <= i < rules.len() ==> (#[trigger] rules[i]).id@.len() > 0
    &&& forall|i: int, j: int| 0 <= i < j < rules.len() ==> (#[trigger] rules[i]).id@ != (#[trigger] rules[j]).id@
}

/// Whether a package of rule ID `id` is among `packages`.
pub open spec fn packaged(packages: Seq<(String, Package)>, id: Seq<char>) -> bool {
    exists|k: int| 0 <= k < packages.len() && #[trigger] packages[k].0@ == id
}

fn rule_ids_ok(rules: &Vec<Rule>) -> (r: bool)
    ensures
        r == rule_ids_distinct(rules@),
{
    let mut i: usize = 0;
    while i < rules.len()
        invariant
            i <= rules.len(),
            forall|a: int| 0 <= a < i ==> (#[trigger] rules@[a]).id@.len() > 0,
            forall|a: int, b: int| 0 <= a < b < i ==> (#[trigger] rules@[a]).id@ != (#[trigger] rules@[b]).id@,
        decreases rules.len() - i,
    {
        if rules[i].id.unicode_len() == 0 {
            return false;
        }
        let mut j: usize = 0;
        while j < i
            invariant
                j <= i < rules.len(),
                forall|a: int| 0 <= a < j ==> (#[trigger] rules@[a]).id@ != rules@[i as int].id@,
            decreases i - j,
        {
            if same_text(rules[j].id.as_str(), rules[i].id.as_str()) {
                return false;
            }
            j = j + 1;
        }
        i = i + 1;
    }
    true
}

fn package_exists(packages: &Vec<(String, Package)>, id: &str) -> (r: bool)
    ensures
        r == packaged(packages@, id@),
{
    let mut i: usize = 0;
    while i < packages.len()
        invariant
            i <= packages.len(),
            forall|k: int| 0 <= k < i ==> (#[trigger] packages@[k]).0@ != id@,
        decreases packages.len() - i,
    {
        if same_text(packages[i].0.as_str(), id) {
            return true;
        }
        i = i + 1;
    }
    false
}

fn script_rule_exists(rules: &Vec<Rule>, id: &str) -> (r: bool)
    ensures
        r == has_script_rule(rules@, id@),
{
    let mut i: usize = 0;
    while i < rules.len()
        invariant
            i <= rules.len(),
            forall|k: int| 0 <= k < i ==> !(#[trigger] rules@[k].id@ == id@ && rules@[k].script is Some),
        decreases rules.len() - i,
    {
        if rules[i].script.is_some() && same_text(rules[i].id.as_str(), id) {
            return true;
        }
        i = i + 1;
    }
    false
}

/// Assembles a loaded configuration from its validated parts, refusing
/// parts that do not make a well-formed configuration: the header's error,
/// a source's error, or `CONFIG_INVALID`.
pub fn assemble(
    config: Config,
    path: FsPath,
    base: FsPath,
    revision: String,
    roots: Vec<(String, FsPath)>,
    packages: Vec<(String, Package)>,
) -> (r: Result<Loaded, Error>)
    ensures
        match r {
            Ok(l) => loaded_wf(l) && l.config == config && l.path == path && l.base == base && l.revision
                == revision && l.roots == roots && l.packages == packages,
            Err(e) => !loaded_wf(Loaded { config, path, base, revision, roots, packages }),
        },
{
    match validate_header(&config) {
        Err(e) => {
            return Err(e);
        },
        Ok(()) => {},
    }
    let base_ok = match path.parent() {
        Some(p) => p.same(&base),
        None => false,
    };
    if !base_ok {
        return Err(Error::new("CONFIG_INVALID", "the base must be the configuration's directory"));
    }
    if !ascending_ids(&config.sources) {
        return Err(Error::new("CONFIG_INVALID", "source IDs must be unique and ordered"));
    }
    if roots.len() != config.sources.len() {
        return Err(Error::new("CONFIG_INVALID", "every source needs one root"));
    }
    let mut i: usize = 0;
    while i < roots.len()
        invariant
            i <= roots.len(),
            roots.len() == config.sources.len(),
            forall|k: int| 0 <= k < i ==> (#[trigger] roots@[k]).0@ == config.sources@[k].0@,
            forall|k: int|
                0 <= k < i ==> source_error(
                    config.sources@[k].0@,
                    config.sources@[k].1,
                    Ok::<FsPath, Error>((#[trigger] roots@[k]).1),
                ) is None,
        decreases roots.len() - i,
    {
        if !same_text(roots[i].0.as_str(), config.sources[i].0.as_str()) {
            return Err(Error::new("CONFIG_INVALID", "every source needs one root"));
        }
        let root: Result<FsPath, Error> = Ok(roots[i].1.duplicate());
        match validate_source(config.sources[i].0.as_str(), &config.sources[i].1, &root) {
            Err(e) => {
                assert(source_error(config.sources@[i as int].0@, config.sources@[i as int].1, Ok::<FsPath, Error>(roots@[i as int].1)) is Some);
                return Err(e);
            },
            Ok(()) => {
                assert(source_error(config.sources@[i as int].0@, config.sources@[i as int].1, Ok::<FsPath, Error>(roots@[i as int].1)) is None);
            },
        }
        i = i + 1;
    }
    if check_roots(&path, &roots).is_err() {
        return Err(Error::new("CONFIG_INVALID", "source roots overlap the configuration"));
    }
    if !rule_ids_ok(&config.rules) {
        return Err(Error::new("CONFIG_INVALID", "rule IDs must be nonempty and unique"));
    }
    if !ascending_ids(&packages) {
        return Err(Error::new("CONFIG_INVALID", "rule IDs must be unique and ordered"));
    }
    let mut k: usize = 0;
    while k < packages.len()
        invariant
            k <= packages.len(),
            forall|j: int| 0 <= j < k ==> has_script_rule(config.rules@, (#[trigger] packages@[j]).0@),
        decreases packages.len() - k,
    {
        if !script_rule_exists(&config.rules, packages[k].0.as_str()) {
            return Err(Error::new("CONFIG_INVALID", "a rule package has no script rule"));
        }
        k = k + 1;
    }
    let mut r: usize = 0;
    while r < config.rules.len()
        invariant
            r <= config.rules.len(),
            forall|j: int|
                0 <= j < r && (#[trigger] config.rules@[j]).script is Some ==> packaged(packages@, config.rules@[j].id@),
        decreases config.rules.len() - r,
    {
        if config.rules[r].script.is_some() && !package_exists(&packages, config.rules[r].id.as_str()) {
            return Err(Error::new("CONFIG_INVALID", "a script rule has no package"));
        }
        r = r + 1;
    }
    Ok(Loaded { config, path, base, revision, roots, packages })
}

/// The most bytes a configuration file may have.
pub const CONFIG_LIMIT: u64 = 1_048_576;

/// Refuses a configuration file larger than 1 MiB.
pub fn check_config_size(len: u64) -> (r: Result<(), Error>)
    ensures
        r is Ok <==> len <= CONFIG_LIMIT,
        r matches Err(e) ==> e@ == fault("CONFIG_INVALID"@, "configuration exceeds 1 MiB"@),
{
    if len > CONFIG_LIMIT {
        return Err(Error::new("CONFIG_INVALID", "configuration exceeds 1 MiB"));
    }
    Ok(())
}

/// The default ignore patterns of a source.
pub fn ignore() -> (v: Vec<String>)
    ensures
        v@.map_values(|s: String| s@) == seq![
            "**/*.crdownload"@,
            "**/*.part"@,
            "**/*.tmp"@,
            "**/.filet-*"@,
        ],
{
    let mut v: Vec<String> = Vec::new();
    v.push("**/*.crdownload".to_owned());
    v.push("**/*.part".to_owned());
    v.push("**/*.tmp".to_owned());
    v.push("**/.filet-*".to_owned());
    assert(v@.map_values(|s: String| s@) =~= seq![
        "**/*.crdownload"@,
        "**/*.part"@,
        "**/*.tmp"@,
        "**/.filet-*"@,
    ]);
    v
}

/// The default reconciliation interval.
pub fn reconcile() -> (s: String)
    ensures
        s@ == "10m"@,
{
    "10m".to_owned()
}

/// The default time a file must stay unchanged to be ready.
pub fn stable() -> (s: String)
    ensures
        s@ == "3s"@,
{
    "3s".to_owned()
}

/// The default time after which an unstable file is given up on.
pub fn retry() -> (s: String)
    ensures
        s@ == "10m"@,
{
    "10m".to_owned()
}

impl Default for Ready {
    fn default() -> (r: Ready)
        ensures
            r.stable_for@ == "3s"@,
            r.retry_for@ == "10m"@,
    {
        Ready { stable_for: stable(), retry_for: retry() }
    }
}

/// The unit suffix of a duration and the milliseconds it stands for, with
/// the text before it.
pub open spec fn duration_unit(s: Seq<char>) -> Option<(Seq<char>, nat)> {
    let n = s.len();
    if n >= 2 && s[n - 2] == 'm' && s[n - 1] == 's' {
        Some((s.subrange(0, n - 2), 1))
    } else if n >= 1 && s[n - 1] == 's' {
        Some((s.drop_last(), 1000))
    } else if n >= 1 && s[n - 1] == 'm' {
        Some((s.drop_last(), 60_000))
    } else if n >= 1 && s[n - 1] == 'h' {
        Some((s.drop_last(), 3_600_000))
    } else if n >= 1 && s[n - 1] == 'd' {
        Some((s.drop_last(), 86_400_000))
    } else {
        None
    }
}

/// A duration such as `3s`, `250ms`, `10m`, `1h` or `2d`, in milliseconds:
/// a positive integer followed by a unit, at most `u64::MAX` milliseconds.
pub open spec fn duration_spec(s: Seq<char>) -> Result<u64, ErrorView> {
    match duration_unit(s) {
        None => Err(fault("CONFIG_INVALID"@, "invalid duration: "@ + s)),
        Some((digits, mult)) => match parse_u64_spec(digits) {
            Some(n) if n > 0 && n * mult <= u64::MAX => Ok((n * mult) as u64),
            _ => Err(fault("CONFIG_INVALID"@, "positive integer duration required: "@ + s)),
        },
    }
}

/// Parses a duration, returning its length in milliseconds.
pub fn duration(s: &str) -> (r: Result<u64, Error>)
    ensures
        match r {
            Ok(ms) => duration_spec(s@) == Ok::<u64, ErrorView>(ms),
            Err(e) => duration_spec(s@) == Err::<u64, ErrorView>(e@),
        },
{
    let v = chars(s);
    let n = v.len();
    let (cut, mult): (usize, u64) = if n >= 2 && v[n - 2] == 'm' && v[n - 1] == 's' {
        (n - 2, 1)
    } else if n >= 1 && v[n - 1] == 's' {
        (n - 1, 1000)
    } else if n >= 1 && v[n - 1] == 'm' {
        (n - 1, 60_000)
    } else if n >= 1 && v[n - 1] == 'h' {
        (n - 1, 3_600_000)
    } else if n >= 1 && v[n - 1] == 'd' {
        (n - 1, 86_400_000)
    } else {
        return Err(Error::detailed("CONFIG_INVALID", "invalid duration: ", s));
    };
    let digits = s.substring_char(0, cut);
    proof {
        assert(s@.drop_last() =~= s@.subrange(0, n - 1));
    }
    let parsed = parse_u64(digits);
    match parsed {
        Some(k) => {
            if k > 0 && k <= u64::MAX / mult {
                assert(k * mult <= u64::MAX) by (nonlinear_arith)
                    requires
                        k <= u64::MAX / mult,
                        mult > 0,
                ;
                return Ok(k * mult);
            }
            proof {
                if k > 0 {
                    assert(k * mult > u64::MAX) by (nonlinear_arith)
                        requires
                            k > u64::MAX / mult,
                            mult > 0,
                    ;
                }
            }
        },
        None => {},
    }
    Err(Error::detailed("CONFIG_INVALID", "positive integer duration required: ", s))
}

/// Every duration is positive.
pub proof fn law_durations_are_positive(s: Seq<char>)
    requires
        duration_spec(s) is Ok,
    ensures
        duration_spec(s)->Ok_0 > 0,
{
    let (digits, mult) = duration_unit(s)->0;
    let n = parse_u64_spec(digits)->0;
    assert(n * mult >= 1) by (nonlinear_arith)
        requires
            n > 0,
            mult >= 1,
    ;
}

/// The default file reference of an action: the rule's input.
pub fn input_ref() -> (s: String)
    ensures
        s@ == "input"@,
{
    "input".to_owned()
}

/// The default timeout of an external command.
pub fn timeout() -> (s: String)
    ensures
        s@ == "30s"@,
{
    "30s".to_owned()
}

/// The error of a condition, if any: the extension must be ASCII lower case
/// without a leading dot, the glob must compile, the ages must be durations,
/// the size bounds must be ordered, and nested conditions must be valid.
pub open spec fn condition_error(c: Condition) -> Option<ErrorView>
    decreases c, 0int,
{
    if c.extension is Some && (c.extension->0@.len() > 0 && c.extension->0@[0] == '.'
        || !is_ascii_chars(c.extension->0@) || ascii_lower(c.extension->0@) != c.extension->0@) {
        Some(fault("CONFIG_INVALID"@, "extension must be ASCII lowercase without a dot"@))
    } else if c.name_glob is Some && glob_error(c.name_glob->0@) is Some {
        Some(fault("CONFIG_INVALID"@, glob_error(c.name_glob->0@)->0))
    } else if c.modified_older_than is Some && duration_spec(c.modified_older_than->0@) is Err {
        Some(duration_spec(c.modified_older_than->0@)->Err_0)
    } else if c.created_older_than is Some && duration_spec(c.created_older_than->0@) is Err {
        Some(duration_spec(c.created_older_than->0@)->Err_0)
    } else if c.min_size_bytes is Some && c.max_size_bytes is Some && c.min_size_bytes->0
        > c.max_size_bytes->0 {
        Some(fault("CONFIG_INVALID"@, "minSizeBytes exceeds maxSizeBytes"@))
    } else if c.all is Some && conditions_error(c.all->0@, 0) is Some {
        conditions_error(c.all->0@, 0)
    } else if c.any is Some && conditions_error(c.any->0@, 0) is Some {
        conditions_error(c.any->0@, 0)
    } else {
        match c.not {
            Some(n) => condition_error(*n),
            None => None,
        }
    }
}

/// The first error among the conditions `cs[i..]`.
pub open spec fn conditions_error(cs: Seq<Condition>, i: int) -> Option<ErrorView>
    decreases cs, cs.len() - i,
{
    if i < 0 || i >= cs.len() {
        None
    } else {
        match condition_error(cs[i]) {
            Some(e) => Some(e),
            None => conditions_error(cs, i + 1),
        }
    }
}

fn check_duration(d: &Option<String>) -> (r: Result<(), Error>)
    ensures
        match r {
            Ok(()) => !(d is Some && duration_spec(d->0@) is Err),
            Err(e) => d is Some && duration_spec(d->0@) == Err::<u64, ErrorView>(e@),
        },
{
    match d {
        Some(x) => {
            duration(x)?;
            Ok(())
        },
        None => Ok(()),
    }
}

/// Checks a condition and all nested conditions.
#[verifier::loop_isolation(false)]
pub fn validate_condition(c: &Condition) -> (r: Result<(), Error>)
    ensures
        match r {
            Ok(()) => condition_error(*c) is None,
            Err(e) => condition_error(*c) == Some(e@),
        },
    decreases c,
{
    if let Some(x) = &c.extension {
        let v = chars(x);
        let bad = (v.len() > 0 && v[0] == '.') || !x.is_ascii() || !same_text(
            to_ascii_lowercase(x).as_str(),
            x,
        );
        if bad {
            return Err(Error::new("CONFIG_INVALID", "extension must be ASCII lowercase without a dot"));
        }
    }
    if let Some(g) = &c.name_glob {
        match glob_check(g) {
            Err(m) => {
                return Err(Error::with_message("CONFIG_INVALID", m));
            },
            Ok(()) => {},
        }
    }
    check_duration(&c.modified_older_than)?;
    check_duration(&c.created_older_than)?;
    match (c.min_size_bytes, c.max_size_bytes) {
        (Some(a), Some(b)) => {
            if a > b {
                return Err(Error::new("CONFIG_INVALID", "minSizeBytes exceeds maxSizeBytes"));
            }
        },
        _ => {},
    }
    if let Some(all) = &c.all {
        let mut i: usize = 0;
        while i < all.len()
            invariant
                i <= all.len(),
                conditions_error(all@, 0) == conditions_error(all@, i as int),
            decreases all.len() - i,
        {
            proof {
                assert(decreases_to!(*c => c.all));
                assert(decreases_to!(c.all => c.all->0));
                assert(decreases_to!(c.all->0 => c.all->0@));
                assert(decreases_to!(c.all->0@ => c.all->0@[i as int]));
            }
            validate_condition(&all[i])?;
            i = i + 1;
        }
    }
    if let Some(any) = &c.any {
        let mut i: usize = 0;
        while i < any.len()
            invariant
                i <= any.len(),
                conditions_error(any@, 0) == conditions_error(any@, i as int),
            decreases any.len() - i,
        {
            proof {
                assert(decreases_to!(*c => c.any));
                assert(decreases_to!(c.any => c.any->0));
                assert(decreases_to!(c.any->0 => c.any->0@));
                assert(decreases_to!(c.any->0@ => c.any->0@[i as int]));
            }
            validate_condition(&any[i])?;
            i = i + 1;
        }
    }
    if let Some(n) = &c.not {
        validate_condition(n)?;
    }
    Ok(())
}

/// A parsed YAML document as the configuration check sees it: mapping keys are
/// their text where they are strings.
#[derive(Debug)]
pub enum YamlValue {
    Scalar,
    Sequence(Vec<YamlValue>),
    Mapping(Vec<(Option<String>, YamlValue)>),
    Tagged,
}

/// The error of a YAML value at nesting `depth`, if any: nesting deeper than
/// 24, tags, keys that are not strings, and merge keys are refused.
pub open spec fn yaml_error(v: YamlValue, depth: int) -> Option<ErrorView>
    decreases v, 0int,
{
    if depth > 24 {
        Some(fault("CONFIG_INVALID"@, "YAML nesting exceeds 24"@))
    } else {
        match v {
            YamlValue::Tagged => Some(fault("CONFIG_INVALID"@, "YAML tags are unsupported"@)),
            YamlValue::Mapping(m) => entries_error(m@, 0, depth),
            YamlValue::Sequence(s) => items_error(s@, 0, depth),
            YamlValue::Scalar => None,
        }
    }
}

/// The first error among the mapping entries `m[i..]` at nesting `depth`.
pub open spec fn entries_error(m: Seq<(Option<String>, YamlValue)>, i: int, depth: int) -> Option<ErrorView>
    decreases m, m.len() - i,
{
    if i < 0 || i >= m.len() {
        None
    } else {
        match m[i].0 {
            None => Some(fault("CONFIG_INVALID"@, "mapping keys must be strings"@)),
            Some(k) => if k@ == "<<"@ {
                Some(fault("CONFIG_INVALID"@, "YAML merge keys are unsupported"@))
            } else {
                match yaml_error(m[i].1, depth + 1) {
                    Some(e) => Some(e),
                    None => entries_error(m, i + 1, depth),
                }
            },
        }
    }
}

/// The first error among the sequence items `s[i..]` at nesting `depth`.
pub open spec fn items_error(s: Seq<YamlValue>, i: int, depth: int) -> Option<ErrorView>
    decreases s, s.len() - i,
{
    if i < 0 || i >= s.len() {
        None
    } else {
        match yaml_error(s[i], depth + 1) {
            Some(e) => Some(e),
            None => items_error(s, i + 1, depth),
        }
    }
}

/// Checks a YAML document for the features the configuration refuses.
pub fn check_yaml(value: &YamlValue, depth: usize) -> (r: Result<(), Error>)
    ensures
        match r {
            Ok(()) => yaml_error(*value, depth as int) is None,
            Err(e) => yaml_error(*value, depth as int) == Some(e@),
        },
    decreases value,
{
    if depth > 24 {
        return Err(Error::new("CONFIG_INVALID", "YAML nesting exceeds 24"));
    }
    match value {
        YamlValue::Tagged => Err(Error::new("CONFIG_INVALID", "YAML tags are unsupported")),
        YamlValue::Mapping(m) => {
            let mut i: usize = 0;
            while i < m.len()
                invariant
                    depth <= 24,
                    *value == YamlValue::Mapping(*m),
                    i <= m.len(),
                    entries_error(m@, 0, depth as int) == entries_error(m@, i as int, depth as int),
                decreases m.len() - i,
            {
                let (k, v) = &m[i];
                match k {
                    None => {
                        return Err(Error::new("CONFIG_INVALID", "mapping keys must be strings"));
                    },
                    Some(k) => {
                        if same_text(k, "<<") {
                            return Err(Error::new("CONFIG_INVALID", "YAML merge keys are unsupported"));
                        }
                    },
                }
                proof {
                    assert(decreases_to!(*value => *m));
                    assert(decreases_to!(*m => m@));
                    assert(decreases_to!(m@ => m@[i as int]));
                    assert(decreases_to!(m@[i as int] => m@[i as int].1));
                }
                check_yaml(v, depth + 1)?;
                i = i + 1;
            }
            Ok(())
        },
        YamlValue::Sequence(s) => {
            let mut i: usize = 0;
            while i < s.len()
                invariant
                    depth <= 24,
                    *value == YamlValue::Sequence(*s),
                    i <= s.len(),
                    items_error(s@, 0, depth as int) == items_error(s@, i as int, depth as int),
                decreases s.len() - i,
            {
                proof {
                    assert(decreases_to!(*value => *s));
                    assert(decreases_to!(*s => s@));
                    assert(decreases_to!(s@ => s@[i as int]));
                }
                check_yaml(&s[i], depth + 1)?;
                i = i + 1;
            }
            Ok(())
        },
        YamlValue::Scalar => Ok(()),
    }
}

/// The error of a configuration's header, if any.
pub open spec fn header_error(c: Config) -> Option<ErrorView> {
    if c.schema_version != 1 {
        Some(fault("UNSUPPORTED_VERSION"@, "schemaVersion must be 1"@))
    } else if c.sources.len() == 0 || c.rules.len() > 256 {
        Some(fault("CONFIG_INVALID"@, "require sources and at most 256 rules"@))
    } else {
        None
    }
}

/// Checks the schema version and the number of sources and rules.
pub fn validate_header(c: &Config) -> (r: Result<(), Error>)
    ensures
        match r {
            Ok(()) => header_error(*c) is None,
            Err(e) => header_error(*c) == Some(e@),
        },
{
    if c.schema_version != 1 {
        return Err(Error::new("UNSUPPORTED_VERSION", "schemaVersion must be 1"));
    }
    if c.sources.len() == 0 || c.rules.len() > 256 {
        return Err(Error::new("CONFIG_INVALID", "require sources and at most 256 rules"));
    }
    Ok(())
}

/// The first pattern among `gs[i..]` that does not compile, as an error.
pub open spec fn globs_error(gs: Seq<String>, i: int) -> Option<ErrorView>
    decreases gs.len() - i,
{
    if i < 0 || i >= gs.len() {
        None
    } else {
        match glob_error(gs[i]@) {
            Some(m) => Some(fault("CONFIG_INVALID"@, m)),
            None => globs_error(gs, i + 1),
        }
    }
}

/// The error of a source, if any, given where its path resolved to: a
/// nonempty ID, a root other than the filesystem root, valid durations with
/// `retryFor` at least `stableFor`, and compiling ignore patterns.
pub open spec fn source_error(id: Seq<char>, s: Source, root: Result<FsPath, Error>) -> Option<ErrorView> {
    if id.len() == 0 {
        Some(fault("CONFIG_INVALID"@, "empty source ID"@))
    } else {
        match root {
            Err(e) => Some(e@),
            Ok(r) => if r@.len() == 0 {
                Some(fault("CONFIG_INVALID"@, "filesystem roots are not valid sources"@))
            } else if duration_spec(s.ready.stable_for@) is Err {
                Some(duration_spec(s.ready.stable_for@)->Err_0)
            } else if duration_spec(s.ready.retry_for@) is Err {
                Some(duration_spec(s.ready.retry_for@)->Err_0)
            } else if duration_spec(s.reconcile_every@) is Err {
                Some(duration_spec(s.reconcile_every@)->Err_0)
            } else if duration_spec(s.ready.retry_for@)->Ok_0 < duration_spec(s.ready.stable_for@)->Ok_0 {
                Some(fault("CONFIG_INVALID"@, "retryFor must be at least stableFor"@))
            } else {
                globs_error(s.ignore@, 0)
            },
        }
    }
}

/// Checks one source given the path its `path` resolved to.
#[verifier::loop_isolation(false)]
pub fn validate_source(id: &str, s: &Source, root: &Result<FsPath, Error>) -> (r: Result<(), Error>)
    ensures
        match r {
            Ok(()) => source_error(id@, *s, *root) is None,
            Err(e) => source_error(id@, *s, *root) == Some(e@),
        },
{
    if id.unicode_len() == 0 {
        return Err(Error::new("CONFIG_INVALID", "empty source ID"));
    }
    let r = match root {
        Err(e) => {
            return Err(e.clone_error());
        },
        Ok(r) => r,
    };
    if r.depth() == 0 {
        return Err(Error::new("CONFIG_INVALID", "filesystem roots are not valid sources"));
    }
    let stable = duration(&s.ready.stable_for)?;
    let retry = duration(&s.ready.retry_for)?;
    duration(&s.reconcile_every)?;
    if retry < stable {
        return Err(Error::new("CONFIG_INVALID", "retryFor must be at least stableFor"));
    }
    let mut i: usize = 0;
    while i < s.ignore.len()
        invariant
            i <= s.ignore.len(),
            globs_error(s.ignore@, 0) == globs_error(s.ignore@, i as int),
        decreases s.ignore.len() - i,
    {
        match glob_check(&s.ignore[i]) {
            Err(m) => {
                return Err(Error::with_message("CONFIG_INVALID", m));
            },
            Ok(()) => {},
        }
        i = i + 1;
    }
    Ok(())
}

/// The error of the resolved source roots of a configuration at
/// `config_path`, if any: the configuration must lie outside every source and
/// no source may lie inside another.
pub open spec fn roots_error(config_path: Seq<Seq<char>>, roots: Seq<(String, FsPath)>) -> Option<ErrorView> {
    if exists|i: int| 0 <= i < roots.len() && is_prefix_of(#[trigger] roots[i].1@, config_path) {
        Some(fault("CONFIG_INVALID"@, "configuration must be outside watched sources"@))
    } else if exists|i: int, j: int|
        0 <= i < j < roots.len() && (is_prefix_of(#[trigger] roots[i].1@, #[trigger] roots[j].1@)
            || is_prefix_of(roots[j].1@, roots[i].1@)) {
        Some(fault("CONFIG_INVALID"@, "source directories must not overlap"@))
    } else {
        None
    }
}

/// Checks that the configuration lies outside all sources and that sources
/// do not overlap.
pub fn check_roots(config_path: &FsPath, roots: &Vec<(String, FsPath)>) -> (r: Result<(), Error>)
    ensures
        match r {
            Ok(()) => roots_error(config_path@, roots@) is None,
            Err(e) => roots_error(config_path@, roots@) == Some(e@),
        },
{
    let mut i: usize = 0;
    while i < roots.len()
        invariant
            i <= roots.len(),
            forall|k: int| 0 <= k < i ==> !is_prefix_of(#[trigger] roots@[k].1@, config_path@),
        decreases roots.len() - i,
    {
        if config_path.starts_with(&roots[i].1) {
            return Err(Error::new("CONFIG_INVALID", "configuration must be outside watched sources"));
        }
        i = i + 1;
    }
    let mut i: usize = 0;
    while i < roots.len()
        invariant
            i <= roots.len(),
            !(exists|k: int| 0 <= k < roots.len() && is_prefix_of(#[trigger] roots@[k].1@, config_path@)),
            forall|a: int, b: int|
                0 <= a < i && a < b < roots.len() ==> !(is_prefix_of(#[trigger] roots@[a].1@,
                    #[trigger] roots@[b].1@) || is_prefix_of(roots@[b].1@, roots@[a].1@)),
        decreases roots.len() - i,
    {
        let mut j: usize = i + 1;
        while j < roots.len()
            invariant
                i < roots.len(),
                i + 1 <= j <= roots.len(),
                !(exists|k: int| 0 <= k < roots.len() && is_prefix_of(#[trigger] roots@[k].1@, config_path@)),
                forall|a: int, b: int|
                    0 <= a < i && a < b < roots.len() ==> !(is_prefix_of(#[trigger] roots@[a].1@,
                        #[trigger] roots@[b].1@) || is_prefix_of(roots@[b].1@, roots@[a].1@)),
                forall|b: int|
                    i < b < j ==> !(is_prefix_of(roots@[i as int].1@, #[trigger] roots@[b].1@)
                        || is_prefix_of(roots@[b].1@, roots@[i as int].1@)),
            decreases roots.len() - j,
        {
            if roots[i].1.starts_with(&roots[j].1) || roots[j].1.starts_with(&roots[i].1) {
                return Err(Error::new("CONFIG_INVALID", "source directories must not overlap"));
            }
            j = j + 1;
        }
        i = i + 1;
    }
    Ok(())
}

impl Loaded {
    /// Checks that a data directory lies outside every watched source.
    pub fn check_layout(&self, data: &FsPath) -> (r: Result<(), Error>)
        ensures
            match r {
                Ok(()) => forall|i: int| 0 <= i < self.roots.len() ==> !is_prefix_of(#[trigger] self.roots@[i].1@, data@),
                Err(e) => e@ == fault("CONFIG_INVALID"@, "data directory must be outside watched sources"@)
                    && exists|i: int| 0 <= i < self.roots.len() && is_prefix_of(#[trigger] self.roots@[i].1@, data@),
            },
    {
        let mut i: usize = 0;
        while i < self.roots.len()
            invariant
                i <= self.roots.len(),
                forall|k: int| 0 <= k < i ==> !is_prefix_of(#[trigger] self.roots@[k].1@, data@),
            decreases self.roots.len() - i,
        {
            if data.starts_with(&self.roots[i].1) {
                return Err(Error::new("CONFIG_INVALID", "data directory must be outside watched sources"));
            }
            i = i + 1;
        }
        Ok(())
    }
}

/// Whether `names` holds `id`.
pub fn has_name(names: &Vec<String>, id: &str) -> (r: bool)
    ensures
        r == exists|i: int| 0 <= i < names.len() && #[trigger] names@[i]@ == id@,
{
    let mut i: usize = 0;
    while i < names.len()
        invariant
            i <= names.len(),
            forall|k: int| 0 <= k < i ==> #[trigger] names@[k]@ != id@,
        decreases names.len() - i,
    {
        if same_text(names[i].as_str(), id) {
            return true;
        }
        i = i + 1;
    }
    false
}

/// Whether `roots` has an entry with ID `id`.
pub fn has_root(roots: &Vec<(String, FsPath)>, id: &str) -> (r: bool)
    ensures
        r == exists|i: int| 0 <= i < roots.len() && #[trigger] roots@[i].0@ == id@,
{
    let mut i: usize = 0;
    while i < roots.len()
        invariant
            i <= roots.len(),
            forall|k: int| 0 <= k < i ==> #[trigger] roots@[k].0@ != id@,
        decreases roots.len() - i,
    {
        if same_text(roots[i].0.as_str(), id) {
            return true;
        }
        i = i + 1;
    }
    false
}

/// The error of a rule's ID, source and trigger, if any, given the IDs of the
/// rules before it.
pub open spec fn trigger_error(r: Rule, seen: Seq<String>, roots: Seq<(String, FsPath)>) -> Option<ErrorView> {
    if r.id@.len() == 0 || exists|i: int| 0 <= i < seen.len() && #[trigger] seen[i]@ == r.id@ {
        Some(fault("CONFIG_INVALID"@, "rule IDs must be nonempty and unique"@))
    } else if !exists|i: int| 0 <= i < roots.len() && #[trigger] roots[i].0@ == r.on.source@ {
        Some(with_rule(fault("CONFIG_INVALID"@, "unknown source"@), r.id@))
    } else if r.on.kind@ == "file.ready"@ && r.on.every is None {
        None
    } else if r.on.kind@ == "scan"@ && r.on.every is Some {
        match duration_spec(r.on.every->0@) {
            Err(e) => Some(e),
            Ok(_) => None,
        }
    } else {
        Some(with_rule(fault("CONFIG_INVALID"@, "file.ready has no every; scan requires every"@), r.id@))
    }
}

/// Whether the file name of `entry` has the extension `js` or `mjs`.
pub open spec fn is_script_file(entry: Seq<Seq<char>>) -> bool {
    entry.len() > 0 && match stem_and_extension(entry.last()).1 {
        Some(x) => x == "js"@ || x == "mjs"@,
        None => false,
    }
}

/// What checking a rule gives, given the IDs of the rules before it, the
/// source roots and, for a script rule, where its entry resolved to: an error,
/// the package directory of a script rule, or nothing for a rule with actions.
pub open spec fn rule_outcome(
    r: Rule,
    seen: Seq<String>,
    roots: Seq<(String, FsPath)>,
    entry: Option<Result<FsPath, Error>>,
) -> Result<Option<Seq<Seq<char>>>, ErrorView> {
    if trigger_error(r, seen, roots) is Some {
        Err(trigger_error(r, seen, roots)->0)
    } else if r.script is Some && r.actions is None && r.when is None {
        if r.script->0.api_version != 1 {
            Err(with_rule(fault("UNSUPPORTED_VERSION"@, "apiVersion must be 1"@), r.id@))
        } else {
            match entry {
                Some(Err(e)) => Err(e@),
                Some(Ok(p)) => if !is_script_file(p@) {
                    Err(fault("CONFIG_INVALID"@, "scripts must use .js or .mjs"@))
                } else if exists|i: int| 0 <= i < roots.len() && is_prefix_of(#[trigger] roots[i].1@, p@.drop_last()) {
                    Err(fault("CONFIG_INVALID"@, "script packages must be outside sources"@))
                } else {
                    Ok(Some(p@.drop_last()))
                },
                None => Err(fault("CONFIG_INVALID"@, "scripts must use .js or .mjs"@)),
            }
        }
    } else if r.script is None && r.actions is Some {
        if r.actions->0.len() > 64 {
            Err(fault("ACTION_LIMIT"@, "at most 64 actions per rule"@))
        } else if r.when is Some && condition_error(r.when->0) is Some {
            Err(condition_error(r.when->0)->0)
        } else if drafts_error(r.actions->0@) is Some {
            Err(drafts_error(r.actions->0@)->0)
        } else {
            Ok(None)
        }
    } else {
        Err(with_rule(fault("CONFIG_INVALID"@, "use either script or when/actions"@), r.id@))
    }
}

/// Checks one rule. `seen` holds the IDs of the rules before it; `entry` is
/// where a script rule's entry file resolved to. Returns the package
/// directory of a script rule.
#[verifier::loop_isolation(false)]
pub fn validate_rule(
    r: &Rule,
    seen: &Vec<String>,
    roots: &Vec<(String, FsPath)>,
    entry: Option<Result<FsPath, Error>>,
) -> (res: Result<Option<FsPath>, Error>)
    ensures
        match res {
            Ok(Some(p)) => rule_outcome(*r, seen@, roots@, entry) == Ok::<Option<Seq<Seq<char>>>, ErrorView>(Some(p@)),
            Ok(None) => rule_outcome(*r, seen@, roots@, entry) == Ok::<Option<Seq<Seq<char>>>, ErrorView>(None),
            Err(e) => rule_outcome(*r, seen@, roots@, entry) == Err::<Option<Seq<Seq<char>>>, ErrorView>(e@),
        },
{
    if r.id.as_str().unicode_len() == 0 || has_name(seen, r.id.as_str()) {
        return Err(Error::new("CONFIG_INVALID", "rule IDs must be nonempty and unique"));
    }
    if !has_root(roots, r.on.source.as_str()) {
        return Err(Error::new("CONFIG_INVALID", "unknown source").rule(r.id.as_str()));
    }
    let ready = same_text(r.on.kind.as_str(), "file.ready");
    let scan = same_text(r.on.kind.as_str(), "scan");
    if ready && r.on.every.is_none() {
    } else if scan && r.on.every.is_some() {
        match &r.on.every {
            Some(e) => {
                duration(e)?;
            },
            None => {},
        }
    } else {
        return Err(Error::new("CONFIG_INVALID", "file.ready has no every; scan requires every").rule(r.id.as_str()));
    }
    match (&r.script, &r.actions) {
        (Some(script), None) if r.when.is_none() => {
            if script.api_version != 1 {
                return Err(Error::new("UNSUPPORTED_VERSION", "apiVersion must be 1").rule(r.id.as_str()));
            }
            let p = match entry {
                Some(Err(e)) => {
                    return Err(e);
                },
                Some(Ok(p)) => p,
                None => {
                    return Err(Error::new("CONFIG_INVALID", "scripts must use .js or .mjs"));
                },
            };
            let ok_ext = match p.file_name() {
                Some(name) => {
                    let (_, ext) = split_name(name.as_str());
                    match ext {
                        Some(x) => same_text(x.as_str(), "js") || same_text(x.as_str(), "mjs"),
                        None => false,
                    }
                },
                None => false,
            };
            if !ok_ext {
                return Err(Error::new("CONFIG_INVALID", "scripts must use .js or .mjs"));
            }
            let dir = match p.parent() {
                Some(d) => d,
                None => {
                    return Err(Error::new("CONFIG_INVALID", "scripts must use .js or .mjs"));
                },
            };
            let mut i: usize = 0;
            while i < roots.len()
                invariant
                    i <= roots.len(),
                    forall|k: int| 0 <= k < i ==> !is_prefix_of(#[trigger] roots@[k].1@, dir@),
                decreases roots.len() - i,
            {
                if dir.starts_with(&roots[i].1) {
                    return Err(Error::new("CONFIG_INVALID", "script packages must be outside sources"));
                }
                i = i + 1;
            }
            Ok(Some(dir))
        },
        (None, Some(actions)) => {
            if actions.len() > 64 {
                return Err(Error::new("ACTION_LIMIT", "at most 64 actions per rule"));
            }
            if let Some(c) = &r.when {
                validate_condition(c)?;
            }
            validate_drafts(actions.as_slice())?;
            Ok(None)
        },
        _ => Err(Error::new("CONFIG_INVALID", "use either script or when/actions").rule(r.id.as_str())),
    }
}

/// The most bytes one package module may have.
pub const MODULE_LIMIT: u64 = 1_048_576;

/// The most bytes all modules of a package may have together.
pub const PACKAGE_LIMIT: u64 = 4_194_304;

/// The most modules a package may have.
pub const MODULE_COUNT_LIMIT: usize = 128;

/// Admits one more module of `len` bytes into a package that already has
/// `count` modules of `bytes` bytes in total, giving the new total.
pub fn admit_module(count: usize, bytes: u64, len: u64) -> (r: Result<u64, Error>)
    ensures
        match r {
            Ok(total) => len <= MODULE_LIMIT && bytes + len <= PACKAGE_LIMIT && count < MODULE_COUNT_LIMIT
                && total == bytes + len,
            Err(e) => !(len <= MODULE_LIMIT && bytes + len <= PACKAGE_LIMIT && count < MODULE_COUNT_LIMIT)
                && e@ == fault("SCRIPT_LIMIT"@, "rule package exceeds source budget"@),
        },
{
    if len > MODULE_LIMIT || bytes > PACKAGE_LIMIT - len || count >= MODULE_COUNT_LIMIT {
        return Err(Error::new("SCRIPT_LIMIT", "rule package exceeds source budget"));
    }
    Ok(bytes + len)
}

} // verus!

verus! {

#[verifier::external_type_specification]
#[verifier::external_body]
pub struct ExYamlValue(yaml_serde::Value);

#[verifier::external_type_specification]
#[verifier::external_body]
pub struct ExYamlMapping(yaml_serde::Mapping);

/// The outermost layer of a parsed YAML value.
pub enum YamlNode {
    Text(String),
    Scalar,
    Sequence(Vec<yaml_serde::Value>),
    Mapping(yaml_serde::Mapping),
    Tagged,
}

/// What `yaml_serde::from_str` makes of `text`: a `yaml_serde::Value`, or
/// the parser's message. A function of the text alone.
pub uninterp spec fn yaml_from_text(text: Seq<char>) -> Result<yaml_serde::Value, Seq<char>>;

/// The outermost layer of a `yaml_serde::Value`: which variant it is, with
/// strings, sequences and mappings moved out.
pub uninterp spec fn yaml_layer(v: yaml_serde::Value) -> YamlNode;

/// The entries of a `yaml_serde::Mapping` in document order.
pub uninterp spec fn yaml_mapping_entries(m: yaml_serde::Mapping) -> Seq<(yaml_serde::Value, yaml_serde::Value)>;

/// Parses YAML text with `yaml_serde::from_str` into a `yaml_serde::Value`,
/// or gives the parser's message. Claimed: the result is the named
/// `yaml_from_text` of the text.
#[verifier::external_body]
fn parse_yaml_value(text: &str) -> (r: Result<yaml_serde::Value, String>)
    ensures
        match r {
            Ok(v) => yaml_from_text(text@) == Ok::<yaml_serde::Value, Seq<char>>(v),
            Err(m) => yaml_from_text(text@) == Err::<yaml_serde::Value, Seq<char>>(m@),
        },
{
    yaml_serde::from_str(text).map_err(|e| e.to_string())
}

/// Tells the variants of a `yaml_serde::Value` apart, moving out their
/// contents: strings keep their text; null, booleans and numbers are
/// scalars. Claimed: the result is the named `yaml_layer` of the value.
#[verifier::external_body]
fn yaml_node(v: yaml_serde::Value) -> (r: YamlNode)
    ensures
        r == yaml_layer(v),
{
    match v {
        yaml_serde::Value::String(s) => YamlNode::Text(s),
        yaml_serde::Value::Null => YamlNode::Scalar,
        yaml_serde::Value::Bool(_) => YamlNode::Scalar,
        yaml_serde::Value::Number(_) => YamlNode::Scalar,
        yaml_serde::Value::Sequence(s) => YamlNode::Sequence(s),
        yaml_serde::Value::Mapping(m) => YamlNode::Mapping(m),
        yaml_serde::Value::Tagged(_) => YamlNode::Tagged,
    }
}

/// The entries of a `yaml_serde::Mapping`, in document order
/// (`IntoIterator::into_iter` collected into a vector). Claimed: they are
/// the named `yaml_mapping_entries` of the mapping.
#[verifier::external_body]
fn mapping_entries(m: yaml_serde::Mapping) -> (r: Vec<(yaml_serde::Value, yaml_serde::Value)>)
    ensures
        r@ == yaml_mapping_entries(m),
{
    m.into_iter().collect()
}

/// The nesting below which a YAML document is not looked at: the check
/// refuses nesting deeper than 24 before it reaches there.
pub const YAML_DEPTH: u64 = 26;

/// Whether a tree has at most `depth` levels, with nothing but scalars
/// below them.
pub open spec fn yaml_within(v: YamlValue, depth: nat) -> bool
    decreases depth,
{
    match v {
        YamlValue::Scalar => true,
        YamlValue::Tagged => depth > 0,
        YamlValue::Sequence(items) => depth > 0 && forall|i: int|
            0 <= i < items@.len() ==> yaml_within(#[trigger] items@[i], (depth - 1) as nat),
        YamlValue::Mapping(m) => depth > 0 && forall|i: int|
            0 <= i < m@.len() ==> yaml_within(#[trigger] m@[i].1, (depth - 1) as nat),
    }
}

/// The key of a mapping entry: its text where it is a string.
pub open spec fn yaml_key(k: yaml_serde::Value) -> Option<String> {
    match yaml_layer(k) {
        YamlNode::Text(s) => Some(s),
        _ => None,
    }
}

/// Whether `t` is the tree of the parsed value `v` down to `depth` levels:
/// strings and other scalars become scalars, tags stay tags, sequences and
/// mappings keep their items and keys in order, and what lies deeper is a
/// scalar.
pub open spec fn yaml_converts(t: YamlValue, v: yaml_serde::Value, depth: nat) -> bool
    decreases depth,
{
    if depth == 0 {
        t is Scalar
    } else {
        match yaml_layer(v) {
            YamlNode::Text(_) => t is Scalar,
            YamlNode::Scalar => t is Scalar,
            YamlNode::Tagged => t is Tagged,
            YamlNode::Sequence(items) => t is Sequence && t->Sequence_0@.len() == items@.len() && forall|i: int|
                0 <= i < items@.len() ==> yaml_converts(t->Sequence_0@[i], #[trigger] items@[i], (depth - 1) as nat),
            YamlNode::Mapping(m) => t is Mapping && t->Mapping_0@.len() == yaml_mapping_entries(m).len() && forall|
                i: int,
            |
                0 <= i < yaml_mapping_entries(m).len() ==> t->Mapping_0@[i].0 == yaml_key(
                    (#[trigger] yaml_mapping_entries(m)[i]).0,
                ) && yaml_converts(t->Mapping_0@[i].1, yaml_mapping_entries(m)[i].1, (depth - 1) as nat),
        }
    }
}

/// Converts a parsed YAML value down to `depth` levels; what lies deeper is
/// taken as a scalar.
fn yaml_tree(v: yaml_serde::Value, depth: u64) -> (r: YamlValue)
    ensures
        yaml_converts(r, v, depth as nat),
        yaml_within(r, depth as nat),
    decreases depth,
{
    if depth == 0 {
        return YamlValue::Scalar;
    }
    let ghost v0 = v;
    match yaml_node(v) {
        YamlNode::Text(_) => YamlValue::Scalar,
        YamlNode::Scalar => YamlValue::Scalar,
        YamlNode::Tagged => YamlValue::Tagged,
        YamlNode::Sequence(items) => {
            let ghost all = items@;
            let ghost n = all.len();
            let mut items = items;
            let mut reversed: Vec<YamlValue> = Vec::new();
            while items.len() > 0
                invariant
                    depth > 0,
                    n == all.len(),
                    items@ == all.subrange(0, items@.len() as int),
                    items@.len() + reversed@.len() == n,
                    forall|i: int|
                        items@.len() <= i < n ==> yaml_converts(reversed@[n - 1 - i], #[trigger] all[i], (depth - 1) as nat)
                            && yaml_within(reversed@[n - 1 - i], (depth - 1) as nat),
                decreases items.len(),
            {
                let ghost before = items@;
                let popped = items.pop();
                proof {
                    assert(before == all.subrange(0, before.len() as int));
                    assert(all.subrange(0, before.len() as int)[before.len() - 1] == all[before.len() - 1]);
                }
                let x = popped.unwrap();
                reversed.push(yaml_tree(x, depth - 1));
            }
            let mut out: Vec<YamlValue> = Vec::new();
            while reversed.len() > 0
                invariant
                    n == all.len(),
                    out@.len() + reversed@.len() == n,
                    forall|i: int|
                        out@.len() <= i < n ==> yaml_converts(reversed@[n - 1 - i], #[trigger] all[i], (depth - 1) as nat)
                            && yaml_within(reversed@[n - 1 - i], (depth - 1) as nat),
                    forall|i: int|
                        0 <= i < out@.len() ==> yaml_converts(out@[i], #[trigger] all[i], (depth - 1) as nat)
                            && yaml_within(out@[i], (depth - 1) as nat),
                decreases reversed.len(),
            {
                proof {
                    assert(yaml_converts(reversed@[reversed@.len() - 1], all[out@.len() as int], (depth - 1) as nat));
                }
                out.push(reversed.pop().unwrap());
            }
            let r = YamlValue::Sequence(out);
            assert(yaml_within(r, depth as nat)) by {
                assert forall|i: int| 0 <= i < out@.len() implies yaml_within(
                    #[trigger] out@[i],
                    (depth - 1) as nat,
                ) by {
                    assert(yaml_converts(out@[i], all[i], (depth - 1) as nat));
                }
            }
            r
        },
        YamlNode::Mapping(m) => {
            let mut entries = mapping_entries(m);
            let ghost all = entries@;
            let ghost n = all.len();
            let mut reversed: Vec<(Option<String>, YamlValue)> = Vec::new();
            while entries.len() > 0
                invariant
                    depth > 0,
                    n == all.len(),
                    entries@ == all.subrange(0, entries@.len() as int),
                    entries@.len() + reversed@.len() == n,
                    forall|i: int|
                        entries@.len() <= i < n ==> reversed@[n - 1 - i].0 == yaml_key((#[trigger] all[i]).0)
                            && yaml_converts(reversed@[n - 1 - i].1, all[i].1, (depth - 1) as nat)
                            && yaml_within(reversed@[n - 1 - i].1, (depth - 1) as nat),
                decreases entries.len(),
            {
                let ghost before = entries@;
                let popped = entries.pop();
                proof {
                    assert(before == all.subrange(0, before.len() as int));
                    assert(all.subrange(0, before.len() as int)[before.len() - 1] == all[before.len() - 1]);
                }
                let ghost idx = entries@.len() as int;
                let (k, x) = popped.unwrap();
                let key = match yaml_node(k) {
                    YamlNode::Text(s) => Some(s),
                    _ => None,
                };
                reversed.push((key, yaml_tree(x, depth - 1)));
                proof {
                    assert(all[idx] == (k, x));
                }
            }
            let mut out: Vec<(Option<String>, YamlValue)> = Vec::new();
            while reversed.len() > 0
                invariant
                    n == all.len(),
                    out@.len() + reversed@.len() == n,
                    forall|i: int|
                        out@.len() <= i < n ==> reversed@[n - 1 - i].0 == yaml_key((#[trigger] all[i]).0)
                            && yaml_converts(reversed@[n - 1 - i].1, all[i].1, (depth - 1) as nat)
                            && yaml_within(reversed@[n - 1 - i].1, (depth - 1) as nat),
                    forall|i: int|
                        0 <= i < out@.len() ==> out@[i].0 == yaml_key((#[trigger] all[i]).0) && yaml_converts(
                            out@[i].1,
                            all[i].1,
                            (depth - 1) as nat,
                        ) && yaml_within(out@[i].1, (depth - 1) as nat),
                decreases reversed.len(),
            {
                proof {
                    assert(reversed@[reversed@.len() - 1].0 == yaml_key(all[out@.len() as int].0));
                }
                out.push(reversed.pop().unwrap());
            }
            let r = YamlValue::Mapping(out);
            assert(yaml_within(r, depth as nat)) by {
                assert forall|i: int| 0 <= i < out@.len() implies yaml_within(
                    #[trigger] out@[i].1,
                    (depth - 1) as nat,
                ) by {
                    assert(out@[i].0 == yaml_key(all[i].0));
                }
            }
            r
        },
    }
}

proof fn lemma_yaml_error_code(v: YamlValue, depth: int)
    ensures
        yaml_error(v, depth) matches Some(e) ==> e.code == "CONFIG_INVALID"@,
    decreases v, 0int,
{
    if depth <= 24 {
        match v {
            YamlValue::Mapping(m) => lemma_entries_error_code(m@, 0, depth),
            YamlValue::Sequence(s) => lemma_items_error_code(s@, 0, depth),
            _ => {},
        }
    }
}

proof fn lemma_entries_error_code(m: Seq<(Option<String>, YamlValue)>, i: int, depth: int)
    ensures
        entries_error(m, i, depth) matches Some(e) ==> e.code == "CONFIG_INVALID"@,
    decreases m, m.len() - i,
{
    if 0 <= i < m.len() {
        lemma_yaml_error_code(m[i].1, depth + 1);
        lemma_entries_error_code(m, i + 1, depth);
    }
}

proof fn lemma_items_error_code(s: Seq<YamlValue>, i: int, depth: int)
    ensures
        items_error(s, i, depth) matches Some(e) ==> e.code == "CONFIG_INVALID"@,
    decreases s, s.len() - i,
{
    if 0 <= i < s.len() {
        lemma_yaml_error_code(s[i], depth + 1);
        lemma_items_error_code(s, i + 1, depth);
    }
}

/// Parses a configuration document and checks its shape: no tags, merge
/// keys or non-string keys, and nesting of at most 24 levels. A parse error
/// is `CONFIG_INVALID` with the parser's message.
pub fn parse_yaml(text: &str) -> (r: Result<YamlValue, Error>)
    ensures
        r matches Ok(v) ==> yaml_error(v, 0) is None && yaml_within(v, YAML_DEPTH as nat),
        r matches Err(e) ==> e@.code == "CONFIG_INVALID"@,
        match yaml_from_text(text@) {
            Err(m) => r matches Err(e) && e@ == fault("CONFIG_INVALID"@, m),
            Ok(v) => match r {
                Ok(t) => yaml_converts(t, v, YAML_DEPTH as nat),
                Err(e) => exists|t: YamlValue|
                    yaml_converts(t, v, YAML_DEPTH as nat) && yaml_error(t, 0) == Some(e@),
            },
        },
{
    let v = match parse_yaml_value(text) {
        Ok(v) => v,
        Err(m) => {
            return Err(Error::with_message("CONFIG_INVALID", m));
        },
    };
    let t = yaml_tree(v, YAML_DEPTH);
    match check_yaml(&t, 0) {
        Ok(()) => Ok(t),
        Err(e) => {
            proof {
                lemma_yaml_error_code(t, 0);
            }
            Err(e)
        },
    }
}

} // verus!
