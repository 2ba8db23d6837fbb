use vstd::prelude::*;
use crate::paths::FsPath;

verus! {

/// What to do when a destination already exists.
#[derive(Debug, Clone, Copy, PartialEq, Eq, Structural)]
pub enum Conflict {
    Error,
    Skip,
}

impl Default for Conflict {
    fn default() -> (c: Conflict)
        ensures
            c == Conflict::Error,
    {
        Conflict::Error
    }
}

/// A copy or move of a file reference into a destination directory.
#[derive(Debug, Clone)]
pub struct Transfer {
    pub file: String,
    pub to: String,
    pub on_conflict: Conflict,
}

/// A rename of a file reference within its directory.
#[derive(Debug, Clone)]
pub struct Rename {
    pub file: String,
    pub name: String,
    pub on_conflict: Conflict,
}

/// A command argument bound late to the current path of a file reference.
#[derive(Debug, Clone)]
pub struct PathArg {
    pub path_of: String,
}

/// A command argument.
#[derive(Debug, Clone)]
pub enum Arg {
    Literal(String),
    Path(PathArg),
}

/// An external command. The environment is the complete child environment.
#[derive(Debug, Clone)]
pub struct Exec {
    pub program: String,
    pub args: Vec<Arg>,
    pub cwd: Option<String>,
    /// Environment variables by name, in ascending name order.
    pub env: Vec<(String, String)>,
    pub timeout: String,
}

/// An action as a rule states it, before paths are resolved.
#[derive(Debug, Clone)]
pub enum Draft {
    Copy(Transfer),
    Move(Transfer),
    Rename(Rename),
    Exec(Exec),
}

impl Draft {
    /// Whether the draft moves the file reference (a move or a rename).
    pub fn is_move_draft(&self) -> (r: bool)
        ensures
            r == (*self is Move || *self is Rename),
    {
        match self {
            Draft::Move(_) | Draft::Rename(_) => true,
            _ => false,
        }
    }
}

/// The observed version of an input file.
#[derive(Debug, Clone)]
pub struct Snapshot {
    pub path: FsPath,
    pub identity: String,
    pub size_bytes: u64,
    pub modified_ns: String,
    pub modified_at: Option<String>,
    pub created_at: Option<String>,
    pub sha256: String,
}

/// A concrete action of a plan.
#[derive(Debug, Clone)]
pub enum Action {
    Copy { from: FsPath, to: FsPath, conflict: Conflict },
    Move { from: FsPath, to: FsPath, conflict: Conflict },
    Rename { from: FsPath, to: FsPath, conflict: Conflict },
    Exec {
        program: FsPath,
        args: Vec<Arg>,
        cwd: FsPath,
        env: Vec<(String, String)>,
        timeout_ms: u64,
    },
}

/// The source, destination and conflict policy of a copy, move or rename.
pub open spec fn transfer_of(a: Action) -> Option<(Seq<Seq<char>>, Seq<Seq<char>>, Conflict)> {
    match a {
        Action::Copy { from, to, conflict } => Some((from@, to@, conflict)),
        Action::Move { from, to, conflict } => Some((from@, to@, conflict)),
        Action::Rename { from, to, conflict } => Some((from@, to@, conflict)),
        Action::Exec { .. } => None,
    }
}

/// The source of a copy, move or rename.
pub open spec fn source_of(a: Action) -> Seq<Seq<char>> {
    match transfer_of(a) {
        Some((f, _, _)) => f,
        None => seq![],
    }
}

/// The destination of a copy, move or rename.
pub open spec fn dest_of(a: Action) -> Seq<Seq<char>> {
    match transfer_of(a) {
        Some((_, t, _)) => t,
        None => seq![],
    }
}

/// Whether an action moves the file reference (a move or a rename).
pub open spec fn moves_ref(a: Action) -> bool {
    a is Move || a is Rename
}

impl Action {
    pub fn transfer(&self) -> (r: Option<(&FsPath, &FsPath, &Conflict)>)
        ensures
            match r {
                Some((f, t, c)) => transfer_of(*self) == Some((f@, t@, *c)),
                None => transfer_of(*self) is None,
            },
    {
        match self {
            Action::Copy { from, to, conflict } => Some((from, to, conflict)),
            Action::Move { from, to, conflict } => Some((from, to, conflict)),
            Action::Rename { from, to, conflict } => Some((from, to, conflict)),
            Action::Exec { .. } => None,
        }
    }

    pub fn is_move(&self) -> (r: bool)
        ensures
            r == moves_ref(*self),
    {
        match self {
            Action::Move { .. } | Action::Rename { .. } => true,
            _ => false,
        }
    }

    pub fn is_exec(&self) -> (r: bool)
        ensures
            r == (*self is Exec),
    {
        match self {
            Action::Exec { .. } => true,
            _ => false,
        }
    }
}

/// A persisted action plan for one input.
#[derive(Debug, Clone)]
pub struct Plan {
    pub format_version: u32,
    pub plan_id: String,
    pub rule_id: String,
    pub rule_revision: String,
    pub source: String,
    pub input_snapshot: Snapshot,
    pub actions: Vec<Action>,
    pub risks: Vec<String>,
}

/// What a rule is evaluated against.
#[derive(Debug, Clone)]
pub struct Evaluation {
    pub file: FileContext,
    pub event: Event,
    pub now: String,
}

/// The input file as rules see it.
#[derive(Debug, Clone)]
pub struct FileContext {
    pub file_ref: String,
    pub name: String,
    pub stem: String,
    pub extension: String,
    pub size_bytes: u64,
    pub modified_at: Option<String>,
    pub created_at: Option<String>,
    pub path: Option<String>,
}

/// Why a rule is evaluated.
#[derive(Debug, Clone)]
pub struct Event {
    pub reason: String,
}

/// The record of one executed step. `output` holds a command's result as JSON text.
#[derive(Debug, Clone)]
pub struct Receipt {
    pub before: Snapshot,
    pub after: Option<Snapshot>,
    pub temp: Option<FsPath>,
    pub skipped: bool,
    pub output: Option<String>,
}

} // verus!
