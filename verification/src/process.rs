use vstd::prelude::*;
use crate::model::Arg;
use crate::paths::{FsPath, path_text};
use crate::text::{ascii_lower, same_text, to_ascii_lowercase};

verus! {

/// The argument vector of a command: literal arguments as written, and
/// late-bound path arguments as the current path of the file reference.
pub open spec fn argv(args: Seq<Arg>, path: Seq<Seq<char>>) -> Seq<Seq<char>> {
    args.map_values(|a: Arg| match a {
        Arg::Literal(s) => s@,
        Arg::Path(_) => path_text(path),
    })
}

pub fn command_args(args: &Vec<Arg>, path: &FsPath) -> (r: Vec<String>)
    ensures
        r@.map_values(|s: String| s@) == argv(args@, path@),
{
    let mut r: Vec<String> = Vec::new();
    let mut i: usize = 0;
    while i < args.len()
        invariant
            i <= args.len(),
            r@.map_values(|s: String| s@) == argv(args@.subrange(0, i as int), path@),
        decreases args.len() - i,
    {
        let ghost old = r@;
        let item = match &args[i] {
            Arg::Literal(s) => s.clone(),
            Arg::Path(_) => path.display(),
        };
        r.push(item);
        assert(r@.map_values(|s: String| s@) =~= old.map_values(|s: String| s@).push(item@));
        i = i + 1;
        assert(argv(args@.subrange(0, i as int), path@) =~= argv(args@.subrange(0, i - 1), path@).push(item@));
    }
    assert(args@.subrange(0, args.len() as int) =~= args@);
    r
}

/// The most bytes of each output stream of a command that are kept.
pub const OUTPUT_LIMIT: usize = 65536;

/// How many of `n` newly read bytes are kept when `kept` bytes of the stream
/// are kept already: as many as still fit under the limit.
pub open spec fn room(kept: int, n: int) -> int {
    if kept >= OUTPUT_LIMIT {
        0
    } else if n < OUTPUT_LIMIT - kept {
        n
    } else {
        OUTPUT_LIMIT - kept
    }
}

pub fn output_room(kept: usize, n: usize) -> (r: usize)
    ensures
        r == room(kept as int, n as int),
{
    if kept >= OUTPUT_LIMIT {
        0
    } else if n < OUTPUT_LIMIT - kept {
        n
    } else {
        OUTPUT_LIMIT - kept
    }
}

/// A kept stream never grows past the limit, and it takes every byte read
/// while there is room for them.
pub proof fn law_output_is_capped(kept: int, n: int)
    requires
        0 <= kept <= OUTPUT_LIMIT,
        0 <= n,
    ensures
        kept + room(kept, n) <= OUTPUT_LIMIT,
        kept + n <= OUTPUT_LIMIT ==> room(kept, n) == n,
{
}

/// Whether a command's environment names `SystemRoot`, in any letter case.
pub open spec fn names_system_root(env: Seq<(String, String)>) -> bool {
    exists|i: int| 0 <= i < env.len() && ascii_lower(#[trigger] env[i].0@) == "systemroot"@
}

/// Whether a command on Windows needs the host's `SystemRoot` added to its
/// otherwise cleared environment: where the action does not set it itself.
pub fn needs_system_root(env: &Vec<(String, String)>) -> (r: bool)
    ensures
        r == !names_system_root(env@),
{
    let mut i: usize = 0;
    while i < env.len()
        invariant
            i <= env.len(),
            forall|k: int| 0 <= k < i ==> ascii_lower(#[trigger] env@[k].0@) != "systemroot"@,
        decreases env.len() - i,
    {
        let k = to_ascii_lowercase(env[i].0.as_str());
        if same_text(k.as_str(), "systemroot") {
            return false;
        }
        i = i + 1;
    }
    true
}

} // verus!
