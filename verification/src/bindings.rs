//! Calls into outside crates: glob matching and RFC 3339 timestamps.

use vstd::prelude::*;

verus! {

/// The message of the error that `globset::Glob::new` reports for `pattern`,
/// or `None` where it accepts the pattern.
pub uninterp spec fn glob_error(pattern: Seq<char>) -> Option<Seq<char>>;

/// Whether the glob `pattern` matches the path `text`
/// (`globset::GlobSet::is_match` on a set of that one glob).
pub uninterp spec fn glob_is_match(pattern: Seq<char>, text: Seq<char>) -> bool;

/// Compiles `pattern` with `globset::Glob::new`. Claimed: the result is `Ok`
/// exactly where the pattern compiles, and an error carries the crate's message.
#[verifier::external_body]
pub fn glob_check(pattern: &str) -> (r: Result<(), String>)
    ensures
        match r {
            Ok(()) => glob_error(pattern@) is None,
            Err(m) => glob_error(pattern@) == Some(m@),
        },
{
    globset::Glob::new(pattern).map(|_| ()).map_err(|e| e.to_string())
}

/// The message of the error that building a `globset::GlobSet` of the one
/// compiled glob `pattern` reports (`GlobSetBuilder::build`, which refuses a
/// matcher over the crate's size limit), or `None` where it builds.
pub uninterp spec fn glob_set_error(pattern: Seq<char>) -> Option<Seq<char>>;

/// Compiles `pattern` with `globset::Glob::new`, builds a `GlobSet` of it
/// (`GlobSetBuilder::build`) and matches `text` (`GlobSet::is_match`).
/// Claimed: compilation fails as `glob_check` says, building fails as
/// `glob_set_error` names, and otherwise the answer is `glob_is_match`.
#[verifier::external_body]
pub fn glob_match(pattern: &str, text: &str) -> (r: Result<bool, String>)
    ensures
        match r {
            Ok(b) => glob_error(pattern@) is None && glob_set_error(pattern@) is None && b == glob_is_match(
                pattern@,
                text@,
            ),
            Err(m) => glob_error(pattern@) == Some(m@) || (glob_error(pattern@) is None && glob_set_error(
                pattern@,
            ) == Some(m@)),
        },
{
    let g = globset::Glob::new(pattern).map_err(|e| e.to_string())?;
    let set = globset::GlobSetBuilder::new().add(g).build().map_err(|e| e.to_string())?;
    Ok(set.is_match(text))
}

/// What `chrono::DateTime::parse_from_rfc3339` makes of `s`: the instant's
/// UNIX timestamp in seconds and its sub-second nanoseconds, or the parse
/// error's message.
pub uninterp spec fn rfc3339_instant(s: Seq<char>) -> Result<(i64, u32), Seq<char>>;

/// Parses an RFC 3339 timestamp with `chrono::DateTime::parse_from_rfc3339`,
/// giving `timestamp()` and `timestamp_subsec_nanos()` of the result.
/// Claimed: the result is the named `rfc3339_instant` of the text.
#[verifier::external_body]
pub fn parse_rfc3339(s: &str) -> (r: Result<(i64, u32), String>)
    ensures
        match r {
            Ok(t) => rfc3339_instant(s@) == Ok::<(i64, u32), Seq<char>>(t),
            Err(m) => rfc3339_instant(s@) == Err::<(i64, u32), Seq<char>>(m@),
        },
{
    chrono::DateTime::parse_from_rfc3339(s).map(|t| (t.timestamp(), t.timestamp_subsec_nanos())).map_err(
        |e| e.to_string(),
    )
}

} // verus!
