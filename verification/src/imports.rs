//! How module specifiers of a rule package resolve. Rule packages may import
//! only the host API module and package-relative modules.

use vstd::prelude::*;
use vstd::string::*;
use crate::text::{chars, join, join_with, same_text, split, split_on, text_of};

verus! {

/// Why an import is refused.
#[derive(Debug, Clone, Copy, PartialEq, Eq, Structural)]
pub enum ImportError {
    /// Import attributes were given.
    Attributes,
    /// The specifier is neither the host API nor package-relative.
    NotRelative,
    /// The specifier climbs above the package root.
    Escapes,
}

impl ImportError {
    /// The message of the refusal (none where the specifier escapes).
    pub fn message(&self) -> (m: Option<&'static str>)
        ensures
            m matches Some(t) ==> t@ == match *self {
                ImportError::Attributes => "import attributes are unsupported"@,
                _ => "only package-relative imports and @app/api are allowed"@,
            },
            m is None <==> *self == ImportError::Escapes,
    {
        match self {
            ImportError::Attributes => Some("import attributes are unsupported"),
            ImportError::NotRelative => Some("only package-relative imports and @app/api are allowed"),
            ImportError::Escapes => None,
        }
    }
}

/// The module path reached by applying the segments `segs[i..]` to the
/// directory `stack`: `.` and empty segments stay, `..` climbs (and fails at
/// the package root), other segments descend.
pub open spec fn walk(stack: Seq<Seq<char>>, segs: Seq<Seq<char>>, i: int) -> Option<Seq<Seq<char>>>
    decreases segs.len() - i,
{
    if i < 0 || i >= segs.len() {
        Some(stack)
    } else {
        let g = segs[i];
        if g == "."@ || g.len() == 0 {
            walk(stack, segs, i + 1)
        } else if g == ".."@ {
            if stack.len() == 0 {
                None
            } else {
                walk(stack.drop_last(), segs, i + 1)
            }
        } else {
            walk(stack.push(g), segs, i + 1)
        }
    }
}

/// Path segments that neither stay (`.`, empty) nor climb (`..`).
pub open spec fn clean_segments(parts: Seq<Seq<char>>) -> bool {
    forall|k: int| 0 <= k < parts.len() ==> #[trigger] parts[k] != ".."@ && parts[k] != "."@ && parts[k].len() > 0
}

proof fn lemma_walk_clean(stack: Seq<Seq<char>>, segs: Seq<Seq<char>>, i: int)
    requires
        clean_segments(stack),
    ensures
        walk(stack, segs, i) matches Some(p) ==> clean_segments(p),
    decreases segs.len() - i,
{
    if i < 0 || i >= segs.len() {
    } else {
        let g = segs[i];
        if g == "."@ || g.len() == 0 {
            lemma_walk_clean(stack, segs, i + 1);
        } else if g == ".."@ {
            if stack.len() > 0 {
                assert(clean_segments(stack.drop_last()));
                lemma_walk_clean(stack.drop_last(), segs, i + 1);
            }
        } else {
            assert(clean_segments(stack.push(g)));
            lemma_walk_clean(stack.push(g), segs, i + 1);
        }
    }
}

/// Imports stay inside the package: apart from the host API module and the
/// runner's entry, an import from a module in a clean directory resolves to a
/// path of plain segments, with no `.` or `..` left to climb above the root.
pub proof fn law_imports_stay_in_package(entry: Seq<char>, base: Seq<char>, name: Seq<char>, attributes: bool)
    requires
        clean_segments(split_on(base, '/').drop_last()),
        name != "@app/api"@,
        !(base == "filet:runner"@ && name == "filet:entry"@),
    ensures
        import_target(entry, base, name, attributes) matches Ok(t) ==> exists|parts: Seq<Seq<char>>|
            clean_segments(parts) && t == join_with(parts, '/'),
{
    lemma_walk_clean(split_on(base, '/').drop_last(), split_on(name, '/'), 0);
    match walk(split_on(base, '/').drop_last(), split_on(name, '/'), 0) {
        Some(parts) => {
            let t = join_with(parts, '/');
            assert(clean_segments(parts) && t == join_with(parts, '/'));
        },
        None => {},
    }
}

/// Whether `s` begins with `p`.
pub open spec fn begins_with(s: Seq<char>, p: Seq<char>) -> bool {
    s.len() >= p.len() && s.subrange(0, p.len() as int) == p
}

/// The module an import of `name` from module `base` resolves to, in a
/// package whose entry module is `entry`.
pub open spec fn import_target(entry: Seq<char>, base: Seq<char>, name: Seq<char>, attributes: bool) -> Result<
    Seq<char>,
    ImportError,
> {
    if attributes {
        Err(ImportError::Attributes)
    } else if name == "@app/api"@ {
        Ok(name)
    } else if base == "filet:runner"@ && name == "filet:entry"@ {
        Ok(entry)
    } else if !begins_with(name, "./"@) && !begins_with(name, "../"@) {
        Err(ImportError::NotRelative)
    } else {
        match walk(split_on(base, '/').drop_last(), split_on(name, '/'), 0) {
            None => Err(ImportError::Escapes),
            Some(parts) => Ok(join_with(parts, '/')),
        }
    }
}

fn begins(s: &str, p: &str) -> (r: bool)
    ensures
        r == begins_with(s@, p@),
{
    let n = p.unicode_len();
    if s.unicode_len() < n {
        return false;
    }
    let head = text_of(s, 0, n);
    same_text(head.as_str(), p)
}

/// Resolves a module specifier imported from `base`.
#[verifier::loop_isolation(false)]
pub fn resolve_import(entry: &str, base: &str, name: &str, attributes: bool) -> (r: Result<String, ImportError>)
    ensures
        match r {
            Ok(t) => import_target(entry@, base@, name@, attributes) == Ok::<Seq<char>, ImportError>(t@),
            Err(e) => import_target(entry@, base@, name@, attributes) == Err::<Seq<char>, ImportError>(e),
        },
{
    if attributes {
        return Err(ImportError::Attributes);
    }
    if same_text(name, "@app/api") {
        return Ok(name.to_owned());
    }
    if same_text(base, "filet:runner") && same_text(name, "filet:entry") {
        return Ok(entry.to_owned());
    }
    if !begins(name, "./") && !begins(name, "../") {
        return Err(ImportError::NotRelative);
    }
    let mut parts = split(base, '/');
    let ghost base_parts = parts@.map_values(|p: String| p@);
    proof {
        crate::text::lemma_split_nonempty(base@, '/');
    }
    parts.pop();
    assert(parts@.map_values(|p: String| p@) =~= base_parts.drop_last());
    let segs = split(name, '/');
    let ghost sv = segs@.map_values(|p: String| p@);
    let mut i: usize = 0;
    while i < segs.len()
        invariant
            i <= segs.len(),
            sv == segs@.map_values(|p: String| p@),
            walk(base_parts.drop_last(), sv, 0) == walk(parts@.map_values(|p: String| p@), sv, i as int),
        decreases segs.len() - i,
    {
        let g = segs[i].as_str();
        assert(g@ == sv[i as int]);
        if same_text(g, ".") || g.unicode_len() == 0 {
        } else if same_text(g, "..") {
            if parts.len() == 0 {
                return Err(ImportError::Escapes);
            }
            let ghost old = parts@;
            parts.pop();
            assert(parts@.map_values(|p: String| p@) =~= old.map_values(|p: String| p@).drop_last());
        } else {
            let ghost old = parts@;
            parts.push(g.to_owned());
            assert(parts@.map_values(|p: String| p@) =~= old.map_values(|p: String| p@).push(g@));
        }
        i = i + 1;
    }
    Ok(join(&parts, '/'))
}

} // verus!
