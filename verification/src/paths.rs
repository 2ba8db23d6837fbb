use vstd::prelude::*;
use vstd::string::*;
use crate::error::Error;
use crate::error::{ErrorView, fault};
use crate::imports::begins_with;
use crate::text::{ascii_lower, chars, has_char, join_text, opt_text, same_text, split, split_on, text_of, to_ascii_lowercase};

verus! {

/// An absolute filesystem path, held as its sequence of ordinary components
/// (the root itself has none).
#[derive(Debug, Clone)]
pub struct FsPath {
    pub parts: Vec<String>,
}

impl View for FsPath {
    type V = Seq<Seq<char>>;

    open spec fn view(&self) -> Seq<Seq<char>> {
        self.parts@.map_values(|p: String| p@)
    }
}

/// Whether `a` is a component-wise prefix of `b` (as `Path::starts_with`).
pub open spec fn is_prefix_of(a: Seq<Seq<char>>, b: Seq<Seq<char>>) -> bool {
    a.len() <= b.len() && b.subrange(0, a.len() as int) == a
}

/// The path `p` with its final component replaced by `name`
/// (or `name` appended to the root).
pub open spec fn replace_name(p: Seq<Seq<char>>, name: Seq<char>) -> Seq<Seq<char>> {
    if p.len() == 0 {
        seq![name]
    } else {
        p.drop_last().push(name)
    }
}

/// The text of a path: `/` followed by its components separated by `/`.
pub open spec fn path_text(p: Seq<Seq<char>>) -> Seq<char> {
    if p.len() == 0 {
        seq!['/']
    } else {
        components_text(p)
    }
}

/// Each component preceded by `/`.
pub open spec fn components_text(p: Seq<Seq<char>>) -> Seq<char>
    decreases p.len(),
{
    if p.len() == 0 {
        seq![]
    } else {
        components_text(p.drop_last()) + seq!['/'] + p.last()
    }
}

impl FsPath {
    /// The path as text (`Path::display`).
    pub fn display(&self) -> (s: String)
        ensures
            s@ == path_text(self@),
    {
        if self.parts.len() == 0 {
            let s = "/".to_owned();
            proof {
                reveal_strlit("/");
            }
            return s;
        }
        let mut s = String::new();
        let mut i: usize = 0;
        while i < self.parts.len()
            invariant
                i <= self.parts.len(),
                s@ == components_text(self@.subrange(0, i as int)),
            decreases self.parts.len() - i,
        {
            proof {
                reveal_strlit("/");
                assert(self@.subrange(0, i + 1).drop_last() =~= self@.subrange(0, i as int));
            }
            s.append("/");
            s.append(self.parts[i].as_str());
            i = i + 1;
        }
        assert(self@.subrange(0, self@.len() as int) =~= self@);
        s
    }

    /// The filesystem root.
    pub fn root() -> (p: FsPath)
        ensures
            p@ == Seq::<Seq<char>>::empty(),
    {
        let p = FsPath { parts: Vec::new() };
        assert(p@ =~= Seq::<Seq<char>>::empty());
        p
    }

    /// A copy of this path.
    pub fn duplicate(&self) -> (p: FsPath)
        ensures
            p@ == self@,
    {
        let parts = self.parts.clone();
        proof {
            assert(parts@ =~= self.parts@);
        }
        FsPath { parts }
    }

    /// Number of components.
    pub fn depth(&self) -> (n: usize)
        ensures
            n == self@.len(),
    {
        self.parts.len()
    }

    /// The final component, if any.
    pub fn file_name(&self) -> (r: Option<String>)
        ensures
            r is Some <==> self@.len() > 0,
            r matches Some(n) ==> n@ == self@.last(),
    {
        let n = self.parts.len();
        if n == 0 {
            None
        } else {
            Some(self.parts[n - 1].clone())
        }
    }

    /// This path with `name` appended as a new final component.
    pub fn join_name(&self, name: &str) -> (p: FsPath)
        ensures
            p@ == self@.push(name@),
    {
        let mut parts = self.parts.clone();
        assert(parts@ =~= self.parts@);
        parts.push(name.to_owned());
        let p = FsPath { parts };
        assert(p@ =~= self@.push(name@));
        p
    }

    /// This path with its final component replaced by `name`.
    pub fn with_file_name(&self, name: &str) -> (p: FsPath)
        ensures
            p@ == replace_name(self@, name@),
    {
        let mut parts = self.parts.clone();
        assert(parts@ =~= self.parts@);
        if parts.len() > 0 {
            parts.pop();
        }
        parts.push(name.to_owned());
        let p = FsPath { parts };
        assert(p@ =~= replace_name(self@, name@));
        p
    }

    /// The parent directory, if this is not the root.
    pub fn parent(&self) -> (r: Option<FsPath>)
        ensures
            r is Some <==> self@.len() > 0,
            r matches Some(p) ==> p@ == self@.drop_last(),
    {
        if self.parts.len() == 0 {
            None
        } else {
            let mut parts = self.parts.clone();
            assert(parts@ =~= self.parts@);
            parts.pop();
            let p = FsPath { parts };
            assert(p@ =~= self@.drop_last());
            Some(p)
        }
    }

    /// Whether both paths have the same components.
    pub fn same(&self, other: &FsPath) -> (r: bool)
        ensures
            r == (self@ == other@),
    {
        if self.parts.len() != other.parts.len() {
            assert(self@.len() != other@.len());
            return false;
        }
        let mut i: usize = 0;
        while i < self.parts.len()
            invariant
                self.parts.len() == other.parts.len(),
                i <= self.parts.len(),
                forall|j: int| 0 <= j < i ==> self@[j] == other@[j],
            decreases self.parts.len() - i,
        {
            if self.parts[i] != other.parts[i] {
                assert(self@[i as int] != other@[i as int]);
                return false;
            }
            i = i + 1;
        }
        assert(self@ =~= other@);
        true
    }

    /// Whether `base` is a component-wise prefix of this path.
    pub fn starts_with(&self, base: &FsPath) -> (r: bool)
        ensures
            r == is_prefix_of(base@, self@),
    {
        if base.parts.len() > self.parts.len() {
            return false;
        }
        let mut i: usize = 0;
        while i < base.parts.len()
            invariant
                base.parts.len() <= self.parts.len(),
                i <= base.parts.len(),
                forall|j: int| 0 <= j < i ==> self@[j] == base@[j],
            decreases base.parts.len() - i,
        {
            if self.parts[i] != base.parts[i] {
                assert(self@.subrange(0, base@.len() as int)[i as int] != base@[i as int]);
                return false;
            }
            i = i + 1;
        }
        assert(self@.subrange(0, base@.len() as int) =~= base@);
        true
    }
}

/// Checks that `name` is a single file name (Unix rules).
pub open spec fn valid_name_spec(name: Seq<char>) -> bool {
    &&& name.len() != 0
    &&& name != seq!['.']
    &&& name != seq!['.', '.']
    &&& !name.contains('/')
    &&& !name.contains('\\')
    &&& !name.contains('\0')
}

/// The part of a file name before its first dot.
pub open spec fn name_stem(name: Seq<char>) -> Seq<char>
    decreases name.len(),
{
    if name.len() == 0 || name[0] == '.' {
        seq![]
    } else {
        seq![name[0]] + name_stem(name.drop_first())
    }
}

/// A character Windows refuses in file names.
pub open spec fn windows_bad_char(c: char) -> bool {
    c == '<' || c == '>' || c == ':' || c == '"' || c == '|' || c == '?' || c == '*' || (c as int) < (' ' as int)
}

/// Whether a stem (in lower case) is a device name Windows reserves.
pub open spec fn reserved_stem(stem: Seq<char>) -> bool {
    ||| stem == "con"@ || stem == "prn"@ || stem == "aux"@ || stem == "nul"@
    ||| stem.len() == 4 && ((stem[0] == 'c' && stem[1] == 'o' && stem[2] == 'm') || (stem[0] == 'l' && stem[1] == 'p'
        && stem[2] == 't')) && ('1' as int) <= (stem[3] as int) <= ('9' as int)
}

/// Whether Windows refuses a file name: reserved characters or control
/// characters, a final dot or space, or a reserved device name as its stem.
pub open spec fn windows_name_bad(name: Seq<char>) -> bool {
    ||| exists|i: int| 0 <= i < name.len() && windows_bad_char(#[trigger] name[i])
    ||| name.len() > 0 && (name.last() == '.' || name.last() == ' ')
    ||| reserved_stem(ascii_lower(name_stem(name)))
}

/// Refuses a file name that Windows does not accept.
pub fn check_windows_name(name: &str) -> (r: Result<(), Error>)
    ensures
        r is Ok <==> !windows_name_bad(name@),
        r matches Err(e) ==> e@ == fault("INVALID_PATH"@, "unsupported Windows filename"@),
{
    let v = chars(name);
    let mut i: usize = 0;
    let mut stem: Vec<char> = Vec::new();
    let mut in_stem = true;
    proof {
        assert(v@.skip(0) =~= v@);
        assert(v@.take(0) =~= seq![]);
        assert(stem@ + name_stem(v@) =~= name_stem(v@));
    }
    while i < v.len()
        invariant
            v@ == name@,
            i <= v.len(),
            forall|k: int| 0 <= k < i ==> !windows_bad_char(#[trigger] v@[k]),
            in_stem ==> stem@ == v@.take(i as int) && !v@.take(i as int).contains('.'),
            !in_stem ==> stem@ == name_stem(name@),
            in_stem ==> name_stem(name@) == stem@ + name_stem(v@.skip(i as int)),
        decreases v.len() - i,
    {
        let c = v[i];
        if c == '<' || c == '>' || c == ':' || c == '"' || c == '|' || c == '?' || c == '*' || ' ' > c {
            proof {
                assert(windows_bad_char(v@[i as int]));
            }
            return Err(Error::new("INVALID_PATH", "unsupported Windows filename"));
        }
        proof {
            assert(v@.skip(i as int)[0] == c);
            assert(v@.skip(i as int).drop_first() =~= v@.skip(i + 1));
            assert(v@.take(i + 1) =~= v@.take(i as int).push(c));
        }
        if in_stem {
            if c == '.' {
                in_stem = false;
                proof {
                    assert(name_stem(v@.skip(i as int)) =~= seq![]);
                    assert(stem@ + seq![] =~= stem@);
                }
            } else {
                stem.push(c);
                proof {
                    assert(name_stem(v@.skip(i as int)) =~= seq![c] + name_stem(v@.skip(i + 1)));
                    assert(stem@ + name_stem(v@.skip(i + 1)) =~= (stem@.drop_last() + seq![c]) + name_stem(v@.skip(i + 1)));
                }
            }
        }
        i = i + 1;
    }
    proof {
        if in_stem {
            assert(v@.skip(i as int) =~= seq![]);
            assert(stem@ + seq![] =~= stem@);
        }
    }
    let n = v.len();
    if n > 0 && (v[n - 1] == '.' || v[n - 1] == ' ') {
        return Err(Error::new("INVALID_PATH", "unsupported Windows filename"));
    }
    let mut stem_text = String::new();
    let mut j: usize = 0;
    proof {
        reveal_strlit("");
    }
    while j < stem.len()
        invariant
            j <= stem.len(),
            stem_text@ == stem@.take(j as int),
        decreases stem.len() - j,
    {
        stem_text.append(crate::text::char_text(stem[j]).as_str());
        assert(stem@.take(j + 1) =~= stem@.take(j as int).push(stem@[j as int]));
        j = j + 1;
    }
    assert(stem@.take(stem.len() as int) =~= stem@);
    let lower = to_ascii_lowercase(stem_text.as_str());
    let l = chars(lower.as_str());
    let reserved = same_text(lower.as_str(), "con") || same_text(lower.as_str(), "prn") || same_text(
        lower.as_str(),
        "aux",
    ) || same_text(lower.as_str(), "nul") || (l.len() == 4 && ((l[0] == 'c' && l[1] == 'o' && l[2] == 'm') || (l[0]
        == 'l' && l[1] == 'p' && l[2] == 't')) && '1' <= l[3] && l[3] <= '9');
    if reserved {
        return Err(Error::new("INVALID_PATH", "unsupported Windows filename"));
    }
    Ok(())
}

pub fn valid_name(name: &str) -> (r: Result<(), Error>)
    ensures
        r is Ok <==> valid_name_spec(name@),
        r matches Err(e) ==> e.code@ == "INVALID_PATH"@ && e.message@ == "rename.name must be one filename"@
            && e.rule_id is None,
{
    let v = chars(name);
    let bad = v.len() == 0 || (v.len() == 1 && v[0] == '.') || (v.len() == 2 && v[0] == '.' && v[1] == '.')
        || has_char(name, '/') || has_char(name, '\\') || has_char(name, '\0');
    proof {
        if v.len() == 1 && v[0] == '.' {
            assert(name@ =~= seq!['.']);
        }
        if v.len() == 2 && v[0] == '.' && v[1] == '.' {
            assert(name@ =~= seq!['.', '.']);
        }
    }
    if bad {
        Err(Error::new("INVALID_PATH", "rename.name must be one filename"))
    } else {
        Ok(())
    }
}

/// The stem and extension of a file name, as `Path::file_stem` and
/// `Path::extension` give them: split at the last dot unless the name is `..`
/// or its only dot is the first character.
pub open spec fn stem_and_extension(name: Seq<char>) -> (Seq<char>, Option<Seq<char>>) {
    if name == seq!['.', '.'] || !name.contains('.') {
        (name, None)
    } else {
        let k = last_dot(name);
        if k == 0 {
            (name, None)
        } else {
            (name.subrange(0, k), Some(name.subrange(k + 1, name.len() as int)))
        }
    }
}

/// The index of the last `.` in `s` (where there is one).
pub open spec fn last_dot(s: Seq<char>) -> int
    recommends
        s.contains('.'),
{
    choose|k: int| 0 <= k < s.len() && s[k] == '.' && forall|j: int| k < j < s.len() ==> s[j] != '.'
}

/// Splits a file name into stem and extension.
pub fn split_name(name: &str) -> (r: (String, Option<String>))
    ensures
        r.0@ == stem_and_extension(name@).0,
        opt_text(r.1) == stem_and_extension(name@).1,
{
    let v = chars(name);
    let n = v.len();
    let mut k: usize = n;
    let mut found = false;
    while k > 0
        invariant_except_break
            !found,
        invariant
            v@ == name@,
            n == v.len(),
            k <= n,
            forall|j: int| k <= j < n ==> v@[j] != '.',
        ensures
            found ==> k > 0 && v@[k - 1] == '.',
            !found ==> k == 0,
        decreases k,
    {
        if v[k - 1] == '.' {
            found = true;
            break;
        }
        k = k - 1;
    }
    if !found {
        proof {
            if name@.contains('.') {
                let j = choose|j: int| 0 <= j < name@.len() && name@[j] == '.';
                assert(v@[j] != '.');
            }
        }
        return (name.to_owned(), None);
    }
    let dot = k - 1;
    proof {
        assert(name@.contains('.'));
        assert(name@[dot as int] == '.');
        let l = last_dot(name@);
        assert(0 <= l < n && name@[l] == '.' && forall|j: int| l < j < n ==> name@[j] != '.');
        assert(l == dot);
    }
    if n == 2 && v[0] == '.' && v[1] == '.' {
        proof {
            assert(name@ =~= seq!['.', '.']);
        }
        return (name.to_owned(), None);
    }
    proof {
        if name@ == seq!['.', '.'] {
            assert(v@[0] == '.' && v@[1] == '.');
        }
    }
    if dot == 0 {
        return (name.to_owned(), None);
    }
    (text_of(name, 0, dot), Some(text_of(name, dot + 1, n)))
}

/// The directory reached by applying the segments `segs[i..]` to `stack`:
/// empty and `.` segments stay, `..` climbs (staying at the root), other
/// segments descend.
pub open spec fn lexical_walk(stack: Seq<Seq<char>>, segs: Seq<Seq<char>>, i: int) -> Seq<Seq<char>>
    decreases segs.len() - i,
{
    if i < 0 || i >= segs.len() {
        stack
    } else {
        let g = segs[i];
        if g == "."@ || g.len() == 0 {
            lexical_walk(stack, segs, i + 1)
        } else if g == ".."@ {
            lexical_walk(if stack.len() == 0 { stack } else { stack.drop_last() }, segs, i + 1)
        } else {
            lexical_walk(stack.push(g), segs, i + 1)
        }
    }
}

/// The absolute path that the text `p` names relative to `base`, cleaned of
/// `.` and `..` components.
pub open spec fn clean_text(base: Seq<Seq<char>>, p: Seq<char>) -> Seq<Seq<char>> {
    let start = if p.len() > 0 && p[0] == '/' { seq![] } else { base };
    lexical_walk(start, split_on(p, '/'), 0)
}

/// The home directory joined with the rest of a `~` path.
pub open spec fn tilde_path(home: Seq<char>, rest: Seq<char>) -> Seq<char> {
    if (rest.len() > 0 && rest[0] == '/') || home.len() == 0 {
        rest
    } else {
        home + "/"@ + rest
    }
}

/// Whether a configured path starts from the home directory.
pub open spec fn is_tilde(value: Seq<char>) -> bool {
    value == "~"@ || begins_with(value, "~/"@) || begins_with(value, "~\\"@)
}

/// The absolute path a configured path names: `~`, `~/...` and `~\...` start
/// from the home directory `home`, other relative paths from `base`.
pub open spec fn lexical_outcome(base: Seq<Seq<char>>, value: Seq<char>, home: Option<Seq<char>>) -> Result<
    Seq<Seq<char>>,
    ErrorView,
> {
    if is_tilde(value) {
        match home {
            None => Err(fault("INVALID_PATH"@, "home directory unavailable"@)),
            Some(h) => Ok(clean_text(base, tilde_path(h, if value.len() >= 2 { value.subrange(2, value.len() as int) } else { seq![] }))),
        }
    } else {
        Ok(clean_text(base, value))
    }
}

fn clean(base: &FsPath, p: &str) -> (r: FsPath)
    ensures
        r@ == clean_text(base@, p@),
{
    let v = chars(p);
    let mut stack: Vec<String> = if v.len() > 0 && v[0] == '/' { Vec::new() } else { base.parts.clone() };
    proof {
        if !(v.len() > 0 && v[0] == '/') {
            assert(stack@ =~= base.parts@);
        }
    }
    let segs = split(p, '/');
    let ghost sv = segs@.map_values(|q: String| q@);
    let ghost start = stack@.map_values(|q: String| q@);
    assert(start =~= (if p@.len() > 0 && p@[0] == '/' { seq![] } else { base@ }));
    let mut i: usize = 0;
    while i < segs.len()
        invariant
            i <= segs.len(),
            sv == segs@.map_values(|q: String| q@),
            lexical_walk(start, sv, 0) == lexical_walk(stack@.map_values(|q: String| q@), sv, i as int),
        decreases segs.len() - i,
    {
        let g = segs[i].as_str();
        assert(g@ == sv[i as int]);
        if same_text(g, ".") || g.unicode_len() == 0 {
        } else if same_text(g, "..") {
            if stack.len() > 0 {
                let ghost old = stack@;
                stack.pop();
                assert(stack@.map_values(|q: String| q@) =~= old.map_values(|q: String| q@).drop_last());
            }
        } else {
            let ghost old = stack@;
            stack.push(g.to_owned());
            assert(stack@.map_values(|q: String| q@) =~= old.map_values(|q: String| q@).push(g@));
        }
        i = i + 1;
    }
    FsPath { parts: stack }
}

/// The lexical part of expanding a configured path: the path relative to
/// `base` (or to the home directory `home`), cleaned of `.` and `..`.
pub fn expand_lexical(base: &FsPath, value: &str, home: Option<&str>) -> (r: Result<FsPath, crate::error::Error>)
    ensures
        match r {
            Ok(p) => lexical_outcome(base@, value@, match home { Some(h) => Some(h@), None => None }) == Ok::<Seq<Seq<char>>, ErrorView>(p@),
            Err(e) => lexical_outcome(base@, value@, match home { Some(h) => Some(h@), None => None }) == Err::<Seq<Seq<char>>, ErrorView>(e@),
        },
{
    let v = chars(value);
    let n = v.len();
    let tilde = (n == 1 && v[0] == '~') || (n >= 2 && v[0] == '~' && (v[1] == '/' || v[1] == '\\'));
    proof {
        reveal_strlit("~");
        reveal_strlit("~/");
        reveal_strlit("~\\");
        assert("~/"@ =~= seq!['~', '/']);
        assert("~\\"@ =~= seq!['~', '\\']);
        assert("~"@ =~= seq!['~']);
        if n >= 2 {
            assert(value@.subrange(0, 2) =~= seq![v@[0], v@[1]]);
            assert(begins_with(value@, "~/"@) == (v@[0] == '~' && v@[1] == '/'));
            assert(begins_with(value@, "~\\"@) == (v@[0] == '~' && v@[1] == '\\'));
        }
        if n == 1 && v@[0] == '~' {
            assert(value@ =~= "~"@);
        }
        assert(tilde == is_tilde(value@));
    }
    if tilde {
        let h = match home {
            None => {
                return Err(crate::error::Error::new("INVALID_PATH", "home directory unavailable"));
            },
            Some(h) => h,
        };
        let rest = if n >= 2 { text_of(value, 2, n) } else { String::new() };
        proof {
            if n < 2 {
                assert(rest@ =~= seq![]);
            }
        }
        let rv = chars(rest.as_str());
        let joined = if (rv.len() > 0 && rv[0] == '/') || h.unicode_len() == 0 {
            rest
        } else {
            let mut j = h.to_owned();
            j.append("/");
            j.append(rest.as_str());
            j
        };
        Ok(clean(base, joined.as_str()))
    } else {
        Ok(clean(base, value))
    }
}

} // verus!
