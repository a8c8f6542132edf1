use vstd::prelude::*;

use crate::position::{Position, Range};

verus! {

/// A declared, linkable entity of a note file.
#[derive(Clone, Debug)]
pub enum Referenceable {
    /// The whole file at this path.
    File(String),
    /// A heading of the file at the path, with its span and its text.
    Heading(String, Range, String),
    /// A tag of the file at the path, with its span and its text.
    Tag(String, Range, String),
}

/// The span that stands for a whole file: the first character of its first line.
pub open spec fn file_range() -> Range {
    Range {
        start: Position { line: 0, character: 0 },
        end: Position { line: 0, character: 1 },
    }
}

/// Where the path relative to `root` begins inside `path`, if `path` lies
/// strictly below `root`. A root may be written with or without its final `/`.
pub open spec fn rel_start(root: Seq<char>, path: Seq<char>) -> Option<int> {
    if root.len() > 0 && root.last() == '/' {
        if root.len() < path.len() && path.subrange(0, root.len() as int) == root {
            Some(root.len() as int)
        } else {
            None
        }
    } else if root.len() + 1 < path.len() && path.subrange(0, root.len() as int) == root
        && path[root.len() as int] == '/' {
        Some(root.len() + 1int)
    } else {
        None
    }
}

/// Where the extension of the last component of `s` begins, looking at the
/// characters before index `i`: the last `.` of that component that is not
/// its first character. `s.len()` where it has none.
pub open spec fn stem_end(s: Seq<char>, i: int) -> int
    decreases i,
{
    if i <= 1 {
        s.len() as int
    } else if s[i - 1] == '/' {
        s.len() as int
    } else if s[i - 1] == '.' && s[i - 2] != '/' {
        i - 1
    } else {
        stem_end(s, i - 1)
    }
}

/// `s` without the extension of its last component.
pub open spec fn strip_extension(s: Seq<char>) -> Seq<char> {
    s.subrange(0, stem_end(s, s.len() as int))
}

/// The name under which links reach the file at `path`: its path relative to
/// the vault root, without extension. None for a file outside the root.
pub open spec fn file_refname(root: Seq<char>, path: Seq<char>) -> Option<Seq<char>> {
    match rel_start(root, path) {
        Some(k) => Some(strip_extension(path.subrange(k, path.len() as int))),
        None => None,
    }
}

/// The canonical name of an entity, against which link text is matched.
pub open spec fn refname(e: Referenceable, root: Seq<char>) -> Option<Seq<char>> {
    match e {
        Referenceable::File(p) => file_refname(root, p@),
        Referenceable::Heading(p, _, t) => match file_refname(root, p@) {
            Some(f) => Some(f + seq!['#'] + t@),
            None => None,
        },
        Referenceable::Tag(_, _, t) => Some(t@),
    }
}

/// The span of an entity's declaration in its file.
pub open spec fn entity_range(e: Referenceable) -> Range {
    match e {
        Referenceable::File(_) => file_range(),
        Referenceable::Heading(_, r, _) => r,
        Referenceable::Tag(_, r, _) => r,
    }
}

/// The file an entity is declared in.
pub open spec fn entity_path(e: Referenceable) -> Seq<char> {
    match e {
        Referenceable::File(p) => p@,
        Referenceable::Heading(p, _, _) => p@,
        Referenceable::Tag(p, _, _) => p@,
    }
}

pub open spec fn is_tag(e: Referenceable) -> bool {
    e is Tag
}

fn has_prefix(s: &str, prefix: &str) -> (r: bool)
    ensures
        r == (prefix@.len() <= s@.len() && s@.subrange(0, prefix@.len() as int) == prefix@),
{
    let n = prefix.unicode_len();
    if s.unicode_len() < n {
        return false;
    }
    let mut i: usize = 0;
    while i < n
        invariant
            n == prefix@.len(),
            n <= s@.len(),
            i <= n,
            forall|j: int| 0 <= j < i ==> s@[j] == prefix@[j],
        decreases n - i,
    {
        if s.get_char(i) != prefix.get_char(i) {
            assert(s@.subrange(0, n as int)[i as int] != prefix@[i as int]);
            return false;
        }
        i = i + 1;
    }
    assert(s@.subrange(0, n as int) =~= prefix@);
    true
}

/// Whether two strings hold the same characters.
pub fn str_eq(a: &str, b: &str) -> (r: bool)
    ensures
        r == (a@ == b@),
{
    if a.unicode_len() != b.unicode_len() {
        return false;
    }
    let r = has_prefix(a, b);
    assert(a@ =~= a@.subrange(0, b@.len() as int));
    r
}

fn stem_len(s: &str) -> (r: usize)
    ensures
        r == stem_end(s@, s@.len() as int),
        r <= s@.len(),
{
    let n = s.unicode_len();
    let mut i: usize = n;
    while i > 1
        invariant
            n == s@.len(),
            i <= n,
            stem_end(s@, n as int) == stem_end(s@, i as int),
        decreases i,
    {
        let c = s.get_char(i - 1);
        if c == '/' {
            return n;
        }
        if c == '.' && s.get_char(i - 2) != '/' {
            return i - 1;
        }
        i = i - 1;
    }
    n
}

/// The name under which links reach the file at `path`, relative to `root`.
pub fn file_refname_of(root: &str, path: &str) -> (r: Option<String>)
    ensures
        r matches Some(s) ==> file_refname(root@, path@) == Some(s@),
        r is None ==> file_refname(root@, path@) is None,
{
    let rn = root.unicode_len();
    let pn = path.unicode_len();
    let start: usize;
    if rn > 0 && root.get_char(rn - 1) == '/' {
        if rn < pn && has_prefix(path, root) {
            start = rn;
        } else {
            return None;
        }
    } else if pn > 0 && rn < pn - 1 && has_prefix(path, root) && path.get_char(rn) == '/' {
        start = rn + 1;
    } else {
        return None;
    }
    let rel = path.substring_char(start, pn);
    let k = stem_len(rel);
    Some(rel.substring_char(0, k).to_string())
}

impl Referenceable {
    /// The span of this entity's declaration.
    pub fn range(&self) -> (r: Range)
        ensures
            r == entity_range(*self),
    {
        match self {
            Referenceable::File(_) => Range {
                start: Position { line: 0, character: 0 },
                end: Position { line: 0, character: 1 },
            },
            Referenceable::Heading(_, r, _) => *r,
            Referenceable::Tag(_, r, _) => *r,
        }
    }

    /// The file this entity is declared in.
    pub fn path(&self) -> (r: &String)
        ensures
            r@ == entity_path(*self),
    {
        match self {
            Referenceable::File(p) => p,
            Referenceable::Heading(p, _, _) => p,
            Referenceable::Tag(p, _, _) => p,
        }
    }

    pub fn is_tag(&self) -> (r: bool)
        ensures
            r == is_tag(*self),
    {
        matches!(self, Referenceable::Tag(..))
    }

    /// The canonical name of this entity in a vault rooted at `root`: for a
    /// file its path relative to the root without extension, for a heading
    /// that name, `#` and the heading text, for a tag its text.
    pub fn refname(&self, root: &str) -> (r: Option<String>)
        ensures
            r matches Some(s) ==> refname(*self, root@) == Some(s@),
            r is None ==> refname(*self, root@) is None,
    {
        match self {
            Referenceable::File(p) => file_refname_of(root, p.as_str()),
            Referenceable::Heading(p, _, t) => match file_refname_of(root, p.as_str()) {
                Some(f) => {
                    let mut s = f;
                    s.append("#");
                    s.append(t.as_str());
                    proof {
                        reveal_strlit("#");
                    }
                    Some(s)
                },
                None => None,
            },
            Referenceable::Tag(_, _, t) => Some(t.clone()),
        }
    }
}

} // verus!
