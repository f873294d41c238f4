//! Path resolution against a base directory.
//!
//! A path is a string; it is absolute exactly when it starts with the
//! separator character `/`.  A relative path is resolved by joining it to a
//! configured base directory.  Resolution of an absolute path is the
//! identity; resolution of a relative path is the concatenation of the base
//! directory, a single separator, and the path.

use vstd::prelude::*;

verus! {

/// A path is absolute when its first character is the separator.
pub open spec fn is_absolute_path(s: Seq<char>) -> bool {
    s.len() > 0 && s[0] == '/'
}

/// The join of a base directory and a relative path: the concatenation of
/// the two with exactly one separator between them.
pub open spec fn joined_path(base: Seq<char>, rel: Seq<char>) -> Seq<char> {
    if base.len() > 0 && base[base.len() - 1] == '/' {
        base + rel
    } else {
        base + seq!['/'] + rel
    }
}

/// What resolution returns: an absolute path unchanged, a relative path
/// joined onto the base directory.
pub open spec fn resolved_path(path: Seq<char>, base: Seq<char>) -> Seq<char> {
    if is_absolute_path(path) {
        path
    } else {
        joined_path(base, path)
    }
}

/// Whether `path` is absolute.
pub fn path_is_absolute(path: &String) -> (r: bool)
    ensures
        r == is_absolute_path(path@),
{
    let s = path.as_str();
    if s.unicode_len() == 0 {
        false
    } else {
        s.get_char(0) == '/'
    }
}

/// Resolves `path` against the base directory `base`: an absolute path is
/// returned unchanged, a relative one is joined onto `base`.
pub fn resolve(path: &String, base: &String) -> (r: String)
    ensures
        r@ == resolved_path(path@, base@),
{
    if path_is_absolute(path) {
        path.clone()
    } else {
        let mut r = base.clone();
        let b = base.as_str();
        let n = b.unicode_len();
        if n == 0 || b.get_char(n - 1) != '/' {
            r.append("/");
            proof {
                reveal_strlit("/");
                assert(r@ =~= base@ + seq!['/']);
            }
        }
        r.append(path.as_str());
        proof {
            assert(r@ =~= resolved_path(path@, base@));
        }
        r
    }
}

/// The index of the last occurrence of `c` in `s`, or `-1` when `c` does
/// not occur.
pub open spec fn last_index_of(s: Seq<char>, c: char) -> int
    decreases s.len(),
{
    if s.len() == 0 {
        -1
    } else if s[s.len() - 1] == c {
        s.len() - 1
    } else {
        last_index_of(s.drop_last(), c)
    }
}

/// What `last_index_of` returns: a valid index of an occurrence of `c`
/// after which `c` does not occur again, or `-1` when `c` never occurs.
pub proof fn lemma_last_index_of_props(s: Seq<char>, c: char)
    ensures
        -1 <= last_index_of(s, c) < s.len(),
        last_index_of(s, c) >= 0 ==> s[last_index_of(s, c)] == c,
        forall|j: int| last_index_of(s, c) < j < s.len() ==> s[j] != c,
    decreases s.len(),
{
    if s.len() > 0 && s[s.len() - 1] != c {
        lemma_last_index_of_props(s.drop_last(), c);
        assert forall|j: int| last_index_of(s, c) < j < s.len() implies s[j] != c by {
            if j < s.len() - 1 {
                assert(s.drop_last()[j] == s[j]);
            }
        }
    }
}

/// An occurrence of `c` that no later occurrence follows is the last one.
pub proof fn lemma_last_index_of_unique(s: Seq<char>, c: char, i: int)
    requires
        0 <= i < s.len(),
        s[i] == c,
        forall|j: int| i < j < s.len() ==> s[j] != c,
    ensures
        last_index_of(s, c) == i,
    decreases s.len(),
{
    if i < s.len() - 1 {
        assert(s.drop_last()[i] == s[i]);
        assert forall|j: int| i < j < s.drop_last().len() implies s.drop_last()[j] != c by {
            assert(s.drop_last()[j] == s[j]);
        }
        lemma_last_index_of_unique(s.drop_last(), c, i);
    }
}

/// When `c` occurs nowhere in `s`, `last_index_of` is `-1`.
pub proof fn lemma_last_index_of_absent(s: Seq<char>, c: char)
    requires
        forall|j: int| 0 <= j < s.len() ==> s[j] != c,
    ensures
        last_index_of(s, c) == -1,
{
    lemma_last_index_of_props(s, c);
    if last_index_of(s, c) >= 0 {
        assert(s[last_index_of(s, c)] == c);
    }
}

/// The index of the last occurrence of `c` in `s`, if any.
fn rfind_char(s: &str, c: char) -> (r: Option<usize>)
    ensures
        match r {
            Some(i) => i < s@.len() && last_index_of(s@, c) == i as int,
            None => last_index_of(s@, c) == -1,
        },
{
    let n = s.unicode_len();
    let mut i = n;
    while i > 0
        invariant
            i <= n,
            n == s@.len(),
            forall|j: int| i <= j < s@.len() ==> s@[j] != c,
        decreases i,
    {
        i = i - 1;
        if s.get_char(i) == c {
            proof {
                lemma_last_index_of_unique(s@, c, i as int);
            }
            return Some(i);
        }
    }
    proof {
        lemma_last_index_of_absent(s@, c);
    }
    None
}

/// The parent of a path: everything before the last separator, or nothing
/// when the path has no directory component.  A child of the root, such
/// as `/x`, has the empty parent, which names the root itself.
pub open spec fn parent_of(s: Seq<char>) -> Option<Seq<char>> {
    if last_index_of(s, '/') >= 0 {
        Some(s.subrange(0, last_index_of(s, '/')))
    } else {
        None
    }
}

/// The parent directory of `path`, if the path names one.
pub fn parent_path(path: &String) -> (r: Option<String>)
    ensures
        match r {
            Some(p) => parent_of(path@) matches Some(q) && p@ == q,
            None => parent_of(path@) is None,
        },
{
    let s = path.as_str();
    match rfind_char(s, '/') {
        Some(i) => Some(String::from_str(s.substring_char(0, i))),
        None => None,
    }
}

/// The suffix appended, after the extension is cut off, to name the marker
/// written beside a missing target.
pub open spec fn notfound_suffix() -> Seq<char> {
    seq!['.', 'n', 'o', 't', 'f', 'o', 'u', 'n', 'd']
}

/// The marker path recorded for a missing target: the path with its
/// extension replaced by `notfound`.  The extension is what follows the
/// last dot of the final path component, a dot that starts the component
/// not counting; a path without an extension gets the suffix appended
/// whole.
pub open spec fn notfound_marker(s: Seq<char>) -> Seq<char> {
    let dot = last_index_of(s, '.');
    let slash = last_index_of(s, '/');
    if dot > slash + 1 {
        s.subrange(0, dot) + notfound_suffix()
    } else {
        s + notfound_suffix()
    }
}

/// The marker path for a missing target at `path`: the path with its
/// extension replaced by `notfound`.
pub fn notfound_marker_path(path: &String) -> (r: String)
    ensures
        r@ == notfound_marker(path@),
{
    let s = path.as_str();
    let dot = rfind_char(s, '.');
    let slash = rfind_char(s, '/');
    let keep_whole = match (dot, slash) {
        (None, _) => true,
        (Some(d), None) => d == 0,
        (Some(d), Some(k)) => d == 0 || d - 1 <= k,
    };
    let mut r = if keep_whole {
        path.clone()
    } else {
        let d = match dot {
            Some(d) => d,
            None => 0,
        };
        String::from_str(s.substring_char(0, d))
    };
    r.append(".notfound");
    proof {
        reveal_strlit(".notfound");
        assert(".notfound"@ =~= notfound_suffix());
        assert(r@ =~= notfound_marker(path@));
    }
    r
}

/// Resolution of an absolute path is the identity.
pub proof fn lemma_resolve_absolute_identity(path: Seq<char>, base: Seq<char>)
    requires
        is_absolute_path(path),
    ensures
        resolved_path(path, base) == path,
{
}

/// Resolution of a relative path is the concatenation of the base
/// directory, one separator, and the path.
pub proof fn lemma_resolve_relative_concat(path: Seq<char>, base: Seq<char>)
    requires
        !is_absolute_path(path),
        base.len() == 0 || base[base.len() - 1] != '/',
    ensures
        resolved_path(path, base) == base + seq!['/'] + path,
{
}

} // verus!
