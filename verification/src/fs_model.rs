//! The filesystem command surface, stated over a model filesystem.
//!
//! Every frontend-visible filesystem command follows one shape: resolve the
//! path against the base directory, optionally repair a missing target
//! (`ensure_exists`), then perform one operation.  The decision content of
//! that shape is verified here over a model of the filesystem that records
//! which paths exist as files and which as directories.
//!
//! The shell around the library performs the real operations; it obtains
//! the decision for a target from [`ensure_plan`] and carries it out with
//! one call per action.  Operations whose success depends on the outside
//! world (the destination of a copy, move or write) take that outcome as
//! the `dest_ok` argument and state what holds of the model either way; in
//! particular every failing operation leaves the model exactly as it was.

use crate::paths::{notfound_marker, notfound_marker_path, parent_of, parent_path};
use crate::text::{str_eq, str_starts_with};
use vstd::prelude::*;

verus! {

/// An error returned by a filesystem operation.
#[derive(Debug, Clone, PartialEq, Eq)]
pub enum FsError {
    /// The target was missing and no repair was requested.
    NotFound { path: String },
    /// The target was missing and a placeholder marker was written beside
    /// it; `marker` is the path of that marker.
    PlaceholderCreated { marker: String },
    /// The destination of a copy, move or write could not be written.
    WriteFailed { path: String },
}

impl FsError {
    /// The error rendered as a message for the frontend.
    pub fn message(&self) -> (r: String)
        ensures
            self matches FsError::NotFound { path } ==> r@ == "File not found: "@ + path@,
            self matches FsError::PlaceholderCreated { marker } ==> r@
                == "File not found, created placeholder at "@ + marker@,
            self matches FsError::WriteFailed { path } ==> r@ == "Failed to write: "@ + path@,
    {
        match self {
            FsError::NotFound { path } => {
                let mut r = String::from_str("File not found: ");
                r.append(path.as_str());
                r
            },
            FsError::PlaceholderCreated { marker } => {
                let mut r = String::from_str("File not found, created placeholder at ");
                r.append(marker.as_str());
                r
            },
            FsError::WriteFailed { path } => {
                let mut r = String::from_str("Failed to write: ");
                r.append(path.as_str());
                r
            },
        }
    }
}

/// The set of paths a list of entries holds.
pub open spec fn path_set(l: Seq<String>) -> Set<Seq<char>> {
    Set::new(|p: Seq<char>| exists|i: int| 0 <= i < l.len() && l[i]@ == p)
}

/// No two entries of the list hold the same path.
pub open spec fn unique_views(l: Seq<String>) -> bool {
    forall|i: int, j: int| 0 <= i < j < l.len() ==> l[i]@ != l[j]@
}

/// `q` lies in the tree rooted at `root`: it is the root itself, or it
/// sits below it (the root followed by a separator and more).
pub open spec fn path_in_tree(q: Seq<char>, root: Seq<char>) -> bool {
    q == root || (q.len() > root.len() && q.subrange(0, root.len() as int) == root && q[
        root.len() as int
    ] == '/')
}

/// The members of `s` that survive deleting the whole tree at `root`.
pub open spec fn tree_removed(s: Set<Seq<char>>, root: Seq<char>) -> Set<Seq<char>> {
    Set::new(|q: Seq<char>| s.contains(q) && !path_in_tree(q, root))
}

/// The members of `s` inside the tree at `from`, each re-rooted at `to`.
pub open spec fn tree_image(s: Set<Seq<char>>, from: Seq<char>, to: Seq<char>) -> Set<Seq<char>> {
    Set::new(
        |q: Seq<char>|
            exists|r: Seq<char>|
                s.contains(r) && path_in_tree(r, from) && q == to + r.skip(from.len() as int),
    )
}

/// `s` after the whole tree at `from` moves to `to`.
pub open spec fn rerooted(s: Set<Seq<char>>, from: Seq<char>, to: Seq<char>) -> Set<Seq<char>> {
    tree_removed(s, from).union(tree_image(s, from, to))
}

/// `s` after the whole tree at `from` is copied to `to`.
pub open spec fn tree_copied(s: Set<Seq<char>>, from: Seq<char>, to: Seq<char>) -> Set<Seq<char>> {
    s.union(tree_image(s, from, to))
}

/// The directories a recursive directory creation establishes for `p`:
/// `p` itself and every nonempty prefix of `p` that a separator ends.
pub open spec fn dir_ancestors(p: Seq<char>) -> Set<Seq<char>> {
    Set::new(
        |q: Seq<char>|
            0 < q.len() && (q == p || (q.len() < p.len() && q == p.subrange(0, q.len() as int)
                && p[q.len() as int] == '/')),
    )
}

/// The proper ancestor directories of `p` shorter than `limit`.
spec fn dir_ancestors_below(p: Seq<char>, limit: int) -> Set<Seq<char>> {
    Set::new(
        |q: Seq<char>|
            0 < q.len() && q.len() < limit && q.len() < p.len() && q == p.subrange(
                0,
                q.len() as int,
            ) && p[q.len() as int] == '/',
    )
}

/// Whether `q` is `root` or lies below it.
fn in_tree(q: &String, root: &String) -> (r: bool)
    ensures
        r == path_in_tree(q@, root@),
{
    let qs = q.as_str();
    let rs = root.as_str();
    if str_eq(qs, rs) {
        true
    } else if qs.unicode_len() > rs.unicode_len() && str_starts_with(qs, rs) {
        qs.get_char(rs.unicode_len()) == '/'
    } else {
        false
    }
}

/// `to` with the part of `q` after its first `from_len` characters
/// appended.
fn rebase(q: &String, from_len: usize, to: &String) -> (r: String)
    requires
        from_len <= q@.len(),
    ensures
        r@ == to@ + q@.skip(from_len as int),
{
    let mut r = to.clone();
    let qs = q.as_str();
    r.append(qs.substring_char(from_len, qs.unicode_len()));
    proof {
        assert(r@ =~= to@ + q@.skip(from_len as int));
    }
    r
}

/// Whether the list holds `p`.
fn list_contains(l: &Vec<String>, p: &String) -> (r: bool)
    ensures
        r == path_set(l@).contains(p@),
{
    let mut i: usize = 0;
    while i < l.len()
        invariant
            i <= l@.len(),
            forall|j: int| 0 <= j < i ==> l@[j]@ != p@,
        decreases l@.len() - i,
    {
        if l[i] == *p {
            proof {
                assert(l@[i as int]@ == p@);
            }
            return true;
        }
        i = i + 1;
    }
    proof {
        if path_set(l@).contains(p@) {
            let k = choose|k: int| 0 <= k < l@.len() && l@[k]@ == p@;
            assert(l@[k]@ != p@);
        }
    }
    false
}

/// Adds `p` to the list unless it is already there.
fn list_insert(l: &mut Vec<String>, p: &String)
    requires
        unique_views(old(l)@),
    ensures
        unique_views(final(l)@),
        path_set(final(l)@) == path_set(old(l)@).insert(p@),
{
    if !list_contains(l, p) {
        let ghost before = l@;
        l.push(p.clone());
        proof {
            assert forall|q: Seq<char>| path_set(l@).contains(q) implies path_set(
                before,
            ).insert(p@).contains(q) by {
                let k = choose|k: int| 0 <= k < l@.len() && l@[k]@ == q;
                if k < before.len() {
                    assert(before[k]@ == q);
                }
            }
            assert forall|q: Seq<char>| path_set(before).insert(p@).contains(q) implies path_set(
                l@,
            ).contains(q) by {
                if q == p@ {
                    assert(l@[before.len() as int]@ == q);
                } else {
                    let k = choose|k: int| 0 <= k < before.len() && before[k]@ == q;
                    assert(l@[k]@ == q);
                }
            }
            assert(path_set(l@) =~= path_set(before).insert(p@));
            assert forall|i: int, j: int| 0 <= i < j < l@.len() implies l@[i]@ != l@[j]@ by {
                if j == l@.len() - 1 {
                    assert(!path_set(before).contains(l@[j]@));
                    assert(before[i]@ == l@[i]@);
                }
            }
        }
    } else {
        proof {
            assert(path_set(l@) =~= path_set(l@).insert(p@));
        }
    }
}

/// Removes the entry holding `p` from the list, if any.
fn list_remove(l: &mut Vec<String>, p: &String)
    requires
        unique_views(old(l)@),
    ensures
        unique_views(final(l)@),
        path_set(final(l)@) == path_set(old(l)@).remove(p@),
{
    let ghost before = l@;
    let mut i: usize = 0;
    while i < l.len()
        invariant
            i <= l@.len(),
            l@ == before,
            before == old(l)@,
            unique_views(before),
            forall|j: int| 0 <= j < i ==> l@[j]@ != p@,
        decreases l@.len() - i,
    {
        if l[i] == *p {
            l.remove(i);
            proof {
                assert forall|q: Seq<char>| path_set(l@).contains(q) implies path_set(
                    before,
                ).remove(p@).contains(q) by {
                    let k = choose|k: int| 0 <= k < l@.len() && l@[k]@ == q;
                    assert(before[i as int]@ == p@);
                    if k < i {
                        assert(before[k]@ == q);
                    } else {
                        assert(before[k + 1]@ == q);
                        assert(before[k + 1]@ != before[i as int]@);
                    }
                }
                assert forall|q: Seq<char>| path_set(before).remove(p@).contains(q) implies path_set(
                    l@,
                ).contains(q) by {
                    let k = choose|k: int| 0 <= k < before.len() && before[k]@ == q;
                    if k < i {
                        assert(l@[k]@ == q);
                    } else {
                        assert(before[i as int]@ == p@);
                        assert(k != i);
                        assert(l@[k - 1]@ == q);
                    }
                }
                assert(path_set(l@) =~= path_set(before).remove(p@));
                assert forall|a: int, b: int| 0 <= a < b < l@.len() implies l@[a]@ != l@[b]@ by {
                    let a2: int = if a < i { a } else { a + 1 };
                    let b2: int = if b < i { b } else { b + 1 };
                    assert(l@[a]@ == before[a2]@);
                    assert(l@[b]@ == before[b2]@);
                }
            }
            return ;
        }
        i = i + 1;
    }
    proof {
        if path_set(before).contains(p@) {
            let k = choose|k: int| 0 <= k < before.len() && before[k]@ == p@;
            assert(before[k]@ != p@);
        }
        assert(path_set(l@) =~= path_set(before).remove(p@));
    }
}

/// Some entry among the first `bound` of `l` lies in the tree at `from`
/// and re-roots to `q`.
spec fn rebased_from(l: Seq<String>, bound: int, from: Seq<char>, to: Seq<char>, q: Seq<char>) -> bool {
    exists|j: int|
        0 <= j < bound && path_in_tree(#[trigger] l[j]@, from) && q == to + l[j]@.skip(
            from.len() as int,
        )
}

/// The list holds an entry whose path is `q`.
spec fn appears(out: Seq<String>, q: Seq<char>) -> bool {
    exists|k: int| 0 <= k < out.len() && #[trigger] out[k]@ == q
}

/// The entries of `l` inside the tree at `from`, each re-rooted at `to`.
fn collect_tree_image(l: &Vec<String>, from: &String, to: &String) -> (out: Vec<String>)
    ensures
        path_set(out@) == tree_image(path_set(l@), from@, to@),
{
    let mut out: Vec<String> = Vec::new();
    let from_len = from.as_str().unicode_len();
    let mut i: usize = 0;
    while i < l.len()
        invariant
            i <= l@.len(),
            from_len == from@.len(),
            forall|k: int|
                0 <= k < out@.len() ==> rebased_from(l@, i as int, from@, to@, #[trigger] out@[k]@),
            forall|j: int|
                0 <= j < i && path_in_tree(#[trigger] l@[j]@, from@) ==> appears(
                    out@,
                    to@ + l@[j]@.skip(from@.len() as int),
                ),
        decreases l@.len() - i,
    {
        if in_tree(&l[i], from) {
            let t = rebase(&l[i], from_len, to);
            let ghost prev = out@;
            out.push(t);
            proof {
                assert forall|k: int| 0 <= k < out@.len() implies rebased_from(
                    l@,
                    i + 1,
                    from@,
                    to@,
                    #[trigger] out@[k]@,
                ) by {
                    if k < prev.len() {
                        assert(out@[k]@ == prev[k]@);
                        let j = choose|j: int|
                            0 <= j < i && path_in_tree(l@[j]@, from@) && prev[k]@ == to@
                                + l@[j]@.skip(from@.len() as int);
                        assert(path_in_tree(l@[j]@, from@));
                    } else {
                        assert(out@[k]@ == to@ + l@[i as int]@.skip(from@.len() as int));
                        assert(path_in_tree(l@[i as int]@, from@));
                    }
                }
                assert forall|j: int|
                    0 <= j < i + 1 && path_in_tree(#[trigger] l@[j]@, from@) implies appears(
                    out@,
                    to@ + l@[j]@.skip(from@.len() as int),
                ) by {
                    if j < i {
                        let k = choose|k: int|
                            0 <= k < prev.len() && prev[k]@ == to@ + l@[j]@.skip(
                                from@.len() as int,
                            );
                        assert(out@[k]@ == to@ + l@[j]@.skip(from@.len() as int));
                    } else {
                        assert(out@[prev.len() as int]@ == to@ + l@[j]@.skip(from@.len() as int));
                    }
                }
            }
        } else {
            proof {
                assert forall|k: int| 0 <= k < out@.len() implies rebased_from(
                    l@,
                    i + 1,
                    from@,
                    to@,
                    #[trigger] out@[k]@,
                ) by {
                    let j = choose|j: int|
                        0 <= j < i && path_in_tree(l@[j]@, from@) && out@[k]@ == to@ + l@[j]@.skip(
                            from@.len() as int,
                        );
                    assert(path_in_tree(l@[j]@, from@));
                }
            }
        }
        i = i + 1;
    }
    proof {
        assert forall|q: Seq<char>| path_set(out@).contains(q) implies tree_image(
            path_set(l@),
            from@,
            to@,
        ).contains(q) by {
            let k = choose|k: int| 0 <= k < out@.len() && out@[k]@ == q;
            let j = choose|j: int|
                0 <= j < i && path_in_tree(l@[j]@, from@) && out@[k]@ == to@ + l@[j]@.skip(
                    from@.len() as int,
                );
            assert(path_set(l@).contains(l@[j]@));
        }
        assert forall|q: Seq<char>| tree_image(path_set(l@), from@, to@).contains(q) implies path_set(
            out@,
        ).contains(q) by {
            let r = choose|r: Seq<char>|
                path_set(l@).contains(r) && path_in_tree(r, from@) && q == to@ + r.skip(
                    from@.len() as int,
                );
            let j = choose|j: int| 0 <= j < l@.len() && l@[j]@ == r;
            assert(path_in_tree(l@[j]@, from@));
            assert(appears(out@, to@ + l@[j]@.skip(from@.len() as int)));
            let k = choose|k: int|
                0 <= k < out@.len() && out@[k]@ == to@ + l@[j]@.skip(from@.len() as int);
            assert(path_set(out@).contains(out@[k]@));
        }
        assert(path_set(out@) =~= tree_image(path_set(l@), from@, to@));
    }
    out
}

/// Keeps only the entries outside the tree at `root`.
fn retain_outside_tree(l: &mut Vec<String>, root: &String)
    requires
        unique_views(old(l)@),
    ensures
        unique_views(final(l)@),
        path_set(final(l)@) == tree_removed(path_set(old(l)@), root@),
{
    let ghost before = l@;
    let mut out: Vec<String> = Vec::new();
    let mut i: usize = 0;
    while i < l.len()
        invariant
            i <= l@.len(),
            l@ == before,
            before == old(l)@,
            unique_views(before),
            unique_views(out@),
            forall|k: int|
                0 <= k < out@.len() ==> kept_from(l@, i as int, #[trigger] out@[k]@)
                    && !path_in_tree(out@[k]@, root@),
            forall|j: int|
                0 <= j < i && !path_in_tree(#[trigger] l@[j]@, root@) ==> appears(out@, l@[j]@),
        decreases l@.len() - i,
    {
        if !in_tree(&l[i], root) {
            let ghost prev = out@;
            out.push(l[i].clone());
            proof {
                assert forall|k: int| 0 <= k < out@.len() implies kept_from(
                    l@,
                    i + 1,
                    #[trigger] out@[k]@,
                ) && !path_in_tree(out@[k]@, root@) by {
                    if k < prev.len() {
                        assert(out@[k]@ == prev[k]@);
                        let j = choose|j: int| 0 <= j < i && l@[j]@ == prev[k]@;
                        assert(l@[j]@ == out@[k]@);
                    } else {
                        assert(out@[k]@ == l@[i as int]@);
                    }
                }
                assert forall|a: int, b: int| 0 <= a < b < out@.len() implies out@[a]@
                    != out@[b]@ by {
                    if b == out@.len() - 1 {
                        assert(out@[a]@ == prev[a]@);
                        let j = choose|j: int| 0 <= j < i && l@[j]@ == prev[a]@;
                        assert(l@[j]@ != l@[i as int]@);
                    }
                }
                assert forall|j: int|
                    0 <= j < i + 1 && !path_in_tree(#[trigger] l@[j]@, root@) implies appears(
                    out@,
                    l@[j]@,
                ) by {
                    if j < i {
                        let k = choose|k: int| 0 <= k < prev.len() && prev[k]@ == l@[j]@;
                        assert(out@[k]@ == l@[j]@);
                    } else {
                        assert(out@[prev.len() as int]@ == l@[j]@);
                    }
                }
            }
        }
        i = i + 1;
    }
    *l = out;
    proof {
        assert forall|q: Seq<char>| path_set(l@).contains(q) implies tree_removed(
            path_set(before),
            root@,
        ).contains(q) by {
            let k = choose|k: int| 0 <= k < l@.len() && l@[k]@ == q;
            let j = choose|j: int| 0 <= j < before.len() && before[j]@ == l@[k]@;
            assert(path_set(before).contains(before[j]@));
        }
        assert forall|q: Seq<char>| tree_removed(path_set(before), root@).contains(q) implies path_set(
            l@,
        ).contains(q) by {
            let j = choose|j: int| 0 <= j < before.len() && before[j]@ == q;
            assert(!path_in_tree(before[j]@, root@));
            assert(appears(l@, before[j]@));
            let k = choose|k: int| 0 <= k < l@.len() && l@[k]@ == before[j]@;
            assert(path_set(l@).contains(l@[k]@));
        }
        assert(path_set(l@) =~= tree_removed(path_set(before), root@));
    }
}

/// Some entry among the first `bound` of `l` has the path `q`.
spec fn kept_from(l: Seq<String>, bound: int, q: Seq<char>) -> bool {
    exists|j: int| 0 <= j < bound && #[trigger] l[j]@ == q
}

/// Adds every entry of `items` to the list.
fn insert_all(l: &mut Vec<String>, items: &Vec<String>)
    requires
        unique_views(old(l)@),
    ensures
        unique_views(final(l)@),
        path_set(final(l)@) == path_set(old(l)@).union(path_set(items@)),
{
    let mut i: usize = 0;
    proof {
        assert(path_set(l@) =~= path_set(old(l)@).union(path_set(items@.take(0))));
    }
    while i < items.len()
        invariant
            i <= items@.len(),
            unique_views(l@),
            path_set(l@) == path_set(old(l)@).union(path_set(items@.take(i as int))),
        decreases items@.len() - i,
    {
        list_insert(l, &items[i]);
        proof {
            let ghost longer = items@.take(i + 1);
            let ghost shorter = items@.take(i as int);
            assert forall|q: Seq<char>| path_set(longer).contains(q) implies path_set(
                shorter,
            ).insert(items@[i as int]@).contains(q) by {
                let k = choose|k: int| 0 <= k < longer.len() && longer[k]@ == q;
                if k < i {
                    assert(shorter[k]@ == q);
                }
            }
            assert forall|q: Seq<char>|
                path_set(shorter).insert(items@[i as int]@).contains(q) implies path_set(
                longer,
            ).contains(q) by {
                if q == items@[i as int]@ {
                    assert(longer[i as int]@ == q);
                } else {
                    let k = choose|k: int| 0 <= k < shorter.len() && shorter[k]@ == q;
                    assert(longer[k]@ == q);
                }
            }
            assert(path_set(longer) =~= path_set(shorter).insert(items@[i as int]@));
            assert(path_set(l@) =~= path_set(old(l)@).union(path_set(longer)));
        }
        i = i + 1;
    }
    proof {
        assert(items@.take(items@.len() as int) =~= items@);
    }
}

/// Inserts `p` and every directory prefix above it, as a recursive
/// directory creation does.
fn insert_ancestors(l: &mut Vec<String>, p: &String)
    requires
        unique_views(old(l)@),
    ensures
        unique_views(final(l)@),
        path_set(final(l)@) == path_set(old(l)@).union(dir_ancestors(p@)),
{
    let s = p.as_str();
    let n = s.unicode_len();
    let mut i: usize = 0;
    proof {
        assert(path_set(l@) =~= path_set(old(l)@).union(dir_ancestors_below(p@, 0)));
    }
    while i < n
        invariant
            i <= n,
            n == p@.len(),
            s@ == p@,
            unique_views(l@),
            path_set(l@) == path_set(old(l)@).union(dir_ancestors_below(p@, i as int)),
        decreases n - i,
    {
        if i > 0 && s.get_char(i) == '/' {
            let prefix = String::from_str(s.substring_char(0, i));
            list_insert(l, &prefix);
            proof {
                assert(prefix@ == p@.subrange(0, i as int));
                assert forall|q: Seq<char>| dir_ancestors_below(p@, i + 1).contains(
                    q,
                ) implies dir_ancestors_below(p@, i as int).insert(prefix@).contains(q) by {
                    if q.len() == i {
                        assert(q =~= prefix@);
                    }
                }
                assert(dir_ancestors_below(p@, i + 1) =~= dir_ancestors_below(p@, i as int).insert(
                    prefix@,
                ));
                assert(path_set(l@) =~= path_set(old(l)@).union(dir_ancestors_below(p@, i + 1)));
            }
        } else {
            proof {
                assert forall|q: Seq<char>| dir_ancestors_below(p@, i + 1).contains(
                    q,
                ) implies dir_ancestors_below(p@, i as int).contains(q) by {
                    if q.len() == i {
                        assert(p@[i as int] == '/' && i > 0);
                    }
                }
                assert(dir_ancestors_below(p@, i + 1) =~= dir_ancestors_below(p@, i as int));
            }
        }
        i = i + 1;
    }
    if n > 0 {
        list_insert(l, p);
    }
    proof {
        assert forall|q: Seq<char>| dir_ancestors(p@).contains(q) implies (dir_ancestors_below(
            p@,
            n as int,
        ).insert(p@).contains(q) || (n == 0 && false)) by {
            if q != p@ {
                assert(q.len() < p@.len());
            }
        }
        if n > 0 {
            assert(dir_ancestors(p@) =~= dir_ancestors_below(p@, n as int).insert(p@));
            assert(path_set(l@) =~= path_set(old(l)@).union(dir_ancestors(p@)));
        } else {
            assert(dir_ancestors(p@) =~= dir_ancestors_below(p@, 0));
            assert(path_set(l@) =~= path_set(old(l)@).union(dir_ancestors(p@)));
        }
    }
}

/// A tree image holds the re-rooted root itself.
proof fn lemma_image_holds_root(s: Set<Seq<char>>, from: Seq<char>, to: Seq<char>)
    ensures
        s.contains(from) ==> tree_image(s, from, to).contains(to),
{
    if s.contains(from) {
        assert(to + from.skip(from.len() as int) =~= to);
        assert(path_in_tree(from, from));
    }
}

/// After the tree at `from` moves somewhere outside itself, nothing
/// remains at `from`.
proof fn lemma_rerooted_drops_root(s: Set<Seq<char>>, from: Seq<char>, to: Seq<char>)
    ensures
        !path_in_tree(from, to) ==> !rerooted(s, from, to).contains(from),
{
    if !path_in_tree(from, to) {
        assert(path_in_tree(from, from));
        if tree_image(s, from, to).contains(from) {
            let r = choose|r: Seq<char>|
                s.contains(r) && path_in_tree(r, from) && from == to + r.skip(from.len() as int);
            let suffix = r.skip(from.len() as int);
            if r == from {
                assert(suffix =~= Seq::<char>::empty());
                assert(to + suffix =~= to);
                assert(from == to);
            } else {
                assert(r.len() > from.len());
                assert(suffix[0] == r[from.len() as int]);
                assert(from.len() == to.len() + suffix.len());
                assert(from.subrange(0, to.len() as int) =~= to);
                assert(from[to.len() as int] == suffix[0]);
                assert(path_in_tree(from, to));
            }
        }
    }
}

/// A model filesystem: the set of paths that exist as files and the set
/// that exist as directories.
pub struct FsModel {
    files: Vec<String>,
    dirs: Vec<String>,
}

impl FsModel {
    /// The paths that exist as files.
    pub closed spec fn files(self) -> Set<Seq<char>> {
        path_set(self.files@)
    }

    /// The paths that exist as directories.
    pub closed spec fn dirs(self) -> Set<Seq<char>> {
        path_set(self.dirs@)
    }

    /// Internal well-formedness: no path is recorded twice.
    pub closed spec fn wf(self) -> bool {
        unique_views(self.files@) && unique_views(self.dirs@)
    }

    /// Whether something exists at `p`, as a file or as a directory.
    pub open spec fn entry_exists(self, p: Seq<char>) -> bool {
        self.files().contains(p) || self.dirs().contains(p)
    }

    /// Whether `self` and `other` hold exactly the same entries.
    pub open spec fn same_entries(self, other: FsModel) -> bool {
        self.files() == other.files() && self.dirs() == other.dirs()
    }

    /// An empty filesystem.
    pub fn new() -> (r: FsModel)
        ensures
            r.wf(),
            r.files() == Set::<Seq<char>>::empty(),
            r.dirs() == Set::<Seq<char>>::empty(),
    {
        let r = FsModel { files: Vec::new(), dirs: Vec::new() };
        proof {
            assert(r.files() =~= Set::<Seq<char>>::empty());
            assert(r.dirs() =~= Set::<Seq<char>>::empty());
        }
        r
    }

    /// Whether a file exists at `path`.
    pub fn file_exists(&self, path: &String) -> (r: bool)
        ensures
            r == self.files().contains(path@),
    {
        list_contains(&self.files, path)
    }

    /// Whether a directory exists at `path`.
    pub fn dir_exists(&self, path: &String) -> (r: bool)
        ensures
            r == self.dirs().contains(path@),
    {
        list_contains(&self.dirs, path)
    }

    /// Whether anything exists at `path`.
    pub fn path_exists(&self, path: &String) -> (r: bool)
        ensures
            r == self.entry_exists(path@),
    {
        list_contains(&self.files, path) || list_contains(&self.dirs, path)
    }

    /// Repairs a missing target before an operation touches it.
    ///
    /// When the parent directory is missing and either flag is set, the
    /// parent is created first.  A missing target is then created empty
    /// under `create_empty`; under `create_placeholder` a marker file is
    /// written beside it and the call fails naming the marker; with
    /// neither flag the call fails and nothing is touched.  An existing
    /// target always succeeds.
    pub fn ensure_exists(&mut self, path: &String, create_empty: bool, create_placeholder: bool) -> (r:
        Result<(), FsError>)
        requires
            old(self).wf(),
        ensures
            final(self).wf(),
            final(self).dirs() == dirs_after_parent_step(*old(self), path@, create_empty, create_placeholder),
            (r is Ok) == (old(self).entry_exists(path@) || create_empty),
            old(self).entry_exists(path@) ==> final(self).files() == old(self).files(),
            !old(self).entry_exists(path@) && create_empty
                ==> final(self).files() == old(self).files().insert(path@),
            !old(self).entry_exists(path@) && !create_empty && create_placeholder
                ==> final(self).files() == old(self).files().insert(notfound_marker(path@))
                    && err_is_placeholder(r, notfound_marker(path@)),
            !old(self).entry_exists(path@) && !create_empty && !create_placeholder
                ==> final(self).files() == old(self).files() && err_is_not_found(r, path@),
            // With `create_empty` the target exists afterwards, as a fresh
            // file when it was missing.
            create_empty ==> r is Ok && final(self).entry_exists(path@)
                && (!old(self).entry_exists(path@) ==> final(self).files().contains(path@)),
            // With neither flag set the filesystem is untouched.
            !create_empty && !create_placeholder ==> final(self).same_entries(*old(self)),
    {
        let parent_missing = match parent_path(path) {
            Some(par) => !self.path_exists(&par),
            None => false,
        };
        let target_exists = self.path_exists(path);
        let plan = ensure_plan(parent_missing, target_exists, create_empty, create_placeholder, path);
        if plan.create_parent {
            match parent_path(path) {
                Some(par) => insert_ancestors(&mut self.dirs, &par),
                None => (),
            }
        }
        proof {
            if !(create_empty || create_placeholder) || parent_of(path@) is None || !parent_missing {
                assert(self.dirs() =~= dirs_after_parent_step(
                    *old(self),
                    path@,
                    create_empty,
                    create_placeholder,
                ));
            }
        }
        match plan.action {
            EnsureAction::AlreadyPresent => Ok(()),
            EnsureAction::CreateEmptyFile => {
                list_insert(&mut self.files, path);
                Ok(())
            },
            EnsureAction::WriteMarker { marker } => {
                list_insert(&mut self.files, &marker);
                Err(FsError::PlaceholderCreated { marker })
            },
            EnsureAction::FailNotFound => Err(FsError::NotFound { path: path.clone() }),
        }
    }

    /// Creates the directory at `path`: the directory itself and every
    /// ancestor above it, as the recursive creation call does.
    pub fn create_dir(&mut self, path: &String)
        requires
            old(self).wf(),
        ensures
            final(self).wf(),
            final(self).dirs() == old(self).dirs().union(dir_ancestors(path@)),
            final(self).files() == old(self).files(),
    {
        insert_ancestors(&mut self.dirs, path);
    }

    /// Removes the file at `path`; fails without touching anything when no
    /// file is there.  The removal itself is taken as succeeding on an
    /// existing entry; only writes to a destination carry an outcome
    /// argument.
    pub fn remove_file(&mut self, path: &String) -> (r: Result<(), FsError>)
        requires
            old(self).wf(),
        ensures
            final(self).wf(),
            (r is Ok) == old(self).files().contains(path@),
            r is Ok ==> final(self).files() == old(self).files().remove(path@)
                && final(self).dirs() == old(self).dirs(),
            r is Err ==> final(self).same_entries(*old(self)) && err_is_not_found(r, path@),
    {
        if list_contains(&self.files, path) {
            list_remove(&mut self.files, path);
            Ok(())
        } else {
            Err(FsError::NotFound { path: path.clone() })
        }
    }

    /// Removes the directory at `path` and, with it, every recorded
    /// entry below it, as the recursive removal call does; fails without
    /// touching anything when no directory is there.  As with file
    /// removal, the removal itself is taken as succeeding on an existing
    /// entry.
    pub fn remove_dir(&mut self, path: &String) -> (r: Result<(), FsError>)
        requires
            old(self).wf(),
        ensures
            final(self).wf(),
            (r is Ok) == old(self).dirs().contains(path@),
            r is Ok ==> final(self).dirs() == tree_removed(old(self).dirs(), path@)
                && final(self).files() == tree_removed(old(self).files(), path@),
            r is Err ==> final(self).same_entries(*old(self)) && err_is_not_found(r, path@),
    {
        if list_contains(&self.dirs, path) {
            retain_outside_tree(&mut self.dirs, path);
            retain_outside_tree(&mut self.files, path);
            Ok(())
        } else {
            Err(FsError::NotFound { path: path.clone() })
        }
    }

    /// Moves the entry at `old_path`, and everything recorded below it,
    /// to `new_path`.  `dest_ok` is whether the destination can be
    /// written, which only the real filesystem knows; a failed move
    /// leaves everything, the source included, exactly as it was.
    pub fn rename_entry(&mut self, old_path: &String, new_path: &String, dest_ok: bool) -> (r:
        Result<(), FsError>)
        requires
            old(self).wf(),
        ensures
            final(self).wf(),
            (r is Ok) == (old(self).entry_exists(old_path@) && dest_ok),
            r is Err ==> final(self).same_entries(*old(self)),
            !old(self).entry_exists(old_path@) ==> err_is_not_found(r, old_path@),
            old(self).entry_exists(old_path@) && !dest_ok ==> err_is_write_failed(r, new_path@),
            r is Ok ==> final(self).files() == rerooted(old(self).files(), old_path@, new_path@)
                && final(self).dirs() == rerooted(old(self).dirs(), old_path@, new_path@),
            // The moved root is reachable at the new path ...
            r is Ok && old(self).files().contains(old_path@) ==> final(self).files().contains(
                new_path@,
            ),
            r is Ok && old(self).dirs().contains(old_path@) ==> final(self).dirs().contains(
                new_path@,
            ),
            // ... and gone from the old one, unless the destination sits
            // inside the source's own tree.
            r is Ok && !path_in_tree(old_path@, new_path@) ==> !final(self).entry_exists(
                old_path@,
            ),
    {
        if !self.path_exists(old_path) {
            Err(FsError::NotFound { path: old_path.clone() })
        } else if !dest_ok {
            Err(FsError::WriteFailed { path: new_path.clone() })
        } else {
            let fimg = collect_tree_image(&self.files, old_path, new_path);
            let dimg = collect_tree_image(&self.dirs, old_path, new_path);
            retain_outside_tree(&mut self.files, old_path);
            insert_all(&mut self.files, &fimg);
            retain_outside_tree(&mut self.dirs, old_path);
            insert_all(&mut self.dirs, &dimg);
            proof {
                assert(self.files() =~= rerooted(old(self).files(), old_path@, new_path@));
                assert(self.dirs() =~= rerooted(old(self).dirs(), old_path@, new_path@));
                lemma_image_holds_root(old(self).files(), old_path@, new_path@);
                lemma_image_holds_root(old(self).dirs(), old_path@, new_path@);
                lemma_rerooted_drops_root(old(self).files(), old_path@, new_path@);
                lemma_rerooted_drops_root(old(self).dirs(), old_path@, new_path@);
            }
            Ok(())
        }
    }

    /// Copies the file at `src` to `dst`.  `dest_ok` is whether the
    /// destination can be written; a failed copy leaves everything, the
    /// source included, exactly as it was, and a successful one leaves the
    /// source in place beside the new entry.
    pub fn copy_file_entry(&mut self, src: &String, dst: &String, dest_ok: bool) -> (r: Result<
        (),
        FsError,
    >)
        requires
            old(self).wf(),
        ensures
            final(self).wf(),
            (r is Ok) == (old(self).files().contains(src@) && dest_ok),
            r is Err ==> final(self).same_entries(*old(self)),
            !old(self).files().contains(src@) ==> err_is_not_found(r, src@),
            old(self).files().contains(src@) && !dest_ok ==> err_is_write_failed(r, dst@),
            r is Ok ==> final(self).files() == old(self).files().insert(dst@)
                && final(self).dirs() == old(self).dirs() && final(self).files().contains(src@),
    {
        if !list_contains(&self.files, src) {
            Err(FsError::NotFound { path: src.clone() })
        } else if !dest_ok {
            Err(FsError::WriteFailed { path: dst.clone() })
        } else {
            list_insert(&mut self.files, dst);
            proof {
                assert(self.files().contains(src@));
            }
            Ok(())
        }
    }

    /// Copies the directory at `src`, and everything recorded below it,
    /// to `dst`.  `dest_ok` is whether the destination can be written; a
    /// failed copy leaves everything, the source included, exactly as it
    /// was, and a successful one leaves the source tree in place beside
    /// the copy.
    pub fn copy_dir_entry(&mut self, src: &String, dst: &String, dest_ok: bool) -> (r: Result<
        (),
        FsError,
    >)
        requires
            old(self).wf(),
        ensures
            final(self).wf(),
            (r is Ok) == (old(self).dirs().contains(src@) && dest_ok),
            r is Err ==> final(self).same_entries(*old(self)),
            !old(self).dirs().contains(src@) ==> err_is_not_found(r, src@),
            old(self).dirs().contains(src@) && !dest_ok ==> err_is_write_failed(r, dst@),
            r is Ok ==> final(self).files() == tree_copied(old(self).files(), src@, dst@)
                && final(self).dirs() == tree_copied(old(self).dirs(), src@, dst@)
                && final(self).dirs().contains(src@) && final(self).dirs().contains(dst@),
    {
        if !list_contains(&self.dirs, src) {
            Err(FsError::NotFound { path: src.clone() })
        } else if !dest_ok {
            Err(FsError::WriteFailed { path: dst.clone() })
        } else {
            let fimg = collect_tree_image(&self.files, src, dst);
            let dimg = collect_tree_image(&self.dirs, src, dst);
            insert_all(&mut self.files, &fimg);
            insert_all(&mut self.dirs, &dimg);
            proof {
                assert(self.files() =~= tree_copied(old(self).files(), src@, dst@));
                assert(self.dirs() =~= tree_copied(old(self).dirs(), src@, dst@));
                lemma_image_holds_root(old(self).dirs(), src@, dst@);
                assert(self.dirs().contains(src@));
            }
            Ok(())
        }
    }

    /// Records a write of content to `path`: the write creates the file
    /// when it is missing.  `dest_ok` is whether the destination can be
    /// written; a failed write leaves everything as it was.
    pub fn write_file_entry(&mut self, path: &String, dest_ok: bool) -> (r: Result<(), FsError>)
        requires
            old(self).wf(),
        ensures
            final(self).wf(),
            (r is Ok) == dest_ok,
            r is Err ==> final(self).same_entries(*old(self)) && err_is_write_failed(r, path@),
            r is Ok ==> final(self).files() == old(self).files().insert(path@)
                && final(self).dirs() == old(self).dirs(),
    {
        if dest_ok {
            list_insert(&mut self.files, path);
            Ok(())
        } else {
            Err(FsError::WriteFailed { path: path.clone() })
        }
    }
}

/// The result failed with a not-found error naming `path`.
pub open spec fn err_is_not_found<T>(r: Result<T, FsError>, path: Seq<char>) -> bool {
    match r {
        Err(FsError::NotFound { path: q }) => q@ == path,
        _ => false,
    }
}

/// The result failed naming a placeholder written at `marker`.
pub open spec fn err_is_placeholder<T>(r: Result<T, FsError>, marker: Seq<char>) -> bool {
    match r {
        Err(FsError::PlaceholderCreated { marker: m }) => m@ == marker,
        _ => false,
    }
}

/// The result failed because a destination at `path` could not be written.
pub open spec fn err_is_write_failed<T>(r: Result<T, FsError>, path: Seq<char>) -> bool {
    match r {
        Err(FsError::WriteFailed { path: q }) => q@ == path,
        _ => false,
    }
}

/// The directory set after the parent-repair step of `ensure_exists`:
/// when the target has a parent, nothing exists there, and either repair
/// flag is set, the parent directory and every missing ancestor above it
/// are created.
pub open spec fn dirs_after_parent_step(
    fs: FsModel,
    path: Seq<char>,
    create_empty: bool,
    create_placeholder: bool,
) -> Set<Seq<char>> {
    match parent_of(path) {
        Some(par) => if (create_empty || create_placeholder) && !fs.entry_exists(par) {
            fs.dirs().union(dir_ancestors(par))
        } else {
            fs.dirs()
        },
        None => fs.dirs(),
    }
}

/// The one repair action `ensure_exists` takes at the target itself.
#[derive(Debug, Clone, PartialEq, Eq)]
pub enum EnsureAction {
    /// The target exists: nothing to do.
    AlreadyPresent,
    /// Create an empty file at the target and succeed.
    CreateEmptyFile,
    /// Write a placeholder at `marker` and fail naming it.
    WriteMarker { marker: String },
    /// Fail with a not-found error.
    FailNotFound,
}

/// What `ensure_exists` decides for a target: whether to create the parent
/// directory first, and what to do at the target.
#[derive(Debug, Clone, PartialEq, Eq)]
pub struct EnsurePlan {
    /// Create the missing parent directory before anything else.
    pub create_parent: bool,
    /// What to do at the target itself.
    pub action: EnsureAction,
}

/// The action part of a plan is the right one for the given target state
/// and flags.
pub open spec fn planned_action(
    target_exists: bool,
    create_empty: bool,
    create_placeholder: bool,
    path: Seq<char>,
    a: EnsureAction,
) -> bool {
    if target_exists {
        a is AlreadyPresent
    } else if create_empty {
        a is CreateEmptyFile
    } else if create_placeholder {
        a matches EnsureAction::WriteMarker { marker } && marker@ == notfound_marker(path)
    } else {
        a is FailNotFound
    }
}

/// Decides what `ensure_exists` does for a target in the given state: the
/// shell queries the real filesystem for the two existence bits, asks for
/// the plan, and performs it with one call per action.
pub fn ensure_plan(
    parent_missing: bool,
    target_exists: bool,
    create_empty: bool,
    create_placeholder: bool,
    path: &String,
) -> (p: EnsurePlan)
    ensures
        p.create_parent == (parent_missing && (create_empty || create_placeholder)),
        planned_action(target_exists, create_empty, create_placeholder, path@, p.action),
{
    let create_parent = parent_missing && (create_empty || create_placeholder);
    let action = if target_exists {
        EnsureAction::AlreadyPresent
    } else if create_empty {
        EnsureAction::CreateEmptyFile
    } else if create_placeholder {
        EnsureAction::WriteMarker { marker: notfound_marker_path(path) }
    } else {
        EnsureAction::FailNotFound
    };
    EnsurePlan { create_parent, action }
}

} // verus!
