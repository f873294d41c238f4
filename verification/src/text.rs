//! Small string operations used by the argument and path logic: equality,
//! prefix tests, and the whitespace split that turns a program's argument
//! string into its argument list.

use vstd::prelude::*;

verus! {

/// The characters the argument split treats as whitespace: the Unicode
/// White_Space set, the one `str::split_whitespace` separates on.
pub open spec fn is_space_char(c: char) -> bool {
    c == '\u{0009}' || c == '\u{000A}' || c == '\u{000B}' || c == '\u{000C}' || c == '\u{000D}'
        || c == '\u{0020}' || c == '\u{0085}' || c == '\u{00A0}' || c == '\u{1680}'
        || c == '\u{2000}' || c == '\u{2001}' || c == '\u{2002}' || c == '\u{2003}'
        || c == '\u{2004}' || c == '\u{2005}' || c == '\u{2006}' || c == '\u{2007}'
        || c == '\u{2008}' || c == '\u{2009}' || c == '\u{200A}' || c == '\u{2028}'
        || c == '\u{2029}' || c == '\u{202F}' || c == '\u{205F}' || c == '\u{3000}'
}

/// The length of the leading run of non-whitespace characters.
pub open spec fn run_len(s: Seq<char>) -> int
    decreases s.len(),
{
    if s.len() == 0 || is_space_char(s[0]) {
        0
    } else {
        1 + run_len(s.skip(1))
    }
}

/// The leading non-whitespace run is never longer than the string, and is
/// nonempty exactly when the string starts with a non-whitespace
/// character.
pub proof fn lemma_run_len_bounds(s: Seq<char>)
    ensures
        0 <= run_len(s) <= s.len(),
        s.len() > 0 && !is_space_char(s[0]) ==> run_len(s) >= 1,
    decreases s.len(),
{
    if s.len() > 0 && !is_space_char(s[0]) {
        lemma_run_len_bounds(s.skip(1));
    }
}

/// A scan that sees `k` non-whitespace characters and then whitespace or
/// the end has found the leading run.
pub proof fn lemma_run_len_of_scan(s: Seq<char>, k: int)
    requires
        0 <= k <= s.len(),
        forall|m: int| 0 <= m < k ==> !is_space_char(s[m]),
        k == s.len() || is_space_char(s[k]),
    ensures
        run_len(s) == k,
    decreases k,
{
    if k > 0 {
        assert forall|m: int| 0 <= m < k - 1 implies !is_space_char(s.skip(1)[m]) by {
            assert(s.skip(1)[m] == s[m + 1]);
        }
        if k < s.len() {
            assert(s.skip(1)[k - 1] == s[k]);
        }
        lemma_run_len_of_scan(s.skip(1), k - 1);
    }
}

/// The whitespace split of a string: its maximal runs of non-whitespace
/// characters, in order.
pub open spec fn spec_split_ws(s: Seq<char>) -> Seq<Seq<char>>
    decreases s.len(),
    via spec_split_ws_decreases
{
    if s.len() == 0 {
        Seq::empty()
    } else if is_space_char(s[0]) {
        spec_split_ws(s.skip(1))
    } else {
        seq![s.subrange(0, run_len(s))] + spec_split_ws(s.skip(run_len(s)))
    }
}

#[via_fn]
proof fn spec_split_ws_decreases(s: Seq<char>) {
    lemma_run_len_bounds(s);
}

/// Whether the argument split treats `c` as whitespace.
fn is_space(c: char) -> (r: bool)
    ensures
        r == is_space_char(c),
{
    c == '\u{0009}' || c == '\u{000A}' || c == '\u{000B}' || c == '\u{000C}' || c == '\u{000D}'
        || c == '\u{0020}' || c == '\u{0085}' || c == '\u{00A0}' || c == '\u{1680}'
        || c == '\u{2000}' || c == '\u{2001}' || c == '\u{2002}' || c == '\u{2003}'
        || c == '\u{2004}' || c == '\u{2005}' || c == '\u{2006}' || c == '\u{2007}'
        || c == '\u{2008}' || c == '\u{2009}' || c == '\u{200A}' || c == '\u{2028}'
        || c == '\u{2029}' || c == '\u{202F}' || c == '\u{205F}' || c == '\u{3000}'
}

/// Splits a string into its whitespace-separated pieces: the program
/// arguments of a launch request.  Whitespace is the Unicode White_Space
/// set.
pub fn split_args(s: &str) -> (r: Vec<String>)
    ensures
        r@.map_values(|t: String| t@) == spec_split_ws(s@),
{
    let n = s.unicode_len();
    let mut out: Vec<String> = Vec::new();
    let mut i: usize = 0;
    proof {
        assert(s@.skip(0) =~= s@);
        assert(out@.map_values(|t: String| t@) =~= Seq::<Seq<char>>::empty());
    }
    while i < n
        invariant
            i <= n,
            n == s@.len(),
            out@.map_values(|t: String| t@) + spec_split_ws(s@.skip(i as int)) == spec_split_ws(
                s@,
            ),
        decreases n - i,
    {
        if is_space(s.get_char(i)) {
            proof {
                assert(s@.skip(i as int)[0] == s@[i as int]);
                assert(s@.skip(i as int).skip(1) =~= s@.skip(i as int + 1));
            }
            i = i + 1;
        } else {
            let start = i;
            let mut j: usize = i + 1;
            while j < n && !is_space(s.get_char(j))
                invariant
                    start < j <= n,
                    n == s@.len(),
                    forall|m: int| start <= m < j ==> !is_space_char(s@[m]),
                decreases n - j,
            {
                j = j + 1;
            }
            let token = String::from_str(s.substring_char(start, j));
            proof {
                let ghost tail = s@.skip(start as int);
                assert forall|m: int| 0 <= m < j - start implies !is_space_char(tail[m]) by {
                    assert(tail[m] == s@[start + m]);
                }
                if j < n {
                    assert(tail[j - start] == s@[j as int]);
                }
                lemma_run_len_of_scan(tail, j - start);
                assert(token@ =~= tail.subrange(0, j - start));
                assert(tail.skip(j - start) =~= s@.skip(j as int));
                let ghost prev = out@.map_values(|t: String| t@);
                assert((out@.push(token)).map_values(|t: String| t@) =~= prev.push(token@));
                assert(prev.push(token@) + spec_split_ws(s@.skip(j as int)) =~= prev + (seq![
                    token@,
                ] + spec_split_ws(s@.skip(j as int))));
            }
            out.push(token);
            i = j;
        }
    }
    proof {
        assert(spec_split_ws(s@.skip(i as int)) =~= Seq::<Seq<char>>::empty());
        assert(out@.map_values(|t: String| t@) + Seq::<Seq<char>>::empty() =~= out@.map_values(
            |t: String| t@,
        ));
    }
    out
}

/// Whether two strings hold the same characters.
pub fn str_eq(a: &str, b: &str) -> (r: bool)
    ensures
        r == (a@ == b@),
{
    let n = a.unicode_len();
    if n != b.unicode_len() {
        return false;
    }
    let mut i: usize = 0;
    while i < n
        invariant
            n == a@.len(),
            n == b@.len(),
            i <= n,
            forall|j: int| 0 <= j < i ==> a@[j] == b@[j],
        decreases n - i,
    {
        if a.get_char(i) != b.get_char(i) {
            return false;
        }
        i = i + 1;
    }
    proof {
        assert(a@ =~= b@);
    }
    true
}

/// Whether `a` starts with the prefix `p`.
pub fn str_starts_with(a: &str, p: &str) -> (r: bool)
    ensures
        r == (a@.len() >= p@.len() && a@.subrange(0, p@.len() as int) == p@),
{
    let m = p.unicode_len();
    if a.unicode_len() < m {
        return false;
    }
    let mut i: usize = 0;
    while i < m
        invariant
            m == p@.len(),
            a@.len() >= m,
            i <= m,
            forall|j: int| 0 <= j < i ==> a@[j] == p@[j],
        decreases m - i,
    {
        if a.get_char(i) != p.get_char(i) {
            proof {
                if a@.subrange(0, p@.len() as int) == p@ {
                    assert(a@.subrange(0, p@.len() as int)[i as int] == a@[i as int]);
                }
            }
            return false;
        }
        i = i + 1;
    }
    proof {
        assert(a@.subrange(0, p@.len() as int) =~= p@);
    }
    true
}

} // verus!
