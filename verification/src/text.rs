//! Text helpers shared by the other modules: comparison, concatenation,
//! case folding, substring search, and the path rules of the library.
//!
//! Paths are plain text with `/` as the separator.

use vstd::prelude::*;
use vstd::string::StringExecFns;

verus! {

/// The separator between the components of a path.
pub open spec fn is_separator(c: char) -> bool {
    c == '/'
}

/// The lower-case form of a text, as `str::to_lowercase` computes it.
pub uninterp spec fn lowercase(s: Seq<char>) -> Seq<char>;

/// Calls `str::to_lowercase`. Trusted: the result is the lower-case form of
/// the argument, a function of the argument's characters alone; nothing more
/// is claimed about which characters change.
#[verifier::external_body]
pub(crate) fn to_lowercase(s: &str) -> (r: String)
    ensures
        r@ == lowercase(s@),
{
    s.to_lowercase()
}

/// `needle` occurs in `hay` as a contiguous run starting at `at`.
pub open spec fn occurs_at(hay: Seq<char>, needle: Seq<char>, at: int) -> bool {
    &&& 0 <= at
    &&& at + needle.len() <= hay.len()
    &&& hay.subrange(at, at + needle.len()) == needle
}

/// `needle` occurs somewhere in `hay` as a contiguous run.
pub open spec fn is_substring(hay: Seq<char>, needle: Seq<char>) -> bool {
    exists|at: int| occurs_at(hay, needle, at)
}

/// `hay` contains `needle` when case is ignored: the lower-case form of
/// `needle` occurs in the lower-case form of `hay`.
pub open spec fn contains_ignoring_case(hay: Seq<char>, needle: Seq<char>) -> bool {
    is_substring(lowercase(hay), lowercase(needle))
}

/// Whether two texts hold the same characters.
pub fn str_eq(a: &str, b: &str) -> (r: bool)
    ensures
        r == (a@ == b@),
{
    let x = a.to_owned();
    let y = b.to_owned();
    x == y
}

/// The text `a` followed by the text `b`.
pub fn concat(a: &str, b: &str) -> (r: String)
    ensures
        r@ == a@ + b@,
{
    let mut s = a.to_owned();
    s.append(b);
    s
}

/// The text `a`, then `b`, then `c`.
pub fn concat3(a: &str, b: &str, c: &str) -> (r: String)
    ensures
        r@ == a@ + b@ + c@,
{
    let mut s = a.to_owned();
    s.append(b);
    s.append(c);
    s
}

/// The characters of a text, one by one.
pub fn chars_of(s: &str) -> (v: Vec<char>)
    ensures
        v@ == s@,
{
    let n: usize = s.unicode_len();
    let mut v: Vec<char> = Vec::new();
    let mut i: usize = 0;
    while i < n
        invariant
            n == s@.len(),
            i <= n,
            v@ == s@.subrange(0, i as int),
        decreases n - i,
    {
        v.push(s.get_char(i));
        i += 1;
        assert(s@.subrange(0, i as int) == s@.subrange(0, i - 1).push(s@[i - 1]));
    }
    assert(s@.subrange(0, n as int) == s@);
    v
}

/// Whether `needle` stands in `hay` at position `at`.
fn matches_at(hay: &Vec<char>, needle: &Vec<char>, at: usize) -> (r: bool)
    requires
        at + needle@.len() <= hay@.len(),
    ensures
        r == occurs_at(hay@, needle@, at as int),
{
    let m: usize = needle.len();
    let mut k: usize = 0;
    while k < m
        invariant
            m == needle@.len(),
            at + m <= hay.len(),
            k <= m,
            forall|j: int| 0 <= j < k ==> hay@[at + j] == needle@[j],
        decreases m - k,
    {
        if hay[at + k] != needle[k] {
            assert(hay@.subrange(at as int, at + m)[k as int] == hay@[at + k]);
            return false;
        }
        k += 1;
    }
    assert(hay@.subrange(at as int, at + m) =~= needle@);
    true
}

/// Whether `needle` occurs in `hay` as a contiguous run. The empty text
/// occurs in every text.
pub fn contains(hay: &str, needle: &str) -> (r: bool)
    ensures
        r == is_substring(hay@, needle@),
{
    let h = chars_of(hay);
    let n = chars_of(needle);
    if n.len() > h.len() {
        assert forall|at: int| !occurs_at(hay@, needle@, at) by {}
        return false;
    }
    if n.len() == 0 {
        assert(hay@.subrange(0, 0) =~= needle@);
        assert(occurs_at(hay@, needle@, 0));
        return true;
    }
    let last: usize = h.len() - n.len();
    let mut i: usize = 0;
    while i <= last
        invariant
            h@ == hay@,
            n@ == needle@,
            last + n.len() == h.len(),
            n.len() > 0,
            i <= last + 1,
            forall|at: int| 0 <= at < i ==> !occurs_at(hay@, needle@, at),
        decreases last + 1 - i,
    {
        if matches_at(&h, &n, i) {
            return true;
        }
        i += 1;
    }
    assert forall|at: int| !occurs_at(hay@, needle@, at) by {}
    false
}

/// Whether `hay` begins with `prefix`.
pub fn starts_with(hay: &str, prefix: &str) -> (r: bool)
    ensures
        r == prefix@.is_prefix_of(hay@),
{
    let h = chars_of(hay);
    let p = chars_of(prefix);
    if p.len() > h.len() {
        return false;
    }
    matches_at(&h, &p, 0)
}

/// The last position of `c` in `s`, or -1 where `s` does not hold it.
pub open spec fn last_index_of(s: Seq<char>, c: char) -> int
    decreases s.len(),
{
    if s.len() == 0 {
        -1
    } else if s.last() == c {
        s.len() - 1
    } else {
        last_index_of(s.drop_last(), c)
    }
}

/// The last position of `c` is the one after which `c` does not occur.
pub proof fn lemma_last_index_of(s: Seq<char>, c: char, k: int)
    requires
        -1 <= k < s.len(),
        k >= 0 ==> s[k] == c,
        forall|j: int| k < j < s.len() ==> s[j] != c,
    ensures
        last_index_of(s, c) == k,
    decreases s.len(),
{
    if s.len() > 0 && k < s.len() - 1 {
        assert(s.last() == s[s.len() - 1]);
        let t = s.drop_last();
        assert forall|j: int| k < j < t.len() implies t[j] != c by {
            assert(t[j] == s[j]);
        }
        if k >= 0 {
            assert(t[k] == s[k]);
        }
        lemma_last_index_of(t, c, k);
    }
}

/// The last position of `c` among the characters from `from` on.
pub fn last_index(chars: &Vec<char>, from: usize, c: char) -> (r: Option<usize>)
    requires
        from <= chars@.len(),
    ensures
        match r {
            Some(i) => from <= i < chars@.len() && last_index_of(
                chars@.subrange(from as int, chars@.len() as int),
                c,
            ) == i - from,
            None => last_index_of(chars@.subrange(from as int, chars@.len() as int), c) == -1,
        },
{
    let n: usize = chars.len();
    let ghost rest = chars@.subrange(from as int, n as int);
    let mut i: usize = n;
    while i > from
        invariant
            n == chars@.len(),
            from <= i <= n,
            rest == chars@.subrange(from as int, n as int),
            forall|j: int| i - from <= j < rest.len() ==> rest[j] != c,
        decreases i,
    {
        i -= 1;
        if chars[i] == c {
            proof {
                assert(rest[i - from] == chars@[i as int]);
                lemma_last_index_of(rest, c, i - from);
            }
            return Some(i);
        }
        assert(rest[i - from] == chars@[i as int]);
    }
    proof {
        lemma_last_index_of(rest, c, -1);
    }
    None
}

/// The last component of a path: what follows its last separator.
pub open spec fn file_name(path: Seq<char>) -> Seq<char> {
    path.subrange(last_index_of(path, '/') + 1, path.len() as int)
}

/// The extension of a path: what follows the last `.` of its last
/// component. A component without a `.`, one whose only `.` stands first,
/// and the component `..` have none.
pub open spec fn extension_of(path: Seq<char>) -> Option<Seq<char>> {
    let name = file_name(path);
    let dot = last_index_of(name, '.');
    if dot <= 0 || name == seq!['.', '.'] {
        None
    } else {
        Some(name.subrange(dot + 1, name.len() as int))
    }
}

/// The extension of a path, as it is written.
pub fn extension(path: &str) -> (r: Option<String>)
    ensures
        match r {
            Some(e) => extension_of(path@) == Some(e@),
            None => extension_of(path@) is None,
        },
{
    let chars = chars_of(path);
    let n: usize = chars.len();
    assert(chars@.subrange(0, n as int) == chars@);
    let start: usize = match last_index(&chars, 0, '/') {
        Some(i) => i + 1,
        None => 0,
    };
    let ghost name = file_name(path@);
    assert(name == chars@.subrange(start as int, n as int));
    if n - start == 2 && chars[start] == '.' && chars[start + 1] == '.' {
        assert(name =~= seq!['.', '.']);
        return None;
    }
    proof {
        if name == seq!['.', '.'] {
            assert(name.len() == 2 && name[0] == '.' && name[1] == '.');
            assert(name[0] == chars@[start as int] && name[1] == chars@[start + 1]);
        }
    }
    match last_index(&chars, start, '.') {
        Some(d) => {
            if d == start {
                None
            } else {
                assert(name.subrange(d - start + 1, name.len() as int) == chars@.subrange(
                    d + 1,
                    n as int,
                ));
                Some(path.substring_char(d + 1, n).to_owned())
            }
        },
        None => None,
    }
}

/// Whether `hay` contains `needle` when case is ignored.
pub fn contains_ignore_case(hay: &str, needle: &str) -> (r: bool)
    ensures
        r == contains_ignoring_case(hay@, needle@),
{
    let h = to_lowercase(hay);
    let n = to_lowercase(needle);
    contains(h.as_str(), n.as_str())
}

/// A path with `/` for every `\`.
pub open spec fn unify_separators(path: Seq<char>) -> Seq<char> {
    path.map_values(
        |c: char|
            if c == '\\' {
                '/'
            } else {
                c
            },
    )
}

/// The form of a path under which its records are kept: `/` stands for
/// every `\`, and where case does not tell files apart the path is in
/// lower case.
pub open spec fn normalized(path: Seq<char>, fold_case: bool) -> Seq<char> {
    if fold_case {
        lowercase(unify_separators(path))
    } else {
        unify_separators(path)
    }
}

/// The form of a path under which its records are kept. `fold_case` says
/// that case does not tell files apart.
pub fn normalize_path(path: &str, fold_case: bool) -> (r: String)
    ensures
        r@ == normalized(path@, fold_case),
{
    let chars = chars_of(path);
    let n: usize = chars.len();
    let mut out = String::new();
    let mut i: usize = 0;
    proof {
        reveal_strlit("/");
        assert("/"@ == seq!['/']);
    }
    assert(unify_separators(path@).subrange(0, 0) =~= Seq::<char>::empty());
    while i < n
        invariant
            n == chars@.len(),
            chars@ == path@,
            i <= n,
            "/"@ == seq!['/'],
            out@ == unify_separators(path@).subrange(0, i as int),
        decreases n - i,
    {
        let ghost before = out@;
        if chars[i] == '\\' {
            out.append("/");
        } else {
            out.append(path.substring_char(i, i + 1));
            assert(path@.subrange(i as int, i + 1) =~= seq![path@[i as int]]);
        }
        assert(out@ =~= before.push(unify_separators(path@)[i as int]));
        i += 1;
        assert(out@ =~= unify_separators(path@).subrange(0, i as int));
    }
    assert(unify_separators(path@).subrange(0, n as int) =~= unify_separators(path@));
    if fold_case {
        to_lowercase(out.as_str())
    } else {
        out
    }
}

/// `path` lies under the directory `root`: `root` is not empty, `path`
/// starts with it, and the match ends at a component boundary.
pub open spec fn path_under(path: Seq<char>, root: Seq<char>) -> bool {
    &&& root.len() > 0
    &&& root.len() <= path.len()
    &&& path.subrange(0, root.len() as int) == root
    &&& (path.len() == root.len() || is_separator(root.last()) || is_separator(
        path[root.len() as int],
    ))
}

/// The number of separators that `s` begins with.
pub open spec fn leading_separators(s: Seq<char>) -> nat
    decreases s.len(),
{
    if s.len() > 0 && is_separator(s[0]) {
        1 + leading_separators(s.drop_first())
    } else {
        0
    }
}

/// `s` without the separators it begins with.
pub open spec fn strip_separators(s: Seq<char>) -> Seq<char> {
    s.subrange(leading_separators(s) as int, s.len() as int)
}

/// The part of `path` below `root`, or all of `path` where it does not lie
/// under `root`; without leading separators either way.
pub open spec fn relative_path(path: Seq<char>, root: Seq<char>) -> Seq<char> {
    if path_under(path, root) {
        strip_separators(path.subrange(root.len() as int, path.len() as int))
    } else {
        strip_separators(path)
    }
}

/// `base` and `rel` joined by exactly one separator.
pub open spec fn join_path(base: Seq<char>, rel: Seq<char>) -> Seq<char> {
    if base.len() > 0 && is_separator(base.last()) {
        base + strip_separators(rel)
    } else {
        base + seq!['/'] + strip_separators(rel)
    }
}

/// A run of separators followed by something else, or by nothing, has
/// exactly that many leading separators.
pub proof fn lemma_leading_separators_is(s: Seq<char>, k: int)
    requires
        0 <= k <= s.len(),
        forall|j: int| 0 <= j < k ==> is_separator(#[trigger] s[j]),
        k < s.len() ==> !is_separator(s[k]),
    ensures
        leading_separators(s) == k,
    decreases s.len(),
{
    if k > 0 {
        let t = s.drop_first();
        assert(is_separator(s[0]));
        assert forall|j: int| 0 <= j < k - 1 implies is_separator(#[trigger] t[j]) by {
            assert(t[j] == s[j + 1]);
        }
        lemma_leading_separators_is(t, k - 1);
    }
}

/// The number of separators that the text begins with from position `from`.
fn count_separators(chars: &Vec<char>, from: usize) -> (k: usize)
    requires
        from <= chars@.len(),
    ensures
        k == leading_separators(chars@.subrange(from as int, chars@.len() as int)),
        from + k <= chars@.len(),
{
    let n: usize = chars.len();
    let ghost rest = chars@.subrange(from as int, n as int);
    let mut i: usize = from;
    while i < n && chars[i] == '/'
        invariant
            n == chars@.len(),
            from <= i <= n,
            rest == chars@.subrange(from as int, n as int),
            forall|j: int| 0 <= j < i - from ==> is_separator(#[trigger] rest[j]),
        decreases n - i,
    {
        i += 1;
    }
    proof {
        if i < n {
            assert(rest[i - from] == chars@[i as int]);
        }
        lemma_leading_separators_is(rest, i - from);
    }
    i - from
}

/// Whether `path` lies under the directory `root`.
pub fn is_under(path: &str, root: &str) -> (r: bool)
    ensures
        r == path_under(path@, root@),
{
    let p = chars_of(path);
    let q = chars_of(root);
    if q.len() == 0 || q.len() > p.len() {
        return false;
    }
    if !matches_at(&p, &q, 0) {
        return false;
    }
    p.len() == q.len() || q[q.len() - 1] == '/' || p[q.len()] == '/'
}

/// The part of `path` below `root`, or all of `path` where it does not lie
/// under `root`; without leading separators either way.
pub fn relative_to(path: &str, root: &str) -> (r: String)
    ensures
        r@ == relative_path(path@, root@),
{
    let p = chars_of(path);
    let start: usize = if is_under(path, root) {
        root.unicode_len()
    } else {
        0
    };
    assert(p@.subrange(0, p@.len() as int) == p@);
    let k = count_separators(&p, start);
    let ghost tail = p@.subrange(start as int, p@.len() as int);
    assert(tail.subrange(k as int, tail.len() as int) == p@.subrange(
        start + k,
        p@.len() as int,
    ));
    assert(start + k <= p.len());
    path.substring_char(start + k, p.len()).to_owned()
}

/// `base` and `rel` joined by exactly one separator.
pub fn join(base: &str, rel: &str) -> (r: String)
    ensures
        r@ == join_path(base@, rel@),
{
    let b = chars_of(base);
    let q = chars_of(rel);
    assert(q@.subrange(0, q@.len() as int) == q@);
    let k = count_separators(&q, 0);
    let tail = rel.substring_char(k, q.len());
    proof {
        reveal_strlit("/");
        assert("/"@ == seq!['/']);
    }
    if b.len() > 0 && b[b.len() - 1] == '/' {
        concat(base, tail)
    } else {
        concat3(base, "/", tail)
    }
}

} // verus!
