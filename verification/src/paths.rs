//! Path normalization: expansion of the `~` and leading-`./` shorthand,
//! and the textual parent of a path.

use vstd::prelude::*;
use vstd::string::StrSliceExecFns;
use vstd::string::StringExecFns;

verus! {

/// Why a path could not be normalized.
#[derive(Debug, PartialEq, Eq, Structural, Clone, Copy)]
pub enum PathError {
    /// The raw path was the empty string.
    EmptyPath,
}

/// Whether `c` occurs anywhere in `s`.
pub open spec fn contains_char(s: Seq<char>, c: char) -> bool {
    exists|i: int| 0 <= i < s.len() && s[i] == c
}

/// What one character of the raw path contributes after `~`-expansion.
pub open spec fn expand_char(c: char, home: Seq<char>) -> Seq<char> {
    if c == '~' {
        home
    } else {
        seq![c]
    }
}

/// `s` with every occurrence of `~` replaced by `home`.
pub open spec fn replace_tilde(s: Seq<char>, home: Seq<char>) -> Seq<char>
    decreases s.len(),
{
    if s.len() == 0 {
        Seq::empty()
    } else {
        replace_tilde(s.drop_last(), home) + expand_char(s.last(), home)
    }
}

/// Whether `s` begins with the two characters `./`.
pub open spec fn starts_with_dot_slash(s: Seq<char>) -> bool {
    s.len() >= 2 && s[0] == '.' && s[1] == '/'
}

/// The normalized form of a non-empty raw path.
///
/// A path containing `~` has every `~` replaced by `home` (the substitution
/// is textual, at any position); otherwise a path starting with `./` has
/// that prefix replaced by `cwd` followed by a separator; any other path is
/// kept as it is.  The asymmetry — `~` anywhere, `./` only as a prefix — is
/// deliberate and preserved exactly.
pub open spec fn spec_normalize(raw: Seq<char>, home: Seq<char>, cwd: Seq<char>) -> Seq<char> {
    if contains_char(raw, '~') {
        replace_tilde(raw, home)
    } else if starts_with_dot_slash(raw) {
        cwd + seq!['/'] + raw.skip(2)
    } else {
        raw
    }
}

/// Law: expanding `~` against a home value that itself contains no `~`
/// leaves no `~` behind.
pub proof fn lemma_replace_tilde_removes(s: Seq<char>, home: Seq<char>)
    requires
        !contains_char(home, '~'),
    ensures
        !contains_char(replace_tilde(s, home), '~'),
    decreases s.len(),
{
    if s.len() == 0 {
    } else {
        lemma_replace_tilde_removes(s.drop_last(), home);
        let a = replace_tilde(s.drop_last(), home);
        let b = expand_char(s.last(), home);
        assert forall|i: int| 0 <= i < (a + b).len() implies (a + b)[i] != '~' by {
            if i < a.len() {
                assert(a[i] != '~');
            } else {
                if s.last() == '~' {
                    assert(b[i - a.len()] != '~');
                } else {
                    assert(b[i - a.len()] == s.last());
                }
            }
        }
    }
}

/// Law: a non-empty path without `~` and without a `./` prefix is returned
/// by normalization unchanged.
pub proof fn lemma_normalize_identity(raw: Seq<char>, home: Seq<char>, cwd: Seq<char>)
    requires
        raw.len() > 0,
        !contains_char(raw, '~'),
        !starts_with_dot_slash(raw),
    ensures
        spec_normalize(raw, home, cwd) == raw,
{
}

/// Law: on a path containing `~`, normalization replaces every occurrence
/// of `~` with the home value, and — provided the home value itself holds
/// no `~` — the result contains no `~`.
pub proof fn lemma_normalize_expands_home(raw: Seq<char>, home: Seq<char>, cwd: Seq<char>)
    requires
        contains_char(raw, '~'),
        !contains_char(home, '~'),
    ensures
        spec_normalize(raw, home, cwd) == replace_tilde(raw, home),
        !contains_char(spec_normalize(raw, home, cwd), '~'),
{
    lemma_replace_tilde_removes(raw, home);
}

/// Law: on a path starting with `./` (and free of `~`, which would take
/// precedence), the normalized result starts with the current-directory
/// value.
pub proof fn lemma_normalize_prefixes_cwd(raw: Seq<char>, home: Seq<char>, cwd: Seq<char>)
    requires
        starts_with_dot_slash(raw),
        !contains_char(raw, '~'),
    ensures
        spec_normalize(raw, home, cwd).len() >= cwd.len(),
        spec_normalize(raw, home, cwd).subrange(0, cwd.len() as int) == cwd,
{
    let r = spec_normalize(raw, home, cwd);
    assert(r == cwd + seq!['/'] + raw.skip(2));
    assert(r.subrange(0, cwd.len() as int) =~= cwd);
}

fn contains_tilde(s: &str) -> (b: bool)
    ensures
        b == contains_char(s@, '~'),
{
    let n = s.unicode_len();
    let mut i: usize = 0;
    while i < n
        invariant
            n == s@.len(),
            i <= n,
            forall|j: int| 0 <= j < i ==> s@[j] != '~',
        decreases n - i,
    {
        if s.get_char(i) == '~' {
            assert(s@[i as int] == '~');
            return true;
        }
        i = i + 1;
    }
    false
}

fn replace_tilde_exec(s: &str, home: &str) -> (out: String)
    ensures
        out@ == replace_tilde(s@, home@),
{
    let n = s.unicode_len();
    let mut out = String::new();
    let mut i: usize = 0;
    while i < n
        invariant
            n == s@.len(),
            i <= n,
            out@ == replace_tilde(s@.subrange(0, i as int), home@),
        decreases n - i,
    {
        let c = s.get_char(i);
        if c == '~' {
            out.append(home);
        } else {
            let piece = s.substring_char(i, i + 1);
            proof {
                assert(piece@ =~= seq![s@[i as int]]);
            }
            out.append(piece);
        }
        proof {
            let ext = s@.subrange(0, i + 1);
            assert(ext.drop_last() =~= s@.subrange(0, i as int));
            assert(ext.last() == s@[i as int]);
        }
        i = i + 1;
    }
    proof {
        assert(s@.subrange(0, n as int) =~= s@);
    }
    out
}

fn starts_dot_slash(s: &str) -> (b: bool)
    ensures
        b == starts_with_dot_slash(s@),
{
    let n = s.unicode_len();
    if n < 2 {
        return false;
    }
    let c0 = s.get_char(0);
    let c1 = s.get_char(1);
    c0 == '.' && c1 == '/'
}

/// Normalizes one side of a link pair.
///
/// Fails with `EmptyPath` on the empty string; otherwise returns the raw
/// path with its shorthand expanded against `home` and `cwd`, exactly as
/// `spec_normalize` describes.
pub fn normalize_component(raw: &str, home: &str, cwd: &str) -> (r: Result<String, PathError>)
    ensures
        raw@.len() == 0 ==> r == Result::<String, PathError>::Err(PathError::EmptyPath),
        raw@.len() > 0 ==> (r matches Ok(s) && s@ == spec_normalize(raw@, home@, cwd@)),
{
    if raw.unicode_len() == 0 {
        return Err(PathError::EmptyPath);
    }
    if contains_tilde(raw) {
        return Ok(replace_tilde_exec(raw, home));
    }
    if starts_dot_slash(raw) {
        let mut out = cwd.to_owned();
        out.append("/");
        let rest = raw.substring_char(2, raw.unicode_len());
        out.append(rest);
        proof {
            reveal_strlit("/");
            assert("/"@ =~= seq!['/']);
            assert(raw@.subrange(2, raw@.len() as int) =~= raw@.skip(2));
        }
        return Ok(out);
    }
    Ok(raw.to_owned())
}

/// `p` with every trailing `/` removed.
pub open spec fn trim_trailing_slashes(p: Seq<char>) -> Seq<char>
    decreases p.len(),
{
    if p.len() > 0 && p.last() == '/' {
        trim_trailing_slashes(p.drop_last())
    } else {
        p
    }
}

/// The index of the last `/` in `q`, if any.
pub open spec fn last_slash(q: Seq<char>) -> Option<int>
    decreases q.len(),
{
    if q.len() == 0 {
        None
    } else if q.last() == '/' {
        Some(q.len() - 1)
    } else {
        last_slash(q.drop_last())
    }
}

/// The textual parent directory of a path.
///
/// Trailing separators are ignored; a path that is only separators (or
/// empty) has no parent; a path with no separator at all has the empty
/// string as its parent (a bare relative component); otherwise the parent
/// is everything before the last separator, itself stripped of trailing
/// separators, with the root spelled `/`.
pub open spec fn spec_parent(p: Seq<char>) -> Option<Seq<char>> {
    let q = trim_trailing_slashes(p);
    if q.len() == 0 {
        None
    } else {
        match last_slash(q) {
            None => Some(Seq::empty()),
            Some(j) => {
                let r = trim_trailing_slashes(q.subrange(0, j));
                if r.len() == 0 {
                    Some(seq!['/'])
                } else {
                    Some(r)
                }
            },
        }
    }
}

/// The end of `p@.subrange(0, from)` once trailing separators are dropped.
fn trim_end(p: &str, from: usize) -> (end: usize)
    requires
        from <= p@.len(),
    ensures
        end <= from,
        trim_trailing_slashes(p@.subrange(0, from as int)) == p@.subrange(0, end as int),
{
    let mut end: usize = from;
    while end > 0 && p.get_char(end - 1) == '/'
        invariant
            end <= from <= p@.len(),
            trim_trailing_slashes(p@.subrange(0, from as int)) == trim_trailing_slashes(
                p@.subrange(0, end as int),
            ),
        decreases end,
    {
        proof {
            let cur = p@.subrange(0, end as int);
            assert(cur.last() == '/');
            assert(cur.drop_last() =~= p@.subrange(0, end - 1));
        }
        end = end - 1;
    }
    proof {
        let cur = p@.subrange(0, end as int);
        if end > 0 {
            assert(cur.last() == p@[end - 1]);
        }
        assert(trim_trailing_slashes(cur) == cur);
    }
    end
}

/// The textual parent of `p`, as `spec_parent` describes it.
pub fn parent_of(p: &str) -> (r: Option<String>)
    ensures
        match r {
            Some(s) => spec_parent(p@) matches Some(q) && s@ == q,
            None => spec_parent(p@) is None,
        },
{
    let n = p.unicode_len();
    proof {
        assert(p@.subrange(0, n as int) =~= p@);
    }
    let end = trim_end(p, n);
    if end == 0 {
        proof {
            assert(trim_trailing_slashes(p@) =~= Seq::<char>::empty());
        }
        return None;
    }
    let ghost q = p@.subrange(0, end as int);
    let mut j: usize = end;
    while j > 0 && p.get_char(j - 1) != '/'
        invariant
            j <= end <= p@.len(),
            end > 0,
            q == p@.subrange(0, end as int),
            last_slash(q) == last_slash(p@.subrange(0, j as int)),
        decreases j,
    {
        proof {
            let cur = p@.subrange(0, j as int);
            assert(cur.last() == p@[j - 1]);
            assert(cur.drop_last() =~= p@.subrange(0, j - 1));
        }
        j = j - 1;
    }
    if j == 0 {
        proof {
            assert(p@.subrange(0, 0) =~= Seq::<char>::empty());
            assert(last_slash(q) is None);
        }
        return Some(String::new());
    }
    proof {
        let cur = p@.subrange(0, j as int);
        assert(cur.last() == p@[j - 1]);
        assert(cur.last() == '/');
        assert(last_slash(cur) == Some(j - 1));
        assert(q.subrange(0, j - 1) =~= p@.subrange(0, j - 1));
    }
    let end2 = trim_end(p, j - 1);
    if end2 == 0 {
        let out = "/".to_owned();
        proof {
            reveal_strlit("/");
            assert(out@ =~= seq!['/']);
            assert(trim_trailing_slashes(q.subrange(0, j - 1)) =~= Seq::<char>::empty());
        }
        return Some(out);
    }
    let out = p.substring_char(0, end2).to_owned();
    proof {
        assert(out@ == p@.subrange(0, end2 as int));
    }
    Some(out)
}

} // verus!
