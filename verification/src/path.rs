//! Paths as plain text: components are separated by `/`, and the name of a
//! file is what follows the last separator.

use crate::text::{chars_of, push_range, range_eq, str_eq};
use vstd::prelude::*;
use vstd::string::StringExecFns;

verus! {

/// The index of the last `c` in `s`, or -1 if `s` holds none.
pub open spec fn last_index_of(s: Seq<char>, c: char) -> int
    decreases s.len(),
{
    if s.len() == 0 {
        -1
    } else if s.last() == c {
        s.len() - 1
    } else {
        last_index_of(s.drop_last(), c)
    }
}

/// The last component of `path`: what follows its last separator.
pub open spec fn file_name(path: Seq<char>) -> Seq<char> {
    path.skip(last_index_of(path, '/') + 1)
}

/// The extension of the file that `path` names: what follows the last dot
/// of the file name. A name without a dot has none, nor has a name whose
/// only dot is its first character, nor the name `..`.
pub open spec fn extension(path: Seq<char>) -> Option<Seq<char>> {
    let name = file_name(path);
    let dot = last_index_of(name, '.');
    if dot <= 0 || name == seq!['.', '.'] {
        None
    } else {
        Some(name.skip(dot + 1))
    }
}

/// `base` with `rel` below it. A `rel` that starts at the root stands for
/// itself, as it does below an empty `base`; a separator is put between the
/// two unless `base` ends in one.
pub open spec fn joined(base: Seq<char>, rel: Seq<char>) -> Seq<char> {
    if base.len() == 0 || (rel.len() > 0 && rel[0] == '/') {
        rel
    } else if base.last() == '/' {
        base + rel
    } else {
        base + seq!['/'] + rel
    }
}

/// Whether `path` names an entry of the directory `dir` itself, not of a
/// directory below it: it is `dir` with the file name of `path` below it.
pub open spec fn directly_in(path: Seq<char>, dir: Seq<char>) -> bool {
    path == joined(dir, file_name(path))
}

/// The last `c` is where a `c` stands with none after it.
pub proof fn lemma_last_index_is(s: Seq<char>, c: char, k: int)
    requires
        -1 <= k < s.len(),
        k >= 0 ==> s[k] == c,
        forall|j: int| k < j < s.len() ==> s[j] != c,
    ensures
        last_index_of(s, c) == k,
    decreases s.len(),
{
    if s.len() > 0 && k < s.len() - 1 {
        assert(s.last() != c);
        lemma_last_index_is(s.drop_last(), c, k);
    }
}

/// The index at which the last `c` below `end` stands in `v`, plus one; 0 if
/// there is none.
fn after_last(v: &Vec<char>, end: usize, c: char) -> (r: usize)
    requires
        end <= v.len(),
    ensures
        r <= end,
        r == last_index_of(v@.take(end as int), c) + 1,
        r > 0 ==> v@[r - 1] == c,
        forall|j: int| r <= j < end ==> v@[j] != c,
{
    let mut r: usize = end;
    while r > 0 && v[r - 1] != c
        invariant
            r <= end <= v.len(),
            forall|j: int| r <= j < end ==> v@[j] != c,
        decreases r,
    {
        r = r - 1;
    }
    proof {
        lemma_last_index_is(v@.take(end as int), c, r - 1);
    }
    r
}

/// Whether the file that `path` names has the extension `ext`.
pub fn has_extension(path: &str, ext: &str) -> (r: bool)
    ensures
        r == (extension(path@) == Some(ext@)),
{
    let p = chars_of(path);
    let e = chars_of(ext);
    let n = p.len();
    let start = after_last(&p, n, '/');
    let after_dot = after_last(&p, n, '.');
    let ghost name = file_name(p@);
    proof {
        assert(p@.take(n as int) =~= p@);
        assert(name =~= p@.subrange(start as int, n as int));
        if after_dot > start {
            lemma_last_index_is(name, '.', after_dot - 1 - start);
            assert(name.skip(after_dot - start) =~= p@.subrange(after_dot as int, n as int));
        } else {
            lemma_last_index_is(name, '.', -1);
        }
    }
    if after_dot <= start || after_dot - start < 2 {
        return false;
    }
    if n - start == 2 && p[start] == '.' {
        proof {
            assert(name =~= seq!['.', '.']);
        }
        return false;
    }
    proof {
        if name.len() == 2 {
            assert(name[0] != seq!['.', '.'][0]);
        }
    }
    range_eq(&p, after_dot, n, &e)
}

/// The last component of `path`.
pub fn file_name_of(path: &str) -> (name: String)
    ensures
        name@ == file_name(path@),
{
    let p = chars_of(path);
    let start = after_last(&p, p.len(), '/');
    let mut name = String::new();
    push_range(&mut name, &p, start, p.len());
    proof {
        assert(p@.take(p.len() as int) =~= p@);
        assert(name@ =~= file_name(path@));
    }
    name
}

/// Whether `path` names an entry of the directory `dir` itself.
pub fn is_directly_in(path: &str, dir: &str) -> (r: bool)
    ensures
        r == directly_in(path@, dir@),
{
    let name = file_name_of(path);
    let expected = join(dir, name.as_str());
    str_eq(expected.as_str(), path)
}

/// `base` with `rel` below it.
pub fn join(base: &str, rel: &str) -> (out: String)
    ensures
        out@ == joined(base@, rel@),
{
    let b = chars_of(base);
    let r = chars_of(rel);
    if b.len() == 0 || (r.len() > 0 && r[0] == '/') {
        return String::from_str(rel);
    }
    let mut out = String::from_str(base);
    if b[b.len() - 1] != '/' {
        proof {
            reveal_strlit("/");
            assert("/"@ =~= seq!['/']);
        }
        out.append("/");
    }
    out.append(rel);
    out
}

} // verus!
