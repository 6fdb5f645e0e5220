//! Characters and character sequences: whitespace, runs, the lexicographic
//! order, and the passage between strings and character vectors.

use vstd::prelude::*;
use vstd::std_specs::iter::IteratorSpec;

verus! {

broadcast use vstd::string::group_string_axioms;

/// Whether `c` has the Unicode `White_Space` property.
pub open spec fn is_whitespace(c: char) -> bool {
    let n = c as u32;
    ||| 0x09 <= n <= 0x0D
    ||| n == 0x20
    ||| n == 0x85
    ||| n == 0xA0
    ||| n == 0x1680
    ||| 0x2000 <= n <= 0x200A
    ||| n == 0x2028
    ||| n == 0x2029
    ||| n == 0x202F
    ||| n == 0x205F
    ||| n == 0x3000
}

/// Decides `is_whitespace`.
pub fn is_whitespace_char(c: char) -> (r: bool)
    ensures
        r == is_whitespace(c),
{
    let n: u32 = c as u32;
    (0x09 <= n && n <= 0x0D) || n == 0x20 || n == 0x85 || n == 0xA0 || n == 0x1680 || (0x2000 <= n
        && n <= 0x200A) || n == 0x2028 || n == 0x2029 || n == 0x202F || n == 0x205F || n == 0x3000
}

/// The kinds of run that a scan can follow.
#[derive(Clone, Copy, Debug, PartialEq, Eq)]
pub enum Run {
    /// Whitespace characters.
    Blank,
    /// Characters that are not whitespace.
    Word,
    /// Characters other than the line feed.
    Line,
}

impl Run {
    /// Whether a run of this kind goes on over `c`.
    pub open spec fn admits(self, c: char) -> bool {
        match self {
            Run::Blank => is_whitespace(c),
            Run::Word => !is_whitespace(c),
            Run::Line => c != '\n',
        }
    }

    /// Decides `admits`.
    pub fn accepts(self, c: char) -> (r: bool)
        ensures
            r == self.admits(c),
    {
        match self {
            Run::Blank => is_whitespace_char(c),
            Run::Word => !is_whitespace_char(c),
            Run::Line => c != '\n',
        }
    }
}

/// The length of the longest prefix of `s` that is a run of `kind`.
pub open spec fn run_len(s: Seq<char>, kind: Run) -> nat
    decreases s.len(),
{
    if s.len() > 0 && kind.admits(s[0]) {
        1 + run_len(s.drop_first(), kind)
    } else {
        0
    }
}

/// Whether every character of `s` belongs to a run of `kind`.
pub open spec fn all_admitted(s: Seq<char>, kind: Run) -> bool {
    forall|i: int| 0 <= i < s.len() ==> kind.admits(#[trigger] s[i])
}

/// A run is a prefix, and it stops at the end or before a character that
/// the kind does not admit.
pub proof fn lemma_run_len(s: Seq<char>, kind: Run)
    ensures
        run_len(s, kind) <= s.len(),
        all_admitted(s.take(run_len(s, kind) as int), kind),
        run_len(s, kind) < s.len() ==> !kind.admits(s[run_len(s, kind) as int]),
    decreases s.len(),
{
    if s.len() > 0 && kind.admits(s[0]) {
        let t = s.drop_first();
        lemma_run_len(t, kind);
        let n = run_len(t, kind) as int;
        assert forall|i: int| 0 <= i < n + 1 implies kind.admits(#[trigger] s.take(n + 1)[i]) by {
            if i > 0 {
                assert(s.take(n + 1)[i] == t.take(n)[i - 1]);
            }
        }
        if n + 1 < s.len() {
            assert(s[n + 1] == t[n]);
        }
    }
}

/// A prefix of admitted characters that ends the sequence, or is followed by
/// a character that is not admitted, is the run.
pub proof fn lemma_run_len_is(s: Seq<char>, kind: Run, n: int)
    requires
        0 <= n <= s.len(),
        all_admitted(s.take(n), kind),
        n < s.len() ==> !kind.admits(s[n]),
    ensures
        run_len(s, kind) == n,
    decreases n,
{
    if n > 0 {
        assert(s.take(n)[0] == s[0]);
        let t = s.drop_first();
        assert forall|i: int| 0 <= i < n - 1 implies kind.admits(#[trigger] t.take(n - 1)[i]) by {
            assert(t.take(n - 1)[i] == s.take(n)[i + 1]);
        }
        if n - 1 < t.len() {
            assert(t[n - 1] == s[n]);
        }
        lemma_run_len_is(t, kind, n - 1);
    }
}

/// The end of the run of `kind` that starts at `from` and is looked for
/// below `to`.
pub fn scan(v: &Vec<char>, from: usize, to: usize, kind: Run) -> (end: usize)
    requires
        from <= to <= v.len(),
    ensures
        from <= end <= to,
        end == from + run_len(v@.subrange(from as int, to as int), kind),
{
    let mut end: usize = from;
    while end < to && kind.accepts(v[end])
        invariant
            from <= end <= to <= v.len(),
            all_admitted(v@.subrange(from as int, end as int), kind),
        decreases to - end,
    {
        proof {
            let before = v@.subrange(from as int, end as int);
            let after = v@.subrange(from as int, end + 1);
            assert forall|i: int| 0 <= i < after.len() implies kind.admits(#[trigger] after[i]) by {
                if i < before.len() {
                    assert(after[i] == before[i]);
                }
            }
        }
        end = end + 1;
    }
    proof {
        let s = v@.subrange(from as int, to as int);
        assert(s.take(end - from) =~= v@.subrange(from as int, end as int));
        lemma_run_len_is(s, kind, end - from);
    }
    end
}

/// The lexicographic order of character sequences by code point: a proper
/// prefix comes first, and otherwise the first difference decides.
pub open spec fn lex_lt(a: Seq<char>, b: Seq<char>) -> bool
    decreases a.len(),
{
    if b.len() == 0 {
        false
    } else if a.len() == 0 {
        true
    } else if a[0] != b[0] {
        a[0] < b[0]
    } else {
        lex_lt(a.drop_first(), b.drop_first())
    }
}

/// No sequence comes before itself.
pub proof fn lemma_lex_irreflexive(a: Seq<char>)
    ensures
        !lex_lt(a, a),
    decreases a.len(),
{
    if a.len() > 0 {
        lemma_lex_irreflexive(a.drop_first());
    }
}

/// Of two different sequences one comes before the other.
pub proof fn lemma_lex_total(a: Seq<char>, b: Seq<char>)
    ensures
        a == b || lex_lt(a, b) || lex_lt(b, a),
    decreases a.len(),
{
    if a.len() == 0 || b.len() == 0 {
        if a.len() == b.len() {
            assert(a =~= b);
        }
    } else if a[0] == b[0] {
        lemma_lex_total(a.drop_first(), b.drop_first());
        if a.drop_first() == b.drop_first() {
            assert(a =~= seq![a[0]] + a.drop_first());
            assert(b =~= seq![b[0]] + b.drop_first());
        }
    }
}

/// The order is transitive.
pub proof fn lemma_lex_transitive(a: Seq<char>, b: Seq<char>, c: Seq<char>)
    requires
        lex_lt(a, b),
        lex_lt(b, c),
    ensures
        lex_lt(a, c),
    decreases a.len(),
{
    if a.len() > 0 && a[0] == b[0] && b[0] == c[0] {
        lemma_lex_transitive(a.drop_first(), b.drop_first(), c.drop_first());
    }
}

/// The order is asymmetric.
pub proof fn lemma_lex_asymmetric(a: Seq<char>, b: Seq<char>)
    requires
        lex_lt(a, b),
    ensures
        !lex_lt(b, a),
{
    if lex_lt(b, a) {
        lemma_lex_transitive(a, b, a);
        lemma_lex_irreflexive(a);
    }
}

/// Whether `a` comes before `b` in the lexicographic order.
pub fn str_lt(a: &str, b: &str) -> (r: bool)
    ensures
        r == lex_lt(a@, b@),
{
    let mut left = a.chars();
    let mut right = b.chars();
    let mut r: bool = false;
    let ghost mut i: int = 0;
    loop
        invariant_except_break
            0 <= i <= a@.len(),
            i <= b@.len(),
            left.remaining() == a@.skip(i),
            right.remaining() == b@.skip(i),
            lex_lt(a@, b@) == lex_lt(a@.skip(i), b@.skip(i)),
            left.decrease() is Some,
        ensures
            r == lex_lt(a@, b@),
        decreases left.decrease()->0,
    {
        let y = right.next();
        let x = left.next();
        match y {
            None => {
                r = false;
                break ;
            },
            Some(cy) => {
                match x {
                    None => {
                        r = true;
                        break ;
                    },
                    Some(cx) => {
                        if cx != cy {
                            r = cx < cy;
                            break ;
                        }
                        proof {
                            assert(a@.skip(i).drop_first() =~= a@.skip(i + 1));
                            assert(b@.skip(i).drop_first() =~= b@.skip(i + 1));
                            i = i + 1;
                        }
                    },
                }
            },
        }
    }
    r
}

/// Whether `a` and `b` hold the same characters.
pub fn str_eq(a: &str, b: &str) -> (r: bool)
    ensures
        r == (a@ == b@),
{
    let mut left = a.chars();
    let mut right = b.chars();
    let mut r: bool = false;
    let ghost mut i: int = 0;
    loop
        invariant_except_break
            0 <= i <= a@.len(),
            i <= b@.len(),
            left.remaining() == a@.skip(i),
            right.remaining() == b@.skip(i),
            a@.take(i) == b@.take(i),
            left.decrease() is Some,
        ensures
            r == (a@ == b@),
        decreases left.decrease()->0,
    {
        let y = right.next();
        let x = left.next();
        match (x, y) {
            (None, None) => {
                proof {
                    assert(a@ =~= a@.take(i));
                    assert(b@ =~= b@.take(i));
                }
                r = true;
                break ;
            },
            (Some(cx), Some(cy)) => {
                if cx != cy {
                    proof {
                        assert(a@[i] == a@.skip(i)[0]);
                        assert(b@[i] == b@.skip(i)[0]);
                    }
                    r = false;
                    break ;
                }
                proof {
                    assert(a@.skip(i).drop_first() =~= a@.skip(i + 1));
                    assert(b@.skip(i).drop_first() =~= b@.skip(i + 1));
                    assert(a@.take(i + 1) =~= a@.take(i).push(a@.skip(i)[0]));
                    assert(b@.take(i + 1) =~= b@.take(i).push(b@.skip(i)[0]));
                    i = i + 1;
                }
            },
            _ => {
                r = false;
                break ;
            },
        }
    }
    r
}

/// What `strings` hold, in order.
pub open spec fn texts_of(strings: Seq<String>) -> Seq<Seq<char>> {
    Seq::new(strings.len(), |i: int| strings[i]@)
}

/// The characters of `s`, in order.
pub fn chars_of(s: &str) -> (v: Vec<char>)
    ensures
        v@ == s@,
{
    let mut v: Vec<char> = Vec::new();
    let mut it = s.chars();
    loop
        invariant
            v@ + it.remaining() == s@,
            it.decrease() is Some,
        ensures
            v@ == s@,
        decreases it.decrease()->0,
    {
        match it.next() {
            Some(c) => {
                v.push(c);
            },
            None => {
                break ;
            },
        }
    }
    v
}

/// `String::push` of the standard library: the string is what it was, with
/// `c` after its last character.
#[verifier::external_body]
pub(crate) fn push_char(s: &mut String, c: char)
    ensures
        final(s)@ == old(s)@.push(c),
{
    s.push(c);
}

/// Appends the characters of `v` from `from` up to `to` to `out`.
pub fn push_range(out: &mut String, v: &Vec<char>, from: usize, to: usize)
    requires
        from <= to <= v.len(),
    ensures
        final(out)@ == old(out)@ + v@.subrange(from as int, to as int),
{
    let mut i: usize = from;
    while i < to
        invariant
            from <= i <= to <= v.len(),
            out@ == old(out)@ + v@.subrange(from as int, i as int),
        decreases to - i,
    {
        push_char(out, v[i]);
        proof {
            assert(v@.subrange(from as int, i + 1) =~= v@.subrange(from as int, i as int).push(
                v@[i as int],
            ));
        }
        i = i + 1;
    }
}

/// Whether the characters of `v` from `from` up to `to` are those of `w`.
pub fn range_eq(v: &Vec<char>, from: usize, to: usize, w: &Vec<char>) -> (r: bool)
    requires
        from <= to <= v.len(),
    ensures
        r == (v@.subrange(from as int, to as int) == w@),
{
    if to - from != w.len() {
        return false;
    }
    let mut i: usize = 0;
    while i < w.len()
        invariant
            from <= to <= v.len(),
            to - from == w.len(),
            0 <= i <= w.len(),
            forall|j: int| 0 <= j < i ==> v@[from + j] == w@[j],
        decreases w.len() - i,
    {
        if v[from + i] != w[i] {
            proof {
                assert(v@.subrange(from as int, to as int)[i as int] != w@[i as int]);
            }
            return false;
        }
        i = i + 1;
    }
    proof {
        assert(v@.subrange(from as int, to as int) =~= w@);
    }
    true
}

} // verus!
