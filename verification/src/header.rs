//! Configuration headers: the synthesized one, and the rewriting of macro
//! definitions in an existing one, line by line.

use crate::text::{chars_of, push_char, push_range, range_eq, run_len, scan, Run};
use vstd::prelude::*;
use vstd::string::StringExecFns;

verus! {

/// `s` without one carriage return at its end, if it has one there.
pub open spec fn strip_cr(s: Seq<char>) -> Seq<char> {
    if s.len() > 0 && s.last() == '\r' {
        s.drop_last()
    } else {
        s
    }
}

/// The first line of a text that is not empty: what stands before the first
/// line feed, or the whole text if it has none. With `strip`, a line that a
/// line feed ends loses one carriage return before it.
pub open spec fn first_line(s: Seq<char>, strip: bool) -> Seq<char> {
    let n = run_len(s, Run::Line) as int;
    if n < s.len() {
        if strip {
            strip_cr(s.take(n))
        } else {
            s.take(n)
        }
    } else {
        s
    }
}

/// What follows the first line and its line feed.
pub open spec fn after_first_line(s: Seq<char>) -> Seq<char> {
    let n = run_len(s, Run::Line) as int;
    if n < s.len() {
        s.skip(n + 1)
    } else {
        Seq::empty()
    }
}

/// The lines of `s`. A line feed ends a line; the last line needs none, and
/// nothing follows a final line feed.
pub open spec fn split_lines(s: Seq<char>, strip: bool) -> Seq<Seq<char>>
    decreases s.len(),
{
    if s.len() == 0 {
        Seq::empty()
    } else {
        seq![first_line(s, strip)] + split_lines(after_first_line(s), strip)
    }
}

/// The lines of `s` as the patch reads them: a carriage return before a line
/// feed belongs to the line ending.
pub open spec fn lines(s: Seq<char>) -> Seq<Seq<char>> {
    split_lines(s, true)
}

/// The lines of `s` with nothing but the line feeds taken away.
pub open spec fn raw_lines(s: Seq<char>) -> Seq<Seq<char>> {
    split_lines(s, false)
}

/// The text made of `ls`, a line feed after each of them.
pub open spec fn terminated(ls: Seq<Seq<char>>) -> Seq<char>
    decreases ls.len(),
{
    if ls.len() == 0 {
        Seq::empty()
    } else {
        ls[0] + seq!['\n'] + terminated(ls.drop_first())
    }
}

/// `s` without its leading whitespace.
pub open spec fn trim_start(s: Seq<char>) -> Seq<char> {
    s.skip(run_len(s, Run::Blank) as int)
}

/// The first whitespace-separated token of `s`; empty if `s` has none.
pub open spec fn first_token(s: Seq<char>) -> Seq<char> {
    let t = trim_start(s);
    t.take(run_len(t, Run::Word) as int)
}

/// What follows the first token of `s`.
pub open spec fn after_first_token(s: Seq<char>) -> Seq<char> {
    let t = trim_start(s);
    t.skip(run_len(t, Run::Word) as int)
}

/// The second whitespace-separated token of `s`; empty if `s` has none.
pub open spec fn second_token(s: Seq<char>) -> Seq<char> {
    first_token(after_first_token(s))
}

/// The token that opens a macro definition.
pub open spec fn define_keyword() -> Seq<char> {
    "#define"@
}

/// The name of the macro that `line` defines, if it defines one: its first
/// token is the definition keyword, and its second token is the name.
pub open spec fn defined_name(line: Seq<char>) -> Option<Seq<char>> {
    if first_token(line) == define_keyword() && second_token(line).len() > 0 {
        Some(second_token(line))
    } else {
        None
    }
}

/// A macro name and the value that its definition is to carry.
pub ghost struct Target {
    pub name: Seq<char>,
    pub value: Seq<char>,
}

/// The value that `targets` gives to `name`: that of the first target of
/// that name.
pub open spec fn replacement(targets: Seq<Target>, name: Seq<char>) -> Option<Seq<char>>
    decreases targets.len(),
{
    if targets.len() == 0 {
        None
    } else if targets[0].name == name {
        Some(targets[0].value)
    } else {
        replacement(targets.drop_first(), name)
    }
}

/// The line that defines `name` as `value`.
pub open spec fn define_line(name: Seq<char>, value: Seq<char>) -> Seq<char> {
    define_keyword() + seq![' '] + name + seq![' '] + value
}

/// Whether `line` defines a macro that `targets` names.
pub open spec fn is_targeted(line: Seq<char>, targets: Seq<Target>) -> bool {
    defined_name(line) matches Some(name) && replacement(targets, name) is Some
}

/// What the patch emits for `line`: the new definition if the line is
/// targeted, the line itself if it is not.
pub open spec fn patch_line(line: Seq<char>, targets: Seq<Target>) -> Seq<char> {
    if is_targeted(line, targets) {
        define_line(defined_name(line)->0, replacement(targets, defined_name(line)->0)->0)
    } else {
        line
    }
}

/// What the patch emits for each of `ls`, in order.
pub open spec fn patch_lines(ls: Seq<Seq<char>>, targets: Seq<Target>) -> Seq<Seq<char>> {
    Seq::new(ls.len(), |i: int| patch_line(ls[i], targets))
}

/// The patched text: every line of `text`, patched, with a line feed after it.
pub open spec fn patched(text: Seq<char>, targets: Seq<Target>) -> Seq<char> {
    terminated(patch_lines(lines(text), targets))
}

/// The patched text begins with its patched first line and goes on with the
/// patched rest.
pub proof fn lemma_patched_unfold(s: Seq<char>, targets: Seq<Target>)
    requires
        s.len() > 0,
    ensures
        patched(s, targets) == patch_line(first_line(s, true), targets) + seq!['\n'] + patched(
            after_first_line(s),
            targets,
        ),
{
    let ls = lines(s);
    let rest = lines(after_first_line(s));
    assert(ls == seq![first_line(s, true)] + rest);
    let out = patch_lines(ls, targets);
    assert(out.drop_first() =~= patch_lines(rest, targets));
    assert(out[0] == patch_line(first_line(s, true), targets));
}

/// The value of the first target named `name` is the replacement.
pub proof fn lemma_replacement_found(targets: Seq<Target>, name: Seq<char>, k: int)
    requires
        0 <= k < targets.len(),
        targets[k].name == name,
        forall|j: int| 0 <= j < k ==> (#[trigger] targets[j]).name != name,
    ensures
        replacement(targets, name) == Some(targets[k].value),
    decreases k,
{
    if k > 0 {
        let rest = targets.drop_first();
        assert(targets[0].name != name);
        assert(rest[k - 1] == targets[k]);
        assert forall|j: int| 0 <= j < k - 1 implies (#[trigger] rest[j]).name != name by {
            assert(rest[j] == targets[j + 1]);
        }
        lemma_replacement_found(rest, name, k - 1);
    }
}

/// Where no target is named `name`, there is no replacement.
pub proof fn lemma_replacement_missing(targets: Seq<Target>, name: Seq<char>)
    requires
        forall|j: int| 0 <= j < targets.len() ==> (#[trigger] targets[j]).name != name,
    ensures
        replacement(targets, name) is None,
    decreases targets.len(),
{
    if targets.len() > 0 {
        let rest = targets.drop_first();
        assert(targets[0].name != name);
        assert forall|j: int| 0 <= j < rest.len() implies (#[trigger] rest[j]).name != name by {
            assert(rest[j] == targets[j + 1]);
        }
        lemma_replacement_missing(rest, name);
    }
}

/// A macro name and the value that its definition is to carry.
#[derive(Clone, Debug, PartialEq, Eq)]
pub struct MacroValue {
    pub name: String,
    pub value: String,
}

impl View for MacroValue {
    type V = Target;

    open spec fn view(&self) -> Target {
        Target { name: self.name@, value: self.value@ }
    }
}

/// The targets that `ms` stand for, in order.
pub open spec fn targets_of(ms: Seq<MacroValue>) -> Seq<Target> {
    Seq::new(ms.len(), |i: int| ms[i]@)
}

/// The place of the name in the line that runs from `from` up to `to`, if
/// that line defines a macro.
fn defined_name_range(text: &Vec<char>, keyword: &Vec<char>, from: usize, to: usize) -> (r: Option<
    (usize, usize),
>)
    requires
        from <= to <= text.len(),
        keyword@ == define_keyword(),
    ensures
        r is Some == defined_name(text@.subrange(from as int, to as int)) is Some,
        r matches Some((start, end)) ==> from <= start < end <= to && text@.subrange(
            start as int,
            end as int,
        ) == defined_name(text@.subrange(from as int, to as int))->0,
{
    let a = scan(text, from, to, Run::Blank);
    let b = scan(text, a, to, Run::Word);
    let c = scan(text, b, to, Run::Blank);
    let d = scan(text, c, to, Run::Word);
    proof {
        let line = text@.subrange(from as int, to as int);
        assert(trim_start(line) =~= text@.subrange(a as int, to as int));
        assert(first_token(line) =~= text@.subrange(a as int, b as int));
        let rest = after_first_token(line);
        assert(rest =~= text@.subrange(b as int, to as int));
        assert(trim_start(rest) =~= text@.subrange(c as int, to as int));
        assert(second_token(line) =~= text@.subrange(c as int, d as int));
    }
    if c < d && range_eq(text, a, b, keyword) {
        Some((c, d))
    } else {
        None
    }
}

/// The index of the first of `names` that the characters of `text` from
/// `from` up to `to` spell.
fn find_name(names: &Vec<Vec<char>>, text: &Vec<char>, from: usize, to: usize) -> (r: Option<usize>)
    requires
        from <= to <= text.len(),
    ensures
        r matches Some(k) ==> k < names.len() && names[k as int]@ == text@.subrange(
            from as int,
            to as int,
        ) && forall|j: int| 0 <= j < k ==> (#[trigger] names[j])@ != text@.subrange(from as int, to as int),
        r is None ==> forall|j: int|
            0 <= j < names.len() ==> (#[trigger] names[j])@ != text@.subrange(from as int, to as int),
{
    let mut k: usize = 0;
    while k < names.len()
        invariant
            from <= to <= text.len(),
            0 <= k <= names.len(),
            forall|j: int|
                0 <= j < k ==> (#[trigger] names[j])@ != text@.subrange(from as int, to as int),
        decreases names.len() - k,
    {
        if range_eq(text, from, to, &names[k]) {
            return Some(k);
        }
        k = k + 1;
    }
    None
}

/// The names of `targets` as character vectors, in order.
fn names_of(targets: &Vec<MacroValue>) -> (names: Vec<Vec<char>>)
    ensures
        names.len() == targets.len(),
        forall|i: int| 0 <= i < names.len() ==> (#[trigger] names[i])@ == targets[i].name@,
{
    let mut names: Vec<Vec<char>> = Vec::new();
    let mut i: usize = 0;
    while i < targets.len()
        invariant
            0 <= i <= targets.len(),
            names.len() == i,
            forall|j: int| 0 <= j < i ==> (#[trigger] names[j])@ == targets[j].name@,
        decreases targets.len() - i,
    {
        names.push(chars_of(targets[i].name.as_str()));
        i = i + 1;
    }
    names
}

/// Where the line that starts at `pos` ends, and where the next one starts.
fn line_bounds(text: &Vec<char>, pos: usize) -> (r: (usize, usize))
    requires
        pos < text.len(),
    ensures
        pos <= r.0 <= text.len(),
        pos < r.1 <= text.len(),
        text@.subrange(pos as int, r.0 as int) == first_line(text@.skip(pos as int), true),
        text@.skip(r.1 as int) == after_first_line(text@.skip(pos as int)),
{
    let n = text.len();
    let eol = scan(text, pos, n, Run::Line);
    let ghost s = text@.skip(pos as int);
    proof {
        assert(s =~= text@.subrange(pos as int, n as int));
    }
    if eol < n {
        let end = if pos < eol && text[eol - 1] == '\r' {
            eol - 1
        } else {
            eol
        };
        proof {
            let body = text@.subrange(pos as int, eol as int);
            assert(s.take(eol - pos) =~= body);
            if pos < eol {
                assert(body.last() == text@[eol - 1]);
                assert(body.drop_last() =~= text@.subrange(pos as int, eol - 1));
            }
            assert(after_first_line(s) =~= text@.skip(eol + 1));
        }
        (end, eol + 1)
    } else {
        proof {
            assert(after_first_line(s) =~= text@.skip(n as int));
        }
        (n, n)
    }
}

/// Appends to `out` what the patch emits for the line that runs from `from`
/// up to `to`.
fn push_patched_line(
    out: &mut String,
    text: &Vec<char>,
    from: usize,
    to: usize,
    keyword: &Vec<char>,
    names: &Vec<Vec<char>>,
    targets: &Vec<MacroValue>,
)
    requires
        from <= to <= text.len(),
        keyword@ == define_keyword(),
        names.len() == targets.len(),
        forall|i: int| 0 <= i < names.len() ==> (#[trigger] names[i])@ == targets[i].name@,
    ensures
        final(out)@ == old(out)@ + patch_line(
            text@.subrange(from as int, to as int),
            targets_of(targets@),
        ),
{
    let ghost ts = targets_of(targets@);
    let ghost line = text@.subrange(from as int, to as int);
    match defined_name_range(text, keyword, from, to) {
        Some((start, stop)) => {
            let ghost name = text@.subrange(start as int, stop as int);
            match find_name(names, text, start, stop) {
                Some(k) => {
                    proof {
                        assert forall|j: int| 0 <= j < k implies (#[trigger] ts[j]).name != name by {
                            assert(names[j]@ == targets[j].name@);
                        }
                        assert(ts[k as int].name == name) by {
                            assert(names[k as int]@ == targets[k as int].name@);
                        }
                        lemma_replacement_found(ts, name, k as int);
                        reveal_strlit("#define ");
                        reveal_strlit("#define");
                        reveal_strlit(" ");
                        assert("#define "@ =~= define_keyword() + seq![' ']);
                        assert(" "@ =~= seq![' ']);
                        assert(patch_line(line, ts) == define_line(name, ts[k as int].value));
                    }
                    out.append("#define ");
                    out.append(targets[k].name.as_str());
                    out.append(" ");
                    out.append(targets[k].value.as_str());
                    proof {
                        assert(out@ =~= old(out)@ + define_line(name, ts[k as int].value));
                    }
                },
                None => {
                    proof {
                        assert forall|j: int| 0 <= j < ts.len() implies (#[trigger] ts[j]).name
                            != name by {
                            assert(names[j]@ == targets[j].name@);
                        }
                        lemma_replacement_missing(ts, name);
                    }
                    push_range(out, text, from, to);
                },
            }
        },
        None => {
            push_range(out, text, from, to);
        },
    }
}

/// Rewrites the macro definitions of `contents` that `targets` name, in one
/// pass over its lines. A line whose first token is `#define` and whose
/// second token is the name of a target becomes `#define`, the name and the
/// target's value, a space between them; every other line stays as it is.
/// Each line of the result ends in a line feed.
pub fn apply_targets(contents: &str, targets: &Vec<MacroValue>) -> (out: String)
    ensures
        out@ == patched(contents@, targets_of(targets@)),
{
    let text = chars_of(contents);
    let keyword = chars_of("#define");
    let names = names_of(targets);
    let n = text.len();
    let ghost ts = targets_of(targets@);
    let mut out = String::new();
    let mut pos: usize = 0;
    proof {
        assert(text@.skip(0) =~= text@);
        assert(out@ + patched(text@, ts) =~= patched(text@, ts));
    }
    while pos < n
        invariant
            n == text.len(),
            keyword@ == define_keyword(),
            ts == targets_of(targets@),
            names.len() == targets.len(),
            forall|i: int| 0 <= i < names.len() ==> (#[trigger] names[i])@ == targets[i].name@,
            0 <= pos <= n,
            patched(text@, ts) == out@ + patched(text@.skip(pos as int), ts),
        decreases n - pos,
    {
        let (end, next) = line_bounds(&text, pos);
        let ghost before = out@;
        let ghost emitted = patch_line(text@.subrange(pos as int, end as int), ts);
        proof {
            lemma_patched_unfold(text@.skip(pos as int), ts);
        }
        push_patched_line(&mut out, &text, pos, end, &keyword, &names, targets);
        push_char(&mut out, '\n');
        proof {
            let rest = patched(text@.skip(next as int), ts);
            assert(before + (emitted + seq!['\n'] + rest) =~= (before + emitted).push('\n') + rest);
        }
        pos = next;
    }
    proof {
        assert(text@.skip(n as int) =~= Seq::<char>::empty());
        assert(patched(Seq::<char>::empty(), ts) =~= Seq::<char>::empty());
        assert(out@ + Seq::<char>::empty() =~= out@);
    }
    out
}

/// Rewrites the definitions of the macro `define_name` in `contents` so that
/// they carry `define_value`.
pub fn set_define_value(contents: &str, define_name: &str, define_value: &str) -> (out: String)
    ensures
        out@ == patched(contents@, seq![(Target { name: define_name@, value: define_value@ })]),
{
    let mut targets: Vec<MacroValue> = Vec::new();
    targets.push(
        MacroValue { name: String::from_str(define_name), value: String::from_str(define_value) },
    );
    proof {
        assert(targets_of(targets@) =~= seq![
            (Target { name: define_name@, value: define_value@ }),
        ]);
    }
    apply_targets(contents, &targets)
}

/// A patch of one header: the header to read, and the macros to give new
/// values to. Where two targets have one name, the first counts.
#[derive(Clone, Debug, PartialEq, Eq)]
pub struct HeaderPatch {
    /// The path of the header to patch.
    pub header: String,
    /// The macros and their new values.
    pub targets: Vec<MacroValue>,
}

impl HeaderPatch {
    /// The targets of the patch.
    pub open spec fn targets_view(&self) -> Seq<Target> {
        targets_of(self.targets@)
    }

    /// The patched text of a header that reads `contents`.
    pub fn apply(&self, contents: &str) -> (out: String)
        ensures
            out@ == patched(contents@, self.targets_view()),
    {
        apply_targets(contents, &self.targets)
    }
}

/// The macros by which the vendor's definitions header tells its version,
/// with the values of the release that is built.
pub open spec fn ndpi_define_targets() -> Seq<Target> {
    seq![
        Target { name: "NDPI_API_VERSION"@, value: "0"@ },
        Target { name: "NDPI_MAJOR"@, value: "5"@ },
        Target { name: "NDPI_MINOR"@, value: "0"@ },
        Target { name: "NDPI_PATCH"@, value: "0"@ },
    ]
}

/// A target.
fn macro_value(name: &str, value: &str) -> (m: MacroValue)
    ensures
        m@ == (Target { name: name@, value: value@ }),
{
    MacroValue { name: String::from_str(name), value: String::from_str(value) }
}

/// The patch of the vendor's definitions header at `header`.
pub fn ndpi_define_patch(header: &str) -> (patch: HeaderPatch)
    ensures
        patch.header@ == header@,
        patch.targets_view() == ndpi_define_targets(),
{
    let mut targets: Vec<MacroValue> = Vec::new();
    targets.push(macro_value("NDPI_API_VERSION", "0"));
    targets.push(macro_value("NDPI_MAJOR", "5"));
    targets.push(macro_value("NDPI_MINOR", "0"));
    targets.push(macro_value("NDPI_PATCH", "0"));
    let patch = HeaderPatch { header: String::from_str(header), targets };
    proof {
        assert(patch.targets_view() =~= ndpi_define_targets());
    }
    patch
}

/// The text of a configuration header that tells the release `release` and
/// the date `date`.
pub open spec fn config_header_text(release: Seq<char>, date: Seq<char>) -> Seq<char> {
    "#pragma once\n\n#define NDPI_GIT_RELEASE \""@ + release + "\"\n#define NDPI_GIT_DATE \""@
        + date + "\"\n"@
}

/// Synthesizes a configuration header from the release and the date.
pub fn config_header(release: &str, date: &str) -> (out: String)
    ensures
        out@ == config_header_text(release@, date@),
{
    let mut out = String::from_str("#pragma once\n\n#define NDPI_GIT_RELEASE \"");
    out.append(release);
    out.append("\"\n#define NDPI_GIT_DATE \"");
    out.append(date);
    out.append("\"\n");
    out
}

/// The configuration header of the release that is built. Its date is not
/// known.
pub fn ndpi_config_header() -> (out: String)
    ensures
        out@ == config_header_text("5.0.0"@, "unknown"@),
        out@
            == "#pragma once\n\n#define NDPI_GIT_RELEASE \"5.0.0\"\n#define NDPI_GIT_DATE \"unknown\"\n"@,
{
    let out = config_header("5.0.0", "unknown");
    proof {
        reveal_strlit("#pragma once\n\n#define NDPI_GIT_RELEASE \"");
        reveal_strlit("5.0.0");
        reveal_strlit("\"\n#define NDPI_GIT_DATE \"");
        reveal_strlit("unknown");
        reveal_strlit("\"\n");
        reveal_strlit(
            "#pragma once\n\n#define NDPI_GIT_RELEASE \"5.0.0\"\n#define NDPI_GIT_DATE \"unknown\"\n",
        );
        assert(out@
            =~= "#pragma once\n\n#define NDPI_GIT_RELEASE \"5.0.0\"\n#define NDPI_GIT_DATE \"unknown\"\n"@);
    }
    out
}

} // verus!
