//! What holds of every patch: the lines stay apart, and a second pass
//! changes nothing.

use crate::header::{
    after_first_line, after_first_token, define_keyword, define_line, defined_name, first_line,
    first_token, is_targeted, lines, ndpi_define_targets, patch_line, patch_lines, patched,
    raw_lines, replacement, second_token, split_lines, strip_cr, terminated, trim_start, Target,
};
use crate::text::{all_admitted, lemma_run_len, lemma_run_len_is, run_len, Run};
use vstd::prelude::*;

verus! {

/// Whether `s` holds no line feed.
pub open spec fn is_single_line(s: Seq<char>) -> bool {
    all_admitted(s, Run::Line)
}

/// Whether `s` ends in a carriage return.
pub open spec fn ends_in_cr(s: Seq<char>) -> bool {
    s.len() > 0 && s.last() == '\r'
}

/// `ls`, each without one carriage return at its end if `strip` is set.
pub open spec fn each_stripped(ls: Seq<Seq<char>>, strip: bool) -> Seq<Seq<char>> {
    Seq::new(
        ls.len(),
        |i: int|
            if strip {
                strip_cr(ls[i])
            } else {
                ls[i]
            },
    )
}

/// No line of a text holds a line feed.
pub proof fn lemma_lines_are_single(s: Seq<char>, strip: bool)
    ensures
        forall|i: int|
            0 <= i < split_lines(s, strip).len() ==> is_single_line(
                #[trigger] split_lines(s, strip)[i],
            ),
    decreases s.len(),
{
    if s.len() > 0 {
        lemma_run_len(s, Run::Line);
        let n = run_len(s, Run::Line) as int;
        let first = first_line(s, strip);
        assert(is_single_line(first)) by {
            if n < s.len() {
                let body = s.take(n);
                assert forall|i: int| 0 <= i < first.len() implies Run::Line.admits(
                    #[trigger] first[i],
                ) by {
                    assert(first[i] == body[i]);
                }
            } else {
                assert(s.take(n) =~= s);
            }
        }
        let rest = split_lines(after_first_line(s), strip);
        lemma_lines_are_single(after_first_line(s), strip);
        assert forall|i: int| 0 <= i < split_lines(s, strip).len() implies is_single_line(
            #[trigger] split_lines(s, strip)[i],
        ) by {
            if i > 0 {
                assert(split_lines(s, strip)[i] == rest[i - 1]);
            }
        }
    }
}

/// Lines that hold no line feed come back out of the text made of them.
pub proof fn lemma_lines_of_terminated(ls: Seq<Seq<char>>, strip: bool)
    requires
        forall|i: int| 0 <= i < ls.len() ==> is_single_line(#[trigger] ls[i]),
    ensures
        split_lines(terminated(ls), strip) == each_stripped(ls, strip),
    decreases ls.len(),
{
    if ls.len() == 0 {
        assert(split_lines(terminated(ls), strip) =~= each_stripped(ls, strip));
    } else {
        let head = ls[0];
        let tail = ls.drop_first();
        let t = terminated(ls);
        let n = head.len() as int;
        assert(t == head + seq!['\n'] + terminated(tail));
        assert(t.take(n) =~= head);
        assert(t[n] == '\n');
        assert(is_single_line(head));
        lemma_run_len_is(t, Run::Line, n);
        assert(after_first_line(t) =~= terminated(tail));
        assert forall|i: int| 0 <= i < tail.len() implies is_single_line(#[trigger] tail[i]) by {
            assert(tail[i] == ls[i + 1]);
        }
        lemma_lines_of_terminated(tail, strip);
        assert(split_lines(t, strip) =~= each_stripped(ls, strip)) by {
            let got = split_lines(t, strip);
            let rest = each_stripped(tail, strip);
            assert(got == seq![first_line(t, strip)] + rest);
            assert forall|i: int| 0 <= i < ls.len() implies got[i] == each_stripped(ls, strip)[i] by {
                if i > 0 {
                    assert(got[i] == rest[i - 1]);
                    assert(tail[i - 1] == ls[i]);
                }
            }
        }
    }
}

/// The keyword is seven characters, none of them whitespace.
pub proof fn lemma_define_keyword()
    ensures
        define_keyword().len() == 7,
        all_admitted(define_keyword(), Run::Word),
        is_single_line(define_keyword()),
{
    reveal_strlit("#define");
}

/// The name of a defined macro is a token: it is not empty and holds no
/// whitespace.
pub proof fn lemma_defined_name_is_token(line: Seq<char>)
    requires
        defined_name(line) is Some,
    ensures
        defined_name(line)->0.len() > 0,
        all_admitted(defined_name(line)->0, Run::Word),
{
    let t = trim_start(after_first_token(line));
    lemma_run_len(t, Run::Word);
}

/// A definition line defines the macro that it was written for.
pub proof fn lemma_define_line_defines(name: Seq<char>, value: Seq<char>)
    requires
        name.len() > 0,
        all_admitted(name, Run::Word),
    ensures
        defined_name(define_line(name, value)) == Some(name),
{
    lemma_define_keyword();
    let keyword = define_keyword();
    let line = define_line(name, value);
    assert(line[0] == keyword[0]);
    assert(!Run::Blank.admits(line[0]));
    assert(run_len(line, Run::Blank) == 0);
    assert(trim_start(line) =~= line);
    assert(line.take(7) =~= keyword);
    assert(line[7] == ' ');
    lemma_run_len_is(line, Run::Word, 7);
    assert(first_token(line) == keyword);
    let rest = after_first_token(line);
    assert(rest =~= seq![' '] + name + seq![' '] + value);
    assert(rest[1] == name[0]);
    assert(rest.take(1) =~= seq![' ']);
    lemma_run_len_is(rest, Run::Blank, 1);
    let tail = trim_start(rest);
    assert(tail =~= name + seq![' '] + value);
    assert(tail.take(name.len() as int) =~= name);
    assert(tail[name.len() as int] == ' ');
    lemma_run_len_is(tail, Run::Word, name.len() as int);
    assert(second_token(line) == name);
}

/// Whether the patch keeps the lines of `text` apart: no value that it
/// writes holds a line feed.
pub open spec fn keeps_lines(text: Seq<char>, targets: Seq<Target>) -> bool {
    forall|i: int|
        0 <= i < lines(text).len() && is_targeted(#[trigger] lines(text)[i], targets)
            ==> is_single_line(replacement(targets, defined_name(lines(text)[i])->0)->0)
}

/// Every line that the patch emits holds no line feed, where the values
/// that it writes hold none.
pub proof fn lemma_emitted_are_single(text: Seq<char>, targets: Seq<Target>)
    requires
        keeps_lines(text, targets),
    ensures
        forall|i: int|
            0 <= i < lines(text).len() ==> is_single_line(
                #[trigger] patch_lines(lines(text), targets)[i],
            ),
{
    let ls = lines(text);
    lemma_lines_are_single(text, true);
    lemma_define_keyword();
    assert forall|i: int| 0 <= i < ls.len() implies is_single_line(
        #[trigger] patch_lines(ls, targets)[i],
    ) by {
        let line = ls[i];
        assert(is_single_line(line));
        if is_targeted(line, targets) {
            let name = defined_name(line)->0;
            let value = replacement(targets, name)->0;
            lemma_defined_name_is_token(line);
            assert(is_single_line(value));
            let emitted = define_line(name, value);
            assert forall|j: int| 0 <= j < emitted.len() implies Run::Line.admits(
                #[trigger] emitted[j],
            ) by {
                if j < 7 {
                    assert(emitted[j] == define_keyword()[j]);
                } else if j == 7 {
                } else if j < 8 + name.len() {
                    assert(emitted[j] == name[j - 8]);
                    assert(Run::Word.admits(name[j - 8]));
                } else if j == 8 + name.len() {
                } else {
                    assert(emitted[j] == value[j - 9 - name.len()]);
                }
            }
        }
    }
}

/// The patch keeps the count and the order of the lines: read line by line,
/// the patched text has a line for each line of the input, which is the new
/// definition where the input line is targeted and the input line itself,
/// character for character, where it is not. This holds where no value that
/// the patch writes holds a line feed.
pub proof fn lemma_patch_keeps_lines(text: Seq<char>, targets: Seq<Target>)
    requires
        keeps_lines(text, targets),
    ensures
        raw_lines(patched(text, targets)) == patch_lines(lines(text), targets),
        raw_lines(patched(text, targets)).len() == lines(text).len(),
        lines(patched(text, targets)).len() == lines(text).len(),
        forall|i: int|
            0 <= i < lines(text).len() && !is_targeted(#[trigger] lines(text)[i], targets)
                ==> raw_lines(patched(text, targets))[i] == lines(text)[i],
        forall|i: int|
            0 <= i < lines(text).len() && is_targeted(#[trigger] lines(text)[i], targets)
                ==> raw_lines(patched(text, targets))[i] == define_line(
                defined_name(lines(text)[i])->0,
                replacement(targets, defined_name(lines(text)[i])->0)->0,
            ),
{
    let emitted = patch_lines(lines(text), targets);
    lemma_emitted_are_single(text, targets);
    lemma_lines_of_terminated(emitted, false);
    lemma_lines_of_terminated(emitted, true);
    assert(each_stripped(emitted, false) =~= emitted);
}

/// A replacement is the value of one of the targets.
pub proof fn lemma_replacement_is_a_value(targets: Seq<Target>, name: Seq<char>)
    requires
        replacement(targets, name) is Some,
    ensures
        exists|k: int|
            0 <= k < targets.len() && (#[trigger] targets[k]).name == name && targets[k].value
                == replacement(targets, name)->0,
    decreases targets.len(),
{
    if targets[0].name != name {
        let rest = targets.drop_first();
        lemma_replacement_is_a_value(rest, name);
        let k = choose|k: int|
            0 <= k < rest.len() && (#[trigger] rest[k]).name == name && rest[k].value
                == replacement(rest, name)->0;
        assert(targets[k + 1] == rest[k]);
    }
}

/// Of two lists of targets, one after the other, the first that names a
/// macro gives its value.
pub proof fn lemma_replacement_of_both(first: Seq<Target>, second: Seq<Target>, name: Seq<char>)
    ensures
        replacement(first + second, name) == if replacement(first, name) is Some {
            replacement(first, name)
        } else {
            replacement(second, name)
        },
    decreases first.len(),
{
    if first.len() == 0 {
        assert(first + second =~= second);
    } else {
        assert((first + second)[0] == first[0]);
        assert((first + second).drop_first() =~= first.drop_first() + second);
        lemma_replacement_of_both(first.drop_first(), second, name);
    }
}

/// Where no value of the targets holds a line feed, the patch keeps the
/// lines of every text apart.
pub proof fn lemma_plain_values_keep_lines(text: Seq<char>, targets: Seq<Target>)
    requires
        forall|k: int| 0 <= k < targets.len() ==> is_single_line((#[trigger] targets[k]).value),
    ensures
        keeps_lines(text, targets),
{
    assert forall|i: int|
        0 <= i < lines(text).len() && is_targeted(
            #[trigger] lines(text)[i],
            targets,
        ) implies is_single_line(replacement(targets, defined_name(lines(text)[i])->0)->0) by {
        lemma_replacement_is_a_value(targets, defined_name(lines(text)[i])->0);
    }
}

/// The patch of the vendor's definitions header keeps the lines of every
/// header apart.
pub proof fn lemma_ndpi_define_patch_keeps_lines(text: Seq<char>)
    ensures
        keeps_lines(text, ndpi_define_targets()),
{
    reveal_strlit("0");
    reveal_strlit("5");
    lemma_plain_values_keep_lines(text, ndpi_define_targets());
}

/// Whether a second pass of the patch finds `text` as the first pass left
/// it: no value written into it holds a line feed, and no line that stays
/// ends in a carriage return.
pub open spec fn settles(text: Seq<char>, targets: Seq<Target>) -> bool {
    &&& keeps_lines(text, targets)
    &&& forall|i: int|
        0 <= i < lines(text).len() && !is_targeted(#[trigger] lines(text)[i], targets)
            ==> !ends_in_cr(lines(text)[i])
}

/// Patching the patched text again, with the same targets, changes nothing.
pub proof fn lemma_patch_idempotent(text: Seq<char>, targets: Seq<Target>)
    requires
        settles(text, targets),
    ensures
        patched(patched(text, targets), targets) == patched(text, targets),
{
    let ls = lines(text);
    let emitted = patch_lines(ls, targets);
    lemma_emitted_are_single(text, targets);
    lemma_lines_of_terminated(emitted, true);
    let again = lines(patched(text, targets));
    assert(again == each_stripped(emitted, true));
    assert forall|i: int| 0 <= i < ls.len() implies patch_line(#[trigger] again[i], targets)
        == emitted[i] by {
        let line = ls[i];
        if is_targeted(line, targets) {
            let name = defined_name(line)->0;
            let value = replacement(targets, name)->0;
            lemma_defined_name_is_token(line);
            let kept = if ends_in_cr(value) {
                value.drop_last()
            } else {
                value
            };
            assert(emitted[i] == define_line(name, value));
            assert(strip_cr(define_line(name, value)) =~= define_line(name, kept));
            lemma_define_line_defines(name, kept);
        } else {
            assert(emitted[i] == line);
            assert(!ends_in_cr(line));
        }
    }
    assert(patch_lines(again, targets) =~= emitted);
}

/// One pass over the targets of two lists does what a pass over the first
/// list and then a pass over the second do, where no line of the text ends
/// in a carriage return, the values of the first list stay on their line
/// and end in none, and the second list names no macro of the first.
pub proof fn lemma_one_pass_is_two(text: Seq<char>, first: Seq<Target>, second: Seq<Target>)
    requires
        forall|i: int| 0 <= i < lines(text).len() ==> !ends_in_cr(#[trigger] lines(text)[i]),
        forall|k: int|
            0 <= k < first.len() ==> is_single_line((#[trigger] first[k]).value) && !ends_in_cr(
                first[k].value,
            ),
        forall|j: int, k: int|
            0 <= j < first.len() && 0 <= k < second.len() ==> (#[trigger] first[j]).name
                != (#[trigger] second[k]).name,
    ensures
        patched(patched(text, first), second) == patched(text, first + second),
{
    let ls = lines(text);
    let emitted = patch_lines(ls, first);
    lemma_plain_values_keep_lines(text, first);
    lemma_emitted_are_single(text, first);
    lemma_lines_of_terminated(emitted, true);
    let again = lines(patched(text, first));
    assert(again == each_stripped(emitted, true));
    assert forall|i: int| 0 <= i < ls.len() implies patch_line(#[trigger] again[i], second)
        == patch_line(ls[i], first + second) by {
        let line = ls[i];
        if is_targeted(line, first) {
            let name = defined_name(line)->0;
            let value = replacement(first, name)->0;
            lemma_defined_name_is_token(line);
            lemma_replacement_is_a_value(first, name);
            lemma_replacement_of_both(first, second, name);
            assert(emitted[i] == define_line(name, value));
            assert(define_line(name, value).last() == if value.len() > 0 {
                value.last()
            } else {
                ' '
            });
            assert(again[i] == define_line(name, value));
            lemma_define_line_defines(name, value);
            assert(replacement(second, name) is None) by {
                if replacement(second, name) is Some {
                    lemma_replacement_is_a_value(second, name);
                }
            }
        } else {
            assert(again[i] == line);
            if defined_name(line) is Some {
                lemma_replacement_of_both(first, second, defined_name(line)->0);
            }
        }
    }
    assert(patch_lines(again, second) =~= patch_lines(ls, first + second));
}

} // verus!
