use ndpi_plugin::header::{
    apply_targets, config_header, ndpi_config_header, ndpi_define_patch, set_define_value,
    HeaderPatch, MacroValue,
};

fn target(name: &str, value: &str) -> MacroValue {
    MacroValue { name: name.to_string(), value: value.to_string() }
}

/// The same rewriting, written with the line and token iterators of std.
fn by_std(contents: &str, name: &str, value: &str) -> String {
    let mut out = String::new();
    for line in contents.lines() {
        let mut parts = line.trim_start().split_whitespace();
        if parts.next() == Some("#define") && parts.next() == Some(name) {
            out.push_str("#define ");
            out.push_str(name);
            out.push(' ');
            out.push_str(value);
        } else {
            out.push_str(line);
        }
        out.push('\n');
    }
    out
}

#[test]
fn replaces_the_value_of_a_targeted_define() {
    let input = "#define NDPI_MAJOR 4\n#define NDPI_MINOR 8\n";
    let out = set_define_value(input, "NDPI_MAJOR", "5");
    assert_eq!(out, "#define NDPI_MAJOR 5\n#define NDPI_MINOR 8\n");
}

#[test]
fn leaves_a_text_without_the_macro_as_it_is() {
    let input = "#pragma once\n\nint x;\n";
    assert_eq!(set_define_value(input, "NDPI_MAJOR", "5"), input);
}

#[test]
fn empty_text_stays_empty() {
    assert_eq!(set_define_value("", "A", "1"), "");
}

#[test]
fn a_single_line_feed_is_one_empty_line() {
    assert_eq!(set_define_value("\n", "A", "1"), "\n");
    assert_eq!(set_define_value("\n\n", "A", "1"), "\n\n");
}

#[test]
fn the_last_line_gets_a_line_feed() {
    assert_eq!(set_define_value("int x;", "A", "1"), "int x;\n");
    assert_eq!(set_define_value("#define A 0", "A", "1"), "#define A 1\n");
}

#[test]
fn leading_whitespace_and_tabs_do_not_hide_a_define() {
    let input = "  \t#define\tA\t\t0 /* old */\n";
    assert_eq!(set_define_value(input, "A", "1"), "#define A 1\n");
}

#[test]
fn a_define_without_a_value_is_rewritten() {
    assert_eq!(set_define_value("#define A\n", "A", "1"), "#define A 1\n");
}

#[test]
fn a_name_must_match_as_a_whole_token() {
    let input = "#define AB 0\n#define A_B 0\n#define a 0\n#define A(x) x\n";
    assert_eq!(set_define_value(input, "A", "1"), input);
}

#[test]
fn a_split_keyword_is_no_define() {
    let input = "# define A 0\n#defineA 0\n#DEFINE A 0\n#undef A\n// #define A 0\n";
    assert_eq!(set_define_value(input, "A", "1"), input);
}

#[test]
fn every_definition_of_the_macro_is_rewritten() {
    let input = "#define A 0\nint x;\n#define A 2\n";
    assert_eq!(set_define_value(input, "A", "1"), "#define A 1\nint x;\n#define A 1\n");
}

#[test]
fn a_carriage_return_before_a_line_feed_is_dropped() {
    let input = "#define A 0\r\nint x;\r\n";
    assert_eq!(set_define_value(input, "A", "1"), "#define A 1\nint x;\n");
}

#[test]
fn only_one_carriage_return_is_dropped() {
    assert_eq!(set_define_value("x\r\r\ny", "A", "1"), "x\r\ny\n");
}

#[test]
fn a_carriage_return_at_the_very_end_stays() {
    assert_eq!(set_define_value("x\r", "A", "1"), "x\r\n");
    assert_eq!(set_define_value("a\rb\n", "A", "1"), "a\rb\n");
}

#[test]
fn unicode_whitespace_separates_tokens() {
    let input = "\u{a0}#define\u{2003}A\u{3000}0\n";
    assert_eq!(set_define_value(input, "A", "1"), "#define A 1\n");
}

#[test]
fn a_zero_width_space_is_no_whitespace() {
    let input = "#define\u{200b}A 0\n";
    assert_eq!(set_define_value(input, "A", "1"), input);
}

#[test]
fn an_empty_name_matches_nothing() {
    let input = "#define A 0\n#define\n";
    assert_eq!(set_define_value(input, "", "1"), input);
}

#[test]
fn a_name_with_a_space_matches_nothing() {
    let input = "#define A B\n";
    assert_eq!(set_define_value(input, "A B", "1"), input);
}

#[test]
fn an_empty_value_leaves_the_space_after_the_name() {
    assert_eq!(set_define_value("#define A 0\n", "A", ""), "#define A \n");
}

#[test]
fn text_outside_ascii_is_kept() {
    let input = "/* données ünïcode ✓ */\n#define A 0\n";
    assert_eq!(set_define_value(input, "A", "\"é\""), "/* données ünïcode ✓ */\n#define A \"é\"\n");
}

#[test]
fn agrees_with_the_iterators_of_std() {
    let inputs = [
        "",
        "\n",
        "\r\n",
        "\r",
        "a\r\r\nb",
        "#define A 1",
        "#define A 1\n",
        " #define  A  1 \r\n#define B 2\n\n#define A\n",
        "\t#define\u{85}A\u{2028}x\n",
        "#define A 1\n#define AA 1\n#defineA 1\n #define\n",
        "x\n\n\ny",
        "\u{feff}#define A 1\n",
        "#define A 1\u{b}2\n",
    ];
    for input in inputs {
        for (name, value) in [("A", "5"), ("B", ""), ("", "1"), ("AA", "x y")] {
            assert_eq!(
                set_define_value(input, name, value),
                by_std(input, name, value),
                "{:?} {:?} {:?}",
                input,
                name,
                value
            );
        }
    }
}

#[test]
fn line_count_is_kept_and_only_targeted_lines_change() {
    let input = "#pragma once\n#define NDPI_MAJOR 4\n\n  int x;\n#define NDPI_MINOR 8\n#define NDPI_MAJOR 3\n";
    let out = set_define_value(input, "NDPI_MAJOR", "5");
    let before: Vec<&str> = input.split('\n').collect();
    let after: Vec<&str> = out.split('\n').collect();
    assert_eq!(before.len(), after.len());
    let mut replaced = 0;
    for (old, new) in before.iter().zip(after.iter()) {
        if old.starts_with("#define NDPI_MAJOR") {
            assert_eq!(*new, "#define NDPI_MAJOR 5");
            replaced += 1;
        } else {
            assert_eq!(old, new);
        }
    }
    assert_eq!(replaced, 2);
}

#[test]
fn a_second_pass_changes_nothing() {
    let input = "  #define NDPI_MAJOR   4 // x\nint y;\n#define NDPI_MINOR 8";
    let once = set_define_value(input, "NDPI_MAJOR", "5");
    let twice = set_define_value(&once, "NDPI_MAJOR", "5");
    assert_eq!(once, twice);
    assert_eq!(once, "#define NDPI_MAJOR 5\nint y;\n#define NDPI_MINOR 8\n");
}

#[test]
fn a_second_pass_changes_nothing_where_the_value_ends_in_a_carriage_return() {
    let once = set_define_value("#define A 0\n", "A", "1\r");
    assert_eq!(once, "#define A 1\r\n");
    assert_eq!(set_define_value(&once, "A", "1\r"), once);
}

#[test]
fn a_value_with_a_line_feed_adds_a_line_and_unsettles_a_second_pass() {
    let once = set_define_value("#define A 0\n", "A", "1\nB");
    assert_eq!(once, "#define A 1\nB\n");
    let twice = set_define_value(&once, "A", "1\nB");
    assert_eq!(twice, "#define A 1\nB\nB\n");
}

#[test]
fn a_second_pass_drops_a_second_carriage_return() {
    let once = set_define_value("x\r\r\n", "A", "1");
    assert_eq!(once, "x\r\n");
    assert_eq!(set_define_value(&once, "A", "1"), "x\n");
}

#[test]
fn several_macros_are_rewritten_in_one_pass() {
    let targets = vec![target("A", "1"), target("B", "2")];
    let input = "#define B 0\n#define C 0\n#define A 0\n";
    assert_eq!(apply_targets(input, &targets), "#define B 2\n#define C 0\n#define A 1\n");
}

#[test]
fn the_first_of_two_targets_of_one_name_counts() {
    let targets = vec![target("A", "1"), target("A", "2")];
    assert_eq!(apply_targets("#define A 0\n", &targets), "#define A 1\n");
}

#[test]
fn no_targets_only_normalise_the_line_endings() {
    assert_eq!(apply_targets("#define A 0\r\nx", &Vec::new()), "#define A 0\nx\n");
}

#[test]
fn one_pass_over_one_name_is_what_set_define_value_does() {
    let input = " #define A 0\r\n#define B 1\n";
    assert_eq!(apply_targets(input, &vec![target("B", "7")]), set_define_value(input, "B", "7"));
}

#[test]
fn the_definitions_header_gets_the_version_of_the_release() {
    let patch = ndpi_define_patch("/v/windows/src/ndpi_define.h");
    assert_eq!(patch.header, "/v/windows/src/ndpi_define.h");
    assert_eq!(
        patch.targets,
        vec![
            target("NDPI_API_VERSION", "0"),
            target("NDPI_MAJOR", "5"),
            target("NDPI_MINOR", "0"),
            target("NDPI_PATCH", "0"),
        ]
    );
    let input = "#ifndef __NDPI_DEFINE_INCLUDE_FILE__\n#define __NDPI_DEFINE_INCLUDE_FILE__\n\n#define NDPI_API_VERSION @NDPI_API_VERSION@\n#define NDPI_MAJOR @NDPI_MAJOR@\n#define NDPI_MINOR @NDPI_MINOR@\n#define NDPI_PATCH @NDPI_PATCH@\n#define NDPI_MAX 8\n#endif\n";
    let want = "#ifndef __NDPI_DEFINE_INCLUDE_FILE__\n#define __NDPI_DEFINE_INCLUDE_FILE__\n\n#define NDPI_API_VERSION 0\n#define NDPI_MAJOR 5\n#define NDPI_MINOR 0\n#define NDPI_PATCH 0\n#define NDPI_MAX 8\n#endif\n";
    assert_eq!(patch.apply(input), want);
    let mut step_by_step = input.to_string();
    for t in &patch.targets {
        step_by_step = set_define_value(&step_by_step, &t.name, &t.value);
    }
    assert_eq!(step_by_step, want);
}

#[test]
fn a_patch_applies_its_targets() {
    let patch = HeaderPatch { header: "h.h".to_string(), targets: vec![target("X", "y z")] };
    assert_eq!(patch.apply("#define X\n#define Y\n"), "#define X y z\n#define Y\n");
}

#[test]
fn the_configuration_header_is_fixed() {
    assert_eq!(
        ndpi_config_header(),
        "#pragma once\n\n#define NDPI_GIT_RELEASE \"5.0.0\"\n#define NDPI_GIT_DATE \"unknown\"\n"
    );
}

#[test]
fn a_configuration_header_tells_release_and_date() {
    assert_eq!(
        config_header("4.8.1", "2024-01-02"),
        "#pragma once\n\n#define NDPI_GIT_RELEASE \"4.8.1\"\n#define NDPI_GIT_DATE \"2024-01-02\"\n"
    );
    assert_eq!(config_header("", ""), "#pragma once\n\n#define NDPI_GIT_RELEASE \"\"\n#define NDPI_GIT_DATE \"\"\n");
}
