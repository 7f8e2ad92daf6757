use cargo_merge::text::{
    chars_of, is_white_space, chain, chain3, dir_of, matches_at, push_all, replace_all, same, split_lines,
    starts_with, string_of, string_of_range, trim,
};

#[test]
fn chars_and_back() {
    let chars = chars_of("añb");
    assert_eq!(chars, vec!['a', 'ñ', 'b']);
    assert_eq!(string_of(&chars), "añb");
    assert_eq!(string_of(&Vec::new()), "");
    assert_eq!(string_of_range(&chars, 1, 3), "ñb");
    assert_eq!(string_of_range(&chars, 2, 2), "");
}

#[test]
fn push_all_appends_in_order() {
    let mut out = vec!['x'];
    push_all(&mut out, &vec!['y', 'z']);
    assert_eq!(out, vec!['x', 'y', 'z']);
}

#[test]
fn matches_at_each_position() {
    let text = chars_of("abcabc");
    let pattern = chars_of("bc");
    assert!(!matches_at(&text, 0, &pattern));
    assert!(matches_at(&text, 1, &pattern));
    assert!(matches_at(&text, 4, &pattern));
    assert!(!matches_at(&text, 5, &pattern));
    assert!(!matches_at(&text, 6, &pattern));
    assert!(matches_at(&text, 6, &Vec::new()));
}

#[test]
fn replace_all_replaces_every_occurrence() {
    assert_eq!(replace_all("crate::a::crate", "crate", "crate::pkg"), "crate::pkg::a::crate::pkg");
    assert_eq!(replace_all("my-pkg-name", "-", "_"), "my_pkg_name");
    assert_eq!(replace_all("\"name\"", "\"", ""), "name");
    assert_eq!(replace_all("abc", "x", "y"), "abc");
    assert_eq!(replace_all("", "x", "y"), "");
}

#[test]
fn replace_all_takes_occurrences_from_the_left_without_overlap() {
    assert_eq!(replace_all("aaa", "aa", "b"), "ba");
    assert_eq!(replace_all("aaaa", "aa", "b"), "bb");
    assert_eq!(replace_all("eaa", "ea", "crate"), "cratea");
}

#[test]
fn replace_all_of_the_empty_pattern_puts_the_replacement_between_all_characters() {
    assert_eq!(replace_all("ab", "", "-"), "-a-b-");
    assert_eq!(replace_all("", "", "-"), "-");
    assert_eq!("ab".replace("", "-"), replace_all("ab", "", "-"));
}

#[test]
fn replace_all_agrees_with_the_standard_library() {
    let cases = [
        ("use crate::a::b;", "crate", "crate::x"),
        ("cratecrate", "crate", ""),
        ("crcrateate", "crate", ""),
        ("abababa", "aba", "c"),
        ("héllo wörld", "ö", "oe"),
    ];
    for (text, from, to) in cases {
        assert_eq!(replace_all(text, from, to), text.replace(from, to));
    }
}

#[test]
fn starts_with_compares_the_beginning() {
    assert!(starts_with("helper_lib::util", "helper_lib"));
    assert!(starts_with("helper_lib", "helper_lib"));
    assert!(starts_with("anything", ""));
    assert!(!starts_with("helper", "helper_lib"));
    assert!(!starts_with("my_helper_lib", "helper_lib"));
}

#[test]
fn trim_removes_white_space_at_both_ends_only() {
    assert_eq!(trim("  a b \t"), "a b");
    assert_eq!(trim("\u{a0}x\u{2003}"), "x");
    assert_eq!(trim("   "), "");
    assert_eq!(trim(""), "");
    assert_eq!(trim("a"), "a");
}

#[test]
fn white_space_is_what_the_standard_library_takes_for_it() {
    for code in 0..=0x10FFFFu32 {
        if let Some(c) = char::from_u32(code) {
            assert_eq!(is_white_space(c), c.is_whitespace(), "U+{:04X}", code);
        }
    }
    assert!(is_white_space(' ') && is_white_space('\t') && is_white_space('\u{3000}'));
    assert!(!is_white_space('a') && !is_white_space('\u{200B}') && !is_white_space('\u{180E}'));
}

#[test]
fn trim_agrees_with_the_standard_library() {
    for text in ["", " ", " a ", "\u{85}x\u{2028}", "\u{200B} y", "\t\n\r z \u{205F}"] {
        assert_eq!(trim(text), text.trim());
    }
}

#[test]
fn same_compares_texts() {
    assert!(same("src/lib.rs", "src/lib.rs"));
    assert!(!same("src/lib.rs", "src/lib"));
    assert!(same("", ""));
}

#[test]
fn concat_joins_texts() {
    assert_eq!(chain("src/foo", ".rs"), "src/foo.rs");
    assert_eq!(chain3("pub mod ", "foo", " {"), "pub mod foo {");
}

#[test]
fn split_lines_ends_a_line_at_each_line_feed() {
    assert_eq!(split_lines("a\nb\n"), vec!["a", "b"]);
    assert_eq!(split_lines("a\nb"), vec!["a", "b"]);
    assert_eq!(split_lines("a\n\nb\n"), vec!["a", "", "b"]);
    assert_eq!(split_lines("\n"), vec![""]);
    assert_eq!(split_lines(""), Vec::<String>::new());
}

#[test]
fn split_lines_drops_a_carriage_return_before_a_line_feed_only() {
    assert_eq!(split_lines("a\r\nb\r\n"), vec!["a", "b"]);
    assert_eq!(split_lines("a\rb\n"), vec!["a\rb"]);
    assert_eq!(split_lines("a\r\r\n"), vec!["a\r"]);
    assert_eq!(split_lines("a\r"), vec!["a\r"]);
}

#[test]
fn split_lines_agrees_with_the_standard_library() {
    for text in ["", "a", "a\n", "a\r\n\r\nb", "\n\n", "x\ry\r\nz\r"] {
        let expected: Vec<String> = text.lines().map(|line| line.to_string()).collect();
        assert_eq!(split_lines(text), expected);
    }
}

#[test]
fn dir_of_keeps_what_stands_up_to_the_last_slash() {
    assert_eq!(dir_of("src/lib"), "src/");
    assert_eq!(dir_of("../helper-lib/src/lib"), "../helper-lib/src/");
    assert_eq!(dir_of("lib"), "");
    assert_eq!(dir_of("/lib"), "/");
    assert_eq!(dir_of("src/"), "src/");
    assert_eq!(dir_of(""), "");
}
