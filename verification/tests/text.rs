use music_man::path::{extension, file_name, join, sanitize_filename, stem};
use music_man::text::{
    char_is_space, chars_of, find_from, join_with, occurs, rfind_char, split_once,
    split_whitespace, starts_with, to_lower, to_lower_char, trim,
};

fn chars(s: &str) -> Vec<char> {
    s.chars().collect()
}

#[test]
fn trim_drops_white_space_at_both_ends_only() {
    assert_eq!(trim("  a b \t\n"), "a b");
    assert_eq!(trim("a"), "a");
    assert_eq!(trim(""), "");
    assert_eq!(trim(" \u{a0}\u{3000} "), "");
    assert_eq!(trim("\u{2003}x\u{2028}"), "x");
    assert_eq!(trim("\u{200b}x"), "\u{200b}x");
}

#[test]
fn trim_agrees_with_std_on_every_white_space_character() {
    let mut code: u32 = 0;
    while code <= 0x3100 {
        if let Some(c) = char::from_u32(code) {
            assert_eq!(char_is_space(c), c.is_whitespace(), "code point {:x}", code);
        }
        code += 1;
    }
}

#[test]
fn lower_case_touches_ascii_letters_only() {
    assert_eq!(to_lower("The BEATLES 123 \u{c9}\u{e9}"), "the beatles 123 \u{c9}\u{e9}");
    assert_eq!(to_lower(""), "");
    assert_eq!(to_lower_char('A'), 'a');
    assert_eq!(to_lower_char('Z'), 'z');
    assert_eq!(to_lower_char('@'), '@');
    assert_eq!(to_lower_char('['), '[');
    assert_eq!(to_lower_char('\u{212a}'), '\u{212a}');
}

#[test]
fn chars_are_the_scalar_values_in_order() {
    assert_eq!(chars_of("h\u{e9}llo"), vec!['h', '\u{e9}', 'l', 'l', 'o']);
    assert_eq!(chars_of(""), Vec::<char>::new());
    assert_eq!(chars_of("\u{1f3b5}a"), vec!['\u{1f3b5}', 'a']);
}

#[test]
fn find_gives_the_first_match() {
    let v = chars("abcabc");
    assert_eq!(find_from(&v, &chars("bc"), 0), Some(1));
    assert_eq!(find_from(&v, &chars("bc"), 2), Some(4));
    assert_eq!(find_from(&v, &chars("bc"), 5), None);
    assert_eq!(find_from(&v, &chars("x"), 0), None);
    assert_eq!(find_from(&v, &chars(""), 0), Some(0));
    assert_eq!(find_from(&v, &chars(""), 6), Some(6));
    assert_eq!(find_from(&v, &chars(""), 7), None);
    assert_eq!(find_from(&v, &chars("abcabcd"), 0), None);
    assert!(occurs(&v, &chars("cab"), 2));
    assert!(!occurs(&v, &chars("cab"), 3));
    assert!(!occurs(&v, &chars("c"), 6));
}

#[test]
fn rfind_char_gives_the_last_match() {
    assert_eq!(rfind_char(&chars("a.b.c"), '.'), Some(3));
    assert_eq!(rfind_char(&chars(".abc"), '.'), Some(0));
    assert_eq!(rfind_char(&chars("abc"), '.'), None);
    assert_eq!(rfind_char(&chars(""), '.'), None);
}

#[test]
fn split_once_cuts_at_the_first_match() {
    assert_eq!(split_once("a - b - c", " - "), Some(("a".to_string(), "b - c".to_string())));
    assert_eq!(split_once(" - x", " - "), Some(("".to_string(), "x".to_string())));
    assert_eq!(split_once("x - ", " - "), Some(("x".to_string(), "".to_string())));
    assert_eq!(split_once("a-b", " - "), None);
    assert_eq!(split_once("", " - "), None);
}

#[test]
fn starts_with_compares_the_beginning() {
    assert!(starts_with("._x.mp3", "._"));
    assert!(!starts_with(".x_", "._"));
    assert!(!starts_with(".", "._"));
    assert!(starts_with("abc", ""));
    assert!(starts_with("", ""));
}

#[test]
fn words_are_the_runs_between_white_space() {
    assert_eq!(split_whitespace("  The   Beatles\t"), vec!["The".to_string(), "Beatles".to_string()]);
    assert_eq!(split_whitespace("one"), vec!["one".to_string()]);
    assert_eq!(split_whitespace(" \n "), Vec::<String>::new());
    assert_eq!(split_whitespace(""), Vec::<String>::new());
    assert_eq!(split_whitespace("a\u{a0}b"), vec!["a".to_string(), "b".to_string()]);
}

#[test]
fn join_puts_the_separator_between() {
    let parts = vec!["a".to_string(), "b".to_string(), "c".to_string()];
    assert_eq!(join_with(&parts, ", "), "a, b, c");
    assert_eq!(join_with(&vec!["a".to_string()], ", "), "a");
    assert_eq!(join_with(&Vec::new(), ", "), "");
    assert_eq!(join_with(&vec!["".to_string(), "".to_string()], "-"), "-");
}

#[test]
fn file_name_is_what_follows_the_last_slash() {
    assert_eq!(file_name("/a/b/c.mp3"), "c.mp3");
    assert_eq!(file_name("c.mp3"), "c.mp3");
    assert_eq!(file_name("/a/b/"), "");
    assert_eq!(file_name(""), "");
    assert_eq!(file_name("a\\b"), "a\\b");
}

#[test]
fn stem_and_extension_part_at_the_last_dot() {
    assert_eq!(stem("a.b.mp3"), "a.b");
    assert_eq!(extension("a.b.mp3"), Some("mp3".to_string()));
    assert_eq!(stem("noext"), "noext");
    assert_eq!(extension("noext"), None);
    assert_eq!(stem(".hidden"), ".hidden");
    assert_eq!(extension(".hidden"), None);
    assert_eq!(stem(".hidden.mp3"), ".hidden");
    assert_eq!(extension(".hidden.mp3"), Some("mp3".to_string()));
    assert_eq!(stem("trailing."), "trailing");
    assert_eq!(extension("trailing."), Some("".to_string()));
    assert_eq!(stem(""), "");
    assert_eq!(extension(""), None);
}

#[test]
fn stem_and_extension_agree_with_std_on_plain_names() {
    for name in ["a.mp3", "a.b.c", ".x", ".x.y", "a.", "a", "The Beatles - Yesterday.mp3", "a..b"] {
        let p = std::path::Path::new(name);
        assert_eq!(Some(stem(name)), p.file_stem().map(|s| s.to_string_lossy().to_string()));
        assert_eq!(extension(name), p.extension().map(|s| s.to_string_lossy().to_string()));
    }
}

#[test]
fn join_puts_one_slash_between() {
    assert_eq!(join("/dev", "mix"), "/dev/mix");
    assert_eq!(join("/dev/", "mix"), "/dev/mix");
    assert_eq!(join("", "mix"), "mix");
    assert_eq!(join("/dev", "/abs"), "/abs");
    assert_eq!(join("/dev", ""), "/dev/");
    assert_eq!(join("/", "x"), "/x");
}

#[test]
fn join_agrees_with_std() {
    for (base, name) in [("/dev", "mix"), ("/dev/", "mix"), ("", "mix"), ("/dev", "/abs"), ("/dev", ""), ("a/b", "c d.mp3")] {
        let joined = std::path::Path::new(base).join(name);
        assert_eq!(join(base, name), joined.to_string_lossy());
    }
}

#[test]
fn sanitize_replaces_reserved_characters() {
    assert_eq!(sanitize_filename("a/b\\c:d*e?f\"g<h>i|j"), "a_b_c_d_e_f_g_h_i_j");
    assert_eq!(sanitize_filename("AC/DC"), "AC_DC");
    assert_eq!(sanitize_filename("plain name.mp3"), "plain name.mp3");
    assert_eq!(sanitize_filename(""), "");
}
