use quantum_launcher::text::{
    chars_of, contains_exec, ends_with_exec, field_bounds, find_char_from, find_exec,
    is_blank, is_whitespace, join_with, lines_of, parse_i64, push_decimal, replace_all_exec,
    replace_char_exec, starts_with_exec, str_eq, trimmed, words_of,
};

fn s(v: &[char]) -> String {
    v.iter().collect()
}

#[test]
fn chars_and_strings() {
    let v = chars_of("héllo");
    assert_eq!(v, vec!['h', 'é', 'l', 'l', 'o']);
    assert!(chars_of("").is_empty());
    assert_eq!(trimmed(" héllo wörld "), "héllo wörld");
}

#[test]
fn whitespace_agrees_with_std() {
    for c in [' ', '\t', '\n', '\u{a0}', '\u{3000}', 'a', '0', '\u{200b}'] {
        assert_eq!(is_whitespace(c), c.is_whitespace());
    }
}

#[test]
fn trimmed_agrees_with_str_trim() {
    for t in ["  a b  ", "", " \t\n", "x", "\u{3000}y\u{a0}"] {
        assert_eq!(trimmed(t), t.trim());
    }
}

#[test]
fn trimming_twice_is_trimming_once() {
    let once = trimmed("  \tkeep  this \n");
    assert_eq!(trimmed(&once), once);
    assert_eq!(once, "keep  this");
}

#[test]
fn blank_text() {
    assert!(is_blank(""));
    assert!(is_blank(" \n\t"));
    assert!(!is_blank(" a "));
}

#[test]
fn prefix_suffix_and_contains() {
    let v = chars_of("minecraft.jar");
    assert!(starts_with_exec(&v, &chars_of("mine")));
    assert!(!starts_with_exec(&v, &chars_of("craft")));
    assert!(ends_with_exec(&v, &chars_of(".jar")));
    assert!(!ends_with_exec(&v, &chars_of(".zip")));
    assert!(contains_exec(&v, &chars_of("craft")));
    assert!(!contains_exec(&v, &chars_of("forge")));
    assert_eq!(find_exec(&v, &chars_of("c")), Some(4));
    assert_eq!(find_exec(&v, &chars_of("q")), None);
}

#[test]
fn replace_all_agrees_with_str_replace() {
    for (t, from, to) in [("aaa", "aa", "b"), ("a-b-c", "-", "--"), ("none", "x", "y"), ("", "a", "b")] {
        let r = replace_all_exec(&chars_of(t), &chars_of(from), &chars_of(to));
        assert_eq!(s(&r), t.replace(from, to));
    }
    let r = replace_char_exec(&chars_of("a/b/c"), '/', &chars_of("::"));
    assert_eq!(s(&r), "a::b::c");
}

#[test]
fn find_and_split_fields() {
    let v = chars_of("a:bc::d");
    assert_eq!(find_char_from(&v, ':', 0), 1);
    assert_eq!(find_char_from(&v, ':', 2), 4);
    assert_eq!(find_char_from(&v, 'z', 0), 7);
    let (i, j) = field_bounds(&v, ':', 1);
    assert_eq!(s(&v[i..j]), "bc");
    let (i, j) = field_bounds(&v, ':', 2);
    assert_eq!(s(&v[i..j]), "");
    let (i, j) = field_bounds(&v, ':', 3);
    assert_eq!(s(&v[i..j]), "d");
}

#[test]
fn decimal_rendering() {
    for n in [0u64, 7, 10, 1234, u64::MAX] {
        let mut out = Vec::new();
        push_decimal(&mut out, n);
        assert_eq!(s(&out), n.to_string());
    }
}

#[test]
fn string_equality() {
    assert!(str_eq("abc", "abc"));
    assert!(!str_eq("abc", "abd"));
    assert!(!str_eq("ab", "abc"));
}

#[test]
fn integers_parse_as_std_does() {
    for t in ["42", "-7", "+3", "", "-", "+", "1x", "9223372036854775807", "9223372036854775808",
        "-9223372036854775808", "-9223372036854775809", "007"] {
        assert_eq!(parse_i64(t), t.parse::<i64>().ok(), "input {t:?}");
    }
}

#[test]
fn lines_agree_with_str_lines() {
    for t in ["a\nb", "a\r\nb\n", "", "\n\n", "one"] {
        let expected: Vec<String> = t.lines().map(|l| l.to_owned()).collect();
        assert_eq!(lines_of(t), expected);
    }
}

#[test]
fn words_agree_with_split_whitespace() {
    for t in ["  a  b\tc ", "", "   ", "single"] {
        let expected: Vec<String> = t.split_whitespace().map(|w| w.to_owned()).collect();
        assert_eq!(words_of(t), expected);
    }
}

#[test]
fn joining() {
    let parts = vec!["a".to_owned(), "b".to_owned(), "c".to_owned()];
    assert_eq!(join_with(&parts, ", "), "a, b, c");
    assert_eq!(join_with(&[], ", "), "");
    assert_eq!(join_with(&parts[..1], "-"), "a");
}
