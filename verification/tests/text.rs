use mozcomp::text::{
    chars_eq, append_chars, contains_char, contains_str, ends_with_str, find_char, from_chars,
    lines_exec, replace_char_exec, split_char_exec, starts_with_str, str_eq, to_chars,
    trim_char_exec, trim_chars, trim_end_char_exec, trim_start_char_exec, words_exec,
};

fn text(v: &Vec<char>) -> String {
    from_chars(v)
}

fn texts(v: &Vec<Vec<char>>) -> Vec<String> {
    v.iter().map(from_chars).collect()
}

#[test]
fn chars_round_trip() {
    let v = to_chars("a/b");
    assert_eq!(v, vec!['a', '/', 'b']);
    assert_eq!(from_chars(&v), "a/b");
    assert_eq!(from_chars(&to_chars("")), "");
    assert_eq!(from_chars(&to_chars("é✓")), "é✓");
}

#[test]
fn equality_and_concatenation() {
    assert!(str_eq("abc", "abc"));
    assert!(!str_eq("abc", "abd"));
    assert!(!str_eq("abc", "ab"));
    assert!(chars_eq(&to_chars(""), &to_chars("")));
    assert_eq!(text(&append_chars(&to_chars("ab"), &to_chars("cd"))), "abcd");
}

#[test]
fn prefixes_suffixes_and_searches() {
    let s = to_chars("chrome://global/skin/a.css");
    assert!(starts_with_str(&s, "chrome://"));
    assert!(starts_with_str(&s, ""));
    assert!(!starts_with_str(&s, "resource://"));
    assert!(ends_with_str(&s, ".css"));
    assert!(!ends_with_str(&s, ".js"));
    assert!(!ends_with_str(&to_chars("ss"), ".css"));
    assert!(contains_str(&s, "://"));
    assert!(contains_str(&s, "a.css"));
    assert!(!contains_str(&s, "b.css"));
    assert!(contains_str(&s, ""));
    assert!(contains_char(&s, '/'));
    assert!(!contains_char(&s, '?'));
    assert_eq!(find_char(&s, ':'), Some(6));
    assert_eq!(find_char(&s, '#'), None);
}

#[test]
fn trimming() {
    assert_eq!(text(&trim_chars(&to_chars("  \t a b \r\n"))), "a b");
    assert_eq!(text(&trim_chars(&to_chars(" \u{a0}\u{3000} "))), "");
    assert_eq!(text(&trim_chars(&to_chars("x"))), "x");
    assert_eq!(text(&trim_start_char_exec(&to_chars("%%skin/"), '%')), "skin/");
    assert_eq!(text(&trim_end_char_exec(&to_chars("skin//"), '/')), "skin");
    assert_eq!(text(&trim_char_exec(&to_chars("\"a\""), '"')), "a");
    assert_eq!(text(&trim_char_exec(&to_chars("\"\"\""), '"')), "");
}

#[test]
fn splitting() {
    assert_eq!(texts(&split_char_exec(&to_chars("a,b,,c"), ',')), vec!["a", "b", "", "c"]);
    assert_eq!(texts(&split_char_exec(&to_chars(""), ',')), vec![""]);
    assert_eq!(texts(&split_char_exec(&to_chars(","), ',')), vec!["", ""]);
    assert_eq!(texts(&lines_exec(&to_chars("a\nb\r\n\nc"))), vec!["a", "b", "", "c"]);
    assert_eq!(texts(&lines_exec(&to_chars("a\n"))), vec!["a"]);
    assert_eq!(texts(&lines_exec(&to_chars("a\r"))), vec!["a\r"]);
    assert!(lines_exec(&to_chars("")).is_empty());
    assert_eq!(texts(&words_exec(&to_chars("  skin  browser\tclassic/1.0 "))), vec![
        "skin",
        "browser",
        "classic/1.0"
    ]);
    assert!(words_exec(&to_chars("   ")).is_empty());
}

#[test]
fn lines_agree_with_std() {
    for s in ["", "\n", "a", "a\n\nb", "a\r\nb\r\n", "\r\n", "x\ry\n", "tail\r"] {
        let expected: Vec<String> = s.lines().map(String::from).collect();
        assert_eq!(texts(&lines_exec(&to_chars(s))), expected);
    }
}

#[test]
fn words_and_trim_agree_with_std() {
    for s in ["", " a ", "a  b\tc\n", "\u{2003}x\u{2003}", "no-space"] {
        let expected: Vec<String> = s.split_whitespace().map(String::from).collect();
        assert_eq!(texts(&words_exec(&to_chars(s))), expected);
        assert_eq!(text(&trim_chars(&to_chars(s))), s.trim());
    }
}

#[test]
fn replacing_characters() {
    assert_eq!(text(&replace_char_exec(&to_chars("a\tb\t"), '\t', &to_chars("  "))), "a  b  ");
    assert_eq!(text(&replace_char_exec(&to_chars("a\\b"), '\\', &to_chars("/"))), "a/b");
    assert_eq!(text(&replace_char_exec(&to_chars("abc"), 'x', &to_chars("y"))), "abc");
}
