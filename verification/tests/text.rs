use jdkman::text::{
    chars_of, contains_chars, contains_text, ends_with_chars, ends_with_text, lines_of,
    matches_at, same_text, split_text, starts_with_chars, starts_with_text, strip_cr_text,
};

fn owned(items: &[&str]) -> Vec<String> {
    items.iter().map(|s| s.to_string()).collect()
}

#[test]
fn chars_of_gives_every_character() {
    assert_eq!(chars_of("a;é"), vec!['a', ';', 'é']);
    assert_eq!(chars_of(""), Vec::<char>::new());
}

#[test]
fn contains_finds_a_text_anywhere() {
    assert!(contains_text("c:\\java\\bin", "java"));
    assert!(contains_text("java", "java"));
    assert!(contains_text("xjava", "java"));
    assert!(!contains_text("jav", "java"));
    assert!(!contains_text("jaXva", "java"));
}

#[test]
fn contains_finds_the_empty_text_everywhere() {
    assert!(contains_text("abc", ""));
    assert!(contains_text("", ""));
    assert!(!contains_text("", "a"));
}

#[test]
fn contains_agrees_with_std() {
    let samples = ["", "a", "ab", "aab", "abab", "java", "c:\\Java\\bin", "ééa"];
    for hay in samples {
        for needle in samples {
            assert_eq!(contains_text(hay, needle), hay.contains(needle), "{:?} {:?}", hay, needle);
            assert_eq!(starts_with_text(hay, needle), hay.starts_with(needle));
            assert_eq!(ends_with_text(hay, needle), hay.ends_with(needle));
        }
    }
}

#[test]
fn starts_and_ends_with() {
    assert!(starts_with_text("export JAVA_HOME=/x", "export JAVA_HOME="));
    assert!(!starts_with_text(" export JAVA_HOME=/x", "export JAVA_HOME="));
    assert!(ends_with_text("c:\\jdk\\bin", "bin"));
    assert!(!ends_with_text("c:\\jdk\\bin\\", "bin"));
    assert!(!ends_with_text("in", "bin"));
}

#[test]
fn same_text_compares_whole_texts() {
    assert!(same_text("list", "list"));
    assert!(!same_text("list", "lists"));
    assert!(!same_text("", "a"));
    assert!(same_text("", ""));
}

#[test]
fn split_gives_the_pieces_between_delimiters() {
    assert_eq!(split_text("a;b;c", ';'), owned(&["a", "b", "c"]));
    assert_eq!(split_text("abc", ';'), owned(&["abc"]));
}

#[test]
fn split_keeps_empty_pieces() {
    assert_eq!(split_text("", ';'), owned(&[""]));
    assert_eq!(split_text(";", ';'), owned(&["", ""]));
    assert_eq!(split_text("a;;b;", ';'), owned(&["a", "", "b", ""]));
    assert_eq!(split_text(";a", ';'), owned(&["", "a"]));
}

#[test]
fn split_agrees_with_std() {
    for s in ["", ";", "a", "a;b", ";;", "é;b;", "C:\\a;C:\\b"] {
        let expected: Vec<String> = s.split(';').map(|p| p.to_string()).collect();
        assert_eq!(split_text(s, ';'), expected);
        assert_eq!(split_text(s, ';').join(";"), s);
    }
}

#[test]
fn strip_cr_removes_one_carriage_return_at_the_end() {
    assert_eq!(strip_cr_text("abc\r"), "abc");
    assert_eq!(strip_cr_text("abc\r\r"), "abc\r");
    assert_eq!(strip_cr_text("a\rbc"), "a\rbc");
    assert_eq!(strip_cr_text(""), "");
    assert_eq!(strip_cr_text("\r"), "");
}

#[test]
fn lines_end_at_line_feeds() {
    assert_eq!(lines_of("a\nb"), owned(&["a", "b"]));
    assert_eq!(lines_of("a\nb\n"), owned(&["a", "b"]));
    assert_eq!(lines_of("a\n\nb"), owned(&["a", "", "b"]));
    assert_eq!(lines_of("\n"), owned(&[""]));
    assert_eq!(lines_of(""), Vec::<String>::new());
}

#[test]
fn lines_drop_the_carriage_return_before_a_line_feed() {
    assert_eq!(lines_of("a\r\nb\r\n"), owned(&["a", "b"]));
    assert_eq!(lines_of("a\rb\n"), owned(&["a\rb"]));
    assert_eq!(lines_of("a\r\nb\r"), owned(&["a", "b\r"]));
}

#[test]
fn lines_agree_with_std() {
    for s in ["", "\n", "a", "a\n", "a\nb", "a\r\nb", "a\n\n", "\r\n", "x\r\n\r\ny\n", "a\r"] {
        let expected: Vec<String> = s.lines().map(|l| l.to_string()).collect();
        assert_eq!(lines_of(s), expected, "{:?}", s);
    }
}

#[test]
fn matches_at_a_position() {
    let hay = chars_of("abcab");
    let needle = chars_of("ab");
    assert!(matches_at(&hay, &needle, 0));
    assert!(!matches_at(&hay, &needle, 1));
    assert!(matches_at(&hay, &needle, 3));
    assert!(!matches_at(&hay, &needle, 4));
    assert!(!matches_at(&hay, &needle, 5));
    assert!(!matches_at(&hay, &needle, 99));
    assert!(matches_at(&hay, &chars_of(""), 5));
    assert!(!matches_at(&hay, &chars_of(""), 6));
}

#[test]
fn search_on_characters() {
    let hay = chars_of("c:\\java\\bin");
    assert!(contains_chars(&hay, &chars_of("java")));
    assert!(!contains_chars(&hay, &chars_of("jdk")));
    assert!(starts_with_chars(&hay, &chars_of("c:")));
    assert!(!starts_with_chars(&hay, &chars_of("bin")));
    assert!(ends_with_chars(&hay, &chars_of("bin")));
    assert!(!ends_with_chars(&hay, &chars_of("c:")));
    assert!(!ends_with_chars(&chars_of("in"), &chars_of("bin")));
}
