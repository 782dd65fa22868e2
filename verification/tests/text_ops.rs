use archivist::text::{basename, contains_str, first_delim, nth_token, trim_str};

#[test]
fn finds_substrings() {
    assert!(contains_str("<meta property=\"og:title\" content=\"x\"/>", "property=\"og:title\""));
    assert!(!contains_str("<meta property=\"og:title\"/>", "og:description"));
    assert!(contains_str("abc", ""));
    assert!(!contains_str("ab", "abc"));
    assert!(contains_str("aaab", "aab"));
}

#[test]
fn splits_quoted_tokens() {
    let line = "<meta property=\"og:title\" content=\"My Page\" />";
    assert_eq!(nth_token(line, '"', 0).unwrap(), "<meta property=");
    assert_eq!(nth_token(line, '"', 1).unwrap(), "og:title");
    assert_eq!(nth_token(line, '"', 3).unwrap(), "My Page");
    assert_eq!(nth_token(line, '"', 4).unwrap(), " />");
    assert!(nth_token(line, '"', 5).is_none());
}

#[test]
fn splits_on_spaces() {
    assert_eq!(nth_token("/update the site", ' ', 0).unwrap(), "/update");
    assert_eq!(nth_token("/update", ' ', 0).unwrap(), "/update");
    assert_eq!(nth_token("", ' ', 0).unwrap(), "");
    assert!(nth_token("", ' ', 1).is_none());
}

#[test]
fn trims_whitespace() {
    assert_eq!(trim_str("  My Page \t"), "My Page");
    assert_eq!(trim_str("x"), "x");
    assert_eq!(trim_str("   "), "");
    assert_eq!(trim_str(""), "");
    assert_eq!(trim_str("\na b\r\n"), "a b");
}

#[test]
fn basename_strips_directories() {
    assert_eq!(basename("out/abc.html"), "abc.html");
    assert_eq!(basename("a/b/c.html"), "c.html");
    assert_eq!(basename("plain.html"), "plain.html");
    assert_eq!(basename("dir/"), "");
    assert_eq!(basename(""), "");
}

#[test]
fn first_delim_positions() {
    assert_eq!(first_delim("ab<c", '<'), 2);
    assert_eq!(first_delim("abc", '<'), 3);
    assert_eq!(first_delim("<", '<'), 0);
}
