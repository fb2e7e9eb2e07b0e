use app_locker::text::{contains, is_whitespace, join_path, pad_right, strip_line_endings, trim};

#[test]
fn join_follows_path_push_rules() {
    assert_eq!(join_path("/home/a", "x"), "/home/a/x");
    assert_eq!(join_path("/home/a/", "x"), "/home/a/x");
    assert_eq!(join_path("", "x"), "x");
    assert_eq!(join_path("/home/a", "/etc/x"), "/etc/x");
    assert_eq!(join_path("a", ""), "a/");
    assert_eq!(join_path("/home/a", ".local/bin"), "/home/a/.local/bin");
}

#[test]
fn substring_search() {
    assert!(contains("brave-browser", "brave"));
    assert!(contains("google-chrome-stable", "chrome"));
    assert!(!contains("chromium", "chrome"));
    assert!(contains("abc", ""));
    assert!(!contains("", "a"));
    assert!(contains("aaab", "aab"));
}

#[test]
fn line_endings_are_stripped_only_at_the_end() {
    assert_eq!(strip_line_endings("secret\n"), "secret");
    assert_eq!(strip_line_endings("secret\r\n\r\n"), "secret");
    assert_eq!(strip_line_endings("se\ncret"), "se\ncret");
    assert_eq!(strip_line_endings("\n\r"), "");
    assert_eq!(strip_line_endings("pass word \n"), "pass word ");
    let once = strip_line_endings("x\r\n");
    assert_eq!(strip_line_endings(&once), once);
}

#[test]
fn trimming_and_case() {
    assert_eq!(trim("  Yes \n"), "Yes");
    assert_eq!(trim("\t \n"), "");
    assert_eq!(trim("a b"), "a b");
}

#[test]
fn left_alignment() {
    assert_eq!(pad_right("gedit", 8), "gedit   ");
    assert_eq!(pad_right("a-very-long-name", 4), "a-very-long-name");
    assert_eq!(pad_right("", 3), "   ");
    assert_eq!(pad_right("é", 3), "é  ");
}

#[test]
fn whitespace_agrees_with_std_on_every_char() {
    for v in 0u32..=0x10FFFF {
        if let Some(c) = char::from_u32(v) {
            assert_eq!(is_whitespace(c), c.is_whitespace(), "U+{:04X}", v);
        }
    }
}

#[test]
fn unicode_white_space_is_trimmed() {
    assert_eq!(trim("\u{3000}x y\u{85}\u{2028}"), "x y");
    assert_eq!(trim("\u{a0}\u{1680}\u{202f}"), "");
    assert_eq!(trim("\u{200b}x"), "\u{200b}x");
}
