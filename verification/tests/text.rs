use branch_guard::text::{chars_of, contains_text, same_text};

#[test]
fn same_text_compares_characters() {
    assert!(same_text("admin", "admin"));
    assert!(same_text("", ""));
    assert!(!same_text("admin", "Admin"));
    assert!(!same_text("admin", "admin "));
    assert!(!same_text("", "a"));
}

#[test]
fn chars_of_keeps_order_and_counts_characters() {
    assert_eq!(chars_of("abc"), vec!['a', 'b', 'c']);
    assert_eq!(chars_of(""), Vec::<char>::new());
    assert_eq!(chars_of("n\u{e9}"), vec!['n', '\u{e9}']);
}

#[test]
fn contains_text_finds_a_needle_anywhere() {
    assert!(contains_text("/login", "login"));
    assert!(contains_text("login", "login"));
    assert!(contains_text("/api/v1/login?next=/admin", "login"));
    assert!(contains_text("xxloginxx", "login"));
    assert!(contains_text("lologin", "login"));
}

#[test]
fn contains_text_misses_what_is_not_there() {
    assert!(!contains_text("/admin", "login"));
    assert!(!contains_text("logi", "login"));
    assert!(!contains_text("", "login"));
    assert!(!contains_text("/log/in", "login"));
    assert!(!contains_text("/LOGIN", "login"));
}

#[test]
fn contains_text_finds_the_empty_needle() {
    assert!(contains_text("abc", ""));
    assert!(contains_text("", ""));
}
