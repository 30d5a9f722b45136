use puzzles::truncate_string;

#[test]
fn truncates_string() {
    assert_eq!(truncate_string("a", 1), "a");
    assert_eq!(truncate_string("abcde", 1), "a");
    assert_eq!(truncate_string("abcde", 4), "abcd");
    assert_eq!(truncate_string("abcde", 10), "abcde");
}

#[test]
fn truncates_on_char_boundary() {
    assert_eq!(truncate_string("", 0), "");
    assert_eq!(truncate_string("héllo", 3), "hé");
    assert_eq!(truncate_string("abc", 3), "abc");
}
