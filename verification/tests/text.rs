use dispersion::text::{
    chars_of, contains, ends_with, find_in, matches_at, same_chars, same_text, starts_with,
    string_of, string_of_range,
};

fn chars(text: &str) -> Vec<char> {
    text.chars().collect()
}

#[test]
fn characters_round_trip() {
    assert_eq!(chars_of("héllo"), vec!['h', 'é', 'l', 'l', 'o']);
    assert_eq!(chars_of(""), Vec::<char>::new());
    assert_eq!(string_of(&chars("héllo")), "héllo");
    assert_eq!(string_of_range(&chars("héllo"), 1, 3), "él");
    assert_eq!(string_of_range(&chars("héllo"), 2, 2), "");
}

#[test]
fn find_gives_the_leftmost_place() {
    assert_eq!(find_in(&chars("a-qt5-qt6"), &chars("-qt")), Some(1));
    assert_eq!(find_in(&chars("aaa"), &chars("aa")), Some(0));
    assert_eq!(find_in(&chars("abc"), &chars("c")), Some(2));
    assert_eq!(find_in(&chars("abc"), &chars("")), Some(0));
    assert_eq!(find_in(&chars(""), &chars("")), Some(0));
    assert_eq!(find_in(&chars("abc"), &chars("abcd")), None);
    assert_eq!(find_in(&chars("abc"), &chars("x")), None);
    assert_eq!(find_in(&chars(""), &chars("x")), None);
}

#[test]
fn contains_and_its_edges() {
    assert!(contains(&chars("prism-linux-qt6"), &chars("linux")));
    assert!(contains(&chars("linux"), &chars("linux")));
    assert!(contains(&chars("linux"), &chars("")));
    assert!(!contains(&chars("linu"), &chars("linux")));
    assert!(!contains(&chars("Linux"), &chars("linux")));
}

#[test]
fn ends_and_starts() {
    assert!(ends_with(&chars("a.tar.gz"), &chars(".tar.gz")));
    assert!(ends_with(&chars(".tar.gz"), &chars(".tar.gz")));
    assert!(!ends_with(&chars("tar.gz"), &chars(".tar.gz")));
    assert!(ends_with(&chars("abc"), &chars("")));
    assert!(starts_with(&chars("/tmp/x"), &chars("/tmp")));
    assert!(!starts_with(&chars("/tm"), &chars("/tmp")));
    assert!(starts_with(&chars(""), &chars("")));
}

#[test]
fn matches_at_a_given_place() {
    assert!(matches_at(&chars("abcabc"), &chars("bc"), 1));
    assert!(matches_at(&chars("abcabc"), &chars("bc"), 4));
    assert!(!matches_at(&chars("abcabc"), &chars("bc"), 0));
    assert!(!matches_at(&chars("abcabc"), &chars("bc"), 5));
    assert!(!matches_at(&chars("abcabc"), &chars("bc"), 100));
    assert!(matches_at(&chars("abc"), &chars(""), 3));
    assert!(!matches_at(&chars("abc"), &chars(""), 4));
}

#[test]
fn equal_texts() {
    assert!(same_chars(&chars("abc"), &chars("abc")));
    assert!(!same_chars(&chars("abc"), &chars("abd")));
    assert!(!same_chars(&chars("abc"), &chars("ab")));
    assert!(same_text("", ""));
    assert!(same_text("naïve", "naïve"));
    assert!(!same_text("a", "A"));
}
