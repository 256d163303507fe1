use dioxus_openapi::text::{chars_of, joined, replace_all, str_eq, string_from_chars, string_from_range};

#[test]
fn replace_all_is_left_to_right_and_non_overlapping() {
    let v: Vec<char> = "aaaa".chars().collect();
    let out = replace_all(&v, &vec!['a', 'a'], &vec!['b']);
    assert_eq!(out, vec!['b', 'b']);
    let v: Vec<char> = "aaa".chars().collect();
    assert_eq!(replace_all(&v, &vec!['a', 'a'], &vec!['x', 'y', 'z']), vec!['x', 'y', 'z', 'a']);
    assert_eq!(replace_all(&vec![], &vec!['a'], &vec!['b']), Vec::<char>::new());
    let v: Vec<char> = "abc".chars().collect();
    assert_eq!(replace_all(&v, &vec!['b'], &vec![]), vec!['a', 'c']);
}

#[test]
fn string_helpers() {
    assert_eq!(chars_of("héllo"), vec!['h', 'é', 'l', 'l', 'o']);
    assert_eq!(string_from_chars(&vec!['ü', 'x']), "üx");
    assert_eq!(string_from_range(&vec!['a', 'b', 'c', 'd'], 1, 3), "bc");
    assert_eq!(joined("ab", "cd"), "abcd");
    assert!(str_eq("same", "same"));
    assert!(!str_eq("same", "sane"));
    assert!(!str_eq("a", "ab"));
}
