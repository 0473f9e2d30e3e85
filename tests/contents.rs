use fr::{contains_bytes, find_replace_content, is_binary_sample, matches_at, replace_bytes};

#[test]
fn text_is_not_binary() {
    assert!(!is_binary_sample(b"Hello, world!\n"));
    assert!(!is_binary_sample(b"Hello\tworld\n\r"));
}

#[test]
fn null_bytes_make_binary() {
    assert!(is_binary_sample(&[0, 1, 2, 3, 4, 5, 0, 0, 0]));
    assert!(is_binary_sample(b"plain text with one \0 inside"));
}

#[test]
fn high_ratio_of_control_bytes_is_binary() {
    let high_ratio: Vec<u8> = (0u8..32).collect();
    assert!(is_binary_sample(&high_ratio));
    let without_null: Vec<u8> = (1u8..32).collect();
    assert!(is_binary_sample(&without_null));
}

#[test]
fn empty_sample_is_text() {
    assert!(!is_binary_sample(&[]));
}

#[test]
fn ratio_boundary_is_exclusive() {
    // 3 of 10 bytes not printable: exactly 30 per cent, still text.
    let mut at_limit = vec![b'a'; 7];
    at_limit.extend_from_slice(&[1, 2, 200]);
    assert!(!is_binary_sample(&at_limit));
    // 4 of 10: above the limit.
    let mut above = vec![b'a'; 6];
    above.extend_from_slice(&[1, 2, 3, 255]);
    assert!(is_binary_sample(&above));
}

#[test]
fn only_first_kilobyte_is_sampled() {
    let mut data = vec![b'x'; 1024];
    data.push(0);
    assert!(!is_binary_sample(&data));
    let mut data = vec![b'x'; 1023];
    data.push(0);
    assert!(is_binary_sample(&data));
}

#[test]
fn find_replace_content_rewrites_matches() {
    let out = find_replace_content("hello world", "hello", "hi");
    assert_eq!(out, Some(b"hi world".to_vec()));
}

#[test]
fn find_replace_content_leaves_unmatched_alone() {
    assert_eq!(find_replace_content("hi world", "nonexistent", "new"), None);
    assert_eq!(find_replace_content("hi world", "", "new"), None);
    assert_eq!(find_replace_content("", "a", "b"), None);
}

#[test]
fn find_replace_content_every_occurrence() {
    assert_eq!(
        find_replace_content("hello there, hello again", "hello", "hi"),
        Some(b"hi there, hi again".to_vec())
    );
    assert_eq!(find_replace_content("abc", "abc", ""), Some(Vec::new()));
}

#[test]
fn replacement_does_not_overlap() {
    assert_eq!(replace_bytes(b"aaaa", b"aa", b"b"), b"bb".to_vec());
    assert_eq!(replace_bytes(b"aaa", b"aa", b"b"), b"ba".to_vec());
    assert_eq!(replace_bytes(b"xyz", b"", b"q"), b"xyz".to_vec());
}

#[test]
fn replacement_matches_std_on_unicode() {
    let s = "größe größer grö";
    let out = find_replace_content(s, "ö", "oe").unwrap();
    assert_eq!(String::from_utf8(out).unwrap(), s.replace("ö", "oe"));
}

#[test]
fn contains_and_matches() {
    assert!(contains_bytes(b"hello", b"llo"));
    assert!(!contains_bytes(b"hello", b"hello!"));
    assert!(contains_bytes(b"hello", b""));
    assert!(matches_at(b"hello", b"ll", 2));
    assert!(!matches_at(b"hello", b"ll", 3));
    assert!(!matches_at(b"hello", b"o", 9));
}

#[test]
fn unchanged_content_is_not_rewritten() {
    assert_eq!(find_replace_content("hello world", "hello", "hello"), None);
    assert_eq!(find_replace_content("aaa", "a", "a"), None);
    assert_eq!(find_replace_content("aaa", "a", "b"), Some(b"bbb".to_vec()));
}
