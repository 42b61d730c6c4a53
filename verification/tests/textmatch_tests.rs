use genshin_auto::textmatch::{app_needle, contains_bytes, is_capture_candidate, title_needle};

#[test]
fn contains_bytes_finds_inner_substrings() {
    assert!(contains_bytes(b"hello world", b"lo w"));
    assert!(contains_bytes(b"hello world", b"hello world"));
    assert!(contains_bytes(b"hello world", b""));
    assert!(contains_bytes(b"hello world", b"d"));
    assert!(!contains_bytes(b"hello world", b"worlds"));
    assert!(!contains_bytes(b"abc", b"abcd"));
    assert!(!contains_bytes(b"", b"a"));
    assert!(contains_bytes(b"", b""));
    assert!(!contains_bytes(b"aab", b"ab c"));
}

#[test]
fn needles_are_the_fixed_window_identifiers() {
    assert_eq!(title_needle(), vec![0xE5, 0x8E, 0x9F, 0xE7, 0xA5, 0x9E]);
    assert_eq!(app_needle(), b"YuanShen".to_vec());
}

#[test]
fn candidate_needs_both_needles_and_no_minimization() {
    let mut title: Vec<u8> = Vec::new();
    title.extend_from_slice(b"some prefix ");
    title.extend_from_slice(&title_needle());
    title.extend_from_slice(b" suffix");
    let app: &[u8] = b"C:/games/YuanShen.exe";
    assert!(is_capture_candidate(false, &title, app));
    assert!(!is_capture_candidate(true, &title, app));
    assert!(!is_capture_candidate(false, b"another window", app));
    assert!(!is_capture_candidate(false, &title, b"explorer.exe"));
}
