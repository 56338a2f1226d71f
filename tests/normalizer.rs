use termcards::normalizer::{contains_window, push_normalized, StreamMatcher, ACC_CAP};

#[test]
fn strips_screen_control_sequences() {
    let mut acc = Vec::new();
    push_normalized(&mut acc, b"\x1b[2J\x1b[HOK\n");
    assert_eq!(acc, b"OK\n".to_vec());
}

#[test]
fn backspace_removes_last_byte() {
    let mut acc = Vec::new();
    push_normalized(&mut acc, b"OK\x08");
    assert_eq!(acc, b"O".to_vec());
    let mut empty = Vec::new();
    push_normalized(&mut empty, b"\x08\x08A");
    assert_eq!(empty, b"A".to_vec());
}

#[test]
fn carriage_return_is_dropped() {
    let mut acc = Vec::new();
    push_normalized(&mut acc, b"a\r\nb");
    assert_eq!(acc, b"a\nb".to_vec());
}

#[test]
fn lone_escape_drops_only_itself() {
    let mut acc = Vec::new();
    push_normalized(&mut acc, b"x\x1bAy");
    assert_eq!(acc, b"xAy".to_vec());
    let mut acc2 = Vec::new();
    push_normalized(&mut acc2, b"\x1b[1;32mgreen\x1b[0m");
    assert_eq!(acc2, b"green".to_vec());
}

#[test]
fn unterminated_sequence_ends_with_chunk() {
    let mut acc = b"ab".to_vec();
    push_normalized(&mut acc, b"c\x1b[12");
    assert_eq!(acc, b"abc".to_vec());
    push_normalized(&mut acc, b"d");
    assert_eq!(acc, b"abcd".to_vec());
}

#[test]
fn window_search() {
    assert!(contains_window(b"hello world", b"o w"));
    assert!(!contains_window(b"hello world", b"worlds"));
    assert!(contains_window(b"abc", b""));
    assert!(!contains_window(b"", b"a"));
    assert!(contains_window(b"abc", b"abc"));
}

#[test]
fn matcher_finds_pattern_across_chunks() {
    let mut m = StreamMatcher::new(b"DONE".to_vec());
    assert!(!m.feed(b"\x1b[32mDO"));
    assert!(m.feed(b"NE\r\n"));
}

#[test]
fn matcher_is_case_sensitive() {
    let mut m = StreamMatcher::new(b"ok".to_vec());
    assert!(!m.feed(b"OK\n"));
}

#[test]
fn accumulator_stays_bounded() {
    let mut m = StreamMatcher::new(b"xyzzy".to_vec());
    let chunk = vec![b'a'; 300_000];
    for _ in 0..5 {
        assert!(!m.feed(&chunk));
        assert!(m.acc.len() <= ACC_CAP);
    }
    // cut back to four bytes after the fourth chunk, then one more chunk
    assert_eq!(m.acc.len(), 300_004);
}

#[test]
fn match_straddling_retained_tail_is_found() {
    let mut m = StreamMatcher::new(b"abcd".to_vec());
    let mut chunk = vec![b'z'; ACC_CAP];
    chunk.extend_from_slice(b"abc");
    assert!(!m.feed(&chunk));
    assert_eq!(m.acc, b"abc".to_vec());
    assert!(m.feed(b"d"));
}
