use websocket_handshake::request::{
    find, find_key, find_line_end, line_key, matches_at, scan_line, KeyLookup, CARRIAGE_RETURN,
    LINE_FEED,
};

fn found(lookup: KeyLookup) -> Vec<u8> {
    match lookup {
        KeyLookup::Found(key) => key,
        other => panic!("no key: {:?}", other),
    }
}

#[test]
fn line_ending_bytes() {
    assert_eq!(LINE_FEED, b'\n');
    assert_eq!(CARRIAGE_RETURN, b'\r');
}

#[test]
fn matches_at_compares_the_window() {
    assert!(matches_at(b"hello", b"ell", 1));
    assert!(!matches_at(b"hello", b"ell", 0));
    assert!(matches_at(b"hello", b"", 5));
    assert!(matches_at(b"hello", b"hello", 0));
    assert!(!matches_at(b"hello", b"lo!", 2));
}

#[test]
fn find_gives_the_first_index() {
    assert_eq!(find(b"a: b: c", b": ", 0), Some(1));
    assert_eq!(find(b"a: b: c", b": ", 2), Some(4));
    assert_eq!(find(b"a: b: c", b": ", 5), None);
    assert_eq!(find(b"abc", b"abcd", 0), None);
    assert_eq!(find(b"abc", b"c", 2), Some(2));
    assert_eq!(find(b"abc", b"c", 3), None);
    assert_eq!(find(b"abc", b"c", 9), None);
    assert_eq!(find(b"", b"x", 0), None);
    assert_eq!(find(b"aaa", b"aa", 0), Some(0));
    assert_eq!(find(b"aaa", b"aa", 1), Some(1));
}

#[test]
fn find_line_end_stops_at_the_line_feed() {
    assert_eq!(find_line_end(b"ab\ncd", 0), 2);
    assert_eq!(find_line_end(b"ab\ncd", 2), 2);
    assert_eq!(find_line_end(b"ab\ncd", 3), 5);
    assert_eq!(find_line_end(b"ab\ncd", 5), 5);
    assert_eq!(find_line_end(b"", 0), 0);
}

#[test]
fn line_key_is_the_second_piece() {
    assert_eq!(line_key(b"Sec-WebSocket-Key: abc"), Some(b"abc".to_vec()));
    assert_eq!(line_key(b"Sec-WebSocket-Key: a: b"), Some(b"a".to_vec()));
    assert_eq!(line_key(b"Sec-WebSocket-Key: "), Some(Vec::new()));
    assert_eq!(line_key(b"Sec-WebSocket-Key: : x"), Some(Vec::new()));
    assert_eq!(line_key(b"Sec-WebSocket-Key:abc"), None);
    assert_eq!(line_key(b""), None);
    assert_eq!(line_key(b": Sec-WebSocket-Key"), Some(b"Sec-WebSocket-Key".to_vec()));
}

#[test]
fn scan_line_keeps_or_replaces() {
    let after = scan_line(KeyLookup::Missing, b"Host: example");
    assert!(matches!(after, KeyLookup::Missing));
    let after = scan_line(KeyLookup::Found(b"old".to_vec()), b"Host: example");
    assert_eq!(found(after), b"old".to_vec());
    let after = scan_line(KeyLookup::Found(b"old".to_vec()), b"Sec-WebSocket-Key: new");
    assert_eq!(found(after), b"new".to_vec());
    let after = scan_line(KeyLookup::Found(b"old".to_vec()), b"Sec-WebSocket-Key");
    assert!(matches!(after, KeyLookup::Malformed));
    let after = scan_line(KeyLookup::Malformed, b"Sec-WebSocket-Key: new");
    assert!(matches!(after, KeyLookup::Malformed));
}

#[test]
fn key_is_found_in_a_request() {
    let request = b"GET / HTTP/1.1\r\nSec-WebSocket-Key: dGhlIHNhbXBsZSBub25jZQ==\r\n\r\n";
    assert_eq!(found(find_key(request)), b"dGhlIHNhbXBsZSBub25jZQ==".to_vec());
}

#[test]
fn key_is_missing_without_the_header() {
    assert!(matches!(find_key(b"GET / HTTP/1.1\r\nHost: example\r\n\r\n"), KeyLookup::Missing));
    assert!(matches!(find_key(b""), KeyLookup::Missing));
    assert!(matches!(find_key(&[0u8; 1024]), KeyLookup::Missing));
    assert!(matches!(find_key(b"Sec-WebSocket\n-Key: abc\n"), KeyLookup::Missing));
}

#[test]
fn header_without_separator_is_malformed() {
    assert!(matches!(find_key(b"Sec-WebSocket-Key:abc\r\n"), KeyLookup::Malformed));
    assert!(matches!(
        find_key(b"Sec-WebSocket-Key\r\nSec-WebSocket-Key: abc\r\n"),
        KeyLookup::Malformed
    ));
    assert!(matches!(
        find_key(b"Sec-WebSocket-Key: abc\r\nSec-WebSocket-Key\r\n"),
        KeyLookup::Malformed
    ));
}

#[test]
fn last_key_line_decides() {
    let request = b"Sec-WebSocket-Key: first\r\nHost: h\r\nSec-WebSocket-Key: second\r\n\r\n";
    assert_eq!(found(find_key(request)), b"second".to_vec());
}

#[test]
fn line_endings_are_cut_off() {
    assert_eq!(found(find_key(b"Sec-WebSocket-Key: abc\n")), b"abc".to_vec());
    assert_eq!(found(find_key(b"Sec-WebSocket-Key: abc\r\n")), b"abc".to_vec());
    assert_eq!(found(find_key(b"Sec-WebSocket-Key: abc\r\r\n")), b"abc\r".to_vec());
    assert_eq!(found(find_key(b"Sec-WebSocket-Key: abc")), b"abc".to_vec());
    assert_eq!(found(find_key(b"Sec-WebSocket-Key: abc\r")), b"abc\r".to_vec());
    assert_eq!(found(find_key(b"\n\nSec-WebSocket-Key: abc\n\n")), b"abc".to_vec());
}

fn key_by_text(text: &str) -> String {
    let mut key = String::new();
    for line in text.lines() {
        if line.contains("Sec-WebSocket-Key") {
            let split: Vec<&str> = line.split(": ").collect();
            key = String::from(split[1]);
        }
    }
    key
}

#[test]
fn key_agrees_with_text_lines() {
    let text = "GET / HTTP/1.1\r\nX: y\r\nSec-WebSocket-Key: k1: rest\r\n\r\ntail";
    assert_eq!(key_by_text(text), "k1");
    assert_eq!(found(find_key(text.as_bytes())), b"k1".to_vec());
    let texts = [
        "Sec-WebSocket-Key: abc",
        "Sec-WebSocket-Key: abc\r",
        "Sec-WebSocket-Key: abc\n",
        "Sec-WebSocket-Key: abc\r\n",
        "Sec-WebSocket-Key: abc\r\r\n",
        "Sec-WebSocket-Key: abc\n\r",
        "Sec-WebSocket-Key: a\rb\r\nHost: h\r\n",
        "A: Sec-WebSocket-Key: abc\r\n",
        "Sec-WebSocket-Key: :: : \r\n",
        "Sec-WebSocket-Key:: abc\r\n",
        "Sec-WebSocket-Key: one\r\nSec-WebSocket-Key: two",
        "Sec-WebSocket-Key: k\u{e9}y: \u{2028}x\r\n",
        "\r\n\r\nsec-websocket-key: no\r\nSec-WebSocket-Key: yes\r\n\0\0\0",
    ];
    for text in texts {
        assert_eq!(found(find_key(text.as_bytes())), key_by_text(text).into_bytes(), "{:?}", text);
    }
}

#[test]
fn total_helpers_answer_out_of_range() {
    assert!(!matches_at(b"abc", b"c", 3));
    assert!(!matches_at(b"abc", b"abcd", 0));
    assert!(!matches_at(b"abc", b"a", usize::MAX));
    assert_eq!(find_line_end(b"ab\n", 7), 3);
}

#[test]
fn unterminated_key_line_runs_to_the_end_of_the_buffer() {
    let mut buffer = [0u8; 64];
    let text = b"Sec-WebSocket-Key: abc";
    buffer[..text.len()].copy_from_slice(text);
    let key = found(find_key(&buffer));
    assert_eq!(key.len(), 64 - 19);
    assert_eq!(&key[..3], b"abc");
    assert!(key[3..].iter().all(|b| *b == 0));
}
