use websocket_handshake::hash_web_socket_key;
use websocket_handshake::token::{accept_token_for, encode_digest, TOKEN_LEN};

fn is_symbol(c: char) -> bool {
    c.is_ascii_alphanumeric() || c == '+' || c == '/'
}

#[test]
fn test_full_handshake() {
    let input = "dGhlIHNhbXBsZSBub25jZQ==";
    let output = hash_web_socket_key(input);
    let expected_output = "s3pPLMBiTxaQ9kYGzzhZRbK+xOo=";

    assert_eq!(expected_output, output);
}

#[test]
fn same_key_gives_same_token() {
    let first = hash_web_socket_key("x3JJHMbDL1EzLkh9GBhXDw==");
    let second = hash_web_socket_key("x3JJHMbDL1EzLkh9GBhXDw==");
    assert_eq!(first, second);
    assert_eq!(first, "HSmrc0sMlYUkAGmm5OPpG2HaGWk=");
}

#[test]
fn different_keys_give_different_tokens() {
    assert_ne!(hash_web_socket_key("a"), hash_web_socket_key("abc"));
    assert_eq!(hash_web_socket_key("a"), "FtgH8qqfEKHvZKEZYEWkYDhlXNY=");
    assert_eq!(hash_web_socket_key("abc"), "zwKd5BnoWxQ6GxTxxSmBSHGHX9M=");
}

#[test]
fn empty_key_has_a_token() {
    let token = hash_web_socket_key("");
    assert_eq!(token, "Kfh9QIsMVZcl6xEPYxPHzW8SZ8w=");
    assert_eq!(token.len(), 28);
    assert_eq!(token.len(), TOKEN_LEN);
    let chars: Vec<char> = token.chars().collect();
    assert!(chars[..27].iter().all(|c| is_symbol(*c)));
    assert_eq!(chars[27], '=');
    assert_eq!(chars.iter().filter(|c| **c == '=').count(), 1);
}

#[test]
fn token_is_not_the_key_or_the_digest() {
    let key = "dGhlIHNhbXBsZSBub25jZQ==";
    let token = hash_web_socket_key(key);
    assert_ne!(token, key);
    assert_ne!(token.len(), 20);
    assert!(!token.contains("258EAFA5"));
}

#[test]
fn token_of_bytes_agrees_with_token_of_text() {
    assert_eq!(accept_token_for("kéy".as_bytes()), hash_web_socket_key("kéy"));
    assert_eq!(hash_web_socket_key("kéy"), "KY9bQUKvLJ9i9wznAQUNehSRCmc=");
    assert_eq!(accept_token_for(b""), "Kfh9QIsMVZcl6xEPYxPHzW8SZ8w=");
}

#[test]
fn every_token_has_the_token_shape() {
    for key in ["", "a", "abc", "dGhlIHNhbXBsZSBub25jZQ==", "kéy"] {
        let token = hash_web_socket_key(key);
        let chars: Vec<char> = token.chars().collect();
        assert_eq!(chars.len(), 28);
        assert!(chars[..27].iter().all(|c| is_symbol(*c)));
        assert_eq!(chars[27], '=');
    }
}

#[test]
fn digest_is_written_in_base64() {
    let digest: [u8; 20] = [
        0xb3, 0x7a, 0x4f, 0x2c, 0xc0, 0x62, 0x4f, 0x16, 0x90, 0xf6, 0x46, 0x06, 0xcf, 0x38, 0x59, 0x45, 0xb2, 0xbe, 0xc4, 0xea,
    ];
    assert_eq!(encode_digest(&digest), "s3pPLMBiTxaQ9kYGzzhZRbK+xOo=");
    assert_eq!(encode_digest(&[0u8; 20]), "AAAAAAAAAAAAAAAAAAAAAAAAAAA=");
    assert_eq!(encode_digest(&[0xffu8; 20]), "//////////////////////////8=");
    let mut counting = [0u8; 20];
    for (i, byte) in counting.iter_mut().enumerate() {
        *byte = (i * 13) as u8;
    }
    assert_eq!(encode_digest(&counting), "AA0aJzRBTltodYKPnKm2w9Dd6vc=");
}
