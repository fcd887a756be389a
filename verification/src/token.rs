//! The accept token: the Base64 text of the SHA-1 digest of the client's key
//! followed by the protocol's fixed GUID.

use sha1::Digest;
use vstd::prelude::*;

verus! {

/// Number of characters in an accept token.
pub const TOKEN_LEN: usize = 28;

/// The SHA-1 digest of a byte sequence, as the `sha1` crate computes it.
pub uninterp spec fn sha1_digest(data: Seq<u8>) -> Seq<u8>;

/// The GUID that the protocol appends to every client key before hashing.
pub open spec fn magic_guid() -> Seq<char> {
    "258EAFA5-E914-47DA-95CA-C5AB0DC85B11"@
}

/// The bytes that are hashed for a key: the key, then the GUID, nothing
/// between them.
pub open spec fn token_preimage(key: Seq<u8>) -> Seq<u8> {
    key + vstd::utf8::encode_utf8(magic_guid())
}

/// The accept token that answers the key with the given bytes.
pub open spec fn accept_token(key: Seq<u8>) -> Seq<char> {
    base64_text(sha1_digest(token_preimage(key)))
}

/// Whether `c` belongs to the standard Base64 alphabet (the padding
/// character `=` does not).
pub open spec fn is_base64_symbol(c: char) -> bool {
    ('A' <= c && c <= 'Z') || ('a' <= c && c <= 'z') || ('0' <= c && c <= '9') || c == '+'
        || c == '/'
}

/// The symbol that the standard alphabet has for a value of six bits:
/// the capital letters, the small letters, the digits, `+` and `/`.
pub open spec fn base64_symbol(v: int) -> char
    recommends
        0 <= v < 64,
{
    if v < 26 {
        ((65 + v) as u8) as char
    } else if v < 52 {
        ((97 + (v - 26)) as u8) as char
    } else if v < 62 {
        ((48 + (v - 52)) as u8) as char
    } else if v == 62 {
        '+'
    } else {
        '/'
    }
}

/// The Base64 text of a byte sequence, in the standard alphabet and with
/// padding. Three bytes are twenty-four bits and give four symbols of six
/// bits each, the first bits first; a last group of one or two bytes is
/// filled up with zero bits to whole symbols, and then with `=` to four
/// characters.
pub open spec fn base64_text(data: Seq<u8>) -> Seq<char>
    decreases data.len(),
{
    if data.len() == 0 {
        Seq::empty()
    } else if data.len() == 1 {
        seq![
            base64_symbol(data[0] as int / 4),
            base64_symbol((data[0] as int % 4) * 16),
            '=',
            '=',
        ]
    } else if data.len() == 2 {
        seq![
            base64_symbol(data[0] as int / 4),
            base64_symbol((data[0] as int % 4) * 16 + data[1] as int / 16),
            base64_symbol((data[1] as int % 16) * 4),
            '=',
        ]
    } else {
        seq![
            base64_symbol(data[0] as int / 4),
            base64_symbol((data[0] as int % 4) * 16 + data[1] as int / 16),
            base64_symbol((data[1] as int % 16) * 4 + data[2] as int / 64),
            base64_symbol(data[2] as int % 64),
        ] + base64_text(data.skip(3))
    }
}

/// The number of `=` characters that end the Base64 text of `input_len`
/// bytes.
pub open spec fn padding_len(input_len: nat) -> nat {
    ((3 - input_len % 3) % 3) as nat
}

/// The number of characters in the padded Base64 text of `input_len` bytes:
/// four for every three bytes begun.
pub open spec fn encoded_len(input_len: nat) -> nat {
    4 * ((input_len + 2) / 3)
}

/// The shape of padded standard Base64 for an input of `input_len` bytes:
/// the length, alphabet symbols up to the padding, and `=` from there on.
pub open spec fn is_padded_base64(text: Seq<char>, input_len: nat) -> bool {
    &&& text.len() == encoded_len(input_len)
    &&& forall|i: int|
        0 <= i < text.len() - padding_len(input_len) ==> is_base64_symbol(#[trigger] text[i])
    &&& forall|i: int|
        text.len() - padding_len(input_len) <= i < text.len() ==> #[trigger] text[i] == '='
}

/// The shape of every accept token: 28 characters, of which the first 27
/// are alphabet symbols and the last is the one padding character.
pub open spec fn is_token_shaped(text: Seq<char>) -> bool {
    &&& text.len() == TOKEN_LEN
    &&& forall|i: int| 0 <= i < TOKEN_LEN - 1 ==> is_base64_symbol(#[trigger] text[i])
    &&& text[TOKEN_LEN - 1] == '='
}

/// Calls `Sha1::digest` of the `sha1` crate on `data`. The contract names
/// the digest; that it has twenty bytes is the crate's output size for
/// SHA-1, carried here by the array type.
#[verifier::external_body]
fn sha1_of(data: &[u8]) -> (digest: [u8; 20])
    ensures
        digest@ == sha1_digest(data@),
{
    sha1::Sha1::digest(data).into()
}

/// Calls `base64::encode` on `data`. The contract says that the text is
/// the Base64 of the bytes in the standard alphabet, with padding: the
/// configuration that this function of the crate encodes with. The encoder
/// panics when the text's length does not fit in a `usize`; such inputs
/// are left out.
#[verifier::external_body]
fn base64_of(data: &[u8]) -> (text: String)
    requires
        encoded_len(data@.len()) <= usize::MAX,
    ensures
        text@ == base64_text(data@),
{
    base64::encode(data)
}

/// Every symbol of the alphabet is an alphabet symbol, and none is `=`.
pub proof fn lemma_symbol_in_alphabet(v: int)
    requires
        0 <= v < 64,
    ensures
        is_base64_symbol(base64_symbol(v)),
        base64_symbol(v) != '=',
{
}

/// Base64 text has the padded shape: four characters for every three bytes
/// begun, alphabet symbols up to the padding, and `=` from there on.
pub proof fn lemma_base64_shape(data: Seq<u8>)
    ensures
        is_padded_base64(base64_text(data), data.len()),
    decreases data.len(),
{
    let text = base64_text(data);
    if data.len() >= 1 {
        lemma_symbol_in_alphabet(data[0] as int / 4);
        lemma_symbol_in_alphabet((data[0] as int % 4) * 16);
    }
    if data.len() >= 2 {
        lemma_symbol_in_alphabet((data[0] as int % 4) * 16 + data[1] as int / 16);
        lemma_symbol_in_alphabet((data[1] as int % 16) * 4);
    }
    if data.len() >= 3 {
        lemma_symbol_in_alphabet((data[1] as int % 16) * 4 + data[2] as int / 64);
        lemma_symbol_in_alphabet(data[2] as int % 64);
        let rest = base64_text(data.skip(3));
        lemma_base64_shape(data.skip(3));
        assert(text.len() == 4 + rest.len());
        assert forall|i: int| 4 <= i < text.len() implies #[trigger] text[i] == rest[i - 4] by {}
    }
}

/// The token that carries a digest: its twenty bytes in Base64.
pub fn encode_digest(digest: &[u8; 20]) -> (token: String)
    ensures
        token@ == base64_text(digest@),
        is_token_shaped(token@),
{
    let token: String = base64_of(digest.as_slice());
    proof {
        lemma_base64_shape(digest@);
    }
    token
}

/// The accept token for a key given as bytes.
pub fn accept_token_for(key: &[u8]) -> (token: String)
    ensures
        token@ == accept_token(key@),
        is_token_shaped(token@),
{
    let guid: &[u8] = "258EAFA5-E914-47DA-95CA-C5AB0DC85B11".as_bytes();
    let mut preimage: Vec<u8> = Vec::new();
    preimage.extend_from_slice(key);
    preimage.extend_from_slice(guid);
    assert(preimage@ =~= token_preimage(key@));
    let digest: [u8; 20] = sha1_of(preimage.as_slice());
    encode_digest(&digest)
}

/// The accept token for a client key: the key's UTF-8 bytes and the GUID
/// are hashed with SHA-1, and the digest is written in Base64. Every key
/// has a token, the empty key too.
pub fn hash_web_socket_key(header: &str) -> (token: String)
    ensures
        token@ == accept_token(vstd::utf8::encode_utf8(header@)),
        is_token_shaped(token@),
{
    accept_token_for(header.as_bytes())
}

/// The token is a function of the key alone: two tokens that answer equal
/// keys are equal.
pub proof fn lemma_same_key_same_token(
    first_key: Seq<char>,
    second_key: Seq<char>,
    first_token: Seq<char>,
    second_token: Seq<char>,
)
    requires
        first_key == second_key,
        first_token == accept_token(vstd::utf8::encode_utf8(first_key)),
        second_token == accept_token(vstd::utf8::encode_utf8(second_key)),
    ensures
        first_token == second_token,
{
}

} // verus!
