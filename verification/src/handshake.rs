//! The answer to an upgrade request: the switching-protocols response that
//! carries the accept token for the client's key.

use crate::request::{
    contains, find_key, key_header_name, key_separator, lookup_key, KeyLookup, KeySearch,
    CARRIAGE_RETURN, LINE_FEED,
};
use crate::request_laws::{lemma_request_with_one_key_line, lemma_request_without_header};
use crate::token::{accept_token, accept_token_for, is_token_shaped};
use vstd::prelude::*;
use vstd::utf8::valid_utf8;

verus! {

/// Why a request gets no response.
#[derive(Debug, Clone, Copy, PartialEq, Eq, Structural)]
pub enum HandshakeError {
    /// The request is not UTF-8 text.
    InvalidUtf8,
    /// A line mentions the key header and holds no separator between a name
    /// and a value.
    MalformedKeyLine,
}

/// The response up to the accept token.
pub open spec fn response_head() -> Seq<char> {
    "HTTP/1.1 101 Switching Protocols\r\nUpgrade: websocket\r\nConnection: Upgrade\r\nSec-WebSocket-Accept: "@
}

/// The response after the accept token: the end of its line and the empty
/// line that ends the headers.
pub open spec fn response_tail() -> Seq<char> {
    "\r\n\r\n"@
}

/// The response that carries `token`.
pub open spec fn response_text(token: Seq<char>) -> Seq<char> {
    response_head() + token + response_tail()
}

/// Whether `response` is a response that carries a text of the shape of an
/// accept token.
pub open spec fn carries_token(response: Seq<char>) -> bool {
    exists|token: Seq<char>| is_token_shaped(token) && response == response_text(token)
}

/// The key whose token answers a search: the key that was found, or the
/// empty key where the request names none. A spoiled search has no key.
pub open spec fn key_to_answer(search: KeySearch) -> Option<Seq<u8>> {
    match search {
        KeySearch::Found(key) => Some(key),
        KeySearch::Missing => Some(Seq::empty()),
        KeySearch::Malformed => None,
    }
}

/// What a request is answered with: the response for its key, or the
/// reason why there is none.
pub open spec fn handshake_outcome(request: Seq<u8>) -> Result<Seq<char>, HandshakeError> {
    if !valid_utf8(request) {
        Err(HandshakeError::InvalidUtf8)
    } else {
        match key_to_answer(lookup_key(request)) {
            Some(key) => Ok(response_text(accept_token(key))),
            None => Err(HandshakeError::MalformedKeyLine),
        }
    }
}

/// Calls `std::str::from_utf8` on `bytes` and tells whether it accepted
/// them. The contract says that it accepts exactly the well-formed UTF-8
/// byte sequences.
#[verifier::external_body]
fn is_utf8(bytes: &[u8]) -> (valid: bool)
    ensures
        valid == valid_utf8(bytes@),
{
    match std::str::from_utf8(bytes) {
        Ok(_) => true,
        Err(_) => false,
    }
}

/// The response that carries `token`.
pub fn response_for_token(token: &str) -> (response: String)
    ensures
        response@ == response_text(token@),
{
    let mut response: String = String::from_str(
        "HTTP/1.1 101 Switching Protocols\r\nUpgrade: websocket\r\nConnection: Upgrade\r\nSec-WebSocket-Accept: ",
    );
    response.append(token);
    response.append("\r\n\r\n");
    response
}

/// The response to a request whose search for the key ended in `found`.
/// A request that names no key is answered as if its key were empty.
pub fn response_for_lookup(found: &KeyLookup) -> (outcome: Result<String, HandshakeError>)
    ensures
        match outcome {
            Ok(response) => key_to_answer(found@) matches Some(key) && response@ == response_text(
                accept_token(key),
            ) && carries_token(response@),
            Err(error) => key_to_answer(found@) is None && error == HandshakeError::MalformedKeyLine,
        },
{
    let empty: Vec<u8> = Vec::new();
    let token: String = match found {
        KeyLookup::Found(key) => accept_token_for(key.as_slice()),
        KeyLookup::Missing => {
            assert(empty@ =~= Seq::<u8>::empty());
            accept_token_for(empty.as_slice())
        },
        KeyLookup::Malformed => {
            return Err(HandshakeError::MalformedKeyLine);
        },
    };
    Ok(response_for_token(token.as_str()))
}

/// Answers an upgrade request. The bytes must be UTF-8 text; the key is
/// looked for line by line, and the response carries the accept token for
/// it, or for the empty key where the request names none.
pub fn handshake_response(request: &[u8]) -> (outcome: Result<String, HandshakeError>)
    ensures
        match outcome {
            Ok(response) => handshake_outcome(request@) == Ok::<Seq<char>, HandshakeError>(
                response@,
            ),
            Err(error) => handshake_outcome(request@) == Err::<Seq<char>, HandshakeError>(error),
        },
        outcome matches Ok(response) ==> carries_token(response@),
{
    if !is_utf8(request) {
        return Err(HandshakeError::InvalidUtf8);
    }
    let found: KeyLookup = find_key(request);
    response_for_lookup(&found)
}

/// A request that is text and nowhere mentions the key header is answered
/// all the same, with the token of the empty key.
pub proof fn lemma_request_without_key_is_answered(request: Seq<u8>)
    requires
        valid_utf8(request),
        !contains(request, key_header_name()),
    ensures
        handshake_outcome(request) == Ok::<Seq<char>, HandshakeError>(
            response_text(accept_token(Seq::empty())),
        ),
{
    lemma_request_without_header(request);
}

/// A request that is text and in which one line gives the key is answered
/// with that key's token: before the line stand whole lines, after it
/// anything, neither mentions the key header, and the line is the header's
/// name, the separator and a key that holds neither a separator nor a line
/// feed, ended by a carriage return and a line feed.
pub proof fn lemma_request_with_key_is_answered(before: Seq<u8>, key: Seq<u8>, after: Seq<u8>)
    requires
        before.len() == 0 || before[before.len() - 1] == LINE_FEED,
        !contains(before, key_header_name()),
        !contains(after, key_header_name()),
        !contains(key, key_separator()),
        forall|i: int| 0 <= i < key.len() ==> key[i] != LINE_FEED,
        valid_utf8(
            before + (key_header_name() + key_separator() + key + seq![CARRIAGE_RETURN, LINE_FEED])
                + after,
        ),
    ensures
        handshake_outcome(
            before + (key_header_name() + key_separator() + key + seq![CARRIAGE_RETURN, LINE_FEED])
                + after,
        ) == Ok::<Seq<char>, HandshakeError>(response_text(accept_token(key))),
{
    lemma_request_with_one_key_line(before, key, after);
}

/// Whether a request is answered depends on that request alone: bytes that
/// are not text are refused, and a request that is text is refused only for
/// a line that mentions the key header without a separator.
pub proof fn lemma_answered_requests(request: Seq<u8>)
    ensures
        handshake_outcome(request) is Ok <==> valid_utf8(request) && !(lookup_key(
            request,
        ) is Malformed),
        handshake_outcome(request) == Err::<Seq<char>, HandshakeError>(
            HandshakeError::InvalidUtf8,
        ) <==> !valid_utf8(request),
{
}

} // verus!
