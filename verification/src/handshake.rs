//! The opening handshake: from the client's HTTP request to the response
//! that turns the connection into a WebSocket.
//!
//! Of the request only the header `Sec-WebSocket-Key` is read. Method, path
//! and version are not looked at.

use crate::error::ChatError;
use crate::outside::{
    base64_encode, base64_of, regex_capture, regex_group_of, sha1_digest, sha1_of, text_of,
    trim_text, trimmed_of,
};
use vstd::prelude::*;
use vstd::utf8::*;

verus! {

/// The fixed identifier that is appended to the client's key before hashing.
pub const WEBSOCKET_GUID: &'static str = "258EAFA5-E914-47DA-95CA-C5AB0DC85B11";

/// The regular expression whose first group is the rest of the key's header
/// line.
pub const KEY_PATTERN: &'static str = "Sec-WebSocket-Key: (.*)";

/// The response up to the accept value.
pub const RESPONSE_HEAD: &'static str =
    "HTTP/1.1 101 Switching Protocols\r\nConnection: Upgrade\r\nUpgrade: websocket\r\nSec-WebSocket-Accept: ";

/// The end of the response: of the header line and of the header.
pub const RESPONSE_END: &'static str = "\r\n\r\n";

/// The key that a request carries: what follows `Sec-WebSocket-Key: ` on its
/// line, without the white space around it.
pub open spec fn key_of(request: Seq<char>) -> Option<Seq<char>> {
    match regex_group_of(KEY_PATTERN@, request, 1) {
        Some(rest) => Some(trimmed_of(rest)),
        None => None,
    }
}

/// The accept value made of the base64 text of a digest: that text and one
/// `=`.
pub open spec fn accept_of_encoded(encoded: Seq<char>) -> Seq<char> {
    encoded + "="@
}

/// The accept value that answers `key`: the SHA-1 digest of the key with the
/// fixed identifier appended, in base64 without padding, and one `=`.
pub open spec fn accept_of(key: Seq<char>) -> Seq<char> {
    accept_of_encoded(base64_of(sha1_of(encode_utf8(key + WEBSOCKET_GUID@))))
}

/// The response that carries the accept value `accept`.
pub open spec fn response_of(accept: Seq<char>) -> Seq<char> {
    RESPONSE_HEAD@ + accept + RESPONSE_END@
}

/// The response that a request is owed, where it carries a key.
pub open spec fn handshake_of(request: Seq<char>) -> Option<Seq<char>> {
    match key_of(request) {
        Some(key) => Some(response_of(accept_of(key))),
        None => None,
    }
}


/// The value of the header `Sec-WebSocket-Key` in `request`, or `None` where
/// the request has no such header.
pub fn websocket_key(request: &str) -> (key: Option<String>)
    ensures
        key is Some <==> key_of(request@) is Some,
        key matches Some(text) ==> key_of(request@) == Some(text@),
{
    match regex_capture(KEY_PATTERN, request, 1) {
        Some(rest) => Some(String::from_str(trim_text(rest.as_str()))),
        None => None,
    }
}

/// The accept value made of `encoded`, the unpadded base64 text of a
/// digest: one `=` is appended.
pub fn accept_from_encoded(encoded: String) -> (accept: String)
    ensures
        accept@ == accept_of_encoded(encoded@),
        accept@.len() == encoded@.len() + 1,
{
    proof {
        reveal_strlit("=");
    }
    encoded.concat("=")
}

/// The `Sec-WebSocket-Accept` value that answers the client's key. It is 28
/// characters long.
pub fn accept_key(key: &str) -> (accept: String)
    ensures
        accept@ == accept_of(key@),
        accept@.len() == 28,
{
    let joined = String::from_str(key).concat(WEBSOCKET_GUID);
    let digest = sha1_digest(joined.as_str().as_bytes());
    let encoded = base64_encode(digest.as_slice());
    accept_from_encoded(encoded)
}

/// The HTTP response that switches protocols, with `accept` as its accept
/// value.
pub fn upgrade_response(accept: &str) -> (response: String)
    ensures
        response@ == response_of(accept@),
{
    String::from_str(RESPONSE_HEAD).concat(accept).concat(RESPONSE_END)
}

/// The response that carries the accept value `accept`; and where there is
/// none, because the request had no key, `HandshakeMalformed`.
pub fn response_for(accept: Option<String>) -> (response: Result<String, ChatError>)
    ensures
        response is Ok <==> accept is Some,
        response matches Ok(text) ==> text_of(accept) matches Some(value) && text@
            == response_of(value),
        response matches Err(e) ==> e == ChatError::HandshakeMalformed,
{
    match accept {
        Some(accept) => Ok(upgrade_response(accept.as_str())),
        None => Err(ChatError::HandshakeMalformed),
    }
}

/// The response to the opening request `request`.
///
/// A request without the header `Sec-WebSocket-Key` cannot be answered: that
/// is `HandshakeMalformed`, and the end of the connection.
pub fn handshake_response(request: &str) -> (response: Result<String, ChatError>)
    ensures
        response is Ok <==> handshake_of(request@) is Some,
        response matches Ok(text) ==> handshake_of(request@) == Some(text@),
        response matches Err(e) ==> e == ChatError::HandshakeMalformed,
{
    let accept = match websocket_key(request) {
        Some(key) => Some(accept_key(key.as_str())),
        None => None,
    };
    response_for(accept)
}

} // verus!
