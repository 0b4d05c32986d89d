//! The response that opens a connection.
//!
//! The server answers an upgrade request with a fixed status line and two
//! fixed header lines. Where the client sent a key, a third header carries
//! the key's accept token: the base64 text of the SHA-1 digest of the key
//! followed by a fixed identifier.

use sha1::Sha1;
use vstd::prelude::*;
use vstd::slice::slice_to_vec;
use vstd::utf8::encode_utf8;

verus! {

/// The SHA-1 digest of `data`.
pub uninterp spec fn sha1_digest(data: Seq<u8>) -> Seq<u8>;

/// The base64 text of `data`, in the standard alphabet and padded.
pub uninterp spec fn base64_text(data: Seq<u8>) -> Seq<char>;

/// The identifier that is hashed together with the client's key.
pub open spec fn guid() -> Seq<char> {
    "258EAFA5-E914-47DA-95CA-C5AB0DC85B11"@
}

/// The status line and the two fixed header lines, each with its line end.
pub open spec fn fixed_lines() -> Seq<char> {
    "HTTP/1.1 101 Switching Protocols\r\nUpgrade: websocket\r\nConnection: Upgrade\r\n"@
}

/// The name of the header that carries the accept token.
pub open spec fn accept_header() -> Seq<char> {
    "Sec-Websocket-Accept: "@
}

/// The end of a line.
pub open spec fn line_end() -> Seq<char> {
    "\r\n"@
}

/// The accept token for a client's key.
pub open spec fn accept_text(key: Seq<char>) -> Seq<char> {
    base64_text(sha1_digest(encode_utf8(key) + encode_utf8(guid())))
}

/// The bytes of the response: the fixed lines, the accept header where
/// there is a token, and the empty line that ends the headers.
pub open spec fn response_bytes(accept: Option<Seq<char>>) -> Seq<u8> {
    encode_utf8(fixed_lines()) + match accept {
        Some(token) => encode_utf8(accept_header()) + encode_utf8(token) + encode_utf8(line_end()),
        None => Seq::<u8>::empty(),
    } + encode_utf8(line_end())
}

/// The accept token, if any, that answers a client's key, if any.
pub open spec fn accept_for(key: Option<String>) -> Option<Seq<char>> {
    match key {
        Some(k) => Some(accept_text(k@)),
        None => None,
    }
}

/// `Sha1::from`, `Sha1::digest` and `Digest::bytes` of the `sha1` crate, in
/// a row: the twenty bytes of the SHA-1 digest of `data`.
#[verifier::external_body]
fn sha1_of(data: &[u8]) -> (digest: [u8; 20])
    ensures
        digest@ == sha1_digest(data@),
{
    Sha1::from(data).digest().bytes()
}

/// `base64::encode`: the base64 text of a digest.
#[verifier::external_body]
fn base64_of(digest: &[u8; 20]) -> (text: String)
    ensures
        text@ == base64_text(digest@),
{
    base64::encode(digest)
}

/// The accept token for the key that a client sent.
pub fn accept_key(key: &str) -> (token: String)
    ensures
        token@ == accept_text(key@),
{
    let mut data: Vec<u8> = slice_to_vec(key.as_bytes());
    data.extend_from_slice("258EAFA5-E914-47DA-95CA-C5AB0DC85B11".as_bytes());
    assert(data@ =~= encode_utf8(key@) + encode_utf8(guid()));
    let digest = sha1_of(data.as_slice());
    base64_of(&digest)
}

/// The response for a given accept token, or for none.
pub fn response_with_accept(accept: Option<String>) -> (response: Vec<u8>)
    ensures
        response@ == response_bytes(
            match accept {
                Some(token) => Some(token@),
                None => None,
            },
        ),
{
    let mut response: Vec<u8> = slice_to_vec(
        "HTTP/1.1 101 Switching Protocols\r\nUpgrade: websocket\r\nConnection: Upgrade\r\n".as_bytes(),
    );
    match accept {
        Some(token) => {
            response.extend_from_slice("Sec-Websocket-Accept: ".as_bytes());
            response.extend_from_slice(token.as_str().as_bytes());
            response.extend_from_slice("\r\n".as_bytes());
        },
        None => {},
    }
    response.extend_from_slice("\r\n".as_bytes());
    response
}

/// The whole response to an upgrade request, for the key that the client
/// sent, or for none.
pub fn handshake_response(key: Option<String>) -> (response: Vec<u8>)
    ensures
        response@ == response_bytes(accept_for(key)),
{
    match key {
        Some(k) => response_with_accept(Some(accept_key(k.as_str()))),
        None => response_with_accept(None),
    }
}

} // verus!
