//! Encoding and decoding of messages.
//!
//! The bytes are produced and read by `bincode` in its standard
//! configuration. [`encode`] and [`decode`] state what comes out over the
//! layout of [`crate::wire`]; before bytes from the network reach the decoder,
//! [`decode`] checks that they frame a complete text.

use vstd::prelude::*;
use vstd::utf8::*;

use crate::message::{Message, MessageView};
use crate::wire::{message_bytes, parse_frame, parse_message, split_frame, DecodeError};

verus! {

/// The encoder gave up on a message.
#[derive(Debug, Clone, Copy, PartialEq, Eq, Structural)]
pub enum EncodeError {
    /// The encoder reported a failure.
    Rejected,
}

/// Calls `bincode::encode_to_vec` on the pair of identifier and text, in the
/// standard configuration (little endian, variable-length integers).
///
/// The encoder's error is folded into `None`.
///
/// Trusted: the call succeeds and returns the identifier as a variable-length
/// integer, then the text's byte length as one, then the text's UTF-8 bytes.
/// The writers it uses never fail, and a pair is written field after field
/// with nothing between or around them.
#[verifier::external_body]
fn bincode_encode(id: u64, content: &str) -> (r: Option<Vec<u8>>)
    ensures
        r is Some,
        r->Some_0@ == message_bytes(MessageView { id, content: content@ }),
{
    bincode::encode_to_vec((id, content), bincode::config::standard()).ok()
}

/// Calls `bincode::decode_from_slice` for a pair of `u64` and `String`, in the
/// standard configuration, and drops the count of bytes read. The decoder's
/// error is folded into `None`.
///
/// The decoder allocates the announced text length before it reads the text,
/// so it is only called on bytes that hold the whole text they announce.
///
/// Trusted: on such bytes the call succeeds exactly when the text is valid
/// UTF-8, and then returns the identifier and the text that the bytes frame.
#[verifier::external_body]
fn bincode_decode(bytes: &[u8]) -> (r: Option<(u64, String)>)
    requires
        parse_frame(bytes@) is Ok,
    ensures
        r is Some <==> parse_message(bytes@) is Ok,
        r is Some ==> (MessageView { id: r->Some_0.0, content: r->Some_0.1@ }) == parse_message(
            bytes@,
        )->Ok_0,
{
    match bincode::decode_from_slice::<(u64, String), _>(bytes, bincode::config::standard()) {
        Ok((pair, _)) => Some(pair),
        Err(_) => None,
    }
}

/// Encodes a message into the bytes of one datagram. Encoding is total: every
/// message has exactly one encoding.
pub fn encode(msg: &Message) -> (r: Result<Vec<u8>, EncodeError>)
    ensures
        r is Ok,
        r->Ok_0@ == message_bytes(msg@),
{
    match bincode_encode(msg.id, msg.content.as_str()) {
        Some(bytes) => Ok(bytes),
        None => Err(EncodeError::Rejected),
    }
}

/// Decodes the bytes of one datagram. Returns the message that the bytes
/// encode, and otherwise the reason why they encode none; bytes after the
/// text are ignored.
pub fn decode(bytes: &[u8]) -> (r: Result<Message, DecodeError>)
    ensures
        match parse_message(bytes@) {
            Ok(m) => r is Ok && r->Ok_0@ == m,
            Err(e) => r == Err::<Message, DecodeError>(e),
        },
{
    match split_frame(bytes) {
        Err(e) => Err(e),
        Ok(_) => match bincode_decode(bytes) {
            Some((id, content)) => Ok(Message { id, content }),
            None => Err(DecodeError::InvalidUtf8),
        },
    }
}

/// Round trip: decoding the encoding of a message gives the message back.
pub proof fn lemma_decode_inverts_encode(m: MessageView)
    requires
        encode_utf8(m.content).len() <= u64::MAX,
    ensures
        parse_message(message_bytes(m)) == Ok::<MessageView, DecodeError>(m),
{
    crate::wire::lemma_parse_inverts_encoding(m, Seq::empty());
    assert(message_bytes(m) + Seq::<u8>::empty() =~= message_bytes(m));
}

} // verus!
