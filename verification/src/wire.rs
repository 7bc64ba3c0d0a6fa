//! The byte layout of a message inside one datagram.
//!
//! A message is written as three consecutive fields: the identifier as a
//! variable-length integer, the byte length of the text as a variable-length
//! integer, and the text in UTF-8. Bytes after the text are ignored.
//!
//! A variable-length integer starts with a tag byte. Tags up to 250 are the
//! value itself; 251, 252 and 253 announce a little-endian `u16`, `u32` or
//! `u64`; 254 and 255 never start a field of this layout.

use vstd::bytes::*;
use vstd::prelude::*;
use vstd::slice::*;
use vstd::utf8::*;

use crate::message::MessageView;

verus! {

/// Largest value that is written as a single tag byte.
pub const SINGLE_BYTE_MAX: u8 = 250;

/// Tag of a value written as a little-endian `u16`.
pub const U16_TAG: u8 = 251;

/// Tag of a value written as a little-endian `u32`.
pub const U32_TAG: u8 = 252;

/// Tag of a value written as a little-endian `u64`.
pub const U64_TAG: u8 = 253;

/// Why a byte string is not the encoding of a message.
#[derive(Debug, Clone, Copy, PartialEq, Eq, Structural)]
pub enum DecodeError {
    /// The bytes stop inside a field.
    UnexpectedEnd,
    /// A variable-length integer starts with a tag that announces no width.
    InvalidDiscriminant,
    /// The text is not valid UTF-8.
    InvalidUtf8,
}

/// The variable-length encoding of `v`: the shortest of the four forms that
/// holds it.
pub open spec fn varint(v: u64) -> Seq<u8> {
    if v <= SINGLE_BYTE_MAX {
        seq![v as u8]
    } else if v <= u16::MAX {
        seq![U16_TAG] + spec_u16_to_le_bytes(v as u16)
    } else if v <= u32::MAX {
        seq![U32_TAG] + spec_u32_to_le_bytes(v as u32)
    } else {
        seq![U64_TAG] + spec_u64_to_le_bytes(v)
    }
}

/// The number of bytes that the variable-length encoding of `v` takes.
pub open spec fn varint_len(v: u64) -> nat {
    if v <= SINGLE_BYTE_MAX {
        1
    } else if v <= u16::MAX {
        3
    } else if v <= u32::MAX {
        5
    } else {
        9
    }
}

/// The variable-length integer at the start of `bytes`, with the number of
/// bytes it occupies. Any of the four forms is read back, the shortest or not.
pub open spec fn parse_varint(bytes: Seq<u8>) -> Result<(u64, nat), DecodeError> {
    if bytes.len() == 0 {
        Err(DecodeError::UnexpectedEnd)
    } else if bytes[0] <= SINGLE_BYTE_MAX {
        Ok((bytes[0] as u64, 1nat))
    } else if bytes[0] == U16_TAG {
        if bytes.len() < 3 {
            Err(DecodeError::UnexpectedEnd)
        } else {
            Ok((spec_u16_from_le_bytes(bytes.subrange(1, 3)) as u64, 3nat))
        }
    } else if bytes[0] == U32_TAG {
        if bytes.len() < 5 {
            Err(DecodeError::UnexpectedEnd)
        } else {
            Ok((spec_u32_from_le_bytes(bytes.subrange(1, 5)) as u64, 5nat))
        }
    } else if bytes[0] == U64_TAG {
        if bytes.len() < 9 {
            Err(DecodeError::UnexpectedEnd)
        } else {
            Ok((spec_u64_from_le_bytes(bytes.subrange(1, 9)), 9nat))
        }
    } else {
        Err(DecodeError::InvalidDiscriminant)
    }
}

/// The identifier and the text bytes that `bytes` frames: the two integers
/// are read, and the announced number of bytes must follow them.
pub open spec fn parse_frame(bytes: Seq<u8>) -> Result<(u64, Seq<u8>), DecodeError> {
    match parse_varint(bytes) {
        Err(e) => Err(e),
        Ok((id, n)) => match parse_varint(bytes.skip(n as int)) {
            Err(e) => Err(e),
            Ok((len, k)) => if len > bytes.len() - n - k {
                Err(DecodeError::UnexpectedEnd)
            } else {
                Ok((id, bytes.subrange((n + k) as int, n + k + len)))
            },
        },
    }
}

/// The message that `bytes` encode, or the reason why they encode none.
pub open spec fn parse_message(bytes: Seq<u8>) -> Result<MessageView, DecodeError> {
    match parse_frame(bytes) {
        Err(e) => Err(e),
        Ok((id, text)) => if valid_utf8(text) {
            Ok(MessageView { id, content: decode_utf8(text) })
        } else {
            Err(DecodeError::InvalidUtf8)
        },
    }
}

/// The encoding of a message.
pub open spec fn message_bytes(m: MessageView) -> Seq<u8> {
    varint(m.id) + varint(encode_utf8(m.content).len() as u64) + encode_utf8(m.content)
}

/// Reads the variable-length integer at the start of `bytes` and says how many
/// bytes it occupies.
pub fn read_varint(bytes: &[u8]) -> (r: Result<(u64, usize), DecodeError>)
    ensures
        match r {
            Ok((v, n)) => parse_varint(bytes@) == Ok::<(u64, nat), DecodeError>((v, n as nat)),
            Err(e) => parse_varint(bytes@) == Err::<(u64, nat), DecodeError>(e),
        },
{
    let avail: usize = bytes.len();
    if avail == 0 {
        return Err(DecodeError::UnexpectedEnd);
    }
    let tag: u8 = bytes[0];
    if tag <= SINGLE_BYTE_MAX {
        Ok((tag as u64, 1))
    } else if tag == U16_TAG {
        if avail < 3 {
            Err(DecodeError::UnexpectedEnd)
        } else {
            let v: u16 = u16_from_le_bytes(slice_subrange(bytes, 1, 3));
            Ok((v as u64, 3))
        }
    } else if tag == U32_TAG {
        if avail < 5 {
            Err(DecodeError::UnexpectedEnd)
        } else {
            let v: u32 = u32_from_le_bytes(slice_subrange(bytes, 1, 5));
            Ok((v as u64, 5))
        }
    } else if tag == U64_TAG {
        if avail < 9 {
            Err(DecodeError::UnexpectedEnd)
        } else {
            let v: u64 = u64_from_le_bytes(slice_subrange(bytes, 1, 9));
            Ok((v, 9))
        }
    } else {
        Err(DecodeError::InvalidDiscriminant)
    }
}

/// Splits `bytes` into the identifier and the text bytes that they frame,
/// without looking inside the text.
pub fn split_frame(bytes: &[u8]) -> (r: Result<(u64, &[u8]), DecodeError>)
    ensures
        match r {
            Ok((id, text)) => parse_frame(bytes@) == Ok::<(u64, Seq<u8>), DecodeError>(
                (id, text@),
            ),
            Err(e) => parse_frame(bytes@) == Err::<(u64, Seq<u8>), DecodeError>(e),
        },
{
    let total: usize = bytes.len();
    let (id, n) = match read_varint(bytes) {
        Ok(pair) => pair,
        Err(e) => { return Err(e); },
    };
    let rest = slice_subrange(bytes, n, total);
    let (len, k) = match read_varint(rest) {
        Ok(pair) => pair,
        Err(e) => { return Err(e); },
    };
    let left: usize = total - n - k;
    if len > left as u64 {
        return Err(DecodeError::UnexpectedEnd);
    }
    let start: usize = n + k;
    let text = slice_subrange(bytes, start, start + len as usize);
    Ok((id, text))
}

/// The encoding of a variable-length integer has the length that
/// [`varint_len`] gives.
pub proof fn lemma_varint_len(v: u64)
    ensures
        varint(v).len() == varint_len(v),
{
    lemma_auto_spec_u16_to_from_le_bytes();
    lemma_auto_spec_u32_to_from_le_bytes();
    lemma_auto_spec_u64_to_from_le_bytes();
}

/// The encoding of a message is as long as its two integers and its text
/// together: at most eighteen bytes more than the text.
pub proof fn lemma_message_length(m: MessageView)
    requires
        encode_utf8(m.content).len() <= u64::MAX,
    ensures
        message_bytes(m).len() == varint_len(m.id) + varint_len(
            encode_utf8(m.content).len() as u64,
        ) + encode_utf8(m.content).len(),
        encode_utf8(m.content).len() + 2 <= message_bytes(m).len() <= encode_utf8(
            m.content,
        ).len() + 18,
{
    lemma_varint_len(m.id);
    lemma_varint_len(encode_utf8(m.content).len() as u64);
}

/// A variable-length integer is read back from any byte string that starts
/// with its encoding.
pub proof fn lemma_varint_read_back(v: u64, bytes: Seq<u8>)
    requires
        varint(v).is_prefix_of(bytes),
    ensures
        parse_varint(bytes) == Ok::<(u64, nat), DecodeError>((v, varint(v).len())),
{
    lemma_auto_spec_u16_to_from_le_bytes();
    lemma_auto_spec_u32_to_from_le_bytes();
    lemma_auto_spec_u64_to_from_le_bytes();
    let enc = varint(v);
    assert(enc.len() >= 1);
    assert(bytes[0] == enc[0]);
    let shared = bytes.subrange(0, enc.len() as int);
    assert(shared == enc);
    if v <= SINGLE_BYTE_MAX {
    } else if v <= u16::MAX {
        assert(bytes.subrange(1, 3) =~= shared.subrange(1, 3));
        assert(enc.subrange(1, 3) =~= spec_u16_to_le_bytes(v as u16));
    } else if v <= u32::MAX {
        assert(bytes.subrange(1, 5) =~= shared.subrange(1, 5));
        assert(enc.subrange(1, 5) =~= spec_u32_to_le_bytes(v as u32));
    } else {
        assert(bytes.subrange(1, 9) =~= shared.subrange(1, 9));
        assert(enc.subrange(1, 9) =~= spec_u64_to_le_bytes(v));
    }
}

/// No variable-length integer can be read from a byte string that stops
/// inside the encoding of one.
pub proof fn lemma_varint_cut_short(v: u64, bytes: Seq<u8>)
    requires
        bytes.is_prefix_of(varint(v)),
        bytes.len() < varint(v).len(),
    ensures
        parse_varint(bytes) == Err::<(u64, nat), DecodeError>(DecodeError::UnexpectedEnd),
{
    lemma_auto_spec_u16_to_from_le_bytes();
    lemma_auto_spec_u32_to_from_le_bytes();
    lemma_auto_spec_u64_to_from_le_bytes();
    if bytes.len() > 0 {
        assert(bytes[0] == varint(v)[0]);
    }
}

/// Round trip: the encoding of a message, followed by any bytes, parses back
/// to that message.
pub proof fn lemma_parse_inverts_encoding(m: MessageView, trailing: Seq<u8>)
    requires
        encode_utf8(m.content).len() <= u64::MAX,
    ensures
        parse_message(message_bytes(m) + trailing) == Ok::<MessageView, DecodeError>(m),
{
    let text = encode_utf8(m.content);
    let head = varint(m.id);
    let size = varint(text.len() as u64);
    let bytes = message_bytes(m) + trailing;
    lemma_varint_read_back(m.id, bytes);
    let n = head.len();
    assert(size.is_prefix_of(bytes.skip(n as int)));
    lemma_varint_read_back(text.len() as u64, bytes.skip(n as int));
    let k = size.len();
    assert(bytes.subrange((n + k) as int, (n + k + text.len()) as int) =~= text);
    encode_utf8_valid_utf8(m.content);
    encode_utf8_decode_utf8(m.content);
}

/// Truncation: a byte string that stops before the end of a message's
/// encoding parses to no message.
pub proof fn lemma_truncated_encoding_rejected(m: MessageView, keep: int)
    requires
        encode_utf8(m.content).len() <= u64::MAX,
        0 <= keep < message_bytes(m).len(),
    ensures
        parse_message(message_bytes(m).subrange(0, keep)) == Err::<MessageView, DecodeError>(
            DecodeError::UnexpectedEnd,
        ),
{
    let text = encode_utf8(m.content);
    let head = varint(m.id);
    let size = varint(text.len() as u64);
    let n = head.len();
    let k = size.len();
    let cut = message_bytes(m).subrange(0, keep);
    if keep < n {
        lemma_varint_cut_short(m.id, cut);
    } else {
        lemma_varint_read_back(m.id, cut);
        let rest = cut.skip(n as int);
        if keep < n + k {
            lemma_varint_cut_short(text.len() as u64, rest);
        } else {
            assert(size.is_prefix_of(rest));
            lemma_varint_read_back(text.len() as u64, rest);
        }
    }
}

/// Two messages with the same encoding are the same message.
pub proof fn lemma_encoding_is_injective(a: MessageView, b: MessageView)
    requires
        encode_utf8(a.content).len() <= u64::MAX,
        encode_utf8(b.content).len() <= u64::MAX,
        message_bytes(a) == message_bytes(b),
    ensures
        a == b,
{
    lemma_parse_inverts_encoding(a, Seq::empty());
    lemma_parse_inverts_encoding(b, Seq::empty());
}

} // verus!
