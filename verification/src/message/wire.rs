//! The packet payload format.
//!
//! A payload is either empty (it then carries no message) or a count followed
//! by that many messages, with no byte left over:
//!
//! ```text
//! payload   := count:u64 message*
//! message   := 0x01 client:u32 id:u32 operation
//!            | 0x02 client:u32 id:u32 extension
//! operation := 0x00 blob           (get: key)
//!            | 0x01 blob blob      (put: key, value)
//!            | 0x02 blob           (delete: key)
//! extension := 0x00                (nothing)
//!            | 0x01 binding        (get)
//!            | 0x02 binding        (put)
//!            | 0x03 binding        (delete)
//! binding   := 0x00 | 0x01 blob
//! blob      := length:u32 byte*length
//! ```
//!
//! Every integer is fixed-width and little-endian.

use vstd::prelude::*;
use super::Message;
use super::ack::{AckMessage, AckMessageExtensions};
use super::client_message::{ClientId, ClientLogMessage, ClientMessageOperation, MessageId};

verus! {

/// A message whose key and value are byte strings, as the wire carries it.
pub type ByteMessage = Message<Vec<u8>, Vec<u8>>;

/// The mathematical value of a [`ByteMessage`].
pub type ByteMessageView = Message<Seq<u8>, Seq<u8>>;

/// Tag byte of a client operation.
pub const TAG_INCOMING_CLIENT: u8 = 1;

/// Tag byte of an acknowledgement.
pub const TAG_ACK: u8 = 2;

/// Tag byte of a `Get` operation.
pub const OP_GET: u8 = 0;

/// Tag byte of a `Put` operation.
pub const OP_PUT: u8 = 1;

/// Tag byte of a `Delete` operation.
pub const OP_DELETE: u8 = 2;

/// Tag byte of an acknowledgement without extension.
pub const EXT_EMPTY: u8 = 0;

/// Tag byte of the extension that answers a `Get`.
pub const EXT_GET: u8 = 1;

/// Tag byte of the extension that answers a `Put`.
pub const EXT_PUT: u8 = 2;

/// Tag byte of the extension that answers a `Delete`.
pub const EXT_DELETE: u8 = 3;

/// Marks a binding that holds no value.
pub const BINDING_ABSENT: u8 = 0;

/// Marks a binding that holds a value.
pub const BINDING_PRESENT: u8 = 1;

/// Why a payload is not a sequence of messages.
#[derive(Debug, Clone, Copy, PartialEq, Eq, Structural)]
pub enum FramingError {
    /// A tag byte has a value that the format does not define.
    BadTag,
    /// A length or a count announces more bytes than the payload holds.
    BadLength,
    /// Bytes follow the last message that the count announces.
    TrailingBytes,
}

/// The four bytes of `x`, least significant first.
pub open spec fn le_u32(x: u32) -> Seq<u8> {
    seq![
        (x % 256) as u8,
        (x / 256 % 256) as u8,
        (x / 65536 % 256) as u8,
        (x / 16777216) as u8,
    ]
}

/// The eight bytes of `x`, least significant first.
pub open spec fn le_u64(x: u64) -> Seq<u8> {
    le_u32((x % 0x1_0000_0000) as u32) + le_u32((x / 0x1_0000_0000) as u32)
}

/// The number that the four bytes from `at` on spell, least significant first.
pub open spec fn u32_at(s: Seq<u8>, at: int) -> u32 {
    (s[at] + 256 * s[at + 1] + 65536 * s[at + 2] + 16777216 * s[at + 3]) as u32
}

/// The number that the eight bytes from `at` on spell, least significant first.
pub open spec fn u64_at(s: Seq<u8>, at: int) -> u64 {
    (u32_at(s, at) + 0x1_0000_0000 * u32_at(s, at + 4)) as u64
}

/// A byte string behind its length.
pub open spec fn encode_blob(b: Seq<u8>) -> Seq<u8> {
    le_u32(b.len() as u32) + b
}

/// An optional byte string behind its presence mark.
pub open spec fn encode_binding(binding: Option<Seq<u8>>) -> Seq<u8> {
    match binding {
        None => seq![BINDING_ABSENT],
        Some(value) => seq![BINDING_PRESENT] + encode_blob(value),
    }
}

/// The bytes of an operation.
pub open spec fn encode_operation(op: ClientMessageOperation<Seq<u8>, Seq<u8>>) -> Seq<u8> {
    match op {
        ClientMessageOperation::Get { key } => seq![OP_GET] + encode_blob(key),
        ClientMessageOperation::Put { key, value } => seq![OP_PUT] + encode_blob(key)
            + encode_blob(value),
        ClientMessageOperation::Delete { key } => seq![OP_DELETE] + encode_blob(key),
    }
}

/// The bytes of an acknowledgement's extension.
pub open spec fn encode_extension(ext: AckMessageExtensions<Seq<u8>>) -> Seq<u8> {
    match ext {
        AckMessageExtensions::Empty => seq![EXT_EMPTY],
        AckMessageExtensions::Get(binding) => seq![EXT_GET] + encode_binding(binding),
        AckMessageExtensions::Put(binding) => seq![EXT_PUT] + encode_binding(binding),
        AckMessageExtensions::Delete(binding) => seq![EXT_DELETE] + encode_binding(binding),
    }
}

/// The bytes of one message.
pub open spec fn encode_message(m: ByteMessageView) -> Seq<u8> {
    match m {
        Message::IncomingClientMessage(msg) => seq![TAG_INCOMING_CLIENT] + le_u32(msg.client_id.0)
            + le_u32(msg.message_id.0) + encode_operation(msg.operation),
        Message::AckMessage(ack) => seq![TAG_ACK] + le_u32(ack.client_id.0) + le_u32(
            ack.message_id.0,
        ) + encode_extension(ack.extension),
    }
}

/// The bytes of a run of messages, one after the other.
pub open spec fn encode_messages(ms: Seq<ByteMessageView>) -> Seq<u8>
    decreases ms.len(),
{
    if ms.len() == 0 {
        Seq::empty()
    } else {
        encode_messages(ms.drop_last()) + encode_message(ms.last())
    }
}

/// The payload that carries `ms`: their count, then the messages.
pub open spec fn encode_payload(ms: Seq<ByteMessageView>) -> Seq<u8> {
    le_u64(ms.len() as u64) + encode_messages(ms)
}

/// Whether a byte string is short enough for its length to fit the format.
pub open spec fn blob_fits(b: Seq<u8>) -> bool {
    b.len() <= u32::MAX
}

/// Whether an optional byte string is short enough for the format.
pub open spec fn binding_fits(binding: Option<Seq<u8>>) -> bool {
    match binding {
        None => true,
        Some(value) => blob_fits(value),
    }
}

/// Whether the format can carry the operation: its key and its value are at
/// most `u32::MAX` bytes long.
pub open spec fn operation_fits(op: ClientMessageOperation<Seq<u8>, Seq<u8>>) -> bool {
    match op {
        ClientMessageOperation::Get { key } => blob_fits(key),
        ClientMessageOperation::Put { key, value } => blob_fits(key) && blob_fits(value),
        ClientMessageOperation::Delete { key } => blob_fits(key),
    }
}

/// Whether the format can carry the extension: the value that it holds, if
/// any, is at most `u32::MAX` bytes long.
pub open spec fn extension_fits(ext: AckMessageExtensions<Seq<u8>>) -> bool {
    match ext {
        AckMessageExtensions::Empty => true,
        AckMessageExtensions::Get(binding) => binding_fits(binding),
        AckMessageExtensions::Put(binding) => binding_fits(binding),
        AckMessageExtensions::Delete(binding) => binding_fits(binding),
    }
}

/// Whether the format can carry the message.
pub open spec fn message_fits(m: ByteMessageView) -> bool {
    match m {
        Message::IncomingClientMessage(msg) => operation_fits(msg.operation),
        Message::AckMessage(ack) => extension_fits(ack.extension),
    }
}

/// Whether the format can carry every message of the run.
pub open spec fn messages_fit(ms: Seq<ByteMessageView>) -> bool {
    forall|i: int| 0 <= i < ms.len() ==> message_fits(#[trigger] ms[i])
}

/// Reads a byte string at `at`: the string and the position behind it.
pub open spec fn parse_blob(s: Seq<u8>, at: int) -> Result<(Seq<u8>, int), FramingError> {
    if at + 4 > s.len() {
        Err(FramingError::BadLength)
    } else {
        let n = u32_at(s, at) as int;
        if at + 4 + n > s.len() {
            Err(FramingError::BadLength)
        } else {
            Ok((s.subrange(at + 4, at + 4 + n), at + 4 + n))
        }
    }
}

/// Reads an optional byte string at `at`.
pub open spec fn parse_binding(s: Seq<u8>, at: int) -> Result<(Option<Seq<u8>>, int), FramingError> {
    if at + 1 > s.len() {
        Err(FramingError::BadLength)
    } else if s[at] == BINDING_ABSENT {
        Ok((None, at + 1))
    } else if s[at] == BINDING_PRESENT {
        match parse_blob(s, at + 1) {
            Ok((value, next)) => Ok((Some(value), next)),
            Err(e) => Err(e),
        }
    } else {
        Err(FramingError::BadTag)
    }
}

/// Reads an operation at `at`.
pub open spec fn parse_operation(s: Seq<u8>, at: int) -> Result<
    (ClientMessageOperation<Seq<u8>, Seq<u8>>, int),
    FramingError,
> {
    if at + 1 > s.len() {
        Err(FramingError::BadLength)
    } else if s[at] == OP_GET {
        match parse_blob(s, at + 1) {
            Ok((key, next)) => Ok((ClientMessageOperation::Get { key }, next)),
            Err(e) => Err(e),
        }
    } else if s[at] == OP_PUT {
        match parse_blob(s, at + 1) {
            Ok((key, mid)) => match parse_blob(s, mid) {
                Ok((value, next)) => Ok((ClientMessageOperation::Put { key, value }, next)),
                Err(e) => Err(e),
            },
            Err(e) => Err(e),
        }
    } else if s[at] == OP_DELETE {
        match parse_blob(s, at + 1) {
            Ok((key, next)) => Ok((ClientMessageOperation::Delete { key }, next)),
            Err(e) => Err(e),
        }
    } else {
        Err(FramingError::BadTag)
    }
}

/// Reads an acknowledgement's extension at `at`.
pub open spec fn parse_extension(s: Seq<u8>, at: int) -> Result<
    (AckMessageExtensions<Seq<u8>>, int),
    FramingError,
> {
    if at + 1 > s.len() {
        Err(FramingError::BadLength)
    } else if s[at] == EXT_EMPTY {
        Ok((AckMessageExtensions::Empty, at + 1))
    } else if s[at] == EXT_GET {
        match parse_binding(s, at + 1) {
            Ok((binding, next)) => Ok((AckMessageExtensions::Get(binding), next)),
            Err(e) => Err(e),
        }
    } else if s[at] == EXT_PUT {
        match parse_binding(s, at + 1) {
            Ok((binding, next)) => Ok((AckMessageExtensions::Put(binding), next)),
            Err(e) => Err(e),
        }
    } else if s[at] == EXT_DELETE {
        match parse_binding(s, at + 1) {
            Ok((binding, next)) => Ok((AckMessageExtensions::Delete(binding), next)),
            Err(e) => Err(e),
        }
    } else {
        Err(FramingError::BadTag)
    }
}

/// Reads one message at `at`.
pub open spec fn parse_message(s: Seq<u8>, at: int) -> Result<(ByteMessageView, int), FramingError> {
    if at + 1 > s.len() {
        Err(FramingError::BadLength)
    } else if s[at] != TAG_INCOMING_CLIENT && s[at] != TAG_ACK {
        Err(FramingError::BadTag)
    } else if at + 9 > s.len() {
        Err(FramingError::BadLength)
    } else {
        let client_id = ClientId(u32_at(s, at + 1));
        let message_id = MessageId(u32_at(s, at + 5));
        if s[at] == TAG_INCOMING_CLIENT {
            match parse_operation(s, at + 9) {
                Ok((operation, next)) => Ok(
                    (
                        Message::IncomingClientMessage(
                            ClientLogMessage { client_id, message_id, operation },
                        ),
                        next,
                    ),
                ),
                Err(e) => Err(e),
            }
        } else {
            match parse_extension(s, at + 9) {
                Ok((extension, next)) => Ok(
                    (Message::AckMessage(AckMessage { client_id, message_id, extension }), next),
                ),
                Err(e) => Err(e),
            }
        }
    }
}

/// Reads `count` messages, the first of them at `at`.
pub open spec fn parse_messages(s: Seq<u8>, at: int, count: nat) -> Result<
    (Seq<ByteMessageView>, int),
    FramingError,
>
    decreases count,
{
    if count == 0 {
        Ok((Seq::empty(), at))
    } else {
        match parse_messages(s, at, (count - 1) as nat) {
            Ok((ms, pos)) => match parse_message(s, pos) {
                Ok((m, next)) => Ok((ms.push(m), next)),
                Err(e) => Err(e),
            },
            Err(e) => Err(e),
        }
    }
}

/// What a payload holds: no message where it is empty; else the messages that
/// its count announces, where they fill it exactly; else the first fault met
/// on the way from its first byte.
pub open spec fn parse_payload(s: Seq<u8>) -> Result<Seq<ByteMessageView>, FramingError> {
    if s.len() == 0 {
        Ok(Seq::empty())
    } else if s.len() < 8 {
        Err(FramingError::BadLength)
    } else {
        match parse_messages(s, 8, u64_at(s, 0) as nat) {
            Ok((ms, end)) => if end == s.len() {
                Ok(ms)
            } else {
                Err(FramingError::TrailingBytes)
            },
            Err(e) => Err(e),
        }
    }
}

} // verus!
