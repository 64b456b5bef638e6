//! Reading messages out of a packet payload.

use vstd::prelude::*;
use vstd::slice::slice_subrange;
use vstd::slice::slice_to_vec;
use super::Message;
use super::ack::{AckMessage, AckMessageExtensions};
use super::client_message::{ClientId, ClientLogMessage, ClientMessageOperation, MessageId};
use super::wire::{
    parse_binding, parse_blob, parse_extension, parse_message, parse_messages, parse_operation,
    parse_payload, u32_at, u64_at, ByteMessage, ByteMessageView, FramingError, BINDING_ABSENT,
    BINDING_PRESENT, EXT_DELETE, EXT_EMPTY, EXT_GET, EXT_PUT, OP_DELETE, OP_GET, OP_PUT, TAG_ACK,
    TAG_INCOMING_CLIENT,
};

verus! {

fn read_u32(bytes: &[u8], at: usize) -> (x: u32)
    requires
        at + 4 <= bytes.len(),
    ensures
        x == u32_at(bytes@, at as int),
{
    let b0 = bytes[at] as u32;
    let b1 = bytes[at + 1] as u32;
    let b2 = bytes[at + 2] as u32;
    let b3 = bytes[at + 3] as u32;
    b0 + b1 * 256 + b2 * 65536 + b3 * 16777216
}

fn read_u64(bytes: &[u8], at: usize) -> (x: u64)
    requires
        at + 8 <= bytes.len(),
    ensures
        x == u64_at(bytes@, at as int),
{
    let low = read_u32(bytes, at) as u64;
    let high = read_u32(bytes, at + 4) as u64;
    low + high * 0x1_0000_0000
}

fn read_blob(bytes: &[u8], at: usize) -> (r: Result<(Vec<u8>, usize), FramingError>)
    requires
        at <= bytes.len(),
    ensures
        match r {
            Ok((blob, next)) => parse_blob(bytes@, at as int) == Ok::<(Seq<u8>, int), FramingError>(
                (blob@, next as int),
            ) && at < next <= bytes.len() && blob.deep_view() == blob@,
            Err(e) => parse_blob(bytes@, at as int) == Err::<(Seq<u8>, int), FramingError>(e),
        },
{
    if bytes.len() - at < 4 {
        return Err(FramingError::BadLength);
    }
    let n = read_u32(bytes, at) as usize;
    if bytes.len() - at - 4 < n {
        return Err(FramingError::BadLength);
    }
    let blob = slice_to_vec(slice_subrange(bytes, at + 4, at + 4 + n));
    assert(blob.deep_view() =~= blob@);
    Ok((blob, at + 4 + n))
}

fn read_binding(bytes: &[u8], at: usize) -> (r: Result<(Option<Vec<u8>>, usize), FramingError>)
    requires
        at <= bytes.len(),
    ensures
        match r {
            Ok((binding, next)) => parse_binding(bytes@, at as int) == Ok::<
                (Option<Seq<u8>>, int),
                FramingError,
            >((binding.deep_view(), next as int)) && at < next <= bytes.len(),
            Err(e) => parse_binding(bytes@, at as int) == Err::<(Option<Seq<u8>>, int), FramingError>(
                e,
            ),
        },
{
    if bytes.len() - at < 1 {
        return Err(FramingError::BadLength);
    }
    let mark = bytes[at];
    if mark == BINDING_ABSENT {
        Ok((None, at + 1))
    } else if mark == BINDING_PRESENT {
        match read_blob(bytes, at + 1) {
            Ok((value, next)) => Ok((Some(value), next)),
            Err(e) => Err(e),
        }
    } else {
        Err(FramingError::BadTag)
    }
}

fn read_operation(bytes: &[u8], at: usize) -> (r: Result<
    (ClientMessageOperation<Vec<u8>, Vec<u8>>, usize),
    FramingError,
>)
    requires
        at <= bytes.len(),
    ensures
        match r {
            Ok((op, next)) => parse_operation(bytes@, at as int) == Ok::<
                (ClientMessageOperation<Seq<u8>, Seq<u8>>, int),
                FramingError,
            >((op.deep_view(), next as int)) && at < next <= bytes.len(),
            Err(e) => parse_operation(bytes@, at as int) == Err::<
                (ClientMessageOperation<Seq<u8>, Seq<u8>>, int),
                FramingError,
            >(e),
        },
{
    if bytes.len() - at < 1 {
        return Err(FramingError::BadLength);
    }
    let tag = bytes[at];
    if tag == OP_GET {
        match read_blob(bytes, at + 1) {
            Ok((key, next)) => Ok((ClientMessageOperation::Get { key }, next)),
            Err(e) => Err(e),
        }
    } else if tag == OP_PUT {
        match read_blob(bytes, at + 1) {
            Ok((key, mid)) => match read_blob(bytes, mid) {
                Ok((value, next)) => Ok((ClientMessageOperation::Put { key, value }, next)),
                Err(e) => Err(e),
            },
            Err(e) => Err(e),
        }
    } else if tag == OP_DELETE {
        match read_blob(bytes, at + 1) {
            Ok((key, next)) => Ok((ClientMessageOperation::Delete { key }, next)),
            Err(e) => Err(e),
        }
    } else {
        Err(FramingError::BadTag)
    }
}

fn read_extension(bytes: &[u8], at: usize) -> (r: Result<
    (AckMessageExtensions<Vec<u8>>, usize),
    FramingError,
>)
    requires
        at <= bytes.len(),
    ensures
        match r {
            Ok((ext, next)) => parse_extension(bytes@, at as int) == Ok::<
                (AckMessageExtensions<Seq<u8>>, int),
                FramingError,
            >((ext.deep_view(), next as int)) && at < next <= bytes.len(),
            Err(e) => parse_extension(bytes@, at as int) == Err::<
                (AckMessageExtensions<Seq<u8>>, int),
                FramingError,
            >(e),
        },
{
    if bytes.len() - at < 1 {
        return Err(FramingError::BadLength);
    }
    let tag = bytes[at];
    if tag == EXT_EMPTY {
        Ok((AckMessageExtensions::Empty, at + 1))
    } else if tag == EXT_GET {
        match read_binding(bytes, at + 1) {
            Ok((binding, next)) => Ok((AckMessageExtensions::Get(binding), next)),
            Err(e) => Err(e),
        }
    } else if tag == EXT_PUT {
        match read_binding(bytes, at + 1) {
            Ok((binding, next)) => Ok((AckMessageExtensions::Put(binding), next)),
            Err(e) => Err(e),
        }
    } else if tag == EXT_DELETE {
        match read_binding(bytes, at + 1) {
            Ok((binding, next)) => Ok((AckMessageExtensions::Delete(binding), next)),
            Err(e) => Err(e),
        }
    } else {
        Err(FramingError::BadTag)
    }
}

/// Reads the message that starts at `at`: the message and the position of the
/// byte behind it, or the fault that [`parse_message`] names.
pub fn decode_message(bytes: &[u8], at: usize) -> (r: Result<(ByteMessage, usize), FramingError>)
    requires
        at <= bytes.len(),
    ensures
        match r {
            Ok((m, next)) => parse_message(bytes@, at as int) == Ok::<
                (ByteMessageView, int),
                FramingError,
            >((m.deep_view(), next as int)) && at < next <= bytes.len(),
            Err(e) => parse_message(bytes@, at as int) == Err::<(ByteMessageView, int), FramingError>(
                e,
            ),
        },
{
    if bytes.len() - at < 1 {
        return Err(FramingError::BadLength);
    }
    let tag = bytes[at];
    if tag != TAG_INCOMING_CLIENT && tag != TAG_ACK {
        return Err(FramingError::BadTag);
    }
    if bytes.len() - at < 9 {
        return Err(FramingError::BadLength);
    }
    let client_id = ClientId(read_u32(bytes, at + 1));
    let message_id = MessageId(read_u32(bytes, at + 5));
    if tag == TAG_INCOMING_CLIENT {
        match read_operation(bytes, at + 9) {
            Ok((operation, next)) => Ok(
                (
                    Message::IncomingClientMessage(
                        ClientLogMessage { client_id, message_id, operation },
                    ),
                    next,
                ),
            ),
            Err(e) => Err(e),
        }
    } else {
        match read_extension(bytes, at + 9) {
            Ok((extension, next)) => Ok(
                (Message::AckMessage(AckMessage { client_id, message_id, extension }), next),
            ),
            Err(e) => Err(e),
        }
    }
}

/// Once reading has failed, announcing more messages does not mend it.
proof fn lemma_fault_stays(s: Seq<u8>, at: int, failed: nat, count: nat)
    requires
        failed <= count,
        parse_messages(s, at, failed) is Err,
    ensures
        parse_messages(s, at, count) == parse_messages(s, at, failed),
    decreases count,
{
    if failed < count {
        lemma_fault_stays(s, at, failed, (count - 1) as nat);
    }
}

/// Reads a whole payload: the messages that [`parse_payload`] finds in it, or
/// the fault that it names.
pub fn decode_payload(bytes: &[u8]) -> (r: Result<Vec<ByteMessage>, FramingError>)
    ensures
        match r {
            Ok(ms) => parse_payload(bytes@) == Ok::<Seq<ByteMessageView>, FramingError>(
                ms.deep_view(),
            ),
            Err(e) => parse_payload(bytes@) == Err::<Seq<ByteMessageView>, FramingError>(e),
        },
{
    if bytes.len() == 0 {
        let empty: Vec<ByteMessage> = Vec::new();
        assert(empty.deep_view() =~= Seq::<ByteMessageView>::empty());
        return Ok(empty);
    }
    if bytes.len() < 8 {
        return Err(FramingError::BadLength);
    }
    let count = read_u64(bytes, 0);
    let mut out: Vec<ByteMessage> = Vec::new();
    let mut at: usize = 8;
    let mut done: u64 = 0;
    assert(out.deep_view() =~= Seq::<ByteMessageView>::empty());
    while done < count
        invariant
            done <= count,
            8 <= at <= bytes.len(),
            count == u64_at(bytes@, 0),
            parse_messages(bytes@, 8, done as nat) == Ok::<(Seq<ByteMessageView>, int), FramingError>(
                (out.deep_view(), at as int),
            ),
        decreases count - done,
    {
        match decode_message(bytes, at) {
            Ok((m, next)) => {
                let ghost before = out.deep_view();
                let ghost added = m.deep_view();
                out.push(m);
                at = next;
                done = done + 1;
                assert(out.deep_view() =~= before.push(added));
            },
            Err(e) => {
                proof {
                    assert(parse_messages(bytes@, 8, (done + 1) as nat) is Err);
                    lemma_fault_stays(bytes@, 8, (done + 1) as nat, count as nat);
                }
                return Err(e);
            },
        }
    }
    if at == bytes.len() {
        Ok(out)
    } else {
        Err(FramingError::TrailingBytes)
    }
}

} // verus!
