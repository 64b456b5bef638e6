//! Writing messages into a packet payload.

use vstd::prelude::*;
use super::Message;
use super::ack::AckMessageExtensions;
use super::client_message::ClientMessageOperation;
use super::wire::{
    binding_fits, blob_fits, encode_binding, encode_blob, encode_extension, encode_message,
    encode_messages, encode_operation, encode_payload, extension_fits, le_u32, le_u64, message_fits,
    messages_fit, operation_fits,
    ByteMessage, ByteMessageView, BINDING_ABSENT, BINDING_PRESENT, EXT_DELETE, EXT_EMPTY, EXT_GET,
    EXT_PUT, OP_DELETE, OP_GET, OP_PUT, TAG_ACK, TAG_INCOMING_CLIENT,
};

verus! {

fn write_u32(out: &mut Vec<u8>, x: u32)
    ensures
        final(out)@ == old(out)@ + le_u32(x),
{
    out.push((x % 256) as u8);
    out.push((x / 256 % 256) as u8);
    out.push((x / 65536 % 256) as u8);
    out.push((x / 16777216) as u8);
    assert(out@ =~= old(out)@ + le_u32(x));
}

pub(crate) fn write_u64(out: &mut Vec<u8>, x: u64)
    ensures
        final(out)@ == old(out)@ + le_u64(x),
{
    write_u32(out, (x % 0x1_0000_0000) as u32);
    write_u32(out, (x / 0x1_0000_0000) as u32);
    assert(out@ =~= old(out)@ + le_u64(x));
}

fn blob_is_short(blob: &Vec<u8>) -> (short: bool)
    ensures
        short == blob_fits(blob@),
{
    blob.len() <= u32::MAX as usize
}

fn binding_is_short(binding: &Option<Vec<u8>>) -> (short: bool)
    ensures
        short == binding_fits(binding.deep_view()),
{
    match binding {
        None => true,
        Some(value) => {
            assert(value.deep_view() =~= value@);
            blob_is_short(value)
        },
    }
}

fn write_blob(out: &mut Vec<u8>, blob: &Vec<u8>)
    requires
        blob_fits(blob@),
    ensures
        final(out)@ == old(out)@ + encode_blob(blob@),
        blob.deep_view() == blob@,
{
    write_u32(out, blob.len() as u32);
    out.extend_from_slice(blob.as_slice());
    assert(out@ =~= old(out)@ + encode_blob(blob@));
    assert(blob.deep_view() =~= blob@);
}

fn write_binding(out: &mut Vec<u8>, binding: &Option<Vec<u8>>)
    requires
        binding_fits(binding.deep_view()),
    ensures
        final(out)@ == old(out)@ + encode_binding(binding.deep_view()),
{
    match binding {
        None => {
            out.push(BINDING_ABSENT);
            assert(out@ =~= old(out)@ + encode_binding(binding.deep_view()));
        },
        Some(value) => {
            assert(value.deep_view() =~= value@);
            out.push(BINDING_PRESENT);
            write_blob(out, value);
            assert(out@ =~= old(out)@ + encode_binding(binding.deep_view()));
        },
    }
}

fn write_operation(out: &mut Vec<u8>, op: &ClientMessageOperation<Vec<u8>, Vec<u8>>)
    requires
        operation_fits(op.deep_view()),
    ensures
        final(out)@ == old(out)@ + encode_operation(op.deep_view()),
{
    match op {
        ClientMessageOperation::Get { key } => {
            assert(key.deep_view() =~= key@);
            out.push(OP_GET);
            write_blob(out, key);
            assert(out@ =~= old(out)@ + encode_operation(op.deep_view()));
        },
        ClientMessageOperation::Put { key, value } => {
            assert(key.deep_view() =~= key@);
            assert(value.deep_view() =~= value@);
            out.push(OP_PUT);
            write_blob(out, key);
            write_blob(out, value);
            assert(out@ =~= old(out)@ + encode_operation(op.deep_view()));
        },
        ClientMessageOperation::Delete { key } => {
            assert(key.deep_view() =~= key@);
            out.push(OP_DELETE);
            write_blob(out, key);
            assert(out@ =~= old(out)@ + encode_operation(op.deep_view()));
        },
    }
}

fn write_extension(out: &mut Vec<u8>, ext: &AckMessageExtensions<Vec<u8>>)
    requires
        extension_fits(ext.deep_view()),
    ensures
        final(out)@ == old(out)@ + encode_extension(ext.deep_view()),
{
    match ext {
        AckMessageExtensions::Empty => {
            out.push(EXT_EMPTY);
        },
        AckMessageExtensions::Get(binding) => {
            out.push(EXT_GET);
            write_binding(out, binding);
        },
        AckMessageExtensions::Put(binding) => {
            out.push(EXT_PUT);
            write_binding(out, binding);
        },
        AckMessageExtensions::Delete(binding) => {
            out.push(EXT_DELETE);
            write_binding(out, binding);
        },
    }
    assert(out@ =~= old(out)@ + encode_extension(ext.deep_view()));
}

/// Whether the format can carry `m`: no key or value of it is longer than
/// `u32::MAX` bytes.
pub fn message_is_encodable(m: &ByteMessage) -> (fits: bool)
    ensures
        fits == message_fits(m.deep_view()),
{
    match m {
        Message::IncomingClientMessage(msg) => match &msg.operation {
            ClientMessageOperation::Get { key } => {
                assert(key.deep_view() =~= key@);
                blob_is_short(key)
            },
            ClientMessageOperation::Put { key, value } => {
                assert(key.deep_view() =~= key@);
                assert(value.deep_view() =~= value@);
                blob_is_short(key) && blob_is_short(value)
            },
            ClientMessageOperation::Delete { key } => {
                assert(key.deep_view() =~= key@);
                blob_is_short(key)
            },
        },
        Message::AckMessage(ack) => match &ack.extension {
            AckMessageExtensions::Empty => true,
            AckMessageExtensions::Get(binding) => binding_is_short(binding),
            AckMessageExtensions::Put(binding) => binding_is_short(binding),
            AckMessageExtensions::Delete(binding) => binding_is_short(binding),
        },
    }
}

/// Appends the bytes of `m` to `out`.
pub fn serialize_message(out: &mut Vec<u8>, m: &ByteMessage)
    requires
        message_fits(m.deep_view()),
    ensures
        final(out)@ == old(out)@ + encode_message(m.deep_view()),
{
    match m {
        Message::IncomingClientMessage(msg) => {
            out.push(TAG_INCOMING_CLIENT);
            write_u32(out, msg.client_id.0);
            write_u32(out, msg.message_id.0);
            write_operation(out, &msg.operation);
        },
        Message::AckMessage(ack) => {
            out.push(TAG_ACK);
            write_u32(out, ack.client_id.0);
            write_u32(out, ack.message_id.0);
            write_extension(out, &ack.extension);
        },
    }
    assert(out@ =~= old(out)@ + encode_message(m.deep_view()));
}

/// The payload that carries `ms`, where the format can carry each of them;
/// `None` where a key or a value is too long for it.
pub fn serialize_payload(ms: &Vec<ByteMessage>) -> (r: Option<Vec<u8>>)
    ensures
        match r {
            Some(bytes) => messages_fit(ms.deep_view()) && bytes@ == encode_payload(ms.deep_view()),
            None => !messages_fit(ms.deep_view()),
        },
{
    let mut out: Vec<u8> = Vec::new();
    write_u64(&mut out, ms.len() as u64);
    let ghost all = ms.deep_view();
    let mut i: usize = 0;
    assert(all.take(0) =~= Seq::<ByteMessageView>::empty());
    while i < ms.len()
        invariant
            i <= ms.len(),
            all == ms.deep_view(),
            messages_fit(all.take(i as int)),
            out@ == le_u64(ms.len() as u64) + encode_messages(all.take(i as int)),
        decreases ms.len() - i,
    {
        let m = &ms[i];
        assert(all[i as int] == m.deep_view());
        if !message_is_encodable(m) {
            return None;
        }
        serialize_message(&mut out, m);
        proof {
            let upto = all.take(i as int + 1);
            assert(upto.drop_last() =~= all.take(i as int));
            assert(upto.last() == m.deep_view());
            assert(out@ =~= le_u64(ms.len() as u64) + encode_messages(upto));
            assert forall|j: int| 0 <= j < upto.len() implies message_fits(#[trigger] upto[j]) by {
                if j < i {
                    assert(all.take(i as int)[j] == upto[j]);
                }
            }
        }
        i = i + 1;
    }
    assert(all.take(i as int) =~= all);
    Some(out)
}

} // verus!
