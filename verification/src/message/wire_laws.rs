//! Laws of the payload format: reading and writing are inverse to each other.

use vstd::prelude::*;
use super::Message;
use super::ack::AckMessageExtensions;
use super::client_message::ClientMessageOperation;
use super::wire::{
    binding_fits, blob_fits, encode_binding, encode_blob, encode_extension, encode_message,
    encode_messages, encode_operation, encode_payload, extension_fits, le_u32, le_u64, message_fits,
    messages_fit, operation_fits, parse_binding, parse_blob, parse_extension, parse_message,
    parse_messages, parse_operation, parse_payload, u32_at, u64_at, ByteMessageView, FramingError,
};

verus! {

proof fn lemma_base_256(b0: int, b1: int, b2: int, b3: int)
    requires
        0 <= b0 < 256,
        0 <= b1 < 256,
        0 <= b2 < 256,
        0 <= b3 < 256,
    ensures
        ({
            let x = b0 + 256 * b1 + 65536 * b2 + 16777216 * b3;
            &&& 0 <= x < 0x1_0000_0000
            &&& x % 256 == b0
            &&& x / 256 % 256 == b1
            &&& x / 65536 % 256 == b2
            &&& x / 16777216 == b3
        }),
{
    let x = b0 + 256 * b1 + 65536 * b2 + 16777216 * b3;
    let q1 = b1 + 256 * b2 + 65536 * b3;
    let q2 = b2 + 256 * b3;
    assert(x == 256 * q1 + b0);
    assert(x / 256 == q1 && x % 256 == b0);
    assert(x == 65536 * q2 + (b0 + 256 * b1));
    assert(x / 65536 == q2);
    assert(q1 == 256 * q2 + b1);
    assert(q1 % 256 == b1);
    assert(q2 == 256 * b3 + b2);
    assert(q2 % 256 == b2);
    assert(x == 16777216 * b3 + (b0 + 256 * b1 + 65536 * b2));
    assert(x / 16777216 == b3);
}

proof fn lemma_u32_read_back(s: Seq<u8>, at: int)
    requires
        0 <= at,
        at + 4 <= s.len(),
    ensures
        le_u32(u32_at(s, at)) == s.subrange(at, at + 4),
{
    lemma_base_256(s[at] as int, s[at + 1] as int, s[at + 2] as int, s[at + 3] as int);
    assert(le_u32(u32_at(s, at)) =~= s.subrange(at, at + 4));
}

proof fn lemma_u64_read_back(s: Seq<u8>, at: int)
    requires
        0 <= at,
        at + 8 <= s.len(),
    ensures
        le_u64(u64_at(s, at)) == s.subrange(at, at + 8),
{
    lemma_u32_read_back(s, at);
    lemma_u32_read_back(s, at + 4);
    let x = u64_at(s, at);
    assert((x % 0x1_0000_0000) as u32 == u32_at(s, at));
    assert((x / 0x1_0000_0000) as u32 == u32_at(s, at + 4));
    assert(le_u64(x) =~= s.subrange(at, at + 8));
}

proof fn lemma_u32_written(s: Seq<u8>, at: int, x: u32)
    requires
        0 <= at,
        at + 4 <= s.len(),
        s.subrange(at, at + 4) == le_u32(x),
    ensures
        u32_at(s, at) == x,
{
    let w = s.subrange(at, at + 4);
    assert(w[0] == s[at] && w[1] == s[at + 1] && w[2] == s[at + 2] && w[3] == s[at + 3]);
}

proof fn lemma_u64_written(s: Seq<u8>, at: int, x: u64)
    requires
        0 <= at,
        at + 8 <= s.len(),
        s.subrange(at, at + 8) == le_u64(x),
    ensures
        u64_at(s, at) == x,
{
    let low = (x % 0x1_0000_0000) as u32;
    let high = (x / 0x1_0000_0000) as u32;
    assert(s.subrange(at, at + 4) =~= s.subrange(at, at + 8).subrange(0, 4));
    assert(s.subrange(at + 4, at + 8) =~= s.subrange(at, at + 8).subrange(4, 8));
    assert(le_u64(x).subrange(0, 4) =~= le_u32(low));
    assert(le_u64(x).subrange(4, 8) =~= le_u32(high));
    lemma_u32_written(s, at, low);
    lemma_u32_written(s, at + 4, high);
}

proof fn lemma_blob_read_back(s: Seq<u8>, at: int)
    requires
        0 <= at <= s.len(),
        parse_blob(s, at) is Ok,
    ensures
        at < parse_blob(s, at)->Ok_0.1 <= s.len(),
        blob_fits(parse_blob(s, at)->Ok_0.0),
        encode_blob(parse_blob(s, at)->Ok_0.0) == s.subrange(at, parse_blob(s, at)->Ok_0.1),
{
    let (b, next) = parse_blob(s, at)->Ok_0;
    lemma_u32_read_back(s, at);
    assert(encode_blob(b) =~= s.subrange(at, next));
}

proof fn lemma_binding_read_back(s: Seq<u8>, at: int)
    requires
        0 <= at <= s.len(),
        parse_binding(s, at) is Ok,
    ensures
        at < parse_binding(s, at)->Ok_0.1 <= s.len(),
        binding_fits(parse_binding(s, at)->Ok_0.0),
        encode_binding(parse_binding(s, at)->Ok_0.0) == s.subrange(
            at,
            parse_binding(s, at)->Ok_0.1,
        ),
{
    let (binding, next) = parse_binding(s, at)->Ok_0;
    if binding is Some {
        lemma_blob_read_back(s, at + 1);
    }
    assert(encode_binding(binding) =~= s.subrange(at, next));
}

proof fn lemma_operation_read_back(s: Seq<u8>, at: int)
    requires
        0 <= at <= s.len(),
        parse_operation(s, at) is Ok,
    ensures
        at < parse_operation(s, at)->Ok_0.1 <= s.len(),
        operation_fits(parse_operation(s, at)->Ok_0.0),
        encode_operation(parse_operation(s, at)->Ok_0.0) == s.subrange(
            at,
            parse_operation(s, at)->Ok_0.1,
        ),
{
    let (op, next) = parse_operation(s, at)->Ok_0;
    lemma_blob_read_back(s, at + 1);
    match op {
        ClientMessageOperation::Put { key, value } => {
            let mid = parse_blob(s, at + 1)->Ok_0.1;
            lemma_blob_read_back(s, mid);
            assert(encode_operation(op) =~= s.subrange(at, at + 1) + s.subrange(at + 1, mid)
                + s.subrange(mid, next));
        },
        _ => {},
    }
    assert(encode_operation(op) =~= s.subrange(at, next));
}

proof fn lemma_extension_read_back(s: Seq<u8>, at: int)
    requires
        0 <= at <= s.len(),
        parse_extension(s, at) is Ok,
    ensures
        at < parse_extension(s, at)->Ok_0.1 <= s.len(),
        extension_fits(parse_extension(s, at)->Ok_0.0),
        encode_extension(parse_extension(s, at)->Ok_0.0) == s.subrange(
            at,
            parse_extension(s, at)->Ok_0.1,
        ),
{
    let (ext, next) = parse_extension(s, at)->Ok_0;
    if !(ext is Empty) {
        lemma_binding_read_back(s, at + 1);
    }
    assert(encode_extension(ext) =~= s.subrange(at, next));
}

/// A message that has been read is one that the format can carry, and its
/// bytes are the bytes it was read from.
pub proof fn lemma_message_read_back(s: Seq<u8>, at: int)
    requires
        0 <= at <= s.len(),
        parse_message(s, at) is Ok,
    ensures
        at < parse_message(s, at)->Ok_0.1 <= s.len(),
        message_fits(parse_message(s, at)->Ok_0.0),
        encode_message(parse_message(s, at)->Ok_0.0) == s.subrange(
            at,
            parse_message(s, at)->Ok_0.1,
        ),
{
    let (m, next) = parse_message(s, at)->Ok_0;
    lemma_u32_read_back(s, at + 1);
    lemma_u32_read_back(s, at + 5);
    match m {
        Message::IncomingClientMessage(msg) => {
            lemma_operation_read_back(s, at + 9);
            assert(encode_message(m) =~= s.subrange(at, at + 1) + s.subrange(at + 1, at + 5)
                + s.subrange(at + 5, at + 9) + s.subrange(at + 9, next));
        },
        Message::AckMessage(ack) => {
            lemma_extension_read_back(s, at + 9);
            assert(encode_message(m) =~= s.subrange(at, at + 1) + s.subrange(at + 1, at + 5)
                + s.subrange(at + 5, at + 9) + s.subrange(at + 9, next));
        },
    }
    assert(encode_message(m) =~= s.subrange(at, next));
}

/// A run of messages that has been read holds as many messages as were asked
/// for, each one that the format can carry, and its bytes are the bytes it was
/// read from.
pub proof fn lemma_messages_read_back(s: Seq<u8>, at: int, count: nat)
    requires
        0 <= at <= s.len(),
        parse_messages(s, at, count) is Ok,
    ensures
        at + count <= parse_messages(s, at, count)->Ok_0.1 <= s.len(),
        parse_messages(s, at, count)->Ok_0.0.len() == count,
        messages_fit(parse_messages(s, at, count)->Ok_0.0),
        encode_messages(parse_messages(s, at, count)->Ok_0.0) == s.subrange(
            at,
            parse_messages(s, at, count)->Ok_0.1,
        ),
    decreases count,
{
    let (ms, end) = parse_messages(s, at, count)->Ok_0;
    if count == 0 {
        assert(encode_messages(ms) =~= s.subrange(at, end));
    } else {
        lemma_messages_read_back(s, at, (count - 1) as nat);
        let (before, pos) = parse_messages(s, at, (count - 1) as nat)->Ok_0;
        lemma_message_read_back(s, pos);
        let m = parse_message(s, pos)->Ok_0.0;
        assert(ms == before.push(m));
        assert(ms.drop_last() =~= before);
        assert(ms.last() == m);
        assert(encode_messages(ms) =~= s.subrange(at, pos) + s.subrange(pos, end));
        assert(encode_messages(ms) =~= s.subrange(at, end));
        assert forall|i: int| 0 <= i < ms.len() implies message_fits(#[trigger] ms[i]) by {
            if i < before.len() {
                assert(ms[i] == before[i]);
            }
        }
    }
}

/// Writing what was read gives the payload back: for every payload that is
/// not empty and holds a sequence of messages, the payload that carries those
/// messages is the payload itself.
pub proof fn lemma_payload_read_back(bytes: Seq<u8>)
    requires
        bytes.len() > 0,
        parse_payload(bytes) is Ok,
    ensures
        messages_fit(parse_payload(bytes)->Ok_0),
        encode_payload(parse_payload(bytes)->Ok_0) == bytes,
{
    let count = u64_at(bytes, 0) as nat;
    lemma_messages_read_back(bytes, 8, count);
    lemma_u64_read_back(bytes, 0);
    let ms = parse_payload(bytes)->Ok_0;
    assert(encode_payload(ms) =~= bytes.subrange(0, 8) + bytes.subrange(8, bytes.len() as int));
    assert(encode_payload(ms) =~= bytes);
}

proof fn lemma_blob_written(s: Seq<u8>, at: int, b: Seq<u8>)
    requires
        0 <= at,
        blob_fits(b),
        at + encode_blob(b).len() <= s.len(),
        s.subrange(at, at + encode_blob(b).len()) == encode_blob(b),
    ensures
        parse_blob(s, at) == Ok::<(Seq<u8>, int), FramingError>((b, at + encode_blob(b).len())),
{
    let n = encode_blob(b).len() as int;
    assert(s.subrange(at, at + 4) =~= encode_blob(b).subrange(0, 4));
    assert(encode_blob(b).subrange(0, 4) =~= le_u32(b.len() as u32));
    lemma_u32_written(s, at, b.len() as u32);
    assert(s.subrange(at + 4, at + 4 + b.len()) =~= encode_blob(b).subrange(4, n));
    assert(encode_blob(b).subrange(4, n) =~= b);
}

proof fn lemma_binding_written(s: Seq<u8>, at: int, binding: Option<Seq<u8>>)
    requires
        0 <= at,
        binding_fits(binding),
        at + encode_binding(binding).len() <= s.len(),
        s.subrange(at, at + encode_binding(binding).len()) == encode_binding(binding),
    ensures
        parse_binding(s, at) == Ok::<(Option<Seq<u8>>, int), FramingError>(
            (binding, at + encode_binding(binding).len()),
        ),
{
    let e = encode_binding(binding);
    assert(s[at] == s.subrange(at, at + e.len())[0]);
    match binding {
        None => {},
        Some(value) => {
            assert(s.subrange(at + 1, at + e.len()) =~= e.subrange(1, e.len() as int));
            assert(e.subrange(1, e.len() as int) =~= encode_blob(value));
            lemma_blob_written(s, at + 1, value);
        },
    }
}

proof fn lemma_operation_written(s: Seq<u8>, at: int, op: ClientMessageOperation<Seq<u8>, Seq<u8>>)
    requires
        0 <= at,
        operation_fits(op),
        at + encode_operation(op).len() <= s.len(),
        s.subrange(at, at + encode_operation(op).len()) == encode_operation(op),
    ensures
        parse_operation(s, at) == Ok::<(ClientMessageOperation<Seq<u8>, Seq<u8>>, int), FramingError>(
            (op, at + encode_operation(op).len()),
        ),
{
    let e = encode_operation(op);
    assert(s[at] == s.subrange(at, at + e.len())[0]);
    match op {
        ClientMessageOperation::Get { key } => {
            assert(s.subrange(at + 1, at + e.len()) =~= e.subrange(1, e.len() as int));
            assert(e.subrange(1, e.len() as int) =~= encode_blob(key));
            lemma_blob_written(s, at + 1, key);
        },
        ClientMessageOperation::Put { key, value } => {
            let mid = 1 + encode_blob(key).len() as int;
            assert(s.subrange(at + 1, at + mid) =~= e.subrange(1, mid));
            assert(e.subrange(1, mid) =~= encode_blob(key));
            lemma_blob_written(s, at + 1, key);
            assert(s.subrange(at + mid, at + e.len()) =~= e.subrange(mid, e.len() as int));
            assert(e.subrange(mid, e.len() as int) =~= encode_blob(value));
            lemma_blob_written(s, at + mid, value);
        },
        ClientMessageOperation::Delete { key } => {
            assert(s.subrange(at + 1, at + e.len()) =~= e.subrange(1, e.len() as int));
            assert(e.subrange(1, e.len() as int) =~= encode_blob(key));
            lemma_blob_written(s, at + 1, key);
        },
    }
}

proof fn lemma_extension_written(s: Seq<u8>, at: int, ext: AckMessageExtensions<Seq<u8>>)
    requires
        0 <= at,
        extension_fits(ext),
        at + encode_extension(ext).len() <= s.len(),
        s.subrange(at, at + encode_extension(ext).len()) == encode_extension(ext),
    ensures
        parse_extension(s, at) == Ok::<(AckMessageExtensions<Seq<u8>>, int), FramingError>(
            (ext, at + encode_extension(ext).len()),
        ),
{
    let e = encode_extension(ext);
    assert(s[at] == s.subrange(at, at + e.len())[0]);
    match ext {
        AckMessageExtensions::Empty => {},
        AckMessageExtensions::Get(binding) => {
            assert(s.subrange(at + 1, at + e.len()) =~= e.subrange(1, e.len() as int));
            assert(e.subrange(1, e.len() as int) =~= encode_binding(binding));
            lemma_binding_written(s, at + 1, binding);
        },
        AckMessageExtensions::Put(binding) => {
            assert(s.subrange(at + 1, at + e.len()) =~= e.subrange(1, e.len() as int));
            assert(e.subrange(1, e.len() as int) =~= encode_binding(binding));
            lemma_binding_written(s, at + 1, binding);
        },
        AckMessageExtensions::Delete(binding) => {
            assert(s.subrange(at + 1, at + e.len()) =~= e.subrange(1, e.len() as int));
            assert(e.subrange(1, e.len() as int) =~= encode_binding(binding));
            lemma_binding_written(s, at + 1, binding);
        },
    }
}

/// Where the bytes of a message stand at `at`, reading at `at` gives that
/// message and stops behind its last byte.
pub proof fn lemma_message_written(s: Seq<u8>, at: int, m: ByteMessageView)
    requires
        0 <= at,
        message_fits(m),
        at + encode_message(m).len() <= s.len(),
        s.subrange(at, at + encode_message(m).len()) == encode_message(m),
    ensures
        parse_message(s, at) == Ok::<(ByteMessageView, int), FramingError>(
            (m, at + encode_message(m).len()),
        ),
{
    let e = encode_message(m);
    let n = e.len() as int;
    assert(s[at] == s.subrange(at, at + n)[0]);
    assert(s.subrange(at + 1, at + 5) =~= e.subrange(1, 5));
    assert(s.subrange(at + 5, at + 9) =~= e.subrange(5, 9));
    assert(s.subrange(at + 9, at + n) =~= e.subrange(9, n));
    match m {
        Message::IncomingClientMessage(msg) => {
            assert(e.subrange(1, 5) =~= le_u32(msg.client_id.0));
            assert(e.subrange(5, 9) =~= le_u32(msg.message_id.0));
            assert(e.subrange(9, n) =~= encode_operation(msg.operation));
            lemma_u32_written(s, at + 1, msg.client_id.0);
            lemma_u32_written(s, at + 5, msg.message_id.0);
            lemma_operation_written(s, at + 9, msg.operation);
        },
        Message::AckMessage(ack) => {
            assert(e.subrange(1, 5) =~= le_u32(ack.client_id.0));
            assert(e.subrange(5, 9) =~= le_u32(ack.message_id.0));
            assert(e.subrange(9, n) =~= encode_extension(ack.extension));
            lemma_u32_written(s, at + 1, ack.client_id.0);
            lemma_u32_written(s, at + 5, ack.message_id.0);
            lemma_extension_written(s, at + 9, ack.extension);
        },
    }
}

/// Where the bytes of a run of messages stand at `at`, reading as many
/// messages at `at` gives that run and stops behind its last byte.
pub proof fn lemma_messages_written(s: Seq<u8>, at: int, ms: Seq<ByteMessageView>)
    requires
        0 <= at,
        messages_fit(ms),
        at + encode_messages(ms).len() <= s.len(),
        s.subrange(at, at + encode_messages(ms).len()) == encode_messages(ms),
    ensures
        parse_messages(s, at, ms.len()) == Ok::<(Seq<ByteMessageView>, int), FramingError>(
            (ms, at + encode_messages(ms).len()),
        ),
    decreases ms.len(),
{
    if ms.len() == 0 {
        assert(ms =~= Seq::<ByteMessageView>::empty());
    } else {
        let before = ms.drop_last();
        let m = ms.last();
        let e = encode_messages(ms);
        let split = encode_messages(before).len() as int;
        assert(e == encode_messages(before) + encode_message(m));
        assert(s.subrange(at, at + split) =~= e.subrange(0, split));
        assert(e.subrange(0, split) =~= encode_messages(before));
        assert(messages_fit(before));
        lemma_messages_written(s, at, before);
        assert(s.subrange(at + split, at + e.len()) =~= e.subrange(split, e.len() as int));
        assert(e.subrange(split, e.len() as int) =~= encode_message(m));
        lemma_message_written(s, at + split, m);
        assert(before.push(m) =~= ms);
    }
}

/// Reading what was written gives the messages back: for every sequence of
/// messages that the format can carry, the payload that carries it holds
/// exactly that sequence.
pub proof fn lemma_payload_written(ms: Seq<ByteMessageView>)
    requires
        messages_fit(ms),
        ms.len() <= u64::MAX,
    ensures
        parse_payload(encode_payload(ms)) == Ok::<Seq<ByteMessageView>, FramingError>(ms),
{
    let bytes = encode_payload(ms);
    assert(bytes.subrange(0, 8) =~= le_u64(ms.len() as u64));
    lemma_u64_written(bytes, 0, ms.len() as u64);
    assert(bytes.subrange(8, 8 + encode_messages(ms).len() as int) =~= encode_messages(ms));
    lemma_messages_written(bytes, 8, ms);
}

} // verus!
