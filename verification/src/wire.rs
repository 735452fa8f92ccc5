//! The byte layouts of the ULog container: the file header, the envelope of a
//! frame and the payload of each kind of frame.

use crate::export::ExportError;
use crate::le::{le16, le64, u16_le, u64_le};
use crate::registry::{MessageMeta, Registry};
use vstd::prelude::*;
use vstd::string::StringSliceAdditionalSpecFns;

verus! {

/// The type byte of the flag-bits frame, `'B'`.
pub const MSG_FLAG_BITS: u8 = 0x42;

/// The type byte of a format frame, `'F'`.
pub const MSG_FORMAT: u8 = 0x46;

/// The type byte of a subscription frame, `'A'`.
pub const MSG_ADD_SUBSCRIPTION: u8 = 0x41;

/// The type byte of a data frame, `'D'`.
pub const MSG_DATA: u8 = 0x44;

/// The type byte of an untagged log frame, `'L'`.
pub const MSG_LOG: u8 = 0x4c;

/// The type byte of a tagged log frame, `'C'`.
pub const MSG_TAGGED_LOG: u8 = 0x43;

/// The type byte of a parameter frame, `'P'`.
pub const MSG_PARAMETER: u8 = 0x50;

/// The longest payload that the size field of a frame can say.
pub const MAX_PAYLOAD_LEN: usize = 0xffff;

/// The seven magic bytes of a ULog file and the byte of the format version.
pub open spec fn magic() -> Seq<u8> {
    seq![0x55u8, 0x4c, 0x6f, 0x67, 0x01, 0x12, 0x35, 0x01]
}

/// The sixteen bytes that begin a ULog file: magic, version and the time of
/// the start in microseconds.
pub open spec fn header_layout(timestamp_micros: u64) -> Seq<u8> {
    magic() + le64(timestamp_micros)
}

/// The three bytes that begin a frame: the length of the payload and the
/// type byte.
pub open spec fn envelope_layout(payload_len: u16, msg_type: u8) -> Seq<u8> {
    le16(payload_len) + seq![msg_type]
}

/// A frame: its envelope and then its payload.
pub open spec fn frame_layout(msg_type: u8, payload: Seq<u8>) -> Seq<u8> {
    envelope_layout(payload.len() as u16, msg_type) + payload
}

/// The payload of the flag-bits frame: forty zero bytes.
pub open spec fn flag_bits_layout() -> Seq<u8> {
    Seq::new(40, |i: int| 0u8)
}

/// The payload of a format frame: the name, a colon and the format.
pub open spec fn format_layout(name: Seq<u8>, format: Seq<u8>) -> Seq<u8> {
    name + seq![0x3au8] + format
}

/// The payload of a subscription frame: instance, message id and name.
pub open spec fn add_subscription_layout(multi_id: u8, msg_id: u16, name: Seq<u8>) -> Seq<u8> {
    seq![multi_id] + le16(msg_id) + name
}

/// The payload of a data frame: message id and the encoded sample.
pub open spec fn data_layout(msg_id: u16, data: Seq<u8>) -> Seq<u8> {
    le16(msg_id) + data
}

/// The payload of an untagged log frame: level, time and text.
pub open spec fn log_layout(level: u8, timestamp: u64, text: Seq<u8>) -> Seq<u8> {
    seq![level] + le64(timestamp) + text
}

/// The payload of a tagged log frame: level, tag, time and text.
pub open spec fn tagged_log_layout(level: u8, tag: u16, timestamp: u64, text: Seq<u8>) -> Seq<u8> {
    seq![level] + le16(tag) + le64(timestamp) + text
}

/// The payload of a parameter frame: the length of the key, the key and the
/// bytes of the value.
pub open spec fn parameter_layout(key: Seq<u8>, value: Seq<u8>) -> Seq<u8> {
    seq![key.len() as u8] + key + value
}

/// The slot of an instance of a topic: the pair flattened to one number.
pub open spec fn slot_of(topic_index: nat, instance: nat, max_multi_ids: nat) -> nat {
    topic_index * max_multi_ids + instance
}

/// The entry of the registry at `topic_index`, or `InvalidTopicIndex` where
/// there is none.
pub fn registry_entry<E>(registry: &Registry, topic_index: usize) -> (entry: Result<
    &'static MessageMeta,
    ExportError<E>,
>)
    ensures
        entry is Ok <==> topic_index < registry@.len(),
        entry is Ok ==> *entry->Ok_0 == registry@[topic_index as int],
        entry is Err ==> entry->Err_0 is InvalidTopicIndex,
{
    let entries = registry.entries();
    if topic_index < entries.len() {
        Ok(&entries[topic_index])
    } else {
        Err(ExportError::InvalidTopicIndex)
    }
}

/// The slot of `instance` of the topic, or nothing where the number does not
/// fit a `usize`.
pub fn stream_slot<const MAX_MULTI_IDS: usize>(topic_index: usize, instance: usize) -> (slot:
    Option<usize>)
    ensures
        slot is Some <==> slot_of(topic_index as nat, instance as nat, MAX_MULTI_IDS as nat)
            <= usize::MAX,
        slot is Some ==> slot->0 == slot_of(
            topic_index as nat,
            instance as nat,
            MAX_MULTI_IDS as nat,
        ),
{
    match topic_index.checked_mul(MAX_MULTI_IDS) {
        Some(base) => base.checked_add(instance),
        None => {
            assert(topic_index * MAX_MULTI_IDS + instance > usize::MAX);
            None
        },
    }
}

/// The message id of a slot, or `TooManyStreams` where the slot does not fit
/// sixteen bits.
pub fn slot_msg_id<E>(slot: usize) -> (msg_id: Result<u16, ExportError<E>>)
    ensures
        msg_id is Ok <==> slot <= 0xffff,
        msg_id is Ok ==> msg_id->Ok_0 == slot,
        msg_id is Err ==> msg_id->Err_0 is TooManyStreams,
{
    if slot > 0xffff {
        Err(ExportError::TooManyStreams)
    } else {
        Ok(slot as u16)
    }
}

/// `base + extra`, or `MessageTooLarge` where the sum is above `capacity`.
pub fn checked_total_len<E>(base: usize, extra: usize, capacity: usize) -> (total: Result<
    usize,
    ExportError<E>,
>)
    ensures
        total is Ok <==> base + extra <= capacity,
        total is Ok ==> total->Ok_0 == base + extra,
        total is Err ==> total->Err_0 is MessageTooLarge,
{
    match base.checked_add(extra) {
        Some(total_len) => {
            if total_len > capacity {
                Err(ExportError::MessageTooLarge)
            } else {
                Ok(total_len)
            }
        },
        None => Err(ExportError::MessageTooLarge),
    }
}

/// Writes `src` into `buf` from position `at` on.
pub fn put<const N: usize>(buf: &mut [u8; N], at: usize, src: &[u8])
    requires
        at + src@.len() <= N,
    ensures
        final(buf)@ == old(buf)@.take(at as int) + src@ + old(buf)@.skip(at + src@.len()),
{
    let ghost before = buf@;
    let mut i: usize = 0;
    while i < src.len()
        invariant
            i <= src@.len(),
            at + src@.len() <= N,
            before.len() == N,
            buf@.len() == N,
            forall|k: int| 0 <= k < at ==> buf@[k] == before[k],
            forall|k: int| at <= k < at + i ==> buf@[k] == src@[k - at],
            forall|k: int| at + i <= k < N ==> buf@[k] == before[k],
        decreases src@.len() - i,
    {
        buf[at + i] = src[i];
        i += 1;
    }
    assert(buf@ =~= before.take(at as int) + src@ + before.skip(at + src@.len()));
}

/// The sixteen bytes that begin a ULog file.
pub fn write_header(timestamp_micros: u64) -> (header: [u8; 16])
    ensures
        header@ == header_layout(timestamp_micros),
{
    let mut header: [u8; 16] = [0u8; 16];
    let magic: [u8; 8] = [0x55, 0x4c, 0x6f, 0x67, 0x01, 0x12, 0x35, 0x01];
    let time = u64_le(timestamp_micros);
    put(&mut header, 0, magic.as_slice());
    put(&mut header, 8, time.as_slice());
    assert(header@ =~= header_layout(timestamp_micros));
    header
}

/// The three bytes that begin a frame with a payload of `payload_len` bytes,
/// or `MessageTooLarge` where the length does not fit sixteen bits.
pub fn message_header<E>(payload_len: usize, msg_type: u8) -> (header: Result<
    [u8; 3],
    ExportError<E>,
>)
    ensures
        header is Ok <==> payload_len <= MAX_PAYLOAD_LEN,
        header is Ok ==> header->Ok_0@ == envelope_layout(payload_len as u16, msg_type),
        header is Err ==> header->Err_0 is MessageTooLarge,
{
    if payload_len > MAX_PAYLOAD_LEN {
        return Err(ExportError::MessageTooLarge);
    }
    let size = u16_le(payload_len as u16);
    let header: [u8; 3] = [size[0], size[1], msg_type];
    assert(header@ =~= envelope_layout(payload_len as u16, msg_type));
    Ok(header)
}

/// Whether `after` is `layout` followed by what `before` held behind it, and
/// `len` the length of `layout`.
pub open spec fn holds_payload(
    before: Seq<u8>,
    after: Seq<u8>,
    len: usize,
    layout: Seq<u8>,
) -> bool {
    &&& len == layout.len()
    &&& after == layout + before.skip(layout.len() as int)
}

/// Writes the payload of a format frame to the front of `payload` and
/// returns its length, or `MessageTooLarge` where it does not fit.
pub fn format_payload<E>(payload: &mut [u8; 512], name: &str, format: &str) -> (total: Result<
    usize,
    ExportError<E>,
>)
    ensures
        total is Ok <==> name.spec_bytes().len() + 1 + format.spec_bytes().len() <= 512,
        total is Ok ==> holds_payload(
            old(payload)@,
            final(payload)@,
            total->Ok_0,
            format_layout(name.spec_bytes(), format.spec_bytes()),
        ),
        total is Err ==> total->Err_0 is MessageTooLarge && final(payload)@ == old(payload)@,
{
    let name_bytes = name.as_bytes();
    let format_bytes = format.as_bytes();
    let format_offset = checked_total_len(name_bytes.len(), 1, 512)?;
    let total_len = checked_total_len(format_offset, format_bytes.len(), 512)?;
    let colon: [u8; 1] = [0x3a];
    let ghost before = payload@;
    put(payload, 0, name_bytes);
    put(payload, name_bytes.len(), colon.as_slice());
    put(payload, format_offset, format_bytes);
    assert(payload@ =~= format_layout(name_bytes@, format_bytes@) + before.skip(total_len as int));
    Ok(total_len)
}

/// Writes the payload of a subscription frame to the front of `payload` and
/// returns its length, or `MessageTooLarge` where it does not fit.
pub fn add_subscription_payload<E>(
    payload: &mut [u8; 256],
    multi_id: u8,
    msg_id: u16,
    name: &str,
) -> (total: Result<usize, ExportError<E>>)
    ensures
        total is Ok <==> 3 + name.spec_bytes().len() <= 256,
        total is Ok ==> holds_payload(
            old(payload)@,
            final(payload)@,
            total->Ok_0,
            add_subscription_layout(multi_id, msg_id, name.spec_bytes()),
        ),
        total is Err ==> total->Err_0 is MessageTooLarge && final(payload)@ == old(payload)@,
{
    let name_bytes = name.as_bytes();
    let total_len = checked_total_len(3, name_bytes.len(), 256)?;
    let id = u16_le(msg_id);
    let prefix: [u8; 3] = [multi_id, id[0], id[1]];
    let ghost before = payload@;
    put(payload, 0, prefix.as_slice());
    put(payload, 3, name_bytes);
    assert(payload@ =~= add_subscription_layout(multi_id, msg_id, name_bytes@) + before.skip(
        total_len as int,
    ));
    Ok(total_len)
}

/// Writes the payload of a data frame to the front of `payload` and returns
/// its length, or `MessageTooLarge` where it does not fit.
pub fn data_payload<E>(payload: &mut [u8; 1024], msg_id: u16, data: &[u8]) -> (total: Result<
    usize,
    ExportError<E>,
>)
    ensures
        total is Ok <==> 2 + data@.len() <= 1024,
        total is Ok ==> holds_payload(
            old(payload)@,
            final(payload)@,
            total->Ok_0,
            data_layout(msg_id, data@),
        ),
        total is Err ==> total->Err_0 is MessageTooLarge && final(payload)@ == old(payload)@,
{
    let total_len = checked_total_len(2, data.len(), 1024)?;
    let id = u16_le(msg_id);
    let ghost before = payload@;
    put(payload, 0, id.as_slice());
    put(payload, 2, data);
    assert(payload@ =~= data_layout(msg_id, data@) + before.skip(total_len as int));
    Ok(total_len)
}

/// Writes the payload of an untagged log frame to the front of `payload` and
/// returns its length, or `MessageTooLarge` where it does not fit.
pub fn log_payload<E>(payload: &mut [u8; 512], level: u8, timestamp: u64, text: &[u8]) -> (total:
    Result<usize, ExportError<E>>)
    ensures
        total is Ok <==> 9 + text@.len() <= 512,
        total is Ok ==> holds_payload(
            old(payload)@,
            final(payload)@,
            total->Ok_0,
            log_layout(level, timestamp, text@),
        ),
        total is Err ==> total->Err_0 is MessageTooLarge && final(payload)@ == old(payload)@,
{
    let total_len = checked_total_len(9, text.len(), 512)?;
    let first: [u8; 1] = [level];
    let time = u64_le(timestamp);
    let ghost before = payload@;
    put(payload, 0, first.as_slice());
    put(payload, 1, time.as_slice());
    put(payload, 9, text);
    assert(payload@ =~= log_layout(level, timestamp, text@) + before.skip(total_len as int));
    Ok(total_len)
}

/// Writes the payload of a tagged log frame to the front of `payload` and
/// returns its length, or `MessageTooLarge` where it does not fit.
pub fn tagged_log_payload<E>(
    payload: &mut [u8; 512],
    level: u8,
    tag: u16,
    timestamp: u64,
    text: &[u8],
) -> (total: Result<usize, ExportError<E>>)
    ensures
        total is Ok <==> 11 + text@.len() <= 512,
        total is Ok ==> holds_payload(
            old(payload)@,
            final(payload)@,
            total->Ok_0,
            tagged_log_layout(level, tag, timestamp, text@),
        ),
        total is Err ==> total->Err_0 is MessageTooLarge && final(payload)@ == old(payload)@,
{
    let total_len = checked_total_len(11, text.len(), 512)?;
    let mark = u16_le(tag);
    let prefix: [u8; 3] = [level, mark[0], mark[1]];
    let time = u64_le(timestamp);
    let ghost before = payload@;
    put(payload, 0, prefix.as_slice());
    put(payload, 3, time.as_slice());
    put(payload, 11, text);
    assert(payload@ =~= tagged_log_layout(level, tag, timestamp, text@) + before.skip(
        total_len as int,
    ));
    Ok(total_len)
}

/// Writes the payload of a parameter frame to the front of `payload` and
/// returns its length, or `MessageTooLarge` where the key is longer than 255
/// bytes or the payload does not fit.
pub fn parameter_payload<E>(payload: &mut [u8; 512], key: &[u8], value: &[u8]) -> (total: Result<
    usize,
    ExportError<E>,
>)
    ensures
        total is Ok <==> key@.len() <= 255 && 1 + key@.len() + value@.len() <= 512,
        total is Ok ==> holds_payload(
            old(payload)@,
            final(payload)@,
            total->Ok_0,
            parameter_layout(key@, value@),
        ),
        total is Err ==> total->Err_0 is MessageTooLarge && final(payload)@ == old(payload)@,
{
    if key.len() > 255 {
        return Err(ExportError::MessageTooLarge);
    }
    let key_len: [u8; 1] = [key.len() as u8];
    let value_offset = checked_total_len(1, key.len(), 512)?;
    let total_len = checked_total_len(value_offset, value.len(), 512)?;
    let ghost before = payload@;
    put(payload, 0, key_len.as_slice());
    put(payload, 1, key);
    put(payload, value_offset, value);
    assert(payload@ =~= parameter_layout(key@, value@) + before.skip(total_len as int));
    Ok(total_len)
}

/// Appends `src` to `out`.
pub fn append(out: &mut Vec<u8>, src: &[u8])
    ensures
        final(out)@ == old(out)@ + src@,
{
    let ghost before = out@;
    let mut i: usize = 0;
    while i < src.len()
        invariant
            i <= src@.len(),
            out@ == before + src@.take(i as int),
        decreases src@.len() - i,
    {
        out.push(src[i]);
        i += 1;
        assert(out@ =~= before + src@.take(i as int));
    }
    assert(src@.take(src@.len() as int) =~= src@);
}

/// The sixteen bytes that begin a ULog file, on the heap.
pub fn header_bytes(timestamp_micros: u64) -> (bytes: Vec<u8>)
    ensures
        bytes@ == header_layout(timestamp_micros),
{
    let header = write_header(timestamp_micros);
    let mut bytes: Vec<u8> = Vec::new();
    append(&mut bytes, header.as_slice());
    bytes
}

/// The frame of type `msg_type` whose payload is `head`, `body` and `tail`
/// one after the other, or `MessageTooLarge` where the payload is longer
/// than the size field can say.
pub fn message_frame<E>(msg_type: u8, head: &[u8], body: &[u8], tail: &[u8]) -> (frame: Result<
    Vec<u8>,
    ExportError<E>,
>)
    ensures
        frame is Ok <==> head@.len() + body@.len() + tail@.len() <= MAX_PAYLOAD_LEN,
        frame is Ok ==> frame->Ok_0@ == frame_layout(msg_type, head@ + body@ + tail@),
        frame is Err ==> frame->Err_0 is MessageTooLarge,
{
    let front = checked_total_len(head.len(), body.len(), MAX_PAYLOAD_LEN)?;
    let payload_len = checked_total_len(front, tail.len(), MAX_PAYLOAD_LEN)?;
    let header = message_header(payload_len, msg_type)?;
    let mut frame: Vec<u8> = Vec::new();
    append(&mut frame, header.as_slice());
    append(&mut frame, head);
    append(&mut frame, body);
    append(&mut frame, tail);
    assert(frame@ =~= frame_layout(msg_type, head@ + body@ + tail@));
    Ok(frame)
}

/// The flag-bits frame.
pub fn flag_bits_frame() -> (frame: Vec<u8>)
    ensures
        frame@ == frame_layout(MSG_FLAG_BITS, flag_bits_layout()),
{
    let payload: [u8; 40] = [0u8; 40];
    let header: [u8; 3] = [40, 0, MSG_FLAG_BITS];
    let mut frame: Vec<u8> = Vec::new();
    append(&mut frame, header.as_slice());
    append(&mut frame, payload.as_slice());
    assert(payload@ =~= flag_bits_layout());
    assert(frame@ =~= frame_layout(MSG_FLAG_BITS, flag_bits_layout()));
    frame
}

/// The format frame of a message type, or `MessageTooLarge`.
pub fn format_frame<E>(name: &str, format: &str) -> (frame: Result<Vec<u8>, ExportError<E>>)
    ensures
        frame is Ok <==> format_layout(name.spec_bytes(), format.spec_bytes()).len()
            <= MAX_PAYLOAD_LEN,
        frame is Ok ==> frame->Ok_0@ == frame_layout(
            MSG_FORMAT,
            format_layout(name.spec_bytes(), format.spec_bytes()),
        ),
        frame is Err ==> frame->Err_0 is MessageTooLarge,
{
    let colon: [u8; 1] = [0x3a];
    assert(colon@ =~= seq![0x3au8]);
    message_frame(MSG_FORMAT, name.as_bytes(), colon.as_slice(), format.as_bytes())
}

/// The subscription frame that ties `msg_id` to the message type `name` and
/// the instance `multi_id`, or `MessageTooLarge`.
pub fn add_subscription_frame<E>(multi_id: u8, msg_id: u16, name: &str) -> (frame: Result<
    Vec<u8>,
    ExportError<E>,
>)
    ensures
        frame is Ok <==> add_subscription_layout(multi_id, msg_id, name.spec_bytes()).len()
            <= MAX_PAYLOAD_LEN,
        frame is Ok ==> frame->Ok_0@ == frame_layout(
            MSG_ADD_SUBSCRIPTION,
            add_subscription_layout(multi_id, msg_id, name.spec_bytes()),
        ),
        frame is Err ==> frame->Err_0 is MessageTooLarge,
{
    let first: [u8; 1] = [multi_id];
    let id = u16_le(msg_id);
    assert(first@ =~= seq![multi_id]);
    message_frame(MSG_ADD_SUBSCRIPTION, first.as_slice(), id.as_slice(), name.as_bytes())
}

/// The data frame of one sample, or `MessageTooLarge`.
pub fn data_frame<E>(msg_id: u16, data: &[u8]) -> (frame: Result<Vec<u8>, ExportError<E>>)
    ensures
        frame is Ok <==> data_layout(msg_id, data@).len() <= MAX_PAYLOAD_LEN,
        frame is Ok ==> frame->Ok_0@ == frame_layout(MSG_DATA, data_layout(msg_id, data@)),
        frame is Err ==> frame->Err_0 is MessageTooLarge,
{
    let id = u16_le(msg_id);
    let nothing: [u8; 0] = [];
    assert(id@ + data@ + nothing@ =~= data_layout(msg_id, data@));
    message_frame(MSG_DATA, id.as_slice(), data, nothing.as_slice())
}

/// The frame of an untagged log line, or `MessageTooLarge`.
pub fn log_frame<E>(level: u8, timestamp: u64, text: &[u8]) -> (frame: Result<
    Vec<u8>,
    ExportError<E>,
>)
    ensures
        frame is Ok <==> log_layout(level, timestamp, text@).len() <= MAX_PAYLOAD_LEN,
        frame is Ok ==> frame->Ok_0@ == frame_layout(MSG_LOG, log_layout(level, timestamp, text@)),
        frame is Err ==> frame->Err_0 is MessageTooLarge,
{
    let first: [u8; 1] = [level];
    let time = u64_le(timestamp);
    assert(first@ =~= seq![level]);
    message_frame(MSG_LOG, first.as_slice(), time.as_slice(), text)
}

/// The frame of a tagged log line, or `MessageTooLarge`.
pub fn tagged_log_frame<E>(level: u8, tag: u16, timestamp: u64, text: &[u8]) -> (frame: Result<
    Vec<u8>,
    ExportError<E>,
>)
    ensures
        frame is Ok <==> tagged_log_layout(level, tag, timestamp, text@).len() <= MAX_PAYLOAD_LEN,
        frame is Ok ==> frame->Ok_0@ == frame_layout(
            MSG_TAGGED_LOG,
            tagged_log_layout(level, tag, timestamp, text@),
        ),
        frame is Err ==> frame->Err_0 is MessageTooLarge,
{
    let mark = u16_le(tag);
    let prefix: [u8; 3] = [level, mark[0], mark[1]];
    let time = u64_le(timestamp);
    assert(prefix@ =~= seq![level] + le16(tag));
    message_frame(MSG_TAGGED_LOG, prefix.as_slice(), time.as_slice(), text)
}

/// The frame of a parameter, or `MessageTooLarge` where the key is longer
/// than its length byte can say.
pub fn parameter_frame<E>(key: &[u8], value: &[u8]) -> (frame: Result<Vec<u8>, ExportError<E>>)
    ensures
        frame is Ok <==> key@.len() <= 255 && parameter_layout(key@, value@).len()
            <= MAX_PAYLOAD_LEN,
        frame is Ok ==> frame->Ok_0@ == frame_layout(MSG_PARAMETER, parameter_layout(key@, value@)),
        frame is Err ==> frame->Err_0 is MessageTooLarge,
{
    if key.len() > 255 {
        return Err(ExportError::MessageTooLarge);
    }
    let key_len: [u8; 1] = [key.len() as u8];
    assert(key_len@ =~= seq![key@.len() as u8]);
    message_frame(MSG_PARAMETER, key_len.as_slice(), key, value)
}

} // verus!
