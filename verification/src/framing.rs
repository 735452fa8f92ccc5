//! What a decoder reads from the wire: a stream of frames can be cut into
//! its frames again, and the payload of each frame tells its fields.

use crate::le::{
    from_le16, from_le64, le16, le64, lemma_le16_round_trip, lemma_le64_round_trip,
};
use crate::machine::{wire_bytes, WireItem};
use crate::wire::{
    add_subscription_layout, data_layout, format_layout, log_layout, parameter_layout,
    tagged_log_layout,
};
use vstd::prelude::*;

verus! {

/// A frame says its own length and type: its first two bytes are the length
/// of its payload, least significant first, its third byte is its type, and
/// its payload follows.
pub proof fn lemma_frame_says_its_length(item: WireItem)
    requires
        !(item is Header),
        item.fits(),
    ensures
        item.bytes().len() == 3 + item.payload().len(),
        item.bytes()[0] + 0x100 * item.bytes()[1] == item.payload().len(),
        item.bytes()[2] == item.msg_type(),
        item.bytes().skip(3) == item.payload(),
{
    assert(item.bytes().skip(3) =~= item.payload());
}

/// A stream of frames can be cut into its frames again: the first three
/// bytes tell where the first frame ends, and the rest of the stream is the
/// stream of the other frames.
pub proof fn lemma_stream_splits_into_frames(items: Seq<WireItem>)
    requires
        items.len() > 0,
        !(items[0] is Header),
        items[0].fits(),
    ensures
        ({
            let stream = wire_bytes(items);
            let size = stream[0] + 0x100 * stream[1];
            &&& stream.len() >= 3 + size
            &&& size == items[0].payload().len()
            &&& stream[2] == items[0].msg_type()
            &&& stream.subrange(3, 3 + size) == items[0].payload()
            &&& stream.skip(3 + size) == wire_bytes(items.drop_first())
        }),
{
    lemma_frame_says_its_length(items[0]);
    let stream = wire_bytes(items);
    let first = items[0].bytes();
    let size = items[0].payload().len() as int;
    assert(stream == first + wire_bytes(items.drop_first()));
    assert(stream.subrange(3, 3 + size) =~= first.skip(3));
    assert(stream.skip(3 + size) =~= wire_bytes(items.drop_first()));
}

/// The frames that a stream of bytes holds, each as its type and its
/// payload: the reading of a decoder that knows the envelope and nothing
/// else. The reading ends where the bytes that are left hold no whole frame.
pub open spec fn frames_of(stream: Seq<u8>) -> Seq<(u8, Seq<u8>)>
    decreases stream.len(),
{
    if stream.len() < 3 {
        Seq::empty()
    } else {
        let size = stream[0] + 0x100 * stream[1];
        if stream.len() < 3 + size {
            Seq::empty()
        } else {
            seq![(stream[2], stream.subrange(3, 3 + size))] + frames_of(stream.skip(3 + size))
        }
    }
}

/// The types and payloads of `items`, in order.
pub open spec fn contents_of(items: Seq<WireItem>) -> Seq<(u8, Seq<u8>)> {
    items.map_values(|item: WireItem| (item.msg_type(), item.payload()))
}

/// A decoder reads back what was written: the frames that the bytes of a
/// sequence of frames hold are those frames, by type and payload, in their
/// order.
pub proof fn lemma_stream_reads_back(items: Seq<WireItem>)
    requires
        forall|k: int|
            0 <= k < items.len() ==> !((#[trigger] items[k]) is Header) && items[k].fits(),
    ensures
        frames_of(wire_bytes(items)) == contents_of(items),
    decreases items.len(),
{
    if items.len() == 0 {
        assert(frames_of(wire_bytes(items)) =~= contents_of(items));
    } else {
        let rest = items.drop_first();
        assert forall|k: int| 0 <= k < rest.len() implies !((#[trigger] rest[k]) is Header)
            && rest[k].fits() by {
            assert(rest[k] == items[k + 1]);
        }
        lemma_stream_reads_back(rest);
        lemma_stream_splits_into_frames(items);
        assert(contents_of(items) =~= seq![(items[0].msg_type(), items[0].payload())]
            + contents_of(rest));
    }
}

/// The payload of a log frame tells the level, the time and the text.
pub proof fn lemma_log_payload_reads_back(level: u8, timestamp: u64, text: Seq<u8>)
    ensures
        ({
            let payload = log_layout(level, timestamp, text);
            &&& payload.len() == 9 + text.len()
            &&& payload[0] == level
            &&& from_le64(payload.subrange(1, 9)) == timestamp
            &&& payload.skip(9) == text
        }),
{
    let payload = log_layout(level, timestamp, text);
    lemma_le64_round_trip(timestamp);
    assert(payload.subrange(1, 9) =~= le64(timestamp));
    assert(payload.skip(9) =~= text);
}

/// The payload of a tagged log frame tells the level, the tag, the time and
/// the text.
pub proof fn lemma_tagged_log_payload_reads_back(
    level: u8,
    tag: u16,
    timestamp: u64,
    text: Seq<u8>,
)
    ensures
        ({
            let payload = tagged_log_layout(level, tag, timestamp, text);
            &&& payload.len() == 11 + text.len()
            &&& payload[0] == level
            &&& from_le16(payload.subrange(1, 3)) == tag
            &&& from_le64(payload.subrange(3, 11)) == timestamp
            &&& payload.skip(11) == text
        }),
{
    let payload = tagged_log_layout(level, tag, timestamp, text);
    lemma_le16_round_trip(tag);
    lemma_le64_round_trip(timestamp);
    assert(payload.subrange(1, 3) =~= le16(tag));
    assert(payload.subrange(3, 11) =~= le64(timestamp));
    assert(payload.skip(11) =~= text);
}

/// The payload of a subscription frame tells the instance, the message id
/// and the name of the topic.
pub proof fn lemma_subscription_payload_reads_back(multi_id: u8, msg_id: u16, name: Seq<u8>)
    ensures
        ({
            let payload = add_subscription_layout(multi_id, msg_id, name);
            &&& payload.len() == 3 + name.len()
            &&& payload[0] == multi_id
            &&& from_le16(payload.subrange(1, 3)) == msg_id
            &&& payload.skip(3) == name
        }),
{
    let payload = add_subscription_layout(multi_id, msg_id, name);
    lemma_le16_round_trip(msg_id);
    assert(payload.subrange(1, 3) =~= le16(msg_id));
    assert(payload.skip(3) =~= name);
}

/// The payload of a data frame tells the message id and the sample.
pub proof fn lemma_data_payload_reads_back(msg_id: u16, data: Seq<u8>)
    ensures
        ({
            let payload = data_layout(msg_id, data);
            &&& payload.len() == 2 + data.len()
            &&& from_le16(payload.subrange(0, 2)) == msg_id
            &&& payload.skip(2) == data
        }),
{
    let payload = data_layout(msg_id, data);
    lemma_le16_round_trip(msg_id);
    assert(payload.subrange(0, 2) =~= le16(msg_id));
    assert(payload.skip(2) =~= data);
}

/// The payload of a parameter frame tells the key and the bytes of the
/// value, where the key fits its length byte.
pub proof fn lemma_parameter_payload_reads_back(key: Seq<u8>, value: Seq<u8>)
    requires
        key.len() <= 255,
    ensures
        ({
            let payload = parameter_layout(key, value);
            &&& payload.len() == 1 + key.len() + value.len()
            &&& payload[0] == key.len()
            &&& payload.subrange(1, 1 + payload[0]) == key
            &&& payload.skip(1 + payload[0]) == value
        }),
{
    let payload = parameter_layout(key, value);
    assert(payload.subrange(1, 1 + key.len() as int) =~= key);
    assert(payload.skip(1 + key.len() as int) =~= value);
}

/// The payload of a format frame without a colon in the name of its message
/// tells the name and the format: the name ends at the first colon.
pub proof fn lemma_format_payload_reads_back(name: Seq<u8>, format: Seq<u8>)
    requires
        forall|i: int| 0 <= i < name.len() ==> name[i] != 0x3a,
    ensures
        ({
            let payload = format_layout(name, format);
            &&& payload.len() == name.len() + 1 + format.len()
            &&& payload[name.len() as int] == 0x3a
            &&& forall|i: int| 0 <= i < name.len() ==> payload[i] != 0x3a
            &&& payload.take(name.len() as int) == name
            &&& payload.skip(name.len() as int + 1) == format
        }),
{
    let payload = format_layout(name, format);
    assert(payload.take(name.len() as int) =~= name);
    assert(payload.skip(name.len() as int + 1) =~= format);
}

} // verus!
