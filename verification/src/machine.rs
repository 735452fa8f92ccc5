//! The exporter as a mathematical state machine.
//!
//! The exporter never writes. It names the next item that belongs on the
//! wire and waits for the answer of the sink; the answer is the event that
//! moves it on. This file says, for every state and every event, what the
//! next state is and what the exporter asks for next.

use crate::export::{ExportError, ExportStep};
use crate::record::{RecordMeta, RecordView};
use crate::registry::MessageMeta;
use crate::types::bumped;
use crate::wire::{
    add_subscription_layout, data_layout, flag_bits_layout, format_layout, frame_layout,
    header_layout, log_layout, parameter_layout, slot_of, tagged_log_layout, MAX_PAYLOAD_LEN,
    MSG_ADD_SUBSCRIPTION, MSG_DATA, MSG_FLAG_BITS, MSG_FORMAT, MSG_LOG, MSG_PARAMETER,
    MSG_TAGGED_LOG,
};
use vstd::prelude::*;
use vstd::string::StringSliceAdditionalSpecFns;

verus! {

/// One item of the byte stream: the file header or a frame.
pub enum WireItem {
    Header { timestamp: u64 },
    FlagBits,
    Format { name: Seq<u8>, format: Seq<u8> },
    AddSubscription { multi_id: u8, msg_id: u16, name: Seq<u8> },
    Data { msg_id: u16, data: Seq<u8> },
    Log { level: u8, timestamp: u64, text: Seq<u8> },
    TaggedLog { level: u8, tag: u16, timestamp: u64, text: Seq<u8> },
    Parameter { key: Seq<u8>, value: Seq<u8> },
}

impl WireItem {
    /// The type byte of the frame. The file header is no frame and has none;
    /// for it this is zero.
    pub open spec fn msg_type(self) -> u8 {
        match self {
            WireItem::Header { .. } => 0,
            WireItem::FlagBits => MSG_FLAG_BITS,
            WireItem::Format { .. } => MSG_FORMAT,
            WireItem::AddSubscription { .. } => MSG_ADD_SUBSCRIPTION,
            WireItem::Data { .. } => MSG_DATA,
            WireItem::Log { .. } => MSG_LOG,
            WireItem::TaggedLog { .. } => MSG_TAGGED_LOG,
            WireItem::Parameter { .. } => MSG_PARAMETER,
        }
    }

    /// The payload of the frame; for the file header, all its bytes.
    pub open spec fn payload(self) -> Seq<u8> {
        match self {
            WireItem::Header { timestamp } => header_layout(timestamp),
            WireItem::FlagBits => flag_bits_layout(),
            WireItem::Format { name, format } => format_layout(name, format),
            WireItem::AddSubscription { multi_id, msg_id, name } => add_subscription_layout(
                multi_id,
                msg_id,
                name,
            ),
            WireItem::Data { msg_id, data } => data_layout(msg_id, data),
            WireItem::Log { level, timestamp, text } => log_layout(level, timestamp, text),
            WireItem::TaggedLog { level, tag, timestamp, text } => tagged_log_layout(
                level,
                tag,
                timestamp,
                text,
            ),
            WireItem::Parameter { key, value } => parameter_layout(key, value),
        }
    }

    /// Whether the item can be written: the size field of a frame can say the
    /// length of its payload, and the length byte of a parameter that of its
    /// key.
    pub open spec fn fits(self) -> bool {
        match self {
            WireItem::Header { .. } => true,
            WireItem::Parameter { key, .. } => key.len() <= 255 && self.payload().len()
                <= MAX_PAYLOAD_LEN,
            _ => self.payload().len() <= MAX_PAYLOAD_LEN,
        }
    }

    /// The bytes of the item on the wire: the header as it is, a frame as
    /// the length of its payload, its type byte and its payload.
    pub open spec fn bytes(self) -> Seq<u8> {
        match self {
            WireItem::Header { timestamp } => header_layout(timestamp),
            _ => frame_layout(self.msg_type(), self.payload()),
        }
    }
}

/// The write whose answer the exporter waits for.
pub enum Awaiting {
    /// No write is under way.
    Nothing,
    /// The file header.
    Header,
    /// The flag-bits frame.
    FlagBits,
    /// The format frame of the entry `index` of the registry.
    Format { index: nat },
    /// The subscription frame of `slot`; the sample `data` follows it.
    Subscription { slot: nat, data: Seq<u8> },
    /// The last frame of a record.
    Last,
}

/// The exporter as a mathematical value.
pub struct ExportState {
    /// The message types, by topic index.
    pub registry: Seq<MessageMeta>,
    /// The number of instances that a topic can have.
    pub max_multi_ids: nat,
    /// The number of slots that can be subscribed.
    pub max_streams: nat,
    /// Whether the startup has been written.
    pub started: bool,
    /// The slots whose subscription frame the sink has taken.
    pub subscribed: Set<nat>,
    /// How many samples were dropped for want of a slot; it stops at
    /// `u32::MAX`.
    pub dropped_streams: nat,
    /// The write that is under way.
    pub awaiting: Awaiting,
}

/// The state of an exporter that has written nothing yet.
pub open spec fn fresh(
    registry: Seq<MessageMeta>,
    max_multi_ids: nat,
    max_streams: nat,
) -> ExportState {
    ExportState {
        registry,
        max_multi_ids,
        max_streams,
        started: false,
        subscribed: Set::empty(),
        dropped_streams: 0,
        awaiting: Awaiting::Nothing,
    }
}

/// What the exporter asks of its driver.
pub enum Action<E> {
    /// Write the item, then report what the sink said.
    Write(WireItem),
    /// The operation is over, with this result.
    Done(Result<(), ExportError<E>>),
}

/// A move of the exporter: the state it is in afterwards and what it asks
/// for.
pub struct Step<E> {
    pub state: ExportState,
    pub action: Action<E>,
}

/// The state `s`, waiting for `awaiting`.
pub open spec fn waiting_for(s: ExportState, awaiting: Awaiting) -> ExportState {
    ExportState { awaiting, ..s }
}

/// Asks for `item` and waits for `then`, or gives up with `MessageTooLarge`
/// where the item cannot be written.
pub open spec fn offer<E>(s: ExportState, item: WireItem, then: Awaiting) -> Step<E> {
    if item.fits() {
        Step { state: waiting_for(s, then), action: Action::Write(item) }
    } else {
        finish(s, Err(ExportError::MessageTooLarge))
    }
}

/// Gives up, or finishes, with `result`.
pub open spec fn finish<E>(s: ExportState, result: Result<(), ExportError<E>>) -> Step<E> {
    Step { state: waiting_for(s, Awaiting::Nothing), action: Action::Done(result) }
}

/// The format frame of the entry `index`.
pub open spec fn format_item(registry: Seq<MessageMeta>, index: int) -> WireItem {
    WireItem::Format {
        name: registry[index].name.spec_bytes(),
        format: registry[index].format.spec_bytes(),
    }
}

/// The start of the startup: nothing where the exporter has started, else
/// the file header.
pub open spec fn on_startup<E>(s: ExportState, timestamp_micros: u64) -> Step<E> {
    if s.started {
        Step { state: s, action: Action::Done(Ok(())) }
    } else {
        offer(s, WireItem::Header { timestamp: timestamp_micros }, Awaiting::Header)
    }
}

/// The next step of the startup when the entries below `index` have their
/// format frames: the format frame of `index`, or the end of the startup.
pub open spec fn on_formats_written<E>(s: ExportState, index: nat) -> Step<E> {
    if index < s.registry.len() {
        offer(s, format_item(s.registry, index as int), Awaiting::Format { index })
    } else {
        finish(ExportState { started: true, ..s }, Ok(()))
    }
}

/// The reaction to a sample of `instance` of the topic `topic_index`.
pub open spec fn on_sample<E>(
    s: ExportState,
    topic_index: u16,
    instance: u8,
    data: Seq<u8>,
) -> Step<E> {
    let slot = slot_of(topic_index as nat, instance as nat, s.max_multi_ids);
    if instance >= s.max_multi_ids {
        finish(s, Err(ExportError::InvalidMultiId))
    } else if topic_index >= s.registry.len() {
        finish(s, Err(ExportError::InvalidTopicIndex))
    } else if slot >= s.max_streams {
        finish(ExportState { dropped_streams: bumped(s.dropped_streams), ..s }, Ok(()))
    } else if slot > 0xffff {
        finish(s, Err(ExportError::TooManyStreams))
    } else if s.subscribed.contains(slot) {
        offer(s, WireItem::Data { msg_id: slot as u16, data }, Awaiting::Last)
    } else {
        offer(
            s,
            WireItem::AddSubscription {
                multi_id: instance,
                msg_id: slot as u16,
                name: s.registry[topic_index as int].name.spec_bytes(),
            },
            Awaiting::Subscription { slot, data },
        )
    }
}

/// The reaction to a record: the first item that it puts on the wire, or the
/// end of the matter where it puts none.
pub open spec fn on_record<E>(s: ExportState, record: RecordView) -> Step<E> {
    match record.meta {
        RecordMeta::LoggedString { level, tag: None, ts } => offer(
            s,
            WireItem::Log { level: level.wire_byte(), timestamp: ts, text: record.bytes },
            Awaiting::Last,
        ),
        RecordMeta::LoggedString { level, tag: Some(tag), ts } => offer(
            s,
            WireItem::TaggedLog {
                level: level.wire_byte(),
                tag,
                timestamp: ts,
                text: record.bytes,
            },
            Awaiting::Last,
        ),
        RecordMeta::Data { topic_index, instance, ts } => on_sample(
            s,
            topic_index,
            instance,
            record.bytes,
        ),
        RecordMeta::Parameter { value } => offer(
            s,
            WireItem::Parameter { key: record.bytes, value: value.le_bytes() },
            Awaiting::Last,
        ),
    }
}

/// The reaction to the answer of the sink. A refusal ends the operation
/// with the error of the sink. After a write that the sink took, the
/// startup goes on to its next item, a subscription marks its slot and is
/// followed by its sample, and the last frame of a record ends the record.
pub open spec fn on_sink<E>(s: ExportState, written: Result<(), E>) -> Step<E> {
    match written {
        Err(e) => finish(s, Err(ExportError::Write(e))),
        Ok(_) => match s.awaiting {
            Awaiting::Nothing => finish(s, Ok(())),
            Awaiting::Header => offer(s, WireItem::FlagBits, Awaiting::FlagBits),
            Awaiting::FlagBits => on_formats_written(s, 0),
            Awaiting::Format { index } => on_formats_written(s, index + 1),
            Awaiting::Subscription { slot, data } => offer(
                ExportState { subscribed: s.subscribed.insert(slot), ..s },
                WireItem::Data { msg_id: slot as u16, data },
                Awaiting::Last,
            ),
            Awaiting::Last => finish(s, Ok(())),
        },
    }
}

/// The reaction to what a poll of the queue brought: nothing to do where
/// the queue was empty, else the reaction to the record.
pub open spec fn on_polled<E>(s: ExportState, taken: Option<RecordView>) -> (ExportStep, Step<E>) {
    match taken {
        None => (ExportStep::Idle, Step { state: s, action: Action::Done(Ok(())) }),
        Some(record) => (ExportStep::Progressed, on_record::<E>(s, record)),
    }
}

/// How many writes, at most, the operation under way still needs.
pub open spec fn writes_left(s: ExportState) -> nat {
    match s.awaiting {
        Awaiting::Nothing => 0,
        Awaiting::Last => 1,
        Awaiting::Subscription { .. } => 2,
        Awaiting::Format { index } => if index < s.registry.len() {
            (1 + s.registry.len() - index) as nat
        } else {
            1
        },
        Awaiting::FlagBits => 2 + s.registry.len(),
        Awaiting::Header => 3 + s.registry.len(),
    }
}

/// Where an operation ends when the sink takes every write: the state, the
/// items written, in order, and the result.
pub struct Outcome<E> {
    pub state: ExportState,
    pub wire: Seq<WireItem>,
    pub result: Result<(), ExportError<E>>,
}

/// The outcome of following `action` to its end with a sink that takes every
/// write.
pub open spec fn drain<E>(s: ExportState, action: Action<E>) -> Outcome<E>
    decreases writes_left(s),
{
    match action {
        Action::Done(result) => Outcome { state: s, wire: Seq::empty(), result },
        Action::Write(item) => {
            let next = on_sink::<E>(s, Ok(()));
            if writes_left(next.state) < writes_left(s) {
                let rest = drain(next.state, next.action);
                Outcome { state: rest.state, wire: seq![item] + rest.wire, result: rest.result }
            } else {
                Outcome { state: next.state, wire: seq![item], result: Ok(()) }
            }
        },
    }
}

/// The bytes of `items`, one item after the other.
pub open spec fn wire_bytes(items: Seq<WireItem>) -> Seq<u8>
    decreases items.len(),
{
    if items.len() == 0 {
        Seq::empty()
    } else {
        items[0].bytes() + wire_bytes(items.drop_first())
    }
}

/// The bytes of an item and of those behind it are the bytes of them all.
pub proof fn lemma_wire_bytes_step(item: WireItem, rest: Seq<WireItem>)
    ensures
        wire_bytes(seq![item] + rest) == item.bytes() + wire_bytes(rest),
{
    assert((seq![item] + rest).drop_first() =~= rest);
}

/// While a write is under way, each write that the sink takes brings the
/// operation nearer to its end.
pub proof fn lemma_sink_makes_progress<E>(s: ExportState)
    requires
        !(s.awaiting is Nothing),
    ensures
        writes_left(on_sink::<E>(s, Ok(())).state) < writes_left(s),
{
}

/// Following a write to the end is the write, and then what follows the
/// answer of the sink to it.
pub proof fn lemma_drain_write<E>(s: ExportState, item: WireItem)
    ensures
        ({
            let next = on_sink::<E>(s, Ok(()));
            let rest = drain(next.state, next.action);
            let all = drain(s, Action::<E>::Write(item));
            &&& all.state == rest.state
            &&& all.result == rest.result
            &&& all.wire == seq![item] + rest.wire
            &&& wire_bytes(all.wire) == item.bytes() + wire_bytes(rest.wire)
            &&& writes_left(next.state) < writes_left(s) || next.action is Done
        }),
{
    let next = on_sink::<E>(s, Ok(()));
    let rest = drain(next.state, next.action);
    if s.awaiting is Nothing {
        assert(rest.wire =~= Seq::<WireItem>::empty());
        assert(seq![item] + rest.wire =~= seq![item]);
    } else {
        lemma_sink_makes_progress::<E>(s);
    }
    lemma_wire_bytes_step(item, rest.wire);
}

/// The whole startup with a sink that takes every write.
pub open spec fn startup_outcome<E>(s: ExportState, timestamp_micros: u64) -> Outcome<E> {
    let first = on_startup::<E>(s, timestamp_micros);
    drain(first.state, first.action)
}

/// The whole of a record with a sink that takes every write.
pub open spec fn record_outcome<E>(s: ExportState, record: RecordView) -> Outcome<E> {
    let first = on_record::<E>(s, record);
    drain(first.state, first.action)
}

} // verus!
