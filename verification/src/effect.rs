//! What the startup and each record do to the exporter and to the wire when
//! the sink takes every write, stated outright and proved of the state
//! machine.

use crate::export::ExportError;
use crate::machine::{
    drain, format_item, lemma_drain_write, on_formats_written, on_record, on_sink,
    on_startup, record_outcome, startup_outcome, waiting_for, Action, Awaiting, ExportState,
    Outcome, WireItem,
};
use crate::record::{truncated, RecordMeta, RecordView};
use crate::registry::MessageMeta;
use crate::wire::slot_of;
use crate::types::bumped;
use vstd::prelude::*;
use vstd::string::StringSliceAdditionalSpecFns;

verus! {

/// The outcome of a record that puts the one item `item` on the wire, or
/// none where the item cannot be written.
pub open spec fn one_item<E>(s: ExportState, item: WireItem) -> Outcome<E> {
    if item.fits() {
        Outcome { state: waiting_for(s, Awaiting::Nothing), wire: seq![item], result: Ok(()) }
    } else {
        Outcome {
            state: waiting_for(s, Awaiting::Nothing),
            wire: Seq::empty(),
            result: Err(ExportError::MessageTooLarge),
        }
    }
}

/// The outcome of a record that puts nothing on the wire.
pub open spec fn no_item<E>(s: ExportState, result: Result<(), ExportError<E>>) -> Outcome<E> {
    Outcome { state: waiting_for(s, Awaiting::Nothing), wire: Seq::empty(), result }
}

/// What a sample does to the exporter and the wire. An instance or a topic
/// that is out of range is an error. A slot beyond the budget drops the
/// sample and counts it. A slot that does not fit a message id is an error.
/// A slot that is subscribed gets the data frame. Any other slot gets its
/// subscription frame, is marked, and then gets the data frame.
pub open spec fn sample_effect<E>(
    s: ExportState,
    topic_index: u16,
    instance: u8,
    data: Seq<u8>,
) -> Outcome<E> {
    let slot = slot_of(topic_index as nat, instance as nat, s.max_multi_ids);
    let sample = WireItem::Data { msg_id: slot as u16, data };
    if instance >= s.max_multi_ids {
        no_item(s, Err(ExportError::InvalidMultiId))
    } else if topic_index >= s.registry.len() {
        no_item(s, Err(ExportError::InvalidTopicIndex))
    } else if slot >= s.max_streams {
        no_item(ExportState { dropped_streams: bumped(s.dropped_streams), ..s }, Ok(()))
    } else if slot > 0xffff {
        no_item(s, Err(ExportError::TooManyStreams))
    } else if s.subscribed.contains(slot) {
        one_item(s, sample)
    } else {
        let subscription = WireItem::AddSubscription {
            multi_id: instance,
            msg_id: slot as u16,
            name: s.registry[topic_index as int].name.spec_bytes(),
        };
        let marked = ExportState { subscribed: s.subscribed.insert(slot), ..s };
        if !subscription.fits() {
            no_item(s, Err(ExportError::MessageTooLarge))
        } else if !sample.fits() {
            Outcome {
                state: waiting_for(marked, Awaiting::Nothing),
                wire: seq![subscription],
                result: Err(ExportError::MessageTooLarge),
            }
        } else {
            Outcome {
                state: waiting_for(marked, Awaiting::Nothing),
                wire: seq![subscription, sample],
                result: Ok(()),
            }
        }
    }
}

/// What a record does to the exporter and the wire.
pub open spec fn record_effect<E>(s: ExportState, record: RecordView) -> Outcome<E> {
    match record.meta {
        RecordMeta::LoggedString { level, tag: None, ts } => one_item(
            s,
            WireItem::Log { level: level.wire_byte(), timestamp: ts, text: record.bytes },
        ),
        RecordMeta::LoggedString { level, tag: Some(tag), ts } => one_item(
            s,
            WireItem::TaggedLog {
                level: level.wire_byte(),
                tag,
                timestamp: ts,
                text: record.bytes,
            },
        ),
        RecordMeta::Data { topic_index, instance, ts } => sample_effect(
            s,
            topic_index,
            instance,
            record.bytes,
        ),
        RecordMeta::Parameter { value } => one_item(
            s,
            WireItem::Parameter { key: record.bytes, value: value.le_bytes() },
        ),
    }
}

/// Following the last frame of a record to its end writes that frame and
/// nothing else.
proof fn lemma_drain_last<E>(s: ExportState, item: WireItem)
    requires
        s.awaiting is Last,
    ensures
        drain(s, Action::<E>::Write(item)) == (Outcome::<E> {
            state: waiting_for(s, Awaiting::Nothing),
            wire: seq![item],
            result: Ok(()),
        }),
{
    lemma_drain_write::<E>(s, item);
    assert(seq![item] + Seq::<WireItem>::empty() =~= seq![item]);
}

/// Driving a record with a sink that takes every write has the effect that
/// `record_effect` states.
pub proof fn lemma_record_outcome<E>(s: ExportState, record: RecordView)
    ensures
        record_outcome::<E>(s, record) == record_effect::<E>(s, record),
{
    let first = on_record::<E>(s, record);
    match first.action {
        Action::Done(_) => {},
        Action::Write(item) => {
            match first.state.awaiting {
                Awaiting::Subscription { slot, data } => {
                    let sample = WireItem::Data { msg_id: slot as u16, data };
                    let next = on_sink::<E>(first.state, Ok(()));
                    lemma_drain_write::<E>(first.state, item);
                    if sample.fits() {
                        lemma_drain_last::<E>(next.state, sample);
                        assert(seq![item] + seq![sample] =~= seq![item, sample]);
                    } else {
                        assert(seq![item] + Seq::<WireItem>::empty() =~= seq![item]);
                    }
                },
                _ => {
                    lemma_drain_last::<E>(first.state, item);
                },
            }
        },
    }
}

/// Whether `a` and `b` are exporters of the same message set with the same
/// limits.
pub open spec fn same_limits(a: ExportState, b: ExportState) -> bool {
    &&& a.registry == b.registry
    &&& a.max_multi_ids == b.max_multi_ids
    &&& a.max_streams == b.max_streams
}

/// A record leaves the startup as it was, and a failed record marks no slot
/// but that of a subscription frame that it wrote.
pub proof fn lemma_record_keeps_startup<E>(s: ExportState, record: RecordView)
    ensures
        record_effect::<E>(s, record).state.started == s.started,
        same_limits(record_effect::<E>(s, record).state, s),
        record_effect::<E>(s, record).state.awaiting is Nothing,
        record_effect::<E>(s, record).wire.len() == 0 ==> record_effect::<E>(
            s,
            record,
        ).state.subscribed == s.subscribed,
{
}

/// Every item that a record puts on the wire is a frame that can be
/// written.
pub proof fn lemma_record_writes_frames<E>(s: ExportState, record: RecordView, k: int)
    requires
        0 <= k < record_effect::<E>(s, record).wire.len(),
    ensures
        !(record_effect::<E>(s, record).wire[k] is Header),
        record_effect::<E>(s, record).wire[k].fits(),
{
}

/// Whether `item` is a subscription frame that names an instance of a topic
/// of the registry and the slot of that instance.
pub open spec fn names_its_topic(item: WireItem, s: ExportState) -> bool {
    item matches WireItem::AddSubscription { multi_id, msg_id, name } ==> multi_id
        < s.max_multi_ids && exists|topic: int|
        0 <= topic < s.registry.len() && msg_id == slot_of(
            topic as nat,
            multi_id as nat,
            s.max_multi_ids,
        ) && name == (#[trigger] s.registry[topic]).name.spec_bytes()
}

/// Every subscription frame that a record writes names an instance of a
/// topic of the registry, by the name of the topic, and the slot of that
/// instance as its message id.
pub proof fn lemma_subscription_names_its_topic<E>(s: ExportState, record: RecordView, k: int)
    requires
        0 <= k < record_effect::<E>(s, record).wire.len(),
    ensures
        names_its_topic(record_effect::<E>(s, record).wire[k], s),
{
    let item = record_effect::<E>(s, record).wire[k];
    if item is AddSubscription {
        let topic = record.meta->Data_topic_index as int;
        assert(item->AddSubscription_name == s.registry[topic].name.spec_bytes());
    }
}

/// A log line that is longer than a record holds is cut to exactly the
/// bytes that a record holds, so that its frame has a payload of that many
/// bytes behind the level, the tag if there is one, and the time.
pub proof fn lemma_long_text_is_cut(level: u8, tag: u16, timestamp: u64, text: Seq<u8>, cap: nat)
    requires
        text.len() > cap,
    ensures
        truncated(text, cap) == text.take(cap as int),
        truncated(text, cap).len() == cap,
        (WireItem::Log {
            level,
            timestamp,
            text: truncated(text, cap),
        }).payload().len() == 9 + cap,
        (WireItem::TaggedLog {
            level,
            tag,
            timestamp,
            text: truncated(text, cap),
        }).payload().len() == 11 + cap,
{
}

/// The format frames of the entries from `index` on, up to the first that
/// cannot be written.
pub open spec fn formats_from(registry: Seq<MessageMeta>, index: nat) -> Seq<WireItem>
    decreases registry.len() - index,
{
    if index >= registry.len() || !format_item(registry, index as int).fits() {
        Seq::empty()
    } else {
        seq![format_item(registry, index as int)] + formats_from(registry, index + 1)
    }
}

/// Whether the format frames of the entries from `index` on can all be
/// written.
pub open spec fn formats_fit(registry: Seq<MessageMeta>, index: nat) -> bool {
    forall|i: int| index <= i < registry.len() ==> (#[trigger] format_item(registry, i)).fits()
}

/// What the startup does to the exporter and the wire. An exporter that has
/// started writes nothing. Any other writes the file header, the flag-bits
/// frame and the format frames in the order of the registry, and has
/// started when the last of them is written; a format frame that cannot be
/// written ends the startup with an error, and the exporter has not
/// started.
pub open spec fn startup_effect<E>(s: ExportState, timestamp_micros: u64) -> Outcome<E> {
    if s.started {
        Outcome { state: s, wire: Seq::empty(), result: Ok(()) }
    } else {
        let wire = seq![WireItem::Header { timestamp: timestamp_micros }, WireItem::FlagBits]
            + formats_from(s.registry, 0);
        if formats_fit(s.registry, 0) {
            Outcome {
                state: ExportState { started: true, awaiting: Awaiting::Nothing, ..s },
                wire,
                result: Ok(()),
            }
        } else {
            Outcome {
                state: waiting_for(s, Awaiting::Nothing),
                wire,
                result: Err(ExportError::MessageTooLarge),
            }
        }
    }
}

/// How the startup ends when the entries below `index` have their format
/// frames.
pub open spec fn after_formats<E>(s: ExportState, index: nat) -> Outcome<E> {
    if formats_fit(s.registry, index) {
        Outcome {
            state: ExportState { started: true, awaiting: Awaiting::Nothing, ..s },
            wire: formats_from(s.registry, index),
            result: Ok(()),
        }
    } else {
        Outcome {
            state: waiting_for(s, Awaiting::Nothing),
            wire: formats_from(s.registry, index),
            result: Err(ExportError::MessageTooLarge),
        }
    }
}

/// The outcome `rest`, with `item` written before it.
pub open spec fn written_before<E>(item: WireItem, rest: Outcome<E>) -> Outcome<E> {
    Outcome { wire: seq![item] + rest.wire, ..rest }
}

/// Whether the format frames from `index` on can all be written depends on
/// the frame of `index` and on those behind it.
proof fn lemma_formats_fit_step(registry: Seq<MessageMeta>, index: nat)
    requires
        index < registry.len(),
    ensures
        formats_fit(registry, index) <==> format_item(registry, index as int).fits() && formats_fit(
            registry,
            index + 1,
        ),
{
    if format_item(registry, index as int).fits() && formats_fit(registry, index + 1) {
        assert forall|i: int| index <= i < registry.len() implies (#[trigger] format_item(
            registry,
            i,
        )).fits() by {
            if i > index {
                assert(index + 1 <= i);
            }
        }
    }
    if formats_fit(registry, index) {
        assert(format_item(registry, index as int).fits());
    }
}

/// What follows when the entries below `index` have their format frames.
proof fn lemma_formats_outcome<E>(s: ExportState, index: nat)
    requires
        index <= s.registry.len(),
    ensures
        drain(on_formats_written::<E>(s, index).state, on_formats_written::<E>(s, index).action)
            == after_formats::<E>(s, index),
    decreases s.registry.len() - index,
{
    let next = on_formats_written::<E>(s, index);
    if index < s.registry.len() {
        let item = format_item(s.registry, index as int);
        lemma_formats_fit_step(s.registry, index);
        if item.fits() {
            lemma_drain_write::<E>(next.state, item);
            lemma_formats_outcome::<E>(next.state, index + 1);
            assert(on_formats_written::<E>(next.state, index + 1) == on_sink::<E>(
                next.state,
                Ok(()),
            ));
            assert(after_formats::<E>(next.state, index + 1).state == after_formats::<E>(
                s,
                index,
            ).state);
        }
    }
}

/// The flag-bits frame is followed by the format frames.
proof fn lemma_flag_bits_outcome<E>(s: ExportState)
    requires
        s.awaiting is FlagBits,
    ensures
        drain(s, Action::<E>::Write(WireItem::FlagBits)) == written_before(
            WireItem::FlagBits,
            after_formats::<E>(s, 0),
        ),
{
    lemma_drain_write::<E>(s, WireItem::FlagBits);
    lemma_formats_outcome::<E>(s, 0);
    assert(on_sink::<E>(s, Ok(())) == on_formats_written::<E>(s, 0));
}

/// The file header is followed by the flag-bits frame.
proof fn lemma_header_outcome<E>(s: ExportState, header: WireItem)
    requires
        s.awaiting is Header,
    ensures
        drain(s, Action::<E>::Write(header)) == written_before(
            header,
            written_before(WireItem::FlagBits, after_formats::<E>(s, 0)),
        ),
{
    lemma_drain_write::<E>(s, header);
    assert(WireItem::FlagBits.fits());
    let next = on_sink::<E>(s, Ok(()));
    assert(next.action == Action::<E>::Write(WireItem::FlagBits));
    lemma_flag_bits_outcome::<E>(next.state);
    assert(after_formats::<E>(next.state, 0) == after_formats::<E>(s, 0));
}

/// Driving the startup with a sink that takes every write has the effect
/// that `startup_effect` states.
pub proof fn lemma_startup_outcome<E>(s: ExportState, timestamp_micros: u64)
    ensures
        startup_outcome::<E>(s, timestamp_micros) == startup_effect::<E>(s, timestamp_micros),
{
    if !s.started {
        let header = WireItem::Header { timestamp: timestamp_micros };
        let first = on_startup::<E>(s, timestamp_micros);
        lemma_header_outcome::<E>(first.state, header);
        let formats = formats_from(s.registry, 0);
        assert(seq![header] + (seq![WireItem::FlagBits] + formats) =~= seq![
            header,
            WireItem::FlagBits,
        ] + formats);
        assert(after_formats::<E>(first.state, 0).state == after_formats::<E>(s, 0).state);
    }
}

/// The startup is idempotent after success: once it has ended well, a
/// second startup writes nothing and changes nothing, whatever its time.
pub proof fn lemma_startup_idempotent<E>(s: ExportState, first_time: u64, second_time: u64)
    requires
        startup_effect::<E>(s, first_time).result is Ok,
    ensures
        startup_effect::<E>(s, first_time).state.started,
        startup_effect::<E>(startup_effect::<E>(s, first_time).state, second_time) == (Outcome::<
            E,
        > { state: startup_effect::<E>(s, first_time).state, wire: Seq::empty(), result: Ok(()) }),
{
}

/// Where the format frames from `index` on can all be written,
/// `formats_from` lists one for each of those entries, in order.
proof fn lemma_formats_listed(registry: Seq<MessageMeta>, index: nat)
    requires
        index <= registry.len(),
        formats_fit(registry, index),
    ensures
        formats_from(registry, index).len() == registry.len() - index,
        forall|i: int|
            0 <= i < registry.len() - index ==> #[trigger] formats_from(registry, index)[i]
                == format_item(registry, index + i),
    decreases registry.len() - index,
{
    if index < registry.len() {
        assert(format_item(registry, index as int).fits());
        lemma_formats_listed(registry, index + 1);
        let rest = formats_from(registry, index + 1);
        let all = formats_from(registry, index);
        assert forall|i: int| 0 <= i < registry.len() - index implies #[trigger] all[i]
            == format_item(registry, index + i) by {
            if i > 0 {
                assert(all[i] == rest[i - 1]);
            }
        }
    }
}

/// Where every format frame can be written, the startup of an exporter that
/// has not started writes the file header, the flag-bits frame and one
/// format frame for each entry of the registry, in the order of the
/// registry, and nothing else.
pub proof fn lemma_startup_wire<E>(s: ExportState, timestamp_micros: u64)
    requires
        !s.started,
        formats_fit(s.registry, 0),
    ensures
        ({
            let wire = startup_effect::<E>(s, timestamp_micros).wire;
            &&& wire.len() == 2 + s.registry.len()
            &&& wire[0] == WireItem::Header { timestamp: timestamp_micros }
            &&& wire[1] == WireItem::FlagBits
            &&& forall|i: int|
                0 <= i < s.registry.len() ==> #[trigger] wire[2 + i] == format_item(s.registry, i)
        }),
{
    lemma_formats_listed(s.registry, 0);
}

} // verus!
