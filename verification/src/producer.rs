//! The producer: it packages what the program reports into records and hands
//! them to the queue, without ever blocking.

use crate::record::{truncated, ParameterValue, Record, RecordMeta, RecordView};
use crate::registry::{MessageMeta, MessageSet, Registry, TopicIndex};
use crate::types::{bumped, EncodeError, LogLevel, TrySendError, ULogData};
use crate::wire::put;
use core::marker::PhantomData;
use vstd::prelude::*;
use vstd::string::StringSliceAdditionalSpecFns;

verus! {

/// The sending end of the queue of records.
pub trait RecordSink {
    type Rec;

    /// Hands `record` to the queue, or says why the queue did not take it.
    /// Never blocks.
    fn try_send(&mut self, record: Self::Rec) -> Result<(), TrySendError>;
}

/// Whether a report reached the queue.
#[derive(Debug, Clone, Copy, PartialEq, Eq, Structural)]
pub enum EmitStatus {
    /// The queue took the record.
    Emitted,
    /// The report was dropped, and counted.
    Dropped,
}

/// The bytes of `"int32_t "`, the front of the key of an integer parameter.
pub open spec fn int32_key_front() -> Seq<u8> {
    seq![0x69u8, 0x6e, 0x74, 0x33, 0x32, 0x5f, 0x74, 0x20]
}

/// The bytes of `"float "`, the front of the key of a float parameter.
pub open spec fn float_key_front() -> Seq<u8> {
    seq![0x66u8, 0x6c, 0x6f, 0x61, 0x74, 0x20]
}

/// The record of a sample of `len` encoded bytes at the front of `scratch`.
pub open spec fn sample_view(
    topic_index: u16,
    instance: u8,
    ts: u64,
    scratch: Seq<u8>,
    len: usize,
) -> RecordView {
    RecordView {
        meta: RecordMeta::Data { topic_index, instance, ts },
        bytes: scratch.take(len as int),
    }
}

/// The record of a log line.
pub open spec fn log_view(
    level: LogLevel,
    tag: Option<u16>,
    ts: u64,
    msg: Seq<u8>,
    cap: nat,
) -> RecordView {
    RecordView { meta: RecordMeta::LoggedString { level, tag, ts }, bytes: truncated(msg, cap) }
}

/// The record of a parameter with the key `front` and then `name`.
pub open spec fn parameter_view(
    front: Seq<u8>,
    name: Seq<u8>,
    value: ParameterValue,
) -> RecordView {
    RecordView { meta: RecordMeta::Parameter { value }, bytes: front + name }
}

/// The record of the sample that `encode` left in `scratch`, or nothing
/// where `encode` failed or reports more bytes than a record holds.
pub fn sample_record<const RECORD_CAP: usize, const MAX_MULTI_IDS: usize>(
    topic_index: u16,
    instance: u8,
    ts: u64,
    encoded: Result<usize, EncodeError>,
    scratch: &[u8; RECORD_CAP],
) -> (made: Option<Record<RECORD_CAP, MAX_MULTI_IDS>>)
    ensures
        made is Some <==> encoded is Ok && encoded->Ok_0 <= RECORD_CAP,
        made is Some ==> made->0@ == sample_view(
            topic_index,
            instance,
            ts,
            scratch@,
            encoded->Ok_0,
        ),
{
    match encoded {
        Ok(len) => {
            if len > RECORD_CAP {
                return None;
            }
            let bytes = vstd::slice::slice_subrange(scratch.as_slice(), 0, len);
            assert(bytes@ =~= scratch@.take(len as int));
            Record::new_data(topic_index, instance, ts, bytes)
        },
        Err(_) => None,
    }
}

/// The record of the parameter whose key is `front` and then `name`, or
/// nothing where the key is longer than 255 bytes or than a record holds.
pub fn parameter_record<const RECORD_CAP: usize, const MAX_MULTI_IDS: usize>(
    front: &[u8],
    name: &str,
    value: ParameterValue,
) -> (made: Option<Record<RECORD_CAP, MAX_MULTI_IDS>>)
    ensures
        made is Some <==> front@.len() + name.spec_bytes().len() <= 255 && front@.len()
            + name.spec_bytes().len() <= RECORD_CAP,
        made is Some ==> made->0@ == parameter_view(front@, name.spec_bytes(), value),
{
    let name_bytes = name.as_bytes();
    if front.len() > 255 || name_bytes.len() > 255 - front.len() {
        return None;
    }
    let total = front.len() + name_bytes.len();
    let mut buf: [u8; 255] = [0u8; 255];
    put(&mut buf, 0, front);
    put(&mut buf, front.len(), name_bytes);
    let key = vstd::slice::slice_subrange(buf.as_slice(), 0, total);
    assert(key@ =~= front@ + name_bytes@);
    Record::new_parameter(key, value)
}

/// The producer as a mathematical value.
pub struct ProducerView {
    /// The message types, by topic index.
    pub registry: Seq<MessageMeta>,
    /// How many reports did not reach the queue; the count stops at
    /// `u32::MAX`.
    pub dropped_total: nat,
    /// The records that the queue took from this producer, oldest first.
    pub accepted: Seq<RecordView>,
    /// How many records the queue refused.
    pub refused: nat,
}

/// A producer that has reported nothing yet.
pub open spec fn unused(registry: Seq<MessageMeta>) -> ProducerView {
    ProducerView { registry, dropped_total: 0, accepted: Seq::empty(), refused: 0 }
}

/// The producer after the queue took `record`.
pub open spec fn after_accepted(p: ProducerView, record: RecordView) -> ProducerView {
    ProducerView { accepted: p.accepted.push(record), ..p }
}

/// The producer after the queue refused a record: the report is dropped and
/// counted.
pub open spec fn after_refused(p: ProducerView) -> ProducerView {
    ProducerView { dropped_total: bumped(p.dropped_total), refused: p.refused + 1, ..p }
}

/// The producer after it dropped a report without asking the queue.
pub open spec fn after_invalid(p: ProducerView) -> ProducerView {
    ProducerView { dropped_total: bumped(p.dropped_total), ..p }
}

/// Whether `after` and `status` are what handing `record` to the queue once
/// leaves behind: the record accepted, or the record refused and the report
/// dropped.
pub open spec fn handed_over(
    before: ProducerView,
    after: ProducerView,
    status: EmitStatus,
    record: RecordView,
) -> bool {
    match status {
        EmitStatus::Emitted => after == after_accepted(before, record),
        EmitStatus::Dropped => after == after_refused(before),
    }
}

/// Whether `record` is a sample of `instance` of the topic at `topic_index`
/// that fits a record of `cap` bytes.
pub open spec fn is_sample_of(
    record: RecordView,
    topic_index: u16,
    instance: u8,
    cap: nat,
) -> bool {
    &&& record.meta matches RecordMeta::Data { topic_index: t, instance: i, .. }
    &&& t == topic_index
    &&& i == instance
    &&& record.bytes.len() <= cap
}

/// Whether `after` and `status` are what the report of a sample leaves
/// behind. A sample of a topic that the registry lacks, or of an instance
/// that is not below `max_multi_ids`, is dropped without asking the queue.
/// Any other sample is dropped without asking the queue (its encoding
/// failed), or handed over as a record of that topic and instance.
pub open spec fn sample_reported(
    before: ProducerView,
    after: ProducerView,
    status: EmitStatus,
    topic_index: u16,
    instance: u8,
    cap: nat,
    max_multi_ids: nat,
) -> bool {
    if topic_index >= before.registry.len() || instance >= max_multi_ids {
        status is Dropped && after == after_invalid(before)
    } else {
        ||| status is Dropped && after == after_invalid(before)
        ||| exists|record: RecordView| #[trigger]
            handed_over(before, after, status, record) && is_sample_of(
                record,
                topic_index,
                instance,
                cap,
            )
    }
}

/// What became of one report.
pub enum Reported {
    /// The queue took the record of the report.
    Accepted(RecordView),
    /// The queue refused the record of the report.
    Refused,
    /// The report was dropped without asking the queue.
    Invalid,
}

impl Reported {
    /// The status that the report came back with.
    pub open spec fn status(self) -> EmitStatus {
        match self {
            Reported::Accepted(_) => EmitStatus::Emitted,
            _ => EmitStatus::Dropped,
        }
    }
}

/// The producer after one report.
pub open spec fn after_report(p: ProducerView, report: Reported) -> ProducerView {
    match report {
        Reported::Accepted(record) => after_accepted(p, record),
        Reported::Refused => after_refused(p),
        Reported::Invalid => after_invalid(p),
    }
}

/// The producer after the reports, in their order.
pub open spec fn after_reports(p: ProducerView, reports: Seq<Reported>) -> ProducerView
    decreases reports.len(),
{
    if reports.len() == 0 {
        p
    } else {
        after_report(after_reports(p, reports.drop_last()), reports.last())
    }
}

/// How many of the reports came back as dropped.
pub open spec fn count_dropped(reports: Seq<Reported>) -> nat
    decreases reports.len(),
{
    if reports.len() == 0 {
        0
    } else {
        count_dropped(reports.drop_last()) + if reports.last().status() is Dropped {
            1nat
        } else {
            0nat
        }
    }
}

/// The records of the reports that the queue took, in the order of the
/// reports.
pub open spec fn accepted_of(reports: Seq<Reported>) -> Seq<RecordView>
    decreases reports.len(),
{
    if reports.len() == 0 {
        Seq::empty()
    } else {
        match reports.last() {
            Reported::Accepted(record) => accepted_of(reports.drop_last()).push(record),
            _ => accepted_of(reports.drop_last()),
        }
    }
}

/// What handing a record to the queue leaves behind is the trace of one
/// report with the status that came back.
pub proof fn lemma_handed_over_is_a_report(
    before: ProducerView,
    after: ProducerView,
    status: EmitStatus,
    record: RecordView,
)
    requires
        handed_over(before, after, status, record),
    ensures
        exists|report: Reported|
            after == #[trigger] after_report(before, report) && report.status() == status,
{
    match status {
        EmitStatus::Emitted => {
            assert(after == after_report(before, Reported::Accepted(record)));
        },
        EmitStatus::Dropped => {
            assert(after == after_report(before, Reported::Refused));
        },
    }
}

/// What the report of a sample leaves behind is the trace of one report
/// with the status that came back.
pub proof fn lemma_sample_reported_is_a_report(
    before: ProducerView,
    after: ProducerView,
    status: EmitStatus,
    topic_index: u16,
    instance: u8,
    cap: nat,
    max_multi_ids: nat,
)
    requires
        sample_reported(before, after, status, topic_index, instance, cap, max_multi_ids),
    ensures
        exists|report: Reported|
            after == #[trigger] after_report(before, report) && report.status() == status,
{
    if status is Dropped && after == after_invalid(before) {
        assert(after == after_report(before, Reported::Invalid));
    } else {
        let record = choose|record: RecordView| #[trigger]
            handed_over(before, after, status, record) && is_sample_of(
                record,
                topic_index,
                instance,
                cap,
            );
        lemma_handed_over_is_a_report(before, after, status, record);
    }
}

/// The counter of dropped reports counts the reports that came back as
/// dropped, as far as a `u32` can count, and the queue holds the records of
/// the others in the order of the reports.
pub proof fn lemma_drops_are_counted(p: ProducerView, reports: Seq<Reported>)
    requires
        p.dropped_total <= u32::MAX,
    ensures
        after_reports(p, reports).registry == p.registry,
        after_reports(p, reports).dropped_total == (if p.dropped_total + count_dropped(reports)
            <= u32::MAX {
            p.dropped_total + count_dropped(reports)
        } else {
            u32::MAX as nat
        }),
        after_reports(p, reports).accepted == p.accepted + accepted_of(reports),
    decreases reports.len(),
{
    if reports.len() == 0 {
        assert(p.accepted + accepted_of(reports) =~= p.accepted);
    } else {
        lemma_drops_are_counted(p, reports.drop_last());
        let before = after_reports(p, reports.drop_last());
        let front = accepted_of(reports.drop_last());
        match reports.last() {
            Reported::Accepted(record) => {
                assert((p.accepted + front).push(record) =~= p.accepted + front.push(record));
            },
            _ => {},
        }
    }
}

/// The producer of the message set `R`, handing records of at most
/// `RECORD_CAP` bytes to the queue `Tx`, with `MAX_MULTI_IDS` instances of
/// each topic.
pub struct ULogProducer<Tx, R: MessageSet, const RECORD_CAP: usize, const MAX_MULTI_IDS: usize> {
    tx: Tx,
    registry: Registry,
    dropped_total: u32,
    accepted: Ghost<Seq<RecordView>>,
    refused: Ghost<nat>,
    _messages: PhantomData<R>,
}

impl<Tx, R: MessageSet, const RECORD_CAP: usize, const MAX_MULTI_IDS: usize> View for ULogProducer<
    Tx,
    R,
    RECORD_CAP,
    MAX_MULTI_IDS,
> {
    type V = ProducerView;

    closed spec fn view(&self) -> ProducerView {
        ProducerView {
            registry: self.registry@,
            dropped_total: self.dropped_total as nat,
            accepted: self.accepted@,
            refused: self.refused@,
        }
    }
}

impl<
    Tx: RecordSink<Rec = Record<RECORD_CAP, MAX_MULTI_IDS>>,
    R: MessageSet,
    const RECORD_CAP: usize,
    const MAX_MULTI_IDS: usize,
> ULogProducer<Tx, R, RECORD_CAP, MAX_MULTI_IDS> {
    /// A producer that has reported nothing yet, over the table that the
    /// message set gives.
    pub fn new(tx: Tx) -> (producer: Self)
        ensures
            producer@ == unused(producer@.registry),
    {
        Self::with_registry(tx, R::registry())
    }

    /// A producer that has reported nothing yet, over the table `registry`.
    pub fn with_registry(tx: Tx, registry: Registry) -> (producer: Self)
        ensures
            producer@ == unused(registry@),
    {
        ULogProducer {
            tx,
            registry,
            dropped_total: 0,
            accepted: Ghost(Seq::empty()),
            refused: Ghost(0),
            _messages: PhantomData,
        }
    }

    /// The table of message types that the producer validates topics by.
    pub fn registry(&self) -> (registry: Registry)
        ensures
            registry@ == self@.registry,
    {
        self.registry
    }

    /// Drops a report without asking the queue, and counts it.
    fn drop_one(&mut self) -> (status: EmitStatus)
        ensures
            status is Dropped,
            final(self)@ == after_invalid(old(self)@),
    {
        self.dropped_total = self.dropped_total.saturating_add(1);
        EmitStatus::Dropped
    }

    /// Takes the answer of the queue to `record`: a record that the queue
    /// took is emitted, one that it refused, full or closed, is dropped and
    /// counted.
    fn settle(
        &mut self,
        sent: Result<(), TrySendError>,
        Ghost(record): Ghost<RecordView>,
    ) -> (status: EmitStatus)
        ensures
            status is Emitted <==> sent is Ok,
            handed_over(old(self)@, final(self)@, status, record),
    {
        match sent {
            Ok(()) => {
                proof {
                    self.accepted@ = self.accepted@.push(record);
                }
                EmitStatus::Emitted
            },
            Err(_) => {
                proof {
                    self.refused@ = self.refused@ + 1;
                }
                self.dropped_total = self.dropped_total.saturating_add(1);
                EmitStatus::Dropped
            },
        }
    }

    /// Hands `record` to the queue once. A record that the queue refuses,
    /// full or closed, is dropped and counted.
    pub fn try_emit(&mut self, record: Record<RECORD_CAP, MAX_MULTI_IDS>) -> (status: EmitStatus)
        ensures
            handed_over(old(self)@, final(self)@, status, record@),
    {
        let ghost view = record@;
        let sent = self.tx.try_send(record);
        self.settle(sent, Ghost(view))
    }

    /// Reports a log line. Text beyond `RECORD_CAP` bytes is cut off. Only
    /// the queue can make the report fail.
    pub fn log(&mut self, level: LogLevel, ts: u64, msg: &str) -> (status: EmitStatus)
        ensures
            handed_over(
                old(self)@,
                final(self)@,
                status,
                log_view(level, None, ts, msg.spec_bytes(), RECORD_CAP as nat),
            ),
    {
        self.try_emit(Record::new_log(level, None, ts, msg.as_bytes()))
    }

    /// Reports a log line with a tag. Text beyond `RECORD_CAP` bytes is cut
    /// off. Only the queue can make the report fail.
    pub fn log_tagged(&mut self, level: LogLevel, tag: u16, ts: u64, msg: &str) -> (status:
        EmitStatus)
        ensures
            handed_over(
                old(self)@,
                final(self)@,
                status,
                log_view(level, Some(tag), ts, msg.spec_bytes(), RECORD_CAP as nat),
            ),
    {
        self.try_emit(Record::new_log(level, Some(tag), ts, msg.as_bytes()))
    }

    /// Reports the parameter whose key is `front` and then `name`. It is
    /// dropped without asking the queue where the key is longer than 255
    /// bytes or than a record holds; else only the queue can make the report
    /// fail.
    fn parameter(&mut self, front: &[u8], name: &str, value: ParameterValue) -> (status: EmitStatus)
        ensures
            (if front@.len() + name.spec_bytes().len() > 255 || front@.len()
                + name.spec_bytes().len() > RECORD_CAP {
                status is Dropped && final(self)@ == after_invalid(old(self)@)
            } else {
                handed_over(
                    old(self)@,
                    final(self)@,
                    status,
                    parameter_view(front@, name.spec_bytes(), value),
                )
            }),
    {
        match parameter_record::<RECORD_CAP, MAX_MULTI_IDS>(front, name, value) {
            Some(record) => self.try_emit(record),
            None => self.drop_one(),
        }
    }

    /// Reports the integer parameter `name`, under the key `"int32_t "` and
    /// then the name. It is dropped without asking the queue where the key
    /// is longer than 255 bytes or than a record holds; else only the queue
    /// can make the report fail.
    pub fn parameter_i32(&mut self, name: &str, value: i32) -> (status: EmitStatus)
        ensures
            (if 8 + name.spec_bytes().len() > 255 || 8 + name.spec_bytes().len() > RECORD_CAP {
                status is Dropped && final(self)@ == after_invalid(old(self)@)
            } else {
                handed_over(
                    old(self)@,
                    final(self)@,
                    status,
                    parameter_view(
                        int32_key_front(),
                        name.spec_bytes(),
                        ParameterValue::I32(value),
                    ),
                )
            }),
    {
        let front: [u8; 8] = [0x69, 0x6e, 0x74, 0x33, 0x32, 0x5f, 0x74, 0x20];
        assert(front@ =~= int32_key_front());
        self.parameter(front.as_slice(), name, ParameterValue::I32(value))
    }

    /// Reports the float parameter `name`, whose value has the bit pattern
    /// `bits`, under the key `"float "` and then the name. It is dropped
    /// without asking the queue where the key is longer than 255 bytes or
    /// than a record holds; else only the queue can make the report fail.
    pub fn parameter_f32_bits(&mut self, name: &str, bits: u32) -> (status: EmitStatus)
        ensures
            (if 6 + name.spec_bytes().len() > 255 || 6 + name.spec_bytes().len() > RECORD_CAP {
                status is Dropped && final(self)@ == after_invalid(old(self)@)
            } else {
                handed_over(
                    old(self)@,
                    final(self)@,
                    status,
                    parameter_view(float_key_front(), name.spec_bytes(), ParameterValue::F32(bits)),
                )
            }),
    {
        let front: [u8; 6] = [0x66, 0x6c, 0x6f, 0x61, 0x74, 0x20];
        assert(front@ =~= float_key_front());
        self.parameter(front.as_slice(), name, ParameterValue::F32(bits))
    }

    /// Reports a sample of the topic at `topic_index`, for `instance`. It is
    /// dropped where the registry has no such topic, where the instance is
    /// not below `MAX_MULTI_IDS`, and where `encode` fails or reports more
    /// bytes than a record holds. Else only the queue can make the report
    /// fail, and the record that it takes is a sample of that topic and
    /// instance.
    pub fn data_instance_with_topic<T: ULogData>(
        &mut self,
        value: &T,
        topic_index: u16,
        instance: u8,
    ) -> (status: EmitStatus)
        ensures
            sample_reported(
                old(self)@,
                final(self)@,
                status,
                topic_index,
                instance,
                RECORD_CAP as nat,
                MAX_MULTI_IDS as nat,
            ),
    {
        if topic_index as usize >= self.registry.len() {
            return self.drop_one();
        }
        if instance as usize >= MAX_MULTI_IDS {
            return self.drop_one();
        }
        let mut scratch: [u8; RECORD_CAP] = [0u8; RECORD_CAP];
        let encoded = value.encode(&mut scratch);
        if encoded.is_err() {
            return self.drop_one();
        }
        let made = sample_record::<RECORD_CAP, MAX_MULTI_IDS>(
            topic_index,
            instance,
            value.timestamp(),
            encoded,
            &scratch,
        );
        match made {
            Some(record) => {
                let ghost view = record@;
                let status = self.try_emit(record);
                assert(handed_over(old(self)@, self@, status, view));
                status
            },
            None => self.drop_one(),
        }
    }

    /// Reports a sample of the topic at `topic_index`, for the instance 0.
    pub fn data_with_topic<T: ULogData>(&mut self, value: &T, topic_index: u16) -> (status:
        EmitStatus)
        ensures
            sample_reported(
                old(self)@,
                final(self)@,
                status,
                topic_index,
                0,
                RECORD_CAP as nat,
                MAX_MULTI_IDS as nat,
            ),
    {
        self.data_instance_with_topic(value, topic_index, 0)
    }

    /// Reports a sample of the topic that `T` is bound to, for `instance`.
    pub fn data_instance<T: ULogData + TopicIndex<R>>(
        &mut self,
        value: &T,
        instance: u8,
    ) -> (status: EmitStatus)
        ensures
            sample_reported(
                old(self)@,
                final(self)@,
                status,
                T::INDEX,
                instance,
                RECORD_CAP as nat,
                MAX_MULTI_IDS as nat,
            ),
    {
        self.data_instance_with_topic(value, T::INDEX, instance)
    }

    /// Reports a sample of the topic that `T` is bound to, for the instance
    /// 0.
    pub fn data<T: ULogData + TopicIndex<R>>(&mut self, value: &T) -> (status: EmitStatus)
        ensures
            sample_reported(
                old(self)@,
                final(self)@,
                status,
                T::INDEX,
                0,
                RECORD_CAP as nat,
                MAX_MULTI_IDS as nat,
            ),
    {
        self.data_instance(value, 0)
    }

    /// How many reports did not reach the queue.
    pub fn dropped_count(&self) -> (count: u32)
        ensures
            count == self@.dropped_total,
    {
        self.dropped_total
    }
}

} // verus!
