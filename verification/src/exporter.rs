//! The exporter: it turns records into the items of the byte stream, one
//! write at a time.

use crate::effect::{lemma_record_outcome, lemma_startup_outcome, record_effect, startup_effect};
use crate::export::{ExportError, ExportStep};
use crate::machine::{
    drain, fresh, lemma_drain_write, on_formats_written, on_polled, on_record, on_sample, on_sink,
    on_startup, waiting_for, wire_bytes, writes_left, Action, Awaiting, ExportState, WireItem,
};
use crate::record::{Record, RecordMeta, RecordView};
use crate::registry::{MessageSet, Registry};
use crate::wire::{
    add_subscription_frame, append, data_frame, flag_bits_frame, format_frame, header_bytes,
    log_frame, parameter_frame, registry_entry, slot_msg_id, stream_slot, tagged_log_frame,
};
use core::marker::PhantomData;
use vstd::prelude::*;

verus! {

/// The receiving end of the queue of records.
pub trait RecordSource {
    type Rec;

    /// The next record, or nothing where the queue is empty. Never blocks.
    fn try_recv(&mut self) -> Option<Self::Rec>;
}

/// What the exporter asks of its driver.
#[derive(Debug, PartialEq, Eq)]
pub enum ExportAction<E> {
    /// Hand these bytes to the sink with one `write_all`, then tell the
    /// exporter what the sink said, with `resume`.
    Write(Vec<u8>),
    /// The operation is over, with this result.
    Done(Result<(), ExportError<E>>),
}

impl<E> ExportAction<E> {
    /// Whether this action is what `plan` asks for: the bytes of the item to
    /// write, or the same result.
    pub open spec fn carries(self, plan: Action<E>) -> bool {
        match (self, plan) {
            (ExportAction::Write(bytes), Action::Write(item)) => item.fits() && bytes@
                == item.bytes(),
            (ExportAction::Done(result), Action::Done(planned)) => result == planned,
            _ => false,
        }
    }
}

/// The write that is under way.
enum Pending<const RECORD_CAP: usize, const MAX_MULTI_IDS: usize> {
    Nothing,
    Header,
    FlagBits,
    Format { index: usize },
    Subscription { slot: usize, record: Record<RECORD_CAP, MAX_MULTI_IDS> },
    Last,
}

impl<const RECORD_CAP: usize, const MAX_MULTI_IDS: usize> View for Pending<
    RECORD_CAP,
    MAX_MULTI_IDS,
> {
    type V = Awaiting;

    closed spec fn view(&self) -> Awaiting {
        match self {
            Pending::Nothing => Awaiting::Nothing,
            Pending::Header => Awaiting::Header,
            Pending::FlagBits => Awaiting::FlagBits,
            Pending::Format { index } => Awaiting::Format { index: *index as nat },
            Pending::Subscription { slot, record } => Awaiting::Subscription {
                slot: *slot as nat,
                data: record@.bytes,
            },
            Pending::Last => Awaiting::Last,
        }
    }
}

/// What the exporter knows of the stream it writes, apart from the queue.
struct Machine<const RECORD_CAP: usize, const MAX_MULTI_IDS: usize, const MAX_STREAMS: usize> {
    registry: Registry,
    started: bool,
    subscribed: [u8; MAX_STREAMS],
    dropped_streams: u32,
    pending: Pending<RECORD_CAP, MAX_MULTI_IDS>,
}

impl<const RECORD_CAP: usize, const MAX_MULTI_IDS: usize, const MAX_STREAMS: usize> View
    for Machine<RECORD_CAP, MAX_MULTI_IDS, MAX_STREAMS> {
    type V = ExportState;

    closed spec fn view(&self) -> ExportState {
        ExportState {
            registry: self.registry@,
            max_multi_ids: MAX_MULTI_IDS as nat,
            max_streams: MAX_STREAMS as nat,
            started: self.started,
            subscribed: Set::new(
                |slot: nat| slot < MAX_STREAMS && self.subscribed@[slot as int] != 0,
            ),
            dropped_streams: self.dropped_streams as nat,
            awaiting: self.pending@,
        }
    }
}

impl<const RECORD_CAP: usize, const MAX_MULTI_IDS: usize, const MAX_STREAMS: usize> Machine<
    RECORD_CAP,
    MAX_MULTI_IDS,
    MAX_STREAMS,
> {
    #[verifier::type_invariant]
    spec fn consistent(&self) -> bool {
        match self.pending {
            Pending::Format { index } => index < self.registry@.len() <= usize::MAX,
            Pending::Subscription { slot, .. } => slot < MAX_STREAMS && slot <= 0xffff,
            _ => true,
        }
    }

    /// A machine that has written nothing yet.
    fn new(registry: Registry) -> (machine: Self)
        ensures
            machine@ == fresh(registry@, MAX_MULTI_IDS as nat, MAX_STREAMS as nat),
    {
        let machine = Machine {
            registry,
            started: false,
            subscribed: [0u8; MAX_STREAMS],
            dropped_streams: 0,
            pending: Pending::Nothing,
        };
        assert(machine@.subscribed =~= Set::<nat>::empty());
        machine
    }

    /// Begins the startup with the file header, unless it is written
    /// already.
    fn emit_startup<E>(&mut self, timestamp_micros: u64) -> (action: ExportAction<E>)
        ensures
            final(self)@ == on_startup::<E>(old(self)@, timestamp_micros).state,
            action.carries(on_startup::<E>(old(self)@, timestamp_micros).action),
    {
        if self.started {
            return ExportAction::Done(Ok(()));
        }
        self.pending = Pending::Header;
        ExportAction::Write(header_bytes(timestamp_micros))
    }

    /// Asks for `frame` as the last write of a record, or gives up with the
    /// error in its place.
    fn send_last<E>(&mut self, frame: Result<Vec<u8>, ExportError<E>>) -> (action: ExportAction<E>)
        ensures
            frame is Ok ==> final(self)@ == waiting_for(old(self)@, Awaiting::Last),
            frame is Err ==> final(self)@ == waiting_for(old(self)@, Awaiting::Nothing),
            action == (match frame {
                Ok(bytes) => ExportAction::<E>::Write(bytes),
                Err(e) => ExportAction::<E>::Done(Err(e)),
            }),
    {
        match frame {
            Ok(bytes) => {
                self.pending = Pending::Last;
                ExportAction::Write(bytes)
            },
            Err(e) => {
                self.pending = Pending::Nothing;
                ExportAction::Done(Err(e))
            },
        }
    }

    /// Ends the operation under way with `result`.
    fn end<E>(&mut self, result: Result<(), ExportError<E>>) -> (action: ExportAction<E>)
        ensures
            final(self)@ == waiting_for(old(self)@, Awaiting::Nothing),
            action == ExportAction::<E>::Done(result),
    {
        self.pending = Pending::Nothing;
        ExportAction::Done(result)
    }

    /// Begins the sample of `record`: validates instance and topic, finds
    /// the slot, and asks for the subscription frame where the slot has none
    /// yet, else for the data frame.
    fn write_sample<E>(
        &mut self,
        topic_index: u16,
        instance: u8,
        record: Record<RECORD_CAP, MAX_MULTI_IDS>,
    ) -> (action: ExportAction<E>)
        ensures
            final(self)@ == on_sample::<E>(old(self)@, topic_index, instance, record@.bytes).state,
            action.carries(on_sample::<E>(old(self)@, topic_index, instance, record@.bytes).action),
    {
        proof {
            use_type_invariant(&*self);
        }
        let topic: usize = topic_index as usize;
        if instance as usize >= MAX_MULTI_IDS {
            return self.end(Err(ExportError::InvalidMultiId));
        }
        let meta = match registry_entry::<E>(&self.registry, topic) {
            Ok(meta) => meta,
            Err(_) => {
                return self.end(Err(ExportError::InvalidTopicIndex));
            },
        };
        let slot = match stream_slot::<MAX_MULTI_IDS>(topic, instance as usize) {
            Some(slot) => slot,
            None => MAX_STREAMS,
        };
        if slot >= MAX_STREAMS {
            self.dropped_streams = self.dropped_streams.saturating_add(1);
            return self.end(Ok(()));
        }
        let msg_id = match slot_msg_id::<E>(slot) {
            Ok(msg_id) => msg_id,
            Err(_) => {
                return self.end(Err(ExportError::TooManyStreams));
            },
        };
        if self.subscribed[slot] != 0 {
            let frame = data_frame(msg_id, record.bytes());
            self.send_last(frame)
        } else {
            match add_subscription_frame::<E>(instance, msg_id, meta.name) {
                Ok(bytes) => {
                    self.pending = Pending::Subscription { slot, record };
                    ExportAction::Write(bytes)
                },
                Err(_) => self.end(Err(ExportError::MessageTooLarge)),
            }
        }
    }

    /// Begins the writing of `record` with the first item that it puts on
    /// the wire.
    fn write_record<E>(&mut self, record: Record<RECORD_CAP, MAX_MULTI_IDS>) -> (action:
        ExportAction<E>)
        ensures
            final(self)@ == on_record::<E>(old(self)@, record@).state,
            action.carries(on_record::<E>(old(self)@, record@).action),
    {
        match record.meta() {
            RecordMeta::LoggedString { level, tag, ts } => {
                let frame = match tag {
                    Some(tag) => tagged_log_frame(level.as_u8(), tag, ts, record.bytes()),
                    None => log_frame(level.as_u8(), ts, record.bytes()),
                };
                self.send_last(frame)
            },
            RecordMeta::Data { topic_index, instance, ts: _ } => self.write_sample(
                topic_index,
                instance,
                record,
            ),
            RecordMeta::Parameter { value } => {
                let raw = value.to_le_bytes();
                let frame = parameter_frame(record.bytes(), raw.as_slice());
                self.send_last(frame)
            },
        }
    }

    /// Goes on with the startup when the entries below `index` have their
    /// format frames.
    fn next_format<E>(&mut self, index: usize) -> (action: ExportAction<E>)
        requires
            index <= old(self)@.registry.len(),
        ensures
            final(self)@ == on_formats_written::<E>(old(self)@, index as nat).state,
            action.carries(on_formats_written::<E>(old(self)@, index as nat).action),
    {
        proof {
            use_type_invariant(&*self);
        }
        let entries = self.registry.entries();
        if index < entries.len() {
            match format_frame::<E>(entries[index].name, entries[index].format) {
                Ok(bytes) => {
                    self.pending = Pending::Format { index };
                    ExportAction::Write(bytes)
                },
                Err(_) => self.end(Err(ExportError::MessageTooLarge)),
            }
        } else {
            self.started = true;
            self.end(Ok(()))
        }
    }

    /// The data frame that follows the subscription under way, with its
    /// slot.
    fn sample_after_subscription<E>(&self) -> (next: Option<
        (usize, Result<Vec<u8>, ExportError<E>>),
    >)
        ensures
            next is Some <==> self@.awaiting is Subscription,
            next is Some ==> follows_subscription(self@, next->0, MAX_STREAMS as nat),
    {
        proof {
            use_type_invariant(self);
        }
        match &self.pending {
            Pending::Subscription { slot, record } => Some(
                (*slot, data_frame::<E>(*slot as u16, record.bytes())),
            ),
            _ => None,
        }
    }

    /// Goes on after the answer of the sink to the write under way.
    fn resume<E>(&mut self, written: Result<(), E>) -> (action: ExportAction<E>)
        ensures
            final(self)@ == on_sink::<E>(old(self)@, written).state,
            action.carries(on_sink::<E>(old(self)@, written).action),
    {
        proof {
            use_type_invariant(&*self);
        }
        if let Err(e) = written {
            return self.end(Err(ExportError::Write(e)));
        }
        if let Some((slot, frame)) = self.sample_after_subscription::<E>() {
            let ghost before = self@.subscribed;
            self.subscribed[slot] = 1;
            assert(self@.subscribed =~= before.insert(slot as nat));
            return match frame {
                Ok(bytes) => self.send_last(Ok(bytes)),
                Err(_) => self.end(Err(ExportError::MessageTooLarge)),
            };
        }
        match self.pending {
            Pending::Header => {
                self.pending = Pending::FlagBits;
                ExportAction::Write(flag_bits_frame())
            },
            Pending::FlagBits => self.next_format(0),
            Pending::Format { index } => self.next_format(index + 1),
            _ => self.end(Ok(())),
        }
    }
}

/// Whether `next` is the slot of the subscription under way in `s` and the
/// data frame that follows it, or the error where that frame cannot be
/// written.
spec fn follows_subscription<E>(
    s: ExportState,
    next: (usize, Result<Vec<u8>, ExportError<E>>),
    max_streams: nat,
) -> bool {
    let (slot, frame) = next;
    let item = WireItem::Data { msg_id: slot as u16, data: s.awaiting->Subscription_data };
    &&& slot == s.awaiting->Subscription_slot
    &&& slot < max_streams
    &&& frame is Ok <==> item.fits()
    &&& frame is Ok ==> frame->Ok_0@ == item.bytes()
    &&& frame is Err ==> frame->Err_0 is MessageTooLarge
}

/// What a poll brought, as a mathematical value.
pub open spec fn seen<const RECORD_CAP: usize, const MAX_MULTI_IDS: usize>(
    taken: Option<Record<RECORD_CAP, MAX_MULTI_IDS>>,
) -> Option<RecordView> {
    match taken {
        None => None,
        Some(record) => Some(record@),
    }
}

/// The exporter of the message set `R`, fed by the queue `Rx`, for records
/// of at most `RECORD_CAP` bytes, `MAX_MULTI_IDS` instances of each topic and
/// `MAX_STREAMS` subscription slots.
pub struct ULogExporter<
    Rx,
    R: MessageSet,
    const RECORD_CAP: usize,
    const MAX_MULTI_IDS: usize,
    const MAX_STREAMS: usize,
> {
    rx: Rx,
    machine: Machine<RECORD_CAP, MAX_MULTI_IDS, MAX_STREAMS>,
    _messages: PhantomData<R>,
}

impl<
    Rx,
    R: MessageSet,
    const RECORD_CAP: usize,
    const MAX_MULTI_IDS: usize,
    const MAX_STREAMS: usize,
> View for ULogExporter<Rx, R, RECORD_CAP, MAX_MULTI_IDS, MAX_STREAMS> {
    type V = ExportState;

    closed spec fn view(&self) -> ExportState {
        self.machine@
    }
}

impl<
    Rx,
    R: MessageSet,
    const RECORD_CAP: usize,
    const MAX_MULTI_IDS: usize,
    const MAX_STREAMS: usize,
> ULogExporter<Rx, R, RECORD_CAP, MAX_MULTI_IDS, MAX_STREAMS> {
    /// The queue that the exporter drains.
    pub closed spec fn queue(&self) -> Rx {
        self.rx
    }

    /// An exporter that has written nothing yet, over the table that the
    /// message set gives and with the limits of its type.
    pub fn new(rx: Rx) -> (exporter: Self)
        ensures
            exporter.queue() == rx,
            exporter@ == fresh(exporter@.registry, MAX_MULTI_IDS as nat, MAX_STREAMS as nat),
    {
        Self::with_registry(rx, R::registry())
    }

    /// An exporter that has written nothing yet, over the table `registry`
    /// and with the limits of its type.
    pub fn with_registry(rx: Rx, registry: Registry) -> (exporter: Self)
        ensures
            exporter.queue() == rx,
            exporter@ == fresh(registry@, MAX_MULTI_IDS as nat, MAX_STREAMS as nat),
    {
        ULogExporter { rx, machine: Machine::new(registry), _messages: PhantomData }
    }

    /// The queue, for a driver that takes the records from it itself.
    pub fn queue_mut(&mut self) -> (rx: &mut Rx)
        ensures
            *rx == old(self).queue(),
            *final(rx) == final(self).queue(),
            final(self)@ == old(self)@,
    {
        &mut self.rx
    }

    /// The table of message types that the exporter writes by.
    pub fn registry(&self) -> (registry: Registry)
        ensures
            registry@ == self@.registry,
    {
        self.machine.registry
    }

    /// Whether the startup has been written.
    pub fn is_started(&self) -> (started: bool)
        ensures
            started == self@.started,
    {
        self.machine.started
    }

    /// How many samples were dropped because their slot is beyond
    /// `MAX_STREAMS`.
    pub fn dropped_streams(&self) -> (count: u32)
        ensures
            count == self@.dropped_streams,
    {
        self.machine.dropped_streams
    }

    /// Begins the startup: the file header, the flag-bits frame and one
    /// format frame for each entry of the registry, in that order. Where the
    /// exporter has started already, nothing is to be written and nothing
    /// changes.
    pub fn emit_startup<E>(&mut self, timestamp_micros: u64) -> (action: ExportAction<E>)
        ensures
            final(self)@ == on_startup::<E>(old(self)@, timestamp_micros).state,
            action.carries(on_startup::<E>(old(self)@, timestamp_micros).action),
            final(self).queue() == old(self).queue(),
    {
        self.machine.emit_startup(timestamp_micros)
    }

    /// Begins the writing of `record`: asks for the first item that the
    /// record puts on the wire, or ends the matter where it puts none. An
    /// operation that was under way is given up.
    pub fn write_record<E>(&mut self, record: Record<RECORD_CAP, MAX_MULTI_IDS>) -> (action:
        ExportAction<E>)
        ensures
            final(self)@ == on_record::<E>(old(self)@, record@).state,
            action.carries(on_record::<E>(old(self)@, record@).action),
            final(self).queue() == old(self).queue(),
    {
        self.machine.write_record(record)
    }

    /// Takes the answer of the sink to the last write and says what comes
    /// next. A refusal ends the operation with the error of the sink, and
    /// the exporter keeps what it had reached: a startup that failed has not
    /// started, a subscription that was refused is not marked.
    pub fn resume<E>(&mut self, written: Result<(), E>) -> (action: ExportAction<E>)
        ensures
            final(self)@ == on_sink::<E>(old(self)@, written).state,
            action.carries(on_sink::<E>(old(self)@, written).action),
            final(self).queue() == old(self).queue(),
    {
        self.machine.resume(written)
    }

    /// Follows `action` to its end with `out` as the sink, which takes every
    /// write.
    fn settle<E>(
        &mut self,
        action: ExportAction<E>,
        out: &mut Vec<u8>,
        Ghost(plan): Ghost<Action<E>>,
    ) -> (result: Result<(), ExportError<E>>)
        requires
            action.carries(plan),
        ensures
            final(self)@ == drain(old(self)@, plan).state,
            result == drain(old(self)@, plan).result,
            final(out)@ == old(out)@ + wire_bytes(drain(old(self)@, plan).wire),
            final(self).queue() == old(self).queue(),
    {
        let ghost target = drain(self@, plan);
        let ghost start = out@;
        let ghost mut current = plan;
        let mut action = action;
        loop
            invariant
                action.carries(current),
                target == drain(old(self)@, plan),
                start == old(out)@,
                drain(self@, current).state == target.state,
                drain(self@, current).result == target.result,
                out@ + wire_bytes(drain(self@, current).wire) == start + wire_bytes(target.wire),
                self.queue() == old(self).queue(),
            decreases
                    writes_left(self@),
                    (if action is Write {
                        1nat
                    } else {
                        0nat
                    }),
        {
            match action {
                ExportAction::Done(result) => {
                    assert(out@ + wire_bytes(Seq::<WireItem>::empty()) =~= out@);
                    return result;
                },
                ExportAction::Write(bytes) => {
                    let ghost before = self@;
                    let ghost item = current->Write_0;
                    let ghost sent = out@;
                    append(out, bytes.as_slice());
                    action = self.resume(Ok(()));
                    proof {
                        let next = on_sink::<E>(before, Ok(()));
                        let rest = drain(next.state, next.action);
                        lemma_drain_write::<E>(before, item);
                        assert(sent + (item.bytes() + wire_bytes(rest.wire)) =~= (sent
                            + item.bytes()) + wire_bytes(rest.wire));
                        current = next.action;
                    }
                },
            }
        }
    }

    /// Writes the whole startup into `out`, as a driver does whose sink
    /// takes every write: the file header, the flag-bits frame and the
    /// format frames, up to the first that cannot be written.
    pub fn startup_into<E>(&mut self, timestamp_micros: u64, out: &mut Vec<u8>) -> (result: Result<
        (),
        ExportError<E>,
    >)
        ensures
            final(self)@ == startup_effect::<E>(old(self)@, timestamp_micros).state,
            result == startup_effect::<E>(old(self)@, timestamp_micros).result,
            final(out)@ == old(out)@ + wire_bytes(
                startup_effect::<E>(old(self)@, timestamp_micros).wire,
            ),
            final(self).queue() == old(self).queue(),
    {
        proof {
            lemma_startup_outcome::<E>(self@, timestamp_micros);
        }
        let ghost plan = on_startup::<E>(self@, timestamp_micros).action;
        let action = self.emit_startup(timestamp_micros);
        self.settle(action, out, Ghost(plan))
    }

    /// Writes all that `record` puts on the wire into `out`, as a driver
    /// does whose sink takes every write.
    pub fn record_into<E>(
        &mut self,
        record: Record<RECORD_CAP, MAX_MULTI_IDS>,
        out: &mut Vec<u8>,
    ) -> (result: Result<(), ExportError<E>>)
        ensures
            final(self)@ == record_effect::<E>(old(self)@, record@).state,
            result == record_effect::<E>(old(self)@, record@).result,
            final(out)@ == old(out)@ + wire_bytes(record_effect::<E>(old(self)@, record@).wire),
            final(self).queue() == old(self).queue(),
    {
        proof {
            lemma_record_outcome::<E>(self@, record@);
        }
        let ghost plan = on_record::<E>(self@, record@).action;
        let action = self.write_record(record);
        self.settle(action, out, Ghost(plan))
    }

    /// What a poll of the queue brought: without a record there is nothing
    /// to do, with one the writing of it begins.
    pub fn received<E>(&mut self, taken: Option<Record<RECORD_CAP, MAX_MULTI_IDS>>) -> (polled: (
        ExportStep,
        ExportAction<E>,
    ))
        ensures
            polled.0 == on_polled::<E>(old(self)@, seen(taken)).0,
            final(self)@ == on_polled::<E>(old(self)@, seen(taken)).1.state,
            polled.1.carries(on_polled::<E>(old(self)@, seen(taken)).1.action),
            final(self).queue() == old(self).queue(),
    {
        match taken {
            None => (ExportStep::Idle, ExportAction::Done(Ok(()))),
            Some(record) => (ExportStep::Progressed, self.machine.write_record(record)),
        }
    }
}

impl<
    Rx: RecordSource<Rec = Record<RECORD_CAP, MAX_MULTI_IDS>>,
    R: MessageSet,
    const RECORD_CAP: usize,
    const MAX_MULTI_IDS: usize,
    const MAX_STREAMS: usize,
> ULogExporter<Rx, R, RECORD_CAP, MAX_MULTI_IDS, MAX_STREAMS> {
    /// Polls the queue once. Before the startup is written the queue is not
    /// touched and there is nothing to do. Else one record is taken, if
    /// there is one, and the writing of it begins.
    pub fn poll_once<E>(&mut self) -> (polled: (ExportStep, ExportAction<E>))
        ensures
            !old(self)@.started ==> polled.0 is Idle && final(self).queue() == old(self).queue(),
            polled.0 is Idle ==> final(self)@ == old(self)@ && polled.1 == ExportAction::<E>::Done(
                Ok(()),
            ),
            polled.0 is Progressed ==> old(self)@.started && (exists|record: RecordView|
                final(self)@ == (#[trigger] on_record::<E>(old(self)@, record)).state
                    && polled.1.carries(on_record::<E>(old(self)@, record).action)),
    {
        if !self.machine.started {
            return (ExportStep::Idle, ExportAction::Done(Ok(())));
        }
        let taken = self.rx.try_recv();
        let ghost found = seen(taken);
        let ghost before = self@;
        let polled = self.received(taken);
        proof {
            if found is Some {
                assert(self@ == on_record::<E>(before, found->0).state);
            }
        }
        polled
    }
}

} // verus!
