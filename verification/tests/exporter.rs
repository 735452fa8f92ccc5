use std::convert::Infallible;

use uf_ulog::{
    ExportAction, ExportError, ExportStep, LogLevel, MessageMeta, MessageSet, ParameterValue,
    Record, RecordSource, Registry, ULogExporter, DEFAULT_MAX_MULTI_IDS,
};

const CAP: usize = 32;
const MI: usize = 8;

struct OneRx<const C: usize, const M: usize>(Option<Record<C, M>>);

impl<const C: usize, const M: usize> RecordSource for OneRx<C, M> {
    type Rec = Record<C, M>;

    fn try_recv(&mut self) -> Option<Self::Rec> {
        self.0.take()
    }
}

struct EmptyRx;

impl RecordSource for EmptyRx {
    type Rec = Record<CAP, MI>;

    fn try_recv(&mut self) -> Option<Self::Rec> {
        None
    }
}

struct TestMessages;

impl MessageSet for TestMessages {
    fn registry() -> Registry {
        Registry::try_new(&[MessageMeta {
            name: "sample",
            format: "uint64_t timestamp;",
            wire_size: 8,
        }])
        .unwrap()
    }
}

struct TwoMessages;

impl MessageSet for TwoMessages {
    fn registry() -> Registry {
        Registry::try_new(&[
            MessageMeta {
                name: "sample",
                format: "uint64_t timestamp;",
                wire_size: 8,
            },
            MessageMeta {
                name: "gyro",
                format: "uint64_t timestamp;float x;",
                wire_size: 12,
            },
        ])
        .unwrap()
    }
}

struct EmptyMessages;

impl MessageSet for EmptyMessages {
    fn registry() -> Registry {
        Registry::try_new(&[]).unwrap()
    }
}

/// Writes what the exporter asks for into `sink` until the operation is over.
fn drive<Rx, R: MessageSet, E, const C: usize, const M: usize, const MS: usize>(
    exporter: &mut ULogExporter<Rx, R, C, M, MS>,
    sink: &mut Vec<u8>,
    mut action: ExportAction<E>,
) -> Result<(), ExportError<E>> {
    loop {
        match action {
            ExportAction::Write(bytes) => {
                sink.extend_from_slice(&bytes);
                action = exporter.resume(Ok(()));
            }
            ExportAction::Done(result) => return result,
        }
    }
}

const HEADER_AND_FLAG_BITS: usize = 16 + 3 + 40;

fn sample_frames() -> Vec<u8> {
    let mut bytes = vec![9, 0, b'A', 1, 1, 0];
    bytes.extend_from_slice(b"sample");
    bytes.extend_from_slice(&[6, 0, b'D', 1, 0, 1, 2, 3, 4]);
    bytes
}

#[test]
fn exporter_startup_and_data_subscription() {
    let mut sink = Vec::new();
    let rec = Record::new_data(0, 1, 0, &[1, 2, 3, 4]).unwrap();
    let rx = OneRx(Some(rec));
    let mut exporter = ULogExporter::<_, TestMessages, CAP, MI, 64>::new(rx);

    let action = exporter.emit_startup::<Infallible>(100);
    drive(&mut exporter, &mut sink, action).unwrap();
    let (step, action) = exporter.poll_once::<Infallible>();
    drive(&mut exporter, &mut sink, action).unwrap();
    assert_eq!(step, ExportStep::Progressed);

    let format = b"sample:uint64_t timestamp;";
    assert_eq!(sink.len(), HEADER_AND_FLAG_BITS + 3 + format.len() + 12 + 9);
    assert_eq!(sink[HEADER_AND_FLAG_BITS + 3 + format.len()..], sample_frames());
}

#[test]
fn writer_startup_and_data_subscription() {
    let mut sink = Vec::new();
    let rec = Record::new_data(0, 1, 0, &[1, 2, 3, 4]).unwrap();
    let rx = OneRx(Some(rec));
    let mut exporter = ULogExporter::<_, TestMessages, 32, 8, 64>::new(rx);

    exporter.startup_into::<Infallible>(100, &mut sink).unwrap();
    let (step, action) = exporter.poll_once::<Infallible>();
    drive(&mut exporter, &mut sink, action).unwrap();
    assert_eq!(step, ExportStep::Progressed);
}

#[test]
fn exporter_logs_string() {
    let mut sink = Vec::new();
    let rec = Record::new_log(LogLevel::Info, None, 1, b"hello");
    let rx = OneRx(Some(rec));
    let mut exporter = ULogExporter::<_, EmptyMessages, CAP, MI, 64>::new(rx);

    let action = exporter.emit_startup::<Infallible>(0);
    drive(&mut exporter, &mut sink, action).unwrap();
    let (step, action) = exporter.poll_once::<Infallible>();
    drive(&mut exporter, &mut sink, action).unwrap();
    assert_eq!(step, ExportStep::Progressed);
    assert_eq!(
        sink[HEADER_AND_FLAG_BITS..],
        [14, 0, b'L', b'6', 1, 0, 0, 0, 0, 0, 0, 0, b'h', b'e', b'l', b'l', b'o']
    );
}

#[test]
fn writer_logs_string() {
    let mut sink = Vec::new();
    let rec = Record::new_log(LogLevel::Info, None, 55, b"boot");
    let rx = OneRx(Some(rec));
    let mut exporter = ULogExporter::<_, EmptyMessages, 32, 8, 64>::new(rx);

    let action = exporter.emit_startup::<Infallible>(0);
    drive(&mut exporter, &mut sink, action).unwrap();
    let (step, action) = exporter.poll_once::<Infallible>();
    drive(&mut exporter, &mut sink, action).unwrap();
    assert_eq!(step, ExportStep::Progressed);
    assert_eq!(
        sink[HEADER_AND_FLAG_BITS..],
        [13, 0, b'L', b'6', 55, 0, 0, 0, 0, 0, 0, 0, b'b', b'o', b'o', b't']
    );
}

#[test]
fn idle_without_record() {
    let mut sink = Vec::new();
    let rx = EmptyRx;
    let mut exporter = ULogExporter::<_, EmptyMessages, 32, 8, 64>::new(rx);

    let action = exporter.emit_startup::<Infallible>(0);
    drive(&mut exporter, &mut sink, action).unwrap();
    let (step, action) = exporter.poll_once::<Infallible>();
    assert_eq!(step, ExportStep::Idle);
    assert_eq!(action, ExportAction::Done(Ok(())));
    assert_eq!(sink.len(), HEADER_AND_FLAG_BITS);
}

#[test]
fn dropped_streams_is_counted_when_streams_clamp() {
    let mut sink = Vec::new();
    let rec = Record::new_data(0, 0, 0, &[1, 2, 3, 4]).unwrap();
    let rx = OneRx(Some(rec));
    let mut exporter = ULogExporter::<_, TestMessages, CAP, MI, 0>::new(rx);

    let action = exporter.emit_startup::<Infallible>(0);
    drive(&mut exporter, &mut sink, action).unwrap();
    let written = sink.len();
    let (step, action) = exporter.poll_once::<Infallible>();
    drive(&mut exporter, &mut sink, action).unwrap();
    assert_eq!(step, ExportStep::Progressed);
    assert_eq!(exporter.dropped_streams(), 1);
    assert_eq!(sink.len(), written);
}

#[test]
fn writes_parameter_message() {
    let mut sink = Vec::new();
    let rec = Record::new_parameter(b"int32_t TEST_P", ParameterValue::I32(10)).unwrap();
    let rx = OneRx(Some(rec));
    let mut exporter = ULogExporter::<_, EmptyMessages, CAP, MI, 64>::new(rx);

    let action = exporter.emit_startup::<Infallible>(0);
    drive(&mut exporter, &mut sink, action).unwrap();
    let (step, action) = exporter.poll_once::<Infallible>();
    drive(&mut exporter, &mut sink, action).unwrap();
    assert_eq!(step, ExportStep::Progressed);
    let mut expected = vec![19, 0, b'P', 14];
    expected.extend_from_slice(b"int32_t TEST_P");
    expected.extend_from_slice(&[10, 0, 0, 0]);
    assert_eq!(sink[HEADER_AND_FLAG_BITS..], expected);
}

#[test]
fn exporter_default_max_multi_ids_accepts_instance_three() {
    let mut sink = Vec::new();
    let rec = Record::new_data(0, 3, 0, &[1, 2, 3, 4]).unwrap();
    let rx = OneRx(Some(rec));
    let mut exporter =
        ULogExporter::<_, TestMessages, CAP, DEFAULT_MAX_MULTI_IDS, 1024>::new(rx);

    let action = exporter.emit_startup::<Infallible>(0);
    drive(&mut exporter, &mut sink, action).unwrap();
    let (step, action) = exporter.poll_once::<Infallible>();
    drive(&mut exporter, &mut sink, action).unwrap();
    assert_eq!(step, ExportStep::Progressed);
}

#[test]
fn exporter_default_max_multi_ids_rejects_instance_four() {
    let mut sink = Vec::new();
    let rx = OneRx::<CAP, MI>(None);
    let mut exporter =
        ULogExporter::<_, TestMessages, CAP, DEFAULT_MAX_MULTI_IDS, 1024>::new(rx);
    let rec = Record::new_data(0, 4, 0, &[1, 2, 3, 4]).unwrap();

    let action = exporter.write_record::<Infallible>(rec);
    assert_eq!(
        drive(&mut exporter, &mut sink, action),
        Err(ExportError::InvalidMultiId)
    );
    assert!(sink.is_empty());
}

#[test]
fn log_record_wire_bytes_match() {
    let mut sink = Vec::new();
    let rx = OneRx::<CAP, MI>(None);
    let mut exporter = ULogExporter::<_, EmptyMessages, CAP, MI, 64>::new(rx);
    let rec = Record::new_log(LogLevel::Info, None, 0x0102_0304_0506_0708, b"hi");

    let action = exporter.write_record::<Infallible>(rec);
    drive(&mut exporter, &mut sink, action).unwrap();
    assert_eq!(
        sink,
        [11, 0, b'L', b'6', 8, 7, 6, 5, 4, 3, 2, 1, b'h', b'i']
    );
}

#[test]
fn parameter_record_wire_bytes_match() {
    let mut sink = Vec::new();
    let rx = OneRx::<CAP, MI>(None);
    let mut exporter = ULogExporter::<_, EmptyMessages, CAP, MI, 64>::new(rx);
    let rec = Record::new_parameter(b"k", ParameterValue::I32(1)).unwrap();

    let action = exporter.write_record::<Infallible>(rec);
    drive(&mut exporter, &mut sink, action).unwrap();
    assert_eq!(sink, [6, 0, b'P', 1, b'k', 1, 0, 0, 0]);
}

#[test]
fn tagged_log_and_float_parameter_wire_bytes() {
    let mut sink = Vec::new();
    let mut exporter = ULogExporter::<_, EmptyMessages, CAP, MI, 64>::new(EmptyRx);
    let rec = Record::new_log(LogLevel::Emerg, Some(0x0a0b), 0x0102_0304_0506_0708, b"hi");
    exporter.record_into::<Infallible>(rec, &mut sink).unwrap();
    assert_eq!(
        sink,
        [13, 0, b'C', b'0', 0x0b, 0x0a, 8, 7, 6, 5, 4, 3, 2, 1, b'h', b'i']
    );

    sink.clear();
    let rec = Record::new_parameter(b"float I", ParameterValue::F32(1.0f32.to_bits())).unwrap();
    exporter.record_into::<Infallible>(rec, &mut sink).unwrap();
    let mut expected = vec![12, 0, b'P', 7];
    expected.extend_from_slice(b"float I");
    expected.extend_from_slice(&1.0f32.to_le_bytes());
    assert_eq!(sink, expected);

    sink.clear();
    let rec = Record::new_parameter(b"int32_t N", ParameterValue::I32(-2)).unwrap();
    exporter.record_into::<Infallible>(rec, &mut sink).unwrap();
    assert_eq!(sink[sink.len() - 4..], [0xfe, 0xff, 0xff, 0xff]);
}

#[test]
fn first_data_frame_synthesizes_subscription() {
    let mut sink = Vec::new();
    let mut exporter = ULogExporter::<_, TestMessages, CAP, MI, 64>::new(EmptyRx);
    let rec = Record::new_data(0, 1, 0, &[1, 2, 3, 4]).unwrap();
    exporter.record_into::<Infallible>(rec, &mut sink).unwrap();
    assert_eq!(sink, sample_frames());
}

#[test]
fn later_data_frames_have_no_subscription() {
    let mut sink = Vec::new();
    let mut exporter = ULogExporter::<_, TwoMessages, CAP, MI, 64>::new(EmptyRx);
    let first = Record::<CAP, MI>::new_data(1, 2, 0, &[1]).unwrap();
    exporter.record_into::<Infallible>(first.clone(), &mut sink).unwrap();
    // The slot of instance 2 of topic 1 is 1 * 8 + 2.
    assert_eq!(
        sink,
        [7, 0, b'A', 2, 10, 0, b'g', b'y', b'r', b'o', 3, 0, b'D', 10, 0, 1]
    );

    sink.clear();
    exporter.record_into::<Infallible>(first, &mut sink).unwrap();
    assert_eq!(sink, [3, 0, b'D', 10, 0, 1]);

    // Another instance of the topic has a slot and a subscription of its own.
    sink.clear();
    let other = Record::<CAP, MI>::new_data(1, 3, 0, &[]).unwrap();
    exporter.record_into::<Infallible>(other, &mut sink).unwrap();
    assert_eq!(
        sink,
        [7, 0, b'A', 3, 11, 0, b'g', b'y', b'r', b'o', 2, 0, b'D', 11, 0]
    );
}

#[test]
fn slot_budget_overflow_drops_silently() {
    let mut sink = Vec::new();
    // Eight slots: topic 0 has them all, topic 1 has none.
    let mut exporter = ULogExporter::<_, TwoMessages, CAP, MI, 8>::new(EmptyRx);
    let fits = Record::<CAP, MI>::new_data(0, 7, 0, &[1]).unwrap();
    exporter.record_into::<Infallible>(fits, &mut sink).unwrap();
    assert_eq!(exporter.dropped_streams(), 0);
    let written = sink.len();
    assert!(written > 0);

    for expected in 1..=3 {
        let beyond = Record::<CAP, MI>::new_data(1, 0, 0, &[1]).unwrap();
        assert_eq!(exporter.record_into::<Infallible>(beyond, &mut sink), Ok(()));
        assert_eq!(exporter.dropped_streams(), expected);
    }
    assert_eq!(sink.len(), written);
}

#[test]
fn startup_emits_one_format_frame_per_entry() {
    let mut sink = Vec::new();
    let mut exporter = ULogExporter::<_, TwoMessages, CAP, MI, 64>::new(EmptyRx);
    assert!(!exporter.is_started());
    exporter.startup_into::<Infallible>(0, &mut sink).unwrap();
    assert!(exporter.is_started());

    let mut expected = vec![0x55, 0x4c, 0x6f, 0x67, 0x01, 0x12, 0x35, 0x01];
    expected.extend_from_slice(&[0; 8]);
    expected.extend_from_slice(&[40, 0, b'B']);
    expected.extend_from_slice(&[0; 40]);
    expected.extend_from_slice(&[26, 0, b'F']);
    expected.extend_from_slice(b"sample:uint64_t timestamp;");
    expected.extend_from_slice(&[32, 0, b'F']);
    expected.extend_from_slice(b"gyro:uint64_t timestamp;float x;");
    assert_eq!(sink, expected);
}

#[test]
fn startup_header_holds_the_time() {
    let mut sink = Vec::new();
    let mut exporter = ULogExporter::<_, EmptyMessages, CAP, MI, 64>::new(EmptyRx);
    exporter
        .startup_into::<Infallible>(0x0102_0304_0506_0708, &mut sink)
        .unwrap();
    assert_eq!(
        sink[..16],
        [0x55, 0x4c, 0x6f, 0x67, 0x01, 0x12, 0x35, 0x01, 8, 7, 6, 5, 4, 3, 2, 1]
    );
    assert_eq!(sink.len(), HEADER_AND_FLAG_BITS);
}

#[test]
fn startup_is_written_once() {
    let mut sink = Vec::new();
    let mut exporter = ULogExporter::<_, TwoMessages, CAP, MI, 64>::new(EmptyRx);
    exporter.startup_into::<Infallible>(5, &mut sink).unwrap();
    let written = sink.len();

    assert_eq!(
        exporter.emit_startup::<Infallible>(6),
        ExportAction::Done(Ok(()))
    );
    assert_eq!(exporter.startup_into::<Infallible>(7, &mut sink), Ok(()));
    assert_eq!(sink.len(), written);
    assert!(exporter.is_started());
}

#[test]
fn poll_before_startup_leaves_the_queue_alone() {
    let rec = Record::new_log(LogLevel::Info, None, 1, b"hello");
    let mut exporter = ULogExporter::<_, EmptyMessages, CAP, MI, 64>::new(OneRx(Some(rec)));
    let (step, action) = exporter.poll_once::<Infallible>();
    assert_eq!(step, ExportStep::Idle);
    assert_eq!(action, ExportAction::Done(Ok(())));
    assert!(exporter.queue_mut().0.is_some());

    let mut sink = Vec::new();
    exporter.startup_into::<Infallible>(0, &mut sink).unwrap();
    let (step, _) = exporter.poll_once::<Infallible>();
    assert_eq!(step, ExportStep::Progressed);
    assert!(exporter.queue_mut().0.is_none());
}

#[test]
fn received_record_is_written() {
    let mut exporter = ULogExporter::<_, EmptyMessages, CAP, MI, 64>::new(EmptyRx);
    assert_eq!(
        exporter.received::<Infallible>(None),
        (ExportStep::Idle, ExportAction::Done(Ok(())))
    );
    let rec = Record::new_log(LogLevel::Debug, None, 0, b"");
    let (step, action) = exporter.received::<Infallible>(Some(rec));
    assert_eq!(step, ExportStep::Progressed);
    assert_eq!(
        action,
        ExportAction::Write(vec![9, 0, b'L', b'7', 0, 0, 0, 0, 0, 0, 0, 0])
    );
    assert_eq!(exporter.resume::<Infallible>(Ok(())), ExportAction::Done(Ok(())));
}

#[test]
fn unknown_topic_is_an_error() {
    let mut sink = Vec::new();
    let mut exporter = ULogExporter::<_, TestMessages, CAP, MI, 64>::new(EmptyRx);
    let rec = Record::new_data(1, 0, 0, &[1]).unwrap();
    assert_eq!(
        exporter.record_into::<Infallible>(rec, &mut sink),
        Err(ExportError::InvalidTopicIndex)
    );
    // The instance is judged before the topic.
    let rec = Record::new_data(1, 8, 0, &[1]).unwrap();
    assert_eq!(
        exporter.record_into::<Infallible>(rec, &mut sink),
        Err(ExportError::InvalidMultiId)
    );
    let rec = Record::new_data(0, 7, 0, &[1]).unwrap();
    assert_eq!(exporter.record_into::<Infallible>(rec, &mut sink), Ok(()));
    assert_eq!(exporter.dropped_streams(), 0);
}

struct ManyMessages;

impl MessageSet for ManyMessages {
    fn registry() -> Registry {
        let entries: Vec<MessageMeta> = (0..400)
            .map(|i| MessageMeta {
                name: Box::leak(format!("t{i}").into_boxed_str()),
                format: "uint64_t timestamp;",
                wire_size: 8,
            })
            .collect();
        Registry::try_new(Box::leak(entries.into_boxed_slice())).unwrap()
    }
}

#[test]
fn slot_beyond_message_ids_is_an_error() {
    let mut sink = Vec::new();
    let mut exporter = ULogExporter::<_, ManyMessages, 8, 200, 80_000>::new(OneRx::<8, 200>(None));
    // 327 * 200 + 135 is the last slot that fits a message id.
    let last = Record::<8, 200>::new_data(327, 135, 0, &[1]).unwrap();
    assert_eq!(exporter.record_into::<Infallible>(last, &mut sink), Ok(()));
    assert_eq!(sink[..6], [7, 0, b'A', 135, 0xff, 0xff]);
    let written = sink.len();

    let beyond = Record::<8, 200>::new_data(327, 136, 0, &[1]).unwrap();
    assert_eq!(
        exporter.record_into::<Infallible>(beyond, &mut sink),
        Err(ExportError::TooManyStreams)
    );
    assert_eq!(sink.len(), written);
    assert_eq!(exporter.dropped_streams(), 0);
}

#[test]
fn payload_beyond_the_size_field_is_an_error() {
    const BIG: usize = 70_000;
    let mut sink = Vec::new();
    let mut exporter = ULogExporter::<_, TestMessages, BIG, MI, 64>::new(OneRx::<BIG, MI>(None));

    let text = vec![b'x'; 65_527];
    let rec = Record::<BIG, MI>::new_log(LogLevel::Info, None, 0, &text);
    assert_eq!(
        exporter.record_into::<Infallible>(rec, &mut sink),
        Err(ExportError::MessageTooLarge)
    );
    assert!(sink.is_empty());

    let rec = Record::<BIG, MI>::new_log(LogLevel::Info, None, 0, &text[..65_526]);
    assert_eq!(exporter.record_into::<Infallible>(rec, &mut sink), Ok(()));
    assert_eq!(sink.len(), 3 + 65_535);
    assert_eq!(sink[..3], [0xff, 0xff, b'L']);

    sink.clear();
    let rec = Record::<BIG, MI>::new_log(LogLevel::Info, Some(1), 0, &text[..65_525]);
    assert_eq!(
        exporter.record_into::<Infallible>(rec, &mut sink),
        Err(ExportError::MessageTooLarge)
    );
    assert!(sink.is_empty());
}

#[test]
fn oversized_sample_follows_its_subscription() {
    const BIG: usize = 70_000;
    let mut sink = Vec::new();
    let mut exporter = ULogExporter::<_, TestMessages, BIG, MI, 64>::new(OneRx::<BIG, MI>(None));

    let payload = vec![7u8; 65_534];
    let rec = Record::<BIG, MI>::new_data(0, 0, 0, &payload).unwrap();
    assert_eq!(
        exporter.record_into::<Infallible>(rec, &mut sink),
        Err(ExportError::MessageTooLarge)
    );
    // The subscription frame was written and the slot is marked.
    assert_eq!(sink, [9, 0, b'A', 0, 0, 0, b's', b'a', b'm', b'p', b'l', b'e']);

    sink.clear();
    let rec = Record::<BIG, MI>::new_data(0, 0, 0, &payload[..65_533]).unwrap();
    assert_eq!(exporter.record_into::<Infallible>(rec, &mut sink), Ok(()));
    assert_eq!(sink.len(), 3 + 65_535);
    assert_eq!(sink[..5], [0xff, 0xff, b'D', 0, 0]);
}

struct HugeFormat;

impl MessageSet for HugeFormat {
    fn registry() -> Registry {
        let entries = vec![
            MessageMeta {
                name: "small",
                format: "uint64_t timestamp;",
                wire_size: 8,
            },
            MessageMeta {
                name: "huge",
                format: Box::leak("x".repeat(65_531).into_boxed_str()),
                wire_size: 8,
            },
        ];
        Registry::try_new(Box::leak(entries.into_boxed_slice())).unwrap()
    }
}

#[test]
fn oversized_format_ends_the_startup() {
    let mut sink = Vec::new();
    let mut exporter = ULogExporter::<_, HugeFormat, CAP, MI, 64>::new(EmptyRx);
    assert_eq!(
        exporter.startup_into::<Infallible>(0, &mut sink),
        Err(ExportError::MessageTooLarge)
    );
    assert!(!exporter.is_started());
    // The header, the flag bits and the first format frame are on the wire.
    assert_eq!(sink.len(), HEADER_AND_FLAG_BITS + 3 + 25);
    let (step, _) = exporter.poll_once::<Infallible>();
    assert_eq!(step, ExportStep::Idle);
}

struct HugeName;

impl MessageSet for HugeName {
    fn registry() -> Registry {
        let entries = vec![MessageMeta {
            name: Box::leak("n".repeat(65_533).into_boxed_str()),
            format: "",
            wire_size: 0,
        }];
        Registry::try_new(Box::leak(entries.into_boxed_slice())).unwrap()
    }
}

#[test]
fn oversized_subscription_is_an_error() {
    let mut sink = Vec::new();
    let mut exporter = ULogExporter::<_, HugeName, CAP, MI, 64>::new(EmptyRx);
    let rec = Record::<CAP, MI>::new_data(0, 0, 0, &[1]).unwrap();
    assert_eq!(
        exporter.record_into::<Infallible>(rec.clone(), &mut sink),
        Err(ExportError::MessageTooLarge)
    );
    assert!(sink.is_empty());
    // The slot is not marked: the next sample asks for the subscription again.
    assert_eq!(
        exporter.write_record::<Infallible>(rec),
        ExportAction::Done(Err(ExportError::MessageTooLarge))
    );
}

#[test]
fn refused_header_leaves_the_exporter_unstarted() {
    let mut exporter = ULogExporter::<_, TestMessages, CAP, MI, 64>::new(EmptyRx);
    let first = exporter.emit_startup::<&str>(3);
    assert!(matches!(first, ExportAction::Write(ref bytes) if bytes.len() == 16));
    assert_eq!(
        exporter.resume(Err("sink is gone")),
        ExportAction::Done(Err(ExportError::Write("sink is gone")))
    );
    assert!(!exporter.is_started());
    // Nothing is under way any more.
    assert_eq!(exporter.resume::<&str>(Ok(())), ExportAction::Done(Ok(())));
    // A new startup begins with the header again.
    let again = exporter.emit_startup::<&str>(3);
    assert_eq!(again, first);
}

#[test]
fn refused_format_frame_leaves_the_exporter_unstarted() {
    let mut exporter = ULogExporter::<_, TwoMessages, CAP, MI, 64>::new(EmptyRx);
    let header = exporter.emit_startup::<u8>(0);
    assert!(matches!(header, ExportAction::Write(_)));
    let flag_bits = exporter.resume::<u8>(Ok(()));
    assert!(matches!(flag_bits, ExportAction::Write(ref bytes) if bytes[2] == b'B'));
    let first_format = exporter.resume::<u8>(Ok(()));
    assert!(matches!(first_format, ExportAction::Write(ref bytes) if bytes[2] == b'F'));
    let second_format = exporter.resume::<u8>(Ok(()));
    assert!(matches!(second_format, ExportAction::Write(ref bytes) if bytes[2] == b'F'));
    assert!(!exporter.is_started());
    assert_eq!(
        exporter.resume(Err(5)),
        ExportAction::Done(Err(ExportError::Write(5)))
    );
    assert!(!exporter.is_started());
}

#[test]
fn refused_subscription_is_not_marked() {
    let mut exporter = ULogExporter::<_, TestMessages, CAP, MI, 64>::new(EmptyRx);
    let rec = Record::<CAP, MI>::new_data(0, 1, 0, &[1, 2, 3, 4]).unwrap();

    let subscription = exporter.write_record::<u8>(rec.clone());
    assert!(matches!(subscription, ExportAction::Write(ref bytes) if bytes[2] == b'A'));
    assert_eq!(
        exporter.resume(Err(1)),
        ExportAction::Done(Err(ExportError::Write(1)))
    );

    // The same sample asks for the subscription again.
    assert_eq!(exporter.write_record::<u8>(rec.clone()), subscription);
    let data = exporter.resume::<u8>(Ok(()));
    assert_eq!(
        data,
        ExportAction::Write(vec![6, 0, b'D', 1, 0, 1, 2, 3, 4])
    );
    // The data frame is refused; the subscription stays marked.
    assert_eq!(
        exporter.resume(Err(2)),
        ExportAction::Done(Err(ExportError::Write(2)))
    );
    assert_eq!(exporter.write_record::<u8>(rec), data);
    assert_eq!(exporter.resume::<u8>(Ok(())), ExportAction::Done(Ok(())));
}

#[test]
fn a_new_record_gives_up_the_one_under_way() {
    let mut exporter = ULogExporter::<_, TestMessages, CAP, MI, 64>::new(EmptyRx);
    let sample = Record::<CAP, MI>::new_data(0, 1, 0, &[1]).unwrap();
    let subscription = exporter.write_record::<u8>(sample.clone());
    assert!(matches!(subscription, ExportAction::Write(_)));

    let line = Record::<CAP, MI>::new_log(LogLevel::Info, None, 0, b"x");
    assert!(matches!(exporter.write_record::<u8>(line), ExportAction::Write(_)));
    assert_eq!(exporter.resume::<u8>(Ok(())), ExportAction::Done(Ok(())));
    // The subscription was never answered, so it is asked for again.
    assert_eq!(exporter.write_record::<u8>(sample), subscription);
}

#[test]
fn exporter_knows_its_registry() {
    let exporter = ULogExporter::<_, TwoMessages, CAP, MI, 64>::new(EmptyRx);
    let registry = exporter.registry();
    assert_eq!(registry.len(), 2);
    assert_eq!(registry.get(1).unwrap().name, "gyro");
    assert_eq!(exporter.dropped_streams(), 0);
}

#[test]
fn exporter_over_a_given_registry() {
    let registry = Registry::try_new(&[MessageMeta {
        name: "other",
        format: "uint64_t timestamp;",
        wire_size: 8,
    }])
    .unwrap();
    let mut exporter =
        ULogExporter::<_, EmptyMessages, CAP, MI, 64>::with_registry(EmptyRx, registry);
    assert_eq!(exporter.registry(), registry);
    let mut sink = Vec::new();
    let rec = Record::<CAP, MI>::new_data(0, 0, 0, &[]).unwrap();
    exporter.record_into::<Infallible>(rec, &mut sink).unwrap();
    assert_eq!(
        sink,
        [8, 0, b'A', 0, 0, 0, b'o', b't', b'h', b'e', b'r', 2, 0, b'D', 0, 0]
    );
}
