use std::convert::Infallible;

use uf_ulog::le::{i16_le, i32_le, i64_le, i8_byte, u16_le, u32_le, u64_le};
use uf_ulog::wire::{
    add_subscription_frame, add_subscription_payload, checked_total_len, data_frame,
    data_payload, flag_bits_frame, format_frame, format_payload, header_bytes, log_frame,
    log_payload, message_frame, message_header, parameter_frame, parameter_payload,
    registry_entry, slot_msg_id, stream_slot, tagged_log_frame, tagged_log_payload,
    write_header, MAX_PAYLOAD_LEN, MSG_ADD_SUBSCRIPTION, MSG_DATA, MSG_FLAG_BITS, MSG_FORMAT,
    MSG_LOG, MSG_PARAMETER, MSG_TAGGED_LOG,
};
use uf_ulog::{ExportError, MessageMeta, Registry};

type Failure = ExportError<Infallible>;

#[test]
fn little_endian_bytes() {
    assert_eq!(u16_le(0x0102), [2, 1]);
    assert_eq!(u16_le(u16::MAX), [0xff, 0xff]);
    assert_eq!(u32_le(0x0102_0304), [4, 3, 2, 1]);
    assert_eq!(u32_le(0), [0; 4]);
    assert_eq!(u64_le(0x0102_0304_0506_0708), [8, 7, 6, 5, 4, 3, 2, 1]);
    assert_eq!(u64_le(u64::MAX), [0xff; 8]);
    for v in [0, 1, -1, 127, -128, i8::MAX, i8::MIN] {
        assert_eq!([i8_byte(v)], v.to_le_bytes());
    }
    for v in [0, 1, -1, 255, -256, i16::MAX, i16::MIN] {
        assert_eq!(i16_le(v), v.to_le_bytes());
    }
    for v in [0, 1, -1, 65_536, -65_537, i32::MAX, i32::MIN] {
        assert_eq!(i32_le(v), v.to_le_bytes());
    }
    for v in [0, 1, -1, 1 << 40, -(1 << 40), i64::MAX, i64::MIN] {
        assert_eq!(i64_le(v), v.to_le_bytes());
    }
    for v in [0u64, 0xff, 0x100, 0xdead_beef, 0x0123_4567_89ab_cdef] {
        assert_eq!(u64_le(v), v.to_le_bytes());
        assert_eq!(u32_le(v as u32), (v as u32).to_le_bytes());
        assert_eq!(u16_le(v as u16), (v as u16).to_le_bytes());
    }
}

#[test]
fn message_types_are_their_letters() {
    assert_eq!(MSG_FLAG_BITS, b'B');
    assert_eq!(MSG_FORMAT, b'F');
    assert_eq!(MSG_ADD_SUBSCRIPTION, b'A');
    assert_eq!(MSG_DATA, b'D');
    assert_eq!(MSG_LOG, b'L');
    assert_eq!(MSG_TAGGED_LOG, b'C');
    assert_eq!(MSG_PARAMETER, b'P');
    assert_eq!(MAX_PAYLOAD_LEN, 65_535);
}

#[test]
fn registry_entries_by_topic() {
    let registry = Registry::try_new(&[
        MessageMeta {
            name: "a",
            format: "uint64_t timestamp;",
            wire_size: 8,
        },
        MessageMeta {
            name: "b",
            format: "uint64_t timestamp;bool x;",
            wire_size: 9,
        },
    ])
    .unwrap();
    assert_eq!(registry_entry::<Infallible>(&registry, 1).unwrap().name, "b");
    assert_eq!(
        registry_entry::<Infallible>(&registry, 0).unwrap().wire_size,
        8
    );
    assert_eq!(
        registry_entry::<Infallible>(&registry, 2),
        Err(ExportError::InvalidTopicIndex)
    );
    assert_eq!(
        registry_entry::<Infallible>(&registry, usize::MAX),
        Err(ExportError::InvalidTopicIndex)
    );
}

#[test]
fn slots_and_message_ids() {
    assert_eq!(stream_slot::<8>(0, 0), Some(0));
    assert_eq!(stream_slot::<8>(3, 5), Some(29));
    assert_eq!(stream_slot::<0>(3, 5), Some(5));
    assert_eq!(stream_slot::<8>(usize::MAX / 8, 7), Some(usize::MAX));
    assert_eq!(stream_slot::<8>(usize::MAX / 8, 8), None);
    assert_eq!(stream_slot::<8>(usize::MAX / 8 + 1, 0), None);

    assert_eq!(slot_msg_id::<Infallible>(0), Ok(0));
    assert_eq!(slot_msg_id::<Infallible>(65_535), Ok(65_535));
    assert_eq!(
        slot_msg_id::<Infallible>(65_536),
        Err(ExportError::TooManyStreams)
    );
}

#[test]
fn total_lengths() {
    assert_eq!(checked_total_len::<Infallible>(3, 4, 7), Ok(7));
    assert_eq!(checked_total_len::<Infallible>(0, 0, 0), Ok(0));
    assert_eq!(
        checked_total_len::<Infallible>(3, 5, 7),
        Err(ExportError::MessageTooLarge)
    );
    assert_eq!(
        checked_total_len::<Infallible>(usize::MAX, 1, usize::MAX),
        Err(ExportError::MessageTooLarge)
    );
    assert_eq!(
        checked_total_len::<Infallible>(usize::MAX, 0, usize::MAX),
        Ok(usize::MAX)
    );
}

#[test]
fn file_header() {
    let expected = [
        0x55, 0x4c, 0x6f, 0x67, 0x01, 0x12, 0x35, 0x01, 8, 7, 6, 5, 4, 3, 2, 1,
    ];
    assert_eq!(write_header(0x0102_0304_0506_0708), expected);
    assert_eq!(header_bytes(0x0102_0304_0506_0708), expected);
    assert_eq!(write_header(0)[8..], [0; 8]);
}

#[test]
fn message_headers() {
    assert_eq!(message_header::<Infallible>(0, b'B'), Ok([0, 0, b'B']));
    assert_eq!(message_header::<Infallible>(258, b'D'), Ok([2, 1, b'D']));
    assert_eq!(
        message_header::<Infallible>(65_535, b'L'),
        Ok([0xff, 0xff, b'L'])
    );
    assert_eq!(
        message_header::<Infallible>(65_536, b'L'),
        Err(ExportError::MessageTooLarge)
    );
}

#[test]
fn format_payloads() {
    let mut payload = [0xeeu8; 512];
    let len = format_payload::<Infallible>(&mut payload, "gyro", "uint64_t timestamp;").unwrap();
    assert_eq!(len, 24);
    assert_eq!(&payload[..len], b"gyro:uint64_t timestamp;");
    assert!(payload[len..].iter().all(|b| *b == 0xee));

    let name = "n".repeat(255);
    let format = "f".repeat(256);
    assert_eq!(
        format_payload::<Infallible>(&mut payload, &name, &format),
        Ok(512)
    );
    let format = "f".repeat(257);
    let before = payload;
    assert_eq!(
        format_payload::<Infallible>(&mut payload, &name, &format),
        Err(ExportError::MessageTooLarge)
    );
    assert_eq!(payload, before);
    assert_eq!(format_payload::<Infallible>(&mut payload, "", ""), Ok(1));
    assert_eq!(payload[0], b':');
}

#[test]
fn add_subscription_payloads() {
    let mut payload = [0xeeu8; 256];
    let len = add_subscription_payload::<Infallible>(&mut payload, 1, 0x0203, "sample").unwrap();
    assert_eq!(len, 9);
    assert_eq!(payload[..len], [1, 3, 2, b's', b'a', b'm', b'p', b'l', b'e']);
    assert!(payload[len..].iter().all(|b| *b == 0xee));

    let name = "n".repeat(253);
    assert_eq!(
        add_subscription_payload::<Infallible>(&mut payload, 0, 0, &name),
        Ok(256)
    );
    let name = "n".repeat(254);
    assert_eq!(
        add_subscription_payload::<Infallible>(&mut payload, 0, 0, &name),
        Err(ExportError::MessageTooLarge)
    );
}

#[test]
fn data_payloads() {
    let mut payload = [0xeeu8; 1024];
    let len = data_payload::<Infallible>(&mut payload, 1, &[1, 2, 3, 4]).unwrap();
    assert_eq!(len, 6);
    assert_eq!(payload[..len], [1, 0, 1, 2, 3, 4]);
    assert!(payload[len..].iter().all(|b| *b == 0xee));

    let data = [5u8; 1023];
    assert_eq!(
        data_payload::<Infallible>(&mut payload, 1, &data[..1022]),
        Ok(1024)
    );
    assert_eq!(
        data_payload::<Infallible>(&mut payload, 1, &data),
        Err(ExportError::MessageTooLarge)
    );
    assert_eq!(data_payload::<Infallible>(&mut payload, 0xffff, &[]), Ok(2));
    assert_eq!(payload[..2], [0xff, 0xff]);
}

#[test]
fn log_payloads() {
    let mut payload = [0xeeu8; 512];
    let len =
        log_payload::<Infallible>(&mut payload, b'6', 0x0102_0304_0506_0708, b"hi").unwrap();
    assert_eq!(len, 11);
    assert_eq!(payload[..len], [b'6', 8, 7, 6, 5, 4, 3, 2, 1, b'h', b'i']);
    assert!(payload[len..].iter().all(|b| *b == 0xee));

    let text = [b't'; 504];
    assert_eq!(
        log_payload::<Infallible>(&mut payload, b'0', 0, &text[..503]),
        Ok(512)
    );
    assert_eq!(
        log_payload::<Infallible>(&mut payload, b'0', 0, &text),
        Err(ExportError::MessageTooLarge)
    );
}

#[test]
fn tagged_log_payloads() {
    let mut payload = [0xeeu8; 512];
    let len = tagged_log_payload::<Infallible>(
        &mut payload,
        b'3',
        0x0a0b,
        0x0102_0304_0506_0708,
        b"hi",
    )
    .unwrap();
    assert_eq!(len, 13);
    assert_eq!(
        payload[..len],
        [b'3', 0x0b, 0x0a, 8, 7, 6, 5, 4, 3, 2, 1, b'h', b'i']
    );
    assert!(payload[len..].iter().all(|b| *b == 0xee));

    let text = [b't'; 502];
    assert_eq!(
        tagged_log_payload::<Infallible>(&mut payload, b'0', 0, 0, &text[..501]),
        Ok(512)
    );
    assert_eq!(
        tagged_log_payload::<Infallible>(&mut payload, b'0', 0, 0, &text),
        Err(ExportError::MessageTooLarge)
    );
}

#[test]
fn parameter_payloads() {
    let mut payload = [0xeeu8; 512];
    let len = parameter_payload::<Infallible>(&mut payload, b"k", &[1, 0, 0, 0]).unwrap();
    assert_eq!(len, 6);
    assert_eq!(payload[..len], [1, b'k', 1, 0, 0, 0]);
    assert!(payload[len..].iter().all(|b| *b == 0xee));

    let key = [b'k'; 256];
    assert_eq!(
        parameter_payload::<Infallible>(&mut payload, &key[..255], &[0; 4]),
        Ok(260)
    );
    assert_eq!(payload[0], 255);
    assert_eq!(
        parameter_payload::<Infallible>(&mut payload, &key, &[0; 4]),
        Err(ExportError::MessageTooLarge)
    );
    let value = [0u8; 257];
    assert_eq!(
        parameter_payload::<Infallible>(&mut payload, &key[..255], &value[..256]),
        Ok(512)
    );
    assert_eq!(
        parameter_payload::<Infallible>(&mut payload, &key[..255], &value),
        Err(ExportError::MessageTooLarge)
    );
}

#[test]
fn frames_on_the_heap() {
    assert_eq!(
        message_frame::<Infallible>(b'X', &[1], &[2, 3], &[4]),
        Ok(vec![4, 0, b'X', 1, 2, 3, 4])
    );
    assert_eq!(
        message_frame::<Infallible>(b'X', &[], &[], &[]),
        Ok(vec![0, 0, b'X'])
    );
    let big = vec![0u8; 65_535];
    assert_eq!(
        message_frame::<Infallible>(b'X', &big, &[], &[]).map(|f| f.len()),
        Ok(65_538)
    );
    assert_eq!(
        message_frame::<Infallible>(b'X', &big, &[], &[1]),
        Err(ExportError::MessageTooLarge)
    );
    assert_eq!(
        message_frame::<Infallible>(b'X', &[1], &big, &[]),
        Err(ExportError::MessageTooLarge)
    );

    let mut flag_bits = vec![40, 0, b'B'];
    flag_bits.extend_from_slice(&[0; 40]);
    assert_eq!(flag_bits_frame(), flag_bits);

    let mut format = vec![24, 0, b'F'];
    format.extend_from_slice(b"gyro:uint64_t timestamp;");
    assert_eq!(
        format_frame::<Infallible>("gyro", "uint64_t timestamp;"),
        Ok(format)
    );
    assert_eq!(
        add_subscription_frame::<Infallible>(1, 1, "sample"),
        Ok(vec![9, 0, b'A', 1, 1, 0, b's', b'a', b'm', b'p', b'l', b'e'])
    );
    assert_eq!(
        data_frame::<Infallible>(1, &[1, 2, 3, 4]),
        Ok(vec![6, 0, b'D', 1, 0, 1, 2, 3, 4])
    );
    assert_eq!(
        log_frame::<Infallible>(b'6', 0x0102_0304_0506_0708, b"hi"),
        Ok(vec![11, 0, b'L', b'6', 8, 7, 6, 5, 4, 3, 2, 1, b'h', b'i'])
    );
    assert_eq!(
        tagged_log_frame::<Infallible>(b'6', 2, 0x0102_0304_0506_0708, b"hi"),
        Ok(vec![13, 0, b'C', b'6', 2, 0, 8, 7, 6, 5, 4, 3, 2, 1, b'h', b'i'])
    );
    assert_eq!(
        parameter_frame::<Infallible>(b"k", &[1, 0, 0, 0]),
        Ok(vec![6, 0, b'P', 1, b'k', 1, 0, 0, 0])
    );
    let key = [b'k'; 256];
    let too_long: Result<Vec<u8>, Failure> = parameter_frame(&key, &[0; 4]);
    assert_eq!(too_long, Err(ExportError::MessageTooLarge));
    assert!(parameter_frame::<Infallible>(&key[..255], &[0; 4]).is_ok());
    let name = "n".repeat(65_533);
    assert_eq!(
        add_subscription_frame::<Infallible>(0, 0, &name),
        Err(ExportError::MessageTooLarge)
    );
    assert!(add_subscription_frame::<Infallible>(0, 0, &name[1..]).is_ok());
    assert_eq!(
        format_frame::<Infallible>(&name, "ab"),
        Err(ExportError::MessageTooLarge)
    );
    assert!(format_frame::<Infallible>(&name, "a").is_ok());
}
