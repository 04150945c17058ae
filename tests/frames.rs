use android_logd_logger::logd::log_frame_of;
use android_logd_logger::pmsg::{pmsg_packet, pmsg_packets};
use android_logd_logger::{log, Buffer, Priority, Record, Timestamp};

fn record<'a>(tag: &'a str, message: &'a str) -> Record<'a, 'a> {
    Record {
        timestamp: Timestamp { secs: 0x01020304, nanos: 0x05060708 },
        pid: 0x0304,
        thread_id: 0x0a0b,
        buffer_id: Buffer::System,
        tag,
        priority: Priority::Warn,
        message,
    }
}

#[test]
fn log_datagram_is_byte_exact() {
    let frame = log(
        Timestamp { secs: 0x01020304, nanos: 0x05060708 },
        Buffer::Main,
        Priority::Info,
        7,
        0x0a0b,
        "tag",
        "msg",
    );
    assert_eq!(
        &frame[..],
        &[0, 0x0b, 0x0a, 4, 3, 2, 1, 8, 7, 6, 5, 4, b't', b'a', b'g', 0, b'm', b's', b'g', 0]
    );
}

#[test]
fn log_seconds_keep_their_low_32_bits() {
    let frame = log(
        Timestamp { secs: 0x1_0000_0002, nanos: 0 },
        Buffer::Crash,
        Priority::Error,
        0,
        0,
        "",
        "",
    );
    assert_eq!(&frame[..], &[4, 0, 0, 2, 0, 0, 0, 0, 0, 0, 0, 6, 0, 0]);
}

#[test]
fn record_datagram_uses_the_record_fields() {
    let r = record("t", "hi");
    let frame = log_frame_of(&r);
    assert_eq!(
        &frame[..],
        &[3, 0x0b, 0x0a, 4, 3, 2, 1, 8, 7, 6, 5, 5, b't', 0, b'h', b'i', 0]
    );
}

#[test]
fn pmsg_packet_is_byte_exact() {
    let r = record("t", "ignored");
    let packet = pmsg_packet(&r, "hi");
    assert_eq!(packet.len(), 24);
    assert_eq!(
        &packet[..],
        &[
            b'l', 24, 0, 0, 0, 0x04, 0x03, 3, 0x0b, 0x0a, 4, 3, 2, 1, 8, 7, 6, 5, 5, b't', 0, b'h',
            b'i', 0
        ]
    );
}

#[test]
fn long_message_becomes_several_packets() {
    let message = "a".repeat(5000);
    let r = record("tag", &message);
    let packets = pmsg_packets(&r);
    assert_eq!(packets.len(), 2);
    assert_eq!(packets[0].len(), 7 + 11 + 1 + 4 + 4068 + 1);
    assert_eq!(packets[1].len(), 7 + 11 + 1 + 4 + 932 + 1);
    let len0 = u16::from_le_bytes([packets[0][1], packets[0][2]]) as usize;
    assert_eq!(len0, packets[0].len());
}

#[test]
fn packets_stop_at_the_sequence_ceiling() {
    let message = "b".repeat(4068 * 257);
    let r = record("t", &message);
    assert_eq!(pmsg_packets(&r).len(), 256);
}

#[test]
fn empty_message_has_no_packets() {
    let r = record("t", "");
    assert_eq!(pmsg_packets(&r).len(), 0);
}

#[test]
fn packet_length_field_is_the_packet_length() {
    let tag = "t".repeat(60000);
    let r = record(&tag, "ignored");
    let packet = pmsg_packet(&r, "hi");
    let field = u16::from_le_bytes([packet[1], packet[2]]) as usize;
    assert_eq!(packet.len(), 7 + 11 + 1 + 60000 + 1 + 2 + 1);
    assert_eq!(field, packet.len());
}
