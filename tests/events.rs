use android_logd_logger::events::{frame_event, write_event, write_event_buffer, write_event_now, Event};
use android_logd_logger::{Buffer, Error, EventValue, Timestamp, LOGGER_ENTRY_MAX_LEN};

fn size_matches_encoding(v: &EventValue) {
    assert_eq!(v.as_bytes().len(), v.serialized_size());
}

#[test]
fn encoding_length_is_serialized_size() {
    let values = vec![
        EventValue::Void,
        EventValue::Int(-5),
        EventValue::Long(1 << 40),
        EventValue::Float(123.3f32.to_bits()),
        EventValue::String("one".to_string()),
        EventValue::String("和平".to_string()),
        EventValue::List(vec![]),
        EventValue::List(vec![
            EventValue::Int(1),
            EventValue::String("one".to_string()),
            EventValue::List(vec![EventValue::Long(2), EventValue::Void]),
        ]),
    ];
    for v in &values {
        size_matches_encoding(v);
    }
    let full = EventValue::List((0..255).map(EventValue::Int).collect());
    assert_eq!(full.serialized_size(), 2 + 255 * 5);
    size_matches_encoding(&full);
}

#[test]
fn encodings_are_byte_exact() {
    assert_eq!(&EventValue::Void.as_bytes()[..], &[] as &[u8]);
    assert_eq!(&EventValue::Int(0x01020304).as_bytes()[..], &[0, 4, 3, 2, 1]);
    assert_eq!(&EventValue::Int(-2).as_bytes()[..], &[0, 0xfe, 0xff, 0xff, 0xff]);
    assert_eq!(
        &EventValue::Long(-2).as_bytes()[..],
        &[1, 0xfe, 0xff, 0xff, 0xff, 0xff, 0xff, 0xff, 0xff]
    );
    assert_eq!(&EventValue::Float(1.5f32.to_bits()).as_bytes()[..], &[4, 0, 0, 0xc0, 0x3f]);
    assert_eq!(
        &EventValue::String("ab".to_string()).as_bytes()[..],
        &[2, 2, 0, 0, 0, b'a', b'b']
    );
    assert_eq!(
        &EventValue::List(vec![EventValue::Int(1), EventValue::Void]).as_bytes()[..],
        &[3, 2, 0, 1, 0, 0, 0]
    );
}

#[test]
fn mixed_list_size() {
    let v = EventValue::List(vec![
        EventValue::Int(1),
        EventValue::String("one".to_string()),
        EventValue::Float(123.3f32.to_bits()),
    ]);
    assert_eq!(v.serialized_size(), 2 + 5 + 8 + 5);
}

#[test]
fn string_event_is_accepted() {
    let value = EventValue::String("test".to_string());
    assert_eq!(value.serialized_size(), 9);
    let event = Event { timestamp: Timestamp { secs: 10, nanos: 20 }, tag: 1, value };
    let frame = write_event(&event, 3).unwrap();
    assert_eq!(frame.len(), 24);
    assert!(frame.len() <= LOGGER_ENTRY_MAX_LEN);
    assert_eq!(
        &frame[..],
        &[2, 3, 0, 10, 0, 0, 0, 20, 0, 0, 0, 1, 0, 0, 0, 2, 4, 0, 0, 0, b't', b'e', b's', b't']
    );
}

#[test]
fn oversized_event_is_refused() {
    let at_limit = EventValue::String("x".repeat(LOGGER_ENTRY_MAX_LEN - 15 - 5));
    let event = Event { timestamp: Timestamp { secs: 0, nanos: 0 }, tag: 9, value: at_limit };
    assert!(write_event_buffer(Buffer::Stats, &event, 0).is_ok());

    let over = EventValue::String("x".repeat(LOGGER_ENTRY_MAX_LEN - 15 - 4));
    let event = Event { timestamp: Timestamp { secs: 0, nanos: 0 }, tag: 9, value: over };
    assert!(matches!(write_event_buffer(Buffer::Stats, &event, 0), Err(Error::EventSize)));
}

#[test]
fn event_frame_goes_to_its_buffer() {
    let t = Timestamp { secs: 0x1_0000_0005, nanos: 6 };
    let frame = frame_event(Buffer::Custom(42), 0x0102, t, 0x0a0b0c0d, &EventValue::Int(7)).unwrap();
    assert_eq!(
        &frame[..],
        &[42, 2, 1, 5, 0, 0, 0, 6, 0, 0, 0, 0x0d, 0x0c, 0x0b, 0x0a, 0, 7, 0, 0, 0]
    );
    let big = EventValue::String("x".repeat(5200));
    assert!(matches!(frame_event(Buffer::Events, 0, t, 1, &big), Err(Error::EventSize)));
}

#[test]
fn event_now_uses_the_events_buffer() {
    let frame = write_event_now(5, EventValue::Long(1), 9).unwrap();
    assert_eq!(frame.len(), 15 + 9);
    assert_eq!(frame[0], 2);
    assert_eq!(&frame[1..3], &[9, 0]);
    assert_eq!(&frame[11..15], &[5, 0, 0, 0]);
}

#[test]
fn oversized_event_now_is_refused() {
    let over = EventValue::String("x".repeat(6000));
    assert!(matches!(write_event_now(1, over, 0), Err(Error::EventSize)));
}

#[test]
fn conversions_into_values() {
    assert_eq!(EventValue::from("test"), EventValue::String("test".to_string()));
    assert_eq!(EventValue::text("和"), EventValue::String("和".to_string()));
    assert_eq!(EventValue::from(7i32), EventValue::Int(7));
    assert_eq!(EventValue::from(7i64), EventValue::Long(7));
    assert_eq!(EventValue::from(()), EventValue::Void);
    let list = EventValue::from(vec![EventValue::from(1i32), EventValue::from("one")]);
    assert_eq!(list.serialized_size(), 2 + 5 + 8);
}

#[test]
fn clones_are_equal() {
    let v = EventValue::List(vec![
        EventValue::Int(1),
        EventValue::List(vec![EventValue::String("a".to_string())]),
    ]);
    assert_eq!(v.clone(), v);
    let event = Event { timestamp: Timestamp { secs: 1, nanos: 2 }, tag: 3, value: v };
    assert_eq!(event.clone(), event);
}
