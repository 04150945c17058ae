use android_logd_logger::logger::{compose_message, deliver, resolve_tag, TagMode};
use android_logd_logger::{Buffer, Priority, Record, Timestamp};

#[test]
fn tag_modes() {
    let target = "crate::module::sub";
    assert_eq!(resolve_tag(&TagMode::Target, target), target);
    assert_eq!(resolve_tag(&TagMode::TargetStrip, target), "crate");
    assert_eq!(resolve_tag(&TagMode::TargetStrip, "plain"), "plain");
    assert_eq!(resolve_tag(&TagMode::TargetStrip, "a:b::c"), "a:b");
    assert_eq!(resolve_tag(&TagMode::TargetStrip, "x:"), "x:");
    assert_eq!(resolve_tag(&TagMode::TargetStrip, ""), "");
    assert_eq!(resolve_tag(&TagMode::Custom("foo".to_string()), target), "foo");
    assert!(matches!(TagMode::default(), TagMode::TargetStrip));
}

#[test]
fn message_with_and_without_module() {
    assert_eq!(compose_message(Some("m::n"), true, "hello".to_string()), "m::n: hello");
    assert_eq!(compose_message(Some("m::n"), false, "hello".to_string()), "hello");
    assert_eq!(compose_message(None, true, "hello".to_string()), "hello");
}

#[test]
fn delivery_follows_the_pstore_switch() {
    let message = "line\n".repeat(1000);
    let record = Record {
        timestamp: Timestamp { secs: 1, nanos: 2 },
        pid: 3,
        thread_id: 4,
        buffer_id: Buffer::Main,
        tag: "tag",
        priority: Priority::Debug,
        message: &message,
    };
    let with = deliver(&record, true);
    assert_eq!(with.datagram.len(), 12 + 4 + message.len() + 1);
    assert_eq!(with.pstore_packets.len(), 2);
    // The first piece ends after the last newline within the payload limit.
    assert_eq!(with.pstore_packets[0].len(), 7 + 11 + 1 + 4 + 4065 + 1);
    let without = deliver(&record, false);
    assert_eq!(&without.datagram[..], &with.datagram[..]);
    assert!(without.pstore_packets.is_empty());
}
