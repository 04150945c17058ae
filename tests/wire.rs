use android_logd_logger::wire::Level;
use android_logd_logger::{Buffer, Priority};

#[test]
fn buffer_ids_follow_the_table() {
    assert_eq!(u8::from(Buffer::Main), 0);
    assert_eq!(u8::from(Buffer::Radio), 1);
    assert_eq!(u8::from(Buffer::Events), 2);
    assert_eq!(u8::from(Buffer::System), 3);
    assert_eq!(u8::from(Buffer::Crash), 4);
    assert_eq!(u8::from(Buffer::Stats), 5);
    assert_eq!(u8::from(Buffer::Security), 6);
    for n in 7..=255u8 {
        assert_eq!(Buffer::Custom(n).id(), n);
        assert!(!Buffer::Custom(n).collides_with_named());
    }
}

#[test]
fn custom_ids_of_named_buffers_are_flagged() {
    for n in 0..=6u8 {
        assert_eq!(Buffer::Custom(n).id(), n);
        assert!(Buffer::Custom(n).collides_with_named());
    }
    assert!(!Buffer::Main.collides_with_named());
}

#[test]
fn priority_bytes_and_letters() {
    let all = [
        (Priority::_Unknown, 0, 'U'),
        (Priority::_Default, 1, 'D'),
        (Priority::Verbose, 2, 'V'),
        (Priority::Debug, 3, 'D'),
        (Priority::Info, 4, 'I'),
        (Priority::Warn, 5, 'W'),
        (Priority::Error, 6, 'E'),
        (Priority::_Fatal, 7, 'F'),
        (Priority::_Silent, 8, 'S'),
    ];
    for (p, byte, letter) in all {
        assert_eq!(p.as_byte(), byte);
        assert_eq!(p.letter(), letter);
    }
}

#[test]
fn levels_map_to_priorities() {
    assert_eq!(Priority::from_level(Level::Error), Priority::Error);
    assert_eq!(Priority::from_level(Level::Warn), Priority::Warn);
    assert_eq!(Priority::from_level(Level::Info), Priority::Info);
    assert_eq!(Priority::from_level(Level::Debug), Priority::Debug);
    assert_eq!(Priority::from_level(Level::Trace), Priority::Verbose);
}
