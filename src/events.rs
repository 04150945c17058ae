//! Structured events for the binary event buffers.
use crate::buf::{
    allocatable, buffered, freeze, frozen, le_i32, le_i64, le_u32, new_buffer, put_i32_le,
    put_i64_le, put_slice, put_u32_le, put_u8,
};
use crate::logd::{event_frame, event_frame_of};
use crate::sys::{now, since_epoch};
use crate::wire::Buffer;
use crate::{Error, Timestamp, LOGGER_ENTRY_MAX_LEN};
use bytes::{Bytes, BytesMut};
use vstd::prelude::*;
use vstd::string::StringExecFns;
use vstd::utf8::encode_utf8;

verus! {

broadcast use crate::buf::lemma_le_bytes_len;

/// Event tag.
pub type EventTag = u32;

/// Bytes of an event frame before its value: buffer id, thread id, seconds,
/// nanoseconds and event tag.
pub const EVENT_HEADER_LEN: usize = 1 + 2 + 4 + 4 + 4;

/// Event data.
#[derive(Debug, Clone, PartialEq)]
pub struct Event {
    /// When the event happened.
    pub timestamp: Timestamp,
    /// Tag.
    pub tag: EventTag,
    /// Value.
    pub value: EventValue,
}

/// Type byte of an `Int` value.
pub const EVENT_TYPE_INT: u8 = 0;

/// Type byte of a `Long` value.
pub const EVENT_TYPE_LONG: u8 = 1;

/// Type byte of a `String` value.
pub const EVENT_TYPE_STRING: u8 = 2;

/// Type byte of a `List` value.
pub const EVENT_TYPE_LIST: u8 = 3;

/// Type byte of a `Float` value.
pub const EVENT_TYPE_FLOAT: u8 = 4;

/// An event's value.
#[derive(Debug, PartialEq)]
pub enum EventValue {
    /// No value; it takes no bytes.
    Void,
    /// A 32-bit integer.
    Int(i32),
    /// A 64-bit integer.
    Long(i64),
    /// A single-precision float, held as its IEEE 754 bit pattern (`f32::to_bits`).
    Float(u32),
    /// A string.
    String(String),
    /// A list of values, not necessarily of one kind.
    List(Vec<EventValue>),
}

/// The encoding of a value: a type byte and its little-endian payload.
/// A string carries its byte length, a list its element count (modulo 256)
/// followed by the encodings of its elements.
pub open spec fn encoding(v: EventValue) -> Seq<u8>
    decreases v, 0nat,
{
    match v {
        EventValue::Void => seq![],
        EventValue::Int(n) => seq![EVENT_TYPE_INT] + le_i32(n),
        EventValue::Long(n) => seq![EVENT_TYPE_LONG] + le_i64(n),
        EventValue::Float(bits) => seq![EVENT_TYPE_FLOAT] + le_u32(bits),
        EventValue::String(s) => seq![EVENT_TYPE_STRING] + le_u32(
            (encode_utf8(s@).len() % 0x1_0000_0000) as u32,
        ) + encode_utf8(s@),
        EventValue::List(l) => seq![EVENT_TYPE_LIST, (l.len() % 256) as u8] + items_encoding(
            l,
            l.len() as int,
        ),
    }
}

/// The encodings of the first `n` elements of a list, one after another.
pub open spec fn items_encoding(l: Vec<EventValue>, n: int) -> Seq<u8>
    decreases l, n,
{
    if 0 < n <= l.len() {
        items_encoding(l, n - 1) + encoding(l[n - 1])
    } else {
        seq![]
    }
}

/// The number of bytes a value takes on the wire.
pub open spec fn wire_size(v: EventValue) -> nat
    decreases v, 0nat,
{
    match v {
        EventValue::Void => 0,
        EventValue::Int(_) | EventValue::Float(_) => 1 + 4,
        EventValue::Long(_) => 1 + 8,
        EventValue::String(s) => 1 + 4 + encode_utf8(s@).len(),
        EventValue::List(l) => 1 + 1 + items_size(l, l.len() as int),
    }
}

/// The summed wire size of the first `n` elements of a list.
pub open spec fn items_size(l: Vec<EventValue>, n: int) -> nat
    decreases l, n,
{
    if 0 < n <= l.len() {
        items_size(l, n - 1) + wire_size(l[n - 1])
    } else {
        0
    }
}

/// `n`, or `usize::MAX` where `n` does not fit.
pub open spec fn saturated(n: nat) -> nat {
    if n <= usize::MAX {
        n
    } else {
        usize::MAX as nat
    }
}

/// The size of a value is the length of its encoding, at every depth of nesting.
pub proof fn lemma_size_is_encoding_length(v: EventValue)
    ensures
        wire_size(v) == encoding(v).len(),
    decreases v, 0nat,
{
    match v {
        EventValue::List(l) => {
            lemma_items_size_is_encoding_length(l, l.len() as int);
        },
        _ => {},
    }
}

/// For every value that can be serialized at all (its bytes fit in memory,
/// as `as_bytes` requires), the serialized bytes number exactly what
/// `serialized_size` reports, whatever the nesting of lists.
pub proof fn lemma_encoded_length_is_serialized_size(v: EventValue)
    requires
        allocatable(wire_size(v)),
    ensures
        encoding(v).len() == saturated(wire_size(v)),
{
    lemma_size_is_encoding_length(v);
}

/// The summed size of list elements is the length of their joined encodings.
pub proof fn lemma_items_size_is_encoding_length(l: Vec<EventValue>, n: int)
    ensures
        items_size(l, n) == items_encoding(l, n).len(),
    decreases l, n,
{
    if 0 < n <= l.len() {
        lemma_items_size_is_encoding_length(l, n - 1);
        lemma_size_is_encoding_length(l[n - 1]);
    }
}

proof fn lemma_items_size_monotonic(l: Vec<EventValue>, i: int, n: int)
    requires
        0 <= i <= n <= l.len(),
    ensures
        items_size(l, i) <= items_size(l, n),
    decreases n - i,
{
    if i < n {
        lemma_items_size_monotonic(l, i, n - 1);
    }
}

impl Clone for EventValue {
    fn clone(&self) -> (r: Self)
        ensures
            !(*self is List) ==> r == *self,
            *self is List ==> r is List && r->List_0.len() == self->List_0.len(),
        decreases self,
    {
        match self {
            EventValue::Void => EventValue::Void,
            EventValue::Int(n) => EventValue::Int(*n),
            EventValue::Long(n) => EventValue::Long(*n),
            EventValue::Float(bits) => EventValue::Float(*bits),
            EventValue::String(s) => EventValue::String(s.clone()),
            EventValue::List(l) => {
                let mut items: Vec<EventValue> = Vec::new();
                let mut i: usize = 0;
                while i < l.len()
                    invariant
                        i <= l.len(),
                        *self == EventValue::List(*l),
                        items.len() == i,
                    decreases l.len() - i,
                {
                    proof {
                        assert(decreases_to!(*self => self->List_0));
                        assert(decreases_to!(self->List_0 => self->List_0[i as int]));
                    }
                    items.push(l[i].clone());
                    i = i + 1;
                }
                EventValue::List(items)
            },
        }
    }
}

impl EventValue {
    /// A string value holding `s`.
    pub fn text(s: &str) -> (r: Self)
        ensures
            r is String && r->String_0@ == s@,
    {
        EventValue::String(String::from_str(s))
    }

    /// The number of bytes the value takes on the wire, saturated at `usize::MAX`.
    pub fn serialized_size(&self) -> (r: usize)
        ensures
            r == saturated(wire_size(*self)),
        decreases self,
    {
        match self {
            EventValue::Void => 0,
            EventValue::Int(_) | EventValue::Float(_) => 1 + 4,
            EventValue::Long(_) => 1 + 8,
            EventValue::String(s) => {
                let n = s.as_str().as_bytes().len();
                n.saturating_add(1 + 4)
            },
            EventValue::List(l) => {
                let mut total: usize = 1 + 1;
                let mut i: usize = 0;
                while i < l.len()
                    invariant
                        i <= l.len(),
                        *self == EventValue::List(*l),
                        total == saturated(2 + items_size(*l, i as int)),
                    decreases l.len() - i,
                {
                    proof {
                        assert(decreases_to!(*self => self->List_0));
                        assert(decreases_to!(self->List_0 => self->List_0[i as int]));
                    }
                    let s = l[i].serialized_size();
                    total = total.saturating_add(s);
                    i = i + 1;
                }
                total
            },
        }
    }

    /// Appends the encoding of the value to `buf`.
    pub(crate) fn write_to(&self, buf: &mut BytesMut)
        requires
            allocatable(buffered(*old(buf)).len() + encoding(*self).len()),
        ensures
            buffered(*final(buf)) == buffered(*old(buf)) + encoding(*self),
        decreases self,
    {
        match self {
            EventValue::Void => {
                assert(buffered(*buf) == buffered(*buf) + encoding(*self));
            },
            EventValue::Int(num) => {
                put_u8(buf, EVENT_TYPE_INT);
                put_i32_le(buf, *num);
                assert(buffered(*buf) == buffered(*old(buf)) + encoding(*self));
            },
            EventValue::Long(num) => {
                put_u8(buf, EVENT_TYPE_LONG);
                put_i64_le(buf, *num);
                assert(buffered(*buf) == buffered(*old(buf)) + encoding(*self));
            },
            EventValue::Float(bits) => {
                put_u8(buf, EVENT_TYPE_FLOAT);
                put_u32_le(buf, *bits);
                assert(buffered(*buf) == buffered(*old(buf)) + encoding(*self));
            },
            EventValue::String(string) => {
                let bytes = string.as_str().as_bytes();
                let len = ((bytes.len() as u64) % 0x1_0000_0000u64) as u32;
                put_u8(buf, EVENT_TYPE_STRING);
                put_u32_le(buf, len);
                put_slice(buf, bytes);
                assert(buffered(*buf) == buffered(*old(buf)) + encoding(*self));
            },
            EventValue::List(values) => {
                put_u8(buf, EVENT_TYPE_LIST);
                put_u8(buf, ((values.len() as u64) % 256u64) as u8);
                let ghost start = buffered(*buf);
                let mut i: usize = 0;
                while i < values.len()
                    invariant
                        i <= values.len(),
                        *self == EventValue::List(*values),
                        start == buffered(*old(buf)) + seq![EVENT_TYPE_LIST, (values.len() % 256) as u8],
                        buffered(*buf) == start + items_encoding(*values, i as int),
                        allocatable(buffered(*old(buf)).len() + encoding(*self).len()),
                    decreases values.len() - i,
                {
                    proof {
                        assert(decreases_to!(*self => self->List_0));
                        assert(decreases_to!(self->List_0 => self->List_0[i as int]));
                        lemma_items_size_is_encoding_length(*values, i as int + 1);
                        lemma_items_size_is_encoding_length(*values, values.len() as int);
                        lemma_items_size_monotonic(*values, i as int + 1, values.len() as int);
                    }
                    values[i].write_to(buf);
                    i = i + 1;
                    assert(buffered(*buf) == start + items_encoding(*values, i as int));
                }
                assert(buffered(*buf) == buffered(*old(buf)) + encoding(*self));
            },
        }
    }

    /// Serializes the value into its wire form.
    pub fn as_bytes(&self) -> (r: Bytes)
        requires
            allocatable(wire_size(*self)),
        ensures
            frozen(r) == encoding(*self),
    {
        proof {
            lemma_size_is_encoding_length(*self);
        }
        let mut buf = new_buffer(self.serialized_size());
        self.write_to(&mut buf);
        assert(buffered(buf) == encoding(*self));
        freeze(buf)
    }
}

impl From<()> for EventValue {
    fn from(v: ()) -> (r: Self) {
        EventValue::Void
    }
}

impl vstd::std_specs::convert::FromSpecImpl<()> for EventValue {
    open spec fn obeys_from_spec() -> bool {
        true
    }

    open spec fn from_spec(v: ()) -> EventValue {
        EventValue::Void
    }
}

impl From<i32> for EventValue {
    fn from(v: i32) -> (r: Self) {
        EventValue::Int(v)
    }
}

impl vstd::std_specs::convert::FromSpecImpl<i32> for EventValue {
    open spec fn obeys_from_spec() -> bool {
        true
    }

    open spec fn from_spec(v: i32) -> EventValue {
        EventValue::Int(v)
    }
}

impl From<i64> for EventValue {
    fn from(v: i64) -> (r: Self) {
        EventValue::Long(v)
    }
}

impl vstd::std_specs::convert::FromSpecImpl<i64> for EventValue {
    open spec fn obeys_from_spec() -> bool {
        true
    }

    open spec fn from_spec(v: i64) -> EventValue {
        EventValue::Long(v)
    }
}

impl<'a> From<&'a str> for EventValue {
    fn from(v: &'a str) -> (r: Self) {
        EventValue::String(String::from_str(v))
    }
}

/// A `String` is not a spec value that `from_spec` could name, so the
/// conversion from `&str` makes no promise through it; `EventValue::text`
/// states what it gives.
impl<'a> vstd::std_specs::convert::FromSpecImpl<&'a str> for EventValue {
    open spec fn obeys_from_spec() -> bool {
        false
    }

    open spec fn from_spec(v: &'a str) -> EventValue {
        EventValue::Void
    }
}

impl From<Vec<EventValue>> for EventValue {
    fn from(v: Vec<EventValue>) -> (r: Self) {
        EventValue::List(v)
    }
}

impl vstd::std_specs::convert::FromSpecImpl<Vec<EventValue>> for EventValue {
    open spec fn obeys_from_spec() -> bool {
        true
    }

    open spec fn from_spec(v: Vec<EventValue>) -> EventValue {
        EventValue::List(v)
    }
}

/// Whether a value is too large for an event entry.
pub open spec fn oversized(v: EventValue) -> bool {
    wire_size(v) > LOGGER_ENTRY_MAX_LEN - EVENT_HEADER_LEN
}

/// Checks and frames an event taken at `timestamp`: an oversized value is
/// refused, anything else becomes the datagram for the daemon.
pub fn frame_event(
    log_buffer: Buffer,
    thread_id: u16,
    timestamp: Timestamp,
    tag: EventTag,
    value: &EventValue,
) -> (r: Result<Bytes, Error>)
    ensures
        oversized(*value) <==> r matches Err(Error::EventSize),
        !oversized(*value) ==> r is Ok && frozen(r->Ok_0) == event_frame(
            log_buffer,
            thread_id,
            timestamp,
            tag,
            *value,
        ),
{
    if value.serialized_size() > LOGGER_ENTRY_MAX_LEN - EVENT_HEADER_LEN {
        return Err(Error::EventSize);
    }
    Ok(event_frame_of(log_buffer, thread_id, timestamp, tag, value))
}

/// The datagram that writes an event to an explicit buffer, from thread
/// `thread_id`: an oversized value is refused, anything else is framed.
pub fn write_event_buffer(log_buffer: Buffer, event: &Event, thread_id: u16) -> (r: Result<
    Bytes,
    Error,
>)
    ensures
        oversized(event.value) <==> r matches Err(Error::EventSize),
        !oversized(event.value) ==> r is Ok && frozen(r->Ok_0) == event_frame(
            log_buffer,
            thread_id,
            event.timestamp,
            event.tag,
            event.value,
        ),
{
    frame_event(log_buffer, thread_id, event.timestamp, event.tag, &event.value)
}

/// The datagram that writes an event to `Buffer::Events`.
pub fn write_event(event: &Event, thread_id: u16) -> (r: Result<Bytes, Error>)
    ensures
        oversized(event.value) <==> r matches Err(Error::EventSize),
        !oversized(event.value) ==> r is Ok && frozen(r->Ok_0) == event_frame(
            Buffer::Events,
            thread_id,
            event.timestamp,
            event.tag,
            event.value,
        ),
{
    write_event_buffer(Buffer::Events, event, thread_id)
}

/// The datagram that writes an event with the time now to a buffer.
///
/// An oversized value is refused before the clock is read; a clock before the
/// Unix epoch cannot be put on the wire.
pub fn write_event_buffer_now(log_buffer: Buffer, tag: EventTag, value: EventValue, thread_id: u16) -> (r: Result<
    Bytes,
    Error,
>)
    ensures
        oversized(value) <==> r matches Err(Error::EventSize),
        !oversized(value) ==> r is Ok || r matches Err(Error::Timestamp(_)),
        r is Ok ==> exists|t: Timestamp|
            frozen(r->Ok_0) == #[trigger] event_frame(log_buffer, thread_id, t, tag, value),
{
    if value.serialized_size() > LOGGER_ENTRY_MAX_LEN - EVENT_HEADER_LEN {
        return Err(Error::EventSize);
    }
    match since_epoch(&now()) {
        Ok(timestamp) => frame_event(log_buffer, thread_id, timestamp, tag, &value),
        Err(reason) => Err(Error::Timestamp(reason)),
    }
}

/// The datagram that writes an event with the time now to `Buffer::Events`.
pub fn write_event_now(tag: EventTag, value: EventValue, thread_id: u16) -> (r: Result<Bytes, Error>)
    ensures
        oversized(value) <==> r matches Err(Error::EventSize),
        !oversized(value) ==> r is Ok || r matches Err(Error::Timestamp(_)),
        r is Ok ==> exists|t: Timestamp|
            frozen(r->Ok_0) == #[trigger] event_frame(Buffer::Events, thread_id, t, tag, value),
{
    write_event_buffer_now(Buffer::Events, tag, value, thread_id)
}

} // verus!
