//! The live log channel: datagrams for the `logd` socket, and what to do when
//! a send on that socket fails.
use crate::buf::{
    allocatable, buffered, freeze, frozen, le_u16, le_u32, new_buffer, put_slice, put_u16_le,
    put_u32_le, put_u8,
};
use crate::events::{encoding, wire_size, EventTag, EventValue};
use crate::wire::{buffer_byte, priority_byte, Buffer};
use crate::{wire_secs, Record, Timestamp};
use bytes::{Bytes, BytesMut};
use vstd::prelude::*;
use vstd::string::StringSliceAdditionalSpecFns;

verus! {

broadcast use crate::buf::lemma_le_bytes_len;

/// Length of the header shared by every frame: buffer id, thread id, seconds, nanoseconds.
pub const LOG_HEADER_LEN: usize = 11;

/// The header shared by every frame: `[buffer_id][thread_id:u16][secs:u32][nanos:u32]`.
pub open spec fn log_header(buffer_id: Buffer, thread_id: u16, secs: u32, nanos: u32) -> Seq<u8> {
    seq![buffer_byte(buffer_id)] + le_u16(thread_id) + le_u32(secs) + le_u32(nanos)
}

/// The datagram of a log record:
/// `[header][priority][tag bytes][0][message bytes][0]`.
///
/// Tag and message go out as they are: a NUL byte inside either ends that
/// field early for the daemon, which reads up to the first NUL.
pub open spec fn log_frame(r: Record) -> Seq<u8> {
    log_header(r.buffer_id, r.thread_id, wire_secs(r.timestamp), r.timestamp.nanos) + seq![
        priority_byte(r.priority),
    ] + r.tag.spec_bytes() + seq![0u8] + r.message.spec_bytes() + seq![0u8]
}

/// The datagram of an event: `[header][event tag:u32][value encoding]`.
pub open spec fn event_frame(
    buffer_id: Buffer,
    thread_id: u16,
    t: Timestamp,
    tag: EventTag,
    value: EventValue,
) -> Seq<u8> {
    log_header(buffer_id, thread_id, wire_secs(t), t.nanos) + le_u32(tag) + encoding(value)
}

/// Whether the frame of a record can be allocated.
pub open spec fn record_fits(r: Record) -> bool {
    allocatable(r.tag.spec_bytes().len() + r.message.spec_bytes().len() + 14)
}

/// Appends the frame header to `buf`.
pub(crate) fn write_log_header(
    buf: &mut BytesMut,
    buffer_id: Buffer,
    thread_id: u16,
    timestamp_secs: u32,
    timestamp_nanos: u32,
)
    requires
        allocatable(buffered(*old(buf)).len() + LOG_HEADER_LEN as nat),
    ensures
        buffered(*final(buf)) == buffered(*old(buf)) + log_header(
            buffer_id,
            thread_id,
            timestamp_secs,
            timestamp_nanos,
        ),
{
    put_u8(buf, buffer_id.id());
    put_u16_le(buf, thread_id);
    put_u32_le(buf, timestamp_secs);
    put_u32_le(buf, timestamp_nanos);
    assert(buffered(*buf) == buffered(*old(buf)) + log_header(
        buffer_id,
        thread_id,
        timestamp_secs,
        timestamp_nanos,
    ));
}

/// The datagram that carries a log record to the daemon.
pub fn log_frame_of(record: &Record) -> (r: Bytes)
    requires
        record_fits(*record),
    ensures
        frozen(r) == log_frame(*record),
{
    let tag = record.tag.as_bytes();
    let message = record.message.as_bytes();
    let mut buf = new_buffer(LOG_HEADER_LEN + 1 + tag.len() + 1 + message.len() + 1);
    write_log_header(
        &mut buf,
        record.buffer_id,
        record.thread_id,
        record.timestamp.wire_secs(),
        record.timestamp.nanos,
    );
    put_u8(&mut buf, record.priority.as_byte());
    put_slice(&mut buf, tag);
    put_u8(&mut buf, 0);
    put_slice(&mut buf, message);
    put_u8(&mut buf, 0);
    assert(buffered(buf) == log_frame(*record));
    freeze(buf)
}

/// The datagram that carries an event to the daemon.
pub fn event_frame_of(
    buffer_id: Buffer,
    thread_id: u16,
    timestamp: Timestamp,
    tag: EventTag,
    value: &EventValue,
) -> (r: Bytes)
    requires
        allocatable(wire_size(*value) + 15),
    ensures
        frozen(r) == event_frame(buffer_id, thread_id, timestamp, tag, *value),
{
    proof {
        crate::events::lemma_size_is_encoding_length(*value);
    }
    let mut buf = new_buffer(crate::LOGGER_ENTRY_MAX_LEN);
    write_log_header(&mut buf, buffer_id, thread_id, timestamp.wire_secs(), timestamp.nanos);
    put_u32_le(&mut buf, tag);
    value.write_to(&mut buf);
    assert(buffered(buf) == event_frame(buffer_id, thread_id, timestamp, tag, *value));
    freeze(buf)
}

/// What one send on the socket came to.
#[derive(Clone, Copy, Debug, PartialEq, Eq, Structural)]
pub enum SendOutcome {
    /// The datagram went out.
    Sent,
    /// The daemon's receive buffer is full.
    WouldBlock,
    /// Any other failure, such as a daemon that restarted.
    Failed,
}

/// What the sender does next.
#[derive(Clone, Copy, Debug, PartialEq, Eq, Structural)]
pub enum SendAction {
    /// The send is over and succeeded (the datagram went out or was let go).
    Done,
    /// Open and connect a new non-blocking socket, send once more on it, and
    /// keep the new socket if that send succeeds.
    ReconnectAndRetry,
    /// The send is over and its error goes to the caller.
    Fail,
}

/// The decision after a send that came to `outcome`, on the first socket or,
/// where `reconnected`, on the new one.
///
/// A full receive buffer on the first socket drops the datagram: the sender is
/// never kept waiting for the daemon.
pub open spec fn send_action(reconnected: bool, outcome: SendOutcome) -> SendAction {
    match outcome {
        SendOutcome::Sent => SendAction::Done,
        SendOutcome::WouldBlock => if reconnected {
            SendAction::Fail
        } else {
            SendAction::Done
        },
        SendOutcome::Failed => if reconnected {
            SendAction::Fail
        } else {
            SendAction::ReconnectAndRetry
        },
    }
}

/// One send of a datagram on the shared socket, with at most one reconnect.
pub struct SendAttempt {
    reconnected: bool,
}

impl SendAttempt {
    /// Whether the reconnect has been asked for.
    pub closed spec fn has_reconnected(&self) -> bool {
        self.reconnected
    }

    /// A send that has not yet reconnected.
    pub fn new() -> (r: Self)
        ensures
            !r.has_reconnected(),
    {
        SendAttempt { reconnected: false }
    }

    /// Decides what follows a send that came to `outcome`.
    pub fn step(&mut self, outcome: SendOutcome) -> (r: SendAction)
        ensures
            r == send_action(old(self).has_reconnected(), outcome),
            final(self).has_reconnected() == (old(self).has_reconnected() || r
                == SendAction::ReconnectAndRetry),
    {
        let r = match outcome {
            SendOutcome::Sent => SendAction::Done,
            SendOutcome::WouldBlock => if self.reconnected {
                SendAction::Fail
            } else {
                SendAction::Done
            },
            SendOutcome::Failed => if self.reconnected {
                SendAction::Fail
            } else {
                SendAction::ReconnectAndRetry
            },
        };
        if r == SendAction::ReconnectAndRetry {
            self.reconnected = true;
        }
        r
    }
}

/// A first send that would block ends the send successfully, without a reconnect.
pub proof fn lemma_would_block_is_dropped()
    ensures
        send_action(false, SendOutcome::WouldBlock) == SendAction::Done,
{
}

/// A first send that fails hard leads to exactly one reconnect and retry: the
/// failure asks for it, nothing after it asks again, and an error reaches the
/// caller only once the reconnect has been made.
pub proof fn lemma_hard_error_retries_once(retry: SendOutcome, any: SendOutcome, reconnected: bool)
    ensures
        send_action(false, SendOutcome::Failed) == SendAction::ReconnectAndRetry,
        send_action(true, retry) != SendAction::ReconnectAndRetry,
        send_action(reconnected, any) == SendAction::Fail ==> reconnected,
{
}

} // verus!
