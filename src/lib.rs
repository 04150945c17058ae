//! A logger for Android's `logd` daemon: encoders for the binary wire
//! formats of the live log socket and of the persistent message device,
//! together with the decisions of the self-healing transport.
//!
//! The library computes every byte that goes out; the caller performs the
//! sends and writes it asks for.
use crate::buf::{allocatable, frozen};
use crate::logd::{log_frame, log_frame_of};
use bytes::Bytes;
use vstd::prelude::*;
use vstd::string::StringSliceAdditionalSpecFns;

pub mod buf;
pub mod events;
pub mod logd;
pub mod logger;
pub mod logging_iterator;
pub mod pmsg;
mod sys;
pub mod wire;

pub use events::{EventTag, EventValue};
pub use logging_iterator::NewlineScaledChunkIterator;
pub use wire::{Buffer, Priority};

verus! {

/// Maximum log entry length in bytes (5 KiB).
pub const LOGGER_ENTRY_MAX_LEN: usize = 5 * 1024;

/// Errors that can occur when logging.
#[derive(Debug)]
pub enum Error {
    /// An I/O error of the transport.
    Io(std::io::Error),
    /// The event data exceed the maximum length.
    EventSize,
    /// The timestamp cannot be put on the wire.
    Timestamp(String),
}

/// A point in time after the Unix epoch: whole seconds and the nanoseconds beyond them.
#[derive(Clone, Copy, Debug, PartialEq, Eq, Structural)]
pub struct Timestamp {
    /// Whole seconds since the epoch.
    pub secs: u64,
    /// Nanoseconds beyond `secs`.
    pub nanos: u32,
}

/// The seconds of a timestamp as the wire carries them: the low 32 bits.
pub open spec fn wire_secs(t: Timestamp) -> u32 {
    (t.secs % 0x1_0000_0000) as u32
}

impl Timestamp {
    /// The seconds as the wire carries them.
    pub fn wire_secs(&self) -> (r: u32)
        ensures
            r == wire_secs(*self),
    {
        (self.secs % 0x1_0000_0000u64) as u32
    }
}

/// One formatted log line, ready for the wire.
pub struct Record<'tag, 'msg> {
    /// When the line was logged.
    pub timestamp: Timestamp,
    /// Process id.
    pub pid: u16,
    /// Thread id.
    pub thread_id: u16,
    /// Target log buffer.
    pub buffer_id: Buffer,
    /// Log tag.
    pub tag: &'tag str,
    /// Priority.
    pub priority: Priority,
    /// Message text.
    pub message: &'msg str,
}

/// Constructs the datagram of a log entry with explicit timestamp, buffer,
/// priority, process and thread ids, tag and message, for the `logd` socket.
pub fn log(
    timestamp: Timestamp,
    buffer_id: Buffer,
    priority: Priority,
    pid: u16,
    thread_id: u16,
    tag: &str,
    message: &str,
) -> (r: Bytes)
    requires
        allocatable(tag.spec_bytes().len() + message.spec_bytes().len() + 14),
    ensures
        frozen(r) == log_frame(
            (Record { timestamp, pid, thread_id, buffer_id, tag, priority, message }),
        ),
{
    let record = Record { timestamp, pid, thread_id, buffer_id, tag, priority, message };
    log_frame_of(&record)
}

} // verus!
