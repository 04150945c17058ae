//! Identifiers that travel on the wire as a single byte.
use vstd::prelude::*;

verus! {

/// Log priority levels as defined by Android's logd.
///
/// The reserved levels (`_Unknown`, `_Default`, `_Fatal`, `_Silent`) exist for
/// wire fidelity; the application-facing levels are `Verbose` to `Error`.
#[derive(Clone, Copy, Debug, PartialEq, Eq, Structural)]
pub enum Priority {
    /// Unknown priority (internal use only).
    _Unknown,
    /// Default priority (internal use only).
    _Default,
    /// Verbose: detailed diagnostic information.
    Verbose,
    /// Debug: information useful during development.
    Debug,
    /// Info: messages about normal operation.
    Info,
    /// Warn: potential issues.
    Warn,
    /// Error: failures.
    Error,
    /// Fatal priority (internal use only).
    _Fatal,
    /// Silent priority (internal use only).
    _Silent,
}

/// The byte that stands for a priority on the wire.
pub open spec fn priority_byte(p: Priority) -> u8 {
    match p {
        Priority::_Unknown => 0,
        Priority::_Default => 1,
        Priority::Verbose => 2,
        Priority::Debug => 3,
        Priority::Info => 4,
        Priority::Warn => 5,
        Priority::Error => 6,
        Priority::_Fatal => 7,
        Priority::_Silent => 8,
    }
}

/// The one-letter form of a priority used by console output.
pub open spec fn priority_letter(p: Priority) -> char {
    match p {
        Priority::_Unknown => 'U',
        Priority::_Default | Priority::Debug => 'D',
        Priority::Verbose => 'V',
        Priority::Info => 'I',
        Priority::Warn => 'W',
        Priority::Error => 'E',
        Priority::_Fatal => 'F',
        Priority::_Silent => 'S',
    }
}

/// Severity levels of a logging front end, from most to least severe.
#[derive(Clone, Copy, Debug, PartialEq, Eq, Structural)]
pub enum Level {
    /// Errors.
    Error,
    /// Warnings.
    Warn,
    /// Informational messages.
    Info,
    /// Debugging messages.
    Debug,
    /// Tracing messages.
    Trace,
}

/// The priority that a front-end level is logged with.
pub open spec fn level_priority(l: Level) -> Priority {
    match l {
        Level::Error => Priority::Error,
        Level::Warn => Priority::Warn,
        Level::Info => Priority::Info,
        Level::Debug => Priority::Debug,
        Level::Trace => Priority::Verbose,
    }
}

impl Priority {
    /// The priority of a front-end level; tracing maps to `Verbose`.
    pub fn from_level(l: Level) -> (r: Priority)
        ensures
            r == level_priority(l),
    {
        match l {
            Level::Error => Priority::Error,
            Level::Warn => Priority::Warn,
            Level::Info => Priority::Info,
            Level::Debug => Priority::Debug,
            Level::Trace => Priority::Verbose,
        }
    }

    /// The wire byte of this priority.
    pub fn as_byte(self) -> (r: u8)
        ensures
            r == priority_byte(self),
    {
        match self {
            Priority::_Unknown => 0,
            Priority::_Default => 1,
            Priority::Verbose => 2,
            Priority::Debug => 3,
            Priority::Info => 4,
            Priority::Warn => 5,
            Priority::Error => 6,
            Priority::_Fatal => 7,
            Priority::_Silent => 8,
        }
    }

    /// The one-letter console form of this priority (`V`, `D`, `I`, `W`, `E`, ...).
    pub fn letter(self) -> (r: char)
        ensures
            r == priority_letter(self),
    {
        match self {
            Priority::_Unknown => 'U',
            Priority::_Default | Priority::Debug => 'D',
            Priority::Verbose => 'V',
            Priority::Info => 'I',
            Priority::Warn => 'W',
            Priority::Error => 'E',
            Priority::_Fatal => 'F',
            Priority::_Silent => 'S',
        }
    }
}

/// Android log buffer identifiers.
#[derive(Clone, Copy, Debug, PartialEq, Eq, Structural)]
pub enum Buffer {
    /// The main log buffer, the default one for applications.
    Main,
    /// The radio buffer for telephony logs.
    Radio,
    /// The event buffer for structured binary events.
    Events,
    /// The system buffer for system component logs.
    System,
    /// The crash buffer.
    Crash,
    /// The statistics buffer.
    Stats,
    /// The security buffer.
    Security,
    /// A buffer with a caller-supplied id.
    Custom(u8),
}

/// The highest id taken by a named buffer.
pub const LAST_NAMED_BUFFER_ID: u8 = 6;

/// The byte that stands for a buffer on the wire.
pub open spec fn buffer_byte(b: Buffer) -> u8 {
    match b {
        Buffer::Main => 0,
        Buffer::Radio => 1,
        Buffer::Events => 2,
        Buffer::System => 3,
        Buffer::Crash => 4,
        Buffer::Stats => 5,
        Buffer::Security => 6,
        Buffer::Custom(id) => id,
    }
}

impl From<Buffer> for u8 {
    fn from(b: Buffer) -> (r: u8) {
        match b {
            Buffer::Main => 0,
            Buffer::Radio => 1,
            Buffer::Events => 2,
            Buffer::System => 3,
            Buffer::Crash => 4,
            Buffer::Stats => 5,
            Buffer::Security => 6,
            Buffer::Custom(id) => id,
        }
    }
}

impl vstd::std_specs::convert::FromSpecImpl<Buffer> for u8 {
    open spec fn obeys_from_spec() -> bool {
        true
    }

    open spec fn from_spec(b: Buffer) -> u8 {
        buffer_byte(b)
    }
}

impl Buffer {
    /// The wire byte of this buffer.
    pub fn id(self) -> (r: u8)
        ensures
            r == buffer_byte(self),
    {
        u8::from(self)
    }

    /// Whether this is a custom buffer whose id is also the id of a named buffer.
    ///
    /// Such a buffer is accepted, and lands in the named buffer on the daemon's side.
    pub fn collides_with_named(self) -> (r: bool)
        ensures
            r == (self is Custom && self->Custom_0 <= LAST_NAMED_BUFFER_ID),
    {
        match self {
            Buffer::Custom(id) => id <= LAST_NAMED_BUFFER_ID,
            _ => false,
        }
    }
}

/// The buffer-to-byte mapping is fixed: each named buffer has its own byte, and a
/// custom buffer whose id no named buffer uses keeps that id and meets no named buffer.
pub proof fn lemma_buffer_byte_table(n: u8)
    requires
        n > LAST_NAMED_BUFFER_ID,
    ensures
        buffer_byte(Buffer::Main) == 0,
        buffer_byte(Buffer::Radio) == 1,
        buffer_byte(Buffer::Events) == 2,
        buffer_byte(Buffer::System) == 3,
        buffer_byte(Buffer::Crash) == 4,
        buffer_byte(Buffer::Stats) == 5,
        buffer_byte(Buffer::Security) == 6,
        buffer_byte(Buffer::Custom(n)) == n,
        forall|b: Buffer| !(b is Custom) ==> #[trigger] buffer_byte(b) != n,
        forall|b: Buffer, c: Buffer|
            !(b is Custom) && !(c is Custom) && #[trigger] buffer_byte(b) == #[trigger] buffer_byte(c)
                ==> b == c,
{
}

} // verus!
