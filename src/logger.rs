//! What one log call sends: the tag and message it derives from the call's
//! metadata, and the datagram and persistent-store packets it produces.
use crate::buf::frozen;
use crate::logd::{log_frame, log_frame_of, record_fits};
use crate::logging_iterator::chunk_pieces;
use crate::pmsg::{max_pieces, pmsg_fits, pmsg_frame, pmsg_packets, ANDROID_LOG_ENTRY_MAX_PAYLOAD};
use crate::Record;
use bytes::Bytes;
use vstd::prelude::*;
use vstd::string::{StringExecFns, StringSliceAdditionalSpecFns};
use vstd::utf8::{
    encode_utf8, encode_utf8_valid_utf8, is_char_boundary_iff_not_is_continuation_byte,
};

verus! {

/// The byte `:`; two of them separate the components of a target path.
pub const SEPARATOR_BYTE: u8 = 0x3a;

/// How the tag of a log line is derived from the record's target.
#[derive(Debug, Clone)]
pub enum TagMode {
    /// The whole target (the full module path).
    Target,
    /// The target's root: everything before its first `::`.
    TargetStrip,
    /// A fixed tag for every line.
    Custom(String),
}

impl Default for TagMode {
    fn default() -> (r: Self)
        ensures
            r is TargetStrip,
    {
        TagMode::TargetStrip
    }
}

/// The position of the first `::` in `b` at or after `i`, or the length of
/// `b` where there is none.
pub open spec fn first_separator(b: Seq<u8>, i: int) -> int
    decreases b.len() - i,
{
    if i < 0 || i + 1 >= b.len() {
        b.len() as int
    } else if b[i] == SEPARATOR_BYTE && b[i + 1] == SEPARATOR_BYTE {
        i
    } else {
        first_separator(b, i + 1)
    }
}

/// The tag bytes for a target under a tag mode.
pub open spec fn tag_bytes(mode: TagMode, target: Seq<u8>) -> Seq<u8> {
    match mode {
        TagMode::Target => target,
        TagMode::TargetStrip => target.subrange(0, first_separator(target, 0)),
        TagMode::Custom(tag) => encode_utf8(tag@),
    }
}

proof fn lemma_first_separator(b: Seq<u8>, i: int)
    requires
        0 <= i <= b.len(),
    ensures
        i <= first_separator(b, i) <= b.len(),
        first_separator(b, i) < b.len() ==> b[first_separator(b, i)] == SEPARATOR_BYTE,
    decreases b.len() - i,
{
    if i + 1 < b.len() && !(b[i] == SEPARATOR_BYTE && b[i + 1] == SEPARATOR_BYTE) {
        lemma_first_separator(b, i + 1);
    }
}

/// The tag of a line logged for `target` under `mode`.
pub fn resolve_tag<'a>(mode: &'a TagMode, target: &'a str) -> (r: &'a str)
    ensures
        r.spec_bytes() == tag_bytes(*mode, target.spec_bytes()),
{
    match mode {
        TagMode::Target => target,
        TagMode::TargetStrip => {
            let bytes = target.as_bytes();
            let mut i: usize = 0;
            while bytes.len() - i > 1 && !(bytes[i] == SEPARATOR_BYTE && bytes[i + 1]
                == SEPARATOR_BYTE)
                invariant
                    i <= bytes@.len(),
                    bytes@ == target.spec_bytes(),
                    first_separator(bytes@, i as int) == first_separator(bytes@, 0),
                decreases bytes@.len() - i,
            {
                i = i + 1;
            }
            let end = if bytes.len() - i > 1 {
                i
            } else {
                bytes.len()
            };
            proof {
                lemma_first_separator(bytes@, 0);
                encode_utf8_valid_utf8(target@);
                vstd::utf8::is_char_boundary_start_end_of_seq(bytes@);
                if end < bytes@.len() {
                    is_char_boundary_iff_not_is_continuation_byte(bytes@, end as int);
                }
            }
            let (root, _) = target.split_at(end);
            root
        },
        TagMode::Custom(tag) => tag.as_str(),
    }
}

/// The text of a log line: the module path and `": "` before the arguments
/// where the module is to be prepended and known, else the arguments alone.
pub fn compose_message(module: Option<&str>, prepend_module: bool, args: String) -> (r: String)
    ensures
        r@ == if prepend_module && module is Some {
            module->0@ + ": "@ + args@
        } else {
            args@
        },
{
    match module {
        Some(path) => {
            if prepend_module {
                let mut message = String::from_str(path);
                message.append(": ");
                message.append(args.as_str());
                message
            } else {
                args
            }
        },
        None => args,
    }
}

/// The bytes one log call sends: a datagram for the live socket, and the
/// packets for the persistent store (none where it is off).
pub struct Delivery {
    /// The datagram for the `logd` socket.
    pub datagram: Bytes,
    /// The packets for the persistent store, in order.
    pub pstore_packets: Vec<Bytes>,
}

/// What a record comes to: its datagram for the live channel and, where the
/// persistent store is on, the packets of its message pieces, all from the one
/// timestamp, pid and thread id of the record.
pub fn deliver(record: &Record, pstore: bool) -> (r: Delivery)
    requires
        record_fits(*record),
        pstore ==> pmsg_fits(*record),
    ensures
        frozen(r.datagram) == log_frame(*record),
        !pstore ==> r.pstore_packets@.len() == 0,
        pstore ==> {
            let pieces = chunk_pieces(record.message.spec_bytes(), ANDROID_LOG_ENTRY_MAX_PAYLOAD as int);
            &&& r.pstore_packets@.len() == if pieces.len() < max_pieces() {
                pieces.len()
            } else {
                max_pieces()
            }
            &&& forall|i: int|
                0 <= i < r.pstore_packets@.len() ==> frozen(#[trigger] r.pstore_packets@[i])
                    == pmsg_frame(*record, pieces[i])
        },
{
    let datagram = log_frame_of(record);
    let pstore_packets = if pstore {
        pmsg_packets(record)
    } else {
        Vec::new()
    };
    Delivery { datagram, pstore_packets }
}

} // verus!
