//! The persistent-store channel: packets for the `pmsg` character device,
//! whose writes survive a reboot.
//!
//! Each packet's inner header carries the record's sub-second nanoseconds, as
//! the live channel does, so that both channels show the same time. The native
//! writer puts a chunk sequence number there instead; a reader that reassembles
//! chunks by that number sees every chunk of one message as the same chunk.
use crate::buf::{
    allocatable, buffered, freeze, frozen, le_u16, new_buffer, put_slice, put_u16_le, put_u8,
};
use crate::logd::{log_header, write_log_header, LOG_HEADER_LEN};
use crate::logging_iterator::{
    chunk_pieces, lemma_chars_within_four, lemma_piece_progress, NewlineScaledChunkIterator,
};
use crate::wire::{priority_byte, Priority};
use crate::{wire_secs, Record};
use bytes::{Bytes, BytesMut};
use vstd::prelude::*;
use vstd::string::StringSliceAdditionalSpecFns;

verus! {

broadcast use crate::buf::lemma_le_bytes_len;

/// Magic marker that opens every packet: the character `l`.
pub const ANDROID_LOG_MAGIC_CHAR: u8 = 0x6c;

/// Length of the outer header: magic, packet length, uid, pid.
pub const PMSG_HEADER_LEN: usize = 7;

/// Maximum size of a message piece in bytes.
pub const ANDROID_LOG_ENTRY_MAX_PAYLOAD: usize = 4068;

/// Sequence step from one piece of a message to the next.
pub const ANDROID_LOG_PMSG_SEQUENCE_INCREMENT: usize = 1000;

/// Sequence value at which the pieces of a message stop.
pub const ANDROID_LOG_PMSG_MAX_SEQUENCE: usize = 256000;

/// The uid in every packet; it does not show in log output, so none is looked up.
pub const DUMMY_UID: u16 = 0;

/// The outer header: `['l'][packet_len:u16][uid:u16][pid:u16]`.
pub open spec fn pmsg_header(packet_len: u16, uid: u16, pid: u16) -> Seq<u8> {
    seq![ANDROID_LOG_MAGIC_CHAR] + le_u16(packet_len) + le_u16(uid) + le_u16(pid)
}

/// The payload: `[priority][tag bytes][0][piece bytes][0]`.
pub open spec fn payload(priority: Priority, tag: Seq<u8>, part: Seq<u8>) -> Seq<u8> {
    seq![priority_byte(priority)] + tag + seq![0u8] + part + seq![0u8]
}

/// The whole packet's length: headers, priority, tag, message piece and both NULs.
pub open spec fn packet_len(tag_len: nat, part_len: nat) -> nat {
    (PMSG_HEADER_LEN + LOG_HEADER_LEN + 1 + tag_len + 1 + part_len + 1) as nat
}

/// The largest packet, whose length its 16-bit length field can hold.
pub const MAX_PACKET_LEN: usize = 0xffff;

/// The packet that carries one piece of a record's message.
pub open spec fn pmsg_frame(r: Record, part: Seq<u8>) -> Seq<u8> {
    pmsg_header(packet_len(r.tag.spec_bytes().len(), part.len()) as u16, DUMMY_UID, r.pid) + log_header(
        r.buffer_id,
        r.thread_id,
        wire_secs(r.timestamp),
        r.timestamp.nanos,
    ) + payload(r.priority, r.tag.spec_bytes(), part)
}

/// The most pieces of one message that are sent.
pub open spec fn max_pieces() -> nat {
    (ANDROID_LOG_PMSG_MAX_SEQUENCE / ANDROID_LOG_PMSG_SEQUENCE_INCREMENT) as nat
}

/// Whether every packet of a record, even one with the largest piece, has a
/// length that its length field can hold.
pub open spec fn pmsg_fits(r: Record) -> bool {
    packet_len(r.tag.spec_bytes().len(), ANDROID_LOG_ENTRY_MAX_PAYLOAD as nat) <= MAX_PACKET_LEN
}

/// Appends the outer header to `buf`.
pub(crate) fn write_pmsg_header(buf: &mut BytesMut, packet_len: u16, uid: u16, pid: u16)
    requires
        allocatable(buffered(*old(buf)).len() + PMSG_HEADER_LEN as nat),
    ensures
        buffered(*final(buf)) == buffered(*old(buf)) + pmsg_header(packet_len, uid, pid),
{
    put_u8(buf, ANDROID_LOG_MAGIC_CHAR);
    put_u16_le(buf, packet_len);
    put_u16_le(buf, uid);
    put_u16_le(buf, pid);
    assert(buffered(*buf) == buffered(*old(buf)) + pmsg_header(packet_len, uid, pid));
}

/// Appends the payload to `buf`.
pub(crate) fn write_payload(buf: &mut BytesMut, priority: Priority, tag: &str, msg_part: &str)
    requires
        allocatable(buffered(*old(buf)).len() + tag.spec_bytes().len() + msg_part.spec_bytes().len() + 3),
    ensures
        buffered(*final(buf)) == buffered(*old(buf)) + payload(
            priority,
            tag.spec_bytes(),
            msg_part.spec_bytes(),
        ),
{
    put_u8(buf, priority.as_byte());
    put_slice(buf, tag.as_bytes());
    put_u8(buf, 0);
    put_slice(buf, msg_part.as_bytes());
    put_u8(buf, 0);
    assert(buffered(*buf) == buffered(*old(buf)) + payload(
        priority,
        tag.spec_bytes(),
        msg_part.spec_bytes(),
    ));
}

/// The packet that carries one piece of a record's message.
pub fn pmsg_packet(record: &Record, msg_part: &str) -> (r: Bytes)
    requires
        packet_len(record.tag.spec_bytes().len(), msg_part.spec_bytes().len()) <= MAX_PACKET_LEN,
    ensures
        frozen(r) == pmsg_frame(*record, msg_part.spec_bytes()),
{
    let tag_len = record.tag.as_bytes().len();
    let part_len = msg_part.as_bytes().len();
    let payload_len = 1 + tag_len + 1 + part_len + 1;
    let total = PMSG_HEADER_LEN + LOG_HEADER_LEN + payload_len;
    let packet_len = total as u16;
    let mut buf = new_buffer(total);
    write_pmsg_header(&mut buf, packet_len, DUMMY_UID, record.pid);
    write_log_header(
        &mut buf,
        record.buffer_id,
        record.thread_id,
        record.timestamp.wire_secs(),
        record.timestamp.nanos,
    );
    write_payload(&mut buf, record.priority, record.tag, msg_part);
    assert(buffered(buf) == pmsg_frame(*record, msg_part.spec_bytes()));
    freeze(buf)
}

/// The packets for a record: one per piece of its message, split at newlines
/// within the payload limit, and no more than `max_pieces()` of them.
pub fn pmsg_packets(record: &Record) -> (r: Vec<Bytes>)
    requires
        pmsg_fits(*record),
    ensures
        ({
            let pieces = chunk_pieces(record.message.spec_bytes(), ANDROID_LOG_ENTRY_MAX_PAYLOAD as int);
            &&& r@.len() == if pieces.len() < max_pieces() {
                pieces.len()
            } else {
                max_pieces()
            }
            &&& forall|i: int|
                0 <= i < r@.len() ==> frozen(#[trigger] r@[i]) == pmsg_frame(*record, pieces[i])
        }),
{
    let ghost all = chunk_pieces(record.message.spec_bytes(), ANDROID_LOG_ENTRY_MAX_PAYLOAD as int);
    let mut chunks = NewlineScaledChunkIterator::new(record.message, ANDROID_LOG_ENTRY_MAX_PAYLOAD);
    let mut packets: Vec<Bytes> = Vec::new();
    let mut idx: usize = 0;
    assert(all.subrange(0, all.len() as int) =~= all);
    loop
        invariant_except_break
            all.subrange(idx as int, all.len() as int) == chunk_pieces(
                chunks.remaining(),
                ANDROID_LOG_ENTRY_MAX_PAYLOAD as int,
            ),
        invariant
            chunks.max_len() == ANDROID_LOG_ENTRY_MAX_PAYLOAD,
            pmsg_fits(*record),
            all == chunk_pieces(record.message.spec_bytes(), ANDROID_LOG_ENTRY_MAX_PAYLOAD as int),
            idx == packets@.len(),
            idx <= max_pieces(),
            idx <= all.len(),
            forall|i: int| 0 <= i < idx ==> frozen(#[trigger] packets@[i]) == pmsg_frame(*record, all[i]),
        ensures
            all.len() < max_pieces() ==> packets@.len() == all.len(),
            all.len() >= max_pieces() ==> packets@.len() == max_pieces(),
            forall|i: int|
                0 <= i < packets@.len() ==> frozen(#[trigger] packets@[i]) == pmsg_frame(*record, all[i]),
        decreases chunks.remaining().len(),
    {
        let ghost before = chunks.remaining();
        proof {
            chunks.lemma_remaining_is_utf8();
            lemma_chars_within_four(before, ANDROID_LOG_ENTRY_MAX_PAYLOAD as int);
            if before.len() > 0 {
                lemma_piece_progress(before, ANDROID_LOG_ENTRY_MAX_PAYLOAD as int);
            } else {
                assert(chunk_pieces(before, ANDROID_LOG_ENTRY_MAX_PAYLOAD as int) =~= seq![]);
            }
        }
        let msg_part = match chunks.next() {
            None => {
                assert(all.len() == idx);
                break ;
            },
            Some(part) => part,
        };
        let ghost rest = chunk_pieces(chunks.remaining(), ANDROID_LOG_ENTRY_MAX_PAYLOAD as int);
        proof {
            let tail = all.subrange(idx as int, all.len() as int);
            assert(tail == chunk_pieces(before, ANDROID_LOG_ENTRY_MAX_PAYLOAD as int));
            assert(tail == seq![msg_part.spec_bytes()] + rest);
            assert(tail.len() == 1 + rest.len());
            assert(idx < all.len());
            assert(tail[0] == msg_part.spec_bytes());
            assert(all[idx as int] == tail[0]);
            assert(all.subrange(idx + 1, all.len() as int) =~= tail.drop_first());
            assert(tail.drop_first() =~= rest);
        }
        if idx * ANDROID_LOG_PMSG_SEQUENCE_INCREMENT >= ANDROID_LOG_PMSG_MAX_SEQUENCE {
            break ;
        }
        packets.push(pmsg_packet(record, msg_part));
        idx = idx + 1;
    }
    packets
}

} // verus!
