//! Splitting of long messages into newline-aligned pieces of bounded byte length.
use vstd::prelude::*;
use vstd::string::StringSliceAdditionalSpecFns;
use vstd::utf8::{
    encode_utf8_valid_utf8, group_utf8_lib, is_char_boundary, is_char_boundary_iff_not_is_continuation_byte, is_char_boundary_start_end_of_seq, length_of_first_scalar,
    pop_first_scalar, valid_utf8, valid_utf8_split,
};

verus! {

broadcast use group_utf8_lib;

/// The byte that ends a line.
pub const NEWLINE: u8 = 0x0a;

/// The largest character boundary of `b` that is at most `idx`, or 0 where
/// none above 0 is.
pub open spec fn boundary_at_most(b: Seq<u8>, idx: int) -> int
    decreases idx,
{
    if idx <= 0 {
        0
    } else if is_char_boundary(b, idx) {
        idx
    } else {
        boundary_at_most(b, idx - 1)
    }
}

/// The position just after the last newline among the first `k` bytes of `b`,
/// or 0 where there is none.
pub open spec fn after_last_newline(b: Seq<u8>, k: int) -> int
    decreases k,
{
    if k <= 0 {
        0
    } else if b[k - 1] == NEWLINE {
        k
    } else {
        after_last_newline(b, k - 1)
    }
}

/// Where a text of at least `max` bytes is split: after its last newline before
/// the largest character boundary within `max` bytes, or at that boundary.
pub open spec fn split_point(b: Seq<u8>, max: int) -> int {
    let k = boundary_at_most(b, max);
    let nl = after_last_newline(b, k);
    if nl > 0 {
        nl
    } else {
        k
    }
}

/// The length of the next piece taken from the bytes `b`: all of them where
/// they are fewer than `max`, else up to the split point.
pub open spec fn piece_len(b: Seq<u8>, max: int) -> int {
    if b.len() < max {
        b.len() as int
    } else {
        split_point(b, max)
    }
}

/// The pieces that successive calls of `next` hand out for the bytes `b`.
///
/// A step that would take no bytes (a character wider than `max` at the front)
/// repeats forever; the sequence stops before it.
pub open spec fn chunk_pieces(b: Seq<u8>, max: int) -> Seq<Seq<u8>>
    decreases b.len(),
{
    let p = piece_len(b, max);
    if 0 < p <= b.len() {
        seq![b.subrange(0, p)] + chunk_pieces(b.subrange(p, b.len() as int), max)
    } else {
        seq![]
    }
}

/// The pieces, one after another.
pub open spec fn joined(pieces: Seq<Seq<u8>>) -> Seq<u8>
    decreases pieces.len(),
{
    if pieces.len() == 0 {
        seq![]
    } else {
        pieces[0] + joined(pieces.drop_first())
    }
}

/// No character of the valid UTF-8 text `b` takes more than `max` bytes.
pub open spec fn chars_within(b: Seq<u8>, max: int) -> bool {
    forall|k: int|
        0 <= k < b.len() && is_char_boundary(b, k) ==> length_of_first_scalar(
            #[trigger] b.subrange(k, b.len() as int),
        ) <= max
}

/// Chunk iterator over a string slice scaled to newline characters.
///
/// It yields pieces below the maximum byte length. Where a piece holds newline
/// characters, it ends after the last of them instead of at the maximum length;
/// where it holds none, it ends at the last character boundary within the
/// maximum length.
pub struct NewlineScaledChunkIterator<'a> {
    data: &'a str,
    max_byte_length: usize,
}

impl<'a> NewlineScaledChunkIterator<'a> {
    /// The UTF-8 bytes not yet handed out.
    pub closed spec fn remaining(&self) -> Seq<u8> {
        self.data.spec_bytes()
    }

    /// The maximum byte length of a piece.
    pub closed spec fn max_len(&self) -> int {
        self.max_byte_length as int
    }

    /// What remains is always valid UTF-8.
    pub proof fn lemma_remaining_is_utf8(&self)
        ensures
            valid_utf8(self.remaining()),
    {
        encode_utf8_valid_utf8(self.data@);
    }

    /// Creates an iterator over `data` with pieces of at most `max_byte_length` bytes.
    pub fn new(data: &'a str, max_byte_length: usize) -> (r: Self)
        ensures
            r.remaining() == data.spec_bytes(),
            r.max_len() == max_byte_length,
    {
        Self { data, max_byte_length }
    }

    /// Takes the next piece: `None` once nothing remains, else the first
    /// `piece_len` bytes of what remains.
    pub fn next(&mut self) -> (r: Option<&'a str>)
        ensures
            final(self).max_len() == old(self).max_len(),
            old(self).remaining().len() == 0 ==> r is None && final(self).remaining()
                == old(self).remaining(),
            old(self).remaining().len() > 0 ==> {
                let b = old(self).remaining();
                let p = piece_len(b, old(self).max_len());
                &&& r is Some
                &&& r->0.spec_bytes() == b.subrange(0, p)
                &&& final(self).remaining() == b.subrange(p, b.len() as int)
                &&& p > 0 ==> chunk_pieces(b, old(self).max_len()) == seq![r->0.spec_bytes()]
                    + chunk_pieces(final(self).remaining(), old(self).max_len())
            },
    {
        let bytes = self.data.as_bytes();
        let len = bytes.len();
        proof {
            encode_utf8_valid_utf8(self.data@);
            is_char_boundary_start_end_of_seq(self.data.spec_bytes());
            if len >= self.max_byte_length {
                lemma_boundary_at_most(bytes@, self.max_byte_length as int);
                lemma_split_point(bytes@, self.max_byte_length as int);
            }
        }
        if len == 0 {
            return None;
        }
        let split = if len < self.max_byte_length {
            len
        } else {
            let boundary = find_char_boundary_before_idx(self.data, self.max_byte_length);
            let newline = after_last_newline_in(bytes, boundary);
            if newline > 0 {
                newline
            } else {
                boundary
            }
        };
        let (next_piece, remainder) = self.data.split_at(split);
        self.data = remainder;
        Some(next_piece)
    }
}

/// The boundary search ends on a character boundary within range.
proof fn lemma_boundary_at_most(b: Seq<u8>, idx: int)
    requires
        valid_utf8(b),
        idx >= 0,
    ensures
        0 <= boundary_at_most(b, idx) <= idx,
        boundary_at_most(b, idx) <= b.len(),
        is_char_boundary(b, boundary_at_most(b, idx)),
    decreases idx,
{
    if idx > 0 && !is_char_boundary(b, idx) {
        lemma_boundary_at_most(b, idx - 1);
    }
}

/// The newline search ends just after a newline within range, if anywhere.
proof fn lemma_after_last_newline(b: Seq<u8>, k: int)
    requires
        0 <= k <= b.len(),
    ensures
        0 <= after_last_newline(b, k) <= k,
        after_last_newline(b, k) > 0 ==> b[after_last_newline(b, k) - 1] == NEWLINE,
    decreases k,
{
    if k > 0 && b[k - 1] != NEWLINE {
        lemma_after_last_newline(b, k - 1);
    }
}

/// The split point of a valid UTF-8 text is a character boundary within `max` bytes.
proof fn lemma_split_point(b: Seq<u8>, max: int)
    requires
        valid_utf8(b),
        0 <= max <= b.len(),
    ensures
        0 <= split_point(b, max) <= max,
        is_char_boundary(b, split_point(b, max)),
{
    let k = boundary_at_most(b, max);
    lemma_boundary_at_most(b, max);
    lemma_after_last_newline(b, k);
    let nl = after_last_newline(b, k);
    if nl > 0 {
        lemma_boundary_after_ascii(b, nl - 1);
    }
}

/// The boundary search finds every boundary at or below its start.
proof fn lemma_boundary_at_most_above(b: Seq<u8>, idx: int, j: int)
    requires
        0 < j <= idx,
        is_char_boundary(b, j),
    ensures
        boundary_at_most(b, idx) >= j,
    decreases idx,
{
    if !is_char_boundary(b, idx) {
        lemma_boundary_at_most_above(b, idx - 1, j);
    }
}

/// Where no character is wider than `max`, each step takes at least one byte,
/// at most `max`, and ends on a character boundary.
pub proof fn lemma_piece_progress(b: Seq<u8>, max: int)
    requires
        valid_utf8(b),
        max > 0,
        b.len() > 0,
        chars_within(b, max),
    ensures
        0 < piece_len(b, max) <= b.len(),
        piece_len(b, max) <= max,
        is_char_boundary(b, piece_len(b, max)),
{
    is_char_boundary_start_end_of_seq(b);
    if b.len() >= max {
        lemma_split_point(b, max);
        let l = length_of_first_scalar(b);
        assert(b.subrange(0, b.len() as int) =~= b);
        reveal_with_fuel(is_char_boundary, 2);
        is_char_boundary_start_end_of_seq(pop_first_scalar(b));
        assert(is_char_boundary(b, l));
        lemma_boundary_at_most_above(b, max, l);
        lemma_boundary_at_most(b, max);
    }
}

/// No character takes more than four bytes.
pub proof fn lemma_chars_within_four(b: Seq<u8>, max: int)
    requires
        max >= 4,
    ensures
        chars_within(b, max),
{
}

/// What remains after a character boundary keeps the width bound.
proof fn lemma_chars_within_suffix(b: Seq<u8>, p: int, max: int)
    requires
        valid_utf8(b),
        0 <= p <= b.len(),
        is_char_boundary(b, p),
        chars_within(b, max),
    ensures
        chars_within(b.subrange(p, b.len() as int), max),
{
    let rest = b.subrange(p, b.len() as int);
    valid_utf8_split(b, p);
    assert forall|k: int|
        0 <= k < rest.len() && is_char_boundary(rest, k) implies length_of_first_scalar(
            #[trigger] rest.subrange(k, rest.len() as int),
        ) <= max by {
        is_char_boundary_iff_not_is_continuation_byte(rest, k);
        is_char_boundary_iff_not_is_continuation_byte(b, p + k);
        assert(rest.subrange(k, rest.len() as int) =~= b.subrange(p + k, b.len() as int));
    }
}

/// The pieces of a valid UTF-8 text within the width bound join back to it,
/// and each is a non-empty, whole UTF-8 text of at most `max` bytes.
proof fn lemma_pieces_of_bytes(b: Seq<u8>, max: int)
    requires
        valid_utf8(b),
        max > 0,
        chars_within(b, max),
    ensures
        joined(chunk_pieces(b, max)) == b,
        forall|i: int|
            0 <= i < chunk_pieces(b, max).len() ==> 0 < (#[trigger] chunk_pieces(b, max)[i]).len()
                <= max && valid_utf8(chunk_pieces(b, max)[i]),
    decreases b.len(),
{
    if b.len() == 0 {
        assert(chunk_pieces(b, max) =~= seq![]);
    } else {
        lemma_piece_progress(b, max);
        let p = piece_len(b, max);
        let piece = b.subrange(0, p);
        let rest = b.subrange(p, b.len() as int);
        valid_utf8_split(b, p);
        lemma_chars_within_suffix(b, p, max);
        lemma_pieces_of_bytes(rest, max);
        let ps = chunk_pieces(b, max);
        assert(ps == seq![piece] + chunk_pieces(rest, max));
        assert(ps.drop_first() =~= chunk_pieces(rest, max));
        assert(piece + rest =~= b);
        assert forall|i: int| 0 <= i < ps.len() implies 0 < (#[trigger] ps[i]).len() <= max
            && valid_utf8(ps[i]) by {
            if i > 0 {
                assert(ps[i] == chunk_pieces(rest, max)[i - 1]);
            }
        }
    }
}

/// Splitting a text with a positive maximum that none of its characters
/// exceeds: the pieces join back to the text exactly, none is empty or longer
/// than the maximum, and none ends inside a character.
pub proof fn lemma_chunks_rejoin(s: &str, max: usize)
    requires
        max > 0,
        chars_within(s.spec_bytes(), max as int),
    ensures
        joined(chunk_pieces(s.spec_bytes(), max as int)) == s.spec_bytes(),
        forall|i: int|
            0 <= i < chunk_pieces(s.spec_bytes(), max as int).len() ==> 0 < (
            #[trigger] chunk_pieces(s.spec_bytes(), max as int)[i]).len() <= max && valid_utf8(
                chunk_pieces(s.spec_bytes(), max as int)[i],
            ),
{
    encode_utf8_valid_utf8(s@);
    lemma_pieces_of_bytes(s.spec_bytes(), max as int);
}

/// After an ASCII byte of a valid UTF-8 text comes a character boundary.
proof fn lemma_boundary_after_ascii(b: Seq<u8>, j: int)
    requires
        valid_utf8(b),
        0 <= j < b.len(),
        b[j] < 0x80,
    ensures
        is_char_boundary(b, j + 1),
    decreases b.len(),
{
    let l = length_of_first_scalar(b);
    reveal_with_fuel(is_char_boundary, 2);
    if j >= l {
        lemma_boundary_after_ascii(pop_first_scalar(b), j - l);
    }
}

/// The position just after the last newline among the first `k` bytes, 0 if none.
fn after_last_newline_in(bytes: &[u8], k: usize) -> (r: usize)
    requires
        k <= bytes@.len(),
    ensures
        r == after_last_newline(bytes@, k as int),
{
    let mut i: usize = k;
    while i > 0
        invariant
            i <= k <= bytes@.len(),
            after_last_newline(bytes@, i as int) == after_last_newline(bytes@, k as int),
        decreases i,
    {
        if bytes[i - 1] == NEWLINE {
            return i;
        }
        i = i - 1;
    }
    0
}

/// Finds the character boundary at or before an index of a string slice.
pub fn find_char_boundary_before_idx(data: &str, idx: usize) -> (r: usize)
    ensures
        r == boundary_at_most(data.spec_bytes(), idx as int),
{
    proof {
        encode_utf8_valid_utf8(data@);
    }
    let mut i = idx;
    loop
        invariant
            valid_utf8(data.spec_bytes()),
            boundary_at_most(data.spec_bytes(), i as int) == boundary_at_most(
                data.spec_bytes(),
                idx as int,
            ),
        decreases i,
    {
        if data.is_char_boundary(i) {
            return i;
        }
        i = i - 1;
        if i == 0 {
            assert(boundary_at_most(data.spec_bytes(), 0) == 0);
            return i;
        }
    }
}

} // verus!
