//! Cutting the output of a PTY into pieces that do not split characters.

use vstd::prelude::*;
use vstd::utf8::*;

use crate::constants::PTY_READ_BUFFER_SIZE;
use crate::history::{after_pushes, last_n, law_history_is_the_end_of_the_output};
use crate::utf8::{
    find_utf8_safe_boundary, law_safe_part_of_valid_stream_is_valid,
    law_valid_chunk_is_safe, lemma_no_unfinished_across, safe_len,
};

verus! {

/// The part of `s` that can be handed on now.
pub open spec fn safe_part(s: Seq<u8>) -> Seq<u8> {
    s.take(safe_len(s))
}

/// The part of `s` that has to wait for the bytes to come.
pub open spec fn held_part(s: Seq<u8>) -> Seq<u8> {
    s.skip(safe_len(s))
}

/// Reads the output of a PTY in pieces that do not split characters. Its view is
/// the start of a character whose other bytes have not been read yet.
#[derive(Debug)]
pub struct PtyReader {
    carry: Vec<u8>,
}

impl View for PtyReader {
    type V = Seq<u8>;

    closed spec fn view(&self) -> Seq<u8> {
        self.carry@
    }
}

impl PtyReader {
    /// What every reader made by this module satisfies.
    pub closed spec fn wf(&self) -> bool {
        self.carry@.len() <= 3
    }

    /// A reader that has not read anything.
    pub fn new() -> (res: Self)
        ensures
            res.wf(),
            res@ == Seq::<u8>::empty(),
    {
        PtyReader { carry: Vec::new() }
    }

    /// The number of bytes that may be read next: what remains of the read
    /// buffer beside the bytes carried over, which is never nothing.
    pub fn read_capacity(&self) -> (res: usize)
        requires
            self.wf(),
        ensures
            res == PTY_READ_BUFFER_SIZE - self@.len(),
            res > 0,
    {
        PTY_READ_BUFFER_SIZE - self.carry.len()
    }

    /// Takes in the bytes of one read. Gives the bytes that are complete now, and
    /// carries over the start of a character that is not: at most three bytes.
    pub fn accept(&mut self, chunk: &[u8]) -> (res: Vec<u8>)
        requires
            old(self).wf(),
        ensures
            final(self).wf(),
            res@ == safe_part(old(self)@ + chunk@),
            final(self)@ == held_part(old(self)@ + chunk@),
            final(self)@.len() <= 3,
            res@ + final(self)@ == old(self)@ + chunk@,
    {
        let ghost all = self.carry@ + chunk@;
        let mut data: Vec<u8> = Vec::new();
        data.append(&mut self.carry);
        data.extend_from_slice(chunk);
        assert(data@ =~= all);
        let boundary = find_utf8_safe_boundary(data.as_slice());
        let held = data.split_off(boundary);
        self.carry = held;
        assert(data@ =~= safe_part(all));
        assert(self.carry@ =~= held_part(all));
        assert(data@ + self.carry@ =~= all);
        data
    }
}

/// The pieces that a fresh reader gives for `chunks`, read one after the other,
/// and what it carries over then.
pub open spec fn after_reads(chunks: Seq<Seq<u8>>) -> (Seq<Seq<u8>>, Seq<u8>)
    decreases chunks.len(),
{
    if chunks.len() == 0 {
        (Seq::empty(), Seq::empty())
    } else {
        let (pieces, carry) = after_reads(chunks.drop_last());
        let all = carry + chunks.last();
        (pieces.push(safe_part(all)), held_part(all))
    }
}

/// How a stream is cut into reads makes no difference: the pieces given so far,
/// put together, are the safe part of all that was read, and what is carried
/// over is the rest of it. No byte is lost, repeated or moved.
pub proof fn law_pieces_are_the_stream(chunks: Seq<Seq<u8>>)
    ensures
        after_reads(chunks).0.flatten() == safe_part(chunks.flatten()),
        after_reads(chunks).1 == held_part(chunks.flatten()),
        after_reads(chunks).0.flatten() + after_reads(chunks).1 == chunks.flatten(),
    decreases chunks.len(),
{
    let whole = chunks.flatten();
    if chunks.len() == 0 {
        assert(whole =~= Seq::<u8>::empty());
        assert(after_reads(chunks).0.flatten() =~= Seq::<u8>::empty());
        law_valid_chunk_is_safe(whole);
        assert(safe_part(whole) =~= whole);
        assert(held_part(whole) =~= whole);
    } else {
        let front = chunks.drop_last();
        law_pieces_are_the_stream(front);
        let (pieces, carry) = after_reads(front);
        let before = front.flatten();
        let all = carry + chunks.last();
        front.lemma_flatten_push(chunks.last());
        assert(front.push(chunks.last()) =~= chunks);
        assert(whole =~= safe_part(before) + all);
        pieces.lemma_flatten_push(safe_part(all));
        lemma_no_unfinished_across(before, chunks.last());
        assert(safe_part(before) + safe_part(all) =~= safe_part(whole));
        assert(held_part(all) =~= held_part(whole));
    }
    assert(safe_part(whole) + held_part(whole) =~= whole);
}

/// The history of a session that had the history `start`, of capacity `n`, and
/// whose output was then read in `chunks`, is the end of `start` and of the
/// complete output together.
pub proof fn law_history_is_the_end_of_the_stream(start: Seq<u8>, chunks: Seq<Seq<u8>>, n: nat)
    requires
        start.len() <= n,
    ensures
        after_pushes(start, after_reads(chunks).0, n) == last_n(
            start + safe_part(chunks.flatten()),
            n,
        ),
{
    law_pieces_are_the_stream(chunks);
    law_history_is_the_end_of_the_output(start, after_reads(chunks).0, n);
}

/// The decoded pieces, put together.
pub open spec fn decoded(pieces: Seq<Seq<u8>>) -> Seq<char>
    decreases pieces.len(),
{
    if pieces.len() == 0 {
        Seq::empty()
    } else {
        decoded(pieces.drop_last()) + decode_utf8(pieces.last())
    }
}

/// In a stream that is valid UTF-8 so far as it was read, up to a character that
/// is still to be completed by `rest`, every piece is valid UTF-8, and the decoded
/// pieces together are the text that was read.
#[verifier::spinoff_prover]
#[verifier::rlimit(40)]
pub proof fn law_pieces_of_valid_stream_are_valid(chunks: Seq<Seq<u8>>, rest: Seq<u8>)
    requires
        valid_utf8(chunks.flatten() + rest),
    ensures
        forall|i: int|
            0 <= i < after_reads(chunks).0.len() ==> valid_utf8(#[trigger] after_reads(chunks).0[i]),
        valid_utf8(safe_part(chunks.flatten())),
        decoded(after_reads(chunks).0) == decode_utf8(safe_part(chunks.flatten())),
    decreases chunks.len(),
{
    let whole = chunks.flatten();
    assert((whole + rest).take(whole.len() as int) =~= whole);
    law_safe_part_of_valid_stream_is_valid(whole + rest, whole.len() as int);
    law_pieces_are_the_stream(chunks);
    if chunks.len() == 0 {
        assert(safe_part(whole) =~= Seq::<u8>::empty());
    } else {
        let front = chunks.drop_last();
        let (pieces, carry) = after_reads(front);
        let piece = safe_part(carry + chunks.last());
        front.lemma_flatten_push(chunks.last());
        assert(front.push(chunks.last()) =~= chunks);
        assert(front.flatten() + (chunks.last() + rest) =~= whole + rest);
        law_pieces_of_valid_stream_are_valid(front, chunks.last() + rest);
        law_pieces_are_the_stream(front);
        pieces.lemma_flatten_push(piece);
        let given = safe_part(front.flatten());
        let now = safe_part(whole);
        assert(now == given + piece);
        lemma_decode_rest(given, piece);
        assert(after_reads(chunks).0 == pieces.push(piece));
        assert(pieces.push(piece).drop_last() =~= pieces);
    }
}

proof fn lemma_decode_rest(a: Seq<u8>, b: Seq<u8>)
    requires
        valid_utf8(a),
        valid_utf8(a + b),
    ensures
        valid_utf8(b),
        decode_utf8(a + b) == decode_utf8(a) + decode_utf8(b),
{
    assert((a + b).subrange(0, a.len() as int) =~= a);
    assert((a + b).subrange(a.len() as int, (a + b).len() as int) =~= b);
    if !valid_utf8(b) {
        partial_valid_partial_invalid_utf8(a + b, a.len() as int);
    }
    lemma_decode_concat(a, b);
}

proof fn lemma_decode_concat(a: Seq<u8>, b: Seq<u8>)
    requires
        valid_utf8(a),
        valid_utf8(b),
    ensures
        valid_utf8(a + b),
        decode_utf8(a + b) == decode_utf8(a) + decode_utf8(b),
    decreases a.len(),
{
    valid_utf8_concat(a, b);
    if a.len() == 0 {
        assert(a + b =~= b);
        assert(decode_utf8(a) + decode_utf8(b) =~= decode_utf8(b));
    } else {
        lemma_decode_concat(pop_first_scalar(a), b);
        assert(pop_first_scalar(a + b) =~= pop_first_scalar(a) + b);
        assert(decode_first_scalar(a + b) == decode_first_scalar(a));
        assert(decode_utf8(a + b) =~= decode_utf8(a) + decode_utf8(b));
    }
}

} // verus!
