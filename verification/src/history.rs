//! Bounded history of a session's terminal output, and its compression.

use vstd::prelude::*;
use vstd::slice::slice_subrange;
use vstd::string::*;

pub use crate::constants::{COMPRESSION_THRESHOLD, DEFAULT_HISTORY_CAPACITY};
use crate::text::str_eq;

verus! {

/// The last `n` elements of `s`, or all of `s` if it has no more than `n`.
pub open spec fn last_n<A>(s: Seq<A>, n: nat) -> Seq<A> {
    if s.len() <= n {
        s
    } else {
        s.skip(s.len() - n)
    }
}

/// A byte buffer of fixed capacity that forgets its oldest bytes when full.
///
/// Its view is the bytes it remembers, oldest first.
#[derive(Debug)]
pub struct CircularBuffer {
    data: Vec<u8>,
    capacity: usize,
    write_pos: usize,
    len: usize,
}

impl View for CircularBuffer {
    type V = Seq<u8>;

    closed spec fn view(&self) -> Seq<u8> {
        if self.len < self.capacity {
            self.data@.take(self.len as int)
        } else {
            self.data@.skip(self.write_pos as int) + self.data@.take(self.write_pos as int)
        }
    }
}

impl CircularBuffer {
    /// What every buffer made by this module satisfies.
    pub closed spec fn wf(&self) -> bool {
        &&& self.capacity > 0
        &&& self.data@.len() == self.capacity
        &&& self.write_pos < self.capacity
        &&& self.len <= self.capacity
        &&& self.len < self.capacity ==> self.write_pos == self.len
    }

    /// The number of bytes that the buffer can hold.
    pub closed spec fn spec_capacity(&self) -> nat {
        self.capacity as nat
    }

    /// Creates an empty buffer that holds up to `capacity` bytes.
    pub fn new(capacity: usize) -> (res: Self)
        requires
            0 < capacity <= isize::MAX,
        ensures
            res.wf(),
            res@ == Seq::<u8>::empty(),
            res.spec_capacity() == capacity,
    {
        CircularBuffer { data: vec![0u8; capacity], capacity, write_pos: 0, len: 0 }
    }

    /// Creates an empty buffer of the default capacity.
    pub fn with_default_capacity() -> (res: Self)
        ensures
            res.wf(),
            res@ == Seq::<u8>::empty(),
            res.spec_capacity() == DEFAULT_HISTORY_CAPACITY,
    {
        Self::new(DEFAULT_HISTORY_CAPACITY)
    }

    /// Appends one byte; in a full buffer the oldest byte gives way to it.
    fn push_byte(&mut self, byte: u8)
        requires
            old(self).wf(),
        ensures
            final(self).wf(),
            final(self).spec_capacity() == old(self).spec_capacity(),
            final(self)@ == last_n(old(self)@.push(byte), old(self).spec_capacity()),
    {
        let ghost before = *self;
        self.data[self.write_pos] = byte;
        if self.write_pos + 1 == self.capacity {
            self.write_pos = 0;
        } else {
            self.write_pos = self.write_pos + 1;
        }
        if self.len < self.capacity {
            self.len = self.len + 1;
        }
        assert(self@ =~= last_n(before@.push(byte), before.spec_capacity()));
    }

    /// Appends `bytes`, overwriting the oldest bytes when the capacity is
    /// exceeded: the buffer then holds the last bytes of all that it held and
    /// was given.
    pub fn push(&mut self, bytes: &[u8])
        requires
            old(self).wf(),
        ensures
            final(self).wf(),
            final(self).spec_capacity() == old(self).spec_capacity(),
            final(self)@ == last_n(old(self)@ + bytes@, old(self).spec_capacity()),
    {
        let ghost before = *self;
        let ghost cap = self.spec_capacity();
        proof {
            self.lemma_view_len();
        }
        // Of an input longer than the capacity only the end can remain.
        let kept: &[u8] = if bytes.len() > self.capacity {
            slice_subrange(bytes, bytes.len() - self.capacity, bytes.len())
        } else {
            bytes
        };
        assert(last_n(before@ + kept@, cap) == last_n(before@ + bytes@, cap));
        let mut i: usize = 0;
        assert(before@ + kept@.take(0) == before@);
        while i < kept.len()
            invariant
                self.wf(),
                self.spec_capacity() == cap,
                i <= kept@.len(),
                self@ == last_n(before@ + kept@.take(i as int), cap),
            decreases kept.len() - i,
        {
            let ghost seen = before@ + kept@.take(i as int);
            self.push_byte(kept[i]);
            proof {
                assert(before@ + kept@.take(i + 1) == seen.push(kept@[i as int]));
                lemma_last_n_push(seen, kept@[i as int], cap);
            }
            i += 1;
        }
        assert(kept@.take(i as int) == kept@);
    }

    /// The bytes that the buffer remembers, oldest first.
    pub fn to_vec(&self) -> (res: Vec<u8>)
        requires
            self.wf(),
        ensures
            res@ == self@,
    {
        let mut res: Vec<u8> = Vec::with_capacity(self.len);
        if self.len < self.capacity {
            // Not wrapped yet: the data is at the start.
            res.extend_from_slice(slice_subrange(self.data.as_slice(), 0, self.len));
        } else {
            // Wrapped: the oldest byte is where the next one will be written.
            res.extend_from_slice(
                slice_subrange(self.data.as_slice(), self.write_pos, self.capacity),
            );
            res.extend_from_slice(slice_subrange(self.data.as_slice(), 0, self.write_pos));
        }
        assert(res@ =~= self@);
        res
    }

    /// The number of bytes currently in the buffer.
    pub fn len(&self) -> (res: usize)
        requires
            self.wf(),
        ensures
            res == self@.len(),
    {
        self.len
    }

    /// Whether the buffer holds no byte.
    pub fn is_empty(&self) -> (res: bool)
        requires
            self.wf(),
        ensures
            res == (self@.len() == 0),
    {
        self.len == 0
    }

    /// The number of bytes that the buffer can hold.
    pub fn capacity(&self) -> (res: usize)
        ensures
            res == self.spec_capacity(),
    {
        self.capacity
    }

    /// Forgets every byte; the capacity stays.
    pub fn clear(&mut self)
        requires
            old(self).wf(),
        ensures
            final(self).wf(),
            final(self)@ == Seq::<u8>::empty(),
            final(self).spec_capacity() == old(self).spec_capacity(),
    {
        self.write_pos = 0;
        self.len = 0;
        assert(self@ =~= Seq::<u8>::empty());
    }

    /// A buffer never holds more bytes than its capacity, which is not zero.
    pub proof fn lemma_view_len(&self)
        requires
            self.wf(),
        ensures
            self@.len() <= self.spec_capacity(),
            self.spec_capacity() > 0,
    {
    }
}

impl Clone for CircularBuffer {
    fn clone(&self) -> (res: Self)
        ensures
            res@ == self@,
            res.wf() == self.wf(),
            res.spec_capacity() == self.spec_capacity(),
    {
        let data = self.data.clone();
        assert(data@ =~= self.data@);
        CircularBuffer {
            data,
            capacity: self.capacity,
            write_pos: self.write_pos,
            len: self.len,
        }
    }
}

proof fn lemma_last_n_push<A>(s: Seq<A>, a: A, n: nat)
    ensures
        last_n(last_n(s, n).push(a), n) == last_n(s.push(a), n),
{
    assert(last_n(last_n(s, n).push(a), n) =~= last_n(s.push(a), n));
}

/// Pushing `a` and then `b` leaves a buffer of capacity `n` that held `s` with
/// the same bytes as pushing the two together.
pub proof fn law_push_in_parts(s: Seq<u8>, a: Seq<u8>, b: Seq<u8>, n: nat)
    ensures
        last_n(last_n(s + a, n) + b, n) == last_n(s + (a + b), n),
{
    assert(last_n(last_n(s + a, n) + b, n) =~= last_n(s + (a + b), n));
}

/// What a buffer of capacity `n` that held `start` holds after `chunks` were
/// pushed, one after the other.
pub open spec fn after_pushes(start: Seq<u8>, chunks: Seq<Seq<u8>>, n: nat) -> Seq<u8>
    decreases chunks.len(),
{
    if chunks.len() == 0 {
        start
    } else {
        last_n(after_pushes(start, chunks.drop_last(), n) + chunks.last(), n)
    }
}

/// Whatever was pushed, a buffer of capacity `n` holds the last `n` bytes of it
/// and of what the buffer held before, in the order in which they came.
pub proof fn law_history_is_the_end_of_the_output(start: Seq<u8>, chunks: Seq<Seq<u8>>, n: nat)
    requires
        start.len() <= n,
    ensures
        after_pushes(start, chunks, n) == last_n(start + chunks.flatten(), n),
    decreases chunks.len(),
{
    if chunks.len() == 0 {
        assert(start + chunks.flatten() =~= start);
    } else {
        let earlier = chunks.drop_last();
        law_history_is_the_end_of_the_output(start, earlier, n);
        earlier.lemma_flatten_push(chunks.last());
        assert(earlier.push(chunks.last()) =~= chunks);
        law_push_in_parts(start, earlier.flatten(), chunks.last(), n);
    }
}

/// The zstd frame that `zstd::encode_all` makes of `bytes` at `level`.
pub uninterp spec fn zstd_encoded(bytes: Seq<u8>, level: i32) -> Seq<u8>;

/// The contents that `zstd::decode_all` reads out of `bytes`, if `bytes` is a
/// sequence of complete zstd frames.
pub uninterp spec fn zstd_decoded(bytes: Seq<u8>) -> Option<Seq<u8>>;

/// Whether `bytes` begins with the four bytes that open a zstd frame.
pub open spec fn has_zstd_magic(bytes: Seq<u8>) -> bool {
    &&& bytes.len() >= 4
    &&& bytes[0] == 0x28
    &&& bytes[1] == 0xb5
    &&& bytes[2] == 0x2f
    &&& bytes[3] == 0xfd
}

/// The compression level of saved histories, which is also the default of zstd.
pub const COMPRESSION_LEVEL: i32 = 3;

/// The words by which zstd reports that it could not get memory.
pub const ZSTD_OUT_OF_MEMORY: &'static str = "Allocation error : not enough memory";

/// Why data could not be compressed or decompressed.
#[derive(Debug, Clone, PartialEq)]
pub enum CodecError {
    /// There was not enough memory.
    OutOfMemory,
    /// The data is no sequence of complete zstd frames; zstd says why.
    Malformed(String),
}

impl CodecError {
    /// The words of zstd.
    pub open spec fn text(self) -> Seq<char> {
        match self {
            CodecError::OutOfMemory => ZSTD_OUT_OF_MEMORY@,
            CodecError::Malformed(text) => text@,
        }
    }

    /// The error that zstd reports in the words `text`.
    pub open spec fn spec_of_text(text: String) -> CodecError {
        if text@ == ZSTD_OUT_OF_MEMORY@ {
            CodecError::OutOfMemory
        } else {
            CodecError::Malformed(text)
        }
    }

    /// The error that zstd reports in the words `text`.
    pub fn of_text(text: String) -> (res: CodecError)
        ensures
            res == Self::spec_of_text(text),
            res.text() == text@,
    {
        if str_eq(text.as_str(), ZSTD_OUT_OF_MEMORY) {
            CodecError::OutOfMemory
        } else {
            CodecError::Malformed(text)
        }
    }

    /// The words of zstd.
    pub fn message(&self) -> (res: String)
        ensures
            res@ == self.text(),
    {
        match self {
            CodecError::OutOfMemory => ZSTD_OUT_OF_MEMORY.to_owned(),
            CodecError::Malformed(text) => text.clone(),
        }
    }
}

/// Calls `zstd::encode_all`, and gives the words of its error where it fails. Its
/// result is determined by the data and the level, begins with the magic number of
/// the frame format, and is decoded to the data again. Lack of memory is the one
/// thing that keeps it from succeeding, and then its error says so.
#[verifier::external_body]
fn zstd_encode_all(data: &[u8], level: i32) -> (res: Result<Vec<u8>, String>)
    requires
        1 <= level <= 22,
    ensures
        match res {
            Ok(v) => {
                &&& v@ == zstd_encoded(data@, level)
                &&& has_zstd_magic(v@)
                &&& zstd_decoded(v@) == Some(data@)
            },
            Err(text) => text@ == ZSTD_OUT_OF_MEMORY@,
        },
{
    match zstd::encode_all(std::io::Cursor::new(data), level) {
        Ok(v) => Ok(v),
        Err(e) => Err(e.to_string()),
    }
}

/// Calls `zstd::decode_all`, and gives the words of its error where it fails. Its
/// result is the contents of the frames that the data consists of. It fails on data
/// that is no sequence of complete frames; other than that, lack of memory is the
/// one thing that keeps it from succeeding, and then its error says so.
#[verifier::external_body]
fn zstd_decode_all(data: &[u8]) -> (res: Result<Vec<u8>, String>)
    ensures
        match res {
            Ok(v) => zstd_decoded(data@) == Some(v@),
            Err(text) => zstd_decoded(data@) is None || text@ == ZSTD_OUT_OF_MEMORY@,
        },
{
    match zstd::decode_all(std::io::Cursor::new(data)) {
        Ok(v) => Ok(v),
        Err(e) => Err(e.to_string()),
    }
}

/// What a call of zstd came to, with its error classified.
pub open spec fn classified(res: Result<Vec<u8>, String>) -> Result<Vec<u8>, CodecError> {
    match res {
        Ok(v) => Ok(v),
        Err(text) => Err(CodecError::spec_of_text(text)),
    }
}

/// Whether `res` is what zstd answered when it was given `data` to compress.
pub closed spec fn compression_came_to(data: Seq<u8>, res: Result<Vec<u8>, CodecError>) -> bool {
    exists|s: &[u8], r: Result<Vec<u8>, String>|
        s@ == data && #[trigger] call_ensures(zstd_encode_all, (s, COMPRESSION_LEVEL), r) && res
            == classified(r)
}

/// Whether `res` is what zstd answered when it was given `data` to decompress.
pub closed spec fn decompression_came_to(data: Seq<u8>, res: Result<Vec<u8>, CodecError>) -> bool {
    exists|s: &[u8], r: Result<Vec<u8>, String>|
        s@ == data && #[trigger] call_ensures(zstd_decode_all, (s,), r) && res == classified(r)
}

/// Compressing any data gives one determined zstd frame, which is decoded to the
/// data again, unless memory runs out.
pub proof fn law_compression(data: Seq<u8>, res: Result<Vec<u8>, CodecError>)
    requires
        compression_came_to(data, res),
    ensures
        match res {
            Ok(v) => {
                &&& v@ == zstd_encoded(data, COMPRESSION_LEVEL)
                &&& has_zstd_magic(v@)
                &&& zstd_decoded(v@) == Some(data)
            },
            Err(e) => e is OutOfMemory,
        },
{
}

/// Decompressing gives the contents of the data where it has any, unless memory
/// runs out, and fails where it has none.
pub proof fn law_decompression(data: Seq<u8>, res: Result<Vec<u8>, CodecError>)
    requires
        decompression_came_to(data, res),
    ensures
        match res {
            Ok(v) => zstd_decoded(data) == Some(v@),
            Err(e) => e is OutOfMemory || zstd_decoded(data) is None,
        },
{
}

/// What was compressed is decompressed to the same data again, unless memory runs
/// out.
pub proof fn law_compression_is_undone(
    data: Seq<u8>,
    frame: Vec<u8>,
    res: Result<Vec<u8>, CodecError>,
)
    requires
        compression_came_to(data, Ok(frame)),
        decompression_came_to(frame@, res),
    ensures
        match res {
            Ok(v) => v@ == data,
            Err(e) => e is OutOfMemory,
        },
{
    law_compression(data, Ok(frame));
    law_decompression(frame@, res);
}

/// Compresses `data` to a zstd frame: gives what zstd answered. That is a failure
/// only if memory runs out.
pub fn compress_history(data: &[u8]) -> (res: Result<Vec<u8>, CodecError>)
    ensures
        compression_came_to(data@, res),
        match res {
            Ok(v) => {
                &&& v@ == zstd_encoded(data@, COMPRESSION_LEVEL)
                &&& has_zstd_magic(v@)
                &&& zstd_decoded(v@) == Some(data@)
            },
            Err(e) => e is OutOfMemory,
        },
{
    match zstd_encode_all(data, COMPRESSION_LEVEL) {
        Ok(v) => Ok(v),
        Err(text) => Err(CodecError::of_text(text)),
    }
}

/// Decompresses zstd frames: gives what zstd answered. That is a failure only if
/// the data is no sequence of complete frames, or if memory runs out.
pub fn decompress_history(data: &[u8]) -> (res: Result<Vec<u8>, CodecError>)
    ensures
        decompression_came_to(data@, res),
        match res {
            Ok(v) => zstd_decoded(data@) == Some(v@),
            Err(e) => e is OutOfMemory || zstd_decoded(data@) is None,
        },
{
    match zstd_decode_all(data) {
        Ok(v) => Ok(v),
        Err(text) => Err(CodecError::of_text(text)),
    }
}

/// Whether a history of `data_len` bytes is long enough to be compressed.
pub fn should_compress(data_len: usize) -> (res: bool)
    ensures
        res == (data_len > COMPRESSION_THRESHOLD),
{
    data_len > COMPRESSION_THRESHOLD
}

} // verus!
