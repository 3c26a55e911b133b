//! Laws of the history buffer and of compression.

use vstd::prelude::*;

use crate::history::{
    after_pushes, compress_history, decompress_history, has_zstd_magic, last_n, should_compress,
    zstd_decoded, zstd_encoded, CircularBuffer, CodecError,
};
use crate::constants::{COMPRESSION_THRESHOLD, DEFAULT_HISTORY_CAPACITY};

verus! {

/// The end of a sequence is as long as asked for, or as the sequence if that is
/// shorter, and its elements are the last ones, in their order.
pub proof fn law_last_n<A>(s: Seq<A>, n: nat)
    ensures
        last_n(s, n).len() == if s.len() < n {
            s.len()
        } else {
            n
        },
        forall|i: int|
            0 <= i < last_n(s, n).len() ==> #[trigger] last_n(s, n)[i] == s[s.len() - last_n(
                s,
                n,
            ).len() + i],
{
}

/// A new buffer is empty and has the capacity that was asked for.
pub proof fn law_new_buffer(capacity: usize, res: CircularBuffer)
    requires
        call_ensures(CircularBuffer::new, (capacity,), res),
    ensures
        res.wf(),
        res@.len() == 0,
        res.spec_capacity() == capacity,
{
}

/// The default capacity is ten times 1024 times 1024 bytes.
pub proof fn law_default_buffer(res: CircularBuffer)
    requires
        call_ensures(CircularBuffer::with_default_capacity, (), res),
    ensures
        res.wf(),
        res@.len() == 0,
        res.spec_capacity() == 10485760,
        DEFAULT_HISTORY_CAPACITY == 10485760,
{
}

/// After a push the buffer holds the end of what it held and was given: every byte
/// of it if there is room, or else as many as there is room for, the last ones.
pub proof fn law_push(buffer: &mut CircularBuffer, bytes: &[u8], res: ())
    requires
        old(buffer).wf(),
        call_ensures(CircularBuffer::push, (buffer, bytes), res),
    ensures
        final(buffer).wf(),
        final(buffer).spec_capacity() == old(buffer).spec_capacity(),
        ({
            let all = old(buffer)@ + bytes@;
            let held = final(buffer)@;
            &&& held.len() == if all.len() < old(buffer).spec_capacity() {
                all.len()
            } else {
                old(buffer).spec_capacity()
            }
            &&& forall|i: int|
                0 <= i < held.len() ==> #[trigger] held[i] == all[all.len() - held.len() + i]
        }),
{
    law_last_n(old(buffer)@ + bytes@, old(buffer).spec_capacity());
}

/// What a buffer tells of itself is what it holds.
pub proof fn law_buffer_tells_what_it_holds(
    buffer: &CircularBuffer,
    bytes: Vec<u8>,
    len: usize,
    empty: bool,
    capacity: usize,
    copy: CircularBuffer,
)
    requires
        buffer.wf(),
        call_ensures(CircularBuffer::to_vec, (buffer,), bytes),
        call_ensures(CircularBuffer::len, (buffer,), len),
        call_ensures(CircularBuffer::is_empty, (buffer,), empty),
        call_ensures(CircularBuffer::capacity, (buffer,), capacity),
        call_ensures(CircularBuffer::clone, (buffer,), copy),
    ensures
        bytes@ == buffer@,
        len == bytes@.len(),
        empty == (bytes@.len() == 0),
        capacity == buffer.spec_capacity(),
        len <= capacity,
        copy@ == buffer@,
        copy.spec_capacity() == buffer.spec_capacity(),
        copy.wf(),
{
    buffer.lemma_view_len();
}

/// A cleared buffer holds nothing and keeps its capacity.
pub proof fn law_clear(buffer: &mut CircularBuffer, res: ())
    requires
        old(buffer).wf(),
        call_ensures(CircularBuffer::clear, (buffer,), res),
    ensures
        final(buffer).wf(),
        final(buffer)@.len() == 0,
        final(buffer).spec_capacity() == old(buffer).spec_capacity(),
{
}

/// Of a number of pushes that fit into the buffer every byte is kept, in order.
pub proof fn law_nothing_is_lost_that_fits(start: Seq<u8>, chunks: Seq<Seq<u8>>, n: nat)
    requires
        start.len() + chunks.flatten().len() <= n,
    ensures
        after_pushes(start, chunks, n) == start + chunks.flatten(),
{
    crate::history::law_history_is_the_end_of_the_output(start, chunks, n);
}

/// Compression is by zstd at its level 3, and its results begin with the four bytes
/// `28 b5 2f fd`.
pub proof fn law_compression_is_by_zstd(data: &[u8], res: Result<Vec<u8>, CodecError>)
    requires
        call_ensures(compress_history, (data,), res),
    ensures
        res matches Ok(v) ==> {
            &&& v@ == zstd_encoded(data@, 3)
            &&& v@.len() >= 4
            &&& v@[0] == 0x28 && v@[1] == 0xb5 && v@[2] == 0x2f && v@[3] == 0xfd
        },
        res matches Err(e) ==> e == CodecError::OutOfMemory,
{
}

/// Decompressing what compressing any data gave gives the data, unless memory runs
/// out.
pub proof fn law_round_trip(
    data: &[u8],
    frame: Vec<u8>,
    frame_slice: &[u8],
    res: Result<Vec<u8>, CodecError>,
)
    requires
        call_ensures(compress_history, (data,), Ok(frame)),
        frame_slice@ == frame@,
        call_ensures(decompress_history, (frame_slice,), res),
    ensures
        res matches Ok(v) ==> v@ == data@,
        res matches Err(e) ==> e == CodecError::OutOfMemory,
{
}

/// Decompression gives exactly what zstd reads out of the data.
pub proof fn law_decompression_is_by_zstd(data: &[u8], res: Result<Vec<u8>, CodecError>)
    requires
        call_ensures(decompress_history, (data,), res),
    ensures
        res matches Ok(v) ==> zstd_decoded(data@) == Some(v@),
        res matches Err(e) ==> e == CodecError::OutOfMemory || zstd_decoded(data@) is None,
{
}

/// A zstd frame is told by its first four bytes, and by nothing else.
pub proof fn law_zstd_magic(bytes: Seq<u8>)
    ensures
        has_zstd_magic(bytes) <==> bytes.len() >= 4 && bytes[0] == 0x28 && bytes[1] == 0xb5
            && bytes[2] == 0x2f && bytes[3] == 0xfd,
{
}

/// Data is compressed if it is longer than 1024 times 1024 bytes.
pub proof fn law_should_compress(len: usize, res: bool)
    requires
        call_ensures(should_compress, (len,), res),
    ensures
        res == (len > 1048576),
        COMPRESSION_THRESHOLD == 1048576,
{
}

/// Errors say what zstd says, and lack of memory is told by zstd's words for it.
pub proof fn law_codec_errors(text: String, error: CodecError, message: String)
    requires
        call_ensures(CodecError::of_text, (text,), error),
        call_ensures(CodecError::message, (&error,), message),
    ensures
        message@ == text@,
        error == CodecError::OutOfMemory <==> text@ == "Allocation error : not enough memory"@,
{
}

} // verus!
