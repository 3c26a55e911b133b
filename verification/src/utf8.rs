//! Where a chunk of a UTF-8 byte stream can be cut, and bytes as text.

use vstd::prelude::*;
use vstd::utf8::*;

verus! {

/// Whether `s` is the UTF-8 encoding of exactly one character.
pub open spec fn encodes_one_char(s: Seq<u8>) -> bool {
    valid_first_scalar(s) && length_of_first_scalar(s) == s.len()
}

/// Whether `s` starts the encoding of a character without completing it.
pub open spec fn is_unfinished(s: Seq<u8>) -> bool {
    &&& s.len() > 0
    &&& exists|rest: Seq<u8>| rest.len() > 0 && encodes_one_char(#[trigger] (s + rest))
}

/// The last `k` bytes of `s`.
pub open spec fn tail(s: Seq<u8>, k: int) -> Seq<u8> {
    s.skip(s.len() - k)
}

/// The number of bytes at the end of `s` that start the encoding of a character
/// without completing it.
pub open spec fn unfinished_len(s: Seq<u8>) -> int {
    if s.len() >= 1 && is_unfinished(tail(s, 1)) {
        1
    } else if s.len() >= 2 && is_unfinished(tail(s, 2)) {
        2
    } else if s.len() >= 3 && is_unfinished(tail(s, 3)) {
        3
    } else {
        0
    }
}

/// The length of the part of `s` that can be decoded without the bytes to come.
pub open spec fn safe_len(s: Seq<u8>) -> int {
    s.len() - unfinished_len(s)
}

/// The bytes with which the encoding of a character of two or more bytes starts.
spec fn opens(b: u8) -> bool {
    0xc2 <= b <= 0xf4
}

/// The second bytes that may follow `b` in an encoding of three or four bytes.
spec fn follows(b: u8, c: u8) -> bool {
    &&& 0x80 <= c <= 0xbf
    &&& b == 0xe0 ==> 0xa0 <= c
    &&& b == 0xed ==> c <= 0x9f
    &&& b == 0xf0 ==> 0x90 <= c
    &&& b == 0xf4 ==> c <= 0x8f
}

/// `is_unfinished`, read off the bytes.
spec fn unfinished_by_range(s: Seq<u8>) -> bool {
    ||| s.len() == 1 && opens(s[0])
    ||| s.len() == 2 && 0xe0 <= s[0] <= 0xf4 && follows(s[0], s[1])
    ||| s.len() == 3 && 0xf0 <= s[0] <= 0xf4 && follows(s[0], s[1]) && 0x80 <= s[2] <= 0xbf
}

proof fn lemma_width_2(a: u8, b: u8)
    requires
        0xc0 <= a <= 0xdf,
        0x80 <= b <= 0xbf,
    ensures
        codepoint_width_2(a, b) >= 0x80 <==> a >= 0xc2,
        codepoint_width_2(a, b) < 0x800,
{
    assert((((a & 0x1f) as u32) << 6) | ((b & 0x3f) as u32) >= 0x80 <==> a >= 0xc2) by (bit_vector)
        requires
            0xc0 <= a <= 0xdf,
            0x80 <= b <= 0xbf,
    ;
    assert((((a & 0x1f) as u32) << 6) | ((b & 0x3f) as u32) < 0x800) by (bit_vector);
}

proof fn lemma_width_3(a: u8, b: u8, c: u8)
    requires
        0xe0 <= a <= 0xef,
        0x80 <= b <= 0xbf,
        0x80 <= c <= 0xbf,
    ensures
        (codepoint_width_3(a, b, c) >= 0x800 && not_surrogate(codepoint_width_3(a, b, c)))
            <==> follows(a, b),
{
    let p = ((((a & 0x0f) as u32) << 12) | (((b & 0x3f) as u32) << 6)) | ((c & 0x3f) as u32);
    assert(p >= 0x800 <==> !(a == 0xe0 && b < 0xa0)) by (bit_vector)
        requires
            p == ((((a & 0x0f) as u32) << 12) | (((b & 0x3f) as u32) << 6)) | ((c & 0x3f) as u32),
            0xe0 <= a <= 0xef,
            0x80 <= b <= 0xbf,
            0x80 <= c <= 0xbf,
    ;
    assert((0xd800 <= p && p <= 0xdfff) <==> (a == 0xed && b > 0x9f)) by (bit_vector)
        requires
            p == ((((a & 0x0f) as u32) << 12) | (((b & 0x3f) as u32) << 6)) | ((c & 0x3f) as u32),
            0xe0 <= a <= 0xef,
            0x80 <= b <= 0xbf,
            0x80 <= c <= 0xbf,
    ;
}

proof fn lemma_width_4(a: u8, b: u8, c: u8, d: u8)
    requires
        0xf0 <= a <= 0xf7,
        0x80 <= b <= 0xbf,
        0x80 <= c <= 0xbf,
        0x80 <= d <= 0xbf,
    ensures
        0x10000 <= codepoint_width_4(a, b, c, d) <= 0x10ffff <==> a <= 0xf4 && follows(a, b),
{
    let p = (((((a & 0x07) as u32) << 18) | (((b & 0x3f) as u32) << 12)) | (((c & 0x3f) as u32)
        << 6)) | ((d & 0x3f) as u32);
    assert(0x10000 <= p <==> !(a == 0xf0 && b < 0x90)) by (bit_vector)
        requires
            p == (((((a & 0x07) as u32) << 18) | (((b & 0x3f) as u32) << 12)) | (((c & 0x3f)
                as u32) << 6)) | ((d & 0x3f) as u32),
            0xf0 <= a <= 0xf7,
            0x80 <= b <= 0xbf,
            0x80 <= c <= 0xbf,
            0x80 <= d <= 0xbf,
    ;
    assert(p <= 0x10ffff <==> (a < 0xf4 || (a == 0xf4 && b <= 0x8f))) by (bit_vector)
        requires
            p == (((((a & 0x07) as u32) << 18) | (((b & 0x3f) as u32) << 12)) | (((c & 0x3f)
                as u32) << 6)) | ((d & 0x3f) as u32),
            0xf0 <= a <= 0xf7,
            0x80 <= b <= 0xbf,
            0x80 <= c <= 0xbf,
            0x80 <= d <= 0xbf,
    ;
}

/// What follows, at the least, the unfinished encoding `s`.
spec fn completion(s: Seq<u8>) -> Seq<u8> {
    let second = if s[0] == 0xe0 {
        0xa0u8
    } else if s[0] == 0xf0 {
        0x90u8
    } else {
        0x80u8
    };
    if s[0] < 0xe0 {
        seq![0x80u8]
    } else if s[0] < 0xf0 {
        if s.len() == 1 {
            seq![second, 0x80u8]
        } else {
            seq![0x80u8]
        }
    } else if s.len() == 1 {
        seq![second, 0x80u8, 0x80u8]
    } else if s.len() == 2 {
        seq![0x80u8, 0x80u8]
    } else {
        seq![0x80u8]
    }
}

proof fn lemma_one_char(s: Seq<u8>)
    requires
        encodes_one_char(s),
    ensures
        1 <= s.len() <= 4,
        s.len() == 1 ==> s[0] <= 0x7f,
        s.len() >= 2 ==> opens(s[0]) && is_continuation_byte(s[1]),
        s.len() >= 3 ==> 0xe0 <= s[0] && follows(s[0], s[1]) && is_continuation_byte(s[2]),
        s.len() == 4 ==> 0xf0 <= s[0] && is_continuation_byte(s[3]),
{
    if s.len() == 2 {
        lemma_width_2(s[0], s[1]);
    } else if s.len() == 3 {
        lemma_width_3(s[0], s[1], s[2]);
    } else if s.len() == 4 {
        lemma_width_4(s[0], s[1], s[2], s[3]);
    }
}

proof fn lemma_unfinished_by_range(s: Seq<u8>)
    ensures
        is_unfinished(s) <==> unfinished_by_range(s),
{
    if is_unfinished(s) {
        let rest = choose|rest: Seq<u8>|
            rest.len() > 0 && encodes_one_char(#[trigger] (s + rest));
        let whole = s + rest;
        lemma_one_char(whole);
        assert(s[0] == whole[0]);
        if s.len() >= 2 {
            assert(s[1] == whole[1]);
        }
        if s.len() >= 3 {
            assert(s[2] == whole[2]);
        }
    }
    if unfinished_by_range(s) {
        let whole = s + completion(s);
        if s[0] < 0xe0 {
            lemma_width_2(whole[0], whole[1]);
            assert(whole.len() == 2);
            let p = codepoint_width_2(whole[0], whole[1]);
            assert(decode_first_codepoint(whole) == p);
        } else if s[0] < 0xf0 {
            lemma_width_3(whole[0], whole[1], whole[2]);
            assert(whole.len() == 3);
        } else {
            lemma_width_4(whole[0], whole[1], whole[2], whole[3]);
            assert(whole.len() == 4);
        }
        assert(encodes_one_char(whole));
    }
}

/// Every unfinished encoding is one to three bytes long, starts with a byte that
/// is no continuation byte, and goes on with continuation bytes.
proof fn lemma_unfinished_shape(s: Seq<u8>)
    requires
        is_unfinished(s),
    ensures
        1 <= s.len() <= 3,
        !is_continuation_byte(s[0]),
        forall|i: int| 1 <= i < s.len() ==> is_continuation_byte(#[trigger] s[i]),
        !valid_first_scalar(s),
{
    lemma_unfinished_by_range(s);
}

/// If the last `k` bytes of `s` are unfinished, they are all that is.
proof fn lemma_unfinished_len(s: Seq<u8>, k: int)
    requires
        1 <= k <= s.len(),
        is_unfinished(tail(s, k)),
    ensures
        unfinished_len(s) == k,
{
    lemma_unfinished_shape(tail(s, k));
    if k >= 2 {
        assert(tail(s, 1)[0] == tail(s, k)[k - 1]);
        if is_unfinished(tail(s, 1)) {
            lemma_unfinished_shape(tail(s, 1));
        }
    }
    if k >= 3 {
        assert(tail(s, 2)[0] == tail(s, k)[k - 2]);
        if is_unfinished(tail(s, 2)) {
            lemma_unfinished_shape(tail(s, 2));
        }
    }
}

proof fn lemma_tail_concat(a: Seq<u8>, b: Seq<u8>)
    requires
        unfinished_len(b) > 0 || (forall|k: int|
            b.len() < k <= 3 && k <= a.len() + b.len() ==> !is_unfinished(#[trigger] tail(a + b, k))),
    ensures
        unfinished_len(a + b) == unfinished_len(b),
{
    let s = a + b;
    assert forall|k: int| 1 <= k <= b.len() implies #[trigger] tail(s, k) == tail(b, k) by {
        assert(tail(s, k) =~= tail(b, k));
    }
    if unfinished_len(b) > 0 {
        lemma_unfinished_len(s, unfinished_len(b));
    } else {
        if unfinished_len(s) > 0 {
            let k = unfinished_len(s);
            assert(is_unfinished(tail(s, k)));
            if k <= b.len() {
                assert(is_unfinished(tail(b, k)));
                lemma_unfinished_len(b, k);
            }
        }
    }
}

/// Every part, from its start on, of an unfinished encoding is unfinished.
proof fn lemma_unfinished_prefix(s: Seq<u8>, n: int)
    requires
        is_unfinished(s),
        0 < n <= s.len(),
    ensures
        is_unfinished(s.take(n)),
{
    lemma_unfinished_by_range(s);
    lemma_unfinished_by_range(s.take(n));
}

/// What is unfinished at the end of a stream does not depend on the bytes before
/// those that were held back the last time.
pub(crate) proof fn lemma_no_unfinished_across(before: Seq<u8>, more: Seq<u8>)
    ensures
        unfinished_len(before + more) == unfinished_len(before.skip(safe_len(before)) + more),
{
    let a = before.take(safe_len(before));
    let held = before.skip(safe_len(before));
    let b = held + more;
    assert(before + more =~= a + b);
    assert forall|k: int| b.len() < k <= 3 && k <= a.len() + b.len() implies !is_unfinished(
        #[trigger] tail(a + b, k),
    ) by {
        let t = tail(a + b, k);
        let in_a = k - b.len();
        if is_unfinished(t) {
            lemma_unfinished_shape(t);
            if held.len() > 0 {
                assert(is_unfinished(held)) by {
                    assert(held =~= tail(before, unfinished_len(before)));
                }
                lemma_unfinished_shape(held);
                assert(t[in_a] == held[0]);
            } else {
                lemma_unfinished_prefix(t, in_a);
                assert(t.take(in_a) =~= tail(before, in_a));
                lemma_unfinished_len(before, in_a);
            }
        }
    }
    lemma_tail_concat(a, b);
}

/// In a chunk that is valid UTF-8 no byte is held back.
pub proof fn law_valid_chunk_is_safe(s: Seq<u8>)
    requires
        valid_utf8(s),
    ensures
        safe_len(s) == s.len(),
{
    let k = unfinished_len(s);
    if k > 0 {
        let t = tail(s, k);
        lemma_unfinished_shape(t);
        assert(t[0] == s[s.len() - k]);
        is_char_boundary_iff_not_is_continuation_byte(s, s.len() - k);
        valid_utf8_split(s, s.len() - k);
        assert(s.subrange(s.len() - k, s.len() as int) =~= t);
    }
}

/// After a valid part, exactly the unfinished character that follows is held
/// back.
pub proof fn law_unfinished_char_is_held_back(valid: Seq<u8>, rest: Seq<u8>)
    requires
        valid_utf8(valid),
        is_unfinished(rest),
    ensures
        safe_len(valid + rest) == valid.len(),
{
    lemma_unfinished_shape(rest);
    assert(tail(valid + rest, rest.len() as int) =~= rest);
    lemma_unfinished_len(valid + rest, rest.len() as int);
}

/// However a valid UTF-8 stream is cut, the safe part of what has been read is
/// valid UTF-8 again.
pub proof fn law_safe_part_of_valid_stream_is_valid(stream: Seq<u8>, n: int)
    requires
        valid_utf8(stream),
        0 <= n <= stream.len(),
    ensures
        valid_utf8(stream.take(n).take(safe_len(stream.take(n)))),
    decreases stream.len(),
{
    let read = stream.take(n);
    if n == 0 {
        assert(read.take(safe_len(read)) =~= Seq::<u8>::empty());
    } else {
        let w = length_of_first_scalar(stream);
        let first = stream.take(w);
        let later = pop_first_scalar(stream);
        assert(valid_first_scalar(first));
        assert(encodes_one_char(first));
        lemma_one_char(first);
        if n < w {
            assert(read + first.skip(n) =~= first);
            assert(is_unfinished(read));
            assert(tail(read, n) =~= read);
            lemma_unfinished_len(read, n);
            assert(read.take(safe_len(read)) =~= Seq::<u8>::empty());
        } else {
            law_safe_part_of_valid_stream_is_valid(later, n - w);
            let read_later = later.take(n - w);
            assert(read =~= first + read_later);
            assert forall|k: int|
                read_later.len() < k <= 3 && k <= first.len() + read_later.len() implies
                !is_unfinished(#[trigger] tail(first + read_later, k)) by {
                let t = tail(first + read_later, k);
                let at = w - (k - read_later.len());
                if is_unfinished(t) {
                    lemma_unfinished_shape(t);
                    assert(t[0] == first[at]);
                    if at == 0 {
                        assert(t =~= first + read_later);
                        assert(valid_first_scalar(t));
                    } else {
                        assert(is_continuation_byte(first[at]));
                    }
                }
            }
            lemma_tail_concat(first, read_later);
            let safe_later = read_later.take(safe_len(read_later));
            assert(read.take(safe_len(read)) =~= first + safe_later);
            assert(pop_first_scalar(first) =~= Seq::<u8>::empty());
            assert(valid_utf8(Seq::<u8>::empty()));
            assert(valid_utf8(first));
            valid_utf8_concat(first, safe_later);
        }
    }
}

/// Whether `b`, `c` may open an encoding of three or four bytes.
fn may_follow(b: u8, c: u8) -> (res: bool)
    ensures
        res == follows(b, c),
{
    0x80 <= c && c <= 0xbf && (b != 0xe0 || 0xa0 <= c) && (b != 0xed || c <= 0x9f) && (b != 0xf0
        || 0x90 <= c) && (b != 0xf4 || c <= 0x8f)
}

/// The length of the part of `data` that ends in a complete sequence. Trailing
/// bytes that start a multi-byte character but don't complete it are left out,
/// so that the caller can carry them over to the next read; that is never more
/// than three bytes.
pub fn find_utf8_safe_boundary(data: &[u8]) -> (res: usize)
    ensures
        res == safe_len(data@),
        data.len() - 3 <= res <= data.len(),
{
    let n = data.len();
    proof {
        lemma_unfinished_by_range(tail(data@, 1));
        lemma_unfinished_by_range(tail(data@, 2));
        lemma_unfinished_by_range(tail(data@, 3));
    }
    if n >= 1 && 0xc2 <= data[n - 1] && data[n - 1] <= 0xf4 {
        return n - 1;
    }
    if n >= 2 && 0xe0 <= data[n - 2] && data[n - 2] <= 0xf4 && may_follow(
        data[n - 2],
        data[n - 1],
    ) {
        return n - 2;
    }
    if n >= 3 && 0xf0 <= data[n - 3] && data[n - 3] <= 0xf4 && may_follow(
        data[n - 3],
        data[n - 2],
    ) && 0x80 <= data[n - 1] && data[n - 1] <= 0xbf {
        return n - 3;
    }
    n
}

/// What is held back, read off the last bytes: the first byte of a longer encoding;
/// or the first two of one of three or four bytes; or the first three of one of four
/// bytes; and nothing in any other case, whatever the bytes before are.
pub proof fn law_boundary_by_bytes(data: &[u8], res: usize)
    requires
        call_ensures(find_utf8_safe_boundary, (data,), res),
    ensures
        ({
            let n = data@.len() as int;
            let one = n >= 1 && 0xc2 <= data@[n - 1] <= 0xf4;
            let two = {
                &&& n >= 2
                &&& 0xe0 <= data@[n - 2] <= 0xf4
                &&& 0x80 <= data@[n - 1] <= 0xbf
                &&& data@[n - 2] == 0xe0 ==> data@[n - 1] >= 0xa0
                &&& data@[n - 2] == 0xed ==> data@[n - 1] <= 0x9f
                &&& data@[n - 2] == 0xf0 ==> data@[n - 1] >= 0x90
                &&& data@[n - 2] == 0xf4 ==> data@[n - 1] <= 0x8f
            };
            let three = {
                &&& n >= 3
                &&& 0xf0 <= data@[n - 3] <= 0xf4
                &&& 0x80 <= data@[n - 2] <= 0xbf
                &&& data@[n - 3] == 0xf0 ==> data@[n - 2] >= 0x90
                &&& data@[n - 3] == 0xf4 ==> data@[n - 2] <= 0x8f
                &&& 0x80 <= data@[n - 1] <= 0xbf
            };
            &&& one ==> res == n - 1
            &&& two ==> res == n - 2
            &&& three ==> res == n - 3
            &&& !one && !two && !three ==> res == n
        }),
{
    lemma_unfinished_by_range(tail(data@, 1));
    lemma_unfinished_by_range(tail(data@, 2));
    lemma_unfinished_by_range(tail(data@, 3));
}

/// The start of a character that is not complete is held back, whatever comes before
/// it: all of the start, and nothing else.
pub proof fn law_start_of_a_char_is_held_back(data: &[u8], before: Seq<u8>, c: char, k: int, res: usize)
    requires
        call_ensures(find_utf8_safe_boundary, (data,), res),
        0 < k < encode_utf8(seq![c]).len(),
        data@ == before + encode_utf8(seq![c]).take(k),
    ensures
        res == before.len(),
{
    let whole = encode_utf8(seq![c]);
    let start = whole.take(k);
    encode_utf8_first_scalar(seq![c]);
    assert(seq![c].drop_first() =~= Seq::<char>::empty());
    assert(encode_utf8(Seq::<char>::empty()) =~= Seq::<u8>::empty());
    assert(whole =~= encode_scalar(c as u32));
    assert(encodes_one_char(whole));
    assert(start + whole.skip(k) =~= whole);
    assert(is_unfinished(start));
    assert(tail(data@, k) =~= start);
    lemma_unfinished_len(data@, k);
}

/// The text that `String::from_utf8_lossy` makes of `bytes`.
pub uninterp spec fn lossy_text(bytes: Seq<u8>) -> Seq<char>;

/// Calls `String::from_utf8_lossy`. Its result is determined by the bytes; valid
/// UTF-8 is decoded to the characters that it encodes. How many replacement
/// characters stand for bytes that are not valid UTF-8 is not said.
#[verifier::external_body]
pub(crate) fn from_utf8_lossy(bytes: &[u8]) -> (res: String)
    ensures
        res@ == lossy_text(bytes@),
        valid_utf8(bytes@) ==> res@ == decode_utf8(bytes@),
{
    String::from_utf8_lossy(bytes).into_owned()
}

/// Calls `std::str::from_utf8`. It succeeds exactly on valid UTF-8, and then
/// gives the characters that the bytes encode.
#[verifier::external_body]
pub(crate) fn str_from_utf8<'a>(bytes: &'a [u8]) -> (res: Option<&'a str>)
    ensures
        match res {
            Some(s) => valid_utf8(bytes@) && s@ == decode_utf8(bytes@),
            None => !valid_utf8(bytes@),
        },
{
    std::str::from_utf8(bytes).ok()
}

} // verus!
