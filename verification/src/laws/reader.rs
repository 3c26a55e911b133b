//! Laws of the reader of terminal output.

use vstd::prelude::*;

use crate::constants::PTY_READ_BUFFER_SIZE;
use crate::reader::{held_part, safe_part, PtyReader};
use crate::utf8::{find_utf8_safe_boundary, safe_len};

verus! {

/// Output is divided in two, and nothing is lost or moved: the part before the
/// boundary can be handed on, and the part behind it has to wait.
pub proof fn law_output_is_divided_in_two(s: Seq<u8>)
    ensures
        safe_part(s) + held_part(s) == s,
        safe_part(s).len() == safe_len(s),
        s.len() - 3 <= safe_len(s) <= s.len(),
{
    assert(safe_part(s) + held_part(s) =~= s);
}

/// A new reader has nothing to carry over.
pub proof fn law_new_reader(res: PtyReader)
    requires
        call_ensures(PtyReader::new, (), res),
    ensures
        res.wf(),
        res@.len() == 0,
{
}

/// A reader hands on what comes before the boundary of what it carried over and was
/// given, and carries over the rest.
pub proof fn law_accept(
    reader: &mut PtyReader,
    chunk: &[u8],
    all: &[u8],
    boundary: usize,
    res: Vec<u8>,
)
    requires
        old(reader).wf(),
        call_ensures(PtyReader::accept, (reader, chunk), res),
        all@ == old(reader)@ + chunk@,
        call_ensures(find_utf8_safe_boundary, (all,), boundary),
    ensures
        final(reader).wf(),
        res@ + final(reader)@ == old(reader)@ + chunk@,
        res@.len() == boundary,
        final(reader)@.len() <= 3,
{
    law_output_is_divided_in_two(all@);
}

/// A read fills the buffer as far as the bytes carried over leave it free.
pub proof fn law_read_capacity(reader: &PtyReader, res: usize)
    requires
        reader.wf(),
        call_ensures(PtyReader::read_capacity, (reader,), res),
    ensures
        res + reader@.len() == PTY_READ_BUFFER_SIZE,
{
}

} // verus!
