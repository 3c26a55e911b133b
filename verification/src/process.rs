//! Naming the process in the foreground of a terminal.
//!
//! The operating system gives a raw process name and a command line. Where the
//! name is that of an interpreter, or of a version directory that a link led to,
//! the command line tells what is really running.

use vstd::prelude::*;
use vstd::slice::slice_subrange;
use vstd::string::*;
use vstd::utf8::{decode_utf8, valid_utf8};

use crate::text::{
    chars_of, file_name, file_name_of, is_listed, list_contains, split_whitespace,
    starts_with_char, trim, trimmed, views, words,
};
use crate::utf8::{from_utf8_lossy, lossy_text, str_from_utf8};
use crate::views::{opt_bytes, opt_str, opt_string};

verus! {

/// Interpreters and runtimes whose name hides that of the program they run.
pub const WRAPPER_PROCESSES: [&'static str; 8] = [
    "node",
    "python",
    "python3",
    "ruby",
    "perl",
    "java",
    "deno",
    "bun",
];

/// Whether `c` is an ASCII digit.
pub open spec fn is_digit(c: char) -> bool {
    '0' <= c <= '9'
}

/// Whether `c` may occur in a version number.
pub open spec fn is_version_char(c: char) -> bool {
    is_digit(c) || c == '.' || c == '-' || 'a' <= c <= 'z' || 'A' <= c <= 'Z'
}

/// Whether `name` looks like a version number: it starts with a digit, has a dot,
/// and consists of ASCII letters, digits, dots and hyphens.
pub open spec fn is_version_like(name: Seq<char>) -> bool {
    &&& name.len() > 0
    &&& is_digit(name[0])
    &&& name.contains('.')
    &&& forall|i: int| 0 <= i < name.len() ==> is_version_char(#[trigger] name[i])
}

/// Whether `name` looks like a version number, such as `2.1.29` or `1.0.0-beta`.
pub fn looks_like_version(name: &str) -> (res: bool)
    ensures
        res == is_version_like(name@),
{
    let v = chars_of(name);
    if v.len() == 0 || !('0' <= v[0] && v[0] <= '9') {
        return false;
    }
    let mut has_dot = false;
    let mut i: usize = 0;
    while i < v.len()
        invariant
            v@ == name@,
            i <= v.len(),
            has_dot == (exists|j: int| 0 <= j < i && #[trigger] name@[j] == '.'),
            forall|j: int| 0 <= j < i ==> is_version_char(#[trigger] name@[j]),
        decreases v.len() - i,
    {
        let c: char = v[i];
        if c == '.' {
            assert(name@[i as int] == '.');
            has_dot = true;
        } else if !(('0' <= c && c <= '9') || c == '-' || ('a' <= c && c <= 'z') || ('A' <= c && c
            <= 'Z')) {
            assert(!is_version_char(name@[i as int]));
            return false;
        }
        i += 1;
    }
    has_dot
}

/// The program that a command line starts: the file name of its first word,
/// unless that looks like a version number.
pub open spec fn first_arg_binary(cmdline: Seq<char>) -> Option<Seq<char>> {
    if words(cmdline).len() == 0 {
        None
    } else {
        match file_name_of(words(cmdline)[0]) {
            Some(name) if !is_version_like(name) => Some(name),
            _ => None,
        }
    }
}

/// The program that a command line starts, unless its name looks like a version
/// number.
pub fn extract_binary_from_first_arg(cmdline: &str) -> (res: Option<String>)
    ensures
        opt_string(res) == first_arg_binary(cmdline@),
{
    let parts = split_whitespace(cmdline);
    assert(views(parts@).len() == parts@.len());
    if parts.len() == 0 {
        return None;
    }
    assert(views(parts@)[0] == parts@[0]@);
    match file_name(parts[0]) {
        Some(name) => {
            if looks_like_version(name) {
                None
            } else {
                Some(name.to_owned())
            }
        },
        None => None,
    }
}

/// The first of `args` that is no flag.
pub open spec fn first_non_flag(args: Seq<Seq<char>>) -> Option<Seq<char>>
    decreases args.len(),
{
    if args.len() == 0 {
        None
    } else if args[0].len() > 0 && args[0][0] == '-' {
        first_non_flag(args.drop_first())
    } else {
        Some(args[0])
    }
}

/// The script or program that an interpreter's command line runs: the file name
/// of its first argument that is no flag.
pub open spec fn script_name(cmdline: Seq<char>) -> Option<Seq<char>> {
    if words(cmdline).len() < 2 {
        None
    } else {
        match first_non_flag(words(cmdline).drop_first()) {
            Some(script) => file_name_of(script),
            None => None,
        }
    }
}

/// The script or program that an interpreter's command line runs, such as
/// `gemini` for `/usr/local/bin/node /usr/local/bin/gemini`. There is none if the
/// command line has no argument that is not a flag.
pub fn extract_binary_name_from_cmdline(cmdline: &str) -> (res: Option<String>)
    ensures
        opt_string(res) == script_name(cmdline@),
{
    let parts = split_whitespace(cmdline);
    let ghost all = words(cmdline@);
    assert(views(parts@).len() == parts@.len());
    if parts.len() < 2 {
        return None;
    }
    let mut i: usize = 1;
    assert(all.skip(1) == all.drop_first());
    while i < parts.len() && starts_with_char(parts[i], '-')
        invariant
            views(parts@) == all,
            all.len() == parts@.len(),
            1 <= i <= parts.len(),
            first_non_flag(all.skip(i as int)) == first_non_flag(all.drop_first()),
        decreases parts.len() - i,
    {
        assert(all[i as int] == parts@[i as int]@);
        assert(all.skip(i as int).drop_first() == all.skip(i + 1));
        i += 1;
    }
    if i == parts.len() {
        return None;
    }
    assert(all[i as int] == parts@[i as int]@);
    match file_name(parts[i]) {
        Some(name) => Some(name.to_owned()),
        None => None,
    }
}

/// Whether `name` is that of an interpreter or runtime.
pub open spec fn is_wrapper(name: Seq<char>) -> bool {
    is_listed(WRAPPER_PROCESSES@, name)
}

/// Whether the command line is needed in order to name the process whose raw name
/// is `name`.
pub fn needs_cmdline(name: &str) -> (res: bool)
    ensures
        res == (is_wrapper(name@) || is_version_like(name@)),
{
    list_contains(WRAPPER_PROCESSES.as_slice(), name) || looks_like_version(name)
}

/// The name of a process: for an interpreter, that of the script it runs; for a
/// name like a version number, that of the program that was started; the raw
/// name where the command line does not tell, and in all other cases.
pub open spec fn process_name(raw: Seq<char>, cmdline: Option<Seq<char>>) -> Seq<char> {
    match cmdline {
        Some(line) => {
            if is_wrapper(raw) && script_name(line) is Some {
                script_name(line)->0
            } else if is_version_like(raw) && first_arg_binary(line) is Some {
                first_arg_binary(line)->0
            } else {
                raw
            }
        },
        None => raw,
    }
}

/// Names a process, given its raw name and its command line as far as they could
/// be found out. Without a raw name there is none.
pub fn resolve_process_name(raw: Option<&str>, cmdline: Option<&str>) -> (res: Option<String>)
    ensures
        opt_string(res) == match raw {
            Some(name) => Some(process_name(name@, opt_str(cmdline))),
            None => None,
        },
{
    match raw {
        None => None,
        Some(name) => {
            if let Some(line) = cmdline {
                if list_contains(WRAPPER_PROCESSES.as_slice(), name) {
                    if let Some(script) = extract_binary_name_from_cmdline(line) {
                        return Some(script);
                    }
                }
                if looks_like_version(name) {
                    if let Some(binary) = extract_binary_from_first_arg(line) {
                        return Some(binary);
                    }
                }
            }
            Some(name.to_owned())
        },
    }
}

/// The number of bytes before the first zero byte of `s`.
pub open spec fn nul_pos(s: Seq<u8>) -> nat
    decreases s.len(),
{
    if s.len() == 0 || s[0] == 0 {
        0
    } else {
        1 + nul_pos(s.drop_first())
    }
}

proof fn lemma_nul_pos(s: Seq<u8>, n: nat)
    requires
        n <= s.len(),
        forall|i: int| 0 <= i < n ==> #[trigger] s[i] != 0,
        n == s.len() || s[n as int] == 0,
    ensures
        nul_pos(s) == n,
    decreases n,
{
    if n > 0 {
        assert forall|i: int| 0 <= i < n - 1 implies #[trigger] s.drop_first()[i] != 0 by {
            assert(s.drop_first()[i] == s[i + 1]);
        }
        lemma_nul_pos(s.drop_first(), (n - 1) as nat);
    }
}

proof fn lemma_nul_pos_bound(s: Seq<u8>)
    ensures
        nul_pos(s) <= s.len(),
        s.len() > 0 && s[0] != 0 ==> nul_pos(s) > 0,
    decreases s.len(),
{
    if s.len() > 0 {
        lemma_nul_pos_bound(s.drop_first());
    }
}

/// The number of bytes of `data`, from position `start` on, before a zero byte.
fn find_nul(data: &[u8], start: usize) -> (res: usize)
    requires
        start <= data.len(),
    ensures
        start <= res <= data.len(),
        res - start == nul_pos(data@.skip(start as int)),
{
    let mut i: usize = start;
    while i < data.len() && data[i] != 0
        invariant
            start <= i <= data@.len(),
            forall|j: int| start <= j < i ==> #[trigger] data@[j] != 0,
        decreases data.len() - i,
    {
        i += 1;
    }
    proof {
        let rest = data@.skip(start as int);
        assert forall|j: int| 0 <= j < i - start implies #[trigger] rest[j] != 0 by {
            assert(rest[j] == data@[start + j]);
        }
        lemma_nul_pos(rest, (i - start) as nat);
    }
    i
}

/// The raw name of a process, from the files `comm` and `cmdline` of its
/// directory in `/proc`, as far as they can be read: what `comm` holds between
/// white space, or else the file name of the first argument.
pub open spec fn raw_name_from_proc(comm: Option<Seq<char>>, cmdline: Option<Seq<u8>>) -> Option<
    Seq<char>,
> {
    if comm is Some && trimmed(comm->0).len() > 0 {
        Some(trimmed(comm->0))
    } else {
        match cmdline {
            Some(bytes) => {
                let arg = bytes.take(nul_pos(bytes) as int);
                if valid_utf8(arg) {
                    file_name_of(decode_utf8(arg))
                } else {
                    None
                }
            },
            None => None,
        }
    }
}

/// The raw name of a process, from its files `comm` and `cmdline` in `/proc`.
pub fn resolve_process_name_raw(comm: Option<&str>, cmdline: Option<&[u8]>) -> (res: Option<String>)
    ensures
        opt_string(res) == raw_name_from_proc(opt_str(comm), opt_bytes(cmdline)),
{
    if let Some(text) = comm {
        let name = trim(text);
        if !name.is_empty() {
            return Some(name.to_owned());
        }
    }
    if let Some(bytes) = cmdline {
        let end = find_nul(bytes, 0);
        assert(bytes@.skip(0) == bytes@);
        let first_arg = slice_subrange(bytes, 0, end);
        assert(first_arg@ == bytes@.take(end as int));
        if let Some(arg) = str_from_utf8(first_arg) {
            return match file_name(arg) {
                Some(name) => Some(name.to_owned()),
                None => None,
            };
        }
    }
    None
}

/// The raw name of a process, from the path of its executable and from the short
/// name that the kernel keeps, as far as they can be had: the file name of the
/// path, unless it looks like a version number; then the short name. A path that
/// is not text, or has no file name, means that there is no name.
pub open spec fn raw_name_from_path(path: Option<Seq<u8>>, short: Option<Seq<u8>>) -> Option<
    Seq<char>,
> {
    let by_short = match short {
        Some(bytes) if valid_utf8(bytes) => Some(decode_utf8(bytes)),
        _ => None,
    };
    match path {
        Some(bytes) => {
            if !valid_utf8(bytes) {
                None
            } else {
                match file_name_of(decode_utf8(bytes)) {
                    Some(name) if !is_version_like(name) => Some(name),
                    Some(_) => by_short,
                    None => None,
                }
            }
        },
        None => by_short,
    }
}

/// The raw name of a process, from the path of its executable and from the short
/// name that the kernel keeps. This is for systems without `/proc`.
pub fn resolve_process_name_from_path(path: Option<&[u8]>, short: Option<&[u8]>) -> (res: Option<
    String,
>)
    ensures
        opt_string(res) == raw_name_from_path(opt_bytes(path), opt_bytes(short)),
{
    if let Some(bytes) = path {
        match str_from_utf8(bytes) {
            None => return None,
            Some(text) => match file_name(text) {
                None => return None,
                Some(name) => {
                    if !looks_like_version(name) {
                        return Some(name.to_owned());
                    }
                },
            },
        }
    }
    match short {
        Some(bytes) => match str_from_utf8(bytes) {
            Some(name) => Some(name.to_owned()),
            None => None,
        },
        None => None,
    }
}

/// The maximal runs of non-zero bytes of `s`, in order.
pub open spec fn nul_separated(s: Seq<u8>) -> Seq<Seq<u8>>
    decreases s.len(),
    via nul_separated_decreases
{
    if s.len() == 0 {
        Seq::empty()
    } else if s[0] == 0 {
        nul_separated(s.drop_first())
    } else {
        seq![s.take(nul_pos(s) as int)] + nul_separated(s.skip(nul_pos(s) as int))
    }
}

#[via_fn]
proof fn nul_separated_decreases(s: Seq<u8>) {
    lemma_nul_pos_bound(s);
}

/// The command line whose arguments are `args`: the arguments as text, with single
/// spaces between them.
pub open spec fn spaced(args: Seq<Seq<u8>>) -> Seq<char>
    decreases args.len(),
{
    if args.len() == 0 {
        Seq::empty()
    } else if args.len() == 1 {
        lossy_text(args[0])
    } else {
        spaced(args.drop_last()) + " "@ + lossy_text(args.last())
    }
}

/// Whether each of `args` that is valid UTF-8 is, as text, what it encodes.
pub open spec fn are_decoded(args: Seq<Seq<u8>>) -> bool {
    forall|i: int|
        0 <= i < args.len() && valid_utf8(#[trigger] args[i]) ==> lossy_text(args[i])
            == decode_utf8(args[i])
}

/// The command line of a process, from its file `cmdline` in `/proc`, where every
/// argument is followed by a zero byte. An empty command line counts as none.
/// Arguments that are valid UTF-8 stand in it as they are.
pub fn get_process_cmdline(bytes: &[u8]) -> (res: Option<String>)
    ensures
        opt_string(res) == if spaced(nul_separated(bytes@)).len() == 0 {
            None
        } else {
            Some(spaced(nul_separated(bytes@)))
        },
        are_decoded(nul_separated(bytes@)),
{
    let ghost all = nul_separated(bytes@);
    let ghost mut done: Seq<Seq<u8>> = Seq::empty();
    let mut line: String = String::new();
    let mut first = true;
    let mut i: usize = 0;
    assert(bytes@.skip(0) == bytes@);
    assert(done + all == all);
    while i < bytes.len()
        invariant
            i <= bytes@.len(),
            done + nul_separated(bytes@.skip(i as int)) == all,
            line@ == spaced(done),
            are_decoded(done),
            first == (done.len() == 0),
        decreases bytes.len() - i,
    {
        let ghost rest = bytes@.skip(i as int);
        if bytes[i] == 0 {
            assert(rest.drop_first() == bytes@.skip(i + 1));
            i += 1;
        } else {
            let end = find_nul(bytes, i);
            let arg_bytes = slice_subrange(bytes, i, end);
            proof {
                lemma_nul_pos_bound(rest);
                assert(rest.take(end - i) == arg_bytes@);
                assert(rest.skip(end - i) == bytes@.skip(end as int));
                let later = nul_separated(bytes@.skip(end as int));
                assert(nul_separated(rest) == seq![arg_bytes@] + later);
                assert(done + (seq![arg_bytes@] + later) =~= done.push(arg_bytes@) + later);
                assert(done.push(arg_bytes@).drop_last() =~= done);
                done = done.push(arg_bytes@);
            }
            let arg = from_utf8_lossy(arg_bytes);
            if first {
                line = arg;
                first = false;
            } else {
                line.append(" ");
                line.append(arg.as_str());
            }
            i = end;
        }
    }
    assert(bytes@.skip(i as int) == Seq::<u8>::empty());
    assert(done + Seq::<Seq<u8>>::empty() == done);
    if line.as_str().is_empty() {
        None
    } else {
        Some(line)
    }
}

/// The command line of a process, from what the process lister printed: the text
/// between white space. An empty command line counts as none.
pub fn get_listed_cmdline(output: &[u8]) -> (res: Option<String>)
    ensures
        opt_string(res) == if trimmed(lossy_text(output@)).len() == 0 {
            None
        } else {
            Some(trimmed(lossy_text(output@)))
        },
        valid_utf8(output@) ==> lossy_text(output@) == decode_utf8(output@),
{
    let text = from_utf8_lossy(output);
    let line = trim(text.as_str());
    if line.is_empty() {
        None
    } else {
        Some(line.to_owned())
    }
}

/// The working directory of a process, from the buffer of fixed size that the
/// kernel fills in: the text before the first zero byte, if it is text and not
/// empty.
pub fn resolve_process_cwd(buffer: &[u8]) -> (res: Option<String>)
    ensures
        opt_string(res) == {
            let path = buffer@.take(nul_pos(buffer@) as int);
            if valid_utf8(path) && decode_utf8(path).len() > 0 {
                Some(decode_utf8(path))
            } else {
                None
            }
        },
{
    let end = find_nul(buffer, 0);
    assert(buffer@.skip(0) == buffer@);
    let path = slice_subrange(buffer, 0, end);
    assert(path@ == buffer@.take(end as int));
    match str_from_utf8(path) {
        Some(text) => {
            if text.is_empty() {
                None
            } else {
                Some(text.to_owned())
            }
        },
        None => None,
    }
}

} // verus!
