//! Laws of naming processes.

use vstd::prelude::*;
use vstd::utf8::{decode_utf8, valid_utf8};

use crate::process::{
    extract_binary_from_first_arg, extract_binary_name_from_cmdline, first_non_flag,
    get_listed_cmdline, get_process_cmdline, looks_like_version, needs_cmdline, nul_pos,
    nul_separated, resolve_process_cwd, resolve_process_name, resolve_process_name_from_path,
    resolve_process_name_raw, spaced, WRAPPER_PROCESSES,
};
use crate::text::{file_name, split_whitespace, trim, views, words};
use crate::utf8::lossy_text;
use crate::views::opt_string;

verus! {

/// A name looks like a version number exactly if it starts with a digit, has a dot in
/// it, and consists of ASCII letters, digits, dots and hyphens.
pub proof fn law_looks_like_version(name: &str, res: bool)
    requires
        call_ensures(looks_like_version, (name,), res),
    ensures
        res <==> {
            &&& name@.len() > 0
            &&& '0' <= name@[0] <= '9'
            &&& exists|i: int| 0 <= i < name@.len() && #[trigger] name@[i] == '.'
            &&& forall|i: int|
                0 <= i < name@.len() ==> {
                    let c = #[trigger] name@[i];
                    '0' <= c <= '9' || 'a' <= c <= 'z' || 'A' <= c <= 'Z' || c == '.' || c == '-'
                }
        },
{
    if exists|i: int| 0 <= i < name@.len() && #[trigger] name@[i] == '.' {
        let i = choose|i: int| 0 <= i < name@.len() && #[trigger] name@[i] == '.';
        assert(name@.contains('.'));
    }
    if name@.contains('.') {
        let i = choose|i: int| 0 <= i < name@.len() && name@[i] == '.';
        assert(name@[i] == '.');
    }
    if forall|i: int|
        0 <= i < name@.len() ==> {
            let c = #[trigger] name@[i];
            '0' <= c <= '9' || 'a' <= c <= 'z' || 'A' <= c <= 'Z' || c == '.' || c == '-'
        } {
        assert forall|i: int| 0 <= i < name@.len() implies crate::process::is_version_char(
            #[trigger] name@[i],
        ) by {}
    }
}

proof fn lemma_parts(cmdline: &str, parts: Vec<&str>)
    requires
        call_ensures(split_whitespace, (cmdline,), parts),
    ensures
        words(cmdline@).len() == parts@.len(),
        forall|i: int| 0 <= i < parts@.len() ==> words(cmdline@)[i] == (#[trigger] parts@[i])@,
{
    let seen = views(parts@);
    assert(seen.len() == parts@.len());
    assert forall|i: int| 0 <= i < parts@.len() implies words(cmdline@)[i] == (
    #[trigger] parts@[i])@ by {
        assert(seen[i] == parts@[i]@);
    }
}

/// The program that a command line starts has the file name of its first word,
/// whatever follows it, unless that looks like a version number.
pub proof fn law_first_word_is_the_program(
    cmdline: &str,
    parts: Vec<&str>,
    name: Option<&str>,
    version_like: bool,
    res: Option<String>,
)
    requires
        call_ensures(extract_binary_from_first_arg, (cmdline,), res),
        call_ensures(split_whitespace, (cmdline,), parts),
        parts@.len() > 0 ==> call_ensures(file_name, (parts@[0],), name),
        name is Some ==> call_ensures(looks_like_version, (name->0,), version_like),
    ensures
        parts@.len() == 0 ==> res is None,
        parts@.len() > 0 ==> {
            &&& res is Some <==> name is Some && !version_like
            &&& res is Some ==> res->0@ == name->0@
        },
{
    lemma_parts(cmdline, parts);
    if parts@.len() > 0 {
        assert(words(cmdline@)[0] == parts@[0]@);
    }
}

proof fn lemma_first_non_flag(args: Seq<Seq<char>>, k: int)
    requires
        0 <= k <= args.len(),
        forall|j: int| 0 <= j < k ==> (#[trigger] args[j]).len() > 0 && args[j][0] == '-',
        k < args.len() ==> !(args[k].len() > 0 && args[k][0] == '-'),
    ensures
        first_non_flag(args) == if k < args.len() {
            Some(args[k])
        } else {
            None
        },
    decreases args.len(),
{
    if k > 0 {
        let rest = args.drop_first();
        assert forall|j: int| 0 <= j < k - 1 implies (#[trigger] rest[j]).len() > 0 && rest[j][0]
            == '-' by {
            assert(rest[j] == args[j + 1]);
        }
        assert(args[0].len() > 0 && args[0][0] == '-');
        if k < args.len() {
            assert(rest[k - 1] == args[k]);
        }
        lemma_first_non_flag(rest, k - 1);
    }
}

/// The script that an interpreter runs is the first word behind that of the
/// interpreter that does not begin with a hyphen. What follows it does not matter.
pub proof fn law_script_is_the_first_word_that_is_no_flag(
    cmdline: &str,
    parts: Vec<&str>,
    k: int,
    name: Option<&str>,
    res: Option<String>,
)
    requires
        call_ensures(extract_binary_name_from_cmdline, (cmdline,), res),
        call_ensures(split_whitespace, (cmdline,), parts),
        1 <= k < parts@.len(),
        !(parts@[k]@.len() > 0 && parts@[k]@[0] == '-'),
        forall|j: int|
            1 <= j < k ==> (#[trigger] parts@[j])@.len() > 0 && parts@[j]@[0] == '-',
        call_ensures(file_name, (parts@[k],), name),
    ensures
        res is Some <==> name is Some,
        res is Some ==> res->0@ == name->0@,
{
    lemma_parts(cmdline, parts);
    let args = words(cmdline@).drop_first();
    assert forall|j: int| 0 <= j < k - 1 implies (#[trigger] args[j]).len() > 0 && args[j][0]
        == '-' by {
        assert(args[j] == words(cmdline@)[j + 1]);
        assert(words(cmdline@)[j + 1] == parts@[j + 1]@);
    }
    assert(args[k - 1] == words(cmdline@)[k]);
    assert(words(cmdline@)[k] == parts@[k]@);
    lemma_first_non_flag(args, k - 1);
}

/// An interpreter with no word behind it that is not a flag runs no script.
pub proof fn law_no_script_among_flags(cmdline: &str, parts: Vec<&str>, res: Option<String>)
    requires
        call_ensures(extract_binary_name_from_cmdline, (cmdline,), res),
        call_ensures(split_whitespace, (cmdline,), parts),
        forall|j: int|
            1 <= j < parts@.len() ==> (#[trigger] parts@[j])@.len() > 0 && parts@[j]@[0] == '-',
    ensures
        res is None,
{
    lemma_parts(cmdline, parts);
    if parts@.len() >= 2 {
        let args = words(cmdline@).drop_first();
        assert forall|j: int| 0 <= j < args.len() implies (#[trigger] args[j]).len() > 0
            && args[j][0] == '-' by {
            assert(args[j] == words(cmdline@)[j + 1]);
            assert(words(cmdline@)[j + 1] == parts@[j + 1]@);
        }
        lemma_first_non_flag(args, args.len() as int);
    }
}

/// Arguments that are added behind the script do not change its name.
pub proof fn law_later_arguments_do_not_matter(
    a: &str,
    b: &str,
    of_a: Vec<&str>,
    of_b: Vec<&str>,
    k: int,
    name: Option<&str>,
    name_b: Option<&str>,
    res_a: Option<String>,
    res_b: Option<String>,
)
    requires
        call_ensures(extract_binary_name_from_cmdline, (a,), res_a),
        call_ensures(extract_binary_name_from_cmdline, (b,), res_b),
        call_ensures(split_whitespace, (a,), of_a),
        call_ensures(split_whitespace, (b,), of_b),
        1 <= k < of_a@.len() <= of_b@.len(),
        forall|j: int| 0 <= j <= k ==> (#[trigger] of_a@[j])@ == of_b@[j]@,
        !(of_a@[k]@.len() > 0 && of_a@[k]@[0] == '-'),
        forall|j: int| 1 <= j < k ==> (#[trigger] of_a@[j])@.len() > 0 && of_a@[j]@[0] == '-',
        call_ensures(file_name, (of_a@[k],), name),
        call_ensures(file_name, (of_b@[k],), name_b),
    ensures
        res_a is Some <==> res_b is Some,
        res_a is Some ==> res_a->0@ == res_b->0@,
{
    law_script_is_the_first_word_that_is_no_flag(a, of_a, k, name, res_a);
    assert(of_a@[k]@ == of_b@[k]@);
    assert forall|j: int| 1 <= j < k implies (#[trigger] of_b@[j])@.len() > 0 && of_b@[j]@[0]
        == '-' by {
        assert(of_a@[j]@ == of_b@[j]@);
    }
    law_script_is_the_first_word_that_is_no_flag(b, of_b, k, name_b, res_b);
}

/// Whether `name` is that of one of the interpreters that hide what they run.
pub open spec fn is_interpreter(name: Seq<char>) -> bool {
    ||| name == "node"@
    ||| name == "python"@
    ||| name == "python3"@
    ||| name == "ruby"@
    ||| name == "perl"@
    ||| name == "java"@
    ||| name == "deno"@
    ||| name == "bun"@
}

proof fn lemma_interpreters(name: Seq<char>)
    ensures
        crate::process::is_wrapper(name) == is_interpreter(name),
{
    let list = WRAPPER_PROCESSES@;
    assert(list.len() == 8);
    assert(list[0]@ == "node"@ && list[1]@ == "python"@ && list[2]@ == "python3"@);
    assert(list[3]@ == "ruby"@ && list[4]@ == "perl"@ && list[5]@ == "java"@);
    assert(list[6]@ == "deno"@ && list[7]@ == "bun"@);
}

/// The command line is needed for interpreters and for names like version numbers.
pub proof fn law_needs_cmdline(name: &str, version_like: bool, res: bool)
    requires
        call_ensures(needs_cmdline, (name,), res),
        call_ensures(looks_like_version, (name,), version_like),
    ensures
        res == (is_interpreter(name@) || version_like),
{
    lemma_interpreters(name@);
}

/// A process without a raw name has no name. One that runs an interpreter goes by the
/// script, if its command line has one; one with a name like a version number by the
/// program that was started, if its command line tells; every other one by its raw
/// name.
pub proof fn law_resolve_process_name(
    name: &str,
    cmdline: &str,
    version_like: bool,
    script: Option<String>,
    program: Option<String>,
    nameless: Option<String>,
    without: Option<String>,
    res: Option<String>,
    line: Option<&str>,
)
    requires
        call_ensures(resolve_process_name, (None, line), nameless),
        call_ensures(resolve_process_name, (Some(name), None), without),
        call_ensures(resolve_process_name, (Some(name), Some(cmdline)), res),
        call_ensures(looks_like_version, (name,), version_like),
        call_ensures(extract_binary_name_from_cmdline, (cmdline,), script),
        call_ensures(extract_binary_from_first_arg, (cmdline,), program),
    ensures
        nameless is None,
        without matches Some(n) && n@ == name@,
        res is Some,
        is_interpreter(name@) && script is Some ==> res->0@ == script->0@,
        !(is_interpreter(name@) && script is Some) && version_like && program is Some ==> res->0@
            == program->0@,
        !(is_interpreter(name@) && script is Some) && !(version_like && program is Some)
            ==> res->0@ == name@,
{
    lemma_interpreters(name@);
    assert(opt_string(res) is Some);
    assert(opt_string(without) is Some);
    assert(opt_string(nameless) is None);
}

proof fn lemma_first_zero(s: Seq<u8>, n: int)
    requires
        0 <= n <= s.len(),
        forall|i: int| 0 <= i < n ==> #[trigger] s[i] != 0,
        n < s.len() ==> s[n] == 0,
    ensures
        nul_pos(s) == n,
    decreases n,
{
    if n > 0 {
        assert(s[0] != 0);
        assert forall|i: int| 0 <= i < n - 1 implies #[trigger] s.drop_first()[i] != 0 by {
            assert(s.drop_first()[i] == s[i + 1]);
        }
        lemma_first_zero(s.drop_first(), n - 1);
    }
}

/// Whether the first zero byte of `s` is at `n`, or `n` is the end of `s` and there is
/// none.
pub open spec fn is_first_zero(s: Seq<u8>, n: int) -> bool {
    &&& 0 <= n <= s.len()
    &&& forall|i: int| 0 <= i < n ==> #[trigger] s[i] != 0
    &&& n < s.len() ==> s[n] == 0
}

/// The raw name is what the file `comm` holds between white space. If that is nothing,
/// or the file cannot be read, it is the file name of the first argument, which is
/// what comes before the first zero byte of `cmdline`.
pub proof fn law_raw_name(
    comm: Option<&str>,
    short: &str,
    cmdline: Option<&[u8]>,
    n: int,
    arg: &str,
    name: Option<&str>,
    res: Option<String>,
)
    requires
        call_ensures(resolve_process_name_raw, (comm, cmdline), res),
        comm is Some ==> call_ensures(trim, (comm->0,), short),
        cmdline is Some ==> is_first_zero(cmdline->0@, n),
        cmdline is Some && valid_utf8(cmdline->0@.take(n)) ==> arg@ == decode_utf8(
            cmdline->0@.take(n),
        ) && call_ensures(file_name, (arg,), name),
    ensures
        comm is Some && short@.len() > 0 ==> (res matches Some(r) && r@ == short@),
        !(comm is Some && short@.len() > 0) ==> {
            &&& cmdline is None ==> res is None
            &&& cmdline is Some && !valid_utf8(cmdline->0@.take(n)) ==> res is None
            &&& cmdline is Some && valid_utf8(cmdline->0@.take(n)) ==> {
                &&& res is Some <==> name is Some
                &&& res is Some ==> res->0@ == name->0@
            }
        },
{
    if cmdline is Some {
        lemma_first_zero(cmdline->0@, n);
    }
    assert(opt_string(res) is Some == res is Some);
}

/// Where a process is known by the path of its executable, its raw name is the file
/// name of that path, unless that looks like a version number; then, and where there
/// is no path, it is the short name. What is no text gives no name.
pub proof fn law_raw_name_from_path(
    path: Option<&[u8]>,
    text: &str,
    name: Option<&str>,
    version_like: bool,
    short: Option<&[u8]>,
    res: Option<String>,
)
    requires
        call_ensures(resolve_process_name_from_path, (path, short), res),
        path is Some && valid_utf8(path->0@) ==> text@ == decode_utf8(path->0@) && call_ensures(
            file_name,
            (text,),
            name,
        ),
        name is Some ==> call_ensures(looks_like_version, (name->0,), version_like),
    ensures
        path is Some && !valid_utf8(path->0@) ==> res is None,
        path is Some && valid_utf8(path->0@) && name is None ==> res is None,
        path is Some && valid_utf8(path->0@) && name is Some && !version_like ==> (res matches Some(
            r,
        ) && r@ == name->0@),
        path is None || (valid_utf8(path->0@) && name is Some && version_like) ==> {
            &&& res is Some <==> short is Some && valid_utf8(short->0@)
            &&& res is Some ==> res->0@ == decode_utf8(short->0@)
        },
{
    assert(opt_string(res) is Some == res is Some);
}

proof fn lemma_nul_pos_concat(a: Seq<u8>, b: Seq<u8>)
    ensures
        nul_pos(a + seq![0u8] + b) == nul_pos(a),
        nul_pos(a) <= a.len(),
    decreases a.len(),
{
    let s = a + seq![0u8] + b;
    if a.len() == 0 {
        assert(s[0] == 0);
    } else {
        assert(s[0] == a[0]);
        assert(s.drop_first() =~= a.drop_first() + seq![0u8] + b);
        lemma_nul_pos_concat(a.drop_first(), b);
    }
}

proof fn lemma_nul_separated_concat(a: Seq<u8>, b: Seq<u8>)
    ensures
        nul_separated(a + seq![0u8] + b) == nul_separated(a) + nul_separated(b),
    decreases a.len(),
{
    let s = a + seq![0u8] + b;
    if a.len() == 0 {
        assert(s[0] == 0);
        assert(s.drop_first() =~= b);
        assert(nul_separated(a) + nul_separated(b) =~= nul_separated(b));
    } else if a[0] == 0 {
        assert(s[0] == 0);
        assert(s.drop_first() =~= a.drop_first() + seq![0u8] + b);
        lemma_nul_separated_concat(a.drop_first(), b);
    } else {
        assert(s[0] == a[0]);
        lemma_nul_pos_concat(a, b);
        let n = nul_pos(a) as int;
        assert(n > 0) by {
            assert(nul_pos(a) == 1 + nul_pos(a.drop_first()));
        }
        assert(s.take(n) =~= a.take(n));
        assert(s.skip(n) =~= a.skip(n) + seq![0u8] + b);
        lemma_nul_separated_concat(a.skip(n), b);
        assert(nul_separated(s) =~= nul_separated(a) + nul_separated(b));
    }
}

proof fn lemma_spaced_concat(x: Seq<Seq<u8>>, y: Seq<Seq<u8>>)
    requires
        x.len() > 0,
        y.len() > 0,
    ensures
        spaced(x + y) == spaced(x) + " "@ + spaced(y),
    decreases y.len(),
{
    let all = x + y;
    assert(all.drop_last() =~= x + y.drop_last());
    assert(all.last() == y.last());
    if y.len() == 1 {
        assert(all.drop_last() =~= x);
        assert(spaced(all) =~= spaced(x) + " "@ + lossy_text(y[0]));
    } else {
        lemma_spaced_concat(x, y.drop_last());
        assert(spaced(all) =~= spaced(x) + " "@ + spaced(y));
    }
}

proof fn lemma_only_zeros(s: Seq<u8>)
    requires
        forall|i: int| 0 <= i < s.len() ==> #[trigger] s[i] == 0,
    ensures
        nul_separated(s).len() == 0,
    decreases s.len(),
{
    if s.len() > 0 {
        assert forall|i: int| 0 <= i < s.drop_first().len() implies #[trigger] s.drop_first()[i]
            == 0 by {
            assert(s.drop_first()[i] == s[i + 1]);
        }
        assert(s[0] == 0);
        lemma_only_zeros(s.drop_first());
    }
}

/// A zero byte separates arguments, and one space stands for it in the command line.
/// Zero bytes with no argument before or behind them leave no trace.
pub proof fn law_arguments_are_put_together(
    a: &[u8],
    b: &[u8],
    whole: &[u8],
    of_a: Option<String>,
    of_b: Option<String>,
    of_whole: Option<String>,
)
    requires
        whole@ == a@ + seq![0u8] + b@,
        call_ensures(get_process_cmdline, (a,), of_a),
        call_ensures(get_process_cmdline, (b,), of_b),
        call_ensures(get_process_cmdline, (whole,), of_whole),
    ensures
        of_a is Some && of_b is Some ==> (of_whole matches Some(line) && line@ == of_a->0@ + " "@
            + of_b->0@),
        (forall|i: int| 0 <= i < a@.len() ==> #[trigger] a@[i] == 0) ==> {
            &&& of_whole is Some <==> of_b is Some
            &&& of_b is Some ==> of_whole->0@ == of_b->0@
        },
        (forall|i: int| 0 <= i < b@.len() ==> #[trigger] b@[i] == 0) ==> {
            &&& of_whole is Some <==> of_a is Some
            &&& of_a is Some ==> of_whole->0@ == of_a->0@
        },
{
    let x = nul_separated(a@);
    let y = nul_separated(b@);
    lemma_nul_separated_concat(a@, b@);
    assert(opt_string(of_a) is Some == of_a is Some);
    assert(opt_string(of_b) is Some == of_b is Some);
    assert(opt_string(of_whole) is Some == of_whole is Some);
    reveal_strlit(" ");
    if of_a is Some && of_b is Some {
        lemma_spaced_concat(x, y);
        assert(spaced(x + y).len() > 0);
    }
    if forall|i: int| 0 <= i < a@.len() ==> #[trigger] a@[i] == 0 {
        lemma_only_zeros(a@);
        assert(x + y =~= y);
    }
    if forall|i: int| 0 <= i < b@.len() ==> #[trigger] b@[i] == 0 {
        lemma_only_zeros(b@);
        assert(x + y =~= x);
    }
}

/// Bytes that encode a text without zero bytes are a command line of that text, unless
/// there are none.
pub proof fn law_one_argument(bytes: &[u8], res: Option<String>)
    requires
        call_ensures(get_process_cmdline, (bytes,), res),
        valid_utf8(bytes@),
        forall|i: int| 0 <= i < bytes@.len() ==> #[trigger] bytes@[i] != 0,
    ensures
        bytes@.len() == 0 ==> res is None,
        bytes@.len() > 0 ==> (res matches Some(line) && line@ == decode_utf8(bytes@)),
{
    let s = bytes@;
    assert(opt_string(res) is Some == res is Some);
    if s.len() > 0 {
        lemma_first_zero(s, s.len() as int);
        assert(s[0] != 0);
        assert(s.take(s.len() as int) =~= s);
        assert(s.skip(s.len() as int) =~= Seq::<u8>::empty());
        assert(nul_separated(Seq::<u8>::empty()) =~= Seq::<Seq<u8>>::empty());
        assert(nul_separated(s) =~= seq![s]);
        assert(nul_separated(s)[0] == s);
        assert(lossy_text(s) == decode_utf8(s));
        assert(decode_utf8(s).len() > 0);
    }
}

/// The command line that the process lister printed is its text between white space.
pub proof fn law_listed_cmdline(output: &[u8], text: &str, line: &str, res: Option<String>)
    requires
        call_ensures(get_listed_cmdline, (output,), res),
        valid_utf8(output@),
        text@ == decode_utf8(output@),
        call_ensures(trim, (text,), line),
    ensures
        line@.len() == 0 ==> res is None,
        line@.len() > 0 ==> (res matches Some(r) && r@ == line@),
{
    assert(opt_string(res) is Some == res is Some);
}

/// A working directory is the text before the first zero byte, if it is text and there
/// is any.
pub proof fn law_process_cwd(buffer: &[u8], n: int, res: Option<String>)
    requires
        call_ensures(resolve_process_cwd, (buffer,), res),
        is_first_zero(buffer@, n),
    ensures
        res is Some <==> n > 0 && valid_utf8(buffer@.take(n)),
        res is Some ==> res->0@ == decode_utf8(buffer@.take(n)),
{
    lemma_first_zero(buffer@, n);
    assert(opt_string(res) is Some == res is Some);
    if valid_utf8(buffer@.take(n)) {
        assert(decode_utf8(buffer@.take(n)).len() > 0 <==> n > 0);
    }
}

} // verus!
