//! Plain operations on text: comparison, white space, slash-separated paths.

use vstd::prelude::*;
use vstd::string::*;

use crate::views::opt_str;

verus! {

/// The characters of `s`, one element each.
pub fn chars_of(s: &str) -> (v: Vec<char>)
    ensures
        v@ == s@,
{
    let mut v: Vec<char> = Vec::new();
    for c in it: s.chars()
        invariant
            v@ == it.seq().take(it.index()),
            it.seq() == s@,
    {
        v.push(c);
        assert(v@ == it.seq().take(it.index() + 1));
    }
    assert(v@ == s@);
    v
}

/// Whether two strings hold the same characters.
pub fn str_eq(a: &str, b: &str) -> (res: bool)
    ensures
        res == (a@ == b@),
{
    let x = chars_of(a);
    let y = chars_of(b);
    if x.len() != y.len() {
        return false;
    }
    let mut i: usize = 0;
    while i < x.len()
        invariant
            x@ == a@,
            y@ == b@,
            x.len() == y.len(),
            i <= x.len(),
            forall|j: int| 0 <= j < i ==> a@[j] == b@[j],
        decreases x.len() - i,
    {
        if x[i] != y[i] {
            return false;
        }
        i += 1;
    }
    assert(a@ =~= b@);
    true
}

/// Whether the text `s` is one of the entries of `list`.
pub open spec fn is_listed(list: Seq<&'static str>, s: Seq<char>) -> bool {
    exists|i: int| 0 <= i < list.len() && (#[trigger] list[i])@ == s
}

/// Looks `s` up in `list`.
pub fn list_contains(list: &[&'static str], s: &str) -> (res: bool)
    ensures
        res == is_listed(list@, s@),
{
    let mut i: usize = 0;
    while i < list.len()
        invariant
            i <= list@.len(),
            forall|j: int| 0 <= j < i ==> (#[trigger] list@[j])@ != s@,
        decreases list.len() - i,
    {
        if str_eq(list[i], s) {
            assert(list@[i as int]@ == s@);
            return true;
        }
        i += 1;
    }
    false
}

/// Whether `s` has two dots in a row somewhere.
pub open spec fn has_dot_dot(s: Seq<char>) -> bool {
    exists|i: int| 0 <= i < s.len() - 1 && #[trigger] s[i] == '.' && s[i + 1] == '.'
}

/// Looks for two dots in a row in `s`.
pub fn contains_dot_dot(s: &str) -> (res: bool)
    ensures
        res == has_dot_dot(s@),
{
    let v = chars_of(s);
    let mut i: usize = 1;
    while i < v.len()
        invariant
            v@ == s@,
            1 <= i,
            i <= v.len() || v.len() == 0,
            forall|j: int| 0 <= j < i - 1 ==> !(#[trigger] s@[j] == '.' && s@[j + 1] == '.'),
        decreases v.len() - i,
    {
        if v[i - 1] == '.' && v[i] == '.' {
            assert(s@[i - 1] == '.' && s@[i - 1 + 1] == '.');
            return true;
        }
        i += 1;
    }
    false
}

/// Whether `s` begins with the character `c`.
pub fn starts_with_char(s: &str, c: char) -> (res: bool)
    ensures
        res == (s@.len() > 0 && s@[0] == c),
{
    if s.is_empty() {
        false
    } else {
        s.get_char(0) == c
    }
}

/// `a`, `b` and `c`, one after the other.
pub fn concat3(a: &str, b: &str, c: &str) -> (res: String)
    ensures
        res@ == a@ + b@ + c@,
{
    let mut res: String = a.to_owned();
    res.append(b);
    res.append(c);
    res
}

/// The characters with the Unicode property `White_Space`.
pub open spec fn is_white_space(c: char) -> bool {
    let u = c as u32;
    ||| 0x09 <= u <= 0x0d
    ||| u == 0x20
    ||| u == 0x85
    ||| u == 0xa0
    ||| u == 0x1680
    ||| 0x2000 <= u <= 0x200a
    ||| u == 0x2028
    ||| u == 0x2029
    ||| u == 0x202f
    ||| u == 0x205f
    ||| u == 0x3000
}

/// Tests for the Unicode property `White_Space`.
pub fn char_is_white_space(c: char) -> (res: bool)
    ensures
        res == is_white_space(c),
{
    let u: u32 = c as u32;
    (0x09 <= u && u <= 0x0d) || u == 0x20 || u == 0x85 || u == 0xa0 || u == 0x1680 || (0x2000 <= u
        && u <= 0x200a) || u == 0x2028 || u == 0x2029 || u == 0x202f || u == 0x205f || u == 0x3000
}

/// Number of characters before the first white space of `s`.
pub open spec fn word_len(s: Seq<char>) -> nat
    decreases s.len(),
{
    if s.len() == 0 || is_white_space(s[0]) {
        0
    } else {
        1 + word_len(s.drop_first())
    }
}

proof fn lemma_word_len(s: Seq<char>, n: nat)
    requires
        n <= s.len(),
        forall|i: int| 0 <= i < n ==> !is_white_space(#[trigger] s[i]),
        n == s.len() || is_white_space(s[n as int]),
    ensures
        word_len(s) == n,
    decreases n,
{
    if n > 0 {
        assert forall|i: int| 0 <= i < n - 1 implies !is_white_space(
            #[trigger] s.drop_first()[i],
        ) by {
            assert(s.drop_first()[i] == s[i + 1]);
        }
        lemma_word_len(s.drop_first(), (n - 1) as nat);
    }
}

proof fn lemma_word_len_bound(s: Seq<char>)
    ensures
        word_len(s) <= s.len(),
        s.len() > 0 && !is_white_space(s[0]) ==> word_len(s) > 0,
    decreases s.len(),
{
    if s.len() > 0 {
        lemma_word_len_bound(s.drop_first());
    }
}

/// The maximal runs of non-white-space characters of `s`, in order.
pub open spec fn words(s: Seq<char>) -> Seq<Seq<char>>
    decreases s.len(),
    via words_decreases
{
    if s.len() == 0 {
        Seq::empty()
    } else if is_white_space(s[0]) {
        words(s.drop_first())
    } else {
        seq![s.take(word_len(s) as int)] + words(s.skip(word_len(s) as int))
    }
}

#[via_fn]
proof fn words_decreases(s: Seq<char>) {
    lemma_word_len_bound(s);
}

/// The views of a list of strings.
pub open spec fn views(v: Seq<&str>) -> Seq<Seq<char>> {
    v.map_values(|w: &str| w@)
}

/// Splits `s` at white space into its words.
pub fn split_whitespace<'a>(s: &'a str) -> (res: Vec<&'a str>)
    ensures
        views(res@) == words(s@),
{
    let v = chars_of(s);
    let mut res: Vec<&'a str> = Vec::new();
    let mut i: usize = 0;
    assert(s@.skip(0) == s@);
    assert(views(res@) + words(s@.skip(0)) == words(s@));
    while i < v.len()
        invariant
            v@ == s@,
            i <= v.len(),
            views(res@) + words(s@.skip(i as int)) == words(s@),
        decreases v.len() - i,
    {
        let ghost rest = s@.skip(i as int);
        if char_is_white_space(v[i]) {
            assert(rest.drop_first() == s@.skip(i + 1));
            i += 1;
        } else {
            let start = i;
            while i < v.len() && !char_is_white_space(v[i])
                invariant
                    v@ == s@,
                    start <= i <= v.len(),
                    forall|j: int| start <= j < i ==> !is_white_space(#[trigger] s@[j]),
                decreases v.len() - i,
            {
                i += 1;
            }
            proof {
                let n = (i - start) as nat;
                assert forall|j: int| 0 <= j < n implies !is_white_space(#[trigger] rest[j]) by {
                    assert(rest[j] == s@[start + j]);
                }
                lemma_word_len(rest, n);
                assert(rest.take(n as int) == s@.subrange(start as int, i as int));
                assert(rest.skip(n as int) == s@.skip(i as int));
            }
            let ghost before = res@;
            let word = s.substring_char(start, i);
            res.push(word);
            assert(views(res@) == views(before) + seq![word@]);
            assert(views(before) + (seq![word@] + words(s@.skip(i as int))) == views(res@) + words(
                s@.skip(i as int),
            ));
        }
    }
    assert(s@.skip(i as int) == Seq::<char>::empty());
    assert(words(Seq::<char>::empty()) == Seq::<Seq<char>>::empty());
    assert(views(res@) + Seq::<Seq<char>>::empty() == views(res@));
    res
}

/// `s` without the white space at its two ends.
pub open spec fn trimmed(s: Seq<char>) -> Seq<char>
    decreases s.len(),
{
    if s.len() == 0 {
        s
    } else if is_white_space(s[0]) {
        trimmed(s.drop_first())
    } else if is_white_space(s.last()) {
        trimmed(s.drop_last())
    } else {
        s
    }
}

/// Removes the white space at the two ends of `s`.
pub fn trim<'a>(s: &'a str) -> (res: &'a str)
    ensures
        res@ == trimmed(s@),
{
    let v = chars_of(s);
    let mut i: usize = 0;
    assert(s@.subrange(0, v.len() as int) == s@);
    while i < v.len() && char_is_white_space(v[i])
        invariant
            v@ == s@,
            i <= v.len(),
            trimmed(s@.subrange(i as int, v.len() as int)) == trimmed(s@),
        decreases v.len() - i,
    {
        assert(s@.subrange(i as int, v.len() as int).drop_first() == s@.subrange(
            i + 1,
            v.len() as int,
        ));
        i += 1;
    }
    let mut j: usize = v.len();
    while j > i && char_is_white_space(v[j - 1])
        invariant
            v@ == s@,
            i <= j <= v.len(),
            i < j ==> !is_white_space(s@[i as int]),
            trimmed(s@.subrange(i as int, j as int)) == trimmed(s@),
        decreases j,
    {
        assert(s@.subrange(i as int, j as int).drop_last() == s@.subrange(i as int, j - 1));
        j -= 1;
    }
    s.substring_char(i, j)
}

/// Index of the last slash of `p`, or -1.
pub open spec fn last_slash(p: Seq<char>) -> int
    decreases p.len(),
{
    if p.len() == 0 {
        -1
    } else if p.last() == '/' {
        p.len() - 1
    } else {
        last_slash(p.drop_last())
    }
}

proof fn lemma_last_slash(p: Seq<char>)
    ensures
        -1 <= last_slash(p) < p.len(),
    decreases p.len(),
{
    if p.len() > 0 {
        lemma_last_slash(p.drop_last());
    }
}

/// The name that a slash-separated path ends in. Empty segments and `.`
/// segments at the end are passed over. A path that then ends in `..`, or that
/// has no segment left, has no file name.
pub open spec fn file_name_of(p: Seq<char>) -> Option<Seq<char>>
    decreases p.len(),
    via file_name_decreases
{
    if p.len() == 0 {
        None
    } else {
        let k = last_slash(p);
        let segment = p.skip(k + 1);
        if segment == seq!['.', '.'] {
            None
        } else if segment.len() > 0 && segment != seq!['.'] {
            Some(segment)
        } else if k < 0 {
            None
        } else {
            file_name_of(p.take(k))
        }
    }
}

#[via_fn]
proof fn file_name_decreases(p: Seq<char>) {
    lemma_last_slash(p);
}

/// The name that the path `p` ends in, if there is one.
pub fn file_name<'a>(p: &'a str) -> (res: Option<&'a str>)
    ensures
        match res {
            Some(name) => file_name_of(p@) == Some(name@),
            None => file_name_of(p@) is None,
        },
{
    let v = chars_of(p);
    let mut end: usize = v.len();
    assert(p@.take(end as int) == p@);
    while end > 0
        invariant
            v@ == p@,
            end <= v.len(),
            file_name_of(p@.take(end as int)) == file_name_of(p@),
        decreases end,
    {
        let ghost cur = p@.take(end as int);
        let mut start: usize = end;
        assert(p@.take(start as int) == cur);
        while start > 0 && v[start - 1] != '/'
            invariant
                v@ == p@,
                start <= end <= v.len(),
                cur == p@.take(end as int),
                last_slash(p@.take(start as int)) == last_slash(cur),
            decreases start,
        {
            assert(p@.take(start as int).drop_last() == p@.take(start - 1));
            start -= 1;
        }
        assert(last_slash(cur) == start - 1) by {
            if start > 0 {
                assert(p@.take(start as int).last() == p@[start - 1]);
            }
        }
        let ghost segment = cur.skip(start as int);
        assert(segment == p@.subrange(start as int, end as int));
        let n: usize = end - start;
        if n == 2 && v[start] == '.' && v[start + 1] == '.' {
            assert(segment =~= seq!['.', '.']);
            return None;
        }
        if n > 0 && !(n == 1 && v[start] == '.') {
            assert(segment != seq!['.', '.']) by {
                if n == 2 {
                    assert(segment[0] == p@[start as int] && segment[1] == p@[start + 1]);
                }
            }
            assert(segment != seq!['.']) by {
                if n == 1 {
                    assert(segment[0] == p@[start as int]);
                }
            }
            return Some(p.substring_char(start, end));
        }
        assert(segment.len() == 0 || segment =~= seq!['.']);
        assert(segment != seq!['.', '.']);
        if start == 0 {
            return None;
        }
        assert(cur.take(start - 1) == p@.take(start - 1));
        end = start - 1;
    }
    assert(p@.take(0) == Seq::<char>::empty());
    None
}

/// The length of what a path starts with before its segments: the root, or a dot
/// that stands for the current directory.
pub open spec fn lead_len(p: Seq<char>) -> int {
    if p.len() > 0 && (p[0] == '/' || (p[0] == '.' && (p.len() == 1 || p[1] == '/'))) {
        1
    } else {
        0
    }
}

/// Where the last segment of `p` starts, not counting its first `n` characters.
pub open spec fn segment_start(p: Seq<char>, n: int) -> int {
    if last_slash(p) >= n {
        last_slash(p) + 1
    } else {
        n
    }
}

/// `p` without its last segment and the slash before it, not counting its first
/// `n` characters.
pub open spec fn without_segment(p: Seq<char>, n: int) -> Seq<char> {
    if segment_start(p, n) > n {
        p.take(segment_start(p, n) - 1)
    } else {
        p.take(n)
    }
}

/// `p` without the empty segments and the `.` segments at its end, not counting its
/// first `n` characters.
pub open spec fn bare(p: Seq<char>, n: int) -> Seq<char>
    decreases p.len(),
    via bare_decreases
{
    if n < 0 || p.len() <= n {
        p
    } else {
        let segment = p.skip(segment_start(p, n));
        if segment.len() == 0 || segment == seq!['.'] {
            bare(without_segment(p, n), n)
        } else {
            p
        }
    }
}

#[via_fn]
proof fn bare_decreases(p: Seq<char>, n: int) {
    lemma_last_slash(p);
}

/// The path of the directory that a slash-separated path lies in: the path without
/// its last segment. Empty segments and `.` segments before and after that one are
/// passed over. The root lies in no directory, and neither does the empty path.
pub open spec fn parent_of(p: Seq<char>) -> Option<Seq<char>> {
    let n = lead_len(p);
    let whole = bare(p, n);
    if whole.len() > n {
        Some(bare(without_segment(whole, n), n))
    } else if n > 0 && p[0] == '.' {
        Some(Seq::empty())
    } else {
        None
    }
}

/// Finds where the last segment of the first `end` characters of `p` starts.
fn find_segment(v: &Vec<char>, end: usize, n: usize) -> (res: usize)
    requires
        n <= end <= v.len(),
    ensures
        n <= res <= end,
        res == segment_start(v@.take(end as int), n as int),
{
    let ghost cur = v@.take(end as int);
    let mut start: usize = end;
    while start > n && v[start - 1] != '/'
        invariant
            n <= start <= end <= v.len(),
            cur == v@.take(end as int),
            last_slash(v@.take(start as int)) == last_slash(cur),
        decreases start,
    {
        assert(v@.take(start as int).drop_last() == v@.take(start - 1));
        start -= 1;
    }
    proof {
        lemma_last_slash(v@.take(start as int));
        if start > n {
            assert(v@.take(start as int).last() == v@[start - 1]);
        }
    }
    start
}

/// How many of the first `end` characters of a path remain without the empty
/// segments and the `.` segments at their end.
fn bare_len(v: &Vec<char>, end: usize, n: usize) -> (res: usize)
    requires
        n <= end <= v.len(),
    ensures
        n <= res <= end,
        v@.take(res as int) == bare(v@.take(end as int), n as int),
{
    let ghost all = bare(v@.take(end as int), n as int);
    let mut cur: usize = end;
    while cur > n
        invariant
            n <= cur <= end <= v.len(),
            all == bare(v@.take(end as int), n as int),
            bare(v@.take(cur as int), n as int) == all,
        decreases cur,
    {
        let start = find_segment(v, cur, n);
        let ghost p = v@.take(cur as int);
        let ghost segment = p.skip(start as int);
        if start == cur || (cur - start == 1 && v[start] == '.') {
            assert(segment.len() == 0 || segment =~= seq!['.']);
            let next: usize = if start > n {
                start - 1
            } else {
                n
            };
            assert(without_segment(p, n as int) =~= v@.take(next as int));
            cur = next;
        } else {
            assert(segment != seq!['.']) by {
                if segment.len() == 1 {
                    assert(segment[0] == v@[start as int]);
                }
            }
            return cur;
        }
    }
    cur
}

/// The path of the directory that the path `p` lies in, if there is one.
pub fn parent<'a>(p: &'a str) -> (res: Option<&'a str>)
    ensures
        opt_str(res) == parent_of(p@),
{
    let v = chars_of(p);
    let n: usize = if v.len() > 0 && (v[0] == '/' || (v[0] == '.' && (v.len() == 1 || v[1]
        == '/'))) {
        1
    } else {
        0
    };
    assert(v@.take(v.len() as int) == p@);
    let end = bare_len(&v, v.len(), n);
    if end > n {
        let start = find_segment(&v, end, n);
        let cut: usize = if start > n {
            start - 1
        } else {
            n
        };
        assert(without_segment(v@.take(end as int), n as int) =~= v@.take(cut as int));
        let len = bare_len(&v, cut, n);
        assert(p@.subrange(0, len as int) =~= v@.take(len as int));
        Some(p.substring_char(0, len))
    } else if n > 0 && v[0] == '.' {
        assert(p@.subrange(0, 0) =~= Seq::<char>::empty());
        Some(p.substring_char(0, 0))
    } else {
        None
    }
}

/// The path `leaf` seen from the directory `base`. An absolute `leaf` stands
/// for itself; otherwise one slash separates the two, unless `base` is empty or
/// ends in a slash already.
pub open spec fn joined(base: Seq<char>, leaf: Seq<char>) -> Seq<char> {
    if leaf.len() > 0 && leaf[0] == '/' {
        leaf
    } else if base.len() == 0 || base.last() == '/' {
        base + leaf
    } else {
        base + seq!['/'] + leaf
    }
}

/// Joins a path onto a directory.
pub fn join_path(base: &str, leaf: &str) -> (res: String)
    ensures
        res@ == joined(base@, leaf@),
{
    if starts_with_char(leaf, '/') {
        return leaf.to_owned();
    }
    proof {
        reveal_strlit("");
        reveal_strlit("/");
        assert("/"@ =~= seq!['/']);
    }
    let v = chars_of(base);
    if v.len() == 0 || v[v.len() - 1] == '/' {
        concat3(base, leaf, "")
    } else {
        concat3(base, "/", leaf)
    }
}

} // verus!
