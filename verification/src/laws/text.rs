//! Laws of the operations on text.

use vstd::prelude::*;

use crate::text::{
    bare, char_is_white_space, chars_of, concat3, contains_dot_dot, file_name, file_name_of,
    is_white_space, join_path, last_slash, lead_len, list_contains, parent, parent_of,
    segment_start, split_whitespace, starts_with_char, str_eq, trim, trimmed, views,
    without_segment, word_len, words,
};

verus! {

/// The characters of a string come one by one, and in order.
pub proof fn law_chars_of(s: &str, res: Vec<char>)
    requires
        call_ensures(chars_of, (s,), res),
    ensures
        res@.len() == s@.len(),
        forall|i: int| 0 <= i < s@.len() ==> #[trigger] res@[i] == s@[i],
{
}

/// Two strings are equal exactly if they have the same characters at the same
/// places.
pub proof fn law_str_eq(a: &str, b: &str, res: bool)
    requires
        call_ensures(str_eq, (a, b), res),
    ensures
        res <==> a@.len() == b@.len() && forall|i: int|
            0 <= i < a@.len() ==> #[trigger] a@[i] == b@[i],
{
    if a@.len() == b@.len() && forall|i: int| 0 <= i < a@.len() ==> #[trigger] a@[i] == b@[i] {
        assert(a@ =~= b@);
    }
}

/// A string is found in a list exactly if it is one of its entries.
pub proof fn law_list_contains(list: &[&'static str], s: &str, res: bool)
    requires
        call_ensures(list_contains, (list, s), res),
    ensures
        res <==> exists|i: int| 0 <= i < list@.len() && (#[trigger] list@[i])@ == s@,
{
}

/// A step to a parent directory is found exactly where two dots follow each other.
pub proof fn law_contains_dot_dot(s: &str, res: bool)
    requires
        call_ensures(contains_dot_dot, (s,), res),
    ensures
        res <==> exists|i: int|
            0 <= i && i + 1 < s@.len() && #[trigger] s@[i] == '.' && s@[i + 1] == '.',
{
    if exists|i: int| 0 <= i && i + 1 < s@.len() && #[trigger] s@[i] == '.' && s@[i + 1] == '.' {
        let i = choose|i: int|
            0 <= i && i + 1 < s@.len() && #[trigger] s@[i] == '.' && s@[i + 1] == '.';
        assert(s@[i] == '.');
    }
}

/// A string starts with a character exactly if that is its first one.
pub proof fn law_starts_with_char(s: &str, c: char, res: bool)
    requires
        call_ensures(starts_with_char, (s, c), res),
    ensures
        res <==> s@.len() > 0 && s@[0] == c,
{
}

/// Three strings are put together in their order, with nothing between them.
pub proof fn law_concat3(a: &str, b: &str, c: &str, res: String)
    requires
        call_ensures(concat3, (a, b, c), res),
    ensures
        res@ == a@ + b@ + c@,
{
}

/// The code points with the Unicode property `White_Space`.
pub open spec fn has_white_space_code(c: char) -> bool {
    let u = c as u32;
    ||| u == 0x9 || u == 0xa || u == 0xb || u == 0xc || u == 0xd || u == 0x20
    ||| u == 0x85 || u == 0xa0 || u == 0x1680 || 0x2000 <= u <= 0x200a
    ||| u == 0x2028 || u == 0x2029 || u == 0x202f || u == 0x205f || u == 0x3000
}

proof fn lemma_white_space(c: char)
    ensures
        is_white_space(c) == has_white_space_code(c),
{
}

/// White space is what Unicode calls so.
pub proof fn law_white_space(c: char, res: bool)
    requires
        call_ensures(char_is_white_space, (c,), res),
    ensures
        res == has_white_space_code(c),
{
    lemma_white_space(c);
}

proof fn lemma_word_len_push(a: Seq<char>, c: char, b: Seq<char>)
    requires
        is_white_space(c),
    ensures
        word_len(a + seq![c] + b) == word_len(a),
        word_len(a) <= a.len(),
    decreases a.len(),
{
    let s = a + seq![c] + b;
    if a.len() == 0 {
        assert(s[0] == c);
    } else {
        assert(s.drop_first() =~= a.drop_first() + seq![c] + b);
        lemma_word_len_push(a.drop_first(), c, b);
    }
}

proof fn lemma_words_concat(a: Seq<char>, c: char, b: Seq<char>)
    requires
        is_white_space(c),
    ensures
        words(a + seq![c] + b) == words(a) + words(b),
    decreases a.len(),
{
    let s = a + seq![c] + b;
    if a.len() == 0 {
        assert(s[0] == c);
        assert(s.drop_first() =~= b);
        assert(words(a) + words(b) =~= words(b));
    } else if is_white_space(a[0]) {
        assert(s[0] == a[0]);
        assert(s.drop_first() =~= a.drop_first() + seq![c] + b);
        lemma_words_concat(a.drop_first(), c, b);
    } else {
        assert(s[0] == a[0]);
        lemma_word_len_push(a, c, b);
        let n = word_len(a) as int;
        assert(n > 0) by {
            assert(word_len(a) == 1 + word_len(a.drop_first()));
        }
        assert(s.take(n) =~= a.take(n));
        assert(s.skip(n) =~= a.skip(n) + seq![c] + b);
        lemma_words_concat(a.skip(n), c, b);
        assert(words(s) =~= words(a) + words(b));
    }
}

/// White space separates words, and nothing else does: the words of two texts with
/// one white-space character between them are those of the one and then those of
/// the other.
pub proof fn law_white_space_separates(
    a: &str,
    c: char,
    b: &str,
    whole: &str,
    of_a: Vec<&str>,
    of_b: Vec<&str>,
    of_whole: Vec<&str>,
)
    requires
        has_white_space_code(c),
        whole@ == a@ + seq![c] + b@,
        call_ensures(split_whitespace, (a,), of_a),
        call_ensures(split_whitespace, (b,), of_b),
        call_ensures(split_whitespace, (whole,), of_whole),
    ensures
        of_whole@.len() == of_a@.len() + of_b@.len(),
        forall|i: int| 0 <= i < of_a@.len() ==> (#[trigger] of_whole@[i])@ == of_a@[i]@,
        forall|i: int|
            0 <= i < of_b@.len() ==> (#[trigger] of_b@[i])@ == of_whole@[of_a@.len() + i]@,
{
    lemma_white_space(c);
    lemma_words_concat(a@, c, b@);
    let x = views(of_a@);
    let y = views(of_b@);
    let z = views(of_whole@);
    assert(z == x + y);
    assert(z.len() == of_whole@.len() && x.len() == of_a@.len() && y.len() == of_b@.len());
    assert forall|i: int| 0 <= i < of_a@.len() implies (#[trigger] of_whole@[i])@
        == of_a@[i]@ by {
        assert(z[i] == x[i]);
    }
    assert forall|i: int| 0 <= i < of_b@.len() implies (#[trigger] of_b@[i])@
        == of_whole@[of_a@.len() + i]@ by {
        assert(z[x.len() + i] == y[i]);
    }
}

proof fn lemma_one_word(s: Seq<char>)
    requires
        forall|i: int| 0 <= i < s.len() ==> !is_white_space(#[trigger] s[i]),
    ensures
        word_len(s) == s.len(),
        words(s) == if s.len() == 0 {
            Seq::<Seq<char>>::empty()
        } else {
            seq![s]
        },
    decreases s.len(),
{
    if s.len() > 0 {
        assert forall|i: int| 0 <= i < s.drop_first().len() implies !is_white_space(
            #[trigger] s.drop_first()[i],
        ) by {
            assert(s.drop_first()[i] == s[i + 1]);
        }
        lemma_one_word(s.drop_first());
        assert(s.take(s.len() as int) =~= s);
        assert(s.skip(s.len() as int) =~= Seq::<char>::empty());
        assert(words(Seq::<char>::empty()) =~= Seq::<Seq<char>>::empty());
        assert(words(s) =~= seq![s]);
    }
}

/// A text without white space is one word, unless it is empty, and then it has none.
pub proof fn law_text_without_white_space_is_one_word(s: &str, res: Vec<&str>)
    requires
        call_ensures(split_whitespace, (s,), res),
        forall|i: int| 0 <= i < s@.len() ==> !has_white_space_code(#[trigger] s@[i]),
    ensures
        s@.len() == 0 ==> res@.len() == 0,
        s@.len() > 0 ==> res@.len() == 1 && res@[0]@ == s@,
{
    assert forall|i: int| 0 <= i < s@.len() implies !is_white_space(#[trigger] s@[i]) by {
        lemma_white_space(s@[i]);
    }
    lemma_one_word(s@);
    assert(views(res@).len() == res@.len());
    if s@.len() > 0 {
        assert(views(res@)[0] == res@[0]@);
    }
}

proof fn lemma_trimmed(s: Seq<char>) -> (ends: (int, int))
    ensures
        0 <= ends.0 <= ends.1 <= s.len(),
        trimmed(s) == s.subrange(ends.0, ends.1),
        forall|i: int| 0 <= i < ends.0 ==> is_white_space(#[trigger] s[i]),
        forall|i: int| ends.1 <= i < s.len() ==> is_white_space(#[trigger] s[i]),
        ends.0 < ends.1 ==> !is_white_space(s[ends.0]) && !is_white_space(s[ends.1 - 1]),
    decreases s.len(),
{
    if s.len() == 0 {
        assert(s.subrange(0, 0) =~= s);
        (0, 0)
    } else if is_white_space(s[0]) {
        let (i, j) = lemma_trimmed(s.drop_first());
        assert(s.drop_first().subrange(i, j) =~= s.subrange(i + 1, j + 1));
        assert forall|k: int| 0 <= k < i + 1 implies is_white_space(#[trigger] s[k]) by {
            if k > 0 {
                assert(s[k] == s.drop_first()[k - 1]);
            }
        }
        assert forall|k: int| j + 1 <= k < s.len() implies is_white_space(#[trigger] s[k]) by {
            assert(s[k] == s.drop_first()[k - 1]);
        }
        (i + 1, j + 1)
    } else if is_white_space(s.last()) {
        let (i, j) = lemma_trimmed(s.drop_last());
        assert(s.drop_last().subrange(i, j) =~= s.subrange(i, j));
        assert forall|k: int| 0 <= k < i implies is_white_space(#[trigger] s[k]) by {
            assert(s[k] == s.drop_last()[k]);
        }
        assert forall|k: int| j <= k < s.len() implies is_white_space(#[trigger] s[k]) by {
            if k < s.len() - 1 {
                assert(s[k] == s.drop_last()[k]);
            }
        }
        (i, j)
    } else {
        assert(s.subrange(0, s.len() as int) =~= s);
        (0, s.len() as int)
    }
}

/// Trimming removes white space at the two ends, and all of it: what is removed on
/// either side is white space, and what remains neither starts nor ends with any.
pub proof fn law_trim(s: &str, res: &str)
    requires
        call_ensures(trim, (s,), res),
    ensures
        exists|i: int, j: int|
            {
                &&& 0 <= i <= j <= s@.len()
                &&& res@ == #[trigger] s@.subrange(i, j)
                &&& forall|k: int| 0 <= k < i ==> has_white_space_code(#[trigger] s@[k])
                &&& forall|k: int| j <= k < s@.len() ==> has_white_space_code(#[trigger] s@[k])
            },
        res@.len() > 0 ==> !has_white_space_code(res@[0]) && !has_white_space_code(res@.last()),
{
    let (i, j) = lemma_trimmed(s@);
    assert forall|k: int| 0 <= k < i implies has_white_space_code(#[trigger] s@[k]) by {
        lemma_white_space(s@[k]);
    }
    assert forall|k: int| j <= k < s@.len() implies has_white_space_code(#[trigger] s@[k]) by {
        lemma_white_space(s@[k]);
    }
    if i < j {
        lemma_white_space(s@[i]);
        lemma_white_space(s@[j - 1]);
    }
    assert(res@ == s@.subrange(i, j));
}

/// Whether `name` holds no slash.
pub open spec fn has_no_slash(name: Seq<char>) -> bool {
    forall|i: int| 0 <= i < name.len() ==> #[trigger] name[i] != '/'
}

proof fn lemma_last_slash_of(dir: Seq<char>, name: Seq<char>)
    requires
        has_no_slash(name),
        dir.len() == 0 || dir.last() == '/',
    ensures
        last_slash(dir + name) == dir.len() - 1,
    decreases name.len(),
{
    let p = dir + name;
    if name.len() == 0 {
        assert(p =~= dir);
    } else {
        assert(p.last() == name[name.len() - 1]);
        assert(p.drop_last() =~= dir + name.drop_last());
        assert forall|i: int| 0 <= i < name.drop_last().len() implies #[trigger] name.drop_last()[i]
            != '/' by {
            assert(name.drop_last()[i] == name[i]);
        }
        lemma_last_slash_of(dir, name.drop_last());
    }
}

/// The file name of a path is what follows its last slash, or the whole path if it
/// has none, whatever that is, dots alone excepted.
pub proof fn law_file_name_follows_the_last_slash(
    p: &str,
    dir: Seq<char>,
    name: Seq<char>,
    res: Option<&str>,
)
    requires
        call_ensures(file_name, (p,), res),
        p@ == dir + name,
        dir.len() == 0 || dir.last() == '/',
        name.len() > 0,
        has_no_slash(name),
        name != seq!['.'],
        name != seq!['.', '.'],
    ensures
        res matches Some(n) && n@ == name,
{
    lemma_last_slash_of(dir, name);
    assert(p@.skip(dir.len() as int) =~= name);
}

/// A path that ends in a step to a parent directory has no file name, and neither
/// has an empty path or a lone dot.
pub proof fn law_dots_are_no_file_name(p: &str, dir: Seq<char>, res: Option<&str>)
    requires
        call_ensures(file_name, (p,), res),
        (p@ == dir + seq!['.', '.'] && (dir.len() == 0 || dir.last() == '/')) || p@.len() == 0
            || p@ == seq!['.'],
    ensures
        res is None,
{
    if p@.len() == 0 {
    } else if p@ == seq!['.'] {
        assert(Seq::<char>::empty() + seq!['.'] =~= p@);
        lemma_last_slash_of(Seq::empty(), seq!['.']);
        assert(p@.skip(0) =~= seq!['.']);
        assert(p@.skip(0).len() == 1);
        assert(seq!['.', '.'].len() == 2);
    } else {
        lemma_last_slash_of(dir, seq!['.', '.']);
        assert(p@.skip(dir.len() as int) =~= seq!['.', '.']);
    }
}

/// A slash at the end of a path, or a slash and a dot, makes no difference to its
/// file name.
pub proof fn law_file_name_ignores_what_ends_a_path(
    p: &str,
    q: &str,
    of_p: Option<&str>,
    of_q: Option<&str>,
)
    requires
        call_ensures(file_name, (p,), of_p),
        call_ensures(file_name, (q,), of_q),
        q@ == p@ + seq!['/'] || q@ == p@ + seq!['/', '.'],
    ensures
        of_p is Some <==> of_q is Some,
        of_p is Some ==> of_p->0@ == of_q->0@,
{
    let slashed = p@ + seq!['/'];
    if q@ == slashed {
        assert(slashed + Seq::<char>::empty() =~= q@);
        lemma_last_slash_of(slashed, Seq::empty());
        assert(q@.skip(slashed.len() as int).len() == 0);
    } else {
        assert(slashed + seq!['.'] =~= q@);
        lemma_last_slash_of(slashed, seq!['.']);
        assert(q@.skip(slashed.len() as int) =~= seq!['.']);
        assert(seq!['.'].len() == 1 && seq!['.', '.'].len() == 2);
    }
    assert(q@.take(slashed.len() - 1) =~= p@);
    assert(file_name_of(q@) == file_name_of(p@));
}

proof fn lemma_segment_start(dir: Seq<char>, name: Seq<char>, n: int)
    requires
        has_no_slash(name),
        0 <= n <= dir.len(),
        dir.len() == n || (dir.len() > n && dir.last() == '/'),
    ensures
        segment_start(dir + name, n) == dir.len(),
{
    if dir.len() > n {
        lemma_last_slash_of(dir, name);
    } else {
        lemma_last_slash_bound(dir, name);
    }
}

proof fn lemma_last_slash_bound(dir: Seq<char>, name: Seq<char>)
    requires
        has_no_slash(name),
    ensures
        last_slash(dir + name) < dir.len(),
    decreases dir.len() + name.len(),
{
    let p = dir + name;
    if name.len() > 0 {
        assert(p.last() == name[name.len() - 1]);
        assert(p.drop_last() =~= dir + name.drop_last());
        assert forall|i: int| 0 <= i < name.drop_last().len() implies #[trigger] name.drop_last()[i]
            != '/' by {
            assert(name.drop_last()[i] == name[i]);
        }
        lemma_last_slash_bound(dir, name.drop_last());
    } else if dir.len() > 0 {
        assert(p =~= dir);
        assert(dir.drop_last() + Seq::<char>::empty() =~= dir.drop_last());
        lemma_last_slash_bound(dir.drop_last(), Seq::empty());
    } else {
        assert(p =~= Seq::<char>::empty());
    }
}

/// Whether a path that `dir` starts, and a slash follows, has `dir` as a directory
/// that is written without superfluous slashes and dots at its end.
pub open spec fn is_plain_dir(dir: Seq<char>) -> bool {
    &&& dir.len() > 0
    &&& dir.last() != '/'
    &&& dir.len() >= 2 && dir.last() == '.' ==> dir[dir.len() - 2] != '/'
}

proof fn lemma_plain_dir_is_bare(dir: Seq<char>, n: int)
    requires
        is_plain_dir(dir),
        n == lead_len(dir),
    ensures
        bare(dir, n) == dir,
{
    if dir.len() > n {
        let start = segment_start(dir, n);
        lemma_last_slash_bound(dir, Seq::empty());
        assert(dir + Seq::<char>::empty() =~= dir);
        let segment = dir.skip(start);
        if start == dir.len() {
            if last_slash(dir) >= n {
                lemma_last_slash_is_slash(dir);
            }
        }
        assert(segment.len() > 0);
        if segment == seq!['.'] {
            assert(segment.len() == 1);
            assert(segment[0] == '.');
            assert(dir.last() == '.');
            assert(start == dir.len() - 1);
            if last_slash(dir) >= n {
                lemma_last_slash_is_slash(dir);
                assert(dir[dir.len() - 2] == '/');
            } else {
                assert(dir.len() == n + 1);
                if n == 1 {
                    assert(dir[0] == '/' || dir[1] == '/');
                }
            }
        }
    }
}

proof fn lemma_last_slash_is_slash(p: Seq<char>)
    ensures
        -1 <= last_slash(p) < p.len(),
        last_slash(p) >= 0 ==> p[last_slash(p)] == '/',
    decreases p.len(),
{
    if p.len() > 0 && p.last() != '/' {
        lemma_last_slash_is_slash(p.drop_last());
    }
}

/// The path of a directory, a slash and a name lies in that directory, whatever the
/// two are.
pub proof fn law_parent_is_the_directory(
    p: &str,
    dir: Seq<char>,
    name: Seq<char>,
    res: Option<&str>,
)
    requires
        call_ensures(parent, (p,), res),
        p@ == dir + seq!['/'] + name,
        is_plain_dir(dir),
        name.len() > 0,
        has_no_slash(name),
        name != seq!['.'],
    ensures
        res matches Some(d) && d@ == dir,
{
    let n = lead_len(p@);
    let slashed = dir + seq!['/'];
    assert(p@[0] == dir[0]);
    assert(dir.len() > 1 ==> p@[1] == dir[1]);
    assert(dir.len() == 1 ==> p@[1] == '/');
    assert(n == lead_len(dir));
    lemma_segment_start(slashed, name, n);
    assert(p@.skip(slashed.len() as int) =~= name);
    assert(bare(p@, n) == p@);
    assert(without_segment(p@, n) =~= dir);
    lemma_plain_dir_is_bare(dir, n);
}

/// A name alone lies in the current directory, whose path is empty, and a name
/// behind the root lies in the root.
pub proof fn law_parent_of_a_name(p: &str, name: Seq<char>, res: Option<&str>)
    requires
        call_ensures(parent, (p,), res),
        p@ == name || p@ == seq!['/'] + name,
        name.len() > 0,
        has_no_slash(name),
        name != seq!['.'],
    ensures
        p@ == name ==> (res matches Some(d) && d@ == Seq::<char>::empty()),
        p@ != name ==> (res matches Some(d) && d@ == seq!['/']),
{
    let n = lead_len(p@);
    if p@ == name {
        assert(n == 0) by {
            assert(name[0] != '/');
            if name[0] == '.' {
                if name.len() == 1 {
                    assert(name =~= seq!['.']);
                } else {
                    assert(name[1] != '/');
                }
            }
        }
        assert(Seq::<char>::empty() + name =~= p@);
        lemma_segment_start(Seq::empty(), name, 0);
        assert(p@.skip(0) =~= name);
        assert(bare(p@, 0) == p@);
        assert(without_segment(p@, 0) =~= Seq::<char>::empty());
    } else {
        assert(p@[0] == '/');
        lemma_segment_start(seq!['/'], name, 1);
        assert(p@.skip(1) =~= name);
        assert(bare(p@, 1) == p@);
        assert(without_segment(p@, 1) =~= seq!['/']);
    }
}

/// The root lies in no directory, and neither does the empty path; a lone dot lies
/// in the current directory.
pub proof fn law_parent_of_nothing(p: &str, res: Option<&str>)
    requires
        call_ensures(parent, (p,), res),
        p@.len() == 0 || p@ == seq!['/'] || p@ == seq!['.'],
    ensures
        p@ == seq!['.'] ==> (res matches Some(d) && d@ == Seq::<char>::empty()),
        p@ != seq!['.'] ==> res is None,
{
    assert(seq!['/'][0] == '/' && seq!['.'][0] == '.');
}

/// A slash at the end of a path, or a slash and a dot, makes no difference to the
/// directory that it lies in.
pub proof fn law_parent_ignores_what_ends_a_path(
    p: &str,
    q: &str,
    of_p: Option<&str>,
    of_q: Option<&str>,
)
    requires
        call_ensures(parent, (p,), of_p),
        call_ensures(parent, (q,), of_q),
        q@ == p@ + seq!['/'] || q@ == p@ + seq!['/', '.'],
    ensures
        of_p is Some <==> of_q is Some,
        of_p is Some ==> of_p->0@ == of_q->0@,
{
    let slashed = p@ + seq!['/'];
    if p@.len() == 0 {
        assert(q@[0] == '/');
        if q@ == slashed {
            assert(q@.len() == 1);
        } else {
            assert(slashed + seq!['.'] =~= q@);
            lemma_segment_start(slashed, seq!['.'], 1);
            assert(q@.skip(1) =~= seq!['.']);
            assert(without_segment(q@, 1) =~= seq!['/']);
            assert(bare(q@, 1) == bare(seq!['/'], 1));
        }
    } else {
        let n = lead_len(p@);
        assert(q@[0] == p@[0]);
        assert(p@.len() > 1 ==> q@[1] == p@[1]);
        assert(p@.len() == 1 ==> q@[1] == '/');
        assert(lead_len(q@) == n);
        if q@ == slashed {
            assert(slashed + Seq::<char>::empty() =~= q@);
            lemma_segment_start(slashed, Seq::empty(), n);
            assert(q@.skip(slashed.len() as int).len() == 0);
        } else {
            assert(slashed + seq!['.'] =~= q@);
            lemma_segment_start(slashed, seq!['.'], n);
            assert(q@.skip(slashed.len() as int) =~= seq!['.']);
        }
        assert(without_segment(q@, n) =~= p@);
        assert(bare(q@, n) == bare(p@, n));
    }
    assert(parent_of(p@) == parent_of(q@));
}

/// Joining paths puts one slash between them where there is none yet, and an
/// absolute path stands for itself.
pub proof fn law_join_path(base: &str, leaf: &str, res: String)
    requires
        call_ensures(join_path, (base, leaf), res),
    ensures
        leaf@.len() > 0 && leaf@[0] == '/' ==> res@ == leaf@,
        !(leaf@.len() > 0 && leaf@[0] == '/') && (base@.len() == 0 || base@.last() == '/')
            ==> res@ == base@ + leaf@,
        !(leaf@.len() > 0 && leaf@[0] == '/') && base@.len() > 0 && base@.last() != '/'
            ==> res@ == base@ + seq!['/'] + leaf@,
{
}

} // verus!
