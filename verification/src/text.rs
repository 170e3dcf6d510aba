//! Text as a sequence of characters: trimming, splitting and matching.

use vstd::prelude::*;
use vstd::string::*;

verus! {

/// Appends one character to a text.
///
/// Trusted: `std::string::String::push`, which "appends the given char to the end of
/// this String".
pub assume_specification[ String::push ](s: &mut String, c: char)
    ensures
        final(s)@ == old(s)@.push(c),
;

/// The characters with the Unicode property White_Space.
pub open spec fn white(c: char) -> bool {
    ||| '\u{9}' <= c <= '\u{d}'
    ||| c == ' '
    ||| c == '\u{85}'
    ||| c == '\u{a0}'
    ||| c == '\u{1680}'
    ||| '\u{2000}' <= c <= '\u{200a}'
    ||| c == '\u{2028}'
    ||| c == '\u{2029}'
    ||| c == '\u{202f}'
    ||| c == '\u{205f}'
    ||| c == '\u{3000}'
}

/// `s` without its leading white space.
pub open spec fn trim_start(s: Seq<char>) -> Seq<char>
    decreases s.len(),
{
    if s.len() > 0 && white(s.first()) {
        trim_start(s.skip(1))
    } else {
        s
    }
}

/// `s` without its trailing white space.
pub open spec fn trim_end(s: Seq<char>) -> Seq<char>
    decreases s.len(),
{
    if s.len() > 0 && white(s.last()) {
        trim_end(s.drop_last())
    } else {
        s
    }
}

/// `s` without white space at either end.
pub open spec fn trim(s: Seq<char>) -> Seq<char> {
    trim_end(trim_start(s))
}

/// The index of the first `c` in `s`, or the length of `s` if there is none.
pub open spec fn find(s: Seq<char>, c: char) -> int
    decreases s.len(),
{
    if s.len() == 0 || s.first() == c {
        0
    } else {
        1 + find(s.skip(1), c)
    }
}

/// The index of the first white space in `s`, or the length of `s` if there is none.
pub open spec fn find_white(s: Seq<char>) -> int
    decreases s.len(),
{
    if s.len() == 0 || white(s.first()) {
        0
    } else {
        1 + find_white(s.skip(1))
    }
}

/// `s` without one trailing carriage return.
pub open spec fn without_return(s: Seq<char>) -> Seq<char> {
    if s.len() > 0 && s.last() == '\r' {
        s.drop_last()
    } else {
        s
    }
}

/// The lines of `s`. Each ends in a line feed or in a carriage return and a line feed, which
/// are not part of it; the line feed of the last line is optional.
pub open spec fn lines(s: Seq<char>) -> Seq<Seq<char>>
    decreases s.len(),
    via lines_shrink
{
    if s.len() == 0 {
        seq![]
    } else if find(s, '\n') < s.len() {
        seq![without_return(s.take(find(s, '\n')))] + lines(s.skip(find(s, '\n') + 1))
    } else {
        seq![s]
    }
}

#[via_fn]
proof fn lines_shrink(s: Seq<char>) {
    lemma_find(s, '\n');
}

/// The parts of `s` between white space; none of them is empty.
pub open spec fn words(s: Seq<char>) -> Seq<Seq<char>>
    decreases s.len(),
    via words_shrink
{
    let t = trim_start(s);
    if t.len() == 0 {
        seq![]
    } else {
        seq![t.take(find_white(t))] + words(t.skip(find_white(t)))
    }
}

#[via_fn]
proof fn words_shrink(s: Seq<char>) {
    let t = trim_start(s);
    lemma_trim_start(s);
    lemma_find_white(t);
}

/// The parts of `s` between occurrences of `c`: one more than `c` occurs.
pub open spec fn split(s: Seq<char>, c: char) -> Seq<Seq<char>>
    decreases s.len(),
    via split_shrink
{
    if find(s, c) < s.len() {
        seq![s.take(find(s, c))] + split(s.skip(find(s, c) + 1), c)
    } else {
        seq![s]
    }
}

#[via_fn]
proof fn split_shrink(s: Seq<char>, c: char) {
    lemma_find(s, c);
}

/// What stands before and behind the first `c` of `s`.
pub open spec fn split_once(s: Seq<char>, c: char) -> Option<(Seq<char>, Seq<char>)> {
    if find(s, c) < s.len() {
        Some((s.take(find(s, c)), s.skip(find(s, c) + 1)))
    } else {
        None
    }
}

/// `s` without the characters equal to `c`.
pub open spec fn without(s: Seq<char>, c: char) -> Seq<char>
    decreases s.len(),
{
    if s.len() == 0 {
        s
    } else if s.last() == c {
        without(s.drop_last(), c)
    } else {
        without(s.drop_last(), c).push(s.last())
    }
}

/// `s` with every leading repetition of `p` removed.
pub open spec fn trim_start_matches(s: Seq<char>, p: Seq<char>) -> Seq<char>
    decreases s.len(),
{
    if p.len() > 0 && p.is_prefix_of(s) {
        trim_start_matches(s.skip(p.len() as int), p)
    } else {
        s
    }
}

/// `s` with every trailing repetition of `p` removed.
pub open spec fn trim_end_matches(s: Seq<char>, p: Seq<char>) -> Seq<char>
    decreases s.len(),
{
    if p.len() > 0 && p.is_suffix_of(s) {
        trim_end_matches(s.take(s.len() - p.len()), p)
    } else {
        s
    }
}

/// The texts that strings hold.
pub open spec fn texts(v: Seq<String>) -> Seq<Seq<char>> {
    v.map_values(|t: String| t@)
}

/// Whether `s` holds ASCII characters only.
pub open spec fn ascii(s: Seq<char>) -> bool {
    forall|k: int| 0 <= k < s.len() ==> s[k] <= '\u{7f}'
}

/// The lower case letter of an ASCII capital; any other character as it is.
pub open spec fn ascii_lower_char(c: char) -> char {
    if 'A' <= c <= 'Z' {
        (c as int + 32) as char
    } else {
        c
    }
}

/// `s` with its ASCII capitals in lower case.
pub open spec fn ascii_lower(s: Seq<char>) -> Seq<char> {
    s.map_values(|c: char| ascii_lower_char(c))
}

/// The lower case of `s` by the rules of Unicode.
pub uninterp spec fn lowercase(s: Seq<char>) -> Seq<char>;

/// The lower case of `s` by the rules of Unicode.
///
/// Trusted: `str::to_lowercase`. Its result depends on the text alone, and on ASCII text it
/// turns the capitals into small letters and keeps everything else.
#[verifier::external_body]
pub(crate) fn to_lowercase(s: &str) -> (r: String)
    ensures
        r@ == lowercase(s@),
        ascii(s@) ==> r@ == ascii_lower(s@),
{
    s.to_lowercase()
}

/// An index found by `find` is the first of its character.
pub proof fn lemma_find(s: Seq<char>, c: char)
    ensures
        0 <= find(s, c) <= s.len(),
        find(s, c) < s.len() ==> s[find(s, c)] == c,
        forall|k: int| 0 <= k < find(s, c) ==> s[k] != c,
    decreases s.len(),
{
    if s.len() > 0 && s.first() != c {
        lemma_find(s.skip(1), c);
        assert forall|k: int| 0 <= k < find(s, c) implies s[k] != c by {
            if k > 0 {
                assert(s[k] == s.skip(1)[k - 1]);
            }
        }
    }
}

/// The first index of a character is what `find` gives.
pub proof fn lemma_find_is(s: Seq<char>, c: char, i: int)
    requires
        0 <= i <= s.len(),
        i < s.len() ==> s[i] == c,
        forall|k: int| 0 <= k < i ==> s[k] != c,
    ensures
        find(s, c) == i,
{
    lemma_find(s, c);
}

/// A text without `c` is its own only part.
pub proof fn lemma_split_none(s: Seq<char>, c: char)
    requires
        forall|k: int| 0 <= k < s.len() ==> s[k] != c,
    ensures
        split(s, c) == seq![s],
{
    lemma_find_is(s, c, s.len() as int);
}

/// What stands before the first `c` is the first part.
pub proof fn lemma_split_first(a: Seq<char>, c: char, b: Seq<char>)
    requires
        forall|k: int| 0 <= k < a.len() ==> a[k] != c,
    ensures
        split(a + seq![c] + b, c) == seq![a] + split(b, c),
{
    let s = a + seq![c] + b;
    assert forall|k: int| 0 <= k < a.len() implies s[k] != c by {
        assert(s[k] == a[k]);
    }
    assert(s[a.len() as int] == c);
    lemma_find_is(s, c, a.len() as int);
    assert(s.take(a.len() as int) =~= a);
    assert(s.skip(a.len() as int + 1) =~= b);
}

/// An index found by `find_white` is the first white space.
pub proof fn lemma_find_white(s: Seq<char>)
    ensures
        0 <= find_white(s) <= s.len(),
        s.len() > 0 && !white(s.first()) ==> find_white(s) > 0,
        find_white(s) < s.len() ==> white(s[find_white(s)]),
        forall|k: int| 0 <= k < find_white(s) ==> !white(s[k]),
    decreases s.len(),
{
    if s.len() > 0 && !white(s.first()) {
        lemma_find_white(s.skip(1));
        assert forall|k: int| 0 <= k < find_white(s) implies !white(s[k]) by {
            if k > 0 {
                assert(s[k] == s.skip(1)[k - 1]);
            }
        }
    }
}

/// The first index of white space is what `find_white` gives.
pub proof fn lemma_find_white_is(s: Seq<char>, i: int)
    requires
        0 <= i <= s.len(),
        i < s.len() ==> white(s[i]),
        forall|k: int| 0 <= k < i ==> !white(s[k]),
    ensures
        find_white(s) == i,
{
    lemma_find_white(s);
}

/// Trimming the start leaves a suffix that does not start with white space.
pub proof fn lemma_trim_start(s: Seq<char>)
    ensures
        trim_start(s).len() <= s.len(),
        trim_start(s) == s.skip(s.len() - trim_start(s).len()),
        trim_start(s).len() > 0 ==> !white(trim_start(s).first()),
    decreases s.len(),
{
    if s.len() > 0 && white(s.first()) {
        lemma_trim_start(s.skip(1));
        assert(s.skip(1).skip(s.len() - 1 - trim_start(s).len()) =~= s.skip(
            s.len() - trim_start(s).len(),
        ));
    } else {
        assert(s.skip(0) =~= s);
    }
}

/// Trimming the end leaves a prefix that does not end in white space.
pub proof fn lemma_trim_end(s: Seq<char>)
    ensures
        trim_end(s).len() <= s.len(),
        trim_end(s) == s.take(trim_end(s).len() as int),
        trim_end(s).len() > 0 ==> !white(trim_end(s).last()),
    decreases s.len(),
{
    if s.len() > 0 && white(s.last()) {
        lemma_trim_end(s.drop_last());
        assert(s.drop_last().take(trim_end(s).len() as int) =~= s.take(trim_end(s).len() as int));
    } else {
        assert(s.take(s.len() as int) =~= s);
    }
}

/// Leading white space is dropped one run at a time.
pub proof fn lemma_trim_start_from(s: Seq<char>, i: int)
    requires
        0 <= i <= s.len(),
        forall|k: int| 0 <= k < i ==> white(s[k]),
    ensures
        trim_start(s) == trim_start(s.skip(i)),
    decreases i,
{
    if i > 0 {
        assert forall|k: int| 0 <= k < i - 1 implies white(s.skip(1)[k]) by {
            assert(s.skip(1)[k] == s[k + 1]);
        }
        lemma_trim_start_from(s.skip(1), i - 1);
        assert(s.skip(1).skip(i - 1) =~= s.skip(i));
    } else {
        assert(s.skip(0) =~= s);
    }
}

/// Trailing white space is dropped one run at a time.
proof fn lemma_trim_end_from(s: Seq<char>, n: int)
    requires
        0 <= n <= s.len(),
        forall|k: int| n <= k < s.len() ==> white(s[k]),
    ensures
        trim_end(s) == trim_end(s.take(n)),
    decreases s.len() - n,
{
    if n < s.len() {
        lemma_trim_end_from(s.drop_last(), n);
        assert(s.drop_last().take(n) =~= s.take(n));
    } else {
        assert(s.take(n) =~= s);
    }
}

/// A text with no white space at its ends is its own trimmed form.
pub proof fn lemma_trim_id(s: Seq<char>)
    requires
        s.len() > 0 ==> !white(s.first()) && !white(s.last()),
    ensures
        trim_start(s) == s,
        trim_end(s) == s,
        trim(s) == s,
{
}

/// White space behind a text is trimmed away.
pub proof fn lemma_trim_end_append(s: Seq<char>, tail: Seq<char>)
    requires
        s.len() > 0 ==> !white(s.last()),
        forall|k: int| 0 <= k < tail.len() ==> white(tail[k]),
    ensures
        trim_end(s + tail) == s,
{
    let t = s + tail;
    assert forall|k: int| s.len() <= k < t.len() implies white(t[k]) by {
        assert(t[k] == tail[k - s.len()]);
    }
    lemma_trim_end_from(t, s.len() as int);
    assert(t.take(s.len() as int) =~= s);
}

/// White space before and behind a text is trimmed away.
pub proof fn lemma_trim_around(head: Seq<char>, s: Seq<char>, tail: Seq<char>)
    requires
        s.len() > 0,
        !white(s.first()),
        !white(s.last()),
        forall|k: int| 0 <= k < head.len() ==> white(head[k]),
        forall|k: int| 0 <= k < tail.len() ==> white(tail[k]),
    ensures
        trim(head + s + tail) == s,
{
    let t = head + s + tail;
    assert forall|k: int| 0 <= k < head.len() implies white(t[k]) by {
        assert(t[k] == head[k]);
    }
    lemma_trim_start_from(t, head.len() as int);
    assert(t.skip(head.len() as int) =~= s + tail);
    assert((s + tail).first() == s.first());
    lemma_trim_end_append(s, tail);
}

/// Whether `c` is white space.
pub fn is_white(c: char) -> (r: bool)
    ensures
        r == white(c),
{
    ('\u{9}' <= c && c <= '\u{d}') || c == ' ' || c == '\u{85}' || c == '\u{a0}'
        || c == '\u{1680}' || ('\u{2000}' <= c && c <= '\u{200a}') || c == '\u{2028}'
        || c == '\u{2029}' || c == '\u{202f}' || c == '\u{205f}' || c == '\u{3000}'
}

/// The characters of `s` in order.
pub fn chars_of(s: &str) -> (r: Vec<char>)
    ensures
        r@ == s@,
{
    let mut r: Vec<char> = Vec::new();
    for c in it: s.chars()
        invariant
            it.seq() == s@,
            r@ == s@.take(it.index() as int),
    {
        r.push(c);
        assert(r@ == s@.take(it.index() + 1));
    }
    assert(s@.take(s@.len() as int) == s@);
    r
}

/// The text of `v` between two indices.
pub fn text_of(v: &Vec<char>, from: usize, to: usize) -> (r: String)
    requires
        from <= to <= v.len(),
    ensures
        r@ == v@.subrange(from as int, to as int),
{
    let mut r = String::new();
    let mut i: usize = from;
    assert(r@ =~= v@.subrange(from as int, from as int));
    while i < to
        invariant
            from <= i <= to <= v.len(),
            r@ == v@.subrange(from as int, i as int),
        decreases to - i,
    {
        r.push(v[i]);
        i += 1;
        assert(r@ =~= v@.subrange(from as int, i as int));
    }
    r
}

/// The strings of `v` once more.
pub fn copied(v: &Vec<String>) -> (r: Vec<String>)
    ensures
        texts(r@) == texts(v@),
{
    let mut r: Vec<String> = Vec::new();
    let mut i: usize = 0;
    while i < v.len()
        invariant
            i <= v.len(),
            texts(r@) == texts(v@.take(i as int)),
        decreases v.len() - i,
    {
        let ghost done = texts(r@);
        r.push(v[i].clone());
        i += 1;
        assert(texts(r@) =~= done.push(v@[i - 1]@));
        assert(texts(v@.take(i as int)) =~= done.push(v@[i - 1]@));
    }
    assert(v@.take(i as int) =~= v@);
    r
}

/// Whether two texts are the same.
pub fn same(a: &str, b: &str) -> (r: bool)
    ensures
        r == (a@ == b@),
{
    a.to_owned() == b.to_owned()
}

/// The texts `a` and `b` one behind the other.
pub fn joined(a: &str, b: &str) -> (r: String)
    ensures
        r@ == a@ + b@,
{
    let mut r = a.to_owned();
    r.append(b);
    r
}

/// Whether `s` starts with `p`.
pub fn starts_with(s: &str, p: &str) -> (r: bool)
    ensures
        r == p@.is_prefix_of(s@),
{
    let n: usize = p.unicode_len();
    if n > s.unicode_len() {
        return false;
    }
    same(s.substring_char(0, n), p)
}

/// Whether `s` ends with `p`.
pub fn ends_with(s: &str, p: &str) -> (r: bool)
    ensures
        r == p@.is_suffix_of(s@),
{
    let n: usize = p.unicode_len();
    let m: usize = s.unicode_len();
    if n > m {
        return false;
    }
    same(s.substring_char(m - n, m), p)
}

/// What stands behind `p` at the start of `s`, if it starts with `p`.
pub fn strip_prefix<'a>(s: &'a str, p: &str) -> (r: Option<&'a str>)
    ensures
        r is Some == p@.is_prefix_of(s@),
        r is Some ==> r->0@ == s@.skip(p@.len() as int),
{
    if starts_with(s, p) {
        Some(s.substring_char(p.unicode_len(), s.unicode_len()))
    } else {
        None
    }
}

/// `s` without its leading white space.
pub fn trimmed_start<'a>(s: &'a str) -> (r: &'a str)
    ensures
        r@ == trim_start(s@),
{
    let v = chars_of(s);
    let mut i: usize = 0;
    while i < v.len() && is_white(v[i])
        invariant
            v@ == s@,
            i <= v.len(),
            forall|k: int| 0 <= k < i ==> white(s@[k]),
        decreases v.len() - i,
    {
        i += 1;
    }
    proof {
        lemma_trim_start_from(s@, i as int);
        if i < v.len() {
            assert(s@.skip(i as int).first() == s@[i as int]);
        }
    }
    s.substring_char(i, v.len())
}

/// `s` without its trailing white space.
pub fn trimmed_end<'a>(s: &'a str) -> (r: &'a str)
    ensures
        r@ == trim_end(s@),
{
    let v = chars_of(s);
    let mut n: usize = v.len();
    while n > 0 && is_white(v[n - 1])
        invariant
            v@ == s@,
            n <= v.len(),
            forall|k: int| n <= k < v.len() ==> white(s@[k]),
        decreases n,
    {
        n -= 1;
    }
    proof {
        lemma_trim_end_from(s@, n as int);
        if n > 0 {
            assert(s@.take(n as int).last() == s@[n - 1]);
        }
    }
    s.substring_char(0, n)
}

/// `s` without white space at either end.
pub fn trimmed<'a>(s: &'a str) -> (r: &'a str)
    ensures
        r@ == trim(s@),
{
    trimmed_end(trimmed_start(s))
}

/// The index of the first `c` of `v` from `from` on, or the length of `v`.
fn find_from(v: &Vec<char>, from: usize, c: char) -> (r: usize)
    requires
        from <= v.len(),
    ensures
        from <= r <= v.len(),
        r == from + find(v@.skip(from as int), c),
{
    let mut i: usize = from;
    while i < v.len() && v[i] != c
        invariant
            from <= i <= v.len(),
            forall|k: int| from <= k < i ==> v@[k] != c,
        decreases v.len() - i,
    {
        i += 1;
    }
    proof {
        let t = v@.skip(from as int);
        assert forall|k: int| 0 <= k < i - from implies t[k] != c by {
            assert(t[k] == v@[from + k]);
        }
        lemma_find_is(t, c, i - from);
    }
    i
}

/// The lines of `s`.
pub fn lines_of(s: &str) -> (r: Vec<String>)
    ensures
        texts(r@) == lines(s@),
{
    let v = chars_of(s);
    let mut r: Vec<String> = Vec::new();
    let mut i: usize = 0;
    assert(s@.skip(0) =~= s@);
    assert(texts(r@) + lines(s@) =~= lines(s@));
    while i < v.len()
        invariant
            v@ == s@,
            i <= v.len(),
            texts(r@) + lines(s@.skip(i as int)) == lines(s@),
        decreases v.len() - i,
    {
        let ghost rest = s@.skip(i as int);
        let ghost done = texts(r@);
        let j: usize = find_from(&v, i, '\n');
        if j < v.len() {
            let n: usize = if j > i && v[j - 1] == '\r' { j - 1 } else { j };
            let line = text_of(&v, i, n);
            proof {
                assert(rest.take(j - i) =~= v@.subrange(i as int, j as int));
                assert(line@ =~= without_return(rest.take(j - i)));
                assert(rest.skip(j - i + 1) =~= s@.skip(j + 1));
            }
            r.push(line);
            i = j + 1;
            assert(texts(r@) =~= done.push(line@));
            assert(texts(r@) + lines(s@.skip(i as int)) =~= done + lines(rest));
        } else {
            let line = text_of(&v, i, j);
            assert(line@ =~= rest);
            r.push(line);
            i = j;
            assert(texts(r@) =~= done.push(line@));
            assert(lines(s@.skip(i as int)) =~= seq![]);
            assert(texts(r@) + lines(s@.skip(i as int)) =~= done + lines(rest));
        }
    }
    assert(texts(r@) + lines(s@.skip(i as int)) =~= texts(r@));
    r
}

/// The words of `s`.
pub fn words_of(s: &str) -> (r: Vec<String>)
    ensures
        texts(r@) == words(s@),
{
    let v = chars_of(s);
    let mut r: Vec<String> = Vec::new();
    let mut i: usize = 0;
    assert(s@.skip(0) =~= s@);
    assert(texts(r@) + words(s@) =~= words(s@));
    while i < v.len()
        invariant
            v@ == s@,
            i <= v.len(),
            texts(r@) + words(s@.skip(i as int)) == words(s@),
        decreases v.len() - i,
    {
        let ghost rest = s@.skip(i as int);
        let ghost done = texts(r@);
        let mut j: usize = i;
        while j < v.len() && is_white(v[j])
            invariant
                v@ == s@,
                i <= j <= v.len(),
                forall|k: int| i <= k < j ==> white(s@[k]),
            decreases v.len() - j,
        {
            j += 1;
        }
        let ghost t = s@.skip(j as int);
        proof {
            assert forall|k: int| 0 <= k < j - i implies white(rest[k]) by {
                assert(rest[k] == s@[i + k]);
            }
            lemma_trim_start_from(rest, j - i);
            assert(rest.skip(j - i) =~= t);
            if j < v.len() {
                assert(t.first() == s@[j as int]);
            }
            assert(trim_start(rest) == t);
        }
        let mut n: usize = j;
        while n < v.len() && !is_white(v[n])
            invariant
                v@ == s@,
                j <= n <= v.len(),
                forall|k: int| j <= k < n ==> !white(s@[k]),
            decreases v.len() - n,
        {
            n += 1;
        }
        proof {
            assert forall|k: int| 0 <= k < n - j implies !white(t[k]) by {
                assert(t[k] == s@[j + k]);
            }
            lemma_find_white_is(t, n - j);
            assert(t.take(n - j) =~= v@.subrange(j as int, n as int));
            assert(t.skip(n - j) =~= s@.skip(n as int));
        }
        if j < v.len() {
            assert(!white(s@[j as int]));
            assert(n > j) by {
                lemma_find_white(t);
            }
            let word = text_of(&v, j, n);
            r.push(word);
            assert(texts(r@) =~= done.push(word@));
            assert(words(rest) == seq![word@] + words(s@.skip(n as int)));
        } else {
            assert(words(rest) =~= seq![]);
            assert(words(s@.skip(n as int)) =~= seq![]);
        }
        i = n;
        assert(texts(r@) + words(s@.skip(i as int)) =~= done + words(rest));
    }
    assert(words(s@.skip(i as int)) =~= seq![]) by {
        assert(s@.skip(i as int).len() == 0);
    }
    assert(texts(r@) + words(s@.skip(i as int)) =~= texts(r@));
    r
}

/// The parts of `s` between occurrences of `c`.
pub fn split_of(s: &str, c: char) -> (r: Vec<String>)
    ensures
        texts(r@) == split(s@, c),
{
    let v = chars_of(s);
    let mut r: Vec<String> = Vec::new();
    let mut i: usize = 0;
    let mut j: usize = find_from(&v, 0, c);
    assert(s@.skip(0) =~= s@);
    assert(texts(r@) + split(s@, c) =~= split(s@, c));
    while j < v.len()
        invariant
            v@ == s@,
            i <= j <= v.len(),
            j == i + find(s@.skip(i as int), c),
            texts(r@) + split(s@.skip(i as int), c) == split(s@, c),
        decreases v.len() - j,
    {
        let ghost rest = s@.skip(i as int);
        let ghost done = texts(r@);
        let part = text_of(&v, i, j);
        proof {
            assert(part@ =~= rest.take(j - i));
            assert(rest.skip(j - i + 1) =~= s@.skip(j + 1));
        }
        r.push(part);
        i = j + 1;
        j = find_from(&v, i, c);
        assert(texts(r@) =~= done.push(part@));
        assert(texts(r@) + split(s@.skip(i as int), c) =~= done + split(rest, c));
    }
    let ghost done = texts(r@);
    let part = text_of(&v, i, v.len());
    assert(part@ =~= s@.skip(i as int));
    r.push(part);
    assert(texts(r@) =~= done + seq![part@]);
    r
}

/// What stands before and behind the first `c` of `s`.
pub fn split_once_of<'a>(s: &'a str, c: char) -> (r: Option<(&'a str, &'a str)>)
    ensures
        r is Some == split_once(s@, c) is Some,
        r is Some ==> split_once(s@, c) == Some(((r->0).0@, (r->0).1@)),
{
    let v = chars_of(s);
    let i: usize = find_from(&v, 0, c);
    assert(s@.skip(0) =~= s@);
    if i < v.len() {
        let a = s.substring_char(0, i);
        let b = s.substring_char(i + 1, v.len());
        assert(a@ =~= s@.take(i as int));
        assert(b@ =~= s@.skip(i + 1));
        Some((a, b))
    } else {
        None
    }
}

/// `s` without the characters equal to `c`.
pub fn removed(s: &str, c: char) -> (r: String)
    ensures
        r@ == without(s@, c),
{
    let v = chars_of(s);
    let mut r = String::new();
    let mut i: usize = 0;
    assert(s@.take(0) =~= Seq::<char>::empty());
    while i < v.len()
        invariant
            v@ == s@,
            i <= v.len(),
            r@ == without(s@.take(i as int), c),
        decreases v.len() - i,
    {
        assert(s@.take(i + 1).drop_last() =~= s@.take(i as int));
        if v[i] != c {
            r.push(v[i]);
        }
        i += 1;
    }
    assert(s@.take(i as int) =~= s@);
    r
}

/// `s` with every leading repetition of `p` removed.
pub fn trimmed_start_matches<'a>(s: &'a str, p: &str) -> (r: &'a str)
    requires
        p@.len() > 0,
    ensures
        r@ == trim_start_matches(s@, p@),
{
    let mut t = s;
    while starts_with(t, p)
        invariant
            p@.len() > 0,
            trim_start_matches(t@, p@) == trim_start_matches(s@, p@),
        decreases t@.len(),
    {
        let u = t.substring_char(p.unicode_len(), t.unicode_len());
        assert(u@ == t@.skip(p@.len() as int));
        t = u;
    }
    t
}

/// `s` with every trailing repetition of `p` removed.
pub fn trimmed_end_matches<'a>(s: &'a str, p: &str) -> (r: &'a str)
    requires
        p@.len() > 0,
    ensures
        r@ == trim_end_matches(s@, p@),
{
    let mut t = s;
    while ends_with(t, p)
        invariant
            p@.len() > 0,
            trim_end_matches(t@, p@) == trim_end_matches(s@, p@),
        decreases t@.len(),
    {
        let u = t.substring_char(0, t.unicode_len() - p.unicode_len());
        assert(u@ == t@.take(t@.len() - p@.len()));
        t = u;
    }
    t
}

/// Whether `s` holds white space only.
pub open spec fn blank(s: Seq<char>) -> bool {
    forall|k: int| 0 <= k < s.len() ==> white(#[trigger] s[k])
}

/// Whether `s` is `t` with nothing but white space before and behind it.
pub open spec fn padded(s: Seq<char>, t: Seq<char>) -> bool {
    exists|head: Seq<char>, tail: Seq<char>|
        #![trigger blank(head), blank(tail)]
        blank(head) && blank(tail) && s == head + t + tail
}

/// What is trimmed off is white space, and all of it that stands at either end.
pub proof fn law_trim(s: Seq<char>)
    ensures
        padded(s, trim(s)),
        trim(s).len() > 0 ==> !white(trim(s).first()) && !white(trim(s).last()),
{
    let t = trim_start(s);
    lemma_trim_start(s);
    lemma_trim_start_blank(s);
    lemma_trim_end(t);
    lemma_trim_end_blank(t);
    let head = s.take(s.len() - t.len());
    let tail = t.skip(trim(s).len() as int);
    assert(blank(head));
    assert(blank(tail));
    assert(s =~= head + trim(s) + tail);
    if trim(s).len() > 0 {
        assert(trim(s).first() == t.first());
    }
}

proof fn lemma_trim_start_blank(s: Seq<char>)
    ensures
        blank(s.take(s.len() - trim_start(s).len())),
    decreases s.len(),
{
    lemma_trim_start(s);
    if s.len() > 0 && white(s.first()) {
        let rest = s.skip(1);
        lemma_trim_start(rest);
        lemma_trim_start_blank(rest);
        let head = s.take(s.len() - trim_start(s).len());
        let inner = rest.take(rest.len() - trim_start(rest).len());
        assert forall|k: int| 0 <= k < head.len() implies white(#[trigger] head[k]) by {
            if k > 0 {
                assert(inner[k - 1] == head[k]);
            }
        }
    }
}

proof fn lemma_trim_end_blank(s: Seq<char>)
    ensures
        blank(s.skip(trim_end(s).len() as int)),
    decreases s.len(),
{
    lemma_trim_end(s);
    if s.len() > 0 && white(s.last()) {
        let init = s.drop_last();
        lemma_trim_end(init);
        lemma_trim_end_blank(init);
        let tail = s.skip(trim_end(s).len() as int);
        let inner = init.skip(trim_end(init).len() as int);
        assert forall|k: int| 0 <= k < tail.len() implies white(#[trigger] tail[k]) by {
            if k < tail.len() - 1 {
                assert(inner[k] == tail[k]);
            }
        }
    }
}

/// A text without white space at its ends is what trimming leaves of `s` if and only if `s` is
/// that text with white space around it.
pub proof fn law_trim_iff_padded(s: Seq<char>, t: Seq<char>)
    requires
        t.len() > 0,
        !white(t.first()),
        !white(t.last()),
    ensures
        trim(s) == t <==> padded(s, t),
{
    law_trim(s);
    if padded(s, t) {
        let (head, tail) = choose|head: Seq<char>, tail: Seq<char>|
            #![trigger blank(head), blank(tail)]
            blank(head) && blank(tail) && s == head + t + tail;
        assert forall|k: int| 0 <= k < head.len() implies white(head[k]) by {}
        assert forall|k: int| 0 <= k < tail.len() implies white(tail[k]) by {}
        lemma_trim_around(head, t, tail);
    }
}

/// Trimming the end takes off the white space that stands there, and no more.
pub proof fn law_trim_end(s: Seq<char>, t: Seq<char>, tail: Seq<char>)
    requires
        s == t + tail,
        t.len() > 0 ==> !white(t.last()),
        blank(tail),
    ensures
        trim_end(s) == t,
{
    assert forall|k: int| 0 <= k < tail.len() implies white(tail[k]) by {}
    lemma_trim_end_append(t, tail);
}

/// The first line is what stands before the first line feed, without one carriage return; the
/// lines behind it are those of the rest. A text without line feed is its own only line, and
/// the empty text has none.
pub proof fn law_lines(line: Seq<char>, rest: Seq<char>)
    requires
        forall|k: int| 0 <= k < line.len() ==> line[k] != '\n',
        line.len() > 0 ==> line.last() != '\r',
    ensures
        lines(line + seq!['\n'] + rest) == seq![line] + lines(rest),
        lines(line + seq!['\r', '\n'] + rest) == seq![line] + lines(rest),
        line.len() > 0 ==> lines(line) == seq![line],
        lines(Seq::empty()) == Seq::<Seq<char>>::empty(),
{
    let a = line + seq!['\n'] + rest;
    let n = line.len() as int;
    assert(a[n] == '\n');
    assert forall|k: int| 0 <= k < n implies a[k] != '\n' by {
        assert(a[k] == line[k]);
    }
    lemma_find_is(a, '\n', n);
    assert(a.take(n) =~= line);
    assert(a.skip(n + 1) =~= rest);
    let b = line + seq!['\r', '\n'] + rest;
    assert(b[n + 1] == '\n');
    assert forall|k: int| 0 <= k < n + 1 implies b[k] != '\n' by {
        if k < n {
            assert(b[k] == line[k]);
        }
    }
    lemma_find_is(b, '\n', n + 1);
    assert(b.take(n + 1) =~= line.push('\r'));
    assert(without_return(line.push('\r')) =~= line);
    assert(b.skip(n + 2) =~= rest);
    lemma_find_is(line, '\n', n);
}

/// The first word stands behind the first white space, if there is any, and goes up to the next;
/// the words behind it are those of the rest. White space alone holds no word.
pub proof fn law_words(head: Seq<char>, word: Seq<char>, rest: Seq<char>)
    requires
        blank(head),
        word.len() > 0,
        forall|k: int| 0 <= k < word.len() ==> !white(word[k]),
        rest.len() > 0 ==> white(rest.first()),
    ensures
        words(head + word + rest) == seq![word] + words(rest),
        words(head) == Seq::<Seq<char>>::empty(),
{
    let s = head + word + rest;
    let m = head.len() as int;
    assert forall|k: int| 0 <= k < m implies white(s[k]) by {
        assert(s[k] == head[k]);
    }
    lemma_trim_start_from(s, m);
    let t = s.skip(m);
    assert(t =~= word + rest);
    assert(t.first() == word[0]);
    assert(trim_start(s) == t);
    let n = word.len() as int;
    assert forall|k: int| 0 <= k < n implies !white(t[k]) by {
        assert(t[k] == word[k]);
    }
    if rest.len() > 0 {
        assert(t[n] == rest[0]);
    }
    lemma_find_white_is(t, n);
    assert(t.take(n) =~= word);
    assert(t.skip(n) =~= rest);
    assert forall|k: int| 0 <= k < m implies white(head[k]) by {}
    lemma_trim_start_from(head, m);
    assert(head.skip(m) =~= Seq::<char>::empty());
}

/// The parts between occurrences of `c`: the first is what stands before the first `c`, and the
/// others are those of the rest.
pub proof fn law_split(a: Seq<char>, c: char, b: Seq<char>)
    requires
        forall|k: int| 0 <= k < a.len() ==> a[k] != c,
    ensures
        split(a + seq![c] + b, c) == seq![a] + split(b, c),
        split(a, c) == seq![a],
        split_once(a + seq![c] + b, c) == Some((a, b)),
        split_once(a, c) is None,
{
    lemma_split_first(a, c, b);
    lemma_split_none(a, c);
    let s = a + seq![c] + b;
    assert forall|k: int| 0 <= k < a.len() implies s[k] != c by {
        assert(s[k] == a[k]);
    }
    assert(s[a.len() as int] == c);
    lemma_find_is(s, c, a.len() as int);
    assert(s.take(a.len() as int) =~= a);
    assert(s.skip(a.len() as int + 1) =~= b);
    lemma_find_is(a, c, a.len() as int);
}

/// What is left without a character does not hold it, keeps everything else in its order, and
/// is the whole text where the text does not hold it.
pub proof fn law_without(a: Seq<char>, b: Seq<char>, c: char)
    ensures
        !without(a, c).contains(c),
        !a.contains(c) ==> without(a, c) == a,
        without(a + b, c) == without(a, c) + without(b, c),
        without(seq![c], c) == Seq::<char>::empty(),
    decreases a.len() + b.len(),
{
    lemma_without_one(a, c);
    lemma_without_parts(a, b, c);
    assert(seq![c].drop_last() =~= Seq::<char>::empty());
    assert(without(seq![c], c) =~= Seq::<char>::empty()) by {
        reveal_with_fuel(without, 2);
    }
}

proof fn lemma_without_one(a: Seq<char>, c: char)
    ensures
        !without(a, c).contains(c),
        !a.contains(c) ==> without(a, c) == a,
    decreases a.len(),
{
    if a.len() > 0 {
        let init = a.drop_last();
        lemma_without_one(init, c);
        let w = without(init, c);
        if without(a, c).contains(c) && a.last() != c {
            let k = choose|k: int| 0 <= k < without(a, c).len() && without(a, c)[k] == c;
            if k < w.len() {
                assert(w[k] == c);
                assert(w.contains(c));
            }
        }
        if !a.contains(c) {
            assert(a[a.len() - 1] != c);
            assert forall|k: int| 0 <= k < init.len() implies init[k] != c by {
                assert(a[k] == init[k]);
            }
            assert(!init.contains(c));
            assert(w.push(a.last()) =~= a);
        }
    }
}

proof fn lemma_without_parts(a: Seq<char>, b: Seq<char>, c: char)
    ensures
        without(a + b, c) == without(a, c) + without(b, c),
    decreases b.len(),
{
    if b.len() == 0 {
        assert(a + b =~= a);
        assert(without(a, c) + without(b, c) =~= without(a, c));
    } else {
        assert((a + b).drop_last() =~= a + b.drop_last());
        lemma_without_parts(a, b.drop_last(), c);
        assert(without(a + b, c) =~= without(a, c) + without(b, c));
    }
}

/// Repetitions of a text are taken off the start, or the end, until there is none left there.
pub proof fn law_trim_matches(s: Seq<char>, p: Seq<char>)
    requires
        p.len() > 0,
    ensures
        trim_start_matches(p + s, p) == trim_start_matches(s, p),
        !p.is_prefix_of(s) ==> trim_start_matches(s, p) == s,
        trim_end_matches(s + p, p) == trim_end_matches(s, p),
        !p.is_suffix_of(s) ==> trim_end_matches(s, p) == s,
{
    assert((p + s).subrange(0, p.len() as int) =~= p);
    assert((p + s).skip(p.len() as int) =~= s);
    let t = s + p;
    assert(t.subrange(t.len() - p.len(), t.len() as int) =~= p);
    assert(t.take(t.len() - p.len()) =~= s);
}

/// The white space of ASCII is the space and the five controls from the tab to the carriage
/// return; beyond ASCII it is the next line, the spaces of every width and the two separators.
pub proof fn law_white(c: char)
    ensures
        (c as u32) < 128 ==> (white(c) <==> c as u32 == 32 || 9 <= c as u32 <= 13),
        128 <= (c as u32) < 0x2000 ==> (white(c) <==> c as u32 == 0x85 || c as u32 == 0xa0
            || c as u32 == 0x1680),
        0x2000 <= (c as u32) ==> (white(c) <==> c as u32 <= 0x200a || c as u32 == 0x2028
            || c as u32 == 0x2029 || c as u32 == 0x202f || c as u32 == 0x205f || c as u32
            == 0x3000),
{
}

/// Lower case keeps the length and every character that is no capital of ASCII, turns each
/// capital into the letter that stands 32 places on, and leaves no capital.
pub proof fn law_ascii_lower(s: Seq<char>, k: int)
    requires
        0 <= k < s.len(),
    ensures
        ascii_lower(s).len() == s.len(),
        65 <= s[k] as u32 <= 90 ==> ascii_lower(s)[k] as u32 == s[k] as u32 + 32,
        !(65 <= s[k] as u32 <= 90) ==> ascii_lower(s)[k] == s[k],
        !(65 <= ascii_lower(s)[k] as u32 <= 90),
{
}

} // verus!
