//! Character-sequence utilities: the vocabulary the parser's
//! specifications are written in, together with verified executable
//! counterparts that work on `&str`.

use vstd::prelude::*;
use vstd::string::StrSliceExecFns;

verus! {

/// The whitespace characters a format-listing line is tokenized on.
/// Carriage returns are treated as token separators so that lines ending
/// in `\r\n` tokenize the same as lines ending in `\n`.
pub open spec fn is_space(c: char) -> bool {
    c == ' ' || c == '\t' || c == '\r'
}

/// `s` has `c` somewhere in it.
pub open spec fn contains_char(s: Seq<char>, c: char) -> bool {
    exists|i: int| 0 <= i < s.len() && s[i] == c
}

/// `needle` occurs contiguously inside `s`.
pub open spec fn contains_seq(s: Seq<char>, needle: Seq<char>) -> bool {
    exists|i: int|
        0 <= i && i + needle.len() <= s.len() && #[trigger] s.subrange(i, i + needle.len())
            == needle
}

/// ASCII lowercasing of one character; everything outside `'A'..='Z'`
/// is left alone.
pub open spec fn lower_char(c: char) -> char {
    if 'A' <= c && c <= 'Z' {
        (c as u32 + 32) as char
    } else {
        c
    }
}

/// ASCII lowercasing of a whole sequence.
pub open spec fn lower(s: Seq<char>) -> Seq<char> {
    Seq::new(s.len(), |i: int| lower_char(s[i]))
}

/// Whether two string slices hold the same characters.
pub fn str_eq(a: &str, b: &str) -> (r: bool)
    ensures
        r == (a@ == b@),
{
    let alen = a.unicode_len();
    let blen = b.unicode_len();
    if alen != blen {
        assert(a@ != b@) by {
            assert(a@.len() != b@.len());
        }
        return false;
    }
    let mut i: usize = 0;
    while i < alen
        invariant
            alen == a@.len(),
            blen == b@.len(),
            alen == blen,
            0 <= i <= alen,
            forall|k: int| 0 <= k < i ==> a@[k] == b@[k],
        decreases alen - i,
    {
        if a.get_char(i) != b.get_char(i) {
            return false;
        }
        i = i + 1;
    }
    assert(a@ =~= b@);
    true
}

/// Whether `s` has the character `c` somewhere in it.
pub fn str_contains_char(s: &str, c: char) -> (r: bool)
    ensures
        r == contains_char(s@, c),
{
    let len = s.unicode_len();
    let mut i: usize = 0;
    while i < len
        invariant
            len == s@.len(),
            0 <= i <= len,
            forall|k: int| 0 <= k < i ==> s@[k] != c,
        decreases len - i,
    {
        if s.get_char(i) == c {
            return true;
        }
        i = i + 1;
    }
    false
}

/// Whether `lower_char(c)` is exactly `d`, computed over code points so
/// that no character value has to be constructed.
fn char_lower_eq(c: char, d: char) -> (r: bool)
    ensures
        r == (lower_char(c) == d),
{
    let cu = c as u32;
    if 65 <= cu && cu <= 90 {
        proof {
            assert(lower_char(c) == ((c as u32 + 32) as char));
            assert(((c as u32 + 32) as char) as u32 == c as u32 + 32);
        }
        cu + 32 == d as u32
    } else {
        c == d
    }
}

/// Whether `needle` matches `hay` exactly at position `i`.
fn match_at(hay: &str, needle: &str, i: usize, nlen: usize) -> (r: bool)
    requires
        nlen == needle@.len(),
        i + nlen <= hay@.len(),
        hay@.len() <= usize::MAX,
    ensures
        r == (hay@.subrange(i as int, i + needle@.len()) == needle@),
{
    let mut j: usize = 0;
    while j < nlen
        invariant
            nlen == needle@.len(),
            i + nlen <= hay@.len(),
            hay@.len() <= usize::MAX,
            0 <= j <= nlen,
            forall|k: int| 0 <= k < j ==> hay@[i + k] == needle@[k],
        decreases nlen - j,
    {
        if hay.get_char(i + j) != needle.get_char(j) {
            assert(hay@.subrange(i as int, i + needle@.len())[j as int] == hay@[i + j]);
            return false;
        }
        j = j + 1;
    }
    assert(hay@.subrange(i as int, i + needle@.len()) =~= needle@);
    true
}

/// Whether `needle` matches the ASCII lowercasing of `hay` at position `i`.
fn match_at_lower(hay: &str, needle: &str, i: usize, nlen: usize) -> (r: bool)
    requires
        nlen == needle@.len(),
        i + nlen <= hay@.len(),
        hay@.len() <= usize::MAX,
    ensures
        r == (lower(hay@).subrange(i as int, i + needle@.len()) == needle@),
{
    let mut j: usize = 0;
    while j < nlen
        invariant
            nlen == needle@.len(),
            i + nlen <= hay@.len(),
            hay@.len() <= usize::MAX,
            0 <= j <= nlen,
            forall|k: int| 0 <= k < j ==> lower(hay@)[i + k] == needle@[k],
        decreases nlen - j,
    {
        if !char_lower_eq(hay.get_char(i + j), needle.get_char(j)) {
            assert(lower(hay@).subrange(i as int, i + needle@.len())[j as int] == lower(
                hay@,
            )[i + j]);
            return false;
        }
        j = j + 1;
    }
    assert(lower(hay@).subrange(i as int, i + needle@.len()) =~= needle@);
    true
}

/// Whether `needle` occurs anywhere in `hay`.
pub fn str_contains(hay: &str, needle: &str) -> (r: bool)
    ensures
        r == contains_seq(hay@, needle@),
{
    let hlen = hay.unicode_len();
    let nlen = needle.unicode_len();
    if nlen > hlen {
        return false;
    }
    let bound = hlen - nlen;
    let mut i: usize = 0;
    loop
        invariant
            hlen == hay@.len(),
            nlen == needle@.len(),
            nlen <= hlen,
            bound == hlen - nlen,
            0 <= i <= bound,
            forall|p: int| 0 <= p < i ==> #[trigger] hay@.subrange(p, p + needle@.len())
                != needle@,
        decreases bound - i,
    {
        if match_at(hay, needle, i, nlen) {
            return true;
        }
        if i == bound {
            return false;
        }
        i = i + 1;
    }
}

/// Whether `needle` occurs anywhere in the ASCII lowercasing of `hay`.
pub fn str_contains_lower(hay: &str, needle: &str) -> (r: bool)
    ensures
        r == contains_seq(lower(hay@), needle@),
{
    let hlen = hay.unicode_len();
    let nlen = needle.unicode_len();
    if nlen > hlen {
        return false;
    }
    let bound = hlen - nlen;
    let mut i: usize = 0;
    loop
        invariant
            hlen == hay@.len(),
            nlen == needle@.len(),
            nlen <= hlen,
            bound == hlen - nlen,
            0 <= i <= bound,
            forall|p: int| 0 <= p < i ==> #[trigger] lower(hay@).subrange(p, p + needle@.len())
                != needle@,
        decreases bound - i,
    {
        if match_at_lower(hay, needle, i, nlen) {
            return true;
        }
        if i == bound {
            return false;
        }
        i = i + 1;
    }
}

/// The segments of `s` between occurrences of `sep`.  Splitting the
/// empty sequence gives one empty segment, matching the usual
/// split-on-separator convention.
pub open spec fn split_on(s: Seq<char>, sep: char) -> Seq<Seq<char>>
    decreases s.len(),
{
    if s.len() == 0 {
        seq![Seq::<char>::empty()]
    } else if s[0] == sep {
        seq![Seq::<char>::empty()] + split_on(s.drop_first(), sep)
    } else {
        let rest = split_on(s.drop_first(), sep);
        seq![seq![s[0]] + rest[0]] + rest.drop_first()
    }
}

pub proof fn lemma_split_on_nonempty(s: Seq<char>, sep: char)
    ensures
        split_on(s, sep).len() >= 1,
    decreases s.len(),
{
    if s.len() == 0 {
    } else {
        lemma_split_on_nonempty(s.drop_first(), sep);
    }
}

/// How `split_on` unfolds at the first separator: if the first `j`
/// characters are separator-free, the first segment is exactly them.
pub proof fn lemma_split_on_step(s: Seq<char>, sep: char, j: int)
    requires
        0 <= j <= s.len(),
        forall|k: int| 0 <= k < j ==> s[k] != sep,
        j < s.len() ==> s[j] == sep,
    ensures
        j == s.len() ==> split_on(s, sep) == seq![s],
        j < s.len() ==> split_on(s, sep) == seq![s.subrange(0, j)] + split_on(
            s.subrange(j + 1, s.len() as int),
            sep,
        ),
    decreases s.len(),
{
    lemma_split_on_nonempty(s, sep);
    if s.len() == 0 {
        assert(s.subrange(0, 0) =~= s);
        assert(split_on(s, sep) =~~= seq![s]);
    } else if j == 0 {
        assert(s.subrange(0, 0) =~= Seq::<char>::empty());
        assert(s.subrange(1, s.len() as int) =~= s.drop_first());
        assert(split_on(s, sep) =~~= seq![s.subrange(0, 0)] + split_on(
            s.subrange(1, s.len() as int),
            sep,
        ));
    } else {
        let t = s.drop_first();
        assert(forall|k: int| 0 <= k < j - 1 ==> t[k] != sep);
        lemma_split_on_step(t, sep, j - 1);
        lemma_split_on_nonempty(t, sep);
        if j == s.len() {
            assert(split_on(t, sep) == seq![t]);
            assert(seq![s[0]] + t =~= s);
            assert(split_on(s, sep) =~~= seq![s]);
        } else {
            assert(split_on(t, sep) == seq![t.subrange(0, j - 1)] + split_on(
                t.subrange(j, t.len() as int),
                sep,
            ));
            assert(seq![s[0]] + t.subrange(0, j - 1) =~= s.subrange(0, j));
            assert(t.subrange(j, t.len() as int) =~= s.subrange(j + 1, s.len() as int));
            assert(split_on(s, sep) =~~= seq![s.subrange(0, j)] + split_on(
                s.subrange(j + 1, s.len() as int),
                sep,
            ));
        }
    }
}

/// The lines of `s`: the segments between newline characters.
pub fn split_lines(s: &str) -> (r: Vec<String>)
    ensures
        r.deep_view() == split_on(s@, '\n'),
{
    let len = s.unicode_len();
    let mut r: Vec<String> = Vec::new();
    let mut start: usize = 0;
    let mut i: usize = 0;
    proof {
        assert(s@.subrange(0, len as int) =~= s@);
        assert(r.deep_view() + split_on(s@, '\n') =~= split_on(s@, '\n'));
    }
    while i < len
        invariant
            len == s@.len(),
            0 <= start <= i <= len,
            forall|k: int| start <= k < i ==> s@[k] != '\n',
            split_on(s@, '\n') == r.deep_view() + split_on(s@.subrange(start as int, len as int), '\n'),
        decreases len - i,
    {
        if s.get_char(i) == '\n' {
            let piece = s.substring_char(start, i).to_owned();
            proof {
                let tail = s@.subrange(start as int, len as int);
                lemma_split_on_step(tail, '\n', i - start);
                assert(tail.subrange(0, i - start) =~= s@.subrange(start as int, i as int));
                assert(tail.subrange(i - start + 1, tail.len() as int) =~= s@.subrange(
                    i as int + 1,
                    len as int,
                ));
                assert(r.deep_view().push(piece@) =~= r.deep_view() + seq![piece@]);
            }
            let ghost old_r = r.deep_view();
            r.push(piece);
            proof {
                assert(r.deep_view() =~= old_r.push(s@.subrange(start as int, i as int)));
            }
            start = i + 1;
        }
        i = i + 1;
    }
    let piece = s.substring_char(start, len).to_owned();
    proof {
        let tail = s@.subrange(start as int, len as int);
        lemma_split_on_step(tail, '\n', i - start);
        assert(tail.subrange(0, i - start) =~= tail);
    }
    let ghost old_r = r.deep_view();
    r.push(piece);
    proof {
        assert(r.deep_view() =~= old_r + seq![s@.subrange(start as int, len as int)]);
    }
    r
}

/// The whitespace-separated tokens of `s`, in order, with no empty
/// tokens.
pub open spec fn tokens(s: Seq<char>) -> Seq<Seq<char>>
    decreases s.len(),
{
    if s.len() == 0 {
        Seq::<Seq<char>>::empty()
    } else if is_space(s[0]) {
        tokens(s.drop_first())
    } else if s.len() == 1 {
        seq![s]
    } else if is_space(s[1]) {
        seq![seq![s[0]]] + tokens(s.drop_first())
    } else {
        let rest = tokens(s.drop_first());
        seq![seq![s[0]] + rest[0]] + rest.drop_first()
    }
}

pub proof fn lemma_tokens_nonempty(s: Seq<char>)
    requires
        s.len() > 0,
        !is_space(s[0]),
    ensures
        tokens(s).len() >= 1,
    decreases s.len(),
{
    if s.len() == 1 {
    } else if is_space(s[1]) {
    } else {
        lemma_tokens_nonempty(s.drop_first());
    }
}

/// How `tokens` unfolds at a word boundary: if the first `j` characters
/// are non-space and position `j` (if any) is a space, the first token
/// is exactly those `j` characters.
pub proof fn lemma_tokens_word(s: Seq<char>, j: int)
    requires
        1 <= j <= s.len(),
        forall|k: int| 0 <= k < j ==> !is_space(s[k]),
        j < s.len() ==> is_space(s[j]),
    ensures
        tokens(s) == seq![s.subrange(0, j)] + tokens(s.subrange(j, s.len() as int)),
    decreases j,
{
    let t = s.drop_first();
    if j == 1 {
        if s.len() == 1 {
            assert(s.subrange(0, 1) =~= s);
            assert(s.subrange(1, 1) =~= Seq::<char>::empty());
            assert(tokens(s) =~~= seq![s.subrange(0, 1)] + tokens(s.subrange(1, s.len() as int)));
        } else {
            assert(is_space(s[1]));
            assert(s.subrange(0, 1) =~= seq![s[0]]);
            assert(s.subrange(1, s.len() as int) =~= t);
            assert(tokens(s) =~~= seq![s.subrange(0, 1)] + tokens(s.subrange(1, s.len() as int)));
        }
    } else {
        assert(!is_space(s[1]));
        assert(forall|k: int| 0 <= k < j - 1 ==> !is_space(t[k]));
        lemma_tokens_word(t, j - 1);
        lemma_tokens_nonempty(t);
        let rest = tokens(t);
        assert(rest == seq![t.subrange(0, j - 1)] + tokens(t.subrange(j - 1, t.len() as int)));
        assert(rest[0] == t.subrange(0, j - 1));
        assert(seq![s[0]] + t.subrange(0, j - 1) =~= s.subrange(0, j));
        assert(rest.drop_first() =~= tokens(t.subrange(j - 1, t.len() as int)));
        assert(t.subrange(j - 1, t.len() as int) =~= s.subrange(j, s.len() as int));
        assert(tokens(s) =~~= seq![s.subrange(0, j)] + tokens(s.subrange(j, s.len() as int)));
    }
}

/// The index of the first whitespace character at or after `start`,
/// or the length of `s` if there is none.
fn scan_word_end(s: &str, start: usize, len: usize) -> (end: usize)
    requires
        len == s@.len(),
        0 <= start <= len,
    ensures
        start <= end <= len,
        forall|k: int| start <= k < end ==> !is_space(s@[k]),
        end < len ==> is_space(s@[end as int]),
{
    let mut i = start;
    while i < len
        invariant
            len == s@.len(),
            start <= i <= len,
            forall|k: int| start <= k < i ==> !is_space(s@[k]),
        decreases len - i,
    {
        let c = s.get_char(i);
        if c == ' ' || c == '\t' || c == '\r' {
            return i;
        }
        i = i + 1;
    }
    len
}

/// The whitespace-separated tokens of `s`.
pub fn split_ws(s: &str) -> (r: Vec<String>)
    ensures
        r.deep_view() == tokens(s@),
{
    let len = s.unicode_len();
    let mut r: Vec<String> = Vec::new();
    let mut i: usize = 0;
    proof {
        assert(s@.subrange(0, len as int) =~= s@);
        assert(r.deep_view() + tokens(s@) =~= tokens(s@));
    }
    while i < len
        invariant
            len == s@.len(),
            0 <= i <= len,
            tokens(s@) == r.deep_view() + tokens(s@.subrange(i as int, len as int)),
        decreases len - i,
    {
        let c = s.get_char(i);
        if c == ' ' || c == '\t' || c == '\r' {
            proof {
                let tail = s@.subrange(i as int, len as int);
                assert(is_space(tail[0]));
                assert(tail.drop_first() =~= s@.subrange(i as int + 1, len as int));
            }
            i = i + 1;
        } else {
            let start = i;
            i = scan_word_end(s, start, len);
            let piece = s.substring_char(start, i).to_owned();
            proof {
                let tail = s@.subrange(start as int, len as int);
                lemma_tokens_word(tail, i - start);
                assert(tail.subrange(0, i - start) =~= s@.subrange(start as int, i as int));
                assert(tail.subrange(i - start, tail.len() as int) =~= s@.subrange(
                    i as int,
                    len as int,
                ));
            }
            let ghost old_r = r.deep_view();
            r.push(piece);
            proof {
                assert(r.deep_view() =~= old_r + seq![s@.subrange(start as int, i as int)]);
            }
        }
    }
    proof {
        assert(s@.subrange(len as int, len as int) =~= Seq::<char>::empty());
        assert(r.deep_view() =~= r.deep_view() + tokens(s@.subrange(i as int, len as int)));
    }
    r
}

/// The tokens of `ts` joined with a single space between neighbours.
pub open spec fn join_spaces(ts: Seq<Seq<char>>) -> Seq<char>
    decreases ts.len(),
{
    if ts.len() == 0 {
        Seq::<char>::empty()
    } else if ts.len() == 1 {
        ts[0]
    } else {
        ts[0] + seq![' '] + join_spaces(ts.drop_first())
    }
}

pub proof fn lemma_join_spaces_push(ts: Seq<Seq<char>>, t: Seq<char>)
    requires
        ts.len() >= 1,
    ensures
        join_spaces(ts.push(t)) == join_spaces(ts) + seq![' '] + t,
    decreases ts.len(),
{
    assert(ts.push(t)[0] == ts[0]);
    if ts.len() == 1 {
        assert(ts.push(t).drop_first() =~~= seq![t]);
        assert(join_spaces(seq![t]) == t);
        assert(join_spaces(ts.push(t)) == ts.push(t)[0] + seq![' '] + join_spaces(
            ts.push(t).drop_first(),
        ));
        assert(join_spaces(ts.push(t)) == ts[0] + seq![' '] + t);
    } else {
        assert(ts.push(t).drop_first() =~~= ts.drop_first().push(t));
        lemma_join_spaces_push(ts.drop_first(), t);
        assert(join_spaces(ts.push(t)) =~= join_spaces(ts) + seq![' '] + t);
    }
}

} // verus!
