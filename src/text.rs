//! Character-level helpers over string views: searching, splitting and joining.
use vstd::prelude::*;

verus! {

/// `pat` stands in `s` at position `i`.
pub open spec fn occurs_at(s: Seq<char>, pat: Seq<char>, i: int) -> bool {
    0 <= i && i + pat.len() <= s.len() && s.subrange(i, i + pat.len()) == pat
}

/// The first position at or after `from` where `pat` stands in `s`, or -1 if there is none.
pub open spec fn index_of(s: Seq<char>, pat: Seq<char>, from: int) -> int
    decreases s.len() + 1 - from,
{
    if from < 0 || from + pat.len() > s.len() {
        -1
    } else if occurs_at(s, pat, from) {
        from
    } else {
        index_of(s, pat, from + 1)
    }
}

/// The pieces of `s` from `from` on, cut at each non-overlapping occurrence of `sep`,
/// searched left to right.
pub open spec fn split_from(s: Seq<char>, sep: Seq<char>, from: int) -> Seq<Seq<char>>
    recommends
        sep.len() > 0,
    decreases s.len() - from via split_from_decreases
{
    if sep.len() == 0 || from < 0 || from > s.len() {
        seq![s.subrange(from, s.len() as int)]
    } else {
        let i = index_of(s, sep, from);
        if i < from {
            seq![s.subrange(from, s.len() as int)]
        } else {
            seq![s.subrange(from, i)] + split_from(s, sep, i + sep.len())
        }
    }
}

#[via_fn]
proof fn split_from_decreases(s: Seq<char>, sep: Seq<char>, from: int) {
    lemma_index_of_bounds(s, sep, from);
}

/// The pieces of `s` cut at each occurrence of `sep` (what `str::split` yields).
pub open spec fn split(s: Seq<char>, sep: Seq<char>) -> Seq<Seq<char>> {
    split_from(s, sep, 0)
}

/// The pieces concatenated with `sep` between each two of them.
pub open spec fn join(parts: Seq<Seq<char>>, sep: Seq<char>) -> Seq<char>
    decreases parts.len(),
{
    if parts.len() == 0 {
        seq![]
    } else if parts.len() == 1 {
        parts[0]
    } else {
        parts[0] + sep + join(parts.drop_first(), sep)
    }
}

/// Unicode's White_Space property, which `char::is_whitespace` tests.
pub open spec fn is_white_space(c: char) -> bool {
    ('\u{9}' <= c && c <= '\u{d}') || c == ' ' || c == '\u{85}' || c == '\u{a0}' || c == '\u{1680}'
        || ('\u{2000}' <= c && c <= '\u{200a}') || c == '\u{2028}' || c == '\u{2029}' || c
        == '\u{202f}' || c == '\u{205f}' || c == '\u{3000}'
}

/// Every character of `s` is white space (what `s.trim().is_empty()` tests).
pub open spec fn is_blank(s: Seq<char>) -> bool {
    forall|i: int| 0 <= i < s.len() ==> is_white_space(#[trigger] s[i])
}

/// The characters of `s`, in order.
pub fn chars_of(s: &str) -> (r: Vec<char>)
    ensures
        r@ == s@,
{
    let mut r: Vec<char> = Vec::new();
    for c in it: s.chars()
        invariant
            it.seq() == s@,
            r@ == it.seq().take(it.index() as int),
    {
        r.push(c);
    }
    r
}

pub fn white_space(c: char) -> (r: bool)
    ensures
        r == is_white_space(c),
{
    ('\u{9}' <= c && c <= '\u{d}') || c == ' ' || c == '\u{85}' || c == '\u{a0}' || c == '\u{1680}'
        || ('\u{2000}' <= c && c <= '\u{200a}') || c == '\u{2028}' || c == '\u{2029}' || c
        == '\u{202f}' || c == '\u{205f}' || c == '\u{3000}'
}

/// Whether the characters of `s` from `from` to `to` are all white space.
pub fn blank_between(s: &Vec<char>, from: usize, to: usize) -> (r: bool)
    requires
        from <= to <= s@.len(),
    ensures
        r == is_blank(s@.subrange(from as int, to as int)),
{
    let mut i = from;
    while i < to
        invariant
            from <= i <= to <= s@.len(),
            is_blank(s@.subrange(from as int, i as int)),
        decreases to - i,
    {
        if !white_space(s[i]) {
            assert(s@.subrange(from as int, to as int)[i - from] == s@[i as int]);
            return false;
        }
        assert(is_blank(s@.subrange(from as int, i + 1))) by {
            assert forall|k: int| 0 <= k < i + 1 - from implies is_white_space(
                #[trigger] s@.subrange(from as int, i + 1)[k],
            ) by {
                if k < i - from {
                    assert(s@.subrange(from as int, i + 1)[k] == s@.subrange(
                        from as int,
                        i as int,
                    )[k]);
                }
            }
        }
        i = i + 1;
    }
    true
}

/// Whether `pat` stands in `s` at position `i`.
pub fn matches_at(s: &Vec<char>, pat: &Vec<char>, i: usize) -> (r: bool)
    ensures
        r == occurs_at(s@, pat@, i as int),
{
    if pat.len() > s.len() || i > s.len() - pat.len() {
        return false;
    }
    let n = s.len();
    let mut k: usize = 0;
    while k < pat.len()
        invariant
            n == s@.len(),
            i + pat@.len() <= s@.len(),
            k <= pat@.len(),
            forall|j: int| 0 <= j < k ==> s@[i + j] == pat@[j],
        decreases pat.len() - k,
    {
        if s[i + k] != pat[k] {
            assert(s@.subrange(i as int, i + pat@.len())[k as int] != pat@[k as int]);
            return false;
        }
        k = k + 1;
    }
    assert(s@.subrange(i as int, i + pat@.len()) =~= pat@);
    true
}

/// The first position at or after `from` where `pat` stands in `s`.
pub fn find_from(s: &Vec<char>, pat: &Vec<char>, from: usize) -> (r: Option<usize>)
    requires
        pat@.len() > 0,
    ensures
        match r {
            Some(i) => i as int == index_of(s@, pat@, from as int),
            None => index_of(s@, pat@, from as int) == -1,
        },
{
    if pat.len() > s.len() {
        return None;
    }
    let n = s.len();
    let last = n - pat.len();
    let mut i = from;
    while i <= last
        invariant
            n == s@.len(),
            pat@.len() > 0,
            last == s@.len() - pat@.len(),
            from <= i,
            index_of(s@, pat@, from as int) == index_of(s@, pat@, i as int),
        decreases last + 1 - i,
    {
        if matches_at(s, pat, i) {
            return Some(i);
        }
        i = i + 1;
    }
    None
}

/// Whether two strings hold the same characters.
pub fn same_text(a: &str, b: &str) -> (r: bool)
    ensures
        r == (a@ == b@),
{
    let x = chars_of(a);
    let y = chars_of(b);
    if x.len() != y.len() {
        return false;
    }
    let mut i: usize = 0;
    while i < x.len()
        invariant
            x@ == a@,
            y@ == b@,
            x@.len() == y@.len(),
            i <= x@.len(),
            forall|j: int| 0 <= j < i ==> x@[j] == y@[j],
        decreases x.len() - i,
    {
        if x[i] != y[i] {
            return false;
        }
        i = i + 1;
    }
    assert(x@ =~= y@);
    true
}

/// `s` from `from` to `to`, as a new string.
pub fn piece(s: &str, from: usize, to: usize) -> (r: String)
    requires
        from <= to <= s@.len(),
    ensures
        r@ == s@.subrange(from as int, to as int),
{
    String::from_str(s.substring_char(from, to))
}

pub proof fn lemma_split_from_nonempty(s: Seq<char>, sep: Seq<char>, from: int)
    ensures
        split_from(s, sep, from).len() >= 1,
    decreases s.len() - from,
{
    if sep.len() > 0 && 0 <= from <= s.len() {
        let i = index_of(s, sep, from);
        if i >= 0 {
            lemma_index_of_bounds(s, sep, from);
            lemma_split_from_nonempty(s, sep, i + sep.len());
        }
    }
}

pub proof fn lemma_index_of_bounds(s: Seq<char>, pat: Seq<char>, from: int)
    ensures
        index_of(s, pat, from) == -1 || (from <= index_of(s, pat, from) && occurs_at(
            s,
            pat,
            index_of(s, pat, from),
        )),
    decreases s.len() + 1 - from,
{
    if from < 0 || from + pat.len() > s.len() {
    } else if occurs_at(s, pat, from) {
    } else {
        lemma_index_of_bounds(s, pat, from + 1);
    }
}

/// Joining a piece in front of a non-empty list puts one separator after it.
pub proof fn lemma_join_cons(head: Seq<char>, rest: Seq<Seq<char>>, sep: Seq<char>)
    requires
        rest.len() >= 1,
    ensures
        join(seq![head] + rest, sep) == head + sep + join(rest, sep),
{
    let parts = seq![head] + rest;
    assert(parts.drop_first() =~= rest);
    assert(parts[0] == head);
}

/// The pieces of `s` from `from` on, joined again with `sep` in place of each occurrence of `pat`.
pub fn replace_from(s: &str, cs: &Vec<char>, pat: &Vec<char>, sep: &str, from: usize) -> (r: String)
    requires
        cs@ == s@,
        pat@.len() > 0,
        from <= cs@.len(),
    ensures
        r@ == join(split_from(s@, pat@, from as int), sep@),
{
    let n = cs.len();
    let mut out = String::new();
    let mut pos = from;
    proof {
        lemma_split_from_nonempty(s@, pat@, from as int);
    }
    loop
        invariant
            cs@ == s@,
            n == cs@.len(),
            pat@.len() > 0,
            pos <= cs@.len(),
            out@ + join(split_from(s@, pat@, pos as int), sep@) == join(
                split_from(s@, pat@, from as int),
                sep@,
            ),
        decreases cs@.len() - pos,
    {
        match find_from(cs, pat, pos) {
            None => {
                let tail = piece(s, pos, cs.len());
                out.append(tail.as_str());
                return out;
            },
            Some(i) => {
                proof {
                    lemma_index_of_bounds(s@, pat@, pos as int);
                    lemma_split_from_nonempty(s@, pat@, i + pat@.len());
                    lemma_join_cons(
                        s@.subrange(pos as int, i as int),
                        split_from(s@, pat@, i + pat@.len()),
                        sep@,
                    );
                }
                        let head = piece(s, pos, i);
                out.append(head.as_str());
                out.append(sep);
                pos = i + pat.len();
            },
        }
    }
}

/// Cutting a text at a separator and joining the pieces with it gives the text back.
pub proof fn lemma_join_split(s: Seq<char>, sep: Seq<char>, from: int)
    requires
        sep.len() > 0,
        0 <= from <= s.len(),
    ensures
        join(split_from(s, sep, from), sep) == s.subrange(from, s.len() as int),
    decreases s.len() - from,
{
    let i = index_of(s, sep, from);
    lemma_index_of_bounds(s, sep, from);
    if i >= from {
        let rest = split_from(s, sep, i + sep.len());
        lemma_split_from_nonempty(s, sep, i + sep.len());
        lemma_join_split(s, sep, i + sep.len());
        lemma_join_cons(s.subrange(from, i), rest, sep);
        assert(s.subrange(from, i) + sep + s.subrange(i + sep.len(), s.len() as int)
            =~= s.subrange(from, s.len() as int));
    }
}

} // verus!
