//! Lines, words and decimal numbers of a text, stated over `Seq<char>`.
use vstd::prelude::*;

verus! {

/// Characters that separate the words of a line.
pub open spec fn is_blank(c: char) -> bool {
    c == ' ' || c == '\t' || c == '\r'
}

pub open spec fn is_digit(c: char) -> bool {
    '0' <= c && c <= '9'
}

pub open spec fn digit_of(c: char) -> nat {
    if is_digit(c) {
        (c as nat - '0' as nat) as nat
    } else {
        0
    }
}

pub open spec fn all_digits(w: Seq<char>) -> bool {
    forall|i: int| 0 <= i < w.len() ==> is_digit(#[trigger] w[i])
}

/// The value of a string of decimal digits, most significant first.
pub open spec fn digits_value(w: Seq<char>) -> nat
    decreases w.len(),
{
    if w.len() == 0 {
        0
    } else {
        digits_value(w.drop_last()) * 10 + digit_of(w.last())
    }
}

/// A non-empty string of decimal digits whose value fits in a `u32`.
pub open spec fn parse_u32(w: Seq<char>) -> Option<u32> {
    if w.len() > 0 && all_digits(w) && digits_value(w) <= u32::MAX {
        Some(digits_value(w) as u32)
    } else {
        None
    }
}

/// Number of characters before the first `sep` (or the end).
pub open spec fn piece_len(s: Seq<char>, sep: char) -> nat
    decreases s.len(),
{
    if s.len() == 0 || s[0] == sep {
        0
    } else {
        1 + piece_len(s.drop_first(), sep)
    }
}

/// The pieces of a text between the occurrences of `sep`, empty ones included.
pub open spec fn pieces(s: Seq<char>, sep: char) -> Seq<Seq<char>>
    decreases s.len(),
{
    let n = piece_len(s, sep);
    if n >= s.len() {
        seq![s]
    } else {
        seq![s.take(n as int)] + pieces(s.skip(n + 1int), sep)
    }
}

/// The lines of a text, the last one included even when it is empty.
pub open spec fn lines(s: Seq<char>) -> Seq<Seq<char>> {
    pieces(s, '\n')
}

/// Number of characters before the first blank (or the end).
pub open spec fn word_len(s: Seq<char>) -> nat
    decreases s.len(),
{
    if s.len() == 0 || is_blank(s[0]) {
        0
    } else {
        1 + word_len(s.drop_first())
    }
}

/// The words of a line: maximal runs of characters that are not blank.
pub open spec fn words(s: Seq<char>) -> Seq<Seq<char>>
    decreases s.len(),
{
    if s.len() == 0 {
        seq![]
    } else if is_blank(s[0]) {
        words(s.drop_first())
    } else {
        let n = word_len(s);
        if n >= s.len() {
            seq![s]
        } else {
            seq![s.take(n as int)] + words(s.skip(n as int))
        }
    }
}

/// The word that follows the first occurrence of `key` that is not the last word.
pub open spec fn value_after(ws: Seq<Seq<char>>, key: Seq<char>) -> Option<Seq<char>>
    decreases ws.len(),
{
    if ws.len() < 2 {
        None
    } else if ws[0] == key {
        Some(ws[1])
    } else {
        value_after(ws.drop_first(), key)
    }
}

/// Spans `sp` of `cs` whose texts are the sequence `ws`.
pub open spec fn spans_are(cs: Seq<char>, sp: Seq<(usize, usize)>, ws: Seq<Seq<char>>) -> bool {
    &&& sp.len() == ws.len()
    &&& forall|i: int|
        0 <= i < sp.len() ==> {
            &&& (#[trigger] sp[i]).0 <= sp[i].1 <= cs.len()
            &&& cs.subrange(sp[i].0 as int, sp[i].1 as int) == ws[i]
        }
}

pub proof fn lemma_digits_value_prefix(w: Seq<char>, i: int)
    requires
        0 <= i <= w.len(),
    ensures
        digits_value(w.take(i)) <= digits_value(w),
    decreases w.len() - i,
{
    if i < w.len() {
        lemma_digits_value_prefix(w, i + 1);
        assert(w.take(i + 1).drop_last() =~= w.take(i));
    } else {
        assert(w.take(i) =~= w);
    }
}

/// Reads the characters `cs[lo..hi]` as a decimal `u32`.
pub fn span_to_u32(cs: &Vec<char>, lo: usize, hi: usize) -> (r: Option<u32>)
    requires
        lo <= hi <= cs.len(),
    ensures
        r == parse_u32(cs@.subrange(lo as int, hi as int)),
{
    let ghost w = cs@.subrange(lo as int, hi as int);
    if lo == hi {
        return None;
    }
    let mut k: usize = lo;
    while k < hi
        invariant
            lo <= k <= hi <= cs.len(),
            w == cs@.subrange(lo as int, hi as int),
            forall|i: int| 0 <= i < k - lo ==> is_digit(#[trigger] w[i]),
        decreases hi - k,
    {
        if !('0' <= cs[k] && cs[k] <= '9') {
            assert(!is_digit(w[k - lo]));
            return None;
        }
        k = k + 1;
    }
    assert(all_digits(w));
    let mut acc: u64 = 0;
    let mut k: usize = lo;
    while k < hi
        invariant
            lo <= k <= hi <= cs.len(),
            w == cs@.subrange(lo as int, hi as int),
            all_digits(w),
            acc == digits_value(w.take(k - lo)),
            acc <= u32::MAX,
        decreases hi - k,
    {
        let c = cs[k];
        let ghost j: int = k - lo;
        assert(w[j] == cs@[k as int]);
        assert(is_digit(w[j]));
        assert(c == w[j] && is_digit(c));
        let d: u64 = (c as u32 - 48u32) as u64;
        assert(w.take(k + 1 - lo).drop_last() =~= w.take(k - lo));
        acc = acc * 10 + d;
        if acc > 4294967295 {
            proof {
                lemma_digits_value_prefix(w, k + 1 - lo);
            }
            return None;
        }
        k = k + 1;
    }
    assert(w.take(hi - lo) =~= w);
    Some(acc as u32)
}

/// Whether `cs[lo..hi]` is the text `pat`.
pub fn span_is(cs: &Vec<char>, lo: usize, hi: usize, pat: &Vec<char>) -> (r: bool)
    requires
        lo <= hi <= cs.len(),
    ensures
        r == (cs@.subrange(lo as int, hi as int) == pat@),
{
    if hi - lo != pat.len() {
        return false;
    }
    let mut k: usize = 0;
    while k < pat.len()
        invariant
            lo <= hi <= cs.len(),
            hi - lo == pat.len(),
            k <= pat.len(),
            forall|i: int| 0 <= i < k ==> cs@[lo + i] == pat@[i],
        decreases pat.len() - k,
    {
        if cs[lo + k] != pat[k] {
            assert(cs@.subrange(lo as int, hi as int)[k as int] != pat@[k as int]);
            return false;
        }
        k = k + 1;
    }
    assert(cs@.subrange(lo as int, hi as int) =~= pat@);
    true
}

/// Whether `cs[lo..hi]` begins with the text `pat`.
pub fn span_starts_with(cs: &Vec<char>, lo: usize, hi: usize, pat: &Vec<char>) -> (r: bool)
    requires
        lo <= hi <= cs.len(),
    ensures
        r == (pat@.len() <= hi - lo && cs@.subrange(lo as int, lo + pat@.len()) == pat@),
{
    if hi - lo < pat.len() {
        return false;
    }
    span_is(cs, lo, lo + pat.len(), pat)
}

/// The spans of the pieces of `cs` between the occurrences of `sep`.
pub fn piece_spans(cs: &Vec<char>, sep: char) -> (r: Vec<(usize, usize)>)
    ensures
        spans_are(cs@, r@, pieces(cs@, sep)),
{
    let mut r: Vec<(usize, usize)> = Vec::new();
    let ghost mut acc: Seq<Seq<char>> = seq![];
    let mut start: usize = 0;
    assert(cs@.skip(0) =~= cs@);
    assert(acc + pieces(cs@, sep) =~= pieces(cs@, sep));
    loop
        invariant
            start <= cs.len(),
            spans_are(cs@, r@, acc),
            pieces(cs@, sep) == acc + pieces(cs@.skip(start as int), sep),
        decreases cs.len() - start,
    {
        let ghost rest = cs@.skip(start as int);
        let mut j: usize = start;
        while j < cs.len() && cs[j] != sep
            invariant
                start <= j <= cs.len(),
                rest == cs@.skip(start as int),
                piece_len(rest, sep) == (j - start) + piece_len(cs@.skip(j as int), sep),
            decreases cs.len() - j,
        {
            assert(cs@.skip(j as int).drop_first() =~= cs@.skip(j + 1));
            j = j + 1;
        }
        let ghost n = piece_len(rest, sep);
        assert(n == j - start) by {
            if j < cs.len() {
                assert(cs@.skip(j as int)[0] == sep);
            }
        }
        assert(rest.take(n as int) =~= cs@.subrange(start as int, j as int));
        r.push((start, j));
        proof {
            acc = acc.push(cs@.subrange(start as int, j as int));
        }
        if j == cs.len() {
            assert(rest =~= cs@.subrange(start as int, j as int));
            assert(pieces(cs@, sep) == acc);
            return r;
        }
        assert(rest.skip(n + 1int) =~= cs@.skip(j + 1));
        assert(pieces(cs@, sep) == acc + pieces(cs@.skip(j + 1), sep));
        start = j + 1;
    }
}

/// The spans of the words of the line `cs[lo..hi]`.
pub fn word_spans(cs: &Vec<char>, lo: usize, hi: usize) -> (r: Vec<(usize, usize)>)
    requires
        lo <= hi <= cs.len(),
    ensures
        spans_are(cs@, r@, words(cs@.subrange(lo as int, hi as int))),
        forall|i: int| 0 <= i < r.len() ==> lo <= (#[trigger] r@[i]).0 && r@[i].1 <= hi,
{
    let mut r: Vec<(usize, usize)> = Vec::new();
    let ghost mut acc: Seq<Seq<char>> = seq![];
    let mut pos: usize = lo;
    assert(acc + words(cs@.subrange(lo as int, hi as int)) =~= words(cs@.subrange(lo as int, hi as int)));
    while pos < hi
        invariant
            lo <= pos <= hi <= cs.len(),
            spans_are(cs@, r@, acc),
            forall|i: int| 0 <= i < r.len() ==> lo <= (#[trigger] r@[i]).0 && r@[i].1 <= pos,
            words(cs@.subrange(lo as int, hi as int)) == acc + words(
                cs@.subrange(pos as int, hi as int),
            ),
        decreases hi - pos,
    {
        let ghost rest = cs@.subrange(pos as int, hi as int);
        let c = cs[pos];
        if c == ' ' || c == '\t' || c == '\r' {
            assert(rest.drop_first() =~= cs@.subrange(pos + 1, hi as int));
            pos = pos + 1;
        } else {
            let mut j: usize = pos;
            while j < hi && !(cs[j] == ' ' || cs[j] == '\t' || cs[j] == '\r')
                invariant
                    pos <= j <= hi <= cs.len(),
                    rest == cs@.subrange(pos as int, hi as int),
                    word_len(rest) == (j - pos) + word_len(cs@.subrange(j as int, hi as int)),
                decreases hi - j,
            {
                assert(cs@.subrange(j as int, hi as int).drop_first() =~= cs@.subrange(
                    j + 1,
                    hi as int,
                ));
                j = j + 1;
            }
            let ghost n = word_len(rest);
            assert(n == j - pos) by {
                if j < hi {
                    assert(is_blank(cs@.subrange(j as int, hi as int)[0]));
                }
            }
            assert(rest.take(n as int) =~= cs@.subrange(pos as int, j as int));
            assert(rest.skip(n as int) =~= cs@.subrange(j as int, hi as int));
            if j == hi {
                assert(rest =~= cs@.subrange(pos as int, j as int));
                assert(words(cs@.subrange(j as int, hi as int)) =~= seq![]);
            }
            r.push((pos, j));
            proof {
                acc = acc.push(cs@.subrange(pos as int, j as int));
            }
            assert(words(cs@.subrange(lo as int, hi as int)) =~= acc + words(
                cs@.subrange(j as int, hi as int),
            ));
            pos = j;
        }
    }
    assert(cs@.subrange(pos as int, hi as int) =~= seq![]);
    assert(acc + words(seq![]) =~= acc);
    r
}

/// The position of the word that follows the first non-final occurrence of `key`.
pub fn find_value_after(
    cs: &Vec<char>,
    sp: &Vec<(usize, usize)>,
    key: &Vec<char>,
    Ghost(ws): Ghost<Seq<Seq<char>>>,
) -> (r: Option<usize>)
    requires
        spans_are(cs@, sp@, ws),
    ensures
        match r {
            Some(k) => 1 <= k < ws.len() && value_after(ws, key@) == Some(ws[k as int]),
            None => value_after(ws, key@) is None,
        },
{
    let mut k: usize = 0;
    assert(ws.skip(0) =~= ws);
    while k < sp.len() && k + 1 < sp.len()
        invariant
            spans_are(cs@, sp@, ws),
            k <= sp.len(),
            value_after(ws, key@) == value_after(ws.skip(k as int), key@),
        decreases sp.len() - k,
    {
        let (a, b) = sp[k];
        assert(ws.skip(k as int)[0] == ws[k as int]);
        if span_is(cs, a, b, key) {
            return Some(k + 1);
        }
        assert(ws.skip(k as int).drop_first() =~= ws.skip(k + 1));
        k = k + 1;
    }
    None
}

} // verus!
