//! Trimming characters from both ends of a text.
use vstd::prelude::*;
use crate::iplink::collect_chars;

verus! {

/// The characters with the Unicode White_Space property, which
/// `char::is_whitespace` and `str::trim` go by.
pub open spec fn white_space(c: char) -> bool {
    let n = c as u32;
    (0x9 <= n && n <= 0xd) || n == 0x20 || n == 0x85 || n == 0xa0 || n == 0x1680 || (0x2000 <= n
        && n <= 0x200a) || n == 0x2028 || n == 0x2029 || n == 0x202f || n == 0x205f || n == 0x3000
}

fn is_white_space(c: char) -> (r: bool)
    ensures
        r == white_space(c),
{
    let n = c as u32;
    (0x9 <= n && n <= 0xd) || n == 0x20 || n == 0x85 || n == 0xa0 || n == 0x1680 || (0x2000 <= n
        && n <= 0x200a) || n == 0x2028 || n == 0x2029 || n == 0x202f || n == 0x205f || n == 0x3000
}

/// Number of leading characters of `s` that `p` holds of.
pub open spec fn leading(s: Seq<char>, p: spec_fn(char) -> bool) -> nat
    decreases s.len(),
{
    if s.len() == 0 || !p(s[0]) {
        0
    } else {
        1 + leading(s.drop_first(), p)
    }
}

/// Number of trailing characters of `s` that `p` holds of.
pub open spec fn trailing(s: Seq<char>, p: spec_fn(char) -> bool) -> nat
    decreases s.len(),
{
    if s.len() == 0 || !p(s.last()) {
        0
    } else {
        1 + trailing(s.drop_last(), p)
    }
}

/// `s` without the characters that `p` holds of at either end.
pub open spec fn trim_by(s: Seq<char>, p: spec_fn(char) -> bool) -> Seq<char> {
    let t = s.skip(leading(s, p) as int);
    t.take(t.len() - trailing(t, p))
}

pub open spec fn is_ws() -> spec_fn(char) -> bool {
    |c: char| white_space(c)
}

pub open spec fn is_quote() -> spec_fn(char) -> bool {
    |c: char| c == '\''
}

proof fn lemma_trailing_le(s: Seq<char>, p: spec_fn(char) -> bool)
    ensures
        trailing(s, p) <= s.len(),
    decreases s.len(),
{
    if s.len() > 0 && p(s.last()) {
        lemma_trailing_le(s.drop_last(), p);
    }
}

/// Finds the span of `cs` that `trim_by` keeps, given what `p` says of each character.
fn trim_span(cs: &Vec<char>, marks: &Vec<bool>, Ghost(p): Ghost<spec_fn(char) -> bool>) -> (r: (usize, usize))
    requires
        marks.len() == cs.len(),
        forall|i: int| 0 <= i < cs.len() ==> marks@[i] == p(#[trigger] cs@[i]),
    ensures
        r.0 <= r.1 <= cs.len(),
        cs@.subrange(r.0 as int, r.1 as int) == trim_by(cs@, p),
{
    let mut a: usize = 0;
    assert(cs@.skip(0) =~= cs@);
    while a < cs.len() && marks[a]
        invariant
            a <= cs.len(),
            marks.len() == cs.len(),
            forall|i: int| 0 <= i < cs.len() ==> marks@[i] == p(#[trigger] cs@[i]),
            leading(cs@, p) == a + leading(cs@.skip(a as int), p),
        decreases cs.len() - a,
    {
        assert(cs@.skip(a as int).drop_first() =~= cs@.skip(a + 1));
        a = a + 1;
    }
    if a < cs.len() {
        assert(cs@.skip(a as int)[0] == cs@[a as int]);
    }
    let ghost t = cs@.skip(a as int);
    let mut b: usize = cs.len();
    assert(t.take(t.len() as int) =~= t);
    while b > a && marks[b - 1]
        invariant
            a <= b <= cs.len(),
            marks.len() == cs.len(),
            forall|i: int| 0 <= i < cs.len() ==> marks@[i] == p(#[trigger] cs@[i]),
            t == cs@.skip(a as int),
            trailing(t, p) == (cs.len() - b) + trailing(t.take(b - a), p),
        decreases b - a,
    {
        assert(t.take(b - a).drop_last() =~= t.take(b - 1 - a));
        assert(t.take(b - a).last() == cs@[b - 1]);
        b = b - 1;
    }
    if b > a {
        assert(t.take(b - a).last() == cs@[b - 1]);
    }
    proof {
        lemma_trailing_le(t.take(b - a), p);
    }
    assert(cs@.subrange(a as int, b as int) =~= t.take(b - a));
    (a, b)
}

/// `s` without white space at either end, as `str::trim` gives it.
pub fn trim_white_space(s: &str) -> (r: String)
    ensures
        r@ == trim_by(s@, is_ws()),
{
    let cs = collect_chars(s);
    let mut marks: Vec<bool> = Vec::new();
    let mut i: usize = 0;
    while i < cs.len()
        invariant
            i <= cs.len(),
            marks.len() == i,
            forall|j: int| 0 <= j < i ==> marks@[j] == is_ws()(#[trigger] cs@[j]),
        decreases cs.len() - i,
    {
        marks.push(is_white_space(cs[i]));
        i = i + 1;
    }
    let (a, b) = trim_span(&cs, &marks, Ghost(is_ws()));
    s.substring_char(a, b).to_owned()
}

/// `s` without single quotes at either end.
pub fn trim_quotes(s: &str) -> (r: String)
    ensures
        r@ == trim_by(s@, is_quote()),
{
    let cs = collect_chars(s);
    let mut marks: Vec<bool> = Vec::new();
    let mut i: usize = 0;
    while i < cs.len()
        invariant
            i <= cs.len(),
            marks.len() == i,
            forall|j: int| 0 <= j < i ==> marks@[j] == is_quote()(#[trigger] cs@[j]),
        decreases cs.len() - i,
    {
        marks.push(cs[i] == '\'');
        i = i + 1;
    }
    let (a, b) = trim_span(&cs, &marks, Ghost(is_quote()));
    s.substring_char(a, b).to_owned()
}

} // verus!
