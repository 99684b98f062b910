//! Characters and strings: conversions, white space, fields.

use vstd::prelude::*;

verus! {

/// `String::push` appends one character to the end of the string.
pub assume_specification[ String::push ](s: &mut String, c: char)
    ensures
        final(s)@ == old(s)@.push(c),
;

/// The characters of `s`, in order.
pub fn chars_of(s: &str) -> (v: Vec<char>)
    ensures
        v@ == s@,
{
    let mut v: Vec<char> = Vec::new();
    for c in it: s.chars()
        invariant
            v@ == it.seq().take(it.index()),
            it.seq() == s@,
    {
        v.push(c);
    }
    v
}

/// Whether `c` is white space: a character with the Unicode property
/// White_Space.
pub open spec fn is_whitespace(c: char) -> bool {
    ||| ('\u{9}' <= c && c <= '\u{d}')
    ||| c == ' '
    ||| c == '\u{85}'
    ||| c == '\u{a0}'
    ||| c == '\u{1680}'
    ||| ('\u{2000}' <= c && c <= '\u{200a}')
    ||| c == '\u{2028}'
    ||| c == '\u{2029}'
    ||| c == '\u{202f}'
    ||| c == '\u{205f}'
    ||| c == '\u{3000}'
}

/// Executable form of [`is_whitespace`].
pub fn whitespace(c: char) -> (b: bool)
    ensures
        b == is_whitespace(c),
{
    (c >= '\u{9}' && c <= '\u{d}') || c == ' ' || c == '\u{85}' || c == '\u{a0}' || c
        == '\u{1680}' || (c >= '\u{2000}' && c <= '\u{200a}') || c == '\u{2028}' || c
        == '\u{2029}' || c == '\u{202f}' || c == '\u{205f}' || c == '\u{3000}'
}

/// `s` without the white space at its start.
pub open spec fn trim_start(s: Seq<char>) -> Seq<char>
    decreases s.len(),
{
    if s.len() > 0 && is_whitespace(s.first()) {
        trim_start(s.drop_first())
    } else {
        s
    }
}

/// How many characters that are not white space `s` starts with.
pub open spec fn token_len(s: Seq<char>) -> nat
    decreases s.len(),
{
    if s.len() > 0 && !is_whitespace(s.first()) {
        1 + token_len(s.drop_first())
    } else {
        0
    }
}

/// The first field of `s`: after the white space at the start, what stands
/// before the next white space. Empty where `s` holds white space only.
pub open spec fn first_token(s: Seq<char>) -> Seq<char> {
    let t = trim_start(s);
    t.take(token_len(t) as int)
}

/// What follows the first field of `s`.
pub open spec fn after_token(s: Seq<char>) -> Seq<char> {
    let t = trim_start(s);
    t.skip(token_len(t) as int)
}

/// A text that starts with `n` characters that are not white space, and
/// goes on with white space or ends there, starts with a field of length `n`.
pub proof fn lemma_token_len(s: Seq<char>, n: int)
    requires
        0 <= n <= s.len(),
        forall|i: int| 0 <= i < n ==> !is_whitespace(#[trigger] s[i]),
        n == s.len() || is_whitespace(s[n]),
    ensures
        token_len(s) == n,
    decreases n,
{
    if n > 0 {
        lemma_token_len(s.drop_first(), n - 1);
    }
}

/// A field followed by white space, or by nothing, is read back as it is:
/// where `field` is not empty and holds no white space, the first field of
/// `field + rest` is `field`, and `rest` is what follows it.
pub proof fn lemma_first_token(field: Seq<char>, rest: Seq<char>)
    requires
        field.len() > 0,
        forall|i: int| 0 <= i < field.len() ==> !is_whitespace(#[trigger] field[i]),
        rest.len() == 0 || is_whitespace(rest[0]),
    ensures
        first_token(field + rest) == field,
        after_token(field + rest) == rest,
{
    lemma_token_len(field + rest, field.len() as int);
}

/// The bounds within `v` of the first field of `v[from..]`.
pub fn next_token(v: &Vec<char>, from: usize) -> (r: (usize, usize))
    requires
        from <= v.len(),
    ensures
        from <= r.0 <= r.1 <= v.len(),
        v@.subrange(r.0 as int, r.1 as int) == first_token(v@.skip(from as int)),
        v@.skip(r.1 as int) == after_token(v@.skip(from as int)),
{
    let mut a: usize = from;
    while a < v.len() && whitespace(v[a])
        invariant
            from <= a <= v.len(),
            trim_start(v@.skip(from as int)) == trim_start(v@.skip(a as int)),
        decreases v.len() - a,
    {
        assert(v@.skip(a as int).drop_first() == v@.skip(a + 1));
        a += 1;
    }
    let ghost t = v@.skip(a as int);
    let mut b: usize = a;
    while b < v.len() && !whitespace(v[b])
        invariant
            a <= b <= v.len(),
            t == v@.skip(a as int),
            forall|i: int| 0 <= i < b - a ==> !is_whitespace(#[trigger] t[i]),
        decreases v.len() - b,
    {
        b += 1;
    }
    proof {
        lemma_token_len(t, b - a);
    }
    (a, b)
}

} // verus!
