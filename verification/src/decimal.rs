//! Decimal text for fixed-point numbers: an optional sign, a run of digits,
//! and optionally a point and a second run of digits.

use vstd::prelude::*;
use crate::fixed::Fixed;
use crate::text::chars_of;

verus! {

/// Whether `c` is one of the ten ASCII digits.
pub open spec fn is_digit(c: char) -> bool {
    '0' <= c && c <= '9'
}

/// The number that the digit `c` stands for.
pub open spec fn digit_value(c: char) -> int {
    c as int - 48
}

/// The digit that stands for `d`, a number below ten.
pub open spec fn digit_char(d: int) -> char {
    (d + 48) as char
}

/// Whether `s` holds digits only.
pub open spec fn all_digits(s: Seq<char>) -> bool {
    forall|i: int| 0 <= i < s.len() ==> is_digit(#[trigger] s[i])
}

/// The number that a run of digits writes.
pub open spec fn digits_value(s: Seq<char>) -> int
    decreases s.len(),
{
    if s.len() == 0 {
        0
    } else {
        digits_value(s.drop_last()) * 10 + digit_value(s.last())
    }
}

/// Ten to the power `n`.
pub open spec fn pow10(n: nat) -> int
    decreases n,
{
    if n == 0 {
        1
    } else {
        10 * pow10((n - 1) as nat)
    }
}

/// The millionths that the digits after the point write: the first six
/// digits count, and what lies beyond them is dropped.
pub open spec fn fraction_units(s: Seq<char>) -> int {
    if s.len() >= 6 {
        digits_value(s.take(6))
    } else {
        digits_value(s) * pow10((6 - s.len()) as nat)
    }
}

/// How many digits `s` starts with.
pub open spec fn leading_digits(s: Seq<char>) -> nat
    decreases s.len(),
{
    if s.len() > 0 && is_digit(s.first()) {
        1 + leading_digits(s.drop_first())
    } else {
        0
    }
}

/// The number that `s` writes, in millionths: `s` is an optional sign, a run
/// of digits, and optionally a point and a second run of digits, with a digit
/// in at least one of the runs; and the number lies within the range of a
/// fixed-point number. `None` for every other text.
pub open spec fn spec_parse(s: Seq<char>) -> Option<int> {
    let signed = s.len() > 0 && (s[0] == '+' || s[0] == '-');
    let negative = s.len() > 0 && s[0] == '-';
    let body = if signed {
        s.skip(1)
    } else {
        s
    };
    let n = leading_digits(body) as int;
    let whole = body.take(n);
    let rest = body.skip(n);
    let fraction = rest.skip(1);
    if rest.len() == 0 && n > 0 || rest.len() > 0 && rest[0] == '.' && all_digits(fraction) && n
        + fraction.len() > 0 {
        let magnitude = digits_value(whole) * 1_000_000 + (if rest.len() == 0 {
            0
        } else {
            fraction_units(fraction)
        });
        let value = if negative {
            -magnitude
        } else {
            magnitude
        };
        if i64::MIN <= value <= i64::MAX {
            Some(value)
        } else {
            None
        }
    } else {
        None
    }
}

/// The digits that write `n`, without leading zeros.
pub open spec fn render_nat(n: nat) -> Seq<char>
    decreases n,
{
    if n < 10 {
        seq![digit_char(n as int)]
    } else {
        render_nat(n / 10).push(digit_char((n % 10) as int))
    }
}

/// The last `width` digits of `n`, with leading zeros where `n` is short.
pub open spec fn render_padded(n: nat, width: nat) -> Seq<char>
    decreases width,
{
    if width == 0 {
        Seq::empty()
    } else {
        render_padded(n / 10, (width - 1) as nat).push(digit_char((n % 10) as int))
    }
}

/// `s` without the zeros at its end.
pub open spec fn trim_zeros(s: Seq<char>) -> Seq<char>
    decreases s.len(),
{
    if s.len() > 0 && s.last() == '0' {
        trim_zeros(s.drop_last())
    } else {
        s
    }
}

/// The magnitude of `v`.
pub open spec fn magnitude(v: int) -> nat {
    if v < 0 {
        (-v) as nat
    } else {
        v as nat
    }
}

/// The text that writes `v` millionths: a minus sign where `v` is negative,
/// the whole part, and, where the fraction is not zero, a point and the
/// fraction's digits up to the last that is not zero.
pub open spec fn spec_render(v: int) -> Seq<char> {
    let m = magnitude(v);
    let sign = if v < 0 {
        seq!['-']
    } else {
        Seq::<char>::empty()
    };
    let fraction = m % 1_000_000;
    let tail = if fraction == 0 {
        Seq::<char>::empty()
    } else {
        seq!['.'] + trim_zeros(render_padded(fraction, 6))
    };
    sign + render_nat(m / 1_000_000) + tail
}

/// Executable form of [`is_digit`].
pub fn digit(c: char) -> (b: bool)
    ensures
        b == is_digit(c),
{
    c >= '0' && c <= '9'
}

fn to_digit(c: char) -> (d: u64)
    requires
        is_digit(c),
    ensures
        d == digit_value(c),
        d < 10,
{
    (c as u64) - 48
}

fn from_digit(d: u64) -> (c: char)
    requires
        d < 10,
    ensures
        c == digit_char(d as int),
        is_digit(c),
        digit_value(c) == d,
{
    ((d + 48) as u8) as char
}

/// A text that starts with `n` digits and goes on with something else, or
/// ends there, starts with exactly `n` digits.
pub proof fn lemma_leading_digits(s: Seq<char>, n: int)
    requires
        0 <= n <= s.len(),
        all_digits(s.take(n)),
        n == s.len() || !is_digit(s[n]),
    ensures
        leading_digits(s) == n,
    decreases n,
{
    if n > 0 {
        assert(s.take(n)[0] == s[0]);
        let t = s.drop_first();
        assert forall|i: int| 0 <= i < n - 1 implies is_digit(#[trigger] t.take(n - 1)[i]) by {
            assert(t.take(n - 1)[i] == s.take(n)[i + 1]);
        }
        lemma_leading_digits(t, n - 1);
    }
}

/// The powers of ten up to the sixth.
pub proof fn lemma_pow10_values()
    ensures
        pow10(0) == 1,
        pow10(1) == 10,
        pow10(2) == 100,
        pow10(3) == 1_000,
        pow10(4) == 10_000,
        pow10(5) == 100_000,
        pow10(6) == 1_000_000,
{
    reveal_with_fuel(pow10, 8);
}

/// The largest whole part whose millionths still fit.
const WHOLE_CAP: u64 = 9_223_372_036_854;

/// Reads the run of digits at `v[start..to]`: where it ends, and the number
/// that it writes, or that this number is beyond `WHOLE_CAP`.
fn scan_whole(v: &Vec<char>, start: usize, to: usize) -> (r: (usize, u64, bool))
    requires
        start <= to <= v.len(),
    ensures
        start <= r.0 <= to,
        r.0 - start == leading_digits(v@.subrange(start as int, to as int)),
        !r.2 ==> r.1 == digits_value(v@.subrange(start as int, r.0 as int)) && r.1 <= WHOLE_CAP,
        r.2 ==> digits_value(v@.subrange(start as int, r.0 as int)) > WHOLE_CAP,
{
    let mut i: usize = start;
    let mut whole: u64 = 0;
    let mut over: bool = false;
    while i < to && digit(v[i])
        invariant
            start <= i <= to <= v.len(),
            all_digits(v@.subrange(start as int, i as int)),
            !over ==> whole == digits_value(v@.subrange(start as int, i as int)) && whole
                <= WHOLE_CAP,
            over ==> digits_value(v@.subrange(start as int, i as int)) > WHOLE_CAP,
        decreases to - i,
    {
        let d: u64 = to_digit(v[i]);
        assert(v@.subrange(start as int, i + 1).drop_last() == v@.subrange(
            start as int,
            i as int,
        ));
        if !over {
            let next: u64 = whole * 10 + d;
            if next > WHOLE_CAP {
                over = true;
            } else {
                whole = next;
            }
        }
        i += 1;
    }
    proof {
        lemma_leading_digits(v@.subrange(start as int, to as int), i - start);
    }
    (i, whole, over)
}

/// Reads the digits after the point, `v[point..to]`: the millionths that
/// they write, or `None` where something else than a digit stands there.
fn scan_fraction(v: &Vec<char>, point: usize, to: usize) -> (r: Option<u64>)
    requires
        point <= to <= v.len(),
    ensures
        r is Some <==> all_digits(v@.subrange(point as int, to as int)),
        r matches Some(units) ==> units == fraction_units(v@.subrange(point as int, to as int))
            && units < 1_000_000,
{
    let ghost fraction = v@.subrange(point as int, to as int);
    let mut i: usize = point;
    let mut units: u64 = 0;
    let mut count: usize = 0;
    while i < to && digit(v[i])
        invariant
            point <= i <= to <= v.len(),
            count <= 6,
            count <= i - point,
            count < 6 ==> count == i - point,
            all_digits(v@.subrange(point as int, i as int)),
            units == digits_value(v@.subrange(point as int, point + count)),
            units < pow10(count as nat),
        decreases to - i,
    {
        let d: u64 = to_digit(v[i]);
        proof {
            lemma_pow10_values();
        }
        if count < 6 {
            assert(v@.subrange(point as int, i + 1).drop_last() == v@.subrange(
                point as int,
                i as int,
            ));
            units = units * 10 + d;
            count += 1;
        }
        i += 1;
    }
    if i < to {
        assert(fraction[i - point] == v@[i as int]);
        return None;
    }
    proof {
        lemma_pow10_values();
        if fraction.len() >= 6 {
            assert(fraction.take(6) =~= v@.subrange(point as int, point + count));
            assert(pow10((6 - count) as nat) == 1);
        }
    }
    while count < 6
        invariant
            count <= 6,
            units * pow10((6 - count) as nat) == fraction_units(fraction),
            units < pow10(count as nat),
        decreases 6 - count,
    {
        proof {
            lemma_pow10_values();
            assert((units * 10) * pow10((6 - count - 1) as nat) == units * pow10(
                (6 - count) as nat,
            )) by (nonlinear_arith)
                requires
                    pow10((6 - count) as nat) == 10 * pow10((6 - count - 1) as nat),
            ;
        }
        units = units * 10;
        count += 1;
    }
    assert(units * pow10(0) == units) by {
        lemma_pow10_values();
    }
    Some(units)
}

/// The number that `v[from..to]` writes.
pub(crate) fn parse_range(v: &Vec<char>, from: usize, to: usize) -> (r: Option<Fixed>)
    requires
        from <= to <= v.len(),
    ensures
        match r {
            Some(f) => spec_parse(v@.subrange(from as int, to as int)) == Some(f.units()),
            None => spec_parse(v@.subrange(from as int, to as int)) is None,
        },
{
    let ghost s = v@.subrange(from as int, to as int);
    let mut start: usize = from;
    let mut negative: bool = false;
    if from < to && (v[from] == '+' || v[from] == '-') {
        negative = v[from] == '-';
        start = from + 1;
    }
    let ghost body = v@.subrange(start as int, to as int);
    assert(body =~= if s.len() > 0 && (s[0] == '+' || s[0] == '-') {
        s.skip(1)
    } else {
        s
    });
    let (end, whole, over) = scan_whole(v, start, to);
    let ghost n = end - start;
    let ghost rest = body.skip(n);
    assert(body.take(n) =~= v@.subrange(start as int, end as int));
    let mut units: u64 = 0;
    if end == to {
        if end == start {
            return None;
        }
    } else if v[end] == '.' {
        assert(rest.skip(1) =~= v@.subrange(end + 1, to as int));
        match scan_fraction(v, end + 1, to) {
            Some(u) => {
                if end == start && end + 1 == to {
                    return None;
                }
                units = u;
            },
            None => {
                return None;
            },
        }
    } else {
        return None;
    }
    if over {
        return None;
    }
    let magnitude: u64 = whole * 1_000_000 + units;
    if negative {
        if magnitude > 9_223_372_036_854_775_808 {
            None
        } else if magnitude == 9_223_372_036_854_775_808 {
            Some(Fixed { raw: i64::MIN })
        } else {
            Some(Fixed { raw: -(magnitude as i64) })
        }
    } else {
        if magnitude > 9_223_372_036_854_775_807 {
            None
        } else {
            Some(Fixed { raw: magnitude as i64 })
        }
    }
}

impl Fixed {
    /// The number that `text` writes.
    pub fn parse(text: &str) -> (r: Option<Fixed>)
        ensures
            match r {
                Some(f) => spec_parse(text@) == Some(f.units()),
                None => spec_parse(text@) is None,
            },
    {
        let v: Vec<char> = chars_of(text);
        assert(v@.subrange(0, v.len() as int) == v@);
        parse_range(&v, 0, v.len())
    }
}

/// The digits that write a number are digits, at least one of them, and
/// write that number.
pub proof fn lemma_render_nat(n: nat)
    ensures
        render_nat(n).len() > 0,
        all_digits(render_nat(n)),
        digits_value(render_nat(n)) == n,
    decreases n,
{
    if n < 10 {
        let s = render_nat(n);
        assert(digits_value(s.drop_last()) == 0);
    } else {
        lemma_render_nat(n / 10);
        let s = render_nat(n);
        assert(s.drop_last() =~= render_nat(n / 10));
    }
}

/// The last `width` digits of a number are `width` digits, and write the
/// number where it is below ten to the power `width`.
pub proof fn lemma_render_padded(n: nat, width: nat)
    ensures
        render_padded(n, width).len() == width,
        all_digits(render_padded(n, width)),
        n < pow10(width) ==> digits_value(render_padded(n, width)) == n,
    decreases width,
{
    if width > 0 {
        lemma_render_padded(n / 10, (width - 1) as nat);
        let s = render_padded(n, width);
        assert(s.drop_last() =~= render_padded(n / 10, (width - 1) as nat));
    }
}

/// Dropping the zeros at the end of a run of digits leaves a start of the
/// run, which writes the same number once it is scaled by the power of ten
/// that the zeros stood for.
pub proof fn lemma_trim_zeros(s: Seq<char>)
    requires
        all_digits(s),
    ensures
        trim_zeros(s).len() <= s.len(),
        trim_zeros(s) == s.take(trim_zeros(s).len() as int),
        all_digits(trim_zeros(s)),
        digits_value(trim_zeros(s)) * pow10((s.len() - trim_zeros(s).len()) as nat)
            == digits_value(s),
    decreases s.len(),
{
    if s.len() > 0 && s.last() == '0' {
        let t = s.drop_last();
        lemma_trim_zeros(t);
        let r = trim_zeros(t);
        let k = (t.len() - r.len()) as nat;
        assert(digits_value(r) * (10 * pow10(k)) == (digits_value(r) * pow10(k)) * 10)
            by (nonlinear_arith);
    }
}

/// Reading what was written gives the number back: the text of a number
/// within the range of a fixed-point number writes exactly that number.
pub proof fn lemma_parse_render(v: int)
    requires
        i64::MIN <= v <= i64::MAX,
    ensures
        spec_parse(spec_render(v)) == Some(v),
{
    let text = spec_render(v);
    let m = magnitude(v);
    let w = m / 1_000_000;
    let f = m % 1_000_000;
    let digits = render_nat(w);
    let padded = render_padded(f, 6);
    let kept = trim_zeros(padded);
    let tail = if f == 0 {
        Seq::<char>::empty()
    } else {
        seq!['.'] + kept
    };
    lemma_render_nat(w);
    lemma_render_padded(f, 6);
    lemma_pow10_values();
    lemma_trim_zeros(padded);
    let body = digits + tail;
    if v < 0 {
        assert(text.skip(1) =~= body);
    }
    let n = digits.len() as int;
    assert(body.take(n) =~= digits);
    lemma_leading_digits(body, n);
    let rest = body.skip(n);
    if f != 0 {
        assert(rest.skip(1) =~= kept);
        if kept.len() >= 6 {
            assert(kept.take(6) =~= kept);
        }
    }
}

fn push_nat(out: &mut String, n: u64)
    ensures
        final(out)@ == old(out)@ + render_nat(n as nat),
    decreases n,
{
    if n >= 10 {
        push_nat(out, n / 10);
    }
    out.push(from_digit(n % 10));
}

fn push_padded(out: &mut String, n: u64, width: usize)
    ensures
        final(out)@ == old(out)@ + render_padded(n as nat, width as nat),
    decreases width,
{
    if width > 0 {
        push_padded(out, n / 10, width - 1);
        out.push(from_digit(n % 10));
    }
}

impl Fixed {
    /// Appends the text that writes this number to `out`.
    pub fn push_to(self, out: &mut String)
        ensures
            final(out)@ == old(out)@ + spec_render(self.units()),
    {
        let m: u64 = if self.raw == i64::MIN {
            9_223_372_036_854_775_808
        } else if self.raw < 0 {
            (-self.raw) as u64
        } else {
            self.raw as u64
        };
        if self.raw < 0 {
            out.push('-');
        }
        push_nat(out, m / 1_000_000);
        let mut fraction: u64 = m % 1_000_000;
        if fraction != 0 {
            out.push('.');
            let mut width: usize = 6;
            let ghost full = render_padded(fraction as nat, 6);
            proof {
                lemma_pow10_values();
            }
            while fraction % 10 == 0
                invariant
                    0 < fraction < pow10(width as nat),
                    width <= 6,
                    trim_zeros(full) == trim_zeros(render_padded(fraction as nat, width as nat)),
                decreases width,
            {
                proof {
                    lemma_pow10_values();
                    assert(width > 0);
                    assert(render_padded(fraction as nat, width as nat).drop_last()
                        == render_padded((fraction / 10) as nat, (width - 1) as nat));
                }
                fraction = fraction / 10;
                width = width - 1;
            }
            proof {
                lemma_pow10_values();
                assert(width > 0);
                assert(trim_zeros(render_padded(fraction as nat, width as nat)) == render_padded(
                    fraction as nat,
                    width as nat,
                ));
            }
            push_padded(out, fraction, width);
        }
    }

    /// The text that writes this number.
    pub fn render(self) -> (text: String)
        ensures
            text@ == spec_render(self.units()),
    {
        let mut text = String::new();
        self.push_to(&mut text);
        text
    }
}

} // verus!
