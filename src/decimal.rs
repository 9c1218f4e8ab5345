//! Exact decimal numbers and the way they are written in a query string.

use vstd::prelude::*;
use crate::text::push_char;

verus! {

/// The number `mantissa / 10^scale`, written with exactly `scale` digits
/// after the point (`-12240` at scale 2 is `-122.40`).
#[derive(Clone, Copy, Debug, PartialEq, Eq)]
pub struct Decimal {
    pub mantissa: i64,
    pub scale: u32,
}

/// The character of one decimal digit.
pub open spec fn digit_char(d: int) -> char {
    if d == 0 {
        '0'
    } else if d == 1 {
        '1'
    } else if d == 2 {
        '2'
    } else if d == 3 {
        '3'
    } else if d == 4 {
        '4'
    } else if d == 5 {
        '5'
    } else if d == 6 {
        '6'
    } else if d == 7 {
        '7'
    } else if d == 8 {
        '8'
    } else {
        '9'
    }
}

pub open spec fn is_digit(c: char) -> bool {
    '0' <= c && c <= '9'
}

/// A non-empty run of decimal digits.
pub open spec fn is_digits(s: Seq<char>) -> bool {
    s.len() > 0 && forall|i: int| 0 <= i < s.len() ==> is_digit(#[trigger] s[i])
}

/// The decimal digits of `n`, without leading zeros.
pub open spec fn digits_of(n: nat) -> Seq<char>
    decreases n,
{
    if n < 10 {
        seq![digit_char(n as int)]
    } else {
        digits_of(n / 10).push(digit_char((n % 10) as int))
    }
}

/// The `w` lowest decimal digits of `n`, padded with zeros.
pub open spec fn low_digits(n: nat, w: nat) -> Seq<char>
    decreases w,
{
    if w == 0 {
        Seq::empty()
    } else {
        low_digits(n / 10, (w - 1) as nat).push(digit_char((n % 10) as int))
    }
}

/// `n` without its `w` lowest decimal digits.
pub open spec fn drop_digits(n: nat, w: nat) -> nat
    decreases w,
{
    if w == 0 {
        n
    } else {
        drop_digits(n / 10, (w - 1) as nat)
    }
}

pub open spec fn magnitude(m: int) -> nat {
    if m < 0 {
        (-m) as nat
    } else {
        m as nat
    }
}

/// How a decimal is written: a minus sign for a negative value, the
/// integer part, and for a positive scale a point and exactly `scale` digits.
pub open spec fn decimal_text(d: Decimal) -> Seq<char> {
    let a = magnitude(d.mantissa as int);
    let sign = if d.mantissa < 0 {
        seq!['-']
    } else {
        Seq::<char>::empty()
    };
    let frac = if d.scale == 0 {
        Seq::<char>::empty()
    } else {
        seq!['.'] + low_digits(a, d.scale as nat)
    };
    sign + digits_of(drop_digits(a, d.scale as nat)) + frac
}

/// The shape of a plain decimal numeral: an optional sign, digits, and
/// optionally a point followed by digits.
pub open spec fn is_decimal_numeral(s: Seq<char>) -> bool {
    exists|sign: Seq<char>, int_part: Seq<char>, frac: Seq<char>|
        #![trigger sign + int_part + frac]
        s == sign + int_part + frac && (sign.len() == 0 || sign == seq!['-'] || sign == seq![
            '+',
        ]) && is_digits(int_part) && (frac.len() == 0 || (frac[0] == '.' && is_digits(
            frac.drop_first(),
        )))
}

proof fn lemma_digits_of(n: nat)
    ensures
        is_digits(digits_of(n)),
    decreases n,
{
    if n >= 10 {
        lemma_digits_of(n / 10);
    }
}

proof fn lemma_low_digits(n: nat, w: nat)
    ensures
        low_digits(n, w).len() == w,
        forall|i: int| 0 <= i < w ==> is_digit(#[trigger] low_digits(n, w)[i]),
    decreases w,
{
    if w > 0 {
        lemma_low_digits(n / 10, (w - 1) as nat);
    }
}

/// Every decimal is written as a plain numeral: optional sign, digits, and
/// optionally a point and digits.
pub proof fn lemma_decimal_text_is_numeral(d: Decimal)
    ensures
        is_decimal_numeral(decimal_text(d)),
{
    let a = magnitude(d.mantissa as int);
    let sign = if d.mantissa < 0 {
        seq!['-']
    } else {
        Seq::<char>::empty()
    };
    let frac = if d.scale == 0 {
        Seq::<char>::empty()
    } else {
        seq!['.'] + low_digits(a, d.scale as nat)
    };
    let int_part = digits_of(drop_digits(a, d.scale as nat));
    lemma_digits_of(drop_digits(a, d.scale as nat));
    if d.scale != 0 {
        lemma_low_digits(a, d.scale as nat);
        assert(frac.drop_first() == low_digits(a, d.scale as nat));
    }
    assert(decimal_text(d) == sign + int_part + frac);
}

fn digit(d: u64) -> (c: char)
    requires
        d < 10,
    ensures
        c == digit_char(d as int),
{
    if d == 0 {
        '0'
    } else if d == 1 {
        '1'
    } else if d == 2 {
        '2'
    } else if d == 3 {
        '3'
    } else if d == 4 {
        '4'
    } else if d == 5 {
        '5'
    } else if d == 6 {
        '6'
    } else if d == 7 {
        '7'
    } else if d == 8 {
        '8'
    } else {
        '9'
    }
}

pub(crate) fn push_digits(out: &mut String, n: u64)
    ensures
        final(out)@ == old(out)@ + digits_of(n as nat),
    decreases n,
{
    if n >= 10 {
        push_digits(out, n / 10);
    }
    push_char(out, digit(n % 10));
    assert(final(out)@ == old(out)@ + digits_of(n as nat));
}

fn push_low_digits(out: &mut String, n: u64, w: u32)
    ensures
        final(out)@ == old(out)@ + low_digits(n as nat, w as nat),
    decreases w,
{
    if w > 0 {
        push_low_digits(out, n / 10, w - 1);
        push_char(out, digit(n % 10));
        assert(final(out)@ == old(out)@ + low_digits(n as nat, w as nat));
    } else {
        assert(final(out)@ == old(out)@ + low_digits(n as nat, w as nat));
    }
}

fn drop_low_digits(n: u64, w: u32) -> (r: u64)
    ensures
        r == drop_digits(n as nat, w as nat),
{
    let mut m: u64 = n;
    let mut i: u32 = 0;
    while i < w
        invariant
            i <= w,
            drop_digits(m as nat, (w - i) as nat) == drop_digits(n as nat, w as nat),
        decreases w - i,
    {
        m = m / 10;
        i = i + 1;
    }
    m
}

impl Decimal {
    /// The decimal `mantissa / 10^scale`.
    pub fn new(mantissa: i64, scale: u32) -> (r: Decimal)
        ensures
            r.mantissa == mantissa,
            r.scale == scale,
    {
        Decimal { mantissa, scale }
    }

    /// The decimal as written in a query parameter.
    pub fn to_text(&self) -> (r: String)
        ensures
            r@ == decimal_text(*self),
    {
        let m: i128 = self.mantissa as i128;
        let a: u64 = if m < 0 {
            (0 - m) as u64
        } else {
            m as u64
        };
        assert(a as nat == magnitude(self.mantissa as int));
        let mut out = String::new();
        if m < 0 {
            push_char(&mut out, '-');
        }
        push_digits(&mut out, drop_low_digits(a, self.scale));
        if self.scale > 0 {
            push_char(&mut out, '.');
            push_low_digits(&mut out, a, self.scale);
        }
        assert(out@ == decimal_text(*self));
        out
    }
}

/// The decimal digits of a count.
pub fn count_text(n: u32) -> (r: String)
    ensures
        r@ == digits_of(n as nat),
{
    let mut out = String::new();
    push_digits(&mut out, n as u64);
    out
}

} // verus!
