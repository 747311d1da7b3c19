use crate::units::{Fixed, UNIT};
use vstd::prelude::*;

verus! {

/// `String::push` (std): appends one character. The contract claims that the string's
/// characters afterwards are the old ones followed by `c`, as std documents.
#[verifier::external_body]
fn push_char(s: &mut String, c: char)
    ensures
        final(s)@ == old(s)@.push(c),
{
    s.push(c);
}

/// The ASCII digit for `d` (`0 <= d < 10`).
pub open spec fn digit_char(d: int) -> char {
    if d == 0 { '0' } else if d == 1 { '1' } else if d == 2 { '2' } else if d == 3 { '3' }
    else if d == 4 { '4' } else if d == 5 { '5' } else if d == 6 { '6' } else if d == 7 { '7' }
    else if d == 8 { '8' } else { '9' }
}

/// The decimal numeral of `n`, without leading zeros.
pub open spec fn decimal(n: nat) -> Seq<char>
    decreases n,
{
    if n < 10 {
        seq![digit_char(n as int)]
    } else {
        decimal(n / 10).push(digit_char((n % 10) as int))
    }
}

/// Exactly `width` decimal digits of `n`, with leading zeros (`n < 10^width`).
pub open spec fn padded_digits(n: nat, width: nat) -> Seq<char>
    decreases width,
{
    if width == 0 {
        Seq::empty()
    } else {
        padded_digits(n / 10, (width - 1) as nat).push(digit_char((n % 10) as int))
    }
}

/// A fraction of `w` digits, `f`, with its trailing zero digits dropped: the remaining value
/// and digit count.
pub open spec fn strip_zeros(f: nat, w: nat) -> (nat, nat)
    decreases w,
{
    if w > 0 && f % 10 == 0 {
        strip_zeros(f / 10, (w - 1) as nat)
    } else {
        (f, w)
    }
}

/// The magnitude of a fixed-point value.
pub open spec fn magnitude(v: int) -> nat {
    if v < 0 { (-v) as nat } else { v as nat }
}

/// A fixed-point value as a decimal numeral: sign, whole part, and the fractional digits without
/// trailing zeros. A whole value prints with no point, or with `.0` when `point` is set (the
/// two conventions of Rust's `Display` and `Debug` for floats).
pub open spec fn fixed_text(v: int, point: bool) -> Seq<char> {
    let m = magnitude(v);
    let (f, w) = strip_zeros(m % (UNIT as nat), 6);
    let sign = if v < 0 { seq!['-'] } else { Seq::<char>::empty() };
    let tail = if w == 0 {
        if point { seq!['.', '0'] } else { Seq::<char>::empty() }
    } else {
        seq!['.'] + padded_digits(f, w)
    };
    sign + decimal(m / (UNIT as nat)) + tail
}

fn digit(d: u64) -> (c: char)
    requires
        d < 10,
    ensures
        c == digit_char(d as int),
{
    if d == 0 { '0' } else if d == 1 { '1' } else if d == 2 { '2' } else if d == 3 { '3' }
    else if d == 4 { '4' } else if d == 5 { '5' } else if d == 6 { '6' } else if d == 7 { '7' }
    else if d == 8 { '8' } else { '9' }
}

/// Appends the decimal numeral of `n` to `s`.
pub fn push_decimal(s: &mut String, n: u64)
    ensures
        final(s)@ == old(s)@ + decimal(n as nat),
    decreases n,
{
    if n >= 10 {
        push_decimal(s, n / 10);
    }
    push_char(s, digit(n % 10));
    proof {
        assert(final(s)@ =~= old(s)@ + decimal(n as nat));
    }
}

fn push_padded(s: &mut String, n: u64, width: u64)
    ensures
        final(s)@ == old(s)@ + padded_digits(n as nat, width as nat),
    decreases width,
{
    if width > 0 {
        push_padded(s, n / 10, width - 1);
        push_char(s, digit(n % 10));
        proof {
            assert(final(s)@ =~= old(s)@ + padded_digits(n as nat, width as nat));
        }
    } else {
        proof {
            assert(final(s)@ =~= old(s)@ + padded_digits(n as nat, width as nat));
        }
    }
}

/// The decimal numeral of `n` as a new string.
pub fn decimal_string(n: u64) -> (r: String)
    ensures
        r@ == decimal(n as nat),
{
    let mut s = String::new();
    push_decimal(&mut s, n);
    proof {
        assert(s@ =~= decimal(n as nat));
    }
    s
}

/// Appends the decimal text of a fixed-point value (see [`fixed_text`]).
pub fn push_fixed(s: &mut String, v: Fixed, point: bool)
    ensures
        final(s)@ == old(s)@ + fixed_text(v as int, point),
{
    let m: u64 = if v < 0 { (-(v as i128)) as u64 } else { v as u64 };
    let ghost start = s@;
    if v < 0 {
        push_char(s, '-');
    }
    push_decimal(s, m / (UNIT as u64));
    let mut f: u64 = m % (UNIT as u64);
    let mut w: u64 = 6;
    while w > 0 && f % 10 == 0
        invariant
            w <= 6,
            strip_zeros(f as nat, w as nat) == strip_zeros((m % (UNIT as u64)) as nat, 6),
        decreases w,
    {
        f = f / 10;
        w = w - 1;
    }
    if w == 0 {
        if point {
            push_char(s, '.');
            push_char(s, '0');
        }
    } else {
        push_char(s, '.');
        push_padded(s, f, w);
    }
    proof {
        let sign = if v < 0 { seq!['-'] } else { Seq::<char>::empty() };
        assert(magnitude(v as int) == m);
        assert(final(s)@ =~= start + fixed_text(v as int, point));
    }
}

} // verus!
