//! Building text: characters appended to a `String`, and numbers written in
//! decimal.

use vstd::prelude::*;

verus! {

/// `String::push` appends one character to the end of the string.
pub assume_specification[ String::push ](text: &mut String, ch: char)
    ensures
        final(text)@ == old(text)@.push(ch),
;

/// The character of the decimal digit `d`.
pub open spec fn digit(d: nat) -> char {
    if d == 0 {
        '0'
    } else if d == 1 {
        '1'
    } else if d == 2 {
        '2'
    } else if d == 3 {
        '3'
    } else if d == 4 {
        '4'
    } else if d == 5 {
        '5'
    } else if d == 6 {
        '6'
    } else if d == 7 {
        '7'
    } else if d == 8 {
        '8'
    } else {
        '9'
    }
}

/// `n` in decimal, without leading zeros.
pub open spec fn decimal(n: nat) -> Seq<char>
    decreases n,
{
    if n < 10 {
        seq![digit(n)]
    } else {
        decimal(n / 10).push(digit(n % 10))
    }
}

/// `count` zeros.
pub open spec fn zeros(count: nat) -> Seq<char> {
    Seq::new(count, |i: int| '0')
}

/// `n` in decimal, filled with zeros on the left up to `width` characters;
/// longer numbers are not cut.
pub open spec fn padded_decimal(n: nat, width: nat) -> Seq<char> {
    let digits = decimal(n);
    if digits.len() >= width {
        digits
    } else {
        zeros((width - digits.len()) as nat) + digits
    }
}

/// The digits after the decimal point of `frac / 10^width`, without trailing
/// zeros; empty when `frac` is zero.
pub open spec fn fraction(frac: nat, width: nat) -> Seq<char>
    decreases frac,
{
    if frac == 0 {
        Seq::empty()
    } else if frac % 10 == 0 {
        fraction(frac / 10, (width - 1) as nat)
    } else {
        padded_decimal(frac, width)
    }
}

/// Ten to the power `exponent`.
pub open spec fn pow10(exponent: nat) -> nat
    decreases exponent,
{
    if exponent == 0 {
        1
    } else {
        10 * pow10((exponent - 1) as nat)
    }
}

fn digit_char(d: u8) -> (ch: char)
    requires
        d < 10,
    ensures
        ch == digit(d as nat),
{
    if d == 0 {
        '0'
    } else if d == 1 {
        '1'
    } else if d == 2 {
        '2'
    } else if d == 3 {
        '3'
    } else if d == 4 {
        '4'
    } else if d == 5 {
        '5'
    } else if d == 6 {
        '6'
    } else if d == 7 {
        '7'
    } else if d == 8 {
        '8'
    } else {
        '9'
    }
}

/// Appends `n` in decimal.
pub fn push_decimal(text: &mut String, n: u128)
    ensures
        final(text)@ == old(text)@ + decimal(n as nat),
    decreases n,
{
    if n >= 10 {
        push_decimal(text, n / 10);
    }
    text.push(digit_char((n % 10) as u8));
}

/// Number of digits of `n` in decimal.
fn decimal_len(n: u128) -> (len: usize)
    ensures
        len == decimal(n as nat).len(),
        1 <= len <= 39,
{
    let mut rest: u128 = n;
    let mut len: usize = 1;
    proof {
        let unit = pow10(0);
        assert(unit == 1);
        assert(rest * unit == n) by (nonlinear_arith)
            requires
                unit == 1,
                rest == n,
        ;
    }
    while rest >= 10
        invariant
            1 <= len,
            len + decimal(rest as nat).len() == decimal(n as nat).len() + 1,
            rest * pow10((len - 1) as nat) <= n,
            len <= 39,
        decreases rest,
    {
        proof {
            lemma_pow10_bound(rest, len, n);
        }
        rest = rest / 10;
        len = len + 1;
    }
    len
}

/// A number with a digit to spare below `n` has fewer than 39 places.
proof fn lemma_pow10_bound(rest: u128, len: usize, n: u128)
    requires
        rest >= 10,
        1 <= len <= 39,
        rest * pow10((len - 1) as nat) <= n,
    ensures
        len < 39,
        (rest / 10) * pow10(len as nat) <= n,
{
    reveal_with_fuel(pow10, 40);
    let p = pow10((len - 1) as nat);
    assert(pow10(len as nat) == 10 * p);
    assert((rest / 10) * (10 * p) <= rest * p) by (nonlinear_arith)
        requires
            rest >= 0,
            p >= 0,
    ;
    assert((rest / 10) * pow10(len as nat) <= n);
    if len == 39 {
        assert(p == pow10(38));
        assert(10 * p <= rest * p) by (nonlinear_arith)
            requires
                rest >= 10,
                p >= 0,
        ;
    }
}

/// Appends `n` in decimal, filled with zeros on the left up to `width`
/// characters.
pub fn push_padded(text: &mut String, n: u128, width: usize)
    ensures
        final(text)@ == old(text)@ + padded_decimal(n as nat, width as nat),
{
    let len = decimal_len(n);
    let mut written: usize = len;
    let ghost start = text@;
    while written < width
        invariant
            len <= written,
            written <= width || written == len,
            text@ == start + zeros((written - len) as nat),
        decreases width - written,
    {
        text.push('0');
        written = written + 1;
        assert(zeros((written - len) as nat) == zeros((written - 1 - len) as nat).push('0'));
    }
    assert(zeros(0) == Seq::<char>::empty());
    push_decimal(text, n);
}

} // verus!
