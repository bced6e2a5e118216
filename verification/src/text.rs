//! Decimal rendering of small numbers, as the printed form of a date needs it.

use vstd::prelude::*;

verus! {

/// `String::push` of std appends the one character to the end of the string.
pub assume_specification[ String::push ](s: &mut String, c: char)
    ensures
        final(s)@ == old(s)@.push(c),
;

/// `String::push_str` of std appends the characters of the slice, in order, to
/// the end of the string.
pub assume_specification[ String::push_str ](s: &mut String, other: &str)
    ensures
        final(s)@ == old(s)@ + other@,
;

/// The character of the decimal digit `d`.
pub open spec fn digit(d: int) -> char {
    if d == 0 {
        '0'
    } else if d == 1 {
        '1'
    } else if d == 2 {
        '2'
    } else if d == 3 {
        '3'
    } else if d == 4 {
        '4'
    } else if d == 5 {
        '5'
    } else if d == 6 {
        '6'
    } else if d == 7 {
        '7'
    } else if d == 8 {
        '8'
    } else {
        '9'
    }
}

/// The decimal digits of `n`, most significant first, without leading zeros.
pub open spec fn decimal(n: nat) -> Seq<char>
    decreases n,
{
    if n < 10 {
        seq![digit(n as int)]
    } else {
        decimal(n / 10).push(digit((n % 10) as int))
    }
}

/// `n` in decimal, with zeros in front where it has fewer than `width` digits.
pub open spec fn zero_padded(n: nat, width: nat) -> Seq<char> {
    let digits = decimal(n);
    if digits.len() >= width {
        digits
    } else {
        Seq::new((width - digits.len()) as nat, |i: int| '0') + digits
    }
}

/// The character of the decimal digit `d`.
fn digit_char(d: u16) -> (c: char)
    requires
        d < 10,
    ensures
        c == digit(d as int),
{
    if d == 0 {
        '0'
    } else if d == 1 {
        '1'
    } else if d == 2 {
        '2'
    } else if d == 3 {
        '3'
    } else if d == 4 {
        '4'
    } else if d == 5 {
        '5'
    } else if d == 6 {
        '6'
    } else if d == 7 {
        '7'
    } else if d == 8 {
        '8'
    } else {
        '9'
    }
}

/// Number of decimal digits of `n`.
fn digit_count(n: u16) -> (count: u8)
    ensures
        count == decimal(n as nat).len(),
        1 <= count <= 5,
{
    proof {
        reveal_with_fuel(decimal, 6);
    }
    if n < 10 {
        1
    } else if n < 100 {
        2
    } else if n < 1000 {
        3
    } else if n < 10000 {
        4
    } else {
        5
    }
}

/// Appends the decimal digits of `n` to `out`.
fn push_decimal(out: &mut String, n: u16)
    ensures
        final(out)@ == old(out)@ + decimal(n as nat),
    decreases n,
{
    if n >= 10 {
        push_decimal(out, n / 10);
    }
    out.push(digit_char(n % 10));
    assert(out@ =~= old(out)@ + decimal(n as nat));
}

/// Appends `n` in decimal to `out`, filled up with zeros in front to at least
/// `width` characters.
pub fn push_zero_padded(out: &mut String, n: u16, width: u8)
    ensures
        final(out)@ == old(out)@ + zero_padded(n as nat, width as nat),
{
    let count: u8 = digit_count(n);
    let mut written: u8 = count;
    while written < width
        invariant
            count <= written,
            written <= width || written == count,
            out@ == old(out)@ + Seq::new((written - count) as nat, |i: int| '0'),
        decreases width - written,
    {
        out.push('0');
        written = written + 1;
        assert(out@ =~= old(out)@ + Seq::new((written - count) as nat, |i: int| '0'));
    }
    assert(out@ =~= old(out)@ + Seq::new((written - count) as nat, |i: int| '0'));
    push_decimal(out, n);
    assert(out@ =~= old(out)@ + zero_padded(n as nat, width as nat));
}

} // verus!
