use vstd::prelude::*;

use crate::text::push_char;

verus! {

/// The decimal digit character for `d` (below ten).
pub open spec fn digit(d: nat) -> char {
    if d == 0 {
        '0'
    } else if d == 1 {
        '1'
    } else if d == 2 {
        '2'
    } else if d == 3 {
        '3'
    } else if d == 4 {
        '4'
    } else if d == 5 {
        '5'
    } else if d == 6 {
        '6'
    } else if d == 7 {
        '7'
    } else if d == 8 {
        '8'
    } else {
        '9'
    }
}

/// The decimal representation of `n`, without leading zeros.
pub open spec fn decimal(n: nat) -> Seq<char>
    decreases n,
{
    if n < 10 {
        seq![digit(n)]
    } else {
        decimal(n / 10).push(digit(n % 10))
    }
}

/// `k` space characters.
pub open spec fn spaces(k: nat) -> Seq<char> {
    Seq::new(k, |_i: int| ' ')
}

/// The width of the field in which a line number is right-aligned.
pub const FIELD_WIDTH: usize = 6;

/// `n` right-aligned in a field of `FIELD_WIDTH` characters; a wider number
/// takes the room it needs.
pub open spec fn number_field(n: nat) -> Seq<char> {
    let d = decimal(n);
    if d.len() < FIELD_WIDTH {
        spaces((FIELD_WIDTH - d.len()) as nat) + d
    } else {
        d
    }
}

/// The digit character for `d`.
pub fn digit_char(d: u64) -> (r: char)
    requires
        d < 10,
    ensures
        r == digit(d as nat),
{
    if d == 0 {
        '0'
    } else if d == 1 {
        '1'
    } else if d == 2 {
        '2'
    } else if d == 3 {
        '3'
    } else if d == 4 {
        '4'
    } else if d == 5 {
        '5'
    } else if d == 6 {
        '6'
    } else if d == 7 {
        '7'
    } else if d == 8 {
        '8'
    } else {
        '9'
    }
}

/// Appends the decimal representation of `n` to `out`.
pub fn push_decimal(out: &mut String, n: u64)
    ensures
        final(out)@ == old(out)@ + decimal(n as nat),
    decreases n,
{
    if n >= 10 {
        push_decimal(out, n / 10);
    }
    push_char(out, digit_char(n % 10));
    assert(out@ =~= old(out)@ + decimal(n as nat));
}

/// Formats `n` right-aligned in a field of six characters.
pub fn format_number(n: u64) -> (r: String)
    ensures
        r@ == number_field(n as nat),
{
    let mut digits = String::new();
    push_decimal(&mut digits, n);
    assert(digits@ =~= decimal(n as nat));
    let width = digits.as_str().unicode_len();
    let mut r = String::new();
    if width < FIELD_WIDTH {
        let pad: usize = FIELD_WIDTH - width;
        let mut i: usize = 0;
        while i < pad
            invariant
                i <= pad,
                r@ == spaces(i as nat),
            decreases pad - i,
        {
            push_char(&mut r, ' ');
            i = i + 1;
            assert(r@ =~= spaces(i as nat));
        }
    }
    r.append(digits.as_str());
    assert(r@ =~= number_field(n as nat));
    r
}

} // verus!
