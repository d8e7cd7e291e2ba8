//! Decimal rendering of integers.
use vstd::prelude::*;
use crate::strings::{push_char, push_text};

verus! {

/// The decimal digit for a value below ten.
pub open spec fn digit_char(d: int) -> char {
    ((d + 48) as u8) as char
}

/// The decimal digits of a natural number, without leading zeros ("0" for zero).
pub open spec fn nat_digits(n: nat) -> Seq<char>
    decreases n,
{
    if n < 10 {
        seq![digit_char(n as int)]
    } else {
        nat_digits(n / 10) + seq![digit_char((n % 10) as int)]
    }
}

/// The decimal text of an integer, with a leading `-` when negative.
pub open spec fn int_digits(i: int) -> Seq<char> {
    if i < 0 {
        seq!['-'] + nat_digits((-i) as nat)
    } else {
        nat_digits(i as nat)
    }
}

/// The digits of `n`, with zeros put in front up to `width` characters.
pub open spec fn padded_digits(n: nat, width: nat) -> Seq<char> {
    let d = nat_digits(n);
    if d.len() >= width {
        d
    } else {
        Seq::new((width - d.len()) as nat, |i: int| '0') + d
    }
}

fn digit(d: u64) -> (c: char)
    requires
        d < 10,
    ensures
        c == digit_char(d as int),
{
    let b: u8 = (d as u8) + 48;
    b as char
}

/// The decimal digits of an unsigned number.
pub fn nat_text(n: u64) -> (r: String)
    ensures
        r@ == nat_digits(n as nat),
    decreases n,
{
    if n < 10 {
        let mut r = String::new();
        push_char(&mut r, digit(n));
        assert(r@ =~= nat_digits(n as nat));
        r
    } else {
        let mut r = nat_text(n / 10);
        push_char(&mut r, digit(n % 10));
        r
    }
}

/// The decimal text of a signed number.
pub fn int_text(i: i64) -> (r: String)
    ensures
        r@ == int_digits(i as int),
{
    if i < 0 {
        let m: u64 = if i == i64::MIN {
            9223372036854775808u64
        } else {
            (-i) as u64
        };
        let d = nat_text(m);
        let mut r = String::new();
        push_char(&mut r, '-');
        push_text(&mut r, d.as_str());
        assert(r@ =~= int_digits(i as int));
        r
    } else {
        nat_text(i as u64)
    }
}

/// The digits of `n` padded with zeros to at least `width` characters.
pub fn padded_text(n: u64, width: usize) -> (r: String)
    ensures
        r@ == padded_digits(n as nat, width as nat),
{
    let d = nat_text(n);
    let len = d.as_str().unicode_len();
    if len >= width {
        d
    } else {
        let mut r = String::new();
        let mut k: usize = 0;
        while k < width - len
            invariant
                k <= width - len,
                len < width,
                r@ == Seq::new(k as nat, |i: int| '0'),
            decreases width - len - k,
        {
            push_char(&mut r, '0');
            assert(r@ =~= Seq::new((k + 1) as nat, |i: int| '0'));
            k = k + 1;
        }
        push_text(&mut r, d.as_str());
        assert(r@ =~= padded_digits(n as nat, width as nat));
        r
    }
}

} // verus!
