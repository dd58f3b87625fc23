//! The textual form of an IPv4 address: four decimal numbers and three dots.

use vstd::prelude::*;
use vstd::string::StringExecFns;

verus! {

/// The character that stands for a digit from 0 to 9.
pub open spec fn digit(d: int) -> char {
    if d == 0 {
        '0'
    } else if d == 1 {
        '1'
    } else if d == 2 {
        '2'
    } else if d == 3 {
        '3'
    } else if d == 4 {
        '4'
    } else if d == 5 {
        '5'
    } else if d == 6 {
        '6'
    } else if d == 7 {
        '7'
    } else if d == 8 {
        '8'
    } else {
        '9'
    }
}

/// A byte in decimal notation, without leading zeros.
pub open spec fn decimal(b: u8) -> Seq<char> {
    if b < 10 {
        seq![digit(b as int)]
    } else if b < 100 {
        seq![digit(b as int / 10), digit(b as int % 10)]
    } else {
        seq![digit(b as int / 100), digit(b as int / 10 % 10), digit(b as int % 10)]
    }
}

/// Four octets in dot-decimal notation, such as `192.168.1.5`.
pub open spec fn dotted_decimal(octets: Seq<u8>) -> Seq<char>
    recommends
        octets.len() == 4,
{
    decimal(octets[0]) + seq!['.'] + decimal(octets[1]) + seq!['.'] + decimal(octets[2])
        + seq!['.'] + decimal(octets[3])
}

fn digit_str(d: u8) -> (s: &'static str)
    requires
        d < 10,
    ensures
        s@ == seq![digit(d as int)],
{
    proof {
        reveal_strlit("0");
        reveal_strlit("1");
        reveal_strlit("2");
        reveal_strlit("3");
        reveal_strlit("4");
        reveal_strlit("5");
        reveal_strlit("6");
        reveal_strlit("7");
        reveal_strlit("8");
        reveal_strlit("9");
    }
    if d == 0 {
        "0"
    } else if d == 1 {
        "1"
    } else if d == 2 {
        "2"
    } else if d == 3 {
        "3"
    } else if d == 4 {
        "4"
    } else if d == 5 {
        "5"
    } else if d == 6 {
        "6"
    } else if d == 7 {
        "7"
    } else if d == 8 {
        "8"
    } else {
        "9"
    }
}

fn push_decimal(out: &mut String, b: u8)
    ensures
        final(out)@ == old(out)@ + decimal(b),
{
    if b >= 100 {
        out.append(digit_str(b / 100));
    }
    if b >= 10 {
        out.append(digit_str(b / 10 % 10));
    }
    out.append(digit_str(b % 10));
}

fn push_dot(out: &mut String)
    ensures
        final(out)@ == old(out)@ + seq!['.'],
{
    proof {
        reveal_strlit(".");
    }
    out.append(".");
}

/// The address with the given octets in dot-decimal notation.
pub fn ipv4_text(octets: &[u8; 4]) -> (s: String)
    ensures
        s@ == dotted_decimal(octets@),
{
    let mut s = String::new();
    push_decimal(&mut s, octets[0]);
    push_dot(&mut s);
    push_decimal(&mut s, octets[1]);
    push_dot(&mut s);
    push_decimal(&mut s, octets[2]);
    push_dot(&mut s);
    push_decimal(&mut s, octets[3]);
    s
}

} // verus!
