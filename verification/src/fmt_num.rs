//! Decimal and hexadecimal rendering of unsigned integers, used by the
//! error messages of the codec and the transaction engine.

use vstd::prelude::*;

verus! {

/// The character for one decimal or hexadecimal digit (lower case).
pub open spec fn digit_char(d: nat) -> char
    recommends
        d < 16,
{
    if d < 10 {
        ((0x30 + d) as u8) as char
    } else {
        ((0x57 + d) as u8) as char
    }
}

/// The decimal rendering of a natural number, most significant digit first.
pub open spec fn spec_dec(n: nat) -> Seq<char>
    decreases n,
{
    if n < 10 {
        seq![digit_char(n)]
    } else {
        spec_dec(n / 10).push(digit_char(n % 10))
    }
}

/// The hexadecimal rendering of a natural number without leading zeros,
/// as the `{:x}` format of std renders it.
pub open spec fn spec_hex(n: nat) -> Seq<char>
    decreases n,
{
    if n < 16 {
        seq![digit_char(n)]
    } else {
        spec_hex(n / 16).push(digit_char(n % 16))
    }
}

/// The hexadecimal rendering of a 16-bit value padded to four digits,
/// as the `{:04x}` format of std renders it.
pub open spec fn spec_hex4(n: u16) -> Seq<char> {
    seq![
        digit_char((n >> 12) as nat % 16),
        digit_char((n >> 8) as nat % 16),
        digit_char((n >> 4) as nat % 16),
        digit_char(n as nat % 16),
    ]
}

fn digit(d: u8) -> (c: char)
    requires
        d < 16,
    ensures
        c == digit_char(d as nat),
{
    if d < 10 {
        (0x30 + d) as char
    } else {
        (0x57 + d) as char
    }
}

/// Renders a number in decimal.
pub fn u64_dec(n: u64) -> (r: String)
    ensures
        r@ == spec_dec(n as nat),
    decreases n,
{
    if n < 10 {
        let mut s = String::new();
        s.push(digit(n as u8));
        s
    } else {
        let mut s = u64_dec(n / 10);
        s.push(digit((n % 10) as u8));
        s
    }
}

/// Renders a number in hexadecimal without leading zeros.
pub fn u64_hex(n: u64) -> (r: String)
    ensures
        r@ == spec_hex(n as nat),
    decreases n,
{
    if n < 16 {
        let mut s = String::new();
        s.push(digit(n as u8));
        s
    } else {
        let mut s = u64_hex(n / 16);
        s.push(digit((n % 16) as u8));
        s
    }
}

/// Renders a 16-bit value as four hexadecimal digits.
pub fn u16_hex4(n: u16) -> (r: String)
    ensures
        r@ == spec_hex4(n),
{
    let mut s = String::new();
    s.push(digit(((n >> 12) % 16) as u8));
    s.push(digit(((n >> 8) % 16) as u8));
    s.push(digit(((n >> 4) % 16) as u8));
    s.push(digit((n % 16) as u8));
    proof {
        assert(s@ =~= spec_hex4(n));
    }
    s
}

} // verus!
