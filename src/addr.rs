//! IPv4 addresses as 32-bit integers, and their dotted-decimal text.
use vstd::prelude::*;
use crate::wire::be32;

verus! {

/// The address `a1.a2.a3.a4`.
pub fn ip(a1: u8, a2: u8, a3: u8, a4: u8) -> (r: u32)
    ensures
        r as int == be32(a1, a2, a3, a4),
{
    (a1 as u32) * 0x100_0000 + (a2 as u32) * 0x1_0000 + (a3 as u32) * 0x100 + (a4 as u32)
}

/// The decimal digit `d` as a character.
pub open spec fn digit(d: u8) -> char {
    ((d + 48) as u8) as char
}

/// The decimal text of `n`, without leading zeros.
pub open spec fn dec(n: u8) -> Seq<char> {
    if n >= 100 {
        seq![digit(n / 100), digit((n / 10) % 10), digit(n % 10)]
    } else if n >= 10 {
        seq![digit(n / 10), digit(n % 10)]
    } else {
        seq![digit(n)]
    }
}

/// The dotted-decimal text of the address `a`, most significant octet first.
pub open spec fn dotted(a: u32) -> Seq<char> {
    dec((a / 0x100_0000) as u8) + seq!['.'] + dec(((a / 0x1_0000) % 256) as u8) + seq!['.'] + dec(
        ((a / 0x100) % 256) as u8,
    ) + seq!['.'] + dec((a % 256) as u8)
}

/// Relies on `String::push`: appends one character.
#[verifier::external_body]
fn push_char(s: &mut String, c: char)
    ensures
        final(s)@ == old(s)@.push(c),
{
    s.push(c)
}

/// Appends the decimal text of `n`.
fn push_dec(s: &mut String, n: u8)
    ensures
        final(s)@ == old(s)@ + dec(n),
{
    if n >= 100 {
        push_char(s, ((n / 100) + 48) as char);
    }
    if n >= 10 {
        push_char(s, ((n / 10) % 10 + 48) as char);
    }
    push_char(s, (n % 10 + 48) as char);
    assert(s@ =~= old(s)@ + dec(n));
}

/// The address `ip` as dotted-decimal text, such as `10.0.2.15`.
pub fn iptostr(ip: u32) -> (r: String)
    ensures
        r@ == dotted(ip),
{
    let mut s = String::new();
    push_dec(&mut s, (ip / 0x100_0000) as u8);
    push_char(&mut s, '.');
    push_dec(&mut s, ((ip / 0x1_0000) % 256) as u8);
    push_char(&mut s, '.');
    push_dec(&mut s, ((ip / 0x100) % 256) as u8);
    push_char(&mut s, '.');
    push_dec(&mut s, (ip % 256) as u8);
    assert(s@ =~= dotted(ip));
    s
}

} // verus!
