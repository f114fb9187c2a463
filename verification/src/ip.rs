//! IP address literals: the library's own model of a listen host.
//!
//! The installer only ever reads a host as the four octets or eight groups
//! of an address, so the model holds exactly those plain values.

use vstd::prelude::*;

use crate::text::{dec_string, hex_digit_char, spec_dec};

verus! {

/// A validated listen host: an IPv4 or IPv6 address.
#[derive(Clone, Copy, Debug, PartialEq, Eq, Structural)]
pub enum IpAddr {
    V4(u8, u8, u8, u8),
    V6(u16, u16, u16, u16, u16, u16, u16, u16),
}

/// The usual hexadecimal rendering of a non-negative integer, lower case,
/// no leading zeros.
pub open spec fn spec_hex16(n: int) -> Seq<char>
    decreases n,
{
    if n < 16 {
        seq![hex_digit_char(n)]
    } else {
        spec_hex16(n / 16) + seq![hex_digit_char(n % 16)]
    }
}

/// The rendering of an address: dotted decimal octets for IPv4;
/// colon-separated lower-case hex groups, none elided, for IPv6.
pub open spec fn spec_ip_str(ip: IpAddr) -> Seq<char> {
    match ip {
        IpAddr::V4(a, b, c, d) => spec_dec(a as int) + "."@ + spec_dec(b as int) + "."@
            + spec_dec(c as int) + "."@ + spec_dec(d as int),
        IpAddr::V6(g0, g1, g2, g3, g4, g5, g6, g7) => spec_hex16(g0 as int) + ":"@ + spec_hex16(
            g1 as int,
        ) + ":"@ + spec_hex16(g2 as int) + ":"@ + spec_hex16(g3 as int) + ":"@ + spec_hex16(
            g4 as int,
        ) + ":"@ + spec_hex16(g5 as int) + ":"@ + spec_hex16(g6 as int) + ":"@ + spec_hex16(
            g7 as int,
        ),
    }
}

/// One hex digit as a string.
fn hex_digit_str(d: u16) -> (r: &'static str)
    requires
        d < 16,
    ensures
        r@ =~= seq![hex_digit_char(d as int)],
{
    proof {
        reveal_strlit("0");
        reveal_strlit("1");
        reveal_strlit("2");
        reveal_strlit("3");
        reveal_strlit("4");
        reveal_strlit("5");
        reveal_strlit("6");
        reveal_strlit("7");
        reveal_strlit("8");
        reveal_strlit("9");
        reveal_strlit("a");
        reveal_strlit("b");
        reveal_strlit("c");
        reveal_strlit("d");
        reveal_strlit("e");
        reveal_strlit("f");
    }
    match d {
        0 => "0",
        1 => "1",
        2 => "2",
        3 => "3",
        4 => "4",
        5 => "5",
        6 => "6",
        7 => "7",
        8 => "8",
        9 => "9",
        10 => "a",
        11 => "b",
        12 => "c",
        13 => "d",
        14 => "e",
        _ => "f",
    }
}

/// Renders `n` in lower-case hexadecimal.
pub fn hex16_string(n: u16) -> (r: String)
    ensures
        r@ == spec_hex16(n as int),
    decreases n,
{
    if n < 16 {
        String::from_str(hex_digit_str(n))
    } else {
        let mut s = hex16_string(n / 16);
        s.append(hex_digit_str(n % 16));
        s
    }
}

/// Renders the address as [`spec_ip_str`] gives it.
pub fn ip_to_string(ip: &IpAddr) -> (r: String)
    ensures
        r@ == spec_ip_str(*ip),
{
    match ip {
        IpAddr::V4(a, b, c, d) => {
            let mut s = dec_string(*a as u64);
            s.append(".");
            s.append(dec_string(*b as u64).as_str());
            s.append(".");
            s.append(dec_string(*c as u64).as_str());
            s.append(".");
            s.append(dec_string(*d as u64).as_str());
            s
        },
        IpAddr::V6(g0, g1, g2, g3, g4, g5, g6, g7) => {
            let mut s = hex16_string(*g0);
            s.append(":");
            s.append(hex16_string(*g1).as_str());
            s.append(":");
            s.append(hex16_string(*g2).as_str());
            s.append(":");
            s.append(hex16_string(*g3).as_str());
            s.append(":");
            s.append(hex16_string(*g4).as_str());
            s.append(":");
            s.append(hex16_string(*g5).as_str());
            s.append(":");
            s.append(hex16_string(*g6).as_str());
            s.append(":");
            s.append(hex16_string(*g7).as_str());
            s
        },
    }
}

} // verus!
