//! Parsing IP address literals.
//!
//! The grammar is the usual one: dotted decimal for IPv4 (four octets,
//! each at most 255, no leading zeros); colon-separated hex groups for
//! IPv6 with at most one `::` elision and an optional embedded IPv4
//! tail.  The spec functions define the grammar as a deterministic
//! recursive-descent parse; the executable functions mirror them exactly.

use vstd::prelude::*;

use crate::errors::XunleiError;
use crate::ip::IpAddr;
use crate::validate::{digit_val, is_digit};

verus! {

/// Whether the character is a hexadecimal digit.
pub open spec fn is_hex(c: char) -> bool {
    is_digit(c) || 97 <= c as int <= 102 || 65 <= c as int <= 70
}

/// The numeric value of a hexadecimal digit character.
pub open spec fn hex_val(c: char) -> int {
    if is_digit(c) {
        c as int - 48
    } else if 97 <= c as int {
        c as int - 87
    } else {
        c as int - 55
    }
}

/// The value of one hexadecimal digit, or `None` if the character is
/// none.
fn hex_digit_of(c: char) -> (r: Option<u16>)
    ensures
        match r {
            Some(v) => is_hex(c) && v as int == hex_val(c) && v < 16,
            None => !is_hex(c),
        },
{
    let v = c as u32;
    if 48 <= v && v <= 57 {
        Some((v - 48) as u16)
    } else if 97 <= v && v <= 102 {
        Some((v - 87) as u16)
    } else if 65 <= v && v <= 70 {
        Some((v - 55) as u16)
    } else {
        None
    }
}

/// One decimal octet at `i`: up to three digits, greedy, no leading
/// zero (a single `0` stands alone), value at most 255.  Yields the
/// value and the position after it.
pub open spec fn sp_octet(s: Seq<char>, i: int) -> Option<(int, int)> {
    if 0 <= i < s.len() && is_digit(s[i]) {
        if s[i] == '0' {
            Some((0, i + 1))
        } else {
            let d0 = digit_val(s[i]);
            if i + 1 < s.len() && is_digit(s[i + 1]) {
                let d1 = d0 * 10 + digit_val(s[i + 1]);
                if i + 2 < s.len() && is_digit(s[i + 2]) {
                    let d2 = d1 * 10 + digit_val(s[i + 2]);
                    if d2 <= 255 {
                        Some((d2, i + 3))
                    } else {
                        None
                    }
                } else {
                    Some((d1, i + 2))
                }
            } else {
                Some((d0, i + 1))
            }
        }
    } else {
        None
    }
}

fn ex_octet(s: &str, i: usize, n: usize) -> (r: Option<(u8, usize)>)
    requires
        n == s@.len(),
        i <= n,
    ensures
        match r {
            Some((v, j)) => sp_octet(s@, i as int) == Some((v as int, j as int)) && i < j <= n,
            None => sp_octet(s@, i as int) is None,
        },
{
    if i < n {
        let c = s.get_char(i);
        let cv = c as u32;
        if 48 <= cv && cv <= 57 {
            if cv == 48 {
                return Some((0, i + 1));
            }
            let d0 = cv - 48;
            if i + 1 < n {
                let c1 = s.get_char(i + 1) as u32;
                if 48 <= c1 && c1 <= 57 {
                    let d1 = d0 * 10 + (c1 - 48);
                    if i + 2 < n {
                        let c2 = s.get_char(i + 2) as u32;
                        if 48 <= c2 && c2 <= 57 {
                            let d2 = d1 * 10 + (c2 - 48);
                            if d2 <= 255 {
                                return Some((d2 as u8, i + 3));
                            } else {
                                return None;
                            }
                        }
                    }
                    return Some((d1 as u8, i + 2));
                }
            }
            return Some((d0 as u8, i + 1));
        }
        return None;
    }
    None
}

/// A full dotted-decimal IPv4 literal spanning `[i, end)`.
pub open spec fn sp_v4_at(s: Seq<char>, i: int, end: int) -> Option<(int, int, int, int)> {
    match sp_octet(s, i) {
        None => None,
        Some((a, i1)) => if i1 < end && s[i1] == '.' {
            match sp_octet(s, i1 + 1) {
                None => None,
                Some((b, i2)) => if i2 < end && s[i2] == '.' {
                    match sp_octet(s, i2 + 1) {
                        None => None,
                        Some((c, i3)) => if i3 < end && s[i3] == '.' {
                            match sp_octet(s, i3 + 1) {
                                None => None,
                                Some((d, i4)) => if i4 == end {
                                    Some((a, b, c, d))
                                } else {
                                    None
                                },
                            }
                        } else {
                            None
                        },
                    }
                } else {
                    None
                },
            }
        } else {
            None
        },
    }
}

fn ex_v4_at(s: &str, i: usize, end: usize) -> (r: Option<(u8, u8, u8, u8)>)
    requires
        end <= s@.len(),
        i <= end,
    ensures
        match r {
            Some((a, b, c, d)) => sp_v4_at(s@, i as int, end as int) == Some(
                (a as int, b as int, c as int, d as int),
            ),
            None => sp_v4_at(s@, i as int, end as int) is None,
        },
{
    let n = s.unicode_len();
    if let Some((a, i1)) = ex_octet(s, i, n) {
        if i1 < end && s.get_char(i1) == '.' {
            if let Some((b, i2)) = ex_octet(s, i1 + 1, n) {
                if i2 < end && s.get_char(i2) == '.' {
                    if let Some((c, i3)) = ex_octet(s, i2 + 1, n) {
                        if i3 < end && s.get_char(i3) == '.' {
                            if let Some((d, i4)) = ex_octet(s, i3 + 1, n) {
                                if i4 == end {
                                    return Some((a, b, c, d));
                                }
                            }
                        }
                    }
                }
            }
        }
    }
    None
}

/// One hexadecimal group at `i`: one to four hex digits, greedy.
pub open spec fn sp_group(s: Seq<char>, i: int) -> Option<(int, int)> {
    if 0 <= i < s.len() && is_hex(s[i]) {
        let v0 = hex_val(s[i]);
        if i + 1 < s.len() && is_hex(s[i + 1]) {
            let v1 = v0 * 16 + hex_val(s[i + 1]);
            if i + 2 < s.len() && is_hex(s[i + 2]) {
                let v2 = v1 * 16 + hex_val(s[i + 2]);
                if i + 3 < s.len() && is_hex(s[i + 3]) {
                    Some((v2 * 16 + hex_val(s[i + 3]), i + 4))
                } else {
                    Some((v2, i + 3))
                }
            } else {
                Some((v1, i + 2))
            }
        } else {
            Some((v0, i + 1))
        }
    } else {
        None
    }
}

fn ex_group(s: &str, i: usize, n: usize) -> (r: Option<(u16, usize)>)
    requires
        n == s@.len(),
        i <= n,
    ensures
        match r {
            Some((v, j)) => sp_group(s@, i as int) == Some((v as int, j as int)) && i < j <= n,
            None => sp_group(s@, i as int) is None,
        },
{
    if i < n {
        if let Some(v0) = hex_digit_of(s.get_char(i)) {
            if i + 1 < n {
                if let Some(h1) = hex_digit_of(s.get_char(i + 1)) {
                    let v1 = v0 * 16 + h1;
                    if i + 2 < n {
                        if let Some(h2) = hex_digit_of(s.get_char(i + 2)) {
                            let v2 = v1 * 16 + h2;
                            if i + 3 < n {
                                if let Some(h3) = hex_digit_of(s.get_char(i + 3)) {
                                    return Some((v2 * 16 + h3, i + 4));
                                }
                            }
                            return Some((v2, i + 3));
                        }
                    }
                    return Some((v1, i + 2));
                }
            }
            return Some((v0, i + 1));
        }
        return None;
    }
    None
}

/// The group values of a `:`-separated list spanning `[i, end)`; the
/// final element may be an embedded IPv4 literal (two groups) when
/// `allow_v4` holds.  `fuel` bounds the recursion; nine levels cover
/// every list short enough to be part of an address.
pub open spec fn sp_groups(
    s: Seq<char>,
    i: int,
    end: int,
    allow_v4: bool,
    fuel: nat,
) -> Option<Seq<int>>
    decreases fuel,
{
    if fuel == 0 {
        None
    } else {
        match sp_group(s, i) {
            None => None,
            Some((g, j)) => if j == end {
                Some(seq![g])
            } else if j < end && s[j] == ':' {
                match sp_groups(s, j + 1, end, allow_v4, (fuel - 1) as nat) {
                    None => None,
                    Some(rest) => Some(seq![g] + rest),
                }
            } else if allow_v4 && j < end && s[j] == '.' {
                match sp_v4_at(s, i, end) {
                    None => None,
                    Some((a, b, c, d)) => Some(seq![a * 256 + b, c * 256 + d]),
                }
            } else {
                None
            },
        }
    }
}

/// The integer values of a group vector.
pub open spec fn groups_int(v: Seq<u16>) -> Seq<int> {
    v.map_values(|x: u16| x as int)
}

fn prepend_u16(g: u16, rest: &Vec<u16>) -> (r: Vec<u16>)
    ensures
        r@ == seq![g] + rest@,
{
    let mut r: Vec<u16> = Vec::new();
    r.push(g);
    let n = rest.len();
    let mut i: usize = 0;
    while i < n
        invariant
            i <= n,
            n == rest@.len(),
            r@ == seq![g] + rest@.take(i as int),
        decreases n - i,
    {
        r.push(rest[i]);
        assert(r@ =~= seq![g] + rest@.take(i + 1 as int));
        i += 1;
    }
    assert(r@ =~= seq![g] + rest@);
    r
}

fn ex_groups(s: &str, i: usize, end: usize, allow_v4: bool, fuel: u8) -> (r: Option<Vec<u16>>)
    requires
        end <= s@.len(),
        i <= end,
    ensures
        match r {
            Some(v) => sp_groups(s@, i as int, end as int, allow_v4, fuel as nat) == Some(
                groups_int(v@),
            ),
            None => sp_groups(s@, i as int, end as int, allow_v4, fuel as nat) is None,
        },
    decreases fuel,
{
    if fuel == 0 {
        return None;
    }
    let n = s.unicode_len();
    match ex_group(s, i, n) {
        None => None,
        Some((g, j)) => {
            if j == end {
                let mut v: Vec<u16> = Vec::new();
                v.push(g);
                assert(groups_int(v@) =~= seq![g as int]);
                Some(v)
            } else if j < end && s.get_char(j) == ':' {
                match ex_groups(s, j + 1, end, allow_v4, fuel - 1) {
                    None => None,
                    Some(rest) => {
                        let v = prepend_u16(g, &rest);
                        assert(groups_int(v@) =~= seq![g as int] + groups_int(rest@));
                        Some(v)
                    },
                }
            } else if allow_v4 && j < end && s.get_char(j) == '.' {
                match ex_v4_at(s, i, end) {
                    None => None,
                    Some((a, b, c, d)) => {
                        let mut v: Vec<u16> = Vec::new();
                        v.push((a as u16) * 256 + (b as u16));
                        v.push((c as u16) * 256 + (d as u16));
                        assert(groups_int(v@) =~= seq![
                            (a as int) * 256 + b as int,
                            (c as int) * 256 + d as int,
                        ]);
                        Some(v)
                    },
                }
            } else {
                None
            }
        },
    }
}

/// The position of the first `::`, if any.
pub open spec fn sp_find_dc(s: Seq<char>, i: int) -> Option<int>
    decreases s.len() - i,
{
    if i < 0 || i + 2 > s.len() {
        None
    } else if s[i] == ':' && s[i + 1] == ':' {
        Some(i)
    } else {
        sp_find_dc(s, i + 1)
    }
}

fn ex_find_dc(s: &str, i: usize, n: usize) -> (r: Option<usize>)
    requires
        n == s@.len(),
        i <= n,
    ensures
        match r {
            Some(j) => sp_find_dc(s@, i as int) == Some(j as int) && i <= j && j + 2 <= n,
            None => sp_find_dc(s@, i as int) is None,
        },
    decreases n - i,
{
    if i >= n {
        return None;
    }
    if i + 1 >= n {
        return None;
    }
    if s.get_char(i) == ':' && s.get_char(i + 1) == ':' {
        Some(i)
    } else {
        ex_find_dc(s, i + 1, n)
    }
}

/// The address an IPv6 group sequence of length eight denotes.
pub open spec fn v6_of(gs: Seq<int>) -> IpAddr {
    IpAddr::V6(
        gs[0] as u16,
        gs[1] as u16,
        gs[2] as u16,
        gs[3] as u16,
        gs[4] as u16,
        gs[5] as u16,
        gs[6] as u16,
        gs[7] as u16,
    )
}

/// A full IPv6 literal: without `::` exactly eight groups; with one
/// `::`, at most seven groups around it and zeros filled in between.
pub open spec fn sp_v6(s: Seq<char>) -> Option<IpAddr> {
    let len = s.len() as int;
    match sp_find_dc(s, 0) {
        None => match sp_groups(s, 0, len, true, 9) {
            None => None,
            Some(gs) => if gs.len() == 8 {
                Some(v6_of(gs))
            } else {
                None
            },
        },
        Some(j) => {
            let left = if j == 0 {
                Some(Seq::<int>::empty())
            } else {
                sp_groups(s, 0, j, false, 9)
            };
            let right = if j + 2 == len {
                Some(Seq::<int>::empty())
            } else {
                sp_groups(s, j + 2, len, true, 9)
            };
            match (left, right) {
                (Some(l), Some(r)) => if l.len() + r.len() <= 7 {
                    Some(v6_of(l + Seq::new((8 - l.len() - r.len()) as nat, |k: int| 0) + r))
                } else {
                    None
                },
                _ => None,
            }
        },
    }
}

/// What a host string denotes: an IPv4 literal, or else an IPv6 literal,
/// or nothing.
pub open spec fn sp_parse_ip(s: Seq<char>) -> Option<IpAddr> {
    match sp_v4_at(s, 0, s.len() as int) {
        Some((a, b, c, d)) => Some(IpAddr::V4(a as u8, b as u8, c as u8, d as u8)),
        None => sp_v6(s),
    }
}

#[verifier::rlimit(100)]
fn ex_v6(s: &str) -> (r: Option<IpAddr>)
    ensures
        match r {
            Some(ip) => sp_v6(s@) == Some(ip),
            None => sp_v6(s@) is None,
        },
{
    let n = s.unicode_len();
    match ex_find_dc(s, 0, n) {
        None => {
            match ex_groups(s, 0, n, true, 9) {
                None => None,
                Some(gs) => {
                    if gs.len() == 8 {
                        let ip = IpAddr::V6(gs[0], gs[1], gs[2], gs[3], gs[4], gs[5], gs[6], gs[7]);
                        assert(sp_v6(s@) == Some(v6_of(groups_int(gs@))));
                        Some(ip)
                    } else {
                        None
                    }
                },
            }
        },
        Some(j) => {
            let left: Option<Vec<u16>> = if j == 0 {
                Some(Vec::new())
            } else {
                ex_groups(s, 0, j, false, 9)
            };
            let right: Option<Vec<u16>> = if j + 2 == n {
                Some(Vec::new())
            } else {
                ex_groups(s, j + 2, n, true, 9)
            };
            match (left, right) {
                (Some(l), Some(r)) => {
                    if l.len() <= 7 && r.len() <= 7 - l.len() {
                        let mut gs: Vec<u16> = Vec::new();
                        let mut x: usize = 0;
                        let ll = l.len();
                        let rl = r.len();
                        while x < ll
                            invariant
                                x <= ll,
                                ll == l@.len(),
                                gs@ == l@.take(x as int),
                            decreases ll - x,
                        {
                            gs.push(l[x]);
                            assert(gs@ =~= l@.take(x + 1 as int));
                            x += 1;
                        }
                        assert(gs@ =~= l@);
                        let zeros = 8 - ll - rl;
                        let mut z: usize = 0;
                        while z < zeros
                            invariant
                                z <= zeros,
                                gs@ == l@ + Seq::new(z as nat, |k: int| 0u16),
                            decreases zeros - z,
                        {
                            gs.push(0u16);
                            assert(gs@ =~= l@ + Seq::new((z + 1) as nat, |k: int| 0u16));
                            z += 1;
                        }
                        let mut y: usize = 0;
                        while y < rl
                            invariant
                                y <= rl,
                                rl == r@.len(),
                                gs@ == l@ + Seq::new(zeros as nat, |k: int| 0u16) + r@.take(
                                    y as int,
                                ),
                            decreases rl - y,
                        {
                            gs.push(r[y]);
                            assert(gs@ =~= l@ + Seq::new(zeros as nat, |k: int| 0u16) + r@.take(
                                (y + 1) as int,
                            ));
                            y += 1;
                        }
                        assert(gs@ =~= l@ + Seq::new(zeros as nat, |k: int| 0u16) + r@);
                        assert(gs@.len() == 8);
                        let ip = IpAddr::V6(gs[0], gs[1], gs[2], gs[3], gs[4], gs[5], gs[6], gs[7]);
                        proof {
                            let lz = groups_int(l@) + Seq::new((8 - l@.len() - r@.len()) as nat, |k: int| 0)
                                + groups_int(r@);
                            assert(groups_int(gs@) =~= lz);
                        }
                        Some(ip)
                    } else {
                        None
                    }
                },
                _ => None,
            }
        },
    }
}

/// Parses the listen host.  Accepts a string exactly when it is an IP
/// address literal, and returns the address it denotes.
pub fn parser_host(s: &str) -> (r: Result<IpAddr, XunleiError>)
    ensures
        match r {
            Ok(ip) => sp_parse_ip(s@) == Some(ip),
            Err(e) => e == XunleiError::HostNotAnIp && sp_parse_ip(s@) is None,
        },
{
    let n = s.unicode_len();
    if let Some((a, b, c, d)) = ex_v4_at(s, 0, n) {
        return Ok(IpAddr::V4(a, b, c, d));
    }
    match ex_v6(s) {
        Some(ip) => Ok(ip),
        None => Err(XunleiError::HostNotAnIp),
    }
}

} // verus!
