//! Command-line validation: the listen port and the listen host.

use vstd::prelude::*;

use crate::errors::XunleiError;

verus! {

/// Whether the character is a decimal digit.
pub open spec fn is_digit(c: char) -> bool {
    48 <= c as int <= 57
}

/// The numeric value of a decimal digit character.
pub open spec fn digit_val(c: char) -> int {
    c as int - 48
}

/// Whether every character of the string is a decimal digit.
pub open spec fn all_digits(s: Seq<char>) -> bool {
    forall|i: int| 0 <= i < s.len() ==> is_digit(#[trigger] s[i])
}

/// The number a digit string denotes, most significant digit first.
pub open spec fn digits_val(s: Seq<char>) -> int
    decreases s.len(),
{
    if s.len() == 0 {
        0
    } else {
        digits_val(s.drop_last()) * 10 + digit_val(s.last())
    }
}

/// A longer digit string never denotes a smaller number.
proof fn lemma_digits_val_nonneg(s: Seq<char>)
    requires
        all_digits(s),
    ensures
        digits_val(s) >= 0,
    decreases s.len(),
{
    if s.len() > 0 {
        assert(all_digits(s.drop_last())) by {
            assert(forall|i: int| 0 <= i < s.len() - 1 ==> is_digit(#[trigger] s[i]));
        }
        lemma_digits_val_nonneg(s.drop_last());
    }
}

/// Parses the listen port.  Accepts exactly the non-empty digit strings
/// whose value lies in 1024..=65535 and returns that value; a string that
/// is not a number at all and a number outside the range are told apart,
/// as the two validation messages require.
pub fn parser_port_in_range(s: &str) -> (r: Result<u16, XunleiError>)
    ensures
        match r {
            Ok(p) => s@.len() > 0 && all_digits(s@) && 1024 <= digits_val(s@) <= 65535 && p as int
                == digits_val(s@),
            Err(e) => {
                &&& (e == XunleiError::PortNotANumber || e == XunleiError::PortOutOfRange)
                &&& (e == XunleiError::PortNotANumber <==> (s@.len() == 0 || !all_digits(s@)))
                &&& (e == XunleiError::PortOutOfRange <==> (s@.len() > 0 && all_digits(s@) && !(
                1024 <= digits_val(s@) <= 65535)))
            },
        },
{
    let n = s.unicode_len();
    if n == 0 {
        return Err(XunleiError::PortNotANumber);
    }
    let mut i: usize = 0;
    let mut acc: u32 = 0;
    while i < n
        invariant
            0 < n == s@.len(),
            i <= n,
            all_digits(s@.take(i as int)),
            acc <= 655359,
            digits_val(s@.take(i as int)) <= 65535 ==> acc == digits_val(s@.take(i as int)),
            digits_val(s@.take(i as int)) > 65535 ==> acc > 65535,
        decreases n - i,
    {
        let c = s.get_char(i);
        let cv = c as u32;
        if cv < 48 || cv > 57 {
            assert(!is_digit(s@[i as int]));
            assert(!all_digits(s@)) by {
                if all_digits(s@) {
                    assert(is_digit(s@[i as int]));
                }
            }
            return Err(XunleiError::PortNotANumber);
        }
        let d = cv - 48;
        proof {
            let pre = s@.take(i as int);
            let cur = s@.take(i + 1 as int);
            assert(cur.drop_last() =~= pre);
            assert(cur.last() == s@[i as int]);
            assert(digits_val(cur) == digits_val(pre) * 10 + digit_val(s@[i as int]));
            lemma_digits_val_nonneg(pre);
            assert(all_digits(cur)) by {
                assert(forall|j: int| 0 <= j < cur.len() ==> is_digit(#[trigger] cur[j]));
            }
        }
        if acc <= 65535 {
            acc = acc * 10 + d;
        }
        i += 1;
    }
    assert(s@.take(n as int) =~= s@);
    if acc < 1024 || acc > 65535 {
        return Err(XunleiError::PortOutOfRange);
    }
    Ok(acc as u16)
}

} // verus!
