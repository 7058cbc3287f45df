//! Startup configuration: parsing the listening port from the `PORT`
//! environment value, with its default.

use vstd::prelude::*;
use vstd::string::StrSliceExecFns;

use crate::ApiError;

verus! {

/// Whether `c` is a decimal digit.
pub open spec fn is_digit(c: char) -> bool {
    c == '0' || c == '1' || c == '2' || c == '3' || c == '4' || c == '5' || c == '6' || c == '7'
        || c == '8' || c == '9'
}

/// The value of the decimal digit `c`.
pub open spec fn digit_val(c: char) -> nat {
    if c == '0' {
        0
    } else if c == '1' {
        1
    } else if c == '2' {
        2
    } else if c == '3' {
        3
    } else if c == '4' {
        4
    } else if c == '5' {
        5
    } else if c == '6' {
        6
    } else if c == '7' {
        7
    } else if c == '8' {
        8
    } else {
        9
    }
}

/// Whether every character of `s` is a decimal digit.
pub open spec fn all_digits(s: Seq<char>) -> bool {
    forall|i: int| 0 <= i < s.len() ==> is_digit(#[trigger] s[i])
}

/// The numeric value of `s` read as decimal digits, most significant first.
pub open spec fn digits_val(s: Seq<char>) -> nat
    decreases s.len(),
{
    if s.len() == 0 {
        0
    } else {
        digits_val(s.drop_last()) * 10 + digit_val(s.last())
    }
}

/// Whether `s` is an acceptable `PORT` value: a non-empty string of decimal
/// digits whose value lies in 1–65535.
pub open spec fn valid_port(s: Seq<char>) -> bool {
    s.len() > 0 && all_digits(s) && 1 <= digits_val(s) <= 65535
}

/// A longer digit prefix never has a smaller value.
proof fn lemma_prefix_le(s: Seq<char>, i: int, j: int)
    requires
        0 <= i <= j <= s.len(),
    ensures
        digits_val(s.subrange(0, i)) <= digits_val(s.subrange(0, j)),
    decreases j - i,
{
    if i < j {
        lemma_prefix_le(s, i, j - 1);
        assert(s.subrange(0, j).drop_last() =~= s.subrange(0, j - 1));
        assert(digits_val(s.subrange(0, j)) == digits_val(s.subrange(0, j - 1)) * 10 + digit_val(
            s.subrange(0, j).last(),
        ));
    }
}

/// The value of the decimal digit `c`, or nothing when `c` is no digit.
fn digit_of(c: char) -> (r: Option<u32>)
    ensures
        match r {
            Some(d) => is_digit(c) && d == digit_val(c),
            None => !is_digit(c),
        },
{
    if c == '0' {
        Some(0)
    } else if c == '1' {
        Some(1)
    } else if c == '2' {
        Some(2)
    } else if c == '3' {
        Some(3)
    } else if c == '4' {
        Some(4)
    } else if c == '5' {
        Some(5)
    } else if c == '6' {
        Some(6)
    } else if c == '7' {
        Some(7)
    } else if c == '8' {
        Some(8)
    } else if c == '9' {
        Some(9)
    } else {
        None
    }
}

/// Parses a `PORT` value: exactly the non-empty all-digit strings whose
/// value lies in 1–65535 are accepted, and the value returned is the
/// string's decimal value; everything else is a bad request.
pub fn parse_port(s: &str) -> (r: Result<u16, ApiError>)
    ensures
        match r {
            Ok(v) => valid_port(s@) && v == digits_val(s@),
            Err(e) => e == ApiError::BadRequest && !valid_port(s@),
        },
{
    let n = s.unicode_len();
    if n == 0 {
        return Err(ApiError::BadRequest);
    }
    let mut acc: u32 = 0;
    let mut i: usize = 0;
    while i < n
        invariant
            n == s@.len(),
            i <= n,
            all_digits(s@.subrange(0, i as int)),
            acc == digits_val(s@.subrange(0, i as int)),
            acc <= 65535,
        decreases n - i,
    {
        let c = s.get_char(i);
        let d = match digit_of(c) {
            Some(d) => d,
            None => {
                proof {
                    assert(!is_digit(s@[i as int]));
                }
                return Err(ApiError::BadRequest);
            },
        };
        let next = acc * 10 + d;
        proof {
            assert(s@.subrange(0, i + 1).drop_last() =~= s@.subrange(0, i as int));
            assert(s@.subrange(0, i + 1).last() == s@[i as int]);
            assert forall|j: int| 0 <= j < i + 1 implies is_digit(
                #[trigger] s@.subrange(0, i + 1)[j],
            ) by {
                if j < i {
                    assert(s@.subrange(0, i + 1)[j] == s@.subrange(0, i as int)[j]);
                }
            }
        }
        if next > 65535 {
            proof {
                lemma_prefix_le(s@, i + 1, n as int);
                assert(s@.subrange(0, n as int) =~= s@);
                assert(digits_val(s@) >= next);
            }
            return Err(ApiError::BadRequest);
        }
        acc = next;
        i = i + 1;
    }
    proof {
        assert(s@.subrange(0, n as int) =~= s@);
    }
    if acc == 0 {
        return Err(ApiError::BadRequest);
    }
    Ok(acc as u16)
}

/// The configured port: `PORT`'s value when the variable is set, the
/// default 3000 when it is not. A set but invalid value is a bad request,
/// fatal at startup.
pub fn port_from_env(value: Option<&str>) -> (r: Result<u16, ApiError>)
    ensures
        value.is_none() ==> r == Ok::<u16, ApiError>(3000u16),
        value.is_some() ==> match r {
            Ok(v) => valid_port(value.unwrap()@) && v == digits_val(value.unwrap()@),
            Err(e) => e == ApiError::BadRequest && !valid_port(value.unwrap()@),
        },
{
    match value {
        None => Ok(3000),
        Some(s) => parse_port(s),
    }
}

} // verus!
