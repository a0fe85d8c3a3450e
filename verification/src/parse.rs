//! Decimal parsing for the amounts the payment gateway reports as strings.

use vstd::prelude::*;
use vstd::string::StringSliceAdditionalSpecFns;

verus! {

pub open spec fn is_digit(b: u8) -> bool {
    48 <= b <= 57
}

pub open spec fn all_digits(s: Seq<u8>) -> bool {
    forall|i: int| 0 <= i < s.len() ==> is_digit(#[trigger] s[i])
}

/// The number the digit string denotes, most significant digit first.
pub open spec fn digits_val(s: Seq<u8>) -> int
    decreases s.len(),
{
    if s.len() == 0 {
        0
    } else {
        digits_val(s.drop_last()) * 10 + (s.last() - 48)
    }
}

/// What `parse_i64` accepts: an optional leading minus sign followed by
/// decimal digits, provided the value fits in a 64-bit signed integer.
pub open spec fn spec_parse_i64(s: Seq<u8>) -> Option<i64> {
    if s.len() >= 2 && s[0] == 45 {
        let mag = s.subrange(1, s.len() as int);
        if all_digits(mag) && -digits_val(mag) >= i64::MIN {
            Some((-digits_val(mag)) as i64)
        } else {
            None
        }
    } else if s.len() >= 1 && all_digits(s) && digits_val(s) <= i64::MAX {
        Some(digits_val(s) as i64)
    } else {
        None
    }
}

/// The decimal digit characters of a non-negative number, most
/// significant first, without leading zeros (except for 0 itself).
pub open spec fn dec_chars(n: int) -> Seq<char>
    decreases n,
{
    if n < 10 {
        seq![digit_char(n)]
    } else {
        dec_chars(n / 10) + seq![digit_char(n % 10)]
    }
}

/// The decimal rendering of an integer, with a leading minus sign for
/// negative values.
pub open spec fn dec_str(n: int) -> Seq<char> {
    if n < 0 {
        seq!['-'] + dec_chars(-n)
    } else {
        dec_chars(n)
    }
}

pub open spec fn digit_char(d: int) -> char {
    if d == 0 {
        '0'
    } else if d == 1 {
        '1'
    } else if d == 2 {
        '2'
    } else if d == 3 {
        '3'
    } else if d == 4 {
        '4'
    } else if d == 5 {
        '5'
    } else if d == 6 {
        '6'
    } else if d == 7 {
        '7'
    } else if d == 8 {
        '8'
    } else {
        '9'
    }
}

/// The one-character string for a decimal digit.
fn digit_str(d: u64) -> (r: &'static str)
    requires
        d < 10,
    ensures
        r@ == seq![digit_char(d as int)],
{
    proof {
        reveal_strlit("0");
        reveal_strlit("1");
        reveal_strlit("2");
        reveal_strlit("3");
        reveal_strlit("4");
        reveal_strlit("5");
        reveal_strlit("6");
        reveal_strlit("7");
        reveal_strlit("8");
        reveal_strlit("9");
    }
    let r: &'static str = match d {
        0 => "0",
        1 => "1",
        2 => "2",
        3 => "3",
        4 => "4",
        5 => "5",
        6 => "6",
        7 => "7",
        8 => "8",
        _ => "9",
    };
    proof {
        assert(r@ =~= seq![digit_char(d as int)]);
    }
    r
}

/// Render a non-negative number in decimal.
fn render_u64(n: u64) -> (r: String)
    ensures
        r@ == dec_chars(n as int),
    decreases n,
{
    if n < 10 {
        String::from_str(digit_str(n))
    } else {
        let mut s = render_u64(n / 10);
        s.append(digit_str(n % 10));
        proof {
            assert(n as int / 10 == (n / 10) as int);
        }
        s
    }
}

/// Render an integer in decimal, with a minus sign when negative.
pub fn render_i64(n: i64) -> (r: String)
    ensures
        r@ == dec_str(n as int),
{
    if n >= 0 {
        render_u64(n as u64)
    } else {
        let m: u64 = (-(n as i128)) as u64;
        let mut s = String::from_str("-");
        s.append(render_u64(m).as_str());
        proof {
            reveal_strlit("-");
            assert("-"@ =~= seq!['-']);
        }
        s
    }
}

/// Parse a decimal integer, rejecting any other shape and any value that
/// does not fit.
pub fn parse_i64(s: &str) -> (r: Option<i64>)
    ensures
        r == spec_parse_i64(s.spec_bytes()),
{
    let bytes: &[u8] = s.as_bytes();
    let n: usize = bytes.len();
    if n == 0 {
        return None;
    }
    let neg: bool = bytes[0] == 45u8;
    if neg && n == 1 {
        return None;
    }
    let start: usize = if neg {
        1
    } else {
        0
    };
    let ghost whole = bytes@;
    let ghost region = if neg {
        whole.subrange(1, whole.len() as int)
    } else {
        whole
    };
    let mut i: usize = start;
    let mut acc: u64 = 0;
    let mut overflow: bool = false;
    proof {
        assert(whole.subrange(start as int, start as int) =~= Seq::<u8>::empty());
    }
    while i < n
        invariant
            start <= i <= n,
            n >= 1,
            n == whole.len(),
            whole == bytes@,
            whole == s.spec_bytes(),
            neg == (whole[0] == 45),
            start == if neg {
                1int
            } else {
                0int
            },
            neg ==> n >= 2,
            all_digits(whole.subrange(start as int, i as int)),
            !overflow ==> acc == digits_val(whole.subrange(start as int, i as int)),
            overflow ==> digits_val(whole.subrange(start as int, i as int)) > u64::MAX,
        decreases n - i,
    {
        let b: u8 = bytes[i];
        let ghost pre = whole.subrange(start as int, i as int);
        let ghost post = whole.subrange(start as int, i + 1);
        proof {
            assert(post.drop_last() =~= pre);
            assert(post.last() == whole[i as int]);
        }
        if b < 48 || b > 57 {
            proof {
                if neg {
                    let mag = whole.subrange(1, whole.len() as int);
                    assert(mag[i - 1] == whole[i as int]);
                    assert(!is_digit(mag[i - 1]));
                } else {
                    assert(!is_digit(whole[i as int]));
                }
            }
            return None;
        }
        let d: u64 = (b - 48) as u64;
        if overflow {
            proof {
                assert(digits_val(post) == digits_val(pre) * 10 + (b - 48));
            }
        } else if acc > (u64::MAX - d) / 10 {
            proof {
                let q = (u64::MAX - d) as int / 10;
                assert((u64::MAX - d) as int == 10 * q + (u64::MAX - d) as int % 10);
                assert(digits_val(post) == digits_val(pre) * 10 + (b - 48));
            }
            overflow = true;
        } else {
            proof {
                let q = (u64::MAX - d) as int / 10;
                assert((u64::MAX - d) as int == 10 * q + (u64::MAX - d) as int % 10);
                assert(digits_val(post) == digits_val(pre) * 10 + (b - 48));
            }
            acc = acc * 10 + d;
        }
        i = i + 1;
    }
    proof {
        assert(whole.subrange(start as int, n as int) =~= region);
        if !neg {
            assert(region =~= whole);
        }
    }
    if overflow {
        return None;
    }
    if neg {
        if acc > 9223372036854775808u64 {
            return None;
        }
        if acc == 9223372036854775808u64 {
            return Some(i64::MIN);
        }
        return Some(-(acc as i64));
    }
    if acc > 9223372036854775807u64 {
        return None;
    }
    Some(acc as i64)
}

} // verus!
