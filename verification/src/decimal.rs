//! Decimal rendering of integer values.

use vstd::prelude::*;

verus! {

/// The character for one decimal digit.
pub open spec fn digit_char(d: int) -> char
    recommends
        0 <= d < 10,
{
    if d == 0 {
        '0'
    } else if d == 1 {
        '1'
    } else if d == 2 {
        '2'
    } else if d == 3 {
        '3'
    } else if d == 4 {
        '4'
    } else if d == 5 {
        '5'
    } else if d == 6 {
        '6'
    } else if d == 7 {
        '7'
    } else if d == 8 {
        '8'
    } else {
        '9'
    }
}

/// Decimal digits of a nonnegative integer, most significant first.
pub open spec fn nat_digits(n: int) -> Seq<char>
    recommends
        n >= 0,
    decreases n,
{
    if n < 10 {
        seq![digit_char(n)]
    } else {
        nat_digits(n / 10).push(digit_char(n % 10))
    }
}

/// Decimal text of an integer, with a leading `-` for negatives.
pub open spec fn int_digits(n: int) -> Seq<char> {
    if n < 0 {
        seq!['-'] + nat_digits(-n)
    } else {
        nat_digits(n)
    }
}

/// Append one decimal digit to `out`.
fn push_digit(out: &mut String, d: u64)
    requires
        d < 10,
    ensures
        final(out)@ == old(out)@ + seq![digit_char(d as int)],
{
    if d == 0 {
        proof {
            reveal_strlit("0");
            assert("0"@ =~= seq![digit_char(0)]);
        }
        out.append("0");
    } else if d == 1 {
        proof {
            reveal_strlit("1");
            assert("1"@ =~= seq![digit_char(1)]);
        }
        out.append("1");
    } else if d == 2 {
        proof {
            reveal_strlit("2");
            assert("2"@ =~= seq![digit_char(2)]);
        }
        out.append("2");
    } else if d == 3 {
        proof {
            reveal_strlit("3");
            assert("3"@ =~= seq![digit_char(3)]);
        }
        out.append("3");
    } else if d == 4 {
        proof {
            reveal_strlit("4");
            assert("4"@ =~= seq![digit_char(4)]);
        }
        out.append("4");
    } else if d == 5 {
        proof {
            reveal_strlit("5");
            assert("5"@ =~= seq![digit_char(5)]);
        }
        out.append("5");
    } else if d == 6 {
        proof {
            reveal_strlit("6");
            assert("6"@ =~= seq![digit_char(6)]);
        }
        out.append("6");
    } else if d == 7 {
        proof {
            reveal_strlit("7");
            assert("7"@ =~= seq![digit_char(7)]);
        }
        out.append("7");
    } else if d == 8 {
        proof {
            reveal_strlit("8");
            assert("8"@ =~= seq![digit_char(8)]);
        }
        out.append("8");
    } else {
        proof {
            reveal_strlit("9");
            assert("9"@ =~= seq![digit_char(9)]);
        }
        out.append("9");
    }
}

/// Append the decimal digits of `n` to `out`.
pub fn append_u64(out: &mut String, n: u64)
    ensures
        final(out)@ == old(out)@ + nat_digits(n as int),
    decreases n,
{
    if n >= 10 {
        append_u64(out, n / 10);
        push_digit(out, n % 10);
        proof {
            assert(out@ =~= old(out)@ + nat_digits(n as int));
        }
    } else {
        push_digit(out, n);
    }
}

/// Append the decimal text of `n` to `out`, with a leading `-` for
/// negatives.
pub fn append_i64(out: &mut String, n: i64)
    ensures
        final(out)@ == old(out)@ + int_digits(n as int),
{
    if n < 0 {
        proof {
            reveal_strlit("-");
            assert("-"@ =~= seq!['-']);
        }
        out.append("-");
        let wide: i128 = -(n as i128);
        let m: u64 = wide as u64;
        proof {
            assert(m as int == -(n as int));
        }
        append_u64(out, m);
        proof {
            assert(out@ =~= old(out)@ + int_digits(n as int));
        }
    } else {
        append_u64(out, n as u64);
    }
}

} // verus!
