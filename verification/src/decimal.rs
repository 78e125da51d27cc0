//! Decimal rendering of milli-unit values: the textual form of every
//! coordinate written into a path string or an attribute.
//!
//! A milli-unit count `m` renders as its unit part, then, when the
//! fractional part is non-zero, a `.` and up to three fractional digits with
//! trailing zeros dropped (`874372` renders as `874.372`, `500000` as `500`,
//! `120500` as `120.5`, `-500` as `-0.5`).

use vstd::prelude::*;

verus! {

/// The character for one decimal digit.
pub open spec fn digit_char(d: int) -> char {
    if d == 0 {
        '0'
    } else if d == 1 {
        '1'
    } else if d == 2 {
        '2'
    } else if d == 3 {
        '3'
    } else if d == 4 {
        '4'
    } else if d == 5 {
        '5'
    } else if d == 6 {
        '6'
    } else if d == 7 {
        '7'
    } else if d == 8 {
        '8'
    } else {
        '9'
    }
}

/// The usual base-ten rendering of a natural number, most significant digit
/// first, no leading zeros (except for zero itself).
pub open spec fn dec_str(n: nat) -> Seq<char>
    decreases n,
{
    if n < 10 {
        seq![digit_char(n as int)]
    } else {
        dec_str(n / 10) + seq![digit_char((n % 10) as int)]
    }
}

/// The fractional digits of a milli-unit remainder `0 < f < 1000`, zero
/// padded to the left, trailing zeros dropped.
pub open spec fn frac_str(f: int) -> Seq<char> {
    let d1 = digit_char(f / 100);
    let d2 = digit_char((f / 10) % 10);
    let d3 = digit_char(f % 10);
    if f % 10 != 0 {
        seq![d1, d2, d3]
    } else if (f / 10) % 10 != 0 {
        seq![d1, d2]
    } else {
        seq![d1]
    }
}

/// The rendering of a non-negative milli-unit count.
pub open spec fn fmt_millis_nn(m: int) -> Seq<char>
    recommends
        m >= 0,
{
    if m % 1000 == 0 {
        dec_str((m / 1000) as nat)
    } else {
        dec_str((m / 1000) as nat) + seq!['.'] + frac_str(m % 1000)
    }
}

/// The rendering of a milli-unit count of either sign.
pub open spec fn fmt_millis(m: int) -> Seq<char> {
    if m < 0 {
        seq!['-'] + fmt_millis_nn(-m)
    } else {
        fmt_millis_nn(m)
    }
}

/// Characters that may occur in a rendered number.
pub open spec fn is_num_char(c: char) -> bool {
    c == '0' || c == '1' || c == '2' || c == '3' || c == '4' || c == '5' || c == '6' || c == '7'
        || c == '8' || c == '9' || c == '.' || c == '-'
}

/// Every character of `dec_str` is a digit.
pub proof fn lemma_dec_str_chars(n: nat)
    ensures
        dec_str(n).len() >= 1,
        forall|i: int| 0 <= i < dec_str(n).len() ==> is_num_char(#[trigger] dec_str(n)[i]),
    decreases n,
{
    if n >= 10 {
        lemma_dec_str_chars(n / 10);
    }
}

/// Every character of a rendered milli-unit count is a digit, a point or a
/// minus sign, and the rendering is never empty.
pub proof fn lemma_fmt_millis_chars(m: int)
    ensures
        fmt_millis(m).len() >= 1,
        forall|i: int| 0 <= i < fmt_millis(m).len() ==> is_num_char(#[trigger] fmt_millis(m)[i]),
{
    if m < 0 {
        lemma_dec_str_chars(((-m) / 1000) as nat);
    } else {
        lemma_dec_str_chars((m / 1000) as nat);
    }
}

/// Appends one decimal digit to `s`.
pub fn append_digit(s: &mut String, d: u64)
    requires
        d < 10,
    ensures
        final(s)@ == old(s)@ + seq![digit_char(d as int)],
{
    if d == 0 {
        s.append("0");
        proof {
            reveal_strlit("0");
            assert(s@ =~= old(s)@ + seq![digit_char(d as int)]);
        }
    } else if d == 1 {
        s.append("1");
        proof {
            reveal_strlit("1");
            assert(s@ =~= old(s)@ + seq![digit_char(d as int)]);
        }
    } else if d == 2 {
        s.append("2");
        proof {
            reveal_strlit("2");
            assert(s@ =~= old(s)@ + seq![digit_char(d as int)]);
        }
    } else if d == 3 {
        s.append("3");
        proof {
            reveal_strlit("3");
            assert(s@ =~= old(s)@ + seq![digit_char(d as int)]);
        }
    } else if d == 4 {
        s.append("4");
        proof {
            reveal_strlit("4");
            assert(s@ =~= old(s)@ + seq![digit_char(d as int)]);
        }
    } else if d == 5 {
        s.append("5");
        proof {
            reveal_strlit("5");
            assert(s@ =~= old(s)@ + seq![digit_char(d as int)]);
        }
    } else if d == 6 {
        s.append("6");
        proof {
            reveal_strlit("6");
            assert(s@ =~= old(s)@ + seq![digit_char(d as int)]);
        }
    } else if d == 7 {
        s.append("7");
        proof {
            reveal_strlit("7");
            assert(s@ =~= old(s)@ + seq![digit_char(d as int)]);
        }
    } else if d == 8 {
        s.append("8");
        proof {
            reveal_strlit("8");
            assert(s@ =~= old(s)@ + seq![digit_char(d as int)]);
        }
    } else {
        s.append("9");
        proof {
            reveal_strlit("9");
            assert(s@ =~= old(s)@ + seq![digit_char(d as int)]);
        }
    }
}

/// Appends the base-ten rendering of `n` to `s`.
pub fn append_u64(s: &mut String, n: u64)
    ensures
        final(s)@ == old(s)@ + dec_str(n as nat),
    decreases n,
{
    if n >= 10 {
        append_u64(s, n / 10);
        append_digit(s, n % 10);
        proof {
            assert(s@ =~= old(s)@ + dec_str(n as nat));
        }
    } else {
        append_digit(s, n);
    }
}

/// Appends the rendering of a milli-unit count to `s`.
pub fn append_millis(s: &mut String, m: i64)
    requires
        -1_000_000_000_000_000 <= m <= 1_000_000_000_000_000,
    ensures
        final(s)@ == old(s)@ + fmt_millis(m as int),
{
    let mag: u64 = if m < 0 {
        s.append("-");
        proof {
            reveal_strlit("-");
            assert("-"@ =~= seq!['-']);
        }
        (-m) as u64
    } else {
        m as u64
    };
    let ip: u64 = mag / 1000;
    let fr: u64 = mag % 1000;
    append_u64(s, ip);
    if fr != 0 {
        s.append(".");
        proof {
            reveal_strlit(".");
            assert("."@ =~= seq!['.']);
        }
        let d1: u64 = fr / 100;
        let d2: u64 = (fr / 10) % 10;
        let d3: u64 = fr % 10;
        if d3 != 0 {
            append_digit(s, d1);
            append_digit(s, d2);
            append_digit(s, d3);
        } else if d2 != 0 {
            append_digit(s, d1);
            append_digit(s, d2);
        } else {
            append_digit(s, d1);
        }
    }
    proof {
        assert(s@ =~= old(s)@ + fmt_millis(m as int));
    }
}

} // verus!
