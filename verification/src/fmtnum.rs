//! Decimal rendering of unsigned numbers, for path construction and plan
//! display.
use vstd::prelude::*;
use vstd::string::StringExecFns;

verus! {

/// The character of one decimal digit.
pub open spec fn spec_digit_char(d: int) -> char {
    if d == 0 {
        '0'
    } else if d == 1 {
        '1'
    } else if d == 2 {
        '2'
    } else if d == 3 {
        '3'
    } else if d == 4 {
        '4'
    } else if d == 5 {
        '5'
    } else if d == 6 {
        '6'
    } else if d == 7 {
        '7'
    } else if d == 8 {
        '8'
    } else {
        '9'
    }
}

/// The decimal digits of a number, most significant first, without leading
/// zeroes (zero itself is the single digit `0`).
pub open spec fn spec_u64_digits(n: int) -> Seq<char>
    decreases n,
{
    if n < 10 {
        seq![spec_digit_char(n)]
    } else {
        spec_u64_digits(n / 10).push(spec_digit_char(n % 10))
    }
}

/// Appends one decimal digit to a string.
fn append_digit(s: &mut String, d: u64)
    requires
        d < 10,
    ensures
        final(s)@ == old(s)@.push(spec_digit_char(d as int)),
{
    let lit: &str = match d {
        0 => "0",
        1 => "1",
        2 => "2",
        3 => "3",
        4 => "4",
        5 => "5",
        6 => "6",
        7 => "7",
        8 => "8",
        _ => "9",
    };
    proof {
        reveal_strlit("0");
        reveal_strlit("1");
        reveal_strlit("2");
        reveal_strlit("3");
        reveal_strlit("4");
        reveal_strlit("5");
        reveal_strlit("6");
        reveal_strlit("7");
        reveal_strlit("8");
        reveal_strlit("9");
        assert(lit@ =~= seq![spec_digit_char(d as int)]);
    }
    s.append(lit);
    proof {
        assert(old(s)@ + lit@ =~= old(s)@.push(spec_digit_char(d as int)));
    }
}

/// Appends the decimal digits of `n` to a string.
pub fn append_u64(s: &mut String, n: u64)
    ensures
        final(s)@ == old(s)@ + spec_u64_digits(n as int),
    decreases n,
{
    if n < 10 {
        append_digit(s, n);
        proof {
            assert(old(s)@.push(spec_digit_char(n as int)) =~= old(s)@ + spec_u64_digits(
                n as int,
            ));
        }
    } else {
        append_u64(s, n / 10);
        append_digit(s, n % 10);
        proof {
            assert((old(s)@ + spec_u64_digits(n as int / 10)).push(
                spec_digit_char(n as int % 10),
            ) =~= old(s)@ + spec_u64_digits(n as int));
        }
    }
}

/// The decimal rendering of `n`.
pub fn u64_to_string(n: u64) -> (r: String)
    ensures
        r@ == spec_u64_digits(n as int),
{
    let mut s = String::new();
    append_u64(&mut s, n);
    proof {
        assert(Seq::<char>::empty() + spec_u64_digits(n as int) =~= spec_u64_digits(n as int));
    }
    s
}

} // verus!
