//! Decimal rendering of integers, as `{}` and `{:+}` print them.
use vstd::prelude::*;
use vstd::string::*;

verus! {

/// The character of a decimal digit.
pub open spec fn digit_char(d: int) -> char {
    if d == 0 { '0' } else if d == 1 { '1' } else if d == 2 { '2' } else if d == 3 { '3' }
    else if d == 4 { '4' } else if d == 5 { '5' } else if d == 6 { '6' } else if d == 7 { '7' }
    else if d == 8 { '8' } else { '9' }
}

/// Decimal digits of a natural number, without leading zeros.
pub open spec fn unsigned_decimal(n: nat) -> Seq<char>
    decreases n,
{
    if n < 10 {
        seq![digit_char(n as int)]
    } else {
        unsigned_decimal(n / 10).push(digit_char((n % 10) as int))
    }
}

/// Decimal text of an integer, with a leading `-` when negative.
pub open spec fn decimal(n: int) -> Seq<char> {
    if n < 0 {
        seq!['-'] + unsigned_decimal((-n) as nat)
    } else {
        unsigned_decimal(n as nat)
    }
}

/// Decimal text of an integer with its sign always shown.
pub open spec fn signed_decimal(n: int) -> Seq<char> {
    if n < 0 {
        decimal(n)
    } else {
        seq!['+'] + decimal(n)
    }
}

fn digit_str(d: u64) -> (s: &'static str)
    requires
        d < 10,
    ensures
        s@ == seq![digit_char(d as int)],
{
    proof {
        reveal_strlit("0"); reveal_strlit("1"); reveal_strlit("2"); reveal_strlit("3");
        reveal_strlit("4"); reveal_strlit("5"); reveal_strlit("6"); reveal_strlit("7");
        reveal_strlit("8"); reveal_strlit("9");
    }
    match d {
        0 => "0",
        1 => "1",
        2 => "2",
        3 => "3",
        4 => "4",
        5 => "5",
        6 => "6",
        7 => "7",
        8 => "8",
        _ => "9",
    }
}

/// Appends the decimal text of a natural number to `out`.
pub fn append_unsigned(out: &mut String, n: u64)
    ensures
        final(out)@ == old(out)@ + unsigned_decimal(n as nat),
    decreases n,
{
    if n >= 10 {
        append_unsigned(out, n / 10);
    }
    let d = digit_str(n % 10);
    out.append(d);
    proof {
        if n >= 10 {
            assert(unsigned_decimal(n as nat) == unsigned_decimal((n / 10) as nat).push(
                digit_char((n % 10) as int),
            ));
        }
    }
    assert(final(out)@ =~= old(out)@ + unsigned_decimal(n as nat));
}

/// Appends the decimal text of `n` to `out`.
pub fn append_decimal(out: &mut String, n: i64)
    ensures
        final(out)@ == old(out)@ + decimal(n as int),
{
    if n < 0 {
        proof { reveal_strlit("-"); }
        out.append("-");
        let magnitude: u64 = if n == i64::MIN { 9223372036854775808u64 } else { (-n) as u64 };
        append_unsigned(out, magnitude);
        assert(final(out)@ =~= old(out)@ + decimal(n as int));
    } else {
        append_unsigned(out, n as u64);
    }
}

/// Appends the decimal text of `n` with its sign always shown.
pub fn append_signed_decimal(out: &mut String, n: i64)
    ensures
        final(out)@ == old(out)@ + signed_decimal(n as int),
{
    if n >= 0 {
        proof { reveal_strlit("+"); }
        out.append("+");
        append_decimal(out, n);
        assert(final(out)@ =~= old(out)@ + signed_decimal(n as int));
    } else {
        append_decimal(out, n);
    }
}

/// The decimal text of an integer.
pub fn decimal_text(n: i64) -> (text: String)
    ensures
        text@ == decimal(n as int),
{
    let mut text = String::new();
    append_decimal(&mut text, n);
    assert(text@ =~= decimal(n as int));
    text
}

/// Appends the decimal text of a 128-bit natural number to `out`.
pub fn append_wide(out: &mut String, n: u128)
    ensures
        final(out)@ == old(out)@ + unsigned_decimal(n as nat),
    decreases n,
{
    if n >= 10 {
        append_wide(out, n / 10);
    }
    let d = digit_str((n % 10) as u64);
    out.append(d);
    proof {
        if n >= 10 {
            assert(unsigned_decimal(n as nat) == unsigned_decimal((n / 10) as nat).push(
                digit_char((n % 10) as int),
            ));
        }
    }
    assert(final(out)@ =~= old(out)@ + unsigned_decimal(n as nat));
}

} // verus!
