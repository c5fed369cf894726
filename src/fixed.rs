//! Decimal text for numbers held in hundredths: the overlay shows every value
//! with exactly two digits after the decimal point.

use vstd::prelude::*;

verus! {

/// The character of the decimal digit `d` (taken modulo ten for `d > 9`).
pub open spec fn digit_char(d: nat) -> char {
    let d = d % 10;
    if d == 0 {
        '0'
    } else if d == 1 {
        '1'
    } else if d == 2 {
        '2'
    } else if d == 3 {
        '3'
    } else if d == 4 {
        '4'
    } else if d == 5 {
        '5'
    } else if d == 6 {
        '6'
    } else if d == 7 {
        '7'
    } else if d == 8 {
        '8'
    } else {
        '9'
    }
}

pub open spec fn is_digit(c: char) -> bool {
    '0' <= c && c <= '9'
}

/// The digits of `n` in base ten, most significant first, without leading zeros.
pub open spec fn decimal(n: nat) -> Seq<char>
    decreases n,
{
    if n < 10 {
        seq![digit_char(n)]
    } else {
        decimal(n / 10).push(digit_char(n % 10))
    }
}

/// The text of the number `h / 100`: a minus sign when `h` is negative, the
/// whole part, a point, and the two digits of the hundredths.
pub open spec fn hundredths_text(h: int) -> Seq<char> {
    let m: nat = (if h < 0 { -h } else { h }) as nat;
    let sign: Seq<char> = if h < 0 { seq!['-'] } else { Seq::empty() };
    sign + decimal(m / 100) + seq!['.', digit_char(m / 10), digit_char(m)]
}

/// A number with exactly two digits after its decimal point: an optional
/// minus sign, one or more digits, a point, and two digits.
pub open spec fn two_decimals(s: Seq<char>) -> bool {
    &&& s.len() >= 4
    &&& s[s.len() - 3] == '.'
    &&& is_digit(s[s.len() - 2])
    &&& is_digit(s[s.len() - 1])
    &&& forall|i: int|
        0 <= i < s.len() - 3 ==> is_digit(#[trigger] s[i]) || (i == 0 && s[i] == '-' && s.len()
            >= 5)
}

proof fn lemma_digit_char_is_digit(d: nat)
    ensures
        is_digit(digit_char(d)),
{
}

proof fn lemma_decimal_digits(n: nat)
    ensures
        decimal(n).len() >= 1,
        forall|i: int| 0 <= i < decimal(n).len() ==> is_digit(#[trigger] decimal(n)[i]),
    decreases n,
{
    lemma_digit_char_is_digit(n);
    if n >= 10 {
        lemma_decimal_digits(n / 10);
        lemma_digit_char_is_digit(n % 10);
    }
}

/// Every value the overlay shows is written with exactly two digits after
/// its decimal point.
pub proof fn lemma_two_decimals(h: int)
    ensures
        two_decimals(hundredths_text(h)),
{
    let m: nat = (if h < 0 { -h } else { h }) as nat;
    let sign: Seq<char> = if h < 0 { seq!['-'] } else { Seq::empty() };
    let whole = decimal(m / 100);
    let s = hundredths_text(h);
    lemma_decimal_digits(m / 100);
    lemma_digit_char_is_digit(m / 10);
    lemma_digit_char_is_digit(m);
    assert(s == sign + whole + seq!['.', digit_char(m / 10), digit_char(m)]);
    assert forall|i: int|
        0 <= i < s.len() - 3 implies is_digit(#[trigger] s[i]) || (i == 0 && s[i] == '-'
            && s.len() >= 5) by {
        if i >= sign.len() {
            assert(s[i] == whole[i - sign.len()]);
        }
    }
}

/// The one-character text of the digit `d`.
fn digit_str(d: u64) -> (s: &'static str)
    requires
        d < 10,
    ensures
        s@ == seq![digit_char(d as nat)],
{
    proof {
        reveal_strlit("0");
        reveal_strlit("1");
        reveal_strlit("2");
        reveal_strlit("3");
        reveal_strlit("4");
        reveal_strlit("5");
        reveal_strlit("6");
        reveal_strlit("7");
        reveal_strlit("8");
        reveal_strlit("9");
    }
    if d == 0 {
        "0"
    } else if d == 1 {
        "1"
    } else if d == 2 {
        "2"
    } else if d == 3 {
        "3"
    } else if d == 4 {
        "4"
    } else if d == 5 {
        "5"
    } else if d == 6 {
        "6"
    } else if d == 7 {
        "7"
    } else if d == 8 {
        "8"
    } else {
        "9"
    }
}

/// Appends the base-ten digits of `n` to `out`.
pub fn push_decimal(out: &mut String, n: u64)
    ensures
        final(out)@ == old(out)@ + decimal(n as nat),
    decreases n,
{
    if n >= 10 {
        push_decimal(out, n / 10);
    }
    out.append(digit_str(n % 10));
    assert(final(out)@ =~= old(out)@ + decimal(n as nat));
}

/// Appends the text of `h / 100` with two digits after the point
/// (`-54000` gives `-540.00`, `5` gives `0.05`).
pub fn push_hundredths(out: &mut String, h: i64)
    ensures
        final(out)@ == old(out)@ + hundredths_text(h as int),
{
    let m: u64 = if h < 0 {
        (0 - (h as i128)) as u64
    } else {
        h as u64
    };
    if h < 0 {
        proof {
            reveal_strlit("-");
        }
        out.append("-");
    }
    push_decimal(out, m / 100);
    proof {
        reveal_strlit(".");
    }
    out.append(".");
    out.append(digit_str((m / 10) % 10));
    out.append(digit_str(m % 10));
    assert(final(out)@ =~= old(out)@ + hundredths_text(h as int));
}

} // verus!
