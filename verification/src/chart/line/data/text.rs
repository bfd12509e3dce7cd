//! Whole numbers written out in decimal digits.
use vstd::prelude::*;
use vstd::string::StringExecFns;

verus! {

/// The character of a decimal digit.
pub open spec fn digit_char(digit: int) -> char
    recommends
        0 <= digit <= 9,
{
    if digit == 0 {
        '0'
    } else if digit == 1 {
        '1'
    } else if digit == 2 {
        '2'
    } else if digit == 3 {
        '3'
    } else if digit == 4 {
        '4'
    } else if digit == 5 {
        '5'
    } else if digit == 6 {
        '6'
    } else if digit == 7 {
        '7'
    } else if digit == 8 {
        '8'
    } else {
        '9'
    }
}

/// The decimal digits of a natural number, most significant first, with
/// no leading zero.
pub open spec fn decimal_digits(n: nat) -> Seq<char>
    decreases n,
{
    if n < 10 {
        seq![digit_char(n as int)]
    } else {
        decimal_digits(n / 10).push(digit_char((n % 10) as int))
    }
}

/// The decimal text of a whole number: a minus sign where it is negative,
/// then its digits.
pub open spec fn decimal_text(v: int) -> Seq<char> {
    if v < 0 {
        seq!['-'] + decimal_digits((-v) as nat)
    } else {
        decimal_digits(v as nat)
    }
}

fn digit_str(digit: u128) -> (text: &'static str)
    requires
        digit <= 9,
    ensures
        text@ == seq![digit_char(digit as int)],
{
    proof {
        reveal_strlit("0");
        reveal_strlit("1");
        reveal_strlit("2");
        reveal_strlit("3");
        reveal_strlit("4");
        reveal_strlit("5");
        reveal_strlit("6");
        reveal_strlit("7");
        reveal_strlit("8");
        reveal_strlit("9");
    }
    let text = if digit == 0 {
        "0"
    } else if digit == 1 {
        "1"
    } else if digit == 2 {
        "2"
    } else if digit == 3 {
        "3"
    } else if digit == 4 {
        "4"
    } else if digit == 5 {
        "5"
    } else if digit == 6 {
        "6"
    } else if digit == 7 {
        "7"
    } else if digit == 8 {
        "8"
    } else {
        "9"
    };
    assert(text@ =~= seq![digit_char(digit as int)]);
    text
}

fn push_digits(text: &mut String, n: u128)
    ensures
        final(text)@ == old(text)@ + decimal_digits(n as nat),
    decreases n,
{
    if n >= 10 {
        push_digits(text, n / 10);
    }
    text.append(digit_str(n % 10));
    assert(text@ =~= old(text)@ + decimal_digits(n as nat));
}

/// Writes out a whole number given by its sign and its size.
pub fn decimal_string(negative: bool, magnitude: u128) -> (text: String)
    ensures
        text@ == decimal_text(if negative { -(magnitude as int) } else { magnitude as int }),
{
    let mut text = String::new();
    if negative && magnitude > 0 {
        proof {
            reveal_strlit("-");
        }
        text.append("-");
        assert(text@ =~= seq!['-']);
    }
    push_digits(&mut text, magnitude);
    assert(text@ =~= decimal_text(if negative { -(magnitude as int) } else { magnitude as int }));
    text
}

/// A number below a hundred in two digits.
pub open spec fn two_digits(n: int) -> Seq<char> {
    seq![digit_char(n / 10), digit_char(n % 10)]
}

/// A number below a thousand in three digits.
pub open spec fn three_digits(n: int) -> Seq<char> {
    seq![digit_char(n / 100), digit_char((n / 10) % 10), digit_char(n % 10)]
}

/// The text of a count of hundredths as a number with two decimal
/// places: a minus sign where it is negative, the digits of its whole part,
/// a point, and the two digits of its hundredths.
pub open spec fn two_decimal_text(hundredths: int) -> Seq<char> {
    let size = if hundredths < 0 {
        -hundredths
    } else {
        hundredths
    };
    let sign = if hundredths < 0 {
        seq!['-']
    } else {
        Seq::<char>::empty()
    };
    sign + decimal_digits((size / 100) as nat) + seq![
        '.',
        digit_char((size / 10) % 10),
        digit_char(size % 10),
    ]
}

/// Writes out a count of hundredths, given by its sign and its size, as a
/// number with two decimal places.
pub fn two_decimal_string(negative: bool, magnitude: u128) -> (text: String)
    ensures
        text@ == two_decimal_text(if negative { -(magnitude as int) } else { magnitude as int }),
{
    let mut text = String::new();
    if negative && magnitude > 0 {
        proof {
            reveal_strlit("-");
        }
        text.append("-");
        assert(text@ =~= seq!['-']);
    }
    let ghost sign = text@;
    push_digits(&mut text, magnitude / 100);
    proof {
        reveal_strlit(".");
    }
    text.append(".");
    text.append(digit_str((magnitude / 10) % 10));
    text.append(digit_str(magnitude % 10));
    assert(text@ =~= sign + decimal_digits((magnitude / 100) as nat) + seq![
        '.',
        digit_char(((magnitude / 10) % 10) as int),
        digit_char((magnitude % 10) as int),
    ]);
    text
}

} // verus!
