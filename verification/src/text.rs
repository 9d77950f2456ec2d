//! Decimal text for unsigned numbers.

use vstd::prelude::*;
use vstd::string::*;
use vstd::utf8::*;

verus! {

/// The decimal digit that stands for `d`, for `0 <= d < 10`.
pub open spec fn digit_char(d: int) -> char {
    if d == 0 {
        '0'
    } else if d == 1 {
        '1'
    } else if d == 2 {
        '2'
    } else if d == 3 {
        '3'
    } else if d == 4 {
        '4'
    } else if d == 5 {
        '5'
    } else if d == 6 {
        '6'
    } else if d == 7 {
        '7'
    } else if d == 8 {
        '8'
    } else {
        '9'
    }
}

/// The decimal text of `n`: no sign, no leading zero, `"0"` for zero.
pub open spec fn decimal_text(n: nat) -> Seq<char>
    decreases n,
{
    if n < 10 {
        seq![digit_char(n as int)]
    } else {
        decimal_text(n / 10).push(digit_char((n % 10) as int))
    }
}

/// Decimal text is ASCII and not empty, and that of a 32-bit number has at
/// most ten digits.
pub proof fn lemma_decimal_text_shape(n: nat)
    ensures
        is_ascii_chars(decimal_text(n)),
        decimal_text(n).len() >= 1,
        n <= u32::MAX ==> decimal_text(n).len() <= 10,
{
    lemma_decimal_text_length(n, 1);
    lemma_decimal_text_ascii(n);
    if n <= u32::MAX {
        assert(power_of_ten(10) == 10_000_000_000nat) by {
            reveal_with_fuel(power_of_ten, 11);
        }
        lemma_decimal_text_length(n, 10);
    }
}

spec fn power_of_ten(digits: nat) -> nat
    decreases digits,
{
    if digits == 0 {
        1
    } else {
        10 * power_of_ten((digits - 1) as nat)
    }
}

proof fn lemma_decimal_text_length(n: nat, digits: nat)
    requires
        digits >= 1,
    ensures
        decimal_text(n).len() >= 1,
        n < power_of_ten(digits) ==> decimal_text(n).len() <= digits,
    decreases n,
{
    if n >= 10 {
        if digits >= 2 {
            lemma_decimal_text_length(n / 10, (digits - 1) as nat);
        } else {
            lemma_decimal_text_length(n / 10, 1);
            assert(power_of_ten(1) == 10) by {
                assert(power_of_ten(0) == 1);
            }
        }
    }
}

proof fn lemma_decimal_text_ascii(n: nat)
    ensures
        is_ascii_chars(decimal_text(n)),
    decreases n,
{
    if n >= 10 {
        lemma_decimal_text_ascii(n / 10);
    }
}

/// The one-character text of a decimal digit.
pub fn digit_text(d: u8) -> (text: &'static str)
    requires
        d < 10,
    ensures
        text@ == seq![digit_char(d as int)],
{
    let text = if d == 0 {
        "0"
    } else if d == 1 {
        "1"
    } else if d == 2 {
        "2"
    } else if d == 3 {
        "3"
    } else if d == 4 {
        "4"
    } else if d == 5 {
        "5"
    } else if d == 6 {
        "6"
    } else if d == 7 {
        "7"
    } else if d == 8 {
        "8"
    } else {
        "9"
    };
    proof {
        reveal_strlit("0");
        reveal_strlit("1");
        reveal_strlit("2");
        reveal_strlit("3");
        reveal_strlit("4");
        reveal_strlit("5");
        reveal_strlit("6");
        reveal_strlit("7");
        reveal_strlit("8");
        reveal_strlit("9");
        assert(text@ =~= seq![digit_char(d as int)]);
    }
    text
}

/// Appends the decimal text of `n` to `out`.
pub fn push_decimal(out: &mut String, n: u128)
    ensures
        final(out)@ == old(out)@ + decimal_text(n as nat),
    decreases n,
{
    if n >= 10 {
        push_decimal(out, n / 10);
    }
    out.append(digit_text((n % 10) as u8));
    proof {
        assert(final(out)@ =~= old(out)@ + decimal_text(n as nat));
    }
}

/// The decimal text of `n`.
pub fn decimal_string(n: u128) -> (text: String)
    ensures
        text@ == decimal_text(n as nat),
{
    let mut text = String::new();
    push_decimal(&mut text, n);
    proof {
        assert(text@ =~= decimal_text(n as nat));
    }
    text
}

} // verus!
