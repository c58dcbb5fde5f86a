//! Writing numbers as decimal text.

use vstd::prelude::*;
use vstd::string::*;

verus! {

/// The character of a decimal digit.
pub open spec fn digit_char(d: int) -> char {
    if d == 0 {
        '0'
    } else if d == 1 {
        '1'
    } else if d == 2 {
        '2'
    } else if d == 3 {
        '3'
    } else if d == 4 {
        '4'
    } else if d == 5 {
        '5'
    } else if d == 6 {
        '6'
    } else if d == 7 {
        '7'
    } else if d == 8 {
        '8'
    } else {
        '9'
    }
}

/// The decimal digits of a natural number, without leading zeros.
pub open spec fn natural_text(n: nat) -> Seq<char>
    decreases n,
{
    if n < 10 {
        seq![digit_char(n as int)]
    } else {
        natural_text(n / 10).push(digit_char((n % 10) as int))
    }
}

/// An integer in decimal: a minus sign if it is negative, then the digits
/// of its magnitude.
pub open spec fn decimal_text(n: int) -> Seq<char> {
    if n < 0 {
        seq!['-'] + natural_text((-n) as nat)
    } else {
        natural_text(n as nat)
    }
}

/// The digits of a number that is not zero, and no digits for zero.
spec fn leading_text(n: nat) -> Seq<char> {
    if n == 0 {
        Seq::empty()
    } else {
        natural_text(n)
    }
}

/// The characters of a sequence of digits, the last digit first.
spec fn backwards_text(digits: Seq<u8>) -> Seq<char> {
    Seq::new(digits.len(), |j: int| digit_char(digits[digits.len() - 1 - j] as int))
}

fn digit_str(d: u8) -> (s: &'static str)
    requires
        d < 10,
    ensures
        s@ == seq![digit_char(d as int)],
{
    proof {
        reveal_strlit("0");
        reveal_strlit("1");
        reveal_strlit("2");
        reveal_strlit("3");
        reveal_strlit("4");
        reveal_strlit("5");
        reveal_strlit("6");
        reveal_strlit("7");
        reveal_strlit("8");
        reveal_strlit("9");
    }
    let s = if d == 0 {
        "0"
    } else if d == 1 {
        "1"
    } else if d == 2 {
        "2"
    } else if d == 3 {
        "3"
    } else if d == 4 {
        "4"
    } else if d == 5 {
        "5"
    } else if d == 6 {
        "6"
    } else if d == 7 {
        "7"
    } else if d == 8 {
        "8"
    } else {
        "9"
    };
    assert(s@ =~= seq![digit_char(d as int)]);
    s
}

/// Writes an integer in decimal.
pub fn decimal(n: i64) -> (text: String)
    ensures
        text@ == decimal_text(n as int),
{
    if n == 0 {
        proof {
            reveal_strlit("0");
            assert("0"@ =~= decimal_text(0));
        }
        return String::from_str("0");
    }
    let magnitude: u64 = if n < 0 {
        (-(n as i128)) as u64
    } else {
        n as u64
    };
    let mut digits: Vec<u8> = Vec::new();
    let mut rest: u64 = magnitude;
    assert(leading_text(magnitude as nat) + backwards_text(digits@) =~= natural_text(
        magnitude as nat,
    ));
    while rest > 0
        invariant
            magnitude > 0,
            forall|j: int| 0 <= j < digits@.len() ==> digits@[j] < 10,
            natural_text(magnitude as nat) == leading_text(rest as nat) + backwards_text(digits@),
        decreases rest,
    {
        let d: u8 = (rest % 10) as u8;
        let ghost before = digits@;
        digits.push(d);
        assert(backwards_text(digits@) =~= seq![digit_char(d as int)] + backwards_text(before));
        assert(leading_text(rest as nat) =~= leading_text((rest / 10) as nat) + seq![
            digit_char(d as int),
        ]);
        assert(leading_text((rest / 10) as nat) + backwards_text(digits@) =~= leading_text(
            rest as nat,
        ) + backwards_text(before));
        rest = rest / 10;
    }
    let mut text = String::new();
    if n < 0 {
        proof {
            reveal_strlit("-");
        }
        text.append("-");
        assert(text@ =~= seq!['-']);
    }
    let ghost sign = text@;
    let len: usize = digits.len();
    let mut i: usize = len;
    assert(text@ =~= sign + backwards_text(digits@).subrange(0, 0));
    while i > 0
        invariant
            i <= len == digits@.len(),
            forall|j: int| 0 <= j < digits@.len() ==> digits@[j] < 10,
            text@ == sign + backwards_text(digits@).subrange(0, len - i),
        decreases i,
    {
        i -= 1;
        text.append(digit_str(digits[i]));
        assert(text@ =~= sign + backwards_text(digits@).subrange(0, len - i));
    }
    assert(backwards_text(digits@).subrange(0, len as int) =~= backwards_text(digits@));
    assert(leading_text(0) + backwards_text(digits@) =~= backwards_text(digits@));
    assert(text@ =~= decimal_text(n as int));
    text
}

} // verus!
