//! Unsigned numbers as decimal text.
//!
//! A number text is an optional `+` followed by one or more of the digits `0` to
//! `9`; leading zeros are allowed. Nothing else is a number: no sign `-`, no
//! blanks, no fraction, no exponent.

use vstd::prelude::*;
use vstd::string::*;

verus! {

pub open spec fn is_digit(c: char) -> bool {
    '0' <= c <= '9'
}

/// The value of a digit character.
pub open spec fn digit_value(c: char) -> nat {
    (c as nat - '0' as nat) as nat
}

/// The character of a digit below ten.
pub open spec fn digit_char(d: nat) -> char {
    if d == 0 {
        '0'
    } else if d == 1 {
        '1'
    } else if d == 2 {
        '2'
    } else if d == 3 {
        '3'
    } else if d == 4 {
        '4'
    } else if d == 5 {
        '5'
    } else if d == 6 {
        '6'
    } else if d == 7 {
        '7'
    } else if d == 8 {
        '8'
    } else {
        '9'
    }
}

pub open spec fn all_digits(text: Seq<char>) -> bool {
    forall|i: int| 0 <= i < text.len() ==> is_digit(#[trigger] text[i])
}

/// The number that a sequence of digits writes, most significant digit first.
pub open spec fn digits_value(digits: Seq<char>) -> nat
    decreases digits.len(),
{
    if digits.len() == 0 {
        0
    } else {
        digits_value(digits.drop_last()) * 10 + digit_value(digits.last())
    }
}

/// A number text without its optional leading `+`.
pub open spec fn unsigned_part(text: Seq<char>) -> Seq<char> {
    if text.len() > 0 && text[0] == '+' {
        text.skip(1)
    } else {
        text
    }
}

/// The number that `text` writes, if it is a number text.
pub open spec fn parsed(text: Seq<char>) -> Option<nat> {
    let digits = unsigned_part(text);
    if digits.len() > 0 && all_digits(digits) {
        Some(digits_value(digits))
    } else {
        None
    }
}

/// The number that `text` writes, if it is a number text and the number fits 64 bits.
pub open spec fn parsed_u64(text: Seq<char>) -> Option<u64> {
    match parsed(text) {
        Some(value) => if value <= u64::MAX {
            Some(value as u64)
        } else {
            None
        },
        None => None,
    }
}

/// The digits of a positive number, most significant first; none for zero.
pub open spec fn digits_of(n: nat) -> Seq<char>
    decreases n,
{
    if n == 0 {
        Seq::<char>::empty()
    } else {
        digits_of(n / 10).push(digit_char(n % 10))
    }
}

/// The shortest number text of `n`: no `+`, no leading zero but for zero itself.
pub open spec fn rendered(n: nat) -> Seq<char> {
    if n == 0 {
        seq!['0']
    } else {
        digits_of(n)
    }
}

/// More digits never write a smaller number.
pub proof fn lemma_prefix_value(digits: Seq<char>, k: int)
    requires
        0 <= k <= digits.len(),
    ensures
        digits_value(digits.take(k)) <= digits_value(digits),
    decreases digits.len() - k,
{
    if k < digits.len() {
        lemma_prefix_value(digits, k + 1);
        assert(digits.take(k + 1).drop_last() =~= digits.take(k));
    } else {
        assert(digits.take(k) =~= digits);
    }
}

/// The digits of a number are digits, and they write the number.
pub proof fn lemma_digits_of(n: nat)
    ensures
        all_digits(digits_of(n)),
        digits_value(digits_of(n)) == n,
        n > 0 ==> digits_of(n).len() > 0 && digits_of(n)[0] != '0',
    decreases n,
{
    if n > 0 {
        lemma_digits_of(n / 10);
        let higher = digits_of(n / 10);
        let all = digits_of(n);
        assert(all.drop_last() =~= higher);
        assert(digit_value(digit_char(n % 10)) == n % 10);
        assert(is_digit(digit_char(n % 10)));
        assert forall|i: int| 0 <= i < all.len() implies is_digit(#[trigger] all[i]) by {
            if i < higher.len() {
                assert(all[i] == higher[i]);
            }
        }
        if n / 10 > 0 {
            assert(all[0] == higher[0]);
        }
    }
}

/// Reading undoes writing: the text of a number is read as that number.
pub proof fn parse_inverts_render(n: nat)
    ensures
        parsed(rendered(n)) == Some(n),
{
    lemma_digits_of(n);
    if n == 0 {
        let zero = seq!['0'];
        assert(zero.drop_last() =~= Seq::<char>::empty());
        assert(digits_value(zero) == 0) by {
            reveal_with_fuel(digits_value, 2);
        }
    } else {
        assert(is_digit(digits_of(n)[0]));
    }
}

/// Reads a run of digits. `None` where `digits` is empty, holds anything but
/// digits, or writes a number above 64 bits.
fn parse_digits(digits: &str) -> (n: Option<u64>)
    ensures
        n == if digits@.len() > 0 && all_digits(digits@) && digits_value(digits@) <= u64::MAX {
            Some(digits_value(digits@) as u64)
        } else {
            None
        },
{
    let mut value: u64 = 0;
    let mut any = false;
    for c in it: digits.chars()
        invariant
            it.seq() == digits@,
            any == (it.index() > 0),
            all_digits(digits@.take(it.index() as int)),
            value == digits_value(digits@.take(it.index() as int)),
    {
        let ghost k = it.index() as int;
        proof {
            assert(digits@.take(k + 1).drop_last() =~= digits@.take(k));
            assert(digits@.take(k + 1).last() == c);
        }
        if c < '0' || c > '9' {
            assert(!is_digit(digits@[k]));
            return None;
        }
        let d: u64 = (c as u64) - ('0' as u64);
        assert(d == digit_value(c));
        let next = match value.checked_mul(10) {
            Some(tens) => tens.checked_add(d),
            None => None,
        };
        match next {
            Some(v) => {
                value = v;
                any = true;
            },
            None => {
                proof {
                    if all_digits(digits@) {
                        lemma_prefix_value(digits@, k + 1);
                    }
                }
                return None;
            },
        }
        proof {
            assert forall|i: int| 0 <= i < k + 1 implies is_digit(
                #[trigger] digits@.take(k + 1)[i],
            ) by {
                if i < k {
                    assert(digits@.take(k)[i] == digits@[i]);
                }
            }
        }
    }
    proof {
        assert(digits@.take(digits@.len() as int) =~= digits@);
    }
    if any {
        Some(value)
    } else {
        None
    }
}

/// Reads a number text.
pub fn parse_u64(text: &str) -> (n: Option<u64>)
    ensures
        n == parsed_u64(text@),
{
    let len = text.unicode_len();
    if len > 0 && text.get_char(0) == '+' {
        parse_digits(text.substring_char(1, len))
    } else {
        parse_digits(text)
    }
}

/// The text of one digit.
fn digit_text(d: u64) -> (text: &'static str)
    requires
        d < 10,
    ensures
        text@ == seq![digit_char(d as nat)],
{
    proof {
        reveal_strlit("0");
        reveal_strlit("1");
        reveal_strlit("2");
        reveal_strlit("3");
        reveal_strlit("4");
        reveal_strlit("5");
        reveal_strlit("6");
        reveal_strlit("7");
        reveal_strlit("8");
        reveal_strlit("9");
    }
    let text = if d == 0 {
        "0"
    } else if d == 1 {
        "1"
    } else if d == 2 {
        "2"
    } else if d == 3 {
        "3"
    } else if d == 4 {
        "4"
    } else if d == 5 {
        "5"
    } else if d == 6 {
        "6"
    } else if d == 7 {
        "7"
    } else if d == 8 {
        "8"
    } else {
        "9"
    };
    assert(text@ =~= seq![digit_char(d as nat)]);
    text
}

/// Writes a number as its shortest number text.
pub fn render_u64(n: u64) -> (text: String)
    ensures
        text@ == rendered(n as nat),
{
    if n == 0 {
        return digit_text(0).to_string();
    }
    let mut text = String::new();
    let mut rest = n;
    while rest > 0
        invariant
            digits_of(n as nat) == digits_of(rest as nat) + text@,
        decreases rest,
    {
        let mut longer = digit_text(rest % 10).to_string();
        longer.append(text.as_str());
        proof {
            let lower = digits_of((rest / 10) as nat);
            assert(digits_of(rest as nat) + text@ =~= lower + longer@);
        }
        text = longer;
        rest = rest / 10;
    }
    assert(digits_of(0) + text@ =~= text@);
    text
}

} // verus!
