//! Decimal notation of unsigned integers.

use vstd::prelude::*;
use vstd::string::{StrSliceExecFns, StringExecFns};

verus! {

/// The character that writes the digit `d`.
pub open spec fn digit_char(d: nat) -> char {
    if d == 0 {
        '0'
    } else if d == 1 {
        '1'
    } else if d == 2 {
        '2'
    } else if d == 3 {
        '3'
    } else if d == 4 {
        '4'
    } else if d == 5 {
        '5'
    } else if d == 6 {
        '6'
    } else if d == 7 {
        '7'
    } else if d == 8 {
        '8'
    } else {
        '9'
    }
}

/// Decimal notation of `n`: no sign, no leading zero, `"0"` for zero.
pub open spec fn decimal(n: nat) -> Seq<char>
    decreases n,
{
    if n < 10 {
        seq![digit_char(n)]
    } else {
        decimal(n / 10).push(digit_char(n % 10))
    }
}

/// The text of one digit.
fn digit_text(d: u64) -> (res: &'static str)
    requires
        d < 10,
    ensures
        res@ == seq![digit_char(d as nat)],
{
    proof {
        reveal_strlit("0");
        reveal_strlit("1");
        reveal_strlit("2");
        reveal_strlit("3");
        reveal_strlit("4");
        reveal_strlit("5");
        reveal_strlit("6");
        reveal_strlit("7");
        reveal_strlit("8");
        reveal_strlit("9");
    }
    let res = if d == 0 {
        "0"
    } else if d == 1 {
        "1"
    } else if d == 2 {
        "2"
    } else if d == 3 {
        "3"
    } else if d == 4 {
        "4"
    } else if d == 5 {
        "5"
    } else if d == 6 {
        "6"
    } else if d == 7 {
        "7"
    } else if d == 8 {
        "8"
    } else {
        "9"
    };
    assert(res@ =~= seq![digit_char(d as nat)]);
    res
}

/// Writes `n` in decimal notation.
pub fn decimal_text(n: u64) -> (res: String)
    ensures
        res@ == decimal(n as nat),
    decreases n,
{
    if n < 10 {
        String::from_str(digit_text(n))
    } else {
        let head = decimal_text(n / 10);
        let res = head.concat(digit_text(n % 10));
        assert(res@ =~= decimal((n / 10) as nat).push(digit_char((n % 10) as nat)));
        res
    }
}

/// Every decimal notation has at least one character.
pub proof fn lemma_decimal_nonempty(n: nat)
    ensures
        decimal(n).len() >= 1,
    decreases n,
{
    if n >= 10 {
        lemma_decimal_nonempty(n / 10);
    }
}

/// The digit that `c` writes, if it writes one.
pub open spec fn digit_value(c: char) -> Option<nat> {
    if c == '0' {
        Some(0)
    } else if c == '1' {
        Some(1)
    } else if c == '2' {
        Some(2)
    } else if c == '3' {
        Some(3)
    } else if c == '4' {
        Some(4)
    } else if c == '5' {
        Some(5)
    } else if c == '6' {
        Some(6)
    } else if c == '7' {
        Some(7)
    } else if c == '8' {
        Some(8)
    } else if c == '9' {
        Some(9)
    } else {
        None
    }
}

/// The number that the digits `text` write, if `text` is one or more digits.
pub open spec fn digits_value(text: Seq<char>) -> Option<nat>
    decreases text.len(),
{
    if text.len() == 0 {
        None
    } else if text.len() == 1 {
        digit_value(text[0])
    } else {
        match (digits_value(text.drop_last()), digit_value(text.last())) {
            (Some(value), Some(digit)) => Some(value * 10 + digit),
            _ => None,
        }
    }
}

/// The number that `text` writes, if `text` is one or more digits, after a `+` or not.
pub open spec fn parsed(text: Seq<char>) -> Option<nat> {
    if text.len() > 0 && text[0] == '+' {
        digits_value(text.drop_first())
    } else {
        digits_value(text)
    }
}

/// Computes the digit that `c` writes, if it writes one.
fn digit_of(c: char) -> (res: Option<usize>)
    ensures
        match res {
            Some(digit) => digit_value(c) == Some(digit as nat) && digit < 10,
            None => digit_value(c) is None,
        },
{
    if c == '0' {
        Some(0)
    } else if c == '1' {
        Some(1)
    } else if c == '2' {
        Some(2)
    } else if c == '3' {
        Some(3)
    } else if c == '4' {
        Some(4)
    } else if c == '5' {
        Some(5)
    } else if c == '6' {
        Some(6)
    } else if c == '7' {
        Some(7)
    } else if c == '8' {
        Some(8)
    } else if c == '9' {
        Some(9)
    } else {
        None
    }
}

/// Reads a `usize` written in decimal notation: one or more digits, after a `+` or not.
/// Returns nothing for any other text, and for a number too large for a `usize`.
pub fn parse_usize(text: &str) -> (res: Option<usize>)
    ensures
        res == match parsed(text@) {
            Some(value) => if value <= usize::MAX {
                Some(value as usize)
            } else {
                None
            },
            None => None,
        },
{
    let len = text.unicode_len();
    if len == 0 {
        return None;
    }
    let first: usize = if text.get_char(0) == '+' {
        1
    } else {
        0
    };
    if first == len {
        return None;
    }
    let ghost body = text@.subrange(first as int, len as int);
    assert(body =~= if first == 1 {
        text@.drop_first()
    } else {
        text@
    });
    assert(parsed(text@) == digits_value(body));
    let mut value: usize = 0;
    let mut i: usize = first;
    while i < len
        invariant
            first < len,
            first <= i <= len,
            len == text@.len(),
            body == text@.subrange(first as int, len as int),
            parsed(text@) == digits_value(body),
            i > first ==> digits_value(body.subrange(0, i - first)) == Some(value as nat),
            i == first ==> value == 0,
        decreases len - i,
    {
        let ghost seen = body.subrange(0, i - first);
        let ghost more = body.subrange(0, i + 1 - first);
        assert(more.drop_last() =~= seen);
        assert(more.last() == text@[i as int]);
        let digit = match digit_of(text.get_char(i)) {
            Some(digit) => digit,
            None => {
                proof {
                    assert(digits_value(more) is None);
                    lemma_digits_prefix(body, i + 1 - first);
                }
                return None;
            },
        };
        assert(digits_value(more) == Some((value * 10 + digit) as nat));
        if value > (usize::MAX - digit) / 10 {
            proof {
                assert(value * 10 + digit > usize::MAX);
                lemma_digits_grow(body, i + 1 - first);
            }
            return None;
        }
        value = value * 10 + digit;
        i += 1;
    }
    assert(body.subrange(0, len - first) =~= body);
    Some(value)
}

/// A text with a front that writes no number writes no number.
pub proof fn lemma_digits_prefix(text: Seq<char>, len: int)
    requires
        1 <= len <= text.len(),
        digits_value(text.subrange(0, len)) is None,
    ensures
        digits_value(text) is None,
    decreases text.len() - len,
{
    if len < text.len() {
        assert(text.subrange(0, len + 1).drop_last() =~= text.subrange(0, len));
        lemma_digits_prefix(text, len + 1);
    } else {
        assert(text.subrange(0, len) =~= text);
    }
}

/// A text writes a number that is at least the number its front writes.
pub proof fn lemma_digits_grow(text: Seq<char>, len: int)
    requires
        1 <= len <= text.len(),
    ensures
        digits_value(text) matches Some(value) ==> digits_value(text.subrange(0, len)) matches Some(
            front,
        ) && front <= value,
    decreases text.len() - len,
{
    if len < text.len() {
        assert(text.subrange(0, len + 1).drop_last() =~= text.subrange(0, len));
        lemma_digits_grow(text, len + 1);
    } else {
        assert(text.subrange(0, len) =~= text);
    }
}

/// Reading what `decimal` wrote gives the number back.
pub proof fn lemma_parsed_decimal(n: nat)
    ensures
        digits_value(decimal(n)) == Some(n),
        parsed(decimal(n)) == Some(n),
    decreases n,
{
    if n >= 10 {
        lemma_parsed_decimal(n / 10);
        lemma_decimal_nonempty(n / 10);
        let text = decimal(n);
        assert(text.drop_last() =~= decimal(n / 10));
        assert(text.last() == digit_char(n % 10));
        assert(text[0] == decimal(n / 10)[0]);
    }
    lemma_decimal_nonempty(n);
    lemma_decimal_starts_with_digit(n);
}

/// A decimal notation starts with a digit.
pub proof fn lemma_decimal_starts_with_digit(n: nat)
    ensures
        decimal(n).len() >= 1,
        digit_value(decimal(n)[0]) is Some,
        decimal(n)[0] != '+',
    decreases n,
{
    if n >= 10 {
        lemma_decimal_starts_with_digit(n / 10);
        assert(decimal(n)[0] == decimal(n / 10)[0]);
    }
}

} // verus!
