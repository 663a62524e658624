//! Unsigned decimal numbers as text: reading command-line values and writing
//! query parameters.

use crate::text::chars_of;
use vstd::prelude::*;
use vstd::string::*;

verus! {

/// `c` is one of `0` to `9`.
pub open spec fn is_digit(c: char) -> bool {
    '0' <= c && c <= '9'
}

/// The number a digit stands for.
pub open spec fn digit_value(c: char) -> nat {
    (c as u32 - '0' as u32) as nat
}

/// The number that a run of digits spells, most significant digit first.
pub open spec fn digits_value(digits: Seq<char>) -> nat
    decreases digits.len(),
{
    if digits.len() == 0 {
        0
    } else {
        10 * digits_value(digits.drop_last()) + digit_value(digits.last())
    }
}

/// Every character of `text` is a digit.
pub open spec fn all_digits(text: Seq<char>) -> bool {
    forall|i: int| 0 <= i < text.len() ==> is_digit(#[trigger] text[i])
}

/// `text` without one leading plus sign.
pub open spec fn unsigned_digits(text: Seq<char>) -> Seq<char> {
    if text.len() > 0 && text[0] == '+' {
        text.skip(1)
    } else {
        text
    }
}

/// What `text` reads as, if it is an unsigned decimal number no greater than
/// `max`: an optional plus sign, then one or more digits and nothing else.
pub open spec fn parse_unsigned(text: Seq<char>, max: nat) -> Option<nat> {
    let digits = unsigned_digits(text);
    if digits.len() > 0 && all_digits(digits) && digits_value(digits) <= max {
        Some(digits_value(digits))
    } else {
        None
    }
}

/// A run of digits spells at least what any of its prefixes spells.
pub proof fn lemma_digits_value_grows(digits: Seq<char>, k: int)
    requires
        0 <= k <= digits.len(),
    ensures
        digits_value(digits.take(k)) <= digits_value(digits),
    decreases digits.len(),
{
    if k == digits.len() {
        assert(digits.take(k) =~= digits);
    } else {
        lemma_digits_value_grows(digits.drop_last(), k);
        assert(digits.drop_last().take(k) =~= digits.take(k));
    }
}

/// Reads the characters from `start` on as a run of digits worth at most `max`.
fn read_digits(chars: &Vec<char>, start: usize, max: u32) -> (value: Option<u32>)
    requires
        start <= chars.len(),
        max <= 0xffff,
    ensures
        value == ({
            let digits = chars@.skip(start as int);
            if digits.len() > 0 && all_digits(digits) && digits_value(digits) <= max {
                Some(digits_value(digits) as u32)
            } else {
                None
            }
        }),
{
    let ghost digits = chars@.skip(start as int);
    if start == chars.len() {
        return None;
    }
    let mut total: u32 = 0;
    let mut i: usize = start;
    while i < chars.len()
        invariant
            start <= i <= chars.len(),
            max <= 0xffff,
            digits == chars@.skip(start as int),
            all_digits(digits.take(i - start)),
            total == digits_value(digits.take(i - start)),
            total <= max,
        decreases chars.len() - i,
    {
        let c = chars[i];
        let ghost seen = digits.take(i - start);
        let ghost next = digits.take(i - start + 1);
        proof {
            assert(next.drop_last() =~= seen);
            assert(next.last() == c);
            lemma_digits_value_grows(digits, i - start + 1);
        }
        if c < '0' || c > '9' {
            assert(!is_digit(digits[i - start]));
            return None;
        }
        let digit: u32 = c as u32 - '0' as u32;
        let grown: u32 = total * 10 + digit;
        assert(grown == digits_value(next));
        if grown > max {
            return None;
        }
        assert(all_digits(next)) by {
            assert forall|j: int| 0 <= j < next.len() implies is_digit(#[trigger] next[j]) by {
                if j < seen.len() {
                    assert(next[j] == seen[j]);
                }
            }
        }
        total = grown;
        i += 1;
    }
    assert(digits.take(i - start) =~= digits);
    Some(total)
}

/// Reads `text` as an unsigned decimal number no greater than `max`.
fn read_unsigned(text: &str, max: u32) -> (value: Option<u32>)
    requires
        max <= 0xffff,
    ensures
        value == match parse_unsigned(text@, max as nat) {
            Some(n) => Some(n as u32),
            None => None,
        },
{
    let chars = chars_of(text);
    if chars.len() > 0 && chars[0] == '+' {
        read_digits(&chars, 1, max)
    } else {
        assert(chars@.skip(0) =~= chars@);
        read_digits(&chars, 0, max)
    }
}

/// Reads `text` as a number from 0 to 255.
pub fn parse_u8(text: &str) -> (value: Option<u8>)
    ensures
        value == match parse_unsigned(text@, 255) {
            Some(n) => Some(n as u8),
            None => None,
        },
{
    match read_unsigned(text, 255) {
        Some(n) => Some(n as u8),
        None => None,
    }
}

/// Reads `text` as a number from 0 to 65535.
pub fn parse_u16(text: &str) -> (value: Option<u16>)
    ensures
        value == match parse_unsigned(text@, 65535) {
            Some(n) => Some(n as u16),
            None => None,
        },
{
    match read_unsigned(text, 65535) {
        Some(n) => Some(n as u16),
        None => None,
    }
}

/// The character for a digit's number.
pub open spec fn digit_char(d: nat) -> char {
    if d == 0 {
        '0'
    } else if d == 1 {
        '1'
    } else if d == 2 {
        '2'
    } else if d == 3 {
        '3'
    } else if d == 4 {
        '4'
    } else if d == 5 {
        '5'
    } else if d == 6 {
        '6'
    } else if d == 7 {
        '7'
    } else if d == 8 {
        '8'
    } else {
        '9'
    }
}

/// The decimal spelling of `n`, without leading zeros.
pub open spec fn decimal_text(n: nat) -> Seq<char>
    decreases n,
{
    if n < 10 {
        seq![digit_char(n)]
    } else {
        decimal_text(n / 10).push(digit_char(n % 10))
    }
}

/// The one-character text of a digit.
fn digit_text(d: u8) -> (text: &'static str)
    requires
        d < 10,
    ensures
        text@ == seq![digit_char(d as nat)],
{
    proof {
        reveal_strlit("0");
        reveal_strlit("1");
        reveal_strlit("2");
        reveal_strlit("3");
        reveal_strlit("4");
        reveal_strlit("5");
        reveal_strlit("6");
        reveal_strlit("7");
        reveal_strlit("8");
        reveal_strlit("9");
    }
    let text = if d == 0 {
        "0"
    } else if d == 1 {
        "1"
    } else if d == 2 {
        "2"
    } else if d == 3 {
        "3"
    } else if d == 4 {
        "4"
    } else if d == 5 {
        "5"
    } else if d == 6 {
        "6"
    } else if d == 7 {
        "7"
    } else if d == 8 {
        "8"
    } else {
        "9"
    };
    assert(text@ =~= seq![digit_char(d as nat)]);
    text
}

/// Writes `n` in decimal.
pub fn decimal_string(n: u8) -> (text: String)
    ensures
        text@ == decimal_text(n as nat),
{
    let mut text = String::new();
    if n >= 100 {
        text.append(digit_text(n / 100));
    }
    if n >= 10 {
        text.append(digit_text((n / 10) % 10));
    }
    text.append(digit_text(n % 10));
    proof {
        reveal_with_fuel(decimal_text, 3);
        assert(text@ =~= decimal_text(n as nat));
    }
    text
}

} // verus!
