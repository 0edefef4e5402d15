//! Colors as a configuration writes them: `#rrggbb`, `0xrrggbb`, or a decimal
//! number.

use vstd::prelude::*;
use vstd::string::*;

verus! {

/// Value of a character as a digit: `0` to `9`, then the letters of either
/// case from ten on.
pub open spec fn digit_value(character: char) -> Option<int> {
    let code = character as u32;
    if 0x30 <= code && code <= 0x39 {
        Some(code - 0x30)
    } else if 0x61 <= code && code <= 0x7a {
        Some(code - 0x61 + 10)
    } else if 0x41 <= code && code <= 0x5a {
        Some(code - 0x41 + 10)
    } else {
        None
    }
}

/// The character is a digit of the radix.
pub open spec fn is_digit(character: char, radix: int) -> bool {
    digit_value(character).is_some() && digit_value(character).unwrap() < radix
}

/// Every character is a digit of the radix.
pub open spec fn all_digits(digits: Seq<char>, radix: int) -> bool {
    forall|i: int| 0 <= i < digits.len() ==> is_digit(#[trigger] digits[i], radix)
}

/// The number that a run of digits writes, its first digit weighing most.
pub open spec fn digits_value(digits: Seq<char>, radix: int) -> int
    decreases digits.len(),
{
    if digits.len() == 0 {
        0
    } else {
        digits_value(digits.drop_last(), radix) * radix + digit_value(digits.last()).unwrap()
    }
}

/// The number that a text writes from `start` on: an optional plus sign, then
/// at least one digit and nothing else; a number above `u32::MAX` is none.
pub open spec fn number_written(text: Seq<char>, start: int, radix: int) -> Option<u32> {
    let from = if start < text.len() && text[start] == '+' {
        start + 1
    } else {
        start
    };
    let digits = text.subrange(from, text.len() as int);
    if from < text.len() && all_digits(digits, radix) && digits_value(digits, radix) <= u32::MAX {
        Some(digits_value(digits, radix) as u32)
    } else {
        None
    }
}

/// The color that a text writes: hexadecimal after `#` or `0x`, decimal
/// otherwise.
pub open spec fn color_written(text: Seq<char>) -> Option<u32> {
    if text.len() >= 1 && text[0] == '#' {
        number_written(text, 1, 16)
    } else if text.len() >= 2 && text[0] == '0' && text[1] == 'x' {
        number_written(text, 2, 16)
    } else {
        number_written(text, 0, 10)
    }
}

/// A run of digits writes no less than any run that it starts with.
pub proof fn lemma_digits_grow(digits: Seq<char>, radix: int, count: int)
    requires
        1 <= radix,
        all_digits(digits, radix),
        0 <= count <= digits.len(),
    ensures
        0 <= digits_value(digits.subrange(0, count), radix) <= digits_value(digits, radix),
    decreases digits.len() - count,
{
    if count == digits.len() {
        assert(digits.subrange(0, count) =~= digits);
        lemma_digits_not_negative(digits, radix);
    } else {
        let front = digits.drop_last();
        assert(front.subrange(0, count) =~= digits.subrange(0, count));
        assert(all_digits(front, radix)) by {
            assert forall|i: int| 0 <= i < front.len() implies is_digit(
                #[trigger] front[i],
                radix,
            ) by {
                assert(front[i] == digits[i]);
            }
        }
        lemma_digits_grow(front, radix, count);
        lemma_digits_not_negative(front, radix);
        assert(is_digit(digits[digits.len() - 1], radix));
        assert(digits_value(front, radix) * radix >= digits_value(front, radix))
            by (nonlinear_arith)
            requires
                digits_value(front, radix) >= 0,
                radix >= 1,
        ;
    }
}

/// A run of digits writes no negative number.
pub proof fn lemma_digits_not_negative(digits: Seq<char>, radix: int)
    requires
        1 <= radix,
        all_digits(digits, radix),
    ensures
        0 <= digits_value(digits, radix),
    decreases digits.len(),
{
    if digits.len() > 0 {
        let front = digits.drop_last();
        assert forall|i: int| 0 <= i < front.len() implies is_digit(#[trigger] front[i], radix) by {
            assert(front[i] == digits[i]);
        }
        lemma_digits_not_negative(front, radix);
        assert(is_digit(digits[digits.len() - 1], radix));
        assert(digits_value(front, radix) * radix >= 0) by (nonlinear_arith)
            requires
                digits_value(front, radix) >= 0,
                radix >= 1,
        ;
    }
}

/// Computes `digit_value`, for the digits of the radix alone.
fn digit_of(character: char, radix: u32) -> (digit: Option<u32>)
    requires
        2 <= radix <= 36,
    ensures
        digit.is_some() == is_digit(character, radix as int),
        digit.is_some() ==> digit_value(character) == Some(digit.unwrap() as int),
{
    let code: u32 = character as u32;
    let value: u32 = if 0x30 <= code && code <= 0x39 {
        code - 0x30
    } else if 0x61 <= code && code <= 0x7a {
        code - 0x61 + 10
    } else if 0x41 <= code && code <= 0x5a {
        code - 0x41 + 10
    } else {
        return None;
    };
    if value < radix {
        Some(value)
    } else {
        None
    }
}

/// Computes `number_written`.
pub fn parse_number(text: &str, start: usize, radix: u32) -> (number: Option<u32>)
    requires
        2 <= radix <= 36,
        start <= text@.len(),
    ensures
        number == number_written(text@, start as int, radix as int),
{
    let length: usize = text.unicode_len();
    let from: usize = if start < length && text.get_char(start) == '+' {
        start + 1
    } else {
        start
    };
    if from >= length {
        return None;
    }
    let ghost digits = text@.subrange(from as int, length as int);
    let mut value: u64 = 0;
    let mut index: usize = from;
    while index < length
        invariant
            2 <= radix <= 36,
            length == text@.len(),
            from <= index <= length,
            from < length,
            from == if start < text@.len() && text@[start as int] == '+' {
                start + 1
            } else {
                start as int
            },
            digits == text@.subrange(from as int, length as int),
            all_digits(digits.subrange(0, index - from), radix as int),
            value == digits_value(digits.subrange(0, index - from), radix as int),
            value <= u32::MAX,
        decreases length - index,
    {
        let digit = digit_of(text.get_char(index), radix);
        assert(digits[index - from] == text@[index as int]);
        if digit.is_none() {
            assert(!is_digit(digits[index - from], radix as int));
            return None;
        }
        let ghost before = digits.subrange(0, index - from);
        let ghost after = digits.subrange(0, index - from + 1);
        proof {
            assert(after.drop_last() =~= before);
            assert(after.last() == digits[index - from]);
            assert forall|i: int| 0 <= i < after.len() implies is_digit(
                #[trigger] after[i],
                radix as int,
            ) by {
                if i < before.len() {
                    assert(after[i] == before[i]);
                }
            }
            assert(value * radix <= u32::MAX * 36) by (nonlinear_arith)
                requires
                    value <= u32::MAX,
                    radix <= 36,
            ;
        }
        let next: u64 = value * (radix as u64) + (digit.unwrap() as u64);
        assert(next == digits_value(after, radix as int));
        if next > 0xffff_ffffu64 {
            proof {
                if all_digits(digits, radix as int) {
                    lemma_digits_grow(digits, radix as int, index - from + 1);
                }
            }
            return None;
        }
        value = next;
        index = index + 1;
    }
    proof {
        assert(digits.subrange(0, index - from) =~= digits);
    }
    Some(value as u32)
}

/// Computes `color_written`.
pub fn parse_color(text: &str) -> (color: Option<u32>)
    ensures
        color == color_written(text@),
{
    let length: usize = text.unicode_len();
    if length >= 1 && text.get_char(0) == '#' {
        parse_number(text, 1, 16)
    } else if length >= 2 && text.get_char(0) == '0' && text.get_char(1) == 'x' {
        parse_number(text, 2, 16)
    } else {
        parse_number(text, 0, 10)
    }
}

} // verus!
