//! Decimal numbers in text.
use vstd::prelude::*;

verus! {

/// `String::push` appends the given character to the end of the string.
pub assume_specification[ String::push ](text: &mut String, character: char)
    ensures
        final(text)@ == old(text)@.push(character),
;

/// Two string slices are equal exactly if they hold the same characters.
pub assume_specification[ <str as PartialEq>::eq ](left: &str, right: &str) -> (equal: bool)
    ensures
        equal == (left@ == right@),
;

/// The character of a decimal digit.
pub open spec fn digit(value: int) -> char {
    (value + 48) as u8 as char
}

/// Whether a character is one of the decimal digits `0` to `9`.
pub open spec fn is_digit(character: char) -> bool {
    48 <= character as u32 <= 57
}

/// The decimal notation of a number, without leading zeros.
pub open spec fn decimal(value: nat) -> Seq<char>
    decreases value,
{
    if value < 10 {
        seq![digit(value as int)]
    } else {
        decimal(value / 10).push(digit((value % 10) as int))
    }
}

/// The number that a run of decimal digits denotes; leading zeros count for nothing.
pub open spec fn number(digits: Seq<char>) -> nat
    decreases digits.len(),
{
    if digits.len() == 0 {
        0
    } else {
        (number(digits.drop_last()) * 10 + (digits.last() as u32 - 48)) as nat
    }
}

/// Whether every character of a text is a decimal digit.
pub open spec fn all_digits(text: Seq<char>) -> bool {
    forall|i: int| 0 <= i < text.len() ==> is_digit(#[trigger] text[i])
}

/// A text without the plus sign that may lead it.
pub open spec fn unsigned(text: Seq<char>) -> Seq<char> {
    if text.len() > 0 && text[0] == '+' {
        text.skip(1)
    } else {
        text
    }
}

/// What a text is worth as an unsigned 32-bit number in decimal notation: an optional
/// plus sign, then at least one digit and nothing but digits, and a value that fits.
pub open spec fn parsed(text: Seq<char>) -> Option<u32> {
    let digits = unsigned(text);
    if digits.len() > 0 && all_digits(digits) && number(digits) <= u32::MAX {
        Some(number(digits) as u32)
    } else {
        None
    }
}

/// Appends the decimal notation of a number to a text.
pub fn push_decimal(text: &mut String, value: u32)
    ensures
        final(text)@ == old(text)@ + decimal(value as nat),
    decreases value,
{
    if value >= 10 {
        push_decimal(text, value / 10);
    }
    let last: u8 = (value % 10) as u8;
    text.push((last + 48) as char);
    assert(final(text)@ =~= old(text)@ + decimal(value as nat));
}

/// Reads a text as an unsigned 32-bit number in decimal notation.
pub fn parse(text: &str) -> (value: Option<u32>)
    ensures
        value == parsed(text@),
{
    let length = text.unicode_len();
    let mut position: usize = 0;
    if length > 0 && text.get_char(0) == '+' {
        position = 1;
    }
    if position == length {
        return None;
    }
    let start = position;
    let ghost digits = unsigned(text@);
    assert(digits =~= text@.skip(start as int));
    let mut total: u32 = 0;
    while position < length
        invariant
            start <= position <= length,
            length == text@.len(),
            digits == unsigned(text@),
            digits == text@.skip(start as int),
            all_digits(digits.take(position - start)),
            total == number(digits.take(position - start)),
        decreases length - position,
    {
        let character = text.get_char(position);
        let code = character as u32;
        proof {
            assert(digits.take(position - start + 1).drop_last() =~= digits.take(
                position - start,
            ));
            assert(digits.take(position - start + 1).last() == character);
        }
        if code < 48 || code > 57 {
            proof {
                assert(digits[position - start] == character);
            }
            return None;
        }
        let unit = code - 48;
        if total > (u32::MAX - unit) / 10 {
            proof {
                if all_digits(digits) {
                    lemma_number_grows(digits.take(position - start + 1), digits);
                }
            }
            return None;
        }
        total = total * 10 + unit;
        position = position + 1;
        proof {
            assert forall|i: int| 0 <= i < position - start implies is_digit(
                #[trigger] digits.take(position - start)[i],
            ) by {
                if i < position - start - 1 {
                    assert(digits.take(position - start - 1)[i] == digits[i]);
                }
            }
        }
    }
    proof {
        assert(digits.take(position - start) =~= digits);
    }
    Some(total)
}

/// A run of digits denotes at least what any of its prefixes denotes.
pub proof fn lemma_number_grows(prefix: Seq<char>, digits: Seq<char>)
    requires
        prefix.len() <= digits.len(),
        prefix =~= digits.take(prefix.len() as int),
        all_digits(digits),
    ensures
        number(prefix) <= number(digits),
    decreases digits.len(),
{
    if prefix.len() < digits.len() {
        let shorter = digits.drop_last();
        assert(prefix =~= shorter.take(prefix.len() as int));
        assert forall|i: int| 0 <= i < shorter.len() implies is_digit(#[trigger] shorter[i]) by {
            assert(shorter[i] == digits[i]);
        }
        lemma_number_grows(prefix, shorter);
        assert(is_digit(digits[digits.len() - 1]));
    } else {
        assert(prefix =~= digits);
    }
}

} // verus!
