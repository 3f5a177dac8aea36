//! Decimal parsing of unsigned integers, as `str::parse` reads them.

use vstd::prelude::*;

verus! {

/// Whether a character is an ASCII decimal digit.
pub open spec fn is_digit(character: char) -> bool {
    '0' <= character && character <= '9'
}

/// Value of an ASCII decimal digit.
pub open spec fn digit_value(character: char) -> int {
    character as int - '0' as int
}

/// Value of a sequence of decimal digits, most significant first.
pub open spec fn decimal(digits: Seq<char>) -> int
    decreases digits.len(),
{
    if digits.len() == 0 {
        0
    } else {
        decimal(digits.drop_last()) * 10 + digit_value(digits.last())
    }
}

/// The digits of an unsigned number's text: without one leading `+`.
pub open spec fn unsigned_digits(text: Seq<char>) -> Seq<char> {
    if text.len() > 0 && text[0] == '+' {
        text.drop_first()
    } else {
        text
    }
}

/// The unsigned number a text denotes, when it is one digit or more after an
/// optional `+` and does not exceed `maximum`.
pub open spec fn parse_unsigned(text: Seq<char>, maximum: int) -> Option<int> {
    let digits = unsigned_digits(text);
    if digits.len() > 0 && (forall|index: int| 0 <= index < digits.len() ==> is_digit(#[trigger] digits[index]))
        && decimal(digits) <= maximum {
        Some(decimal(digits))
    } else {
        None
    }
}

/// Lemma: appending digits never lowers a decimal value.
proof fn lemma_decimal_grows(digits: Seq<char>, prefix: int)
    requires
        0 <= prefix <= digits.len(),
        forall|index: int| 0 <= index < digits.len() ==> is_digit(#[trigger] digits[index]),
    ensures
        decimal(digits.take(prefix)) <= decimal(digits),
        decimal(digits.take(prefix)) >= 0,
    decreases digits.len() - prefix,
{
    if prefix < digits.len() {
        lemma_decimal_grows(digits, prefix + 1);
        assert(digits.take(prefix + 1).drop_last() =~= digits.take(prefix));
        assert(digits.take(prefix + 1).last() == digits[prefix]);
        assert(is_digit(digits[prefix]));
    } else {
        assert(digits.take(prefix) =~= digits);
        lemma_decimal_nonnegative(digits);
    }
}

/// Lemma: a sequence of digits has a non-negative value.
pub proof fn lemma_decimal_nonnegative(digits: Seq<char>)
    requires
        forall|index: int| 0 <= index < digits.len() ==> is_digit(#[trigger] digits[index]),
    ensures
        decimal(digits) >= 0,
    decreases digits.len(),
{
    if digits.len() > 0 {
        assert forall|index: int| 0 <= index < digits.drop_last().len() implies is_digit(
            #[trigger] digits.drop_last()[index],
        ) by {
            assert(digits.drop_last()[index] == digits[index]);
        }
        lemma_decimal_nonnegative(digits.drop_last());
        assert(is_digit(digits[digits.len() - 1]));
    }
}

/// Lemma: a parsed number lies between zero and the maximum.
pub proof fn lemma_parse_bounds(text: Seq<char>, maximum: int)
    ensures
        parse_unsigned(text, maximum) matches Some(value) ==> 0 <= value <= maximum,
{
    if parse_unsigned(text, maximum) is Some {
        lemma_decimal_nonnegative(unsigned_digits(text));
    }
}

/// Parses an unsigned decimal number no greater than `maximum`.
pub fn parse_unsigned_text(text: &[char], maximum: u64) -> (result: Option<u64>)
    ensures
        match parse_unsigned(text@, maximum as int) {
            Some(value) => result == Some(value as u64),
            None => result.is_none(),
        },
        parse_unsigned(text@, maximum as int) matches Some(value) ==> 0 <= value <= maximum,
{
    proof {
        lemma_parse_bounds(text@, maximum as int);
    }
    let start: usize = if text.len() > 0 && text[0] == '+' {
        1
    } else {
        0
    };
    let ghost digits = unsigned_digits(text@);
    assert(digits =~= text@.subrange(start as int, text@.len() as int));
    if start >= text.len() {
        assert(digits.len() == 0);
        return None;
    }
    let mut value: u64 = 0;
    let mut index = start;
    while index < text.len()
        invariant
            start <= index <= text@.len(),
            start < text@.len(),
            digits == text@.subrange(start as int, text@.len() as int),
            digits == unsigned_digits(text@),
            forall|k: int| 0 <= k < index - start ==> is_digit(#[trigger] digits[k]),
            value == decimal(digits.take(index - start)),
            value <= maximum,
        decreases text@.len() - index,
    {
        let character = text[index];
        if character < '0' || character > '9' {
            assert(digits[index - start] == character);
            assert(!is_digit(digits[index - start]));
            return None;
        }
        let digit = (character as u32 - '0' as u32) as u64;
        assert(digits.take(index - start + 1).drop_last() =~= digits.take(index - start));
        assert(digits.take(index - start + 1).last() == digits[index - start]);
        let wide = (value as u128) * 10 + digit as u128;
        if wide > maximum as u128 {
            proof {
                assert forall|k: int| 0 <= k < index - start + 1 implies is_digit(
                    #[trigger] digits.take(index - start + 1)[k],
                ) by {
                    if k < index - start {
                        assert(digits.take(index - start + 1)[k] == digits[k]);
                    }
                }
                if forall|k: int| 0 <= k < digits.len() ==> is_digit(#[trigger] digits[k]) {
                    lemma_decimal_grows(digits, index - start + 1);
                }
            }
            return None;
        }
        value = value * 10 + digit;
        index += 1;
    }
    assert(digits.take(index - start) =~= digits);
    Some(value)
}

/// The 32-bit signed number a text denotes, as `str::parse::<i32>` reads it: an optional sign
/// and one digit or more, within range.
pub open spec fn parse_signed(text: Seq<char>) -> Option<int> {
    if text.len() > 0 && text[0] == '-' {
        let digits = text.drop_first();
        if digits.len() > 0 && (forall|index: int| 0 <= index < digits.len() ==> is_digit(#[trigger] digits[index]))
            && decimal(digits) <= 0x8000_0000 {
            Some(-decimal(digits))
        } else {
            None
        }
    } else {
        parse_unsigned(text, i32::MAX as int)
    }
}

/// Parses a 32-bit signed decimal number.
pub fn parse_signed_text(text: &[char]) -> (result: Option<i32>)
    ensures
        match parse_signed(text@) {
            Some(value) => result == Some(value as i32),
            None => result.is_none(),
        },
        parse_signed(text@) matches Some(value) ==> i32::MIN <= value <= i32::MAX,
{
    if text.len() > 0 && text[0] == '-' {
        let mut digits: Vec<char> = Vec::new();
        let mut index: usize = 1;
        while index < text.len()
            invariant
                1 <= index <= text@.len(),
                digits@ == text@.subrange(1, index as int),
            decreases text@.len() - index,
        {
            digits.push(text[index]);
            index += 1;
            assert(text@.subrange(1, index as int) == text@.subrange(1, index - 1).push(
                text@[index - 1],
            ));
        }
        assert(digits@ == text@.drop_first());
        if digits.len() > 0 && digits[0] == '+' {
            assert(unsigned_digits(digits@) == digits@.drop_first());
            assert(!is_digit(digits@[0]));
            return None;
        }
        assert(unsigned_digits(digits@) == digits@);
        match parse_unsigned_text(digits.as_slice(), 0x8000_0000) {
            Some(magnitude) => {
                proof {
                    lemma_parse_bounds(digits@, 0x8000_0000);
                }
                Some((0 - (magnitude as i64)) as i32)
            },
            None => None,
        }
    } else {
        match parse_unsigned_text(text, i32::MAX as u64) {
            Some(value) => Some(value as i32),
            None => None,
        }
    }
}

/// Decimal digits of a natural number, most significant first, without leading zeros.
pub open spec fn digits_of(value: nat) -> Seq<char>
    decreases value,
{
    if value < 10 {
        seq![((value + 48) as u8) as char]
    } else {
        digits_of(value / 10).push(((value % 10 + 48) as u8) as char)
    }
}

/// Decimal text of an integer, with a leading `-` when negative.
pub open spec fn signed_text(value: int) -> Seq<char> {
    if value < 0 {
        seq!['-'] + digits_of((-value) as nat)
    } else {
        digits_of(value as nat)
    }
}

/// Decimal digits of a natural number.
pub(crate) fn natural_text(value: u64) -> (result: String)
    ensures
        result@ == digits_of(value as nat),
    decreases value,
{
    let digit = ((value % 10) as u8 + 48u8) as char;
    if value < 10 {
        let mut result = String::new();
        crate::text::push_char(&mut result, digit);
        assert(result@ =~= seq![digit]);
        result
    } else {
        let mut result = natural_text(value / 10);
        crate::text::push_char(&mut result, digit);
        result
    }
}

/// Decimal text of a 64-bit signed integer.
pub fn decimal_text(value: i64) -> (result: String)
    ensures
        result@ == signed_text(value as int),
{
    if value < 0 {
        let magnitude: u64 = if value == i64::MIN {
            0x8000_0000_0000_0000
        } else {
            (0 - value) as u64
        };
        let mut result = String::new();
        crate::text::push_char(&mut result, '-');
        let digits = natural_text(magnitude);
        crate::text::append_text(&mut result, digits.as_str());
        assert(result@ =~= seq!['-'] + digits_of((-value) as nat));
        result
    } else {
        natural_text(value as u64)
    }
}

/// Lemma: the digits of a number are decimal digits whose value is the number.
proof fn lemma_digits_value(value: nat)
    ensures
        digits_of(value).len() > 0,
        forall|index: int| 0 <= index < digits_of(value).len() ==> is_digit(#[trigger] digits_of(value)[index]),
        decimal(digits_of(value)) == value,
    decreases value,
{
    if value < 10 {
        let digit = ((value + 48) as u8) as char;
        assert((value + 48) as u8 == value + 48);
        assert(digit as int == value + 48);
        assert(digits_of(value) == seq![digit]);
        assert(digits_of(value).drop_last() =~= Seq::<char>::empty());
        assert(decimal(digits_of(value)) == decimal(Seq::<char>::empty()) * 10 + digit_value(digit));
    } else {
        lemma_digits_value(value / 10);
        let rest = digits_of(value / 10);
        let digit = ((value % 10 + 48) as u8) as char;
        assert((value % 10 + 48) as u8 == value % 10 + 48);
        assert(digit as int == value % 10 + 48);
        assert(digits_of(value) == rest.push(digit));
        assert(digits_of(value).drop_last() == rest);
        assert forall|index: int| 0 <= index < digits_of(value).len() implies is_digit(
            #[trigger] digits_of(value)[index],
        ) by {
            if index < rest.len() {
                assert(digits_of(value)[index] == rest[index]);
            }
        }
        assert(value == (value / 10) * 10 + value % 10) by (nonlinear_arith);
    }
}

/// A number written in decimal reads back as the same number.
pub proof fn lemma_decimal_round_trip(value: nat, maximum: int)
    requires
        value <= maximum,
    ensures
        parse_unsigned(digits_of(value), maximum) == Some(value as int),
{
    lemma_digits_value(value);
    assert(is_digit(digits_of(value)[0]));
    assert(unsigned_digits(digits_of(value)) == digits_of(value));
}

} // verus!
