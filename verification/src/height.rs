//! Block heights as they arrive in a request: decimal text.

use crate::encoding::{DIGIT_NINE, DIGIT_ZERO};
use crate::error::ResolveError;
use vstd::prelude::*;

verus! {

/// The byte of the character `+`.
const PLUS: u8 = 43;

/// Whether `c` is a decimal digit.
pub open spec fn is_digit(c: char) -> bool {
    '0' <= c <= '9'
}

/// The number that a run of decimal digits writes.
pub open spec fn decimal_value(digits: Seq<char>) -> int
    decreases digits.len(),
{
    if digits.len() == 0 {
        0
    } else {
        10 * decimal_value(digits.drop_last()) + (digits.last() as int - '0' as int)
    }
}

/// The digits of a height token: the text without its leading `+`, if it has one.
pub open spec fn height_digits(text: Seq<char>) -> Seq<char> {
    if text.len() > 0 && text[0] == '+' {
        text.drop_first()
    } else {
        text
    }
}

/// Whether `text` writes a height: an optional `+`, then one or more decimal
/// digits and nothing else, for a number that fits 64 bits.
pub open spec fn is_height_token(text: Seq<char>) -> bool {
    let digits = height_digits(text);
    &&& digits.len() > 0
    &&& forall|i: int| 0 <= i < digits.len() ==> is_digit(#[trigger] digits[i])
    &&& decimal_value(digits) <= u64::MAX
}

/// More digits never write a smaller number.
pub proof fn lemma_decimal_value_grows(digits: Seq<char>, n: int)
    requires
        0 <= n <= digits.len(),
        forall|i: int| 0 <= i < digits.len() ==> is_digit(#[trigger] digits[i]),
    ensures
        0 <= decimal_value(digits.take(n)) <= decimal_value(digits),
    decreases digits.len(),
{
    if n == digits.len() {
        assert(digits.take(n) =~= digits);
        if n > 0 {
            lemma_decimal_value_grows(digits.drop_last(), n - 1);
        }
    } else {
        assert(digits.drop_last().take(n) =~= digits.take(n));
        lemma_decimal_value_grows(digits.drop_last(), n);
    }
}

/// Reads a block height from its text.
pub fn parse_height(token: &str) -> (r: Result<u64, ResolveError>)
    ensures
        r is Ok <==> is_height_token(token@),
        r matches Ok(height) ==> height == decimal_value(height_digits(token@)),
        r matches Err(e) ==> e == ResolveError::InvalidHeight,
{
    let ghost digits = height_digits(token@);
    if !token.is_ascii() {
        assert(!is_height_token(token@)) by {
            if is_height_token(token@) {
                assert forall|i: int| 0 <= i < token@.len() implies '\0' <= #[trigger] token@[i]
                    <= '\u{7f}' by {
                    if token@[0] == '+' {
                        if i > 0 {
                            assert(is_digit(digits[i - 1]));
                        }
                    } else {
                        assert(is_digit(digits[i]));
                    }
                }
            }
        }
        return Err(ResolveError::InvalidHeight);
    }
    let bytes = token.as_bytes();
    proof {
        vstd::string::is_ascii_spec_bytes(token);
    }
    let start: usize = if bytes.len() > 0 && bytes[0] == PLUS {
        1
    } else {
        0
    };
    assert(bytes@.len() > 0 ==> (bytes@[0] == PLUS <==> token@[0] == '+')) by {
        if bytes@.len() > 0 {
            assert('\0' <= token@[0] <= '\u{7f}');
        }
    }
    assert(digits =~= token@.skip(start as int));
    if start == bytes.len() {
        return Err(ResolveError::InvalidHeight);
    }
    let mut value: u64 = 0;
    let mut i: usize = start;
    while i < bytes.len()
        invariant
            start <= i <= bytes.len(),
            bytes@.len() == token@.len(),
            digits == height_digits(token@),
            digits == token@.skip(start as int),
            vstd::utf8::is_ascii_chars(token@),
            forall|k: int| 0 <= k < bytes@.len() ==> #[trigger] bytes@[k] == token@[k] as u8,
            forall|k: int| 0 <= k < i - start ==> is_digit(#[trigger] digits[k]),
            value == decimal_value(digits.take(i - start)),
        decreases bytes.len() - i,
    {
        let b = bytes[i];
        let ghost c = token@[i as int];
        assert(b == c as u8 && '\0' <= c <= '\u{7f}');
        assert(c == digits[i - start]);
        if b < DIGIT_ZERO || b > DIGIT_NINE {
            assert(!is_digit(digits[i - start]));
            return Err(ResolveError::InvalidHeight);
        }
        let ghost longer = digits.take(i - start + 1);
        assert(longer.drop_last() =~= digits.take(i - start));
        assert(longer.last() == c);
        let next = match value.checked_mul(10) {
            Some(tens) => tens.checked_add((b - DIGIT_ZERO) as u64),
            None => None,
        };
        match next {
            Some(v) => {
                value = v;
            },
            None => {
                assert(decimal_value(longer) > u64::MAX);
                assert(!is_height_token(token@)) by {
                    if forall|k: int| 0 <= k < digits.len() ==> is_digit(#[trigger] digits[k]) {
                        lemma_decimal_value_grows(digits, i - start + 1);
                    }
                }
                return Err(ResolveError::InvalidHeight);
            },
        }
        i += 1;
    }
    assert(digits.take(i - start) =~= digits);
    Ok(value)
}

} // verus!
