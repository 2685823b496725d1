//! Character classes and decimal numerals.
//!
//! The Unicode character classes come from the standard library; the library
//! reaches them through three small trusted functions and reasons about them
//! by name only. Everything about decimal numerals is defined and proved here.

use vstd::prelude::*;

verus! {

/// What `char::is_alphabetic` answers for `c`: whether `c` has the Unicode
/// property `Alphabetic`.
pub uninterp spec fn is_alphabetic(c: char) -> bool;

/// What `char::is_numeric` answers for `c`: whether `c` belongs to one of the
/// Unicode general categories for numbers (`Nd`, `Nl`, `No`).
pub uninterp spec fn is_numeric(c: char) -> bool;

/// What `char::is_whitespace` answers for `c`: whether `c` has the Unicode
/// property `White_Space`.
pub uninterp spec fn is_whitespace(c: char) -> bool;

/// Alphabetic or numeric, which is how the standard library defines
/// `char::is_alphanumeric`.
pub open spec fn is_alphanumeric(c: char) -> bool {
    is_alphabetic(c) || is_numeric(c)
}

/// One of the ten ASCII decimal digits.
pub open spec fn is_ascii_digit(c: char) -> bool {
    '0' <= c <= '9'
}

/// Trusted: calls `char::is_alphabetic`. The contract only gives the answer
/// its name; nothing else is assumed about which characters are alphabetic.
#[verifier::external_body]
pub(crate) fn alphabetic(c: char) -> (b: bool)
    ensures
        b == is_alphabetic(c),
{
    c.is_alphabetic()
}

/// Trusted: calls `char::is_numeric`. The contract only gives the answer its
/// name; nothing else is assumed about which characters are numeric.
#[verifier::external_body]
pub(crate) fn numeric(c: char) -> (b: bool)
    ensures
        b == is_numeric(c),
{
    c.is_numeric()
}

/// Trusted: calls `char::is_whitespace`. The contract only gives the answer
/// its name; nothing else is assumed about which characters are whitespace.
#[verifier::external_body]
pub(crate) fn whitespace(c: char) -> (b: bool)
    ensures
        b == is_whitespace(c),
{
    c.is_whitespace()
}

/// Trusted: calls `String::push`, which appends exactly one character to the
/// end of the string and leaves the rest as it was.
#[verifier::external_body]
pub(crate) fn push_char(text: &mut String, c: char)
    ensures
        final(text)@ == old(text)@.push(c),
{
    text.push(c)
}

/// Tests whether `c` is alphabetic or numeric.
pub(crate) fn alphanumeric(c: char) -> (b: bool)
    ensures
        b == is_alphanumeric(c),
{
    alphabetic(c) || numeric(c)
}

/// Tests whether `c` is one of the ten ASCII decimal digits.
pub(crate) fn ascii_digit(c: char) -> (b: bool)
    ensures
        b == is_ascii_digit(c),
{
    '0' <= c && c <= '9'
}

/// The value of an ASCII decimal digit.
pub open spec fn digit_value(c: char) -> int {
    c as int - '0' as int
}

/// The ASCII digit that stands for `d`, for `d` below ten.
pub open spec fn digit_char(d: int) -> char {
    if d == 0 {
        '0'
    } else if d == 1 {
        '1'
    } else if d == 2 {
        '2'
    } else if d == 3 {
        '3'
    } else if d == 4 {
        '4'
    } else if d == 5 {
        '5'
    } else if d == 6 {
        '6'
    } else if d == 7 {
        '7'
    } else if d == 8 {
        '8'
    } else {
        '9'
    }
}

/// Every character of `text` is an ASCII decimal digit.
pub open spec fn all_ascii_digits(text: Seq<char>) -> bool {
    forall|i: int| 0 <= i < text.len() ==> is_ascii_digit(#[trigger] text[i])
}

/// The number that a run of ASCII decimal digits denotes, most significant
/// digit first. The empty run denotes zero.
pub open spec fn decimal_value(text: Seq<char>) -> int
    decreases text.len(),
{
    if text.len() == 0 {
        0
    } else {
        10 * decimal_value(text.drop_last()) + digit_value(text.last())
    }
}

/// A run of characters that can be read as an `i128`: ASCII digits only, and a
/// value within range.
pub open spec fn denotes_i128(text: Seq<char>) -> bool {
    all_ascii_digits(text) && decimal_value(text) <= i128::MAX
}

/// The decimal numeral of a natural number, without leading zeros.
pub open spec fn decimal_digits(n: nat) -> Seq<char>
    decreases n,
{
    if n < 10 {
        seq![digit_char(n as int)]
    } else {
        decimal_digits(n / 10).push(digit_char((n % 10) as int))
    }
}

/// The decimal numeral of an integer, with a leading minus sign when negative.
pub open spec fn decimal(i: int) -> Seq<char> {
    if i < 0 {
        seq!['-'] + decimal_digits((-i) as nat)
    } else {
        decimal_digits(i as nat)
    }
}

/// A digit run's value is never negative, and a prefix never denotes more than
/// the whole run.
pub proof fn lemma_decimal_value_prefix(text: Seq<char>, n: int)
    requires
        all_ascii_digits(text),
        0 <= n <= text.len(),
    ensures
        0 <= decimal_value(text.take(n)) <= decimal_value(text),
    decreases text.len() - n,
{
    lemma_decimal_value_nonnegative(text.take(n));
    if n < text.len() {
        lemma_decimal_value_prefix(text, n + 1);
        let longer = text.take(n + 1);
        assert(longer.drop_last() =~= text.take(n));
        assert(is_ascii_digit(text[n]));
        assert(longer.last() == text[n]);
    } else {
        assert(text.take(n) =~= text);
    }
}

/// A digit run's value is never negative.
pub proof fn lemma_decimal_value_nonnegative(text: Seq<char>)
    requires
        all_ascii_digits(text),
    ensures
        0 <= decimal_value(text),
    decreases text.len(),
{
    if text.len() > 0 {
        lemma_decimal_value_nonnegative(text.drop_last());
        assert(is_ascii_digit(text.last()));
    }
}

/// Reads `text[from..to]` as a decimal `i128`.
///
/// The result is the denoted value when the characters are all ASCII digits
/// and the value fits, and `None` in every other case.
pub fn read_decimal(text: &Vec<char>, from: usize, to: usize) -> (value: Option<i128>)
    requires
        from <= to <= text.len(),
    ensures
        value == if denotes_i128(text@.subrange(from as int, to as int)) {
            Some(decimal_value(text@.subrange(from as int, to as int)) as i128)
        } else {
            None::<i128>
        },
{
    let ghost run = text@.subrange(from as int, to as int);
    let mut value: i128 = 0;
    let mut at: usize = from;
    while at < to
        invariant
            from <= at <= to <= text.len(),
            run == text@.subrange(from as int, to as int),
            all_ascii_digits(run.take(at - from)),
            value == decimal_value(run.take(at - from)),
            0 <= value,
        decreases to - at,
    {
        let c = text[at];
        let ghost seen = run.take(at - from);
        let ghost more = run.take(at - from + 1);
        proof {
            assert(more.drop_last() =~= seen);
            assert(more.last() == c);
        }
        if !ascii_digit(c) {
            proof {
                assert(run[at - from] == c);
            }
            return None;
        }
        let d: i128 = (c as u8 - '0' as u8) as i128;
        proof {
            assert(d == digit_value(c));
            assert forall|i: int| 0 <= i < more.len() implies is_ascii_digit(#[trigger] more[i]) by {
                if i < seen.len() {
                    assert(more[i] == seen[i]);
                }
            }
        }
        let scaled = match value.checked_mul(10) {
            Some(scaled) => scaled,
            None => {
                proof {
                    lemma_overflow_persists(run, at - from + 1);
                }
                return None;
            },
        };
        value = match scaled.checked_add(d) {
            Some(sum) => sum,
            None => {
                proof {
                    lemma_overflow_persists(run, at - from + 1);
                }
                return None;
            },
        };
        at = at + 1;
    }
    proof {
        assert(run.take(at - from) =~= run);
    }
    Some(value)
}

/// Once a prefix of a run denotes more than an `i128` holds, so does the run,
/// if it is made of digits at all.
proof fn lemma_overflow_persists(run: Seq<char>, n: int)
    requires
        0 <= n <= run.len(),
        decimal_value(run.take(n)) > i128::MAX,
    ensures
        !denotes_i128(run),
{
    if all_ascii_digits(run) {
        lemma_decimal_value_prefix(run, n);
    }
}

/// The ASCII digit for a value below ten.
fn digit_of(d: u8) -> (c: char)
    requires
        d < 10,
    ensures
        c == digit_char(d as int),
{
    if d == 0 {
        '0'
    } else if d == 1 {
        '1'
    } else if d == 2 {
        '2'
    } else if d == 3 {
        '3'
    } else if d == 4 {
        '4'
    } else if d == 5 {
        '5'
    } else if d == 6 {
        '6'
    } else if d == 7 {
        '7'
    } else if d == 8 {
        '8'
    } else {
        '9'
    }
}

/// Appends the decimal numeral of `n` to `text`.
pub(crate) fn push_decimal_digits(text: &mut String, n: u128)
    ensures
        final(text)@ == old(text)@ + decimal_digits(n as nat),
    decreases n,
{
    if n >= 10 {
        push_decimal_digits(text, n / 10);
    }
    push_char(text, digit_of((n % 10) as u8));
}

/// Appends the decimal numeral of `i` to `text`, with a minus sign when `i` is
/// negative.
pub(crate) fn push_decimal(text: &mut String, i: i128)
    ensures
        final(text)@ == old(text)@ + decimal(i as int),
{
    if i < 0 {
        push_char(text, '-');
        let magnitude: u128 = (-(i + 1)) as u128 + 1;
        push_decimal_digits(text, magnitude);
    } else {
        push_decimal_digits(text, i as u128);
    }
}

} // verus!
