//! Resolution of the run count from its optional textual override.
//!
//! The override is accepted when it is a decimal numeral, optionally preceded
//! by one `+`, whose value fits the run-count type. Anything else, including
//! surrounding white space, is silently replaced by the default.

use vstd::prelude::*;
use vstd::string::*;

verus! {

/// Number of runs made when no usable override is given.
pub const DEFAULT_RUNS: u16 = 16;

/// Whether `c` is one of the ten ASCII decimal digits.
pub open spec fn is_digit(c: char) -> bool {
    '0' <= c <= '9'
}

/// The number that the decimal digit `c` stands for.
pub open spec fn digit_value(c: char) -> nat {
    (c as nat - '0' as nat) as nat
}

/// Whether every character of `text` is a decimal digit.
pub open spec fn all_digits(text: Seq<char>) -> bool {
    forall|i: int| 0 <= i < text.len() ==> is_digit(#[trigger] text[i])
}

/// The value of a digit sequence read as a decimal numeral, most significant
/// digit first. The empty sequence has value zero.
pub open spec fn decimal_value(digits: Seq<char>) -> nat
    decreases digits.len(),
{
    if digits.len() == 0 {
        0
    } else {
        decimal_value(digits.drop_last()) * 10 + digit_value(digits.last())
    }
}

/// The part of `text` that must consist of digits: all of it, or what
/// follows a single leading `+`.
pub open spec fn numeral_of(text: Seq<char>) -> Seq<char> {
    if text.len() > 0 && text[0] == '+' {
        text.drop_first()
    } else {
        text
    }
}

/// The run count that `text` denotes, if it denotes one.
pub open spec fn parsed_run_count(text: Seq<char>) -> Option<u16> {
    let digits = numeral_of(text);
    if digits.len() > 0 && all_digits(digits) && decimal_value(digits) <= u16::MAX {
        Some(decimal_value(digits) as u16)
    } else {
        None
    }
}

/// The run count in force when the override, if there is one, reads `text`.
pub open spec fn resolved_run_count(text: Option<Seq<char>>) -> u16 {
    match text {
        Some(t) => match parsed_run_count(t) {
            Some(n) => n,
            None => DEFAULT_RUNS,
        },
        None => DEFAULT_RUNS,
    }
}

/// The text of an optional string.
pub open spec fn text_of(text: Option<&str>) -> Option<Seq<char>> {
    match text {
        Some(t) => Some(t@),
        None => None,
    }
}

/// Appending a digit multiplies the value by ten and adds the digit.
proof fn lemma_decimal_value_push(digits: Seq<char>, c: char)
    ensures
        decimal_value(digits.push(c)) == decimal_value(digits) * 10 + digit_value(c),
{
    assert(digits.push(c).drop_last() =~= digits);
}

/// The value of a numeral is at least the value of each of its prefixes.
proof fn lemma_decimal_value_prefix(digits: Seq<char>, n: int)
    requires
        0 <= n <= digits.len(),
    ensures
        decimal_value(digits.take(n)) <= decimal_value(digits),
    decreases digits.len() - n,
{
    if n == digits.len() {
        assert(digits.take(n) =~= digits);
    } else {
        lemma_decimal_value_prefix(digits.drop_last(), n);
        assert(digits.drop_last().take(n) =~= digits.take(n));
    }
}

/// Reads a run count from `text`.
///
/// Returns the count exactly when `text` is a decimal numeral, with an
/// optional single leading `+`, that fits in sixteen bits.
pub fn parse_run_count(text: &str) -> (count: Option<u16>)
    ensures
        count == parsed_run_count(text@),
{
    broadcast use is_ascii_spec_bytes;

    if !text.is_ascii() {
        proof {
            let k = choose|k: int| 0 <= k < text@.len() && !('\0' <= #[trigger] text@[k] <= '\u{7f}');
            let j = if text@[0] == '+' { k - 1 } else { k };
            assert(!is_digit(numeral_of(text@)[j]));
        }
        return None;
    }
    let bytes = text.as_bytes();
    let len = bytes.len();
    assert(bytes@ =~= Seq::new(text@.len(), |i: int| text@[i] as u8));
    if len == 0 {
        return None;
    }
    let start: usize = if bytes[0] == '+' as u8 { 1 } else { 0 };
    let ghost digits = numeral_of(text@);
    assert((start == 1) == (text@[0] == '+')) by {
        assert('\0' <= text@[0] <= '\u{7f}');
    }
    assert(digits =~= text@.subrange(start as int, len as int));
    if start == len {
        return None;
    }
    let mut value: u32 = 0;
    let mut i: usize = start;
    while i < len
        invariant
            is_ascii(text),
            len == text@.len(),
            bytes@ == Seq::new(text@.len(), |i: int| text@[i] as u8),
            start <= i <= len,
            digits == numeral_of(text@),
            digits == text@.subrange(start as int, len as int),
            all_digits(digits.take(i - start)),
            value == decimal_value(digits.take(i - start)),
            value <= u16::MAX,
        decreases len - i,
    {
        let b = bytes[i];
        assert(digits[i - start] == text@[i as int]);
        assert(b == text@[i as int] as u8);
        assert('\0' <= text@[i as int] <= '\u{7f}');
        if b < '0' as u8 || b > '9' as u8 {
            assert(!is_digit(digits[i - start]));
            return None;
        }
        let d: u32 = (b - '0' as u8) as u32;
        proof {
            assert(is_digit(digits[i - start]));
            assert(d == digit_value(digits[i - start]));
            assert(digits.take(i - start + 1) =~= digits.take(i - start).push(digits[i - start]));
            lemma_decimal_value_push(digits.take(i - start), digits[i - start]);
        }
        value = value * 10 + d;
        if value > u16::MAX as u32 {
            proof {
                lemma_decimal_value_prefix(digits, i - start + 1);
            }
            return None;
        }
        i = i + 1;
    }
    assert(digits.take(i - start) =~= digits);
    Some(value as u16)
}

/// Resolves the run count from the override text, if one was supplied.
///
/// A missing or unusable override yields [`DEFAULT_RUNS`].
pub fn resolve_run_count(text: Option<&str>) -> (runs: u16)
    ensures
        runs == resolved_run_count(text_of(text)),
{
    match text {
        Some(t) => match parse_run_count(t) {
            Some(n) => n,
            None => DEFAULT_RUNS,
        },
        None => DEFAULT_RUNS,
    }
}

} // verus!
