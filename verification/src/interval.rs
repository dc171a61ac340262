//! The polling interval as it is configured: a number of seconds written in
//! decimal digits, or nothing, which stands for the default.

use vstd::prelude::*;
use vstd::std_specs::iter::IteratorSpec;

verus! {

/// The name of the setting that holds the interval.
pub const INTERVAL_VARIABLE: &'static str = "METRICS_QUERY_INTERVAL_SECS";

/// Seconds between two cycles when no interval is configured.
pub const DEFAULT_INTERVAL_SECS: u64 = 5;

/// A configured interval that is no number of seconds.
#[derive(Debug)]
pub struct InvalidInterval {
    /// The text that was configured.
    pub text: String,
}

/// Whether `c` is one of the digits `0` to `9`.
pub open spec fn is_digit(c: char) -> bool {
    '0' <= c <= '9'
}

/// The number that a digit stands for.
pub open spec fn digit_value(c: char) -> int {
    (c as int) - ('0' as int)
}

/// Whether a text is made of digits alone.
pub open spec fn all_digits(text: Seq<char>) -> bool {
    forall|i: int| 0 <= i < text.len() ==> is_digit(#[trigger] text[i])
}

/// The number that a text of digits denotes in base ten.
pub open spec fn decimal_value(digits: Seq<char>) -> int
    decreases digits.len(),
{
    if digits.len() == 0 {
        0
    } else {
        10 * decimal_value(digits.drop_last()) + digit_value(digits.last())
    }
}

/// A text without the plus sign that may stand in front of a number.
pub open spec fn unsigned(text: Seq<char>) -> Seq<char> {
    if text.len() > 0 && text[0] == '+' {
        text.skip(1)
    } else {
        text
    }
}

/// The interval that a text denotes: the value of its digits, of which
/// there is at least one, after an optional plus sign, if that value fits
/// in 64 bits. Any other text denotes none.
pub open spec fn interval_of(text: Seq<char>) -> Option<u64> {
    let digits = unsigned(text);
    if digits.len() > 0 && all_digits(digits) && decimal_value(digits) <= u64::MAX {
        Some(decimal_value(digits) as u64)
    } else {
        None
    }
}

/// The interval in force: the configured one, or the default if none is
/// configured. `None` stands for a configured text that denotes none.
pub open spec fn interval_in_force(configured: Option<Seq<char>>) -> Option<u64> {
    match configured {
        Some(text) => interval_of(text),
        None => Some(DEFAULT_INTERVAL_SECS),
    }
}

/// The value of a text of digits is not negative and not below the value
/// of any of its beginnings.
pub proof fn lemma_decimal_grows(digits: Seq<char>, upto: int)
    requires
        all_digits(digits),
        0 <= upto <= digits.len(),
    ensures
        0 <= decimal_value(digits.take(upto)) <= decimal_value(digits),
    decreases digits.len(),
{
    if digits.len() > 0 {
        let front = digits.drop_last();
        lemma_decimal_grows(front, front.len() as int);
        if upto == digits.len() {
            assert(digits.take(upto) =~= digits);
        } else {
            lemma_decimal_grows(front, upto);
            assert(front.take(upto) =~= digits.take(upto));
        }
    }
}

/// Reads a number of seconds: decimal digits, at least one, with or
/// without a plus sign in front, whose value fits in 64 bits.
pub fn parse_interval(text: &str) -> (parsed: Result<u64, InvalidInterval>)
    ensures
        match parsed {
            Ok(secs) => interval_of(text@) == Some(secs),
            Err(error) => interval_of(text@) is None && error.text@ == text@,
        },
{
    let total: usize = text.unicode_len();
    let mut chars = text.chars();
    let mut i: usize = 0;
    let mut start: usize = 0;
    let mut secs: u64 = 0;
    loop
        invariant
            total == text@.len(),
            start <= i <= total,
            start <= 1,
            start == 1 <==> (i > 0 && text@[0] == '+'),
            chars.obeys_prophetic_iter_laws(),
            chars.remaining() == text@.skip(i as int),
            all_digits(text@.subrange(start as int, i as int)),
            secs == decimal_value(text@.subrange(start as int, i as int)),
        ensures
            i == total,
            start <= total,
            start == 1 <==> (total > 0 && text@[0] == '+'),
            all_digits(text@.subrange(start as int, total as int)),
            secs == decimal_value(text@.subrange(start as int, total as int)),
        decreases total - i,
    {
        let ghost seen = text@.subrange(start as int, i as int);
        match chars.next() {
            Some(c) => {
                if i == 0 && c == '+' {
                    start = 1;
                } else if c >= '0' && c <= '9' {
                    let digit: u64 = (c as u64) - ('0' as u64);
                    let ghost longer = text@.subrange(start as int, i + 1);
                    proof {
                        assert(longer.drop_last() =~= seen);
                        lemma_decimal_grows(seen, 0);
                    }
                    let grown: Option<u64> = match secs.checked_mul(10) {
                        Some(tenfold) => tenfold.checked_add(digit),
                        None => None,
                    };
                    match grown {
                        Some(value) => {
                            secs = value;
                        },
                        None => {
                            proof {
                                let digits = unsigned(text@);
                                if all_digits(digits) {
                                    lemma_decimal_grows(digits, i + 1 - start);
                                    assert(digits.take(i + 1 - start) =~= longer);
                                }
                            }
                            return Err(InvalidInterval { text: text.to_owned() });
                        },
                    }
                } else {
                    proof {
                        let digits = unsigned(text@);
                        assert(digits[i - start] == c);
                    }
                    return Err(InvalidInterval { text: text.to_owned() });
                }
                i += 1;
            },
            None => {
                break ;
            },
        }
    }
    assert(unsigned(text@) =~= text@.subrange(start as int, total as int));
    if start == total {
        return Err(InvalidInterval { text: text.to_owned() });
    }
    Ok(secs)
}

/// The interval in force for what is configured: the default if nothing
/// is, the configured number of seconds otherwise.
pub fn interval_secs(configured: Option<&str>) -> (secs: Result<u64, InvalidInterval>)
    ensures
        match secs {
            Ok(value) => interval_in_force(
                match configured {
                    Some(text) => Some(text@),
                    None => None,
                },
            ) == Some(value),
            Err(error) => configured matches Some(text) && interval_of(text@) is None
                && error.text@ == text@,
        },
{
    match configured {
        Some(text) => parse_interval(text),
        None => Ok(DEFAULT_INTERVAL_SECS),
    }
}

} // verus!
