//! The countdown that a player asks for.

use crate::text::{chars_of, trim_bounds, trimmed};
use vstd::prelude::*;

verus! {

/// The shortest countdown, in seconds.
pub const MIN_TIMEOUT: u32 = 1;

/// The longest countdown, in seconds.
pub const MAX_TIMEOUT: u32 = 999;

/// Why a text is no countdown.
#[derive(Clone, Copy, Debug, PartialEq, Eq, Structural)]
pub enum TimeoutError {
    /// The text is not a number that fits in 32 bits.
    NotANumber,
    /// The number is 0 or above `MAX_TIMEOUT`.
    OutOfRange,
}

/// A decimal digit.
pub open spec fn is_digit(c: char) -> bool {
    0x30 <= c as u32 <= 0x39
}

/// The number that a sequence of digits spells.
pub open spec fn decimal(digits: Seq<char>) -> nat
    decreases digits.len(),
{
    if digits.len() == 0 {
        0
    } else {
        decimal(digits.drop_last()) * 10 + (digits.last() as u32 - 0x30) as nat
    }
}

/// The digits of a number that may be written with a plus sign in front.
pub open spec fn unsigned_digits(text: Seq<char>) -> Seq<char> {
    if text.len() > 0 && text[0] == '+' {
        text.drop_first()
    } else {
        text
    }
}

/// The number that `text` spells: digits, at least one, with or without a
/// plus sign in front, of a value that fits in 32 bits.
pub open spec fn parsed_number(text: Seq<char>) -> Option<nat> {
    let digits = unsigned_digits(text);
    if digits.len() > 0 && (forall|i: int| 0 <= i < digits.len() ==> is_digit(#[trigger] digits[i]))
        && decimal(digits) <= u32::MAX {
        Some(decimal(digits))
    } else {
        None
    }
}

/// The countdown that `input` asks for: the number it spells between the
/// white space round it, if that lies between `MIN_TIMEOUT` and
/// `MAX_TIMEOUT`.
pub open spec fn timeout_of(input: Seq<char>) -> Result<nat, TimeoutError> {
    match parsed_number(trimmed(input)) {
        None => Err(TimeoutError::NotANumber),
        Some(seconds) => if MIN_TIMEOUT <= seconds <= MAX_TIMEOUT {
            Ok(seconds)
        } else {
            Err(TimeoutError::OutOfRange)
        },
    }
}

/// A longer number is no smaller than the number that its first digits spell.
proof fn lemma_decimal_grows(digits: Seq<char>, shorter: int)
    requires
        0 <= shorter <= digits.len(),
        forall|i: int| 0 <= i < digits.len() ==> is_digit(#[trigger] digits[i]),
    ensures
        decimal(digits.take(shorter)) <= decimal(digits),
    decreases digits.len() - shorter,
{
    if shorter == digits.len() {
        assert(digits.take(shorter) =~= digits);
    } else {
        let longer = digits.take(shorter + 1);
        assert(longer.drop_last() =~= digits.take(shorter));
        lemma_decimal_grows(digits, shorter + 1);
    }
}

/// The number that the characters of `chars` from `from` to `to` spell, if
/// they are digits and the number fits in 32 bits.
fn read_digits(chars: &Vec<char>, from: usize, to: usize) -> (number: Option<u32>)
    requires
        from <= to <= chars@.len(),
    ensures
        ({
            let digits = chars@.subrange(from as int, to as int);
            match number {
                Some(value) => {
                    &&& value == decimal(digits)
                    &&& forall|i: int| 0 <= i < digits.len() ==> is_digit(#[trigger] digits[i])
                },
                None => !(forall|i: int| 0 <= i < digits.len() ==> is_digit(#[trigger] digits[i]))
                    || decimal(digits) > u32::MAX,
            }
        }),
{
    let ghost digits = chars@.subrange(from as int, to as int);
    let mut value: u64 = 0;
    let mut at: usize = from;
    while at < to
        invariant
            from <= at <= to <= chars@.len(),
            digits == chars@.subrange(from as int, to as int),
            forall|i: int| 0 <= i < at - from ==> is_digit(#[trigger] digits[i]),
            value == decimal(digits.take(at - from)),
            value <= u32::MAX,
        decreases to - at,
    {
        let code = chars[at] as u32;
        assert(digits[at - from] == chars@[at as int]);
        if code < 0x30 || code > 0x39 {
            return None;
        }
        assert(digits.take(at - from + 1).drop_last() =~= digits.take(at - from));
        value = value * 10 + (code - 0x30) as u64;
        at += 1;
        if value > u32::MAX as u64 {
            proof {
                if forall|i: int| 0 <= i < digits.len() ==> is_digit(#[trigger] digits[i]) {
                    lemma_decimal_grows(digits, at - from);
                }
            }
            return None;
        }
    }
    assert(digits.take(at - from) =~= digits);
    Some(value as u32)
}

/// Timeout struct for input validation
#[derive(Debug)]
pub struct TimeoutFromString {
    // this is private, so that `new` must be used and value is validated
    value: u32,
}

impl View for TimeoutFromString {
    type V = nat;

    closed spec fn view(&self) -> nat {
        self.value as nat
    }
}

impl TimeoutFromString {
    #[verifier::type_invariant]
    spec fn in_range(&self) -> bool {
        MIN_TIMEOUT <= self.value <= MAX_TIMEOUT
    }

    /// Reads a countdown from what a player typed.
    pub fn parse(input: &str) -> (timeout: Result<TimeoutFromString, TimeoutError>)
        ensures
            match timeout {
                Ok(read) => timeout_of(input@) == Ok::<nat, TimeoutError>(read@),
                Err(error) => timeout_of(input@) == Err::<nat, TimeoutError>(error),
            },
    {
        let chars = chars_of(input);
        let (from, to) = trim_bounds(&chars);
        let start = if from < to && chars[from] == '+' {
            from + 1
        } else {
            from
        };
        assert(chars@.subrange(start as int, to as int) =~= unsigned_digits(trimmed(input@)));
        if start == to {
            return Err(TimeoutError::NotANumber);
        }
        match read_digits(&chars, start, to) {
            None => Err(TimeoutError::NotANumber),
            Some(value) => {
                if value < MIN_TIMEOUT || value > MAX_TIMEOUT {
                    Err(TimeoutError::OutOfRange)
                } else {
                    Ok(TimeoutFromString { value })
                }
            },
        }
    }

    /// The countdown that `input` asks for, which has to be one.
    pub fn new(input: String) -> (timeout: TimeoutFromString)
        requires
            timeout_of(input@) is Ok,
        ensures
            timeout_of(input@) == Ok::<nat, TimeoutError>(timeout@),
    {
        match Self::parse(input.as_str()) {
            Ok(timeout) => timeout,
            Err(_) => vstd::pervasive::unreached(),
        }
    }

    pub fn value(&self) -> (seconds: u32)
        ensures
            seconds == self@,
            MIN_TIMEOUT <= seconds <= MAX_TIMEOUT,
    {
        proof {
            use_type_invariant(self);
        }
        self.value
    }
}

impl TimeoutError {
    /// What to tell the player.
    pub fn message(&self) -> (text: &'static str)
        ensures
            text@ == match *self {
                TimeoutError::NotANumber => "Please type a number!"@,
                TimeoutError::OutOfRange => "Please provide a positive timeout lower than 999s!"@,
            },
    {
        match self {
            TimeoutError::NotANumber => "Please type a number!",
            TimeoutError::OutOfRange => "Please provide a positive timeout lower than 999s!",
        }
    }
}

} // verus!
