//! The lines that are typed at the alarm prompt: a number of seconds, a
//! space, and a message.

use vstd::prelude::*;
use vstd::slice::slice_subrange;

verus! {

/// The byte of a space, which ends the number.
pub const SPACE: u8 = 32;

/// The byte of a plus sign, which may stand before the number.
pub const PLUS: u8 = 43;

/// The byte of the digit zero.
pub const ZERO: u8 = 48;

/// Why a line is no command.
#[derive(Clone, Copy, Debug, PartialEq, Eq, Structural)]
pub enum CommandError {
    /// The line holds no space.
    NoSpace,
    /// What stands before the first space is no number of seconds, or one
    /// that is too large.
    BadSeconds,
}

impl CommandError {
    /// One line for a log or a terminal.
    pub fn message(&self) -> (text: &'static str)
        ensures
            *self == CommandError::NoSpace ==> text@ == "Bad command"@,
            *self == CommandError::BadSeconds ==> text@ == "failed to parse seconds"@,
    {
        match self {
            CommandError::NoSpace => "Bad command",
            CommandError::BadSeconds => "failed to parse seconds",
        }
    }
}

/// The byte is a decimal digit.
pub open spec fn is_digit(byte: u8) -> bool {
    ZERO <= byte <= ZERO + 9
}

/// What a digit counts for; nothing for any other byte.
pub open spec fn digit_of(byte: u8) -> nat {
    if is_digit(byte) {
        (byte - ZERO) as nat
    } else {
        0
    }
}

/// The number that the digits stand for, read as a decimal number.
pub open spec fn digits_value(digits: Seq<u8>) -> nat
    decreases digits.len(),
{
    if digits.len() == 0 {
        0
    } else {
        10 * digits_value(digits.drop_last()) + digit_of(digits.last())
    }
}

/// The text without the plus sign that may stand before it.
pub open spec fn unsigned(text: Seq<u8>) -> Seq<u8> {
    if text.len() > 0 && text[0] == PLUS {
        text.subrange(1, text.len() as int)
    } else {
        text
    }
}

/// The text is a number: at least one digit and nothing but digits, with or
/// without a plus sign before them.
pub open spec fn is_number(text: Seq<u8>) -> bool {
    &&& unsigned(text).len() > 0
    &&& forall|i: int| 0 <= i < unsigned(text).len() ==> is_digit(#[trigger] unsigned(text)[i])
}

/// The place of the first space of the line, or the length of the line if
/// it holds none.
pub open spec fn first_space(line: Seq<u8>) -> int
    decreases line.len(),
{
    if line.len() == 0 {
        0
    } else if line[0] == SPACE {
        0
    } else {
        1 + first_space(line.subrange(1, line.len() as int))
    }
}

/// No space stands before the first space, and a space stands there unless
/// the line holds none.
pub proof fn lemma_first_space(line: Seq<u8>)
    ensures
        0 <= first_space(line) <= line.len(),
        forall|i: int| 0 <= i < first_space(line) ==> line[i] != SPACE,
        first_space(line) < line.len() ==> line[first_space(line)] == SPACE,
    decreases line.len(),
{
    if line.len() > 0 && line[0] != SPACE {
        let rest = line.subrange(1, line.len() as int);
        lemma_first_space(rest);
        assert forall|i: int| 0 <= i < first_space(line) implies line[i] != SPACE by {
            if i > 0 {
                assert(rest[i - 1] == line[i]);
            }
        }
        if first_space(line) < line.len() {
            assert(rest[first_space(rest)] == line[first_space(line)]);
        }
    }
}

/// More digits do not make a number smaller.
pub proof fn lemma_digits_grow(digits: Seq<u8>, count: int)
    requires
        0 <= count <= digits.len(),
    ensures
        digits_value(digits.subrange(0, count)) <= digits_value(digits),
    decreases digits.len() - count,
{
    if count < digits.len() {
        lemma_digits_grow(digits, count + 1);
        assert(digits.subrange(0, count + 1).drop_last() =~= digits.subrange(0, count));
    } else {
        assert(digits.subrange(0, count) =~= digits);
    }
}

/// Reads `text` as a number of seconds that is not greater than `limit`.
pub fn parse_seconds(text: &[u8], limit: u64) -> (seconds: Option<u64>)
    ensures
        seconds is Some <==> is_number(text@) && digits_value(unsigned(text@)) <= limit,
        seconds matches Some(s) ==> s == digits_value(unsigned(text@)),
{
    let start: usize = if text.len() > 0 && text[0] == PLUS {
        1
    } else {
        0
    };
    if start == text.len() {
        return None;
    }
    let ghost digits = unsigned(text@);
    let mut value: u64 = 0;
    let mut i: usize = start;
    assert(digits.subrange(0, 0) =~= Seq::<u8>::empty());
    while i < text.len()
        invariant
            start <= i <= text.len(),
            start <= 1,
            digits == unsigned(text@),
            digits.len() == text.len() - start,
            forall|k: int| 0 <= k < digits.len() ==> digits[k] == text[k + start],
            forall|k: int| 0 <= k < i - start ==> is_digit(#[trigger] digits[k]),
            value == digits_value(digits.subrange(0, i - start)),
            value <= limit,
        decreases text.len() - i,
    {
        let byte = text[i];
        proof {
            assert(digits[i - start] == byte);
            assert(digits.subrange(0, i - start + 1).drop_last() =~= digits.subrange(
                0,
                i - start,
            ));
            lemma_digits_grow(digits, i - start + 1);
        }
        if byte < ZERO || byte > ZERO + 9 {
            return None;
        }
        let digit: u64 = (byte - ZERO) as u64;
        if value > limit / 10 {
            return None;
        }
        if digit > limit - value * 10 {
            return None;
        }
        value = value * 10 + digit;
        i = i + 1;
    }
    assert(digits.subrange(0, i - start) =~= digits);
    Some(value)
}

/// Splits a line at its first space and reads what stands before it as a
/// number of seconds that is not greater than `limit`. Returns the seconds
/// and the place of the space, behind which the message stands.
pub fn parse_command(line: &[u8], limit: u64) -> (command: Result<(u64, usize), CommandError>)
    ensures
        first_space(line@) == line@.len() <==> command == Err::<(u64, usize), _>(
            CommandError::NoSpace,
        ),
        command matches Ok((seconds, space)) ==> {
            &&& space == first_space(line@)
            &&& space < line@.len()
            &&& is_number(line@.subrange(0, space as int))
            &&& seconds == digits_value(unsigned(line@.subrange(0, space as int)))
            &&& seconds <= limit
        },
        command is Ok <==> first_space(line@) < line@.len() && is_number(
            line@.subrange(0, first_space(line@)),
        ) && digits_value(unsigned(line@.subrange(0, first_space(line@)))) <= limit,
{
    let mut space: usize = 0;
    assert(line@.subrange(0, line@.len() as int) =~= line@);
    while space < line.len() && line[space] != SPACE
        invariant
            space <= line.len(),
            first_space(line@) == space + first_space(
                line@.subrange(space as int, line@.len() as int),
            ),
        decreases line.len() - space,
    {
        assert(line@.subrange(space as int, line@.len() as int)[0] == line@[space as int]);
        assert(line@.subrange(space as int, line@.len() as int).subrange(
            1,
            line@.len() - space,
        ) =~= line@.subrange(space + 1, line@.len() as int));
        space = space + 1;
    }
    if space == line.len() {
        return Err(CommandError::NoSpace);
    }
    assert(line@.subrange(space as int, line@.len() as int)[0] == line@[space as int]);
    let head = slice_subrange(line, 0, space);
    match parse_seconds(head, limit) {
        Some(seconds) => Ok((seconds, space)),
        None => Err(CommandError::BadSeconds),
    }
}

} // verus!
