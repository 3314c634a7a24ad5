//! The values of command-line arguments, each read from its text.

use crate::color::floor_seed;
use crate::config::{SizeMeasurementUnit, SortingReference, MAX_RGB_SUM};
use crate::pattern::Pattern;
use crate::text::{grapheme_count, lowercased, same_text, to_lowercase};
use crate::utils::os_string_graphene_len;
use vstd::prelude::*;
use vstd::string::*;
use vstd::utf8::encode_utf8;

verus! {

/// Why the text of an argument was refused.
#[derive(Debug, Clone, Copy, PartialEq, Eq, Structural)]
pub enum ArgError {
    /// A style code that is no digit.
    NotADigit,
    /// A digit that is no style code.
    InvalidDigit,
    /// A style code that was given before.
    RepeatedDigit,
    /// A minimal sum that is no number.
    InvalidSum,
    /// A minimal sum above the largest that three channels can reach.
    SumTooLarge,
    /// A unit that is neither bytes nor bits.
    InvalidUnit,
    /// A padding that is not a single grapheme cluster.
    InvalidPadding,
    /// A sorting key that is none of the known ones.
    InvalidSortKey,
    /// A regular expression that does not compile.
    InvalidRegex,
    /// A width that is no number.
    InvalidWidth,
    /// A seed that is no number.
    InvalidSeed,
}

/// The byte of the digit zero.
pub const ZERO: u8 = 48;

/// The byte of the plus sign.
pub const PLUS: u8 = 43;

/// The byte of a decimal digit.
pub open spec fn is_digit(byte: u8) -> bool {
    48 <= byte <= 57
}

/// The byte of a digit that is a style code: 0 normal, 1 bold, 2 dim,
/// 3 italic, 4 underline, 5 blink, 7 reverse, 8 invisible.
pub open spec fn is_style_digit(byte: u8) -> bool {
    is_digit(byte) && byte != 54 && byte != 57
}

/// The byte at position `at` stands at an earlier position too.
pub open spec fn occurs_before(text: Seq<u8>, at: int) -> bool {
    exists|i: int| 0 <= i < at && text[i] == text[at]
}

/// The byte at position `at` is refused: it is no style code, or it was
/// given before.
pub open spec fn is_refused(text: Seq<u8>, at: int) -> bool {
    !is_style_digit(text[at]) || occurs_before(text, at)
}

/// The position of the first byte from `from` on that is refused, or the
/// length of the text where there is none.
pub open spec fn first_foreign(text: Seq<u8>, from: int) -> int
    decreases text.len() - from,
{
    if from < 0 || from >= text.len() {
        text.len() as int
    } else if is_refused(text, from) {
        from
    } else {
        first_foreign(text, from + 1)
    }
}

/// The style codes that the digits of `text` stand for.
pub open spec fn codes_of(text: Seq<u8>) -> Seq<u8> {
    Seq::new(text.len(), |i: int| (text[i] - 48) as u8)
}

/// What a text of style codes holds: its codes where every byte is a style
/// code and none is given twice, else what is wrong with the first byte that
/// is refused: it is no digit, or it was given before, or it is a digit that
/// is no style code.
pub open spec fn style_codes(text: Seq<u8>) -> Result<Seq<u8>, ArgError> {
    let at = first_foreign(text, 0);
    if at >= text.len() {
        Ok(codes_of(text))
    } else if !is_digit(text[at]) {
        Err(ArgError::NotADigit)
    } else if occurs_before(text, at) {
        Err(ArgError::RepeatedDigit)
    } else {
        Err(ArgError::InvalidDigit)
    }
}

/// In a text of style codes that is accepted no code is given twice.
pub proof fn lemma_accepted_codes_are_distinct(text: Seq<u8>, i: int, j: int)
    requires
        style_codes(text) is Ok,
        0 <= i < j < text.len(),
    ensures
        is_style_digit(text[i]),
        is_style_digit(text[j]),
        codes_of(text)[i] != codes_of(text)[j],
{
    lemma_none_refused_before(text, 0, i);
    lemma_none_refused_before(text, 0, j);
    if text[i] == text[j] {
        assert(occurs_before(text, j));
    }
}

/// No byte between `from` and the first refused byte from there on is
/// refused.
pub proof fn lemma_none_refused_before(text: Seq<u8>, from: int, at: int)
    requires
        0 <= from <= at < first_foreign(text, from),
    ensures
        at < text.len(),
        !is_refused(text, at),
    decreases text.len() - from,
{
    if from < text.len() && !is_refused(text, from) && from < at {
        lemma_none_refused_before(text, from + 1, at);
    }
}

/// The number that the digits of `digits` write in decimal.
pub open spec fn digits_value(digits: Seq<u8>) -> nat
    decreases digits.len(),
{
    if digits.len() == 0 {
        0
    } else {
        digits_value(digits.drop_last()) * 10 + (digits.last() - 48) as nat
    }
}

/// `text` without a plus sign in front.
pub open spec fn unsigned(text: Seq<u8>) -> Seq<u8> {
    if text.len() > 0 && text[0] == 43 {
        text.skip(1)
    } else {
        text
    }
}

/// The number that `text` writes: one or more decimal digits, with or
/// without a plus sign in front. Nothing where `text` is no such number.
pub open spec fn number_of(text: Seq<u8>) -> Option<nat> {
    let digits = unsigned(text);
    if digits.len() > 0 && (forall|i: int| 0 <= i < digits.len() ==> is_digit(digits[i])) {
        Some(digits_value(digits))
    } else {
        None
    }
}

/// The number that `text` writes, where it is one and no larger than
/// `limit`.
pub open spec fn number_within(text: Seq<u8>, limit: nat) -> Option<nat> {
    match number_of(text) {
        Some(value) => if value <= limit {
            Some(value)
        } else {
            None
        },
        None => None,
    }
}

/// A number grows with every digit that is written behind it.
pub proof fn lemma_digits_value_grows(digits: Seq<u8>, shorter: int)
    requires
        0 <= shorter <= digits.len(),
    ensures
        digits_value(digits.take(shorter)) <= digits_value(digits),
    decreases digits.len() - shorter,
{
    if shorter < digits.len() {
        let next = digits.take(shorter + 1);
        assert(next.drop_last() =~= digits.take(shorter));
        lemma_digits_value_grows(digits, shorter + 1);
    } else {
        assert(digits.take(shorter) =~= digits);
    }
}

fn holds_code(codes: &Vec<u8>, code: u8) -> (held: bool)
    ensures
        held == (exists|i: int| 0 <= i < codes@.len() && codes@[i] == code),
{
    let mut at: usize = 0;
    while at < codes.len()
        invariant
            at <= codes.len(),
            forall|i: int| 0 <= i < at ==> codes@[i] != code,
        decreases codes.len() - at,
    {
        if codes[at] == code {
            return true;
        }
        at = at + 1;
    }
    false
}

/// The style codes of `right`, one digit for each. A text with a character
/// that is no style code, or with a code that is given twice, is refused.
pub fn formatting_args(right: &str) -> (outcome: Result<Vec<u8>, ArgError>)
    ensures
        match outcome {
            Ok(codes) => style_codes(encode_utf8(right@)) == Ok::<Seq<u8>, ArgError>(codes@),
            Err(error) => style_codes(encode_utf8(right@)) == Err::<Seq<u8>, ArgError>(error),
        },
{
    let text = right.as_bytes();
    let mut codes: Vec<u8> = Vec::new();
    let mut at: usize = 0;
    while at < text.len()
        invariant
            at <= text.len(),
            text@ == encode_utf8(right@),
            first_foreign(text@, 0) == first_foreign(text@, at as int),
            forall|i: int| 0 <= i < at ==> is_digit(text@[i]),
            codes@ == codes_of(text@.take(at as int)),
        decreases text.len() - at,
    {
        let byte = text[at];
        if !(48 <= byte && byte <= 57) {
            return Err(ArgError::NotADigit);
        }
        let repeated = holds_code(&codes, byte - ZERO);
        proof {
            if repeated {
                let i = choose|i: int| 0 <= i < codes@.len() && codes@[i] == byte - 48;
                assert(text@[i] == text@[at as int]);
            }
            if occurs_before(text@, at as int) {
                let i = choose|i: int| 0 <= i < at && text@[i] == text@[at as int];
                assert(codes@[i] == byte - 48);
            }
        }
        if repeated {
            return Err(ArgError::RepeatedDigit);
        }
        if byte == 54 || byte == 57 {
            return Err(ArgError::InvalidDigit);
        }
        codes.push(byte - ZERO);
        at = at + 1;
        assert(codes@ =~= codes_of(text@.take(at as int)));
    }
    assert(text@.take(at as int) =~= text@);
    Ok(codes)
}

/// The number that `text` writes, where it is one and no larger than
/// `limit`.
pub fn parse_number(text: &str, limit: usize) -> (number: Option<usize>)
    ensures
        match number {
            Some(value) => number_within(encode_utf8(text@), limit as nat) == Some(value as nat),
            None => number_within(encode_utf8(text@), limit as nat) is None,
        },
{
    let bytes = text.as_bytes();
    let start: usize = if bytes.len() > 0 && bytes[0] == PLUS {
        1
    } else {
        0
    };
    let ghost digits = unsigned(bytes@);
    assert(digits =~= bytes@.skip(start as int));
    if start >= bytes.len() {
        return None;
    }
    let mut value: usize = 0;
    let mut at: usize = start;
    while at < bytes.len()
        invariant
            start <= at <= bytes.len(),
            start < bytes.len(),
            bytes@ == encode_utf8(text@),
            digits == bytes@.skip(start as int),
            digits == unsigned(bytes@),
            forall|i: int| 0 <= i < at - start ==> is_digit(digits[i]),
            value == digits_value(digits.take(at - start)),
            value <= limit,
        decreases bytes.len() - at,
    {
        let byte = bytes[at];
        assert(digits[at - start] == byte);
        if !(48 <= byte && byte <= 57) {
            return None;
        }
        let digit: usize = (byte - ZERO) as usize;
        proof {
            let next = digits.take(at - start + 1);
            assert(next.drop_last() =~= digits.take(at - start));
            assert(next.last() == byte);
            assert(digits_value(next) == value * 10 + digit);
            lemma_digits_value_grows(digits, at - start + 1);
        }
        if limit < digit || value > (limit - digit) / 10 {
            return None;
        }
        value = value * 10 + digit;
        at = at + 1;
    }
    assert(digits.take(at - start) =~= digits);
    Some(value)
}

/// What a text holds as the minimal sum of the channels.
pub open spec fn minimal_sum_of(text: Seq<u8>) -> Result<u16, ArgError> {
    match number_within(text, u16::MAX as nat) {
        Some(value) => if value <= 765 {
            Ok(value as u16)
        } else {
            Err(ArgError::SumTooLarge)
        },
        None => Err(ArgError::InvalidSum),
    }
}

/// The minimal sum of the channels that `right` writes: a number of at most
/// 765.
pub fn minimal_rgb_sum(right: &str) -> (outcome: Result<u16, ArgError>)
    ensures
        outcome == minimal_sum_of(encode_utf8(right@)),
{
    match parse_number(right, 65535) {
        Some(sum) => if sum <= MAX_RGB_SUM {
            Ok(sum as u16)
        } else {
            Err(ArgError::SumTooLarge)
        },
        None => Err(ArgError::InvalidSum),
    }
}

/// Sets `curr_config` to the minimal sum that `right_arg` writes, and leaves
/// it as it is where `right_arg` writes none.
pub fn minimal_sum(curr_config: &mut u16, right_arg: &str) -> (outcome: Result<(), ArgError>)
    ensures
        match minimal_sum_of(encode_utf8(right_arg@)) {
            Ok(sum) => outcome is Ok && *final(curr_config) == sum,
            Err(error) => outcome == Err::<(), ArgError>(error) && *final(curr_config) == *old(
                curr_config,
            ),
        },
{
    match minimal_rgb_sum(right_arg) {
        Ok(sum) => {
            *curr_config = sum;
            Ok(())
        },
        Err(error) => Err(error),
    }
}

/// The width that `right` writes.
pub fn width(right: &str) -> (outcome: Result<usize, ArgError>)
    ensures
        match outcome {
            Ok(columns) => number_within(encode_utf8(right@), usize::MAX as nat) == Some(
                columns as nat,
            ),
            Err(error) => number_within(encode_utf8(right@), usize::MAX as nat) is None && error
                == ArgError::InvalidWidth,
        },
{
    match parse_number(right, usize::MAX) {
        Some(columns) => Ok(columns),
        None => Err(ArgError::InvalidWidth),
    }
}

/// The seed that `right` writes, raised to the smallest seed that colours
/// anything where it is below.
pub fn color_seed(right: &str) -> (outcome: Result<usize, ArgError>)
    ensures
        match outcome {
            Ok(seed) => match number_within(encode_utf8(right@), usize::MAX as nat) {
                Some(written) => seed == if written < 2 {
                    2
                } else {
                    written
                },
                None => false,
            },
            Err(error) => number_within(encode_utf8(right@), usize::MAX as nat) is None && error
                == ArgError::InvalidSeed,
        },
{
    match parse_number(right, usize::MAX) {
        Some(seed) => Ok(floor_seed(seed)),
        None => Err(ArgError::InvalidSeed),
    }
}

/// The padding that `right` is, where it is a single grapheme cluster.
pub fn padding(right: String) -> (outcome: Result<String, ArgError>)
    ensures
        match outcome {
            Ok(filler) => grapheme_count(right@) == 1 && filler@ == right@,
            Err(error) => grapheme_count(right@) != 1 && error == ArgError::InvalidPadding,
        },
{
    if os_string_graphene_len(right.as_str()) == 1 {
        Ok(right)
    } else {
        Err(ArgError::InvalidPadding)
    }
}

/// What compiling an expression gave, as the value of an argument: the
/// pattern where one was made, else the refusal of the expression.
pub fn pattern_or_refusal(compiled: Result<Pattern, regex::Error>) -> (outcome: Result<
    Pattern,
    ArgError,
>)
    ensures
        match compiled {
            Ok(pattern) => outcome == Ok::<Pattern, ArgError>(pattern),
            Err(_) => outcome == Err::<Pattern, ArgError>(ArgError::InvalidRegex),
        },
{
    match compiled {
        Ok(pattern) => Ok(pattern),
        Err(_) => Err(ArgError::InvalidRegex),
    }
}

/// The pattern that `right` writes, where it compiles as a regular
/// expression.
pub fn regex_patterns(right: String) -> (outcome: Result<Pattern, ArgError>)
    ensures
        match outcome {
            Ok(pattern) => pattern.source() == right@,
            Err(error) => error == ArgError::InvalidRegex,
        },
{
    pattern_or_refusal(Pattern::compile(right))
}

/// Puts the arguments that are left behind those that were set aside.
pub fn consume_rest(untreated_args: &mut Vec<String>, args_iterator: Vec<String>)
    ensures
        final(untreated_args)@ == old(untreated_args)@ + args_iterator@,
{
    let mut rest = args_iterator;
    untreated_args.append(&mut rest);
}

/// The sorting key that goes by the name `name`.
pub open spec fn sorting_reference_of(name: Seq<char>) -> Option<SortingReference> {
    if name == "name"@ {
        Some(SortingReference::Name)
    } else if name == "size"@ {
        Some(SortingReference::Size)
    } else if name == "extension"@ {
        Some(SortingReference::Extension)
    } else if name == "creation_date"@ || name == "creationdate"@ {
        Some(SortingReference::CreationDate)
    } else if name == "access_date"@ || name == "accesdate"@ {
        Some(SortingReference::AccessDate)
    } else if name == "modification_date"@ || name == "ModificationDate"@ {
        Some(SortingReference::ModificationDate)
    } else if name == "color"@ || name == "colour"@ {
        Some(SortingReference::Colour)
    } else {
        None
    }
}

/// The unit that goes by the name `name`.
pub open spec fn unit_of(name: Seq<char>) -> Option<SizeMeasurementUnit> {
    if name == "bytes"@ {
        Some(SizeMeasurementUnit::Bytes)
    } else if name == "bits"@ {
        Some(SizeMeasurementUnit::Bits)
    } else {
        None
    }
}

/// The sorting key that goes by the name `name`, as it is written.
pub fn sorting_reference_named(name: &str) -> (key: Option<SortingReference>)
    ensures
        key == sorting_reference_of(name@),
{
    if same_text(name, "name") {
        Some(SortingReference::Name)
    } else if same_text(name, "size") {
        Some(SortingReference::Size)
    } else if same_text(name, "extension") {
        Some(SortingReference::Extension)
    } else if same_text(name, "creation_date") || same_text(name, "creationdate") {
        Some(SortingReference::CreationDate)
    } else if same_text(name, "access_date") || same_text(name, "accesdate") {
        Some(SortingReference::AccessDate)
    } else if same_text(name, "modification_date") || same_text(name, "ModificationDate") {
        Some(SortingReference::ModificationDate)
    } else if same_text(name, "color") || same_text(name, "colour") {
        Some(SortingReference::Colour)
    } else {
        None
    }
}

/// The unit that goes by the name `name`, as it is written.
pub fn unit_named(name: &str) -> (unit: Option<SizeMeasurementUnit>)
    ensures
        unit == unit_of(name@),
{
    if same_text(name, "bytes") {
        Some(SizeMeasurementUnit::Bytes)
    } else if same_text(name, "bits") {
        Some(SizeMeasurementUnit::Bits)
    } else {
        None
    }
}

/// The sorting key that `right` names, in upper or lower case.
pub fn sort_by(right: &str) -> (outcome: Result<SortingReference, ArgError>)
    ensures
        match outcome {
            Ok(key) => sorting_reference_of(lowercased(right@)) == Some(key),
            Err(error) => sorting_reference_of(lowercased(right@)) is None && error
                == ArgError::InvalidSortKey,
        },
{
    let lower = to_lowercase(right);
    match sorting_reference_named(lower.as_str()) {
        Some(key) => Ok(key),
        None => Err(ArgError::InvalidSortKey),
    }
}

/// The unit that `right` names, in upper or lower case.
pub fn unit_size(right: &str) -> (outcome: Result<SizeMeasurementUnit, ArgError>)
    ensures
        match outcome {
            Ok(unit) => unit_of(lowercased(right@)) == Some(unit),
            Err(error) => unit_of(lowercased(right@)) is None && error == ArgError::InvalidUnit,
        },
{
    let lower = to_lowercase(right);
    match unit_named(lower.as_str()) {
        Some(unit) => Ok(unit),
        None => Err(ArgError::InvalidUnit),
    }
}

/// The long form of a short flag, and any other argument as it is.
pub open spec fn normalized(argument: Seq<char>) -> Seq<char> {
    if argument == "-opl"@ {
        "--one-per-line"@
    } else if argument == "-ll"@ {
        "--long-listing"@
    } else if argument == "-gdf"@ {
        "--group-directories-first"@
    } else if argument == "-rev"@ {
        "--reverse"@
    } else if argument == "-sd"@ {
        "--show-dotfiles"@
    } else if argument == "-sb"@ {
        "--show-backups"@
    } else if argument == "-rec"@ {
        "--recursive"@
    } else if argument == "-fs"@ {
        "--follow-symlinks"@
    } else {
        argument
    }
}

/// The long form of a short flag, and any other argument as it is.
pub fn normalize_argument(argument: String) -> (long: String)
    ensures
        long@ == normalized(argument@),
{
    let text = argument.as_str();
    if same_text(text, "-opl") {
        String::from_str("--one-per-line")
    } else if same_text(text, "-ll") {
        String::from_str("--long-listing")
    } else if same_text(text, "-gdf") {
        String::from_str("--group-directories-first")
    } else if same_text(text, "-rev") {
        String::from_str("--reverse")
    } else if same_text(text, "-sd") {
        String::from_str("--show-dotfiles")
    } else if same_text(text, "-sb") {
        String::from_str("--show-backups")
    } else if same_text(text, "-rec") {
        String::from_str("--recursive")
    } else if same_text(text, "-fs") {
        String::from_str("--follow-symlinks")
    } else {
        argument
    }
}

/// The arguments of a command line with every short flag in its long form.
/// The first argument, the name of the program, stays as it is.
pub fn normalize_args(arguments: Vec<String>) -> (normal: Vec<String>)
    ensures
        normal@.len() == arguments@.len(),
        forall|i: int|
            0 <= i < normal@.len() ==> (#[trigger] normal@[i])@ == if i == 0 {
                arguments@[i]@
            } else {
                normalized(arguments@[i]@)
            },
{
    let mut normal: Vec<String> = Vec::new();
    let mut at: usize = 0;
    while at < arguments.len()
        invariant
            at <= arguments.len(),
            normal@.len() == at,
            forall|i: int|
                0 <= i < at ==> (#[trigger] normal@[i])@ == if i == 0 {
                    arguments@[i]@
                } else {
                    normalized(arguments@[i]@)
                },
        decreases arguments.len() - at,
    {
        let argument = arguments[at].clone();
        if at == 0 {
            normal.push(argument);
        } else {
            normal.push(normalize_argument(argument));
        }
        at = at + 1;
    }
    normal
}

} // verus!
