//! Comparisons and edits of strings.

use vstd::prelude::*;

verus! {

/// Whether `left` comes before `right` in the order of strings: the first
/// character in which they differ decides by its code point, and a proper
/// prefix comes first.
pub open spec fn text_before(left: Seq<char>, right: Seq<char>) -> bool
    decreases left.len(),
{
    if right.len() == 0 {
        false
    } else if left.len() == 0 {
        true
    } else if left[0] != right[0] {
        (left[0] as u32) < (right[0] as u32)
    } else {
        text_before(left.skip(1), right.skip(1))
    }
}

/// Returns whether `left` comes before `right` in the order of strings.
///
/// Calls `<` of the standard library on two string slices, which orders
/// them lexicographically by their bytes, that is by their code points.
#[verifier::external_body]
pub(crate) fn comes_before(left: &str, right: &str) -> (res: bool)
    ensures
        res == text_before(left@, right@),
{
    left < right
}

/// Returns whether the two strings hold the same characters.
///
/// Calls `==` of the standard library on two string slices, which compares
/// them character by character.
#[verifier::external_body]
pub(crate) fn same_text(left: &str, right: &str) -> (res: bool)
    ensures
        res == (left@ == right@),
{
    left == right
}

/// Whether `c` is white space, as Unicode lists it.
pub open spec fn is_space(c: char) -> bool {
    let code = c as u32;
    ||| 0x09 <= code <= 0x0d
    ||| code == 0x20
    ||| code == 0x85
    ||| code == 0xa0
    ||| code == 0x1680
    ||| 0x2000 <= code <= 0x200a
    ||| code == 0x2028
    ||| code == 0x2029
    ||| code == 0x202f
    ||| code == 0x205f
    ||| code == 0x3000
}

/// `text` without the white space at its start.
pub open spec fn trimmed_start(text: Seq<char>) -> Seq<char>
    decreases text.len(),
{
    if text.len() > 0 && is_space(text[0]) {
        trimmed_start(text.skip(1))
    } else {
        text
    }
}

/// `text` without the white space at its end.
pub open spec fn trimmed_end(text: Seq<char>) -> Seq<char>
    decreases text.len(),
{
    if text.len() > 0 && is_space(text.last()) {
        trimmed_end(text.drop_last())
    } else {
        text
    }
}

/// `text` without the white space at its start and at its end.
pub open spec fn trimmed(text: Seq<char>) -> Seq<char> {
    trimmed_end(trimmed_start(text))
}

/// Returns `text` without the white space at its start and at its end.
///
/// Calls `str::trim` of the standard library, which removes leading and
/// trailing characters that have the Unicode property `White_Space`.
#[verifier::external_body]
pub(crate) fn trim(text: &str) -> (res: &str)
    ensures
        res@ == trimmed(text@),
{
    text.trim()
}

/// Appends `c` to `text`.
///
/// Calls `String::push` of the standard library.
#[verifier::external_body]
pub(crate) fn push_char(text: &mut String, c: char)
    ensures
        final(text)@ == old(text)@.push(c),
{
    text.push(c)
}

/// The value of a decimal digit.
pub open spec fn digit_value(c: char) -> Option<int> {
    if c == '0' {
        Some(0)
    } else if c == '1' {
        Some(1)
    } else if c == '2' {
        Some(2)
    } else if c == '3' {
        Some(3)
    } else if c == '4' {
        Some(4)
    } else if c == '5' {
        Some(5)
    } else if c == '6' {
        Some(6)
    } else if c == '7' {
        Some(7)
    } else if c == '8' {
        Some(8)
    } else if c == '9' {
        Some(9)
    } else {
        None
    }
}

/// The number that a text of decimal digits stands for. A text that is
/// empty or holds anything else stands for none.
pub open spec fn digits_value(text: Seq<char>) -> Option<int>
    decreases text.len(),
{
    if text.len() == 0 {
        None
    } else if text.len() == 1 {
        digit_value(text[0])
    } else {
        match (digits_value(text.drop_last()), digit_value(text.last())) {
            (Some(front), Some(digit)) => Some(front * 10 + digit),
            _ => None,
        }
    }
}

/// The number that `text` is read as, if it is the decimal notation of a
/// 32 bit integer: decimal digits, with `+` or `-` before them or without a
/// sign.
pub open spec fn parsed_i32(text: Seq<char>) -> Option<i32> {
    let negative = text.len() > 0 && text[0] == '-';
    let signed = text.len() > 0 && (text[0] == '-' || text[0] == '+');
    let digits = if signed {
        text.skip(1)
    } else {
        text
    };
    match digits_value(digits) {
        Some(value) => {
            let number = if negative {
                -value
            } else {
                value
            };
            if -0x8000_0000 <= number < 0x8000_0000 {
                Some(number as i32)
            } else {
                None
            }
        },
        None => None,
    }
}

/// Reads `text` as a 32 bit integer in decimal notation.
///
/// Calls `str::parse::<i32>` of the standard library and drops what its
/// error says.
#[verifier::external_body]
pub(crate) fn parse_i32(text: &str) -> (res: Option<i32>)
    ensures
        res == parsed_i32(text@),
{
    text.parse::<i32>().ok()
}

/// `text` without the characters at its start and at its end that are no
/// numerals.
pub uninterp spec fn numeric_core(text: Seq<char>) -> Seq<char>;

/// Returns `text` without the characters at its start and at its end that
/// are no numerals.
///
/// Calls `str::trim_matches` of the standard library with the negation of
/// `char::is_numeric`.
#[verifier::external_body]
pub(crate) fn trim_non_numeric(text: &str) -> (res: &str)
    ensures
        res@ == numeric_core(text@),
{
    text.trim_matches(|c| !char::is_numeric(c))
}

/// `text` in lower case.
pub uninterp spec fn lowercased(text: Seq<char>) -> Seq<char>;

/// Returns `text` in lower case.
///
/// Calls `str::to_lowercase` of the standard library, which follows the
/// Unicode property `Lowercase`.
#[verifier::external_body]
pub(crate) fn lowercase(text: &str) -> (res: String)
    ensures
        res@ == lowercased(text@),
{
    text.to_lowercase()
}

/// The decimal digit of a value below ten.
pub open spec fn digit_of(value: int) -> char {
    if value == 0 {
        '0'
    } else if value == 1 {
        '1'
    } else if value == 2 {
        '2'
    } else if value == 3 {
        '3'
    } else if value == 4 {
        '4'
    } else if value == 5 {
        '5'
    } else if value == 6 {
        '6'
    } else if value == 7 {
        '7'
    } else if value == 8 {
        '8'
    } else {
        '9'
    }
}

/// The decimal digits of a number that is not negative, without leading
/// zeros.
pub open spec fn digits_of(number: int) -> Seq<char>
    decreases number,
{
    if number < 10 {
        seq![digit_of(number)]
    } else {
        digits_of(number / 10).push(digit_of(number % 10))
    }
}

/// The decimal notation of `number`: its digits, behind a `-` where it is
/// negative.
pub open spec fn decimal(number: int) -> Seq<char> {
    if number < 0 {
        seq!['-'] + digits_of(-number)
    } else {
        digits_of(number)
    }
}

/// Writes `number` in decimal notation.
///
/// Calls `usize::to_string` of the standard library.
#[verifier::external_body]
pub(crate) fn decimal_usize(number: usize) -> (res: String)
    ensures
        res@ == decimal(number as int),
{
    number.to_string()
}

/// Writes `number` in decimal notation.
///
/// Calls `i32::to_string` of the standard library.
#[verifier::external_body]
pub(crate) fn decimal_i32(number: i32) -> (res: String)
    ensures
        res@ == decimal(number as int),
{
    number.to_string()
}

/// Whether `text` begins with `prefix`.
pub open spec fn starts_with(text: Seq<char>, prefix: Seq<char>) -> bool {
    prefix.len() <= text.len() && text.subrange(0, prefix.len() as int) == prefix
}

/// Whether `text` ends with `suffix`.
pub open spec fn ends_with(text: Seq<char>, suffix: Seq<char>) -> bool {
    suffix.len() <= text.len() && text.subrange(text.len() - suffix.len(), text.len() as int)
        == suffix
}

/// `text` without `prefix` at its start, as often as it stands there.
pub open spec fn without_prefixes(text: Seq<char>, prefix: Seq<char>) -> Seq<char>
    decreases text.len(),
{
    if prefix.len() > 0 && starts_with(text, prefix) {
        without_prefixes(text.skip(prefix.len() as int), prefix)
    } else {
        text
    }
}

/// `text` without `suffix` at its end, as often as it stands there.
pub open spec fn without_suffixes(text: Seq<char>, suffix: Seq<char>) -> Seq<char>
    decreases text.len(),
{
    if suffix.len() > 0 && ends_with(text, suffix) {
        without_suffixes(text.take(text.len() - suffix.len()), suffix)
    } else {
        text
    }
}

/// `text` without the characters of `marks` at its start.
pub open spec fn without_leading(text: Seq<char>, marks: Seq<char>) -> Seq<char>
    decreases text.len(),
{
    if text.len() > 0 && marks.contains(text[0]) {
        without_leading(text.skip(1), marks)
    } else {
        text
    }
}

/// Returns `text` without `prefix` at its start, as often as it stands
/// there.
///
/// Calls `str::trim_start_matches` of the standard library with a string
/// pattern.
#[verifier::external_body]
pub(crate) fn trim_prefixes<'a>(text: &'a str, prefix: &str) -> (res: &'a str)
    requires
        prefix@.len() > 0,
    ensures
        res@ == without_prefixes(text@, prefix@),
{
    text.trim_start_matches(prefix)
}

/// Returns `text` without `suffix` at its end, as often as it stands there.
///
/// Calls `str::trim_end_matches` of the standard library with a string
/// pattern.
#[verifier::external_body]
pub(crate) fn trim_suffixes<'a>(text: &'a str, suffix: &str) -> (res: &'a str)
    requires
        suffix@.len() > 0,
    ensures
        res@ == without_suffixes(text@, suffix@),
{
    text.trim_end_matches(suffix)
}

/// Returns `text` without the characters of `marks` at its start.
///
/// Calls `str::trim_start_matches` of the standard library with a slice of
/// characters for its pattern.
#[verifier::external_body]
pub(crate) fn trim_leading<'a>(text: &'a str, marks: &Vec<char>) -> (res: &'a str)
    ensures
        res@ == without_leading(text@, marks@),
{
    text.trim_start_matches(marks.as_slice())
}

/// Returns `text` without the white space at its end.
///
/// Calls `str::trim_end` of the standard library.
#[verifier::external_body]
pub(crate) fn trim_end(text: &str) -> (res: &str)
    ensures
        res@ == trimmed_end(text@),
{
    text.trim_end()
}

/// Returns what follows `prefix` in `text`, if `text` begins with it.
///
/// Calls `str::strip_prefix` of the standard library.
#[verifier::external_body]
pub(crate) fn after_prefix<'a>(text: &'a str, prefix: &str) -> (res: Option<&'a str>)
    ensures
        match res {
            Some(rest) => starts_with(text@, prefix@) && rest@ == text@.skip(prefix@.len() as int),
            None => !starts_with(text@, prefix@),
        },
{
    text.strip_prefix(prefix)
}

/// The count that `text` is read as, if it is the decimal notation of one
/// that the machine can hold: decimal digits, with `+` before them or
/// without a sign.
pub open spec fn parsed_usize(text: Seq<char>) -> Option<usize> {
    let digits = if text.len() > 0 && text[0] == '+' {
        text.skip(1)
    } else {
        text
    };
    match digits_value(digits) {
        Some(value) => if value <= usize::MAX {
            Some(value as usize)
        } else {
            None
        },
        None => None,
    }
}

/// Reads `text` as a count in decimal notation.
///
/// Calls `str::parse::<usize>` of the standard library and drops what its
/// error says.
#[verifier::external_body]
pub(crate) fn parse_usize(text: &str) -> (res: Option<usize>)
    ensures
        res == parsed_usize(text@),
{
    text.parse::<usize>().ok()
}

} // verus!
