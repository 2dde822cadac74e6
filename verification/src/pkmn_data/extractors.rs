//! How text that was taken from a card page is cleaned and read.

use crate::text::{numeric_core, parse_i32, parsed_i32, push_char, trim, trim_non_numeric, trimmed};
use vstd::prelude::*;

verus! {

/// `text` with character references such as `&amp;` replaced by the
/// characters that they stand for.
pub uninterp spec fn decoded_entities(text: Seq<char>) -> Seq<char>;

/// Replaces the character references in `text` by the characters that they
/// stand for.
///
/// Calls `decode_html_entities` of the crate `html_escape`. The result
/// depends on the text alone.
#[verifier::external_body]
fn decode_entities(text: &str) -> (res: String)
    ensures
        res@ == decoded_entities(text@),
{
    html_escape::decode_html_entities(text).into_owned()
}

/// The plain quotation mark that stands for a typographic one; any other
/// character stands for itself.
pub open spec fn plain_quote(c: char) -> char {
    if c == '’' {
        '\''
    } else if c == '“' || c == '”' {
        '"'
    } else {
        c
    }
}

/// The characters of all `parts`, one part after the other.
pub open spec fn joined(parts: Seq<String>) -> Seq<char>
    decreases parts.len(),
{
    if parts.len() == 0 {
        Seq::empty()
    } else {
        joined(parts.drop_last()) + parts.last()@
    }
}

/// What `clean_text` makes of `parts`.
pub open spec fn cleaned(parts: Seq<String>) -> Seq<char> {
    trimmed(decoded_entities(joined(parts).map_values(|c: char| plain_quote(c))))
}

/// Joins the pieces of a text, writes typographic quotation marks as plain
/// ones, replaces character references, and removes white space at both
/// ends.
pub fn clean_text(parts: &Vec<String>) -> (res: String)
    ensures
        res@ == cleaned(parts@),
{
    let mut plain = String::new();
    let mut at: usize = 0;
    while at < parts.len()
        invariant
            at <= parts@.len(),
            plain@ == joined(parts@.subrange(0, at as int)).map_values(|c: char| plain_quote(c)),
        decreases parts@.len() - at,
    {
        let ghost before = plain@;
        let part = parts[at].as_str();
        for c in it: part.chars()
            invariant
                it.seq() == part@,
                plain@ == before + part@.subrange(0, it.index()).map_values(
                    |c: char| plain_quote(c),
                ),
        {
            let ghost so_far = plain@;
            let replaced = match c {
                '’' => '\'',
                '“' | '”' => '"',
                c => c,
            };
            push_char(&mut plain, replaced);
            assert(plain@ =~= before + part@.subrange(0, it.index() + 1).map_values(
                |c: char| plain_quote(c),
            ));
        }
        proof {
            let upto = parts@.subrange(0, at as int);
            let next = parts@.subrange(0, at + 1);
            assert(next.drop_last() =~= upto);
            assert(next.last() == parts@[at as int]);
            assert(part@.subrange(0, part@.len() as int) =~= part@);
            assert(plain@ =~= joined(next).map_values(|c: char| plain_quote(c)));
        }
        at = at + 1;
    }
    assert(parts@.subrange(0, at as int) =~= parts@);
    let decoded = decode_entities(plain.as_str());
    trim(decoded.as_str()).to_owned()
}

/// Why a text could not be read as a number.
#[derive(Debug, PartialEq, Eq, Clone, Copy)]
pub enum NumberError {
    /// What is left of the text between its numerals is no 32 bit integer.
    NotANumber,
}

/// Reads the number that `text` holds between characters that are no
/// numerals, such as the `90` of `90 HP`.
pub fn number_in(text: &str) -> (res: Result<i32, NumberError>)
    ensures
        res == match parsed_i32(numeric_core(text@)) {
            Some(number) => Ok::<i32, NumberError>(number),
            None => Err(NumberError::NotANumber),
        },
{
    match parse_i32(trim_non_numeric(text)) {
        Some(number) => Ok(number),
        None => Err(NumberError::NotANumber),
    }
}

} // verus!
