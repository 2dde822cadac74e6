//! Matching of text against regular expressions.

use vstd::prelude::*;

verus! {

/// Why a regular expression could not be used.
#[verifier::external_type_specification]
#[verifier::external_body]
pub struct ExPatternError(regex::Error);

/// What matching a text against a regular expression gives for one named
/// group.
pub enum Captured {
    /// The regular expression cannot be used.
    BadPattern,
    /// The text does not match.
    NoMatch,
    /// The text matches; the group holds this part of it, if it took part
    /// in the match.
    Group(Option<Seq<char>>),
}

/// What the leftmost match of `pattern` in `text` gives for the group
/// `name`.
pub uninterp spec fn captured(pattern: Seq<char>, text: Seq<char>, name: Seq<char>) -> Captured;

/// What a found group holds.
pub open spec fn group_view(found: Option<Option<String>>) -> Captured {
    match found {
        None => Captured::NoMatch,
        Some(None) => Captured::Group(None),
        Some(Some(part)) => Captured::Group(Some(part@)),
    }
}

/// Matches `text` against `pattern` and returns the part of the leftmost
/// match that the group `name` holds.
///
/// Calls `Regex::new`, `Regex::captures` and `Captures::name` of the crate
/// `regex`. The result depends on the three texts alone.
#[verifier::external_body]
pub(crate) fn capture(pattern: &str, text: &str, name: &str) -> (res: Result<
    Option<Option<String>>,
    regex::Error,
>)
    ensures
        match res {
            Ok(found) => captured(pattern@, text@, name@) == group_view(found),
            Err(_) => captured(pattern@, text@, name@) == Captured::BadPattern,
        },
{
    let regex = regex::Regex::new(pattern)?;
    Ok(regex.captures(text).map(|found| found.name(name).map(|part| part.as_str().to_string())))
}

/// The parts of `text` between the matches of `pattern`, or `None` where
/// the regular expression cannot be used.
pub uninterp spec fn split_parts(pattern: Seq<char>, text: Seq<char>) -> Option<Seq<Seq<char>>>;

/// What a list of strings holds.
pub open spec fn texts_view(texts: Seq<String>) -> Seq<Seq<char>> {
    texts.map_values(|text: String| text@)
}

/// Splits `text` at the matches of `pattern`.
///
/// Calls `Regex::new` and `Regex::split` of the crate `regex`. The result
/// depends on the two texts alone.
#[verifier::external_body]
pub(crate) fn split(pattern: &str, text: &str) -> (res: Result<Vec<String>, regex::Error>)
    ensures
        match res {
            Ok(parts) => split_parts(pattern@, text@) == Some(texts_view(parts@)),
            Err(_) => split_parts(pattern@, text@) is None,
        },
{
    let regex = regex::Regex::new(pattern)?;
    Ok(regex.split(text).map(|part| part.to_string()).collect())
}

} // verus!
