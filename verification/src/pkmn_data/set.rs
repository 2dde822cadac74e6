//! A set of cards.

use crate::pattern::{capture, captured, Captured};
use crate::pkmn_data::card::TextError;
use crate::ptcgio_data::Card;
use vstd::prelude::*;
use vstd::string::StringExecFns;

verus! {

/// A set and the cards that belong to it.
#[derive(Debug)]
pub struct CardSet {
    pub name: String,
    pub cards: Vec<Card>,
}

/// The names of `cards` from the card `from` on, with `", "` between them.
pub open spec fn joined_names(cards: Seq<Card>, from: int) -> Seq<char>
    decreases cards.len() - from,
{
    if from < 0 || from >= cards.len() {
        Seq::empty()
    } else if from + 1 == cards.len() {
        cards[from].name@
    } else {
        cards[from].name@ + ", "@ + joined_names(cards, from + 1)
    }
}

/// The names of the first `upto` cards, with `", "` between them.
pub open spec fn joined_prefix(cards: Seq<Card>, upto: int) -> Seq<char>
    decreases upto,
{
    if upto <= 0 || upto > cards.len() {
        Seq::empty()
    } else if upto == 1 {
        cards[0].name@
    } else {
        joined_prefix(cards, upto - 1) + ", "@ + cards[upto - 1].name@
    }
}

/// Joining the names front to back gives what joining them back to front
/// gives.
pub proof fn lemma_joined_prefix_is_joined_names(cards: Seq<Card>, from: int)
    requires
        0 <= from <= cards.len(),
    ensures
        from < cards.len() ==> joined_prefix(cards, cards.len() as int) == (if from == 0 {
            joined_names(cards, 0)
        } else {
            joined_prefix(cards, from) + ", "@ + joined_names(cards, from)
        }),
    decreases cards.len() - from,
{
    if from < cards.len() {
        if from + 1 == cards.len() {
        } else {
            lemma_joined_prefix_is_joined_names(cards, from + 1);
            if from == 0 {
                assert(joined_prefix(cards, 1) == cards[0].name@);
                assert(cards[0].name@ + ", "@ + joined_names(cards, 1) == joined_names(cards, 0));
            } else {
                assert(joined_prefix(cards, from + 1) == joined_prefix(cards, from) + ", "@
                    + cards[from].name@);
                assert((joined_prefix(cards, from) + ", "@ + cards[from].name@) + ", "@
                    + joined_names(cards, from + 1) =~= joined_prefix(cards, from) + ", "@ + (
                cards[from].name@ + ", "@ + joined_names(cards, from + 1)));
            }
        }
    }
}

impl CardSet {
    /// The set of the given name and cards.
    pub fn new(name: &str, cards: Vec<Card>) -> (res: Self)
        ensures
            res.name@ == name@,
            res.cards == cards,
    {
        Self { name: name.to_owned(), cards }
    }

    /// What the set is written out as: its name, and the names of its cards
    /// in brackets.
    pub open spec fn text(&self) -> Seq<char> {
        self.name@ + " Cards: ("@ + joined_names(self.cards@, 0) + ")"@
    }

    /// Writes the set out: its name, and the names of its cards in brackets
    /// with `", "` between them.
    pub fn to_string(&self) -> (res: String)
        ensures
            res@ == self.text(),
    {
        let mut output = String::new();
        let mut at: usize = 0;
        while at < self.cards.len()
            invariant
                at <= self.cards@.len(),
                output@ == joined_prefix(self.cards@, at as int),
            decreases self.cards@.len() - at,
        {
            if at > 0 {
                output.append(", ");
            }
            output.append(self.cards[at].name.as_str());
            at = at + 1;
            assert(output@ =~= joined_prefix(self.cards@, at as int));
        }
        proof {
            if self.cards@.len() > 0 {
                lemma_joined_prefix_is_joined_names(self.cards@, 0);
            }
        }
        let mut res = self.name.clone();
        res.append(" Cards: (");
        res.append(output.as_str());
        res.append(")");
        res
    }
}

/// The form of the name of a set with its code in brackets behind it.
pub const NAME_AND_CODE: &'static str = r"(?<set_name>.*?)(\s\((?<set_code>.*)\))?$";

/// What `set_name_and_code` makes of `text`.
pub open spec fn name_and_code_of(text: Seq<char>) -> Result<
    (Seq<char>, Option<Seq<char>>),
    TextError,
> {
    match captured(NAME_AND_CODE@, text, "set_name"@) {
        Captured::BadPattern => Err(TextError::BadPattern),
        Captured::NoMatch => Err(TextError::NoMatch),
        Captured::Group(None) => Err(TextError::NoName),
        Captured::Group(Some(name)) => match captured(NAME_AND_CODE@, text, "set_code"@) {
            Captured::Group(code) => Ok((name, code)),
            Captured::BadPattern => Err(TextError::BadPattern),
            Captured::NoMatch => Err(TextError::NoMatch),
        },
    }
}

/// Reads the name of a set and its code from a text such as
/// `Unified Minds (UNM)`.
pub fn set_name_and_code(text: &str) -> (res: Result<(String, Option<String>), TextError>)
    ensures
        match res {
            Ok((name, code)) => name_and_code_of(text@) == Ok::<
                (Seq<char>, Option<Seq<char>>),
                TextError,
            >(
                (
                    name@,
                    match code {
                        Some(code) => Some(code@),
                        None => None,
                    },
                ),
            ),
            Err(error) => name_and_code_of(text@) == Err::<
                (Seq<char>, Option<Seq<char>>),
                TextError,
            >(error),
        },
{
    let name = match capture(NAME_AND_CODE, text, "set_name") {
        Err(_) => {
            return Err(TextError::BadPattern);
        },
        Ok(None) => {
            return Err(TextError::NoMatch);
        },
        Ok(Some(None)) => {
            return Err(TextError::NoName);
        },
        Ok(Some(Some(name))) => name,
    };
    match capture(NAME_AND_CODE, text, "set_code") {
        Err(_) => Err(TextError::BadPattern),
        Ok(None) => Err(TextError::NoMatch),
        Ok(Some(code)) => Ok((name, code)),
    }
}

} // verus!
