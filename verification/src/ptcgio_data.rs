//! The card dataset of the Pokémon TCG data repository.

use crate::json::Json;
use crate::text::same_text;
use std::collections::HashMap;
use vstd::prelude::*;

verus! {

/// A record of named texts, in ascending order of the names.
pub type Record = Vec<(String, String)>;

/// A record of named JSON values, in ascending order of the names.
pub type JsonRecord = Vec<(String, Json)>;

/// A card as the data repository describes it.
#[derive(Default, Debug, Eq, PartialEq)]
pub struct Card {
    pub id: String,
    pub name: String,
    pub supertype: String,
    pub subtypes: Option<Vec<String>>,
    pub level: Option<String>,
    pub hp: Option<String>,
    pub types: Option<Vec<String>>,
    pub evolves_from: Option<String>,
    pub evolves_to: Option<Vec<String>>,
    pub abilities: Option<Vec<Record>>,
    pub rules: Option<Vec<String>>,
    pub attacks: Option<Vec<JsonRecord>>,
    pub resistances: Option<Vec<Record>>,
    pub weaknesses: Option<Vec<Record>>,
    pub retreat_cost: Option<Vec<String>>,
    pub converted_retreat_cost: Option<usize>,
    pub number: String,
    pub artist: Option<String>,
    pub rarity: Option<String>,
    pub flavor_text: Option<String>,
    pub national_pokedex_numbers: Option<Vec<i32>>,
    pub legalities: Record,
    pub images: Record,
    pub ancient_trait: Option<Record>,
    pub regulation_mark: Option<String>,
}

/// A set of cards as the data repository describes it.
#[derive(Debug)]
pub struct CardSet {
    pub cards: Vec<Card>,
    pub id: String,
    pub name: String,
    pub series: String,
    pub printed_total: i32,
    pub total: i32,
    pub legalities: HashMap<String, String>,
    pub ptcgo_code: Option<String>,
    pub release_date: String,
    pub updated_at: String,
    pub images: HashMap<String, String>,
}

impl CardSet {
    /// Replaces the cards of the set.
    pub fn with_cards(&mut self, cards: Vec<Card>)
        ensures
            final(self).cards == cards,
            final(self).id == old(self).id,
            final(self).name == old(self).name,
            final(self).series == old(self).series,
            final(self).printed_total == old(self).printed_total,
            final(self).total == old(self).total,
            final(self).legalities == old(self).legalities,
            final(self).ptcgo_code == old(self).ptcgo_code,
            final(self).release_date == old(self).release_date,
            final(self).updated_at == old(self).updated_at,
            final(self).images == old(self).images,
    {
        self.cards = cards;
    }
}

/// Where the data repository is cloned from, and where it is cloned to.
pub struct DataFetcher {
    pub url: String,
    pub path: String,
}

/// The address of the data repository.
pub const PTCG_DATA_URL: &'static str = "https://github.com/PokemonTCG/pokemon-tcg-data.git";

impl Default for DataFetcher {
    fn default() -> (res: Self)
        ensures
            res.url@ == PTCG_DATA_URL@,
            res.path@ == "pokemon-tcg-data"@,
    {
        DataFetcher::new(PTCG_DATA_URL, "pokemon-tcg-data")
    }
}

impl DataFetcher {
    /// A fetcher that clones the repository at `data_url` to `save_path`.
    pub fn new(data_url: &str, save_path: &str) -> (res: Self)
        ensures
            res.url@ == data_url@,
            res.path@ == save_path@,
    {
        DataFetcher { url: data_url.to_owned(), path: save_path.to_owned() }
    }
}


impl Card {
    /// Drops what two datasets are not compared by: the images, the
    /// legalities and the Pokédex numbers.
    pub fn strip(&mut self)
        ensures
            final(self).images@.len() == 0,
            final(self).legalities@.len() == 0,
            final(self).national_pokedex_numbers is None,
            final(self).id == old(self).id,
            final(self).name == old(self).name,
            final(self).supertype == old(self).supertype,
            final(self).subtypes == old(self).subtypes,
            final(self).level == old(self).level,
            final(self).hp == old(self).hp,
            final(self).types == old(self).types,
            final(self).evolves_from == old(self).evolves_from,
            final(self).evolves_to == old(self).evolves_to,
            final(self).abilities == old(self).abilities,
            final(self).rules == old(self).rules,
            final(self).attacks == old(self).attacks,
            final(self).resistances == old(self).resistances,
            final(self).weaknesses == old(self).weaknesses,
            final(self).retreat_cost == old(self).retreat_cost,
            final(self).converted_retreat_cost == old(self).converted_retreat_cost,
            final(self).number == old(self).number,
            final(self).artist == old(self).artist,
            final(self).rarity == old(self).rarity,
            final(self).flavor_text == old(self).flavor_text,
            final(self).ancient_trait == old(self).ancient_trait,
            final(self).regulation_mark == old(self).regulation_mark,
    {
        self.images.clear();
        self.legalities.clear();
        self.national_pokedex_numbers = None;
    }
}

/// The text that a record holds under `key`: that of its first entry of
/// this name.
pub open spec fn record_value(record: Seq<(String, String)>, key: Seq<char>) -> Option<Seq<char>>
    decreases record.len(),
{
    if record.len() == 0 {
        None
    } else if record[0].0@ == key {
        Some(record[0].1@)
    } else {
        record_value(record.skip(1), key)
    }
}

/// The text that `record` holds under `key`.
pub fn record_get<'a>(record: &'a Record, key: &str) -> (res: Option<&'a String>)
    ensures
        match res {
            Some(value) => record_value(record@, key@) == Some(value@),
            None => record_value(record@, key@) is None,
        },
{
    let mut at: usize = 0;
    assert(record@.skip(0) =~= record@);
    while at < record.len()
        invariant
            at <= record@.len(),
            record_value(record@, key@) == record_value(record@.skip(at as int), key@),
        decreases record@.len() - at,
    {
        let ghost rest = record@.skip(at as int);
        assert(rest[0] == record@[at as int]);
        assert(rest.skip(1) =~= record@.skip(at + 1));
        if same_text(record[at].0.as_str(), key) {
            return Some(&record[at].1);
        }
        at = at + 1;
    }
    None
}

/// Whether a record has a modifier that is none of `usual`.
pub open spec fn is_unusual(record: Seq<(String, String)>, usual: Seq<Seq<char>>) -> bool {
    match record_value(record, "value"@) {
        Some(value) => !usual.contains(value),
        None => false,
    }
}

/// The two texts as a list.
pub open spec fn either(first: Seq<char>, second: Seq<char>) -> Seq<Seq<char>> {
    seq![first, second]
}

/// Whether the record at the place `i` has a modifier that is none of
/// `usual`.
pub open spec fn unusual_at(records: Seq<Record>, usual: Seq<Seq<char>>, i: int) -> bool {
    0 <= i < records.len() && is_unusual(records[i]@, usual)
}

/// Whether one of the records has a modifier that is none of `usual`.
pub open spec fn any_unusual(records: Option<Vec<Record>>, usual: Seq<Seq<char>>) -> bool {
    match records {
        Some(records) => exists|i: int| #[trigger] unusual_at(records@, usual, i),
        None => false,
    }
}

/// Returns whether one of the records has a modifier that is neither
/// `usual` nor `other_usual`.
fn has_unusual(all: &Option<Vec<Record>>, usual: &str, other_usual: &str) -> (res: bool)
    ensures
        res == any_unusual(*all, either(usual@, other_usual@)),
{
    let records = match all {
        Some(records) => records,
        None => {
            return false;
        },
    };
    let ghost both = either(usual@, other_usual@);
    let mut at: usize = 0;
    while at < records.len()
        invariant
            at <= records@.len(),
            *all == Some(*records),
            both == either(usual@, other_usual@),
            forall|i: int| 0 <= i < at ==> !#[trigger] unusual_at(records@, both, i),
        decreases records@.len() - at,
    {
        match record_get(&records[at], "value") {
            Some(value) => {
                if !same_text(value.as_str(), usual) && !same_text(value.as_str(), other_usual) {
                    assert(!both.contains(value@)) by {
                        if both.contains(value@) {
                            let i = choose|i: int| 0 <= i < both.len() && both[i] == value@;
                            assert(i == 0 || i == 1);
                        }
                    }
                    assert(record_value(records@[at as int]@, "value"@) == Some(value@));
                    assert(is_unusual(records@[at as int]@, both));
                    assert(unusual_at((*all)->0@, either(usual@, other_usual@), at as int));
                    return true;
                }
                assert(both[0] == usual@ && both[1] == other_usual@);
            },
            None => {},
        }
        at = at + 1;
    }
    false
}

impl Card {
    /// Returns whether the card resists by something else than 20 or 30, or
    /// is weak by something else than the double.
    pub fn has_unusual_modifier(&self) -> (res: bool)
        ensures
            res == (any_unusual(self.resistances, either("-30"@, "-20"@)) || any_unusual(
                self.weaknesses,
                either("Ã—2"@, "Ã—2"@),
            )),
    {
        has_unusual(&self.resistances, "-30", "-20") || has_unusual(&self.weaknesses, "Ã—2", "Ã—2")
    }
}

} // verus!
