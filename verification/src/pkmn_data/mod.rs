//! The card dataset that is read from card pages.

use crate::pkmn_data::series::Series;
use vstd::prelude::*;

pub mod card;
pub mod convert;
pub mod extractors;
pub mod series;
pub mod set;

verus! {

/// Where the list of all sets is read from, and where what was read is
/// stored.
pub struct DataFetcher {
    pub url: String,
    pub store_path: String,
}

/// The address of the page that lists all sets.
pub const SETS_URL: &'static str = "https://pkmncards.com/sets/";

impl Default for DataFetcher {
    fn default() -> (res: Self)
        ensures
            res.url@ == SETS_URL@,
            res.store_path@ == "pkmn_data"@,
    {
        DataFetcher::new(SETS_URL, "pkmn_data")
    }
}

impl DataFetcher {
    /// A fetcher that starts at `data_start_url` and stores what it reads
    /// under `store_path`.
    pub fn new(data_start_url: &str, store_path: &str) -> (res: Self)
        ensures
            res.url@ == data_start_url@,
            res.store_path@ == store_path@,
    {
        DataFetcher { url: data_start_url.to_owned(), store_path: store_path.to_owned() }
    }
}

/// All that was read from the card pages.
#[derive(Debug)]
pub struct Data {
    pub all_series: Vec<Series>,
}

} // verus!
