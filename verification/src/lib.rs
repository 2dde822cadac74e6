//! A structural diff engine for keyed collections, and what a comparison of
//! two card datasets builds on it.
//!
//! Given a source and a target instance of the same map or set type, the
//! engine in [`arbitrary`] computes the additions, removals and
//! modifications that turn the source into the target. Every function is
//! verified against a contract stated over the mathematical views of the
//! collections.
//!
//! The other modules hold what the comparison of two card datasets needs
//! besides: the cards and what a card page says of them ([`pkmn_data`],
//! [`ptcgio_data`]), the operations that line up the set names of two
//! datasets ([`mapping`], [`report`]), and the differences between two JSON
//! values ([`json`], [`diff`]).

pub mod arbitrary;
pub mod diff;
pub mod json;
pub mod mapping;
pub mod pattern;
pub mod pkmn_data;
pub mod ptcgio_data;
pub mod report;
pub mod text;
