//! The text of a card as a card page shows it: the kinds that its fields
//! take, and how each kind is read from and written out as text.

use crate::pattern::{capture, captured, split, split_parts, texts_view, Captured};
use crate::text::{
    after_prefix, parse_i32, parse_usize, parsed_i32, parsed_usize, same_text, starts_with, trim,
    trim_end, trim_leading, trim_prefixes, trim_suffixes, trimmed, trimmed_end, without_leading,
    without_prefixes, without_suffixes,
};
use vstd::prelude::*;

verus! {

/// Why a text could not be read as a variant.
#[derive(Eq, PartialEq, Debug, Clone, Copy)]
pub enum ParseError {
    /// The text names no variant.
    VariantNotFound,
}

/// The color of a card, or of a weakness or resistance.
#[derive(Eq, PartialEq, Debug)]
pub enum PokeColor {
    Grass,
    Fire,
    Water,
    Lightning,
    Fighting,
    Psychic,
    Colorless,
    Darkness,
    Metal,
    Dragon,
    Fairy,
    Other(String),
}

impl PokeColor {
    /// The variant that `text` names, if it names one.
    pub open spec fn from_text(text: Seq<char>) -> Option<PokeColor> {
        if text == "Grass"@ {
            Some(PokeColor::Grass)
        } else if text == "Fire"@ {
            Some(PokeColor::Fire)
        } else if text == "Water"@ {
            Some(PokeColor::Water)
        } else if text == "Lightning"@ {
            Some(PokeColor::Lightning)
        } else if text == "Fighting"@ {
            Some(PokeColor::Fighting)
        } else if text == "Psychic"@ {
            Some(PokeColor::Psychic)
        } else if text == "Colorless"@ {
            Some(PokeColor::Colorless)
        } else if text == "Dark"@ {
            Some(PokeColor::Darkness)
        } else if text == "Darkness"@ {
            Some(PokeColor::Darkness)
        } else if text == "Metal"@ {
            Some(PokeColor::Metal)
        } else if text == "Dragon"@ {
            Some(PokeColor::Dragon)
        } else if text == "Fairy"@ {
            Some(PokeColor::Fairy)
        } else {
            None
        }
    }

    /// Reads a variant from its name. A text that names no variant is kept
    /// in `Other`.
    pub fn from_str(s: &str) -> (res: Result<PokeColor, ParseError>)
        ensures
            match Self::from_text(s@) {
                Some(variant) => res == Ok::<PokeColor, ParseError>(variant),
                None => res matches Ok(PokeColor::Other(kept)) && kept@ == s@,
            },
    {
        if same_text(s, "Grass") {
            Ok(PokeColor::Grass)
        } else if same_text(s, "Fire") {
            Ok(PokeColor::Fire)
        } else if same_text(s, "Water") {
            Ok(PokeColor::Water)
        } else if same_text(s, "Lightning") {
            Ok(PokeColor::Lightning)
        } else if same_text(s, "Fighting") {
            Ok(PokeColor::Fighting)
        } else if same_text(s, "Psychic") {
            Ok(PokeColor::Psychic)
        } else if same_text(s, "Colorless") {
            Ok(PokeColor::Colorless)
        } else if same_text(s, "Dark") {
            Ok(PokeColor::Darkness)
        } else if same_text(s, "Darkness") {
            Ok(PokeColor::Darkness)
        } else if same_text(s, "Metal") {
            Ok(PokeColor::Metal)
        } else if same_text(s, "Dragon") {
            Ok(PokeColor::Dragon)
        } else if same_text(s, "Fairy") {
            Ok(PokeColor::Fairy)
        } else {
            Ok(PokeColor::Other(s.to_owned()))
        }
    }

    /// The name under which the variant is written out.
    pub open spec fn name(&self) -> Seq<char> {
        match self {
            PokeColor::Grass => "Grass"@,
            PokeColor::Fire => "Fire"@,
            PokeColor::Water => "Water"@,
            PokeColor::Lightning => "Lightning"@,
            PokeColor::Fighting => "Fighting"@,
            PokeColor::Psychic => "Psychic"@,
            PokeColor::Colorless => "Colorless"@,
            PokeColor::Darkness => "Darkness"@,
            PokeColor::Metal => "Metal"@,
            PokeColor::Dragon => "Dragon"@,
            PokeColor::Fairy => "Fairy"@,
            PokeColor::Other(kept) => kept@,
        }
    }

    /// Writes the variant out by its name.
    pub fn to_string(&self) -> (res: String)
        ensures
            res@ == self.name(),
    {
        match self {
            PokeColor::Grass => "Grass".to_owned(),
            PokeColor::Fire => "Fire".to_owned(),
            PokeColor::Water => "Water".to_owned(),
            PokeColor::Lightning => "Lightning".to_owned(),
            PokeColor::Fighting => "Fighting".to_owned(),
            PokeColor::Psychic => "Psychic".to_owned(),
            PokeColor::Colorless => "Colorless".to_owned(),
            PokeColor::Darkness => "Darkness".to_owned(),
            PokeColor::Metal => "Metal".to_owned(),
            PokeColor::Dragon => "Dragon".to_owned(),
            PokeColor::Fairy => "Fairy".to_owned(),
            PokeColor::Other(kept) => kept.clone(),
        }
    }

    /// Reading the name of a variant gives the variant back.
    pub proof fn lemma_name_reads_back(self)
        requires
            !(self is Other),
        ensures
            Self::from_text(self.name()) == Some(self),
    {
        reveal_strlit("Grass");
        reveal_strlit("Fire");
        reveal_strlit("Water");
        reveal_strlit("Lightning");
        reveal_strlit("Fighting");
        reveal_strlit("Psychic");
        reveal_strlit("Colorless");
        reveal_strlit("Dark");
        reveal_strlit("Darkness");
        reveal_strlit("Metal");
        reveal_strlit("Dragon");
        reveal_strlit("Fairy");
        assert("Grass"@.len() != "Fire"@.len());
        assert("Grass"@[0] != "Water"@[0]);
        assert("Fire"@.len() != "Water"@.len());
        assert("Grass"@.len() != "Lightning"@.len());
        assert("Fire"@.len() != "Lightning"@.len());
        assert("Water"@.len() != "Lightning"@.len());
        assert("Grass"@.len() != "Fighting"@.len());
        assert("Fire"@.len() != "Fighting"@.len());
        assert("Water"@.len() != "Fighting"@.len());
        assert("Lightning"@.len() != "Fighting"@.len());
        assert("Grass"@.len() != "Psychic"@.len());
        assert("Fire"@.len() != "Psychic"@.len());
        assert("Water"@.len() != "Psychic"@.len());
        assert("Lightning"@.len() != "Psychic"@.len());
        assert("Fighting"@.len() != "Psychic"@.len());
        assert("Grass"@.len() != "Colorless"@.len());
        assert("Fire"@.len() != "Colorless"@.len());
        assert("Water"@.len() != "Colorless"@.len());
        assert("Lightning"@[0] != "Colorless"@[0]);
        assert("Fighting"@.len() != "Colorless"@.len());
        assert("Psychic"@.len() != "Colorless"@.len());
        assert("Grass"@.len() != "Darkness"@.len());
        assert("Fire"@.len() != "Darkness"@.len());
        assert("Water"@.len() != "Darkness"@.len());
        assert("Lightning"@.len() != "Darkness"@.len());
        assert("Fighting"@[0] != "Darkness"@[0]);
        assert("Psychic"@.len() != "Darkness"@.len());
        assert("Colorless"@.len() != "Darkness"@.len());
        assert("Dark"@.len() != "Darkness"@.len());
        assert("Grass"@[0] != "Metal"@[0]);
        assert("Fire"@.len() != "Metal"@.len());
        assert("Water"@[0] != "Metal"@[0]);
        assert("Lightning"@.len() != "Metal"@.len());
        assert("Fighting"@.len() != "Metal"@.len());
        assert("Psychic"@.len() != "Metal"@.len());
        assert("Colorless"@.len() != "Metal"@.len());
        assert("Dark"@.len() != "Metal"@.len());
        assert("Darkness"@.len() != "Metal"@.len());
        assert("Grass"@.len() != "Dragon"@.len());
        assert("Fire"@.len() != "Dragon"@.len());
        assert("Water"@.len() != "Dragon"@.len());
        assert("Lightning"@.len() != "Dragon"@.len());
        assert("Fighting"@.len() != "Dragon"@.len());
        assert("Psychic"@.len() != "Dragon"@.len());
        assert("Colorless"@.len() != "Dragon"@.len());
        assert("Dark"@.len() != "Dragon"@.len());
        assert("Darkness"@.len() != "Dragon"@.len());
        assert("Metal"@.len() != "Dragon"@.len());
        assert("Grass"@[0] != "Fairy"@[0]);
        assert("Fire"@.len() != "Fairy"@.len());
        assert("Water"@[0] != "Fairy"@[0]);
        assert("Lightning"@.len() != "Fairy"@.len());
        assert("Fighting"@.len() != "Fairy"@.len());
        assert("Psychic"@.len() != "Fairy"@.len());
        assert("Colorless"@.len() != "Fairy"@.len());
        assert("Dark"@.len() != "Fairy"@.len());
        assert("Darkness"@.len() != "Fairy"@.len());
        assert("Metal"@[0] != "Fairy"@[0]);
        assert("Dragon"@.len() != "Fairy"@.len());
    }
}

/// The supertype of a card.
#[derive(Eq, PartialEq, Debug)]
pub enum PkmnSuperType {
    Pokemon,
    Trainer,
    Energy,
}

impl PkmnSuperType {
    /// The variant that `text` names, if it names one.
    pub open spec fn from_text(text: Seq<char>) -> Option<PkmnSuperType> {
        if text == "Pokémon"@ {
            Some(PkmnSuperType::Pokemon)
        } else if text == "Trainer"@ {
            Some(PkmnSuperType::Trainer)
        } else if text == "Energy"@ {
            Some(PkmnSuperType::Energy)
        } else {
            None
        }
    }

    /// Reads a variant from its name.
    pub fn from_str(s: &str) -> (res: Result<PkmnSuperType, ParseError>)
        ensures
            res == match Self::from_text(s@) {
                Some(variant) => Ok::<PkmnSuperType, ParseError>(variant),
                None => Err(ParseError::VariantNotFound),
            },
    {
        if same_text(s, "Pokémon") {
            Ok(PkmnSuperType::Pokemon)
        } else if same_text(s, "Trainer") {
            Ok(PkmnSuperType::Trainer)
        } else if same_text(s, "Energy") {
            Ok(PkmnSuperType::Energy)
        } else {
            Err(ParseError::VariantNotFound)
        }
    }

    /// The name under which the variant is written out.
    pub open spec fn name(&self) -> Seq<char> {
        match self {
            PkmnSuperType::Pokemon => "Pokémon"@,
            PkmnSuperType::Trainer => "Trainer"@,
            PkmnSuperType::Energy => "Energy"@,
        }
    }

    /// Writes the variant out by its name.
    pub fn to_string(&self) -> (res: String)
        ensures
            res@ == self.name(),
    {
        match self {
            PkmnSuperType::Pokemon => "Pokémon".to_owned(),
            PkmnSuperType::Trainer => "Trainer".to_owned(),
            PkmnSuperType::Energy => "Energy".to_owned(),
        }
    }

    /// Reading the name of a variant gives the variant back.
    pub proof fn lemma_name_reads_back(self)
        ensures
            Self::from_text(self.name()) == Some(self),
    {
        reveal_strlit("Pokémon");
        reveal_strlit("Trainer");
        reveal_strlit("Energy");
        assert("Pokémon"@[0] != "Trainer"@[0]);
        assert("Pokémon"@.len() != "Energy"@.len());
        assert("Trainer"@.len() != "Energy"@.len());
    }
}

/// The subtype of a trainer or energy card.
#[derive(Eq, PartialEq, Debug)]
pub enum PkmnSubtype {
    Item,
    Supporter,
    BasicEnergy,
    PokemonTool,
    Stadium,
    SpecialEnergy,
}

impl PkmnSubtype {
    /// The variant that `text` names, if it names one.
    pub open spec fn from_text(text: Seq<char>) -> Option<PkmnSubtype> {
        if text == "Item"@ {
            Some(PkmnSubtype::Item)
        } else if text == "Supporter"@ {
            Some(PkmnSubtype::Supporter)
        } else if text == "Basic Energy"@ {
            Some(PkmnSubtype::BasicEnergy)
        } else if text == "Pokémon Tool"@ {
            Some(PkmnSubtype::PokemonTool)
        } else if text == "Stadium"@ {
            Some(PkmnSubtype::Stadium)
        } else if text == "Special Energy"@ {
            Some(PkmnSubtype::SpecialEnergy)
        } else {
            None
        }
    }

    /// Reads a variant from its name.
    pub fn from_str(s: &str) -> (res: Result<PkmnSubtype, ParseError>)
        ensures
            res == match Self::from_text(s@) {
                Some(variant) => Ok::<PkmnSubtype, ParseError>(variant),
                None => Err(ParseError::VariantNotFound),
            },
    {
        if same_text(s, "Item") {
            Ok(PkmnSubtype::Item)
        } else if same_text(s, "Supporter") {
            Ok(PkmnSubtype::Supporter)
        } else if same_text(s, "Basic Energy") {
            Ok(PkmnSubtype::BasicEnergy)
        } else if same_text(s, "Pokémon Tool") {
            Ok(PkmnSubtype::PokemonTool)
        } else if same_text(s, "Stadium") {
            Ok(PkmnSubtype::Stadium)
        } else if same_text(s, "Special Energy") {
            Ok(PkmnSubtype::SpecialEnergy)
        } else {
            Err(ParseError::VariantNotFound)
        }
    }

    /// The name under which the variant is written out.
    pub open spec fn name(&self) -> Seq<char> {
        match self {
            PkmnSubtype::Item => "Item"@,
            PkmnSubtype::Supporter => "Supporter"@,
            PkmnSubtype::BasicEnergy => "Basic Energy"@,
            PkmnSubtype::PokemonTool => "Pokémon Tool"@,
            PkmnSubtype::Stadium => "Stadium"@,
            PkmnSubtype::SpecialEnergy => "Special Energy"@,
        }
    }

    /// Writes the variant out by its name.
    pub fn to_string(&self) -> (res: String)
        ensures
            res@ == self.name(),
    {
        match self {
            PkmnSubtype::Item => "Item".to_owned(),
            PkmnSubtype::Supporter => "Supporter".to_owned(),
            PkmnSubtype::BasicEnergy => "Basic Energy".to_owned(),
            PkmnSubtype::PokemonTool => "Pokémon Tool".to_owned(),
            PkmnSubtype::Stadium => "Stadium".to_owned(),
            PkmnSubtype::SpecialEnergy => "Special Energy".to_owned(),
        }
    }

    /// Reading the name of a variant gives the variant back.
    pub proof fn lemma_name_reads_back(self)
        ensures
            Self::from_text(self.name()) == Some(self),
    {
        reveal_strlit("Item");
        reveal_strlit("Supporter");
        reveal_strlit("Basic Energy");
        reveal_strlit("Pokémon Tool");
        reveal_strlit("Stadium");
        reveal_strlit("Special Energy");
        assert("Item"@.len() != "Supporter"@.len());
        assert("Item"@.len() != "Basic Energy"@.len());
        assert("Supporter"@.len() != "Basic Energy"@.len());
        assert("Item"@.len() != "Pokémon Tool"@.len());
        assert("Supporter"@.len() != "Pokémon Tool"@.len());
        assert("Basic Energy"@[0] != "Pokémon Tool"@[0]);
        assert("Item"@.len() != "Stadium"@.len());
        assert("Supporter"@.len() != "Stadium"@.len());
        assert("Basic Energy"@.len() != "Stadium"@.len());
        assert("Pokémon Tool"@.len() != "Stadium"@.len());
        assert("Item"@.len() != "Special Energy"@.len());
        assert("Supporter"@.len() != "Special Energy"@.len());
        assert("Basic Energy"@.len() != "Special Energy"@.len());
        assert("Pokémon Tool"@.len() != "Special Energy"@.len());
        assert("Stadium"@.len() != "Special Energy"@.len());
    }
}

/// The finer subtype of a trainer card.
#[derive(Eq, PartialEq, Debug)]
pub enum PkmnSubSubType {
    TechnicalMachine,
    RocketsSecretMachine,
    GoldenrodGameCorner,
    PokemonToolF,
}

impl PkmnSubSubType {
    /// The variant that `text` names, if it names one.
    pub open spec fn from_text(text: Seq<char>) -> Option<PkmnSubSubType> {
        if text == "Technical Machine"@ {
            Some(PkmnSubSubType::TechnicalMachine)
        } else if text == "Rocket's Secret Machine"@ {
            Some(PkmnSubSubType::RocketsSecretMachine)
        } else if text == "Goldenrod Game Corner"@ {
            Some(PkmnSubSubType::GoldenrodGameCorner)
        } else if text == "Pokémon Tool F"@ {
            Some(PkmnSubSubType::PokemonToolF)
        } else {
            None
        }
    }

    /// Reads a variant from its name.
    pub fn from_str(s: &str) -> (res: Result<PkmnSubSubType, ParseError>)
        ensures
            res == match Self::from_text(s@) {
                Some(variant) => Ok::<PkmnSubSubType, ParseError>(variant),
                None => Err(ParseError::VariantNotFound),
            },
    {
        if same_text(s, "Technical Machine") {
            Ok(PkmnSubSubType::TechnicalMachine)
        } else if same_text(s, "Rocket's Secret Machine") {
            Ok(PkmnSubSubType::RocketsSecretMachine)
        } else if same_text(s, "Goldenrod Game Corner") {
            Ok(PkmnSubSubType::GoldenrodGameCorner)
        } else if same_text(s, "Pokémon Tool F") {
            Ok(PkmnSubSubType::PokemonToolF)
        } else {
            Err(ParseError::VariantNotFound)
        }
    }

    /// The name under which the variant is written out.
    pub open spec fn name(&self) -> Seq<char> {
        match self {
            PkmnSubSubType::TechnicalMachine => "Technical Machine"@,
            PkmnSubSubType::RocketsSecretMachine => "Rocket's Secret Machine"@,
            PkmnSubSubType::GoldenrodGameCorner => "Goldenrod Game Corner"@,
            PkmnSubSubType::PokemonToolF => "Pokémon Tool F"@,
        }
    }

    /// Writes the variant out by its name.
    pub fn to_string(&self) -> (res: String)
        ensures
            res@ == self.name(),
    {
        match self {
            PkmnSubSubType::TechnicalMachine => "Technical Machine".to_owned(),
            PkmnSubSubType::RocketsSecretMachine => "Rocket's Secret Machine".to_owned(),
            PkmnSubSubType::GoldenrodGameCorner => "Goldenrod Game Corner".to_owned(),
            PkmnSubSubType::PokemonToolF => "Pokémon Tool F".to_owned(),
        }
    }

    /// Reading the name of a variant gives the variant back.
    pub proof fn lemma_name_reads_back(self)
        ensures
            Self::from_text(self.name()) == Some(self),
    {
        reveal_strlit("Technical Machine");
        reveal_strlit("Rocket's Secret Machine");
        reveal_strlit("Goldenrod Game Corner");
        reveal_strlit("Pokémon Tool F");
        assert("Technical Machine"@.len() != "Rocket's Secret Machine"@.len());
        assert("Technical Machine"@.len() != "Goldenrod Game Corner"@.len());
        assert("Rocket's Secret Machine"@.len() != "Goldenrod Game Corner"@.len());
        assert("Technical Machine"@.len() != "Pokémon Tool F"@.len());
        assert("Rocket's Secret Machine"@.len() != "Pokémon Tool F"@.len());
        assert("Goldenrod Game Corner"@.len() != "Pokémon Tool F"@.len());
    }
}

/// The stage of evolution of a card.
#[derive(Eq, PartialEq, Debug)]
pub enum Stage {
    Basic,
    Stage1,
    Stage2,
    Vmax,
    Vstar,
    Mega,
    LevelUp,
    Break,
    VUnion,
    Baby,
    Legend,
    Restored,
}

impl Stage {
    /// The variant that `text` names, if it names one.
    pub open spec fn from_text(text: Seq<char>) -> Option<Stage> {
        if text == "Basic"@ {
            Some(Stage::Basic)
        } else if text == "Stage 1"@ {
            Some(Stage::Stage1)
        } else if text == "Stage 2"@ {
            Some(Stage::Stage2)
        } else if text == "VMAX"@ {
            Some(Stage::Vmax)
        } else if text == "VSTAR"@ {
            Some(Stage::Vstar)
        } else if text == "Mega"@ {
            Some(Stage::Mega)
        } else if text == "Level-Up"@ {
            Some(Stage::LevelUp)
        } else if text == "BREAK"@ {
            Some(Stage::Break)
        } else if text == "V-UNION"@ {
            Some(Stage::VUnion)
        } else if text == "Baby"@ {
            Some(Stage::Baby)
        } else if text == "LEGEND"@ {
            Some(Stage::Legend)
        } else if text == "Restored"@ {
            Some(Stage::Restored)
        } else {
            None
        }
    }

    /// Reads a variant from its name.
    pub fn from_str(s: &str) -> (res: Result<Stage, ParseError>)
        ensures
            res == match Self::from_text(s@) {
                Some(variant) => Ok::<Stage, ParseError>(variant),
                None => Err(ParseError::VariantNotFound),
            },
    {
        if same_text(s, "Basic") {
            Ok(Stage::Basic)
        } else if same_text(s, "Stage 1") {
            Ok(Stage::Stage1)
        } else if same_text(s, "Stage 2") {
            Ok(Stage::Stage2)
        } else if same_text(s, "VMAX") {
            Ok(Stage::Vmax)
        } else if same_text(s, "VSTAR") {
            Ok(Stage::Vstar)
        } else if same_text(s, "Mega") {
            Ok(Stage::Mega)
        } else if same_text(s, "Level-Up") {
            Ok(Stage::LevelUp)
        } else if same_text(s, "BREAK") {
            Ok(Stage::Break)
        } else if same_text(s, "V-UNION") {
            Ok(Stage::VUnion)
        } else if same_text(s, "Baby") {
            Ok(Stage::Baby)
        } else if same_text(s, "LEGEND") {
            Ok(Stage::Legend)
        } else if same_text(s, "Restored") {
            Ok(Stage::Restored)
        } else {
            Err(ParseError::VariantNotFound)
        }
    }

    /// The name under which the variant is written out.
    pub open spec fn name(&self) -> Seq<char> {
        match self {
            Stage::Basic => "Basic"@,
            Stage::Stage1 => "Stage 1"@,
            Stage::Stage2 => "Stage 2"@,
            Stage::Vmax => "VMAX"@,
            Stage::Vstar => "VSTAR"@,
            Stage::Mega => "Mega"@,
            Stage::LevelUp => "Level-Up"@,
            Stage::Break => "BREAK"@,
            Stage::VUnion => "V-UNION"@,
            Stage::Baby => "Baby"@,
            Stage::Legend => "LEGEND"@,
            Stage::Restored => "Restored"@,
        }
    }

    /// Writes the variant out by its name.
    pub fn to_string(&self) -> (res: String)
        ensures
            res@ == self.name(),
    {
        match self {
            Stage::Basic => "Basic".to_owned(),
            Stage::Stage1 => "Stage 1".to_owned(),
            Stage::Stage2 => "Stage 2".to_owned(),
            Stage::Vmax => "VMAX".to_owned(),
            Stage::Vstar => "VSTAR".to_owned(),
            Stage::Mega => "Mega".to_owned(),
            Stage::LevelUp => "Level-Up".to_owned(),
            Stage::Break => "BREAK".to_owned(),
            Stage::VUnion => "V-UNION".to_owned(),
            Stage::Baby => "Baby".to_owned(),
            Stage::Legend => "LEGEND".to_owned(),
            Stage::Restored => "Restored".to_owned(),
        }
    }

    /// Reading the name of a variant gives the variant back.
    pub proof fn lemma_name_reads_back(self)
        ensures
            Self::from_text(self.name()) == Some(self),
    {
        reveal_strlit("Basic");
        reveal_strlit("Stage 1");
        reveal_strlit("Stage 2");
        reveal_strlit("VMAX");
        reveal_strlit("VSTAR");
        reveal_strlit("Mega");
        reveal_strlit("Level-Up");
        reveal_strlit("BREAK");
        reveal_strlit("V-UNION");
        reveal_strlit("Baby");
        reveal_strlit("LEGEND");
        reveal_strlit("Restored");
        assert("Basic"@.len() != "Stage 1"@.len());
        assert("Basic"@.len() != "Stage 2"@.len());
        assert("Stage 1"@[6] != "Stage 2"@[6]);
        assert("Basic"@.len() != "VMAX"@.len());
        assert("Stage 1"@.len() != "VMAX"@.len());
        assert("Stage 2"@.len() != "VMAX"@.len());
        assert("Basic"@[0] != "VSTAR"@[0]);
        assert("Stage 1"@.len() != "VSTAR"@.len());
        assert("Stage 2"@.len() != "VSTAR"@.len());
        assert("VMAX"@.len() != "VSTAR"@.len());
        assert("Basic"@.len() != "Mega"@.len());
        assert("Stage 1"@.len() != "Mega"@.len());
        assert("Stage 2"@.len() != "Mega"@.len());
        assert("VMAX"@[0] != "Mega"@[0]);
        assert("VSTAR"@.len() != "Mega"@.len());
        assert("Basic"@.len() != "Level-Up"@.len());
        assert("Stage 1"@.len() != "Level-Up"@.len());
        assert("Stage 2"@.len() != "Level-Up"@.len());
        assert("VMAX"@.len() != "Level-Up"@.len());
        assert("VSTAR"@.len() != "Level-Up"@.len());
        assert("Mega"@.len() != "Level-Up"@.len());
        assert("Basic"@[1] != "BREAK"@[1]);
        assert("Stage 1"@.len() != "BREAK"@.len());
        assert("Stage 2"@.len() != "BREAK"@.len());
        assert("VMAX"@.len() != "BREAK"@.len());
        assert("VSTAR"@[0] != "BREAK"@[0]);
        assert("Mega"@.len() != "BREAK"@.len());
        assert("Level-Up"@.len() != "BREAK"@.len());
        assert("Basic"@.len() != "V-UNION"@.len());
        assert("Stage 1"@[0] != "V-UNION"@[0]);
        assert("Stage 2"@[0] != "V-UNION"@[0]);
        assert("VMAX"@.len() != "V-UNION"@.len());
        assert("VSTAR"@.len() != "V-UNION"@.len());
        assert("Mega"@.len() != "V-UNION"@.len());
        assert("Level-Up"@.len() != "V-UNION"@.len());
        assert("BREAK"@.len() != "V-UNION"@.len());
        assert("Basic"@.len() != "Baby"@.len());
        assert("Stage 1"@.len() != "Baby"@.len());
        assert("Stage 2"@.len() != "Baby"@.len());
        assert("VMAX"@[0] != "Baby"@[0]);
        assert("VSTAR"@.len() != "Baby"@.len());
        assert("Mega"@[0] != "Baby"@[0]);
        assert("Level-Up"@.len() != "Baby"@.len());
        assert("BREAK"@.len() != "Baby"@.len());
        assert("V-UNION"@.len() != "Baby"@.len());
        assert("Basic"@.len() != "LEGEND"@.len());
        assert("Stage 1"@.len() != "LEGEND"@.len());
        assert("Stage 2"@.len() != "LEGEND"@.len());
        assert("VMAX"@.len() != "LEGEND"@.len());
        assert("VSTAR"@.len() != "LEGEND"@.len());
        assert("Mega"@.len() != "LEGEND"@.len());
        assert("Level-Up"@.len() != "LEGEND"@.len());
        assert("BREAK"@.len() != "LEGEND"@.len());
        assert("V-UNION"@.len() != "LEGEND"@.len());
        assert("Baby"@.len() != "LEGEND"@.len());
        assert("Basic"@.len() != "Restored"@.len());
        assert("Stage 1"@.len() != "Restored"@.len());
        assert("Stage 2"@.len() != "Restored"@.len());
        assert("VMAX"@.len() != "Restored"@.len());
        assert("VSTAR"@.len() != "Restored"@.len());
        assert("Mega"@.len() != "Restored"@.len());
        assert("Level-Up"@[0] != "Restored"@[0]);
        assert("BREAK"@.len() != "Restored"@.len());
        assert("V-UNION"@.len() != "Restored"@.len());
        assert("Baby"@.len() != "Restored"@.len());
        assert("LEGEND"@.len() != "Restored"@.len());
    }
}

/// A tag that a card page files the card under.
#[derive(Eq, PartialEq, Debug, Hash)]
pub enum PtcgTag {
    V,
    GX,
    ExUpper,
    DeltaSpecies,
    RapidStrike,
    ExLower,
    SingleStrike,
    Galarian,
    TagTeam,
    Dynamax,
    Dark,
    TeamPlasma,
    Ball,
    Alolan,
    SP,
    UltraBeast,
    DualType,
    Ex3,
    Gigantamax,
    Hisuian,
    FusionStrike,
    Fossil,
    TeamAquas,
    TeamMagmas,
    G,
    Prime,
    Star,
    Brocks,
    TeamRockets,
    Sabrinas,
    PrismStar,
    Erikas,
    Mistys,
    Holon,
    Blaines,
    E4,
    LtSurges,
    Light,
    GL,
    Shining,
    ScoopUp,
    Berry,
    Kogas,
    Radiant,
    Potion,
    C,
    Giovannis,
    FB,
    AceSpec,
    Rod,
    Crystal,
    Tera,
    Gloves,
    Paldean,
    Lucky,
    Primal,
    Shard,
    Plate,
    Board,
    Eternamax,
    Sphere,
    Plus,
    Broken,
    Lances,
    Imakunis,
    Cool,
}

impl PtcgTag {
    /// The variant that `text` names, if it names one.
    pub open spec fn from_text(text: Seq<char>) -> Option<PtcgTag> {
        if text == "V"@ {
            Some(PtcgTag::V)
        } else if text == "GX"@ {
            Some(PtcgTag::GX)
        } else if text == "ex-%e2%86%91"@ {
            Some(PtcgTag::ExUpper)
        } else if text == "EX"@ {
            Some(PtcgTag::ExUpper)
        } else if text == "Delta Species"@ {
            Some(PtcgTag::DeltaSpecies)
        } else if text == "Rapid Strike"@ {
            Some(PtcgTag::RapidStrike)
        } else if text == "ex-%e2%86%93"@ {
            Some(PtcgTag::ExLower)
        } else if text == "ex"@ {
            Some(PtcgTag::ExLower)
        } else if text == "Single Strike"@ {
            Some(PtcgTag::SingleStrike)
        } else if text == "Galarian"@ {
            Some(PtcgTag::Galarian)
        } else if text == "TAG TEAM"@ {
            Some(PtcgTag::TagTeam)
        } else if text == "Dynamax"@ {
            Some(PtcgTag::Dynamax)
        } else if text == "Dark"@ {
            Some(PtcgTag::Dark)
        } else if text == "Team Plasma"@ {
            Some(PtcgTag::TeamPlasma)
        } else if text == "Ball"@ {
            Some(PtcgTag::Ball)
        } else if text == "Alolan"@ {
            Some(PtcgTag::Alolan)
        } else if text == "SP"@ {
            Some(PtcgTag::SP)
        } else if text == "Ultra Beast"@ {
            Some(PtcgTag::UltraBeast)
        } else if text == "Dual Type"@ {
            Some(PtcgTag::DualType)
        } else if text == "ex-3"@ {
            Some(PtcgTag::Ex3)
        } else if text == "ex"@ {
            Some(PtcgTag::Ex3)
        } else if text == "Gigantamax"@ {
            Some(PtcgTag::Gigantamax)
        } else if text == "Hisuian"@ {
            Some(PtcgTag::Hisuian)
        } else if text == "Fusion Strike"@ {
            Some(PtcgTag::FusionStrike)
        } else if text == "Fossil"@ {
            Some(PtcgTag::Fossil)
        } else if text == "Team Aqua's"@ {
            Some(PtcgTag::TeamAquas)
        } else if text == "Team Magma's"@ {
            Some(PtcgTag::TeamMagmas)
        } else if text == "G"@ {
            Some(PtcgTag::G)
        } else if text == "Prime"@ {
            Some(PtcgTag::Prime)
        } else if text == "Star"@ {
            Some(PtcgTag::Star)
        } else if text == "Brock's"@ {
            Some(PtcgTag::Brocks)
        } else if text == "Team Rocket's"@ {
            Some(PtcgTag::TeamRockets)
        } else if text == "Sabrina's"@ {
            Some(PtcgTag::Sabrinas)
        } else if text == "Prism Star"@ {
            Some(PtcgTag::PrismStar)
        } else if text == "Erika's"@ {
            Some(PtcgTag::Erikas)
        } else if text == "Misty's"@ {
            Some(PtcgTag::Mistys)
        } else if text == "Holon"@ {
            Some(PtcgTag::Holon)
        } else if text == "Blaine's"@ {
            Some(PtcgTag::Blaines)
        } else if text == "E4"@ {
            Some(PtcgTag::E4)
        } else if text == "Lt. Surge's"@ {
            Some(PtcgTag::LtSurges)
        } else if text == "Light"@ {
            Some(PtcgTag::Light)
        } else if text == "GL"@ {
            Some(PtcgTag::GL)
        } else if text == "Shining"@ {
            Some(PtcgTag::Shining)
        } else if text == "Scoop Up"@ {
            Some(PtcgTag::ScoopUp)
        } else if text == "Berry"@ {
            Some(PtcgTag::Berry)
        } else if text == "Koga's"@ {
            Some(PtcgTag::Kogas)
        } else if text == "Radiant"@ {
            Some(PtcgTag::Radiant)
        } else if text == "Potion"@ {
            Some(PtcgTag::Potion)
        } else if text == "C"@ {
            Some(PtcgTag::C)
        } else if text == "Giovanni's"@ {
            Some(PtcgTag::Giovannis)
        } else if text == "FB"@ {
            Some(PtcgTag::FB)
        } else if text == "ACE SPEC"@ {
            Some(PtcgTag::AceSpec)
        } else if text == "Rod"@ {
            Some(PtcgTag::Rod)
        } else if text == "Crystal"@ {
            Some(PtcgTag::Crystal)
        } else if text == "Tera"@ {
            Some(PtcgTag::Tera)
        } else if text == "Gloves"@ {
            Some(PtcgTag::Gloves)
        } else if text == "Paldean"@ {
            Some(PtcgTag::Paldean)
        } else if text == "Lucky"@ {
            Some(PtcgTag::Lucky)
        } else if text == "Primal"@ {
            Some(PtcgTag::Primal)
        } else if text == "Shard"@ {
            Some(PtcgTag::Shard)
        } else if text == "Plate"@ {
            Some(PtcgTag::Plate)
        } else if text == "Board"@ {
            Some(PtcgTag::Board)
        } else if text == "Eternamax"@ {
            Some(PtcgTag::Eternamax)
        } else if text == "Sphere"@ {
            Some(PtcgTag::Sphere)
        } else if text == "Plus"@ {
            Some(PtcgTag::Plus)
        } else if text == "Broken"@ {
            Some(PtcgTag::Broken)
        } else if text == "Lance's"@ {
            Some(PtcgTag::Lances)
        } else if text == "Imakuni?'s"@ {
            Some(PtcgTag::Imakunis)
        } else if text == "Cool"@ {
            Some(PtcgTag::Cool)
        } else {
            None
        }
    }

    /// Reads a variant from its name.
    pub fn from_str(s: &str) -> (res: Result<PtcgTag, ParseError>)
        ensures
            res == match Self::from_text(s@) {
                Some(variant) => Ok::<PtcgTag, ParseError>(variant),
                None => Err(ParseError::VariantNotFound),
            },
    {
        if same_text(s, "V") {
            Ok(PtcgTag::V)
        } else if same_text(s, "GX") {
            Ok(PtcgTag::GX)
        } else if same_text(s, "ex-%e2%86%91") {
            Ok(PtcgTag::ExUpper)
        } else if same_text(s, "EX") {
            Ok(PtcgTag::ExUpper)
        } else if same_text(s, "Delta Species") {
            Ok(PtcgTag::DeltaSpecies)
        } else if same_text(s, "Rapid Strike") {
            Ok(PtcgTag::RapidStrike)
        } else if same_text(s, "ex-%e2%86%93") {
            Ok(PtcgTag::ExLower)
        } else if same_text(s, "ex") {
            Ok(PtcgTag::ExLower)
        } else if same_text(s, "Single Strike") {
            Ok(PtcgTag::SingleStrike)
        } else if same_text(s, "Galarian") {
            Ok(PtcgTag::Galarian)
        } else if same_text(s, "TAG TEAM") {
            Ok(PtcgTag::TagTeam)
        } else if same_text(s, "Dynamax") {
            Ok(PtcgTag::Dynamax)
        } else if same_text(s, "Dark") {
            Ok(PtcgTag::Dark)
        } else if same_text(s, "Team Plasma") {
            Ok(PtcgTag::TeamPlasma)
        } else if same_text(s, "Ball") {
            Ok(PtcgTag::Ball)
        } else if same_text(s, "Alolan") {
            Ok(PtcgTag::Alolan)
        } else if same_text(s, "SP") {
            Ok(PtcgTag::SP)
        } else if same_text(s, "Ultra Beast") {
            Ok(PtcgTag::UltraBeast)
        } else if same_text(s, "Dual Type") {
            Ok(PtcgTag::DualType)
        } else if same_text(s, "ex-3") {
            Ok(PtcgTag::Ex3)
        } else if same_text(s, "ex") {
            Ok(PtcgTag::Ex3)
        } else if same_text(s, "Gigantamax") {
            Ok(PtcgTag::Gigantamax)
        } else if same_text(s, "Hisuian") {
            Ok(PtcgTag::Hisuian)
        } else if same_text(s, "Fusion Strike") {
            Ok(PtcgTag::FusionStrike)
        } else if same_text(s, "Fossil") {
            Ok(PtcgTag::Fossil)
        } else if same_text(s, "Team Aqua's") {
            Ok(PtcgTag::TeamAquas)
        } else if same_text(s, "Team Magma's") {
            Ok(PtcgTag::TeamMagmas)
        } else if same_text(s, "G") {
            Ok(PtcgTag::G)
        } else if same_text(s, "Prime") {
            Ok(PtcgTag::Prime)
        } else if same_text(s, "Star") {
            Ok(PtcgTag::Star)
        } else if same_text(s, "Brock's") {
            Ok(PtcgTag::Brocks)
        } else if same_text(s, "Team Rocket's") {
            Ok(PtcgTag::TeamRockets)
        } else if same_text(s, "Sabrina's") {
            Ok(PtcgTag::Sabrinas)
        } else if same_text(s, "Prism Star") {
            Ok(PtcgTag::PrismStar)
        } else if same_text(s, "Erika's") {
            Ok(PtcgTag::Erikas)
        } else if same_text(s, "Misty's") {
            Ok(PtcgTag::Mistys)
        } else if same_text(s, "Holon") {
            Ok(PtcgTag::Holon)
        } else if same_text(s, "Blaine's") {
            Ok(PtcgTag::Blaines)
        } else if same_text(s, "E4") {
            Ok(PtcgTag::E4)
        } else if same_text(s, "Lt. Surge's") {
            Ok(PtcgTag::LtSurges)
        } else if same_text(s, "Light") {
            Ok(PtcgTag::Light)
        } else if same_text(s, "GL") {
            Ok(PtcgTag::GL)
        } else if same_text(s, "Shining") {
            Ok(PtcgTag::Shining)
        } else if same_text(s, "Scoop Up") {
            Ok(PtcgTag::ScoopUp)
        } else if same_text(s, "Berry") {
            Ok(PtcgTag::Berry)
        } else if same_text(s, "Koga's") {
            Ok(PtcgTag::Kogas)
        } else if same_text(s, "Radiant") {
            Ok(PtcgTag::Radiant)
        } else if same_text(s, "Potion") {
            Ok(PtcgTag::Potion)
        } else if same_text(s, "C") {
            Ok(PtcgTag::C)
        } else if same_text(s, "Giovanni's") {
            Ok(PtcgTag::Giovannis)
        } else if same_text(s, "FB") {
            Ok(PtcgTag::FB)
        } else if same_text(s, "ACE SPEC") {
            Ok(PtcgTag::AceSpec)
        } else if same_text(s, "Rod") {
            Ok(PtcgTag::Rod)
        } else if same_text(s, "Crystal") {
            Ok(PtcgTag::Crystal)
        } else if same_text(s, "Tera") {
            Ok(PtcgTag::Tera)
        } else if same_text(s, "Gloves") {
            Ok(PtcgTag::Gloves)
        } else if same_text(s, "Paldean") {
            Ok(PtcgTag::Paldean)
        } else if same_text(s, "Lucky") {
            Ok(PtcgTag::Lucky)
        } else if same_text(s, "Primal") {
            Ok(PtcgTag::Primal)
        } else if same_text(s, "Shard") {
            Ok(PtcgTag::Shard)
        } else if same_text(s, "Plate") {
            Ok(PtcgTag::Plate)
        } else if same_text(s, "Board") {
            Ok(PtcgTag::Board)
        } else if same_text(s, "Eternamax") {
            Ok(PtcgTag::Eternamax)
        } else if same_text(s, "Sphere") {
            Ok(PtcgTag::Sphere)
        } else if same_text(s, "Plus") {
            Ok(PtcgTag::Plus)
        } else if same_text(s, "Broken") {
            Ok(PtcgTag::Broken)
        } else if same_text(s, "Lance's") {
            Ok(PtcgTag::Lances)
        } else if same_text(s, "Imakuni?'s") {
            Ok(PtcgTag::Imakunis)
        } else if same_text(s, "Cool") {
            Ok(PtcgTag::Cool)
        } else {
            Err(ParseError::VariantNotFound)
        }
    }

    /// The name under which the variant is written out.
    pub open spec fn name(&self) -> Seq<char> {
        match self {
            PtcgTag::V => "V"@,
            PtcgTag::GX => "GX"@,
            PtcgTag::ExUpper => "EX"@,
            PtcgTag::DeltaSpecies => "Delta Species"@,
            PtcgTag::RapidStrike => "Rapid Strike"@,
            PtcgTag::ExLower => "ex"@,
            PtcgTag::SingleStrike => "Single Strike"@,
            PtcgTag::Galarian => "Galarian"@,
            PtcgTag::TagTeam => "TAG TEAM"@,
            PtcgTag::Dynamax => "Dynamax"@,
            PtcgTag::Dark => "Dark"@,
            PtcgTag::TeamPlasma => "Team Plasma"@,
            PtcgTag::Ball => "Ball"@,
            PtcgTag::Alolan => "Alolan"@,
            PtcgTag::SP => "SP"@,
            PtcgTag::UltraBeast => "Ultra Beast"@,
            PtcgTag::DualType => "Dual Type"@,
            PtcgTag::Ex3 => "ex"@,
            PtcgTag::Gigantamax => "Gigantamax"@,
            PtcgTag::Hisuian => "Hisuian"@,
            PtcgTag::FusionStrike => "Fusion Strike"@,
            PtcgTag::Fossil => "Fossil"@,
            PtcgTag::TeamAquas => "Team Aqua's"@,
            PtcgTag::TeamMagmas => "Team Magma's"@,
            PtcgTag::G => "G"@,
            PtcgTag::Prime => "Prime"@,
            PtcgTag::Star => "Star"@,
            PtcgTag::Brocks => "Brock's"@,
            PtcgTag::TeamRockets => "Team Rocket's"@,
            PtcgTag::Sabrinas => "Sabrina's"@,
            PtcgTag::PrismStar => "Prism Star"@,
            PtcgTag::Erikas => "Erika's"@,
            PtcgTag::Mistys => "Misty's"@,
            PtcgTag::Holon => "Holon"@,
            PtcgTag::Blaines => "Blaine's"@,
            PtcgTag::E4 => "E4"@,
            PtcgTag::LtSurges => "Lt. Surge's"@,
            PtcgTag::Light => "Light"@,
            PtcgTag::GL => "GL"@,
            PtcgTag::Shining => "Shining"@,
            PtcgTag::ScoopUp => "Scoop Up"@,
            PtcgTag::Berry => "Berry"@,
            PtcgTag::Kogas => "Koga's"@,
            PtcgTag::Radiant => "Radiant"@,
            PtcgTag::Potion => "Potion"@,
            PtcgTag::C => "C"@,
            PtcgTag::Giovannis => "Giovanni's"@,
            PtcgTag::FB => "FB"@,
            PtcgTag::AceSpec => "ACE SPEC"@,
            PtcgTag::Rod => "Rod"@,
            PtcgTag::Crystal => "Crystal"@,
            PtcgTag::Tera => "Tera"@,
            PtcgTag::Gloves => "Gloves"@,
            PtcgTag::Paldean => "Paldean"@,
            PtcgTag::Lucky => "Lucky"@,
            PtcgTag::Primal => "Primal"@,
            PtcgTag::Shard => "Shard"@,
            PtcgTag::Plate => "Plate"@,
            PtcgTag::Board => "Board"@,
            PtcgTag::Eternamax => "Eternamax"@,
            PtcgTag::Sphere => "Sphere"@,
            PtcgTag::Plus => "Plus"@,
            PtcgTag::Broken => "Broken"@,
            PtcgTag::Lances => "Lance's"@,
            PtcgTag::Imakunis => "Imakuni?'s"@,
            PtcgTag::Cool => "Cool"@,
        }
    }

    /// Writes the variant out by its name.
    pub fn to_string(&self) -> (res: String)
        ensures
            res@ == self.name(),
    {
        match self {
            PtcgTag::V => "V".to_owned(),
            PtcgTag::GX => "GX".to_owned(),
            PtcgTag::ExUpper => "EX".to_owned(),
            PtcgTag::DeltaSpecies => "Delta Species".to_owned(),
            PtcgTag::RapidStrike => "Rapid Strike".to_owned(),
            PtcgTag::ExLower => "ex".to_owned(),
            PtcgTag::SingleStrike => "Single Strike".to_owned(),
            PtcgTag::Galarian => "Galarian".to_owned(),
            PtcgTag::TagTeam => "TAG TEAM".to_owned(),
            PtcgTag::Dynamax => "Dynamax".to_owned(),
            PtcgTag::Dark => "Dark".to_owned(),
            PtcgTag::TeamPlasma => "Team Plasma".to_owned(),
            PtcgTag::Ball => "Ball".to_owned(),
            PtcgTag::Alolan => "Alolan".to_owned(),
            PtcgTag::SP => "SP".to_owned(),
            PtcgTag::UltraBeast => "Ultra Beast".to_owned(),
            PtcgTag::DualType => "Dual Type".to_owned(),
            PtcgTag::Ex3 => "ex".to_owned(),
            PtcgTag::Gigantamax => "Gigantamax".to_owned(),
            PtcgTag::Hisuian => "Hisuian".to_owned(),
            PtcgTag::FusionStrike => "Fusion Strike".to_owned(),
            PtcgTag::Fossil => "Fossil".to_owned(),
            PtcgTag::TeamAquas => "Team Aqua's".to_owned(),
            PtcgTag::TeamMagmas => "Team Magma's".to_owned(),
            PtcgTag::G => "G".to_owned(),
            PtcgTag::Prime => "Prime".to_owned(),
            PtcgTag::Star => "Star".to_owned(),
            PtcgTag::Brocks => "Brock's".to_owned(),
            PtcgTag::TeamRockets => "Team Rocket's".to_owned(),
            PtcgTag::Sabrinas => "Sabrina's".to_owned(),
            PtcgTag::PrismStar => "Prism Star".to_owned(),
            PtcgTag::Erikas => "Erika's".to_owned(),
            PtcgTag::Mistys => "Misty's".to_owned(),
            PtcgTag::Holon => "Holon".to_owned(),
            PtcgTag::Blaines => "Blaine's".to_owned(),
            PtcgTag::E4 => "E4".to_owned(),
            PtcgTag::LtSurges => "Lt. Surge's".to_owned(),
            PtcgTag::Light => "Light".to_owned(),
            PtcgTag::GL => "GL".to_owned(),
            PtcgTag::Shining => "Shining".to_owned(),
            PtcgTag::ScoopUp => "Scoop Up".to_owned(),
            PtcgTag::Berry => "Berry".to_owned(),
            PtcgTag::Kogas => "Koga's".to_owned(),
            PtcgTag::Radiant => "Radiant".to_owned(),
            PtcgTag::Potion => "Potion".to_owned(),
            PtcgTag::C => "C".to_owned(),
            PtcgTag::Giovannis => "Giovanni's".to_owned(),
            PtcgTag::FB => "FB".to_owned(),
            PtcgTag::AceSpec => "ACE SPEC".to_owned(),
            PtcgTag::Rod => "Rod".to_owned(),
            PtcgTag::Crystal => "Crystal".to_owned(),
            PtcgTag::Tera => "Tera".to_owned(),
            PtcgTag::Gloves => "Gloves".to_owned(),
            PtcgTag::Paldean => "Paldean".to_owned(),
            PtcgTag::Lucky => "Lucky".to_owned(),
            PtcgTag::Primal => "Primal".to_owned(),
            PtcgTag::Shard => "Shard".to_owned(),
            PtcgTag::Plate => "Plate".to_owned(),
            PtcgTag::Board => "Board".to_owned(),
            PtcgTag::Eternamax => "Eternamax".to_owned(),
            PtcgTag::Sphere => "Sphere".to_owned(),
            PtcgTag::Plus => "Plus".to_owned(),
            PtcgTag::Broken => "Broken".to_owned(),
            PtcgTag::Lances => "Lance's".to_owned(),
            PtcgTag::Imakunis => "Imakuni?'s".to_owned(),
            PtcgTag::Cool => "Cool".to_owned(),
        }
    }
}

/// The regulation mark of a card.
#[derive(Eq, PartialEq, Debug)]
pub enum Mark {
    A,
    B,
    C,
    D,
    E,
    F,
    G,
}

impl Mark {
    /// The variant that `text` names, if it names one.
    pub open spec fn from_text(text: Seq<char>) -> Option<Mark> {
        if text == "A"@ {
            Some(Mark::A)
        } else if text == "B"@ {
            Some(Mark::B)
        } else if text == "C"@ {
            Some(Mark::C)
        } else if text == "D"@ {
            Some(Mark::D)
        } else if text == "E"@ {
            Some(Mark::E)
        } else if text == "F"@ {
            Some(Mark::F)
        } else if text == "G"@ {
            Some(Mark::G)
        } else {
            None
        }
    }

    /// Reads a variant from its name.
    pub fn from_str(s: &str) -> (res: Result<Mark, ParseError>)
        ensures
            res == match Self::from_text(s@) {
                Some(variant) => Ok::<Mark, ParseError>(variant),
                None => Err(ParseError::VariantNotFound),
            },
    {
        if same_text(s, "A") {
            Ok(Mark::A)
        } else if same_text(s, "B") {
            Ok(Mark::B)
        } else if same_text(s, "C") {
            Ok(Mark::C)
        } else if same_text(s, "D") {
            Ok(Mark::D)
        } else if same_text(s, "E") {
            Ok(Mark::E)
        } else if same_text(s, "F") {
            Ok(Mark::F)
        } else if same_text(s, "G") {
            Ok(Mark::G)
        } else {
            Err(ParseError::VariantNotFound)
        }
    }

    /// The name under which the variant is written out.
    pub open spec fn name(&self) -> Seq<char> {
        match self {
            Mark::A => "A"@,
            Mark::B => "B"@,
            Mark::C => "C"@,
            Mark::D => "D"@,
            Mark::E => "E"@,
            Mark::F => "F"@,
            Mark::G => "G"@,
        }
    }

    /// Writes the variant out by its name.
    pub fn to_string(&self) -> (res: String)
        ensures
            res@ == self.name(),
    {
        match self {
            Mark::A => "A".to_owned(),
            Mark::B => "B".to_owned(),
            Mark::C => "C".to_owned(),
            Mark::D => "D".to_owned(),
            Mark::E => "E".to_owned(),
            Mark::F => "F".to_owned(),
            Mark::G => "G".to_owned(),
        }
    }

    /// Reading the name of a variant gives the variant back.
    pub proof fn lemma_name_reads_back(self)
        ensures
            Self::from_text(self.name()) == Some(self),
    {
        reveal_strlit("A");
        reveal_strlit("B");
        reveal_strlit("C");
        reveal_strlit("D");
        reveal_strlit("E");
        reveal_strlit("F");
        reveal_strlit("G");
        assert("A"@[0] != "B"@[0]);
        assert("A"@[0] != "C"@[0]);
        assert("B"@[0] != "C"@[0]);
        assert("A"@[0] != "D"@[0]);
        assert("B"@[0] != "D"@[0]);
        assert("C"@[0] != "D"@[0]);
        assert("A"@[0] != "E"@[0]);
        assert("B"@[0] != "E"@[0]);
        assert("C"@[0] != "E"@[0]);
        assert("D"@[0] != "E"@[0]);
        assert("A"@[0] != "F"@[0]);
        assert("B"@[0] != "F"@[0]);
        assert("C"@[0] != "F"@[0]);
        assert("D"@[0] != "F"@[0]);
        assert("E"@[0] != "F"@[0]);
        assert("A"@[0] != "G"@[0]);
        assert("B"@[0] != "G"@[0]);
        assert("C"@[0] != "G"@[0]);
        assert("D"@[0] != "G"@[0]);
        assert("E"@[0] != "G"@[0]);
        assert("F"@[0] != "G"@[0]);
    }
}

/// The kind of play format that a list of formats belongs to.
#[derive(Eq, PartialEq, Debug)]
pub enum FormatType {
    Standard,
    Expanded,
    Modified,
    Other,
}

impl FormatType {
    /// The variant that `text` names, if it names one.
    pub open spec fn from_text(text: Seq<char>) -> Option<FormatType> {
        if text == "Standard: "@ {
            Some(FormatType::Standard)
        } else if text == "Expanded: "@ {
            Some(FormatType::Expanded)
        } else if text == "Modified: "@ {
            Some(FormatType::Modified)
        } else if text == "Other: "@ {
            Some(FormatType::Other)
        } else {
            None
        }
    }

    /// Reads a variant from its name.
    pub fn from_str(s: &str) -> (res: Result<FormatType, ParseError>)
        ensures
            res == match Self::from_text(s@) {
                Some(variant) => Ok::<FormatType, ParseError>(variant),
                None => Err(ParseError::VariantNotFound),
            },
    {
        if same_text(s, "Standard: ") {
            Ok(FormatType::Standard)
        } else if same_text(s, "Expanded: ") {
            Ok(FormatType::Expanded)
        } else if same_text(s, "Modified: ") {
            Ok(FormatType::Modified)
        } else if same_text(s, "Other: ") {
            Ok(FormatType::Other)
        } else {
            Err(ParseError::VariantNotFound)
        }
    }

    /// The name under which the variant is written out.
    pub open spec fn name(&self) -> Seq<char> {
        match self {
            FormatType::Standard => "Standard: "@,
            FormatType::Expanded => "Expanded: "@,
            FormatType::Modified => "Modified: "@,
            FormatType::Other => "Other: "@,
        }
    }

    /// Writes the variant out by its name.
    pub fn to_string(&self) -> (res: String)
        ensures
            res@ == self.name(),
    {
        match self {
            FormatType::Standard => "Standard: ".to_owned(),
            FormatType::Expanded => "Expanded: ".to_owned(),
            FormatType::Modified => "Modified: ".to_owned(),
            FormatType::Other => "Other: ".to_owned(),
        }
    }

    /// Reading the name of a variant gives the variant back.
    pub proof fn lemma_name_reads_back(self)
        ensures
            Self::from_text(self.name()) == Some(self),
    {
        reveal_strlit("Standard: ");
        reveal_strlit("Expanded: ");
        reveal_strlit("Modified: ");
        reveal_strlit("Other: ");
        assert("Standard: "@[0] != "Expanded: "@[0]);
        assert("Standard: "@[0] != "Modified: "@[0]);
        assert("Expanded: "@[0] != "Modified: "@[0]);
        assert("Standard: "@.len() != "Other: "@.len());
        assert("Expanded: "@.len() != "Other: "@.len());
        assert("Modified: "@.len() != "Other: "@.len());
    }
}

/// The color of an energy in the cost of an attack.
#[derive(Eq, PartialEq, Debug)]
pub enum EnergyColor {
    Grass,
    Fire,
    Water,
    Lightning,
    Psychic,
    Fighting,
    Darkness,
    Metal,
    Fairy,
    Colorless,
}

impl EnergyColor {
    /// The variant that `text` names, if it names one.
    pub open spec fn from_text(text: Seq<char>) -> Option<EnergyColor> {
        if text == "Grass"@ {
            Some(EnergyColor::Grass)
        } else if text == "Fire"@ {
            Some(EnergyColor::Fire)
        } else if text == "Water"@ {
            Some(EnergyColor::Water)
        } else if text == "Lightning"@ {
            Some(EnergyColor::Lightning)
        } else if text == "Psychic"@ {
            Some(EnergyColor::Psychic)
        } else if text == "Fighting"@ {
            Some(EnergyColor::Fighting)
        } else if text == "Darkness"@ {
            Some(EnergyColor::Darkness)
        } else if text == "Metal"@ {
            Some(EnergyColor::Metal)
        } else if text == "Fairy"@ {
            Some(EnergyColor::Fairy)
        } else if text == "Colorless"@ {
            Some(EnergyColor::Colorless)
        } else {
            None
        }
    }

    /// Reads a variant from its name.
    pub fn from_str(s: &str) -> (res: Result<EnergyColor, ParseError>)
        ensures
            res == match Self::from_text(s@) {
                Some(variant) => Ok::<EnergyColor, ParseError>(variant),
                None => Err(ParseError::VariantNotFound),
            },
    {
        if same_text(s, "Grass") {
            Ok(EnergyColor::Grass)
        } else if same_text(s, "Fire") {
            Ok(EnergyColor::Fire)
        } else if same_text(s, "Water") {
            Ok(EnergyColor::Water)
        } else if same_text(s, "Lightning") {
            Ok(EnergyColor::Lightning)
        } else if same_text(s, "Psychic") {
            Ok(EnergyColor::Psychic)
        } else if same_text(s, "Fighting") {
            Ok(EnergyColor::Fighting)
        } else if same_text(s, "Darkness") {
            Ok(EnergyColor::Darkness)
        } else if same_text(s, "Metal") {
            Ok(EnergyColor::Metal)
        } else if same_text(s, "Fairy") {
            Ok(EnergyColor::Fairy)
        } else if same_text(s, "Colorless") {
            Ok(EnergyColor::Colorless)
        } else {
            Err(ParseError::VariantNotFound)
        }
    }

    /// The name under which the variant is written out.
    pub open spec fn name(&self) -> Seq<char> {
        match self {
            EnergyColor::Grass => "Grass"@,
            EnergyColor::Fire => "Fire"@,
            EnergyColor::Water => "Water"@,
            EnergyColor::Lightning => "Lightning"@,
            EnergyColor::Psychic => "Psychic"@,
            EnergyColor::Fighting => "Fighting"@,
            EnergyColor::Darkness => "Darkness"@,
            EnergyColor::Metal => "Metal"@,
            EnergyColor::Fairy => "Fairy"@,
            EnergyColor::Colorless => "Colorless"@,
        }
    }

    /// Writes the variant out by its name.
    pub fn to_string(&self) -> (res: String)
        ensures
            res@ == self.name(),
    {
        match self {
            EnergyColor::Grass => "Grass".to_owned(),
            EnergyColor::Fire => "Fire".to_owned(),
            EnergyColor::Water => "Water".to_owned(),
            EnergyColor::Lightning => "Lightning".to_owned(),
            EnergyColor::Psychic => "Psychic".to_owned(),
            EnergyColor::Fighting => "Fighting".to_owned(),
            EnergyColor::Darkness => "Darkness".to_owned(),
            EnergyColor::Metal => "Metal".to_owned(),
            EnergyColor::Fairy => "Fairy".to_owned(),
            EnergyColor::Colorless => "Colorless".to_owned(),
        }
    }

    /// Reading the name of a variant gives the variant back.
    pub proof fn lemma_name_reads_back(self)
        ensures
            Self::from_text(self.name()) == Some(self),
    {
        reveal_strlit("Grass");
        reveal_strlit("Fire");
        reveal_strlit("Water");
        reveal_strlit("Lightning");
        reveal_strlit("Psychic");
        reveal_strlit("Fighting");
        reveal_strlit("Darkness");
        reveal_strlit("Metal");
        reveal_strlit("Fairy");
        reveal_strlit("Colorless");
        assert("Grass"@.len() != "Fire"@.len());
        assert("Grass"@[0] != "Water"@[0]);
        assert("Fire"@.len() != "Water"@.len());
        assert("Grass"@.len() != "Lightning"@.len());
        assert("Fire"@.len() != "Lightning"@.len());
        assert("Water"@.len() != "Lightning"@.len());
        assert("Grass"@.len() != "Psychic"@.len());
        assert("Fire"@.len() != "Psychic"@.len());
        assert("Water"@.len() != "Psychic"@.len());
        assert("Lightning"@.len() != "Psychic"@.len());
        assert("Grass"@.len() != "Fighting"@.len());
        assert("Fire"@.len() != "Fighting"@.len());
        assert("Water"@.len() != "Fighting"@.len());
        assert("Lightning"@.len() != "Fighting"@.len());
        assert("Psychic"@.len() != "Fighting"@.len());
        assert("Grass"@.len() != "Darkness"@.len());
        assert("Fire"@.len() != "Darkness"@.len());
        assert("Water"@.len() != "Darkness"@.len());
        assert("Lightning"@.len() != "Darkness"@.len());
        assert("Psychic"@.len() != "Darkness"@.len());
        assert("Fighting"@[0] != "Darkness"@[0]);
        assert("Grass"@[0] != "Metal"@[0]);
        assert("Fire"@.len() != "Metal"@.len());
        assert("Water"@[0] != "Metal"@[0]);
        assert("Lightning"@.len() != "Metal"@.len());
        assert("Psychic"@.len() != "Metal"@.len());
        assert("Fighting"@.len() != "Metal"@.len());
        assert("Darkness"@.len() != "Metal"@.len());
        assert("Grass"@[0] != "Fairy"@[0]);
        assert("Fire"@.len() != "Fairy"@.len());
        assert("Water"@[0] != "Fairy"@[0]);
        assert("Lightning"@.len() != "Fairy"@.len());
        assert("Psychic"@.len() != "Fairy"@.len());
        assert("Fighting"@.len() != "Fairy"@.len());
        assert("Darkness"@.len() != "Fairy"@.len());
        assert("Metal"@[0] != "Fairy"@[0]);
        assert("Grass"@.len() != "Colorless"@.len());
        assert("Fire"@.len() != "Colorless"@.len());
        assert("Water"@.len() != "Colorless"@.len());
        assert("Lightning"@[0] != "Colorless"@[0]);
        assert("Psychic"@.len() != "Colorless"@.len());
        assert("Fighting"@.len() != "Colorless"@.len());
        assert("Darkness"@.len() != "Colorless"@.len());
        assert("Metal"@.len() != "Colorless"@.len());
        assert("Fairy"@.len() != "Colorless"@.len());
    }
}

/// Whether a card may be played in a format.
#[derive()]
pub enum Legality {
    Legal,
    Banned,
    OutOfFormat(String),
}

impl Legality {
    /// The variant that `text` names, if it names one.
    pub open spec fn from_text(text: Seq<char>) -> Option<Legality> {
        if text == "Current"@ {
            Some(Legality::Legal)
        } else if text == "Banned"@ {
            Some(Legality::Banned)
        } else {
            None
        }
    }

    /// Reads a variant from its name. A text that names no variant is kept
    /// in `OutOfFormat`.
    pub fn from_str(s: &str) -> (res: Result<Legality, ParseError>)
        ensures
            match Self::from_text(s@) {
                Some(variant) => res == Ok::<Legality, ParseError>(variant),
                None => res matches Ok(Legality::OutOfFormat(kept)) && kept@ == s@,
            },
    {
        if same_text(s, "Current") {
            Ok(Legality::Legal)
        } else if same_text(s, "Banned") {
            Ok(Legality::Banned)
        } else {
            Ok(Legality::OutOfFormat(s.to_owned()))
        }
    }
}

/// One paragraph of the text of a card.
#[derive(Eq, PartialEq, Debug)]
pub enum TextInfo {
    Ability { name: String, text: String },
    PokeBody { name: String, text: String },
    PokePower { name: String, text: String },
    PokemonPower { name: String, text: String },
    AncientTrait { name: String, text: String },
    HeldItem { name: String, text: String },
    Attack { cost: Vec<EnergyColor>, name: String, damage: Option<String>, text: String },
    Rule { rule: String },
}

/// The name of an ability.
pub struct AbilityName(pub String);

/// The kind of an ability, by its name on the card page.
pub struct AbilityType(pub String);

/// The text of an ability.
pub struct AbilityText(pub String);

/// Why a paragraph could not be read as an ability.
#[derive(Eq, PartialEq, Debug, Clone, Copy)]
pub enum AbilityError {
    /// The text names no kind of ability.
    UnknownAbilityType,
    /// The paragraph is an attack or a rule.
    NotAnAbility,
}

impl TextInfo {
    /// The name of the kind of ability that the paragraph holds, if it holds
    /// one.
    pub open spec fn ability_type_name(&self) -> Option<Seq<char>> {
        match self {
            TextInfo::Ability { .. } => Some("Ability"@),
            TextInfo::PokeBody { .. } => Some("Poké-BODY"@),
            TextInfo::PokePower { .. } => Some("Poké-POWER"@),
            TextInfo::PokemonPower { .. } => Some("Pokémon Power"@),
            TextInfo::AncientTrait { .. } => Some("Ancient Trait"@),
            TextInfo::HeldItem { .. } => Some("Held Item"@),
            TextInfo::Attack { .. } | TextInfo::Rule { .. } => None,
        }
    }

    /// The name and the text of the ability that the paragraph holds, if it
    /// holds one.
    pub open spec fn ability_parts(&self) -> Option<(Seq<char>, Seq<char>)> {
        match self {
            TextInfo::Ability { name, text }
            | TextInfo::PokeBody { name, text }
            | TextInfo::PokePower { name, text }
            | TextInfo::PokemonPower { name, text }
            | TextInfo::AncientTrait { name, text }
            | TextInfo::HeldItem { name, text } => Some((name@, text@)),
            TextInfo::Attack { .. } | TextInfo::Rule { .. } => None,
        }
    }

    /// Makes the ability of the kind that `ability_type` names.
    pub fn make_ability(ability_type: &str, ability_name: String, ability_text: String) -> (res:
        Result<Self, AbilityError>)
        ensures
            match res {
                Ok(made) => made.ability_type_name() == Some(ability_type@)
                    && made.ability_parts() == Some((ability_name@, ability_text@)),
                Err(error) => error == AbilityError::UnknownAbilityType && forall|made: TextInfo|
                    made.ability_type_name() != Some(ability_type@),
            },
    {
        if same_text(ability_type, "Ability") {
            Ok(TextInfo::Ability { name: ability_name, text: ability_text })
        } else if same_text(ability_type, "Poké-BODY") {
            Ok(TextInfo::PokeBody { name: ability_name, text: ability_text })
        } else if same_text(ability_type, "Poké-POWER") {
            Ok(TextInfo::PokePower { name: ability_name, text: ability_text })
        } else if same_text(ability_type, "Pokémon Power") {
            Ok(TextInfo::PokemonPower { name: ability_name, text: ability_text })
        } else if same_text(ability_type, "Ancient Trait") {
            Ok(TextInfo::AncientTrait { name: ability_name, text: ability_text })
        } else if same_text(ability_type, "Held Item") {
            Ok(TextInfo::HeldItem { name: ability_name, text: ability_text })
        } else {
            Err(AbilityError::UnknownAbilityType)
        }
    }

    /// The kind, the name and the text of the ability that the paragraph
    /// holds.
    pub fn get_ability(&self) -> (res: Result<(AbilityType, AbilityName, AbilityText), AbilityError>)
        ensures
            match res {
                Ok((kind, name, text)) => self.ability_type_name() == Some(kind.0@)
                    && self.ability_parts() == Some((name.0@, text.0@)),
                Err(error) => error == AbilityError::NotAnAbility && self.ability_parts() is None,
            },
    {
        match self {
            TextInfo::Attack { .. } | TextInfo::Rule { .. } => Err(AbilityError::NotAnAbility),
            TextInfo::PokeBody { name, text }
            | TextInfo::HeldItem { name, text }
            | TextInfo::AncientTrait { name, text }
            | TextInfo::PokemonPower { name, text }
            | TextInfo::PokePower { name, text }
            | TextInfo::Ability { name, text } => {
                match self.get_ability_type() {
                    Ok(kind) => Ok((AbilityType(kind), AbilityName(name.clone()), AbilityText(text.clone()))),
                    Err(error) => Err(error),
                }
            },
        }
    }

    /// The name of the kind of ability that the paragraph holds.
    pub fn get_ability_type(&self) -> (res: Result<String, AbilityError>)
        ensures
            match res {
                Ok(kind) => self.ability_type_name() == Some(kind@),
                Err(error) => error == AbilityError::NotAnAbility && self.ability_type_name()
                    is None,
            },
    {
        match self {
            TextInfo::Ability { .. } => Ok("Ability".to_owned()),
            TextInfo::PokeBody { .. } => Ok("Poké-BODY".to_owned()),
            TextInfo::PokePower { .. } => Ok("Poké-POWER".to_owned()),
            TextInfo::PokemonPower { .. } => Ok("Pokémon Power".to_owned()),
            TextInfo::AncientTrait { .. } => Ok("Ancient Trait".to_owned()),
            TextInfo::HeldItem { .. } => Ok("Held Item".to_owned()),
            TextInfo::Attack { .. } | TextInfo::Rule { .. } => Err(AbilityError::NotAnAbility),
        }
    }
}

/// Why a text of a card page could not be read.
#[derive(Debug, PartialEq, Eq, Clone, Copy)]
pub enum TextError {
    /// A regular expression of the library cannot be used.
    BadPattern,
    /// The text does not have the form that is looked for.
    NoMatch,
    /// The text has the form that is looked for, but holds no name.
    NoName,
}

/// The number of a card in its set.
#[derive(Eq, PartialEq, Debug)]
pub enum SetNumber {
    Num(i32),
    Str(String),
}

impl SetNumber {
    /// Reads the number of a card: a 32 bit integer where the text is one,
    /// and the text itself otherwise.
    pub fn from_str(s: &str) -> (res: Result<SetNumber, TextError>)
        ensures
            match parsed_i32(s@) {
                Some(number) => res == Ok::<SetNumber, TextError>(SetNumber::Num(number)),
                None => res matches Ok(SetNumber::Str(kept)) && kept@ == s@,
            },
    {
        match parse_i32(s) {
            Some(number) => Ok(SetNumber::Num(number)),
            None => Ok(SetNumber::Str(s.to_owned())),
        }
    }
}

/// The form of the line that gives the name of an attack and its damage.
pub const NAME_AND_DAMAGE: &'static str = r#"^(?<name>.*?)(:\s*(?<damage>.*?)\s*)?$"#;

/// What `name_and_damage` makes of `text`.
pub open spec fn name_and_damage_of(text: Seq<char>) -> Result<
    (Seq<char>, Option<Seq<char>>),
    TextError,
> {
    match captured(NAME_AND_DAMAGE@, text, "name"@) {
        Captured::BadPattern => Err(TextError::BadPattern),
        Captured::NoMatch => Err(TextError::NoMatch),
        Captured::Group(None) => Err(TextError::NoName),
        Captured::Group(Some(name)) => match captured(NAME_AND_DAMAGE@, text, "damage"@) {
            Captured::Group(damage) => Ok((trimmed(name), damage)),
            Captured::BadPattern => Err(TextError::BadPattern),
            Captured::NoMatch => Err(TextError::NoMatch),
        },
    }
}

/// Reads the name of an attack and its damage from the line that holds
/// both: the name stands before a colon, the damage after it; without a
/// colon the line is the name.
pub fn name_and_damage(text: &str) -> (res: Result<(String, Option<String>), TextError>)
    ensures
        match res {
            Ok((name, damage)) => name_and_damage_of(text@) == Ok::<
                (Seq<char>, Option<Seq<char>>),
                TextError,
            >(
                (
                    name@,
                    match damage {
                        Some(amount) => Some(amount@),
                        None => None,
                    },
                ),
            ),
            Err(error) => name_and_damage_of(text@) == Err::<
                (Seq<char>, Option<Seq<char>>),
                TextError,
            >(error),
        },
{
    let name = match capture(NAME_AND_DAMAGE, text, "name") {
        Err(_) => {
            return Err(TextError::BadPattern);
        },
        Ok(None) => {
            return Err(TextError::NoMatch);
        },
        Ok(Some(None)) => {
            return Err(TextError::NoName);
        },
        Ok(Some(Some(name))) => name,
    };
    let damage = match capture(NAME_AND_DAMAGE, text, "damage") {
        Err(_) => {
            return Err(TextError::BadPattern);
        },
        Ok(None) => {
            return Err(TextError::NoMatch);
        },
        Ok(Some(damage)) => damage,
    };
    Ok((trim(name.as_str()).to_owned(), damage))
}

/// What a card evolves from and into.
#[derive(Eq, PartialEq, Debug)]
pub struct Evolves {
    pub from: Vec<String>,
    pub to: Vec<String>,
}

/// The form of the line that says what a card evolves from and into.
pub const FROM_TO: &'static str =
    r#"(Evolves (from (?<from>(.+?)))?( and )?(into (?<to>(.+?)))?$)|(Put onto (?<put_onto>.+?)$)"#;

/// The form of what stands between the names of a list.
pub const SPLITTER: &'static str = r#"((, (\[…] )?(or )?)|( (…] )?or ))"#;

/// The parts of `parts` that are not empty, in order.
pub open spec fn without_empty(parts: Seq<Seq<char>>) -> Seq<Seq<char>> {
    parts.filter(|part: Seq<char>| part.len() > 0)
}

/// The names that a list of names holds.
pub open spec fn names_of(list: Seq<char>) -> Option<Seq<Seq<char>>> {
    match split_parts(SPLITTER@, list) {
        Some(parts) => Some(without_empty(parts)),
        None => None,
    }
}

/// Splits a list of names such as `Scizor, Scizor-GX, or Scizor ex` into
/// the names.
pub fn split_names(list: &str) -> (res: Result<Vec<String>, TextError>)
    ensures
        match res {
            Ok(names) => names_of(list@) == Some(texts_view(names@)),
            Err(error) => error == TextError::BadPattern && names_of(list@) is None,
        },
{
    let parts = match split(SPLITTER, list) {
        Ok(parts) => parts,
        Err(_) => {
            return Err(TextError::BadPattern);
        },
    };
    let mut names: Vec<String> = Vec::new();
    let mut at: usize = 0;
    while at < parts.len()
        invariant
            at <= parts@.len(),
            texts_view(names@) == without_empty(texts_view(parts@).subrange(0, at as int)),
        decreases parts@.len() - at,
    {
        let ghost before = texts_view(names@);
        let ghost seen = texts_view(parts@).subrange(0, at as int);
        if !parts[at].as_str().is_empty() {
            names.push(parts[at].clone());
        }
        proof {
            let keep = |part: Seq<char>| part.len() > 0;
            let next = texts_view(parts@).subrange(0, at + 1);
            assert(next =~= seen.push(parts@[at as int]@));
            reveal(Seq::filter);
            assert(next.drop_last() =~= seen);
            assert(next.last() == parts@[at as int]@);
            assert(texts_view(names@) =~= without_empty(next));
        }
        at = at + 1;
    }
    assert(texts_view(parts@).subrange(0, at as int) =~= texts_view(parts@));
    Ok(names)
}

impl Evolves {
    /// What `from_text` makes of the groups that the line gives.
    pub open spec fn of_groups(
        from: Option<Seq<char>>,
        to: Option<Seq<char>>,
        put_onto: Option<Seq<char>>,
    ) -> Option<(Seq<Seq<char>>, Seq<Seq<char>>)> {
        let from_names = match from {
            Some(list) => names_of(list),
            None => match put_onto {
                Some(name) => Some(seq![name]),
                None => Some(Seq::empty()),
            },
        };
        let to_names = match to {
            Some(list) => names_of(list),
            None => Some(Seq::empty()),
        };
        match (from_names, to_names) {
            (Some(from_names), Some(to_names)) => Some((from_names, to_names)),
            _ => None,
        }
    }

    /// Reads what a card evolves from and into from the groups that the
    /// line gives: the names after `from`, or else the name after
    /// `Put onto`, and the names after `into`.
    pub fn from_groups(from: Option<String>, to: Option<String>, put_onto: Option<String>) -> (res:
        Result<Evolves, TextError>)
        ensures
            match res {
                Ok(evolves) => Self::of_groups(
                    option_view(from),
                    option_view(to),
                    option_view(put_onto),
                ) == Some((texts_view(evolves.from@), texts_view(evolves.to@))),
                Err(error) => error == TextError::BadPattern && Self::of_groups(
                    option_view(from),
                    option_view(to),
                    option_view(put_onto),
                ) is None,
            },
    {
        let from_names = match from {
            Some(list) => match split_names(list.as_str()) {
                Ok(names) => names,
                Err(error) => {
                    return Err(error);
                },
            },
            None => match put_onto {
                Some(name) => {
                    let mut names = Vec::new();
                    names.push(name);
                    assert(texts_view(names@) =~= seq![name@]);
                    names
                },
                None => {
                    let names: Vec<String> = Vec::new();
                    assert(texts_view(names@) =~= Seq::empty());
                    names
                },
            },
        };
        let to_names = match to {
            Some(list) => match split_names(list.as_str()) {
                Ok(names) => names,
                Err(error) => {
                    return Err(error);
                },
            },
            None => {
                let names: Vec<String> = Vec::new();
                assert(texts_view(names@) =~= Seq::empty());
                names
            },
        };
        Ok(Evolves { from: from_names, to: to_names })
    }

    /// The groups that the line gives, if it has the form that is looked
    /// for.
    pub open spec fn groups_of(text: Seq<char>) -> Result<
        (Option<Seq<char>>, Option<Seq<char>>, Option<Seq<char>>),
        TextError,
    > {
        match (
            captured(FROM_TO@, text, "from"@),
            captured(FROM_TO@, text, "to"@),
            captured(FROM_TO@, text, "put_onto"@),
        ) {
            (Captured::Group(from), Captured::Group(to), Captured::Group(put_onto)) => Ok(
                (from, to, put_onto),
            ),
            (Captured::BadPattern, _, _) | (_, Captured::BadPattern, _) | (
                _,
                _,
                Captured::BadPattern,
            ) => Err(TextError::BadPattern),
            _ => Err(TextError::NoMatch),
        }
    }

    /// Reads what a card evolves from and into from a line such as
    /// `Evolves from Dratini and into Dragonite, Dragonite-GX, or Dragonite ex`.
    pub fn from_text(text: &str) -> (res: Result<Evolves, TextError>)
        ensures
            match res {
                Ok(evolves) => Self::groups_of(text@) matches Ok((from, to, put_onto))
                    && Self::of_groups(from, to, put_onto) == Some(
                    (texts_view(evolves.from@), texts_view(evolves.to@)),
                ),
                Err(error) => match Self::groups_of(text@) {
                    Ok((from, to, put_onto)) => error == TextError::BadPattern && Self::of_groups(
                        from,
                        to,
                        put_onto,
                    ) is None,
                    Err(found) => error == found,
                },
            },
    {
        let from = capture(FROM_TO, text, "from");
        let to = capture(FROM_TO, text, "to");
        let put_onto = capture(FROM_TO, text, "put_onto");
        match (from, to, put_onto) {
            (Ok(Some(from)), Ok(Some(to)), Ok(Some(put_onto))) => Self::from_groups(
                from,
                to,
                put_onto,
            ),
            (Err(_), _, _) | (_, Err(_), _) | (_, _, Err(_)) => Err(TextError::BadPattern),
            _ => Err(TextError::NoMatch),
        }
    }
}

/// What an optional string holds.
pub open spec fn option_view(text: Option<String>) -> Option<Seq<char>> {
    match text {
        Some(text) => Some(text@),
        None => None,
    }
}

/// The name, the hit points and the colors of a card.
#[derive(Eq, PartialEq, Debug)]
pub struct NameHpColor {
    pub name: String,
    pub hp: Option<i32>,
    pub color: Option<Vec<PokeColor>>,
}

/// The types of a card, what it evolves from and into, and its tags.
#[derive(Eq, PartialEq, Debug)]
pub struct TypeEvolvesIs {
    pub pkmn_type: PkmnSuperType,
    pub pkmn_subtype: Option<PkmnSubtype>,
    pub pkmn_subsubtype: Option<PkmnSubSubType>,
    pub all_pokemon: Vec<String>,
    pub stage: Option<Stage>,
    pub evolves: Option<Evolves>,
    /// The tags of the card, each once.
    pub is: Vec<PtcgTag>,
}

/// The paragraphs of the text of a card.
#[derive(Eq, PartialEq, Debug)]
pub struct AllTextInfo {
    pub text_infos: Vec<TextInfo>,
}

/// The colors that a card is weak against or resists, and by how much.
#[derive(Eq, PartialEq, Debug)]
pub struct DamageModifier {
    pub colors: Vec<PokeColor>,
    pub value: Option<String>,
}

/// The weakness, the resistance and the retreat cost of a card.
#[derive(Eq, PartialEq, Debug)]
pub struct WeakResistRetreat {
    pub weak: DamageModifier,
    pub resist: DamageModifier,
    pub retreat: usize,
}

/// A rule that is printed on a card.
#[derive(Eq, PartialEq, Debug)]
pub enum Rule {
    RuleBox { purpose: String, text: String },
    NonRuleBox { purpose: String, text: String },
}

/// The rules that are printed on a card.
#[derive(Eq, PartialEq, Debug)]
pub struct Rules {
    pub rules: Vec<Rule>,
}

/// The illustrator and the level of a card.
#[derive(Eq, PartialEq, Debug)]
pub struct Illus {
    pub illustrator: Option<String>,
    pub level: Option<String>,
}

/// A day of the calendar.
#[derive(Eq, PartialEq, Debug, Clone, Copy)]
pub struct ReleaseDate {
    pub year: i32,
    pub month: u8,
    pub day: u8,
}

/// Where and when a card was released.
#[derive(Eq, PartialEq, Debug)]
pub struct ReleaseMeta {
    pub series: Vec<String>,
    pub set: String,
    pub set_abbreviation: Option<String>,
    pub set_series_code: Option<String>,
    pub set_number: SetNumber,
    pub set_total_cards: Option<i32>,
    pub rarity: String,
    pub date_released: ReleaseDate,
}

/// A play format.
#[derive(Eq, PartialEq, Debug)]
pub struct PtcgFormat {
    pub id: String,
    pub text: String,
}

/// The play formats of one kind that a card belongs to.
#[derive(Eq, PartialEq, Debug)]
pub struct Formats {
    pub format: FormatType,
    pub formats: Vec<PtcgFormat>,
}

/// The regulation mark and the play formats of a card.
#[derive(Eq, PartialEq, Debug)]
pub struct MarkFormats {
    pub mark: Option<Mark>,
    pub formats: Vec<Formats>,
}

/// All that a card page says of a card.
#[derive(Eq, PartialEq, Debug)]
pub struct CardText {
    pub name_hp_color: NameHpColor,
    pub type_evolves_is: TypeEvolvesIs,
    pub all_text_info: AllTextInfo,
    pub weak_resist_retreat: Option<WeakResistRetreat>,
    pub rules: Option<Rules>,
    pub illus: Illus,
    pub release_meta: ReleaseMeta,
    pub mark_formats: Option<MarkFormats>,
    pub flavor_text: Option<String>,
}

/// The name of the energy that a symbol such as `{G}` stands for.
pub open spec fn symbol_name_of(symbol: Seq<char>) -> Option<Seq<char>> {
    if symbol == "{G}"@ {
        Some("Grass"@)
    } else if symbol == "{W}"@ {
        Some("Water"@)
    } else if symbol == "{R}"@ {
        Some("Fire"@)
    } else if symbol == "{L}"@ {
        Some("Lightning"@)
    } else if symbol == "{P}"@ {
        Some("Psychic"@)
    } else if symbol == "{F}"@ {
        Some("Fighting"@)
    } else if symbol == "{D}"@ {
        Some("Darkness"@)
    } else if symbol == "{M}"@ {
        Some("Metal"@)
    } else if symbol == "{Y}"@ {
        Some("Fairy"@)
    } else if symbol == "{N}"@ {
        Some("Dragon"@)
    } else if symbol == "{C}"@ {
        Some("Colorless"@)
    } else {
        None
    }
}

/// The name of the energy that `symbol` stands for, or `None` where it is
/// no symbol of an energy.
pub fn symbol_name(symbol: &str) -> (res: Option<String>)
    ensures
        option_view(res) == symbol_name_of(symbol@),
{
    if same_text(symbol, "{G}") {
        Some("Grass".to_owned())
    } else if same_text(symbol, "{W}") {
        Some("Water".to_owned())
    } else if same_text(symbol, "{R}") {
        Some("Fire".to_owned())
    } else if same_text(symbol, "{L}") {
        Some("Lightning".to_owned())
    } else if same_text(symbol, "{P}") {
        Some("Psychic".to_owned())
    } else if same_text(symbol, "{F}") {
        Some("Fighting".to_owned())
    } else if same_text(symbol, "{D}") {
        Some("Darkness".to_owned())
    } else if same_text(symbol, "{M}") {
        Some("Metal".to_owned())
    } else if same_text(symbol, "{Y}") {
        Some("Fairy".to_owned())
    } else if same_text(symbol, "{N}") {
        Some("Dragon".to_owned())
    } else if same_text(symbol, "{C}") {
        Some("Colorless".to_owned())
    } else {
        None
    }
}

/// Where the pages of the tags stand.
pub const TAG_PAGES: &'static str = "https://pkmncards.com/is/";

/// The name of a tag in the address of its page.
pub fn tag_in_address(address: &str) -> (res: &str)
    ensures
        res@ == without_suffixes(without_prefixes(address@, TAG_PAGES@), "/"@),
{
    proof {
        reveal_strlit("https://pkmncards.com/is/");
        reveal_strlit("/");
    }
    trim_suffixes(trim_prefixes(address, TAG_PAGES), "/")
}

/// The level of a card in a text such as `LV.45`, or `None` where the text
/// does not begin with `LV.`.
pub fn level_in(text: &str) -> (res: Option<String>)
    ensures
        match res {
            Some(level) => starts_with(text@, "LV."@) && level@ == text@.skip("LV."@.len() as int),
            None => !starts_with(text@, "LV."@),
        },
{
    match after_prefix(text, "LV.") {
        Some(level) => Some(level.to_owned()),
        None => None,
    }
}

/// The purpose of a rule in the text that stands before the rule, such as
/// `TAG TEAM rule:`.
pub fn purpose_in(text: &str) -> (res: String)
    ensures
        res@ == trimmed_end(without_suffixes(trimmed(text@), "rule:"@)),
{
    proof {
        reveal_strlit("rule:");
    }
    trim_end(trim_suffixes(trim(text), "rule:")).to_owned()
}

/// The marks that stand between the cost of an attack and its name.
pub open spec fn line_marks() -> Seq<char> {
    seq![' ', '⇢', '→', '{', '}', '+']
}

/// The line that names an ability or an attack, without the marks before
/// it and without white space at its ends.
pub fn name_line(text: &str) -> (res: String)
    ensures
        res@ == trimmed(without_leading(text@, line_marks())),
{
    let mut marks: Vec<char> = Vec::new();
    marks.push(' ');
    marks.push('⇢');
    marks.push('→');
    marks.push('{');
    marks.push('}');
    marks.push('+');
    assert(marks@ =~= line_marks());
    trim(trim_leading(text, &marks)).to_owned()
}

/// The retreat cost that a card page gives: the count in `text`, and none
/// where the page gives no text. A text that is no count is an error.
pub fn retreat_in(text: &Option<String>) -> (res: Result<usize, TextError>)
    ensures
        res == match text {
            Some(text) => match parsed_usize(text@) {
                Some(count) => Ok::<usize, TextError>(count),
                None => Err(TextError::NoMatch),
            },
            None => Ok(0usize),
        },
{
    match text {
        Some(text) => match parse_usize(text.as_str()) {
            Some(count) => Ok(count),
            None => Err(TextError::NoMatch),
        },
        None => Ok(0),
    }
}

} // verus!
