use changeset::pkmn_data::card::{
    EnergyColor, FormatType, Legality, Mark, ParseError, PkmnSubSubType, PkmnSubtype,
    PkmnSuperType, PokeColor, PtcgTag, Stage,
};

#[test]
fn test() {}

#[test]
fn parse_mark() {
    let mark = "F";
    assert_eq!(Mark::F, Mark::from_str(mark).unwrap());
}

#[test]
fn parse_format_type() {
    assert_eq!(
        FormatType::Standard,
        FormatType::from_str("Standard: ").unwrap()
    );
}

#[test]
fn parse_energy_color() {
    assert_eq!(
        EnergyColor::Darkness,
        EnergyColor::from_str("Darkness").unwrap()
    );
}

#[test]
fn unknown_names_are_refused() {
    assert_eq!(Mark::from_str("f"), Err(ParseError::VariantNotFound));
    assert_eq!(Mark::from_str("H"), Err(ParseError::VariantNotFound));
    assert_eq!(Mark::from_str(""), Err(ParseError::VariantNotFound));
    assert_eq!(FormatType::from_str("Standard:"), Err(ParseError::VariantNotFound));
    assert_eq!(EnergyColor::from_str("Dark"), Err(ParseError::VariantNotFound));
    assert_eq!(EnergyColor::from_str("Dragon"), Err(ParseError::VariantNotFound));
    assert_eq!(Stage::from_str("Stage1"), Err(ParseError::VariantNotFound));
    assert_eq!(PkmnSuperType::from_str("Pokemon"), Err(ParseError::VariantNotFound));
    assert_eq!(PkmnSubtype::from_str("Tool"), Err(ParseError::VariantNotFound));
    assert_eq!(PkmnSubSubType::from_str("TM"), Err(ParseError::VariantNotFound));
    assert_eq!(PtcgTag::from_str("v"), Err(ParseError::VariantNotFound));
}

#[test]
fn names_are_written_out_and_read_back() {
    for mark in [Mark::A, Mark::B, Mark::C, Mark::D, Mark::E, Mark::F, Mark::G] {
        assert_eq!(Mark::from_str(&mark.to_string()), Ok(mark));
    }
    assert_eq!(Mark::G.to_string(), "G");
    assert_eq!(FormatType::Expanded.to_string(), "Expanded: ");
    assert_eq!(FormatType::from_str("Other: "), Ok(FormatType::Other));
    assert_eq!(FormatType::from_str("Modified: "), Ok(FormatType::Modified));
    assert_eq!(EnergyColor::Colorless.to_string(), "Colorless");
    assert_eq!(Stage::from_str("Stage 1"), Ok(Stage::Stage1));
    assert_eq!(Stage::Vmax.to_string(), "VMAX");
    assert_eq!(Stage::from_str("V-UNION"), Ok(Stage::VUnion));
    assert_eq!(Stage::LevelUp.to_string(), "Level-Up");
    assert_eq!(PkmnSuperType::from_str("Pokémon"), Ok(PkmnSuperType::Pokemon));
    assert_eq!(PkmnSuperType::Pokemon.to_string(), "Pokémon");
    assert_eq!(PkmnSubtype::from_str("Pokémon Tool"), Ok(PkmnSubtype::PokemonTool));
    assert_eq!(PkmnSubtype::BasicEnergy.to_string(), "Basic Energy");
    assert_eq!(
        PkmnSubSubType::from_str("Rocket's Secret Machine"),
        Ok(PkmnSubSubType::RocketsSecretMachine)
    );
    assert_eq!(PkmnSubSubType::PokemonToolF.to_string(), "Pokémon Tool F");
}

#[test]
fn colors_keep_unknown_names() {
    assert_eq!(PokeColor::from_str("Dragon"), Ok(PokeColor::Dragon));
    assert_eq!(PokeColor::from_str("Dark"), Ok(PokeColor::Darkness));
    assert_eq!(PokeColor::from_str("Darkness"), Ok(PokeColor::Darkness));
    assert_eq!(PokeColor::Darkness.to_string(), "Darkness");
    assert_eq!(
        PokeColor::from_str("No Resistance"),
        Ok(PokeColor::Other("No Resistance".to_string()))
    );
    assert_eq!(PokeColor::Other("No Weakness".to_string()).to_string(), "No Weakness");
}

#[test]
fn legality_reads_current_as_legal() {
    assert!(matches!(Legality::from_str("Current"), Ok(Legality::Legal)));
    assert!(matches!(Legality::from_str("Banned"), Ok(Legality::Banned)));
    match Legality::from_str("2021") {
        Ok(Legality::OutOfFormat(kept)) => assert_eq!(kept, "2021"),
        _ => panic!("a text that names no variant is kept"),
    }
}

#[test]
fn tags_are_read_by_their_page_names() {
    assert_eq!(PtcgTag::from_str("V"), Ok(PtcgTag::V));
    assert_eq!(PtcgTag::from_str("ex-%e2%86%91"), Ok(PtcgTag::ExUpper));
    assert_eq!(PtcgTag::from_str("EX"), Ok(PtcgTag::ExUpper));
    assert_eq!(PtcgTag::from_str("ex-%e2%86%93"), Ok(PtcgTag::ExLower));
    assert_eq!(PtcgTag::from_str("ex-3"), Ok(PtcgTag::Ex3));
    assert_eq!(PtcgTag::from_str("ex"), Ok(PtcgTag::ExLower));
    assert_eq!(PtcgTag::from_str("TAG TEAM"), Ok(PtcgTag::TagTeam));
    assert_eq!(PtcgTag::from_str("Imakuni?'s"), Ok(PtcgTag::Imakunis));
    assert_eq!(PtcgTag::ExUpper.to_string(), "EX");
    assert_eq!(PtcgTag::Ex3.to_string(), "ex");
    assert_eq!(PtcgTag::LtSurges.to_string(), "Lt. Surge's");
    assert_eq!(PtcgTag::Cool.to_string(), "Cool");
}
