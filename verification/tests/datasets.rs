use changeset::pkmn_data::card::symbol_name;
use changeset::pkmn_data;
use changeset::pkmn_data::card::{AbilityError, EnergyColor, TextInfo};
use changeset::pkmn_data::series::Series;
use changeset::pkmn_data::set::CardSet;
use changeset::ptcgio_data;
use changeset::ptcgio_data::Card;

fn card(name: &str) -> Card {
    Card {
        name: name.to_string(),
        ..Card::default()
    }
}

#[test]
fn fetchers_keep_where_they_read_and_store() {
    let fetcher = ptcgio_data::DataFetcher::new("https://example.org/data.git", "ptcg-data");
    assert_eq!(fetcher.url, "https://example.org/data.git");
    assert_eq!(fetcher.path, "ptcg-data");
    let fetcher = ptcgio_data::DataFetcher::default();
    assert_eq!(fetcher.url, "https://github.com/PokemonTCG/pokemon-tcg-data.git");
    assert_eq!(fetcher.url, ptcgio_data::PTCG_DATA_URL);
    assert_eq!(fetcher.path, "pokemon-tcg-data");

    let fetcher = pkmn_data::DataFetcher::new("https://example.org/sets/", "store");
    assert_eq!(fetcher.url, "https://example.org/sets/");
    assert_eq!(fetcher.store_path, "store");
    let fetcher = pkmn_data::DataFetcher::default();
    assert_eq!(fetcher.url, "https://pkmncards.com/sets/");
    assert_eq!(fetcher.store_path, "pkmn_data");
}

#[test]
fn a_set_is_written_out_with_the_names_of_its_cards() {
    let set = CardSet::new("Base", vec![card("Abra"), card("Mew"), card("Onix")]);
    assert_eq!(set.name, "Base");
    assert_eq!(set.to_string(), "Base Cards: (Abra, Mew, Onix)");
    assert_eq!(CardSet::new("One", vec![card("Abra")]).to_string(), "One Cards: (Abra)");
    assert_eq!(CardSet::new("Empty", vec![]).to_string(), "Empty Cards: ()");

    let series = Series::new("Classic", vec![set]);
    assert_eq!(series.name, "Classic");
    assert_eq!(series.sets.len(), 1);
}

#[test]
fn with_cards_replaces_the_cards_only() {
    let mut set = ptcgio_data::CardSet {
        cards: vec![],
        id: "base1".to_string(),
        name: "Base".to_string(),
        series: "Base".to_string(),
        printed_total: 102,
        total: 102,
        legalities: Default::default(),
        ptcgo_code: None,
        release_date: "1999/01/09".to_string(),
        updated_at: "2022/10/10".to_string(),
        images: Default::default(),
    };
    set.with_cards(vec![card("Abra")]);
    assert_eq!(set.cards, vec![card("Abra")]);
    assert_eq!(set.id, "base1");
    assert_eq!(set.total, 102);
}

#[test]
fn abilities_are_made_by_the_name_of_their_kind() {
    let made = TextInfo::make_ability("Ability", "Perfection".to_string(), "text".to_string());
    assert_eq!(
        made,
        Ok(TextInfo::Ability { name: "Perfection".to_string(), text: "text".to_string() })
    );
    assert_eq!(
        TextInfo::make_ability("Poké-BODY", "a".to_string(), "b".to_string()),
        Ok(TextInfo::PokeBody { name: "a".to_string(), text: "b".to_string() })
    );
    assert_eq!(
        TextInfo::make_ability("Poké-POWER", "a".to_string(), "b".to_string()),
        Ok(TextInfo::PokePower { name: "a".to_string(), text: "b".to_string() })
    );
    assert_eq!(
        TextInfo::make_ability("Pokémon Power", "a".to_string(), "b".to_string()),
        Ok(TextInfo::PokemonPower { name: "a".to_string(), text: "b".to_string() })
    );
    assert_eq!(
        TextInfo::make_ability("Ancient Trait", "a".to_string(), "b".to_string()),
        Ok(TextInfo::AncientTrait { name: "a".to_string(), text: "b".to_string() })
    );
    assert_eq!(
        TextInfo::make_ability("Held Item", "a".to_string(), "b".to_string()),
        Ok(TextInfo::HeldItem { name: "a".to_string(), text: "b".to_string() })
    );
    assert_eq!(
        TextInfo::make_ability("Attack", "a".to_string(), "b".to_string()),
        Err(AbilityError::UnknownAbilityType)
    );
}

#[test]
fn abilities_give_their_kind_name_and_text() {
    let body = TextInfo::PokeBody { name: "Exoskeleton".to_string(), text: "less".to_string() };
    assert_eq!(body.get_ability_type(), Ok("Poké-BODY".to_string()));
    let (kind, name, text) = body.get_ability().ok().unwrap();
    assert_eq!(kind.0, "Poké-BODY");
    assert_eq!(name.0, "Exoskeleton");
    assert_eq!(text.0, "less");

    let held = TextInfo::HeldItem { name: "Magnet".to_string(), text: "t".to_string() };
    assert_eq!(held.get_ability_type(), Ok("Held Item".to_string()));

    let attack = TextInfo::Attack {
        cost: vec![EnergyColor::Water],
        name: "Twister".to_string(),
        damage: Some("30".to_string()),
        text: String::new(),
    };
    assert_eq!(attack.get_ability_type(), Err(AbilityError::NotAnAbility));
    assert!(matches!(attack.get_ability(), Err(AbilityError::NotAnAbility)));
    let rule = TextInfo::Rule { rule: "r".to_string() };
    assert_eq!(rule.get_ability_type(), Err(AbilityError::NotAnAbility));
}

#[test]
fn unusual_modifiers_are_found() {
    let entry = |value: &str| vec![("type".to_string(), "Fire".to_string()), ("value".to_string(), value.to_string())];
    let mut plain = card("Abra");
    assert!(!plain.has_unusual_modifier());
    plain.resistances = Some(vec![entry("-30"), entry("-20")]);
    plain.weaknesses = Some(vec![entry("Ã—2")]);
    assert!(!plain.has_unusual_modifier());
    plain.resistances = Some(vec![entry("-30"), entry("-10")]);
    assert!(plain.has_unusual_modifier());
    plain.resistances = None;
    plain.weaknesses = Some(vec![entry("+20")]);
    assert!(plain.has_unusual_modifier());
    plain.weaknesses = Some(vec![vec![("type".to_string(), "Fire".to_string())]]);
    assert!(!plain.has_unusual_modifier());
    assert_eq!(
        changeset::ptcgio_data::record_get(&entry("-30"), "value"),
        Some(&"-30".to_string())
    );
    assert_eq!(changeset::ptcgio_data::record_get(&entry("-30"), "name"), None);
}

#[test]
fn energy_symbols_have_names() {
    assert_eq!(symbol_name("{G}"), Some("Grass".to_string()));
    assert_eq!(symbol_name("{W}"), Some("Water".to_string()));
    assert_eq!(symbol_name("{R}"), Some("Fire".to_string()));
    assert_eq!(symbol_name("{L}"), Some("Lightning".to_string()));
    assert_eq!(symbol_name("{P}"), Some("Psychic".to_string()));
    assert_eq!(symbol_name("{F}"), Some("Fighting".to_string()));
    assert_eq!(symbol_name("{D}"), Some("Darkness".to_string()));
    assert_eq!(symbol_name("{M}"), Some("Metal".to_string()));
    assert_eq!(symbol_name("{Y}"), Some("Fairy".to_string()));
    assert_eq!(symbol_name("{N}"), Some("Dragon".to_string()));
    assert_eq!(symbol_name("{C}"), Some("Colorless".to_string()));
    assert_eq!(symbol_name("{@}"), None);
    assert_eq!(symbol_name("G"), None);
}
