use changeset::json::{Json, JsonNumber};
use changeset::pkmn_data::card::{
    level_in, name_and_damage, name_line, purpose_in, retreat_in, split_names, tag_in_address, AllTextInfo, CardText, DamageModifier, EnergyColor, Evolves,
    Illus, Mark, MarkFormats, NameHpColor, PkmnSubSubType, PkmnSubtype, PkmnSuperType, PokeColor,
    PtcgTag, ReleaseDate, ReleaseMeta, Rule, Rules, SetNumber, Stage, TextError, TextInfo,
    TypeEvolvesIs, WeakResistRetreat,
};
use changeset::pkmn_data::convert::{
    abilities_of, attacks_of, card_id, damage_modifiers, retreat_cost, rules_of, subtypes_of,
    take_ancient_trait,
};
use changeset::pkmn_data::extractors::{clean_text, number_in, NumberError};
use changeset::pkmn_data::set::set_name_and_code;
use changeset::ptcgio_data::Card;

fn record(entries: &[(&str, &str)]) -> Vec<(String, String)> {
    entries
        .iter()
        .map(|(key, value)| (key.to_string(), value.to_string()))
        .collect()
}

fn dragonair() -> CardText {
    CardText {
        name_hp_color: NameHpColor {
            name: "Dragonair".to_string(),
            hp: Some(90),
            color: Some(vec![PokeColor::Dragon]),
        },
        type_evolves_is: TypeEvolvesIs {
            pkmn_type: PkmnSuperType::Pokemon,
            pkmn_subtype: None,
            pkmn_subsubtype: None,
            all_pokemon: vec!["Dragonair".to_string()],
            stage: Some(Stage::Stage1),
            evolves: Some(Evolves {
                from: vec!["Dratini".into()],
                to: vec!["Dragonite".into(), "Dragonite-GX".into(), "Dragonite ex".into()],
            }),
            is: vec![],
        },
        all_text_info: AllTextInfo {
            text_infos: vec![TextInfo::Attack {
                cost: vec![EnergyColor::Water, EnergyColor::Lightning],
                name: "Twister".to_string(),
                damage: Some("30".to_string()),
                text: "Flip 2 coins.".to_string(),
            }],
        },
        weak_resist_retreat: Some(WeakResistRetreat {
            weak: DamageModifier {
                colors: vec![PokeColor::Fairy],
                value: Some("×2".to_string()),
            },
            resist: DamageModifier {
                colors: vec![PokeColor::Other("No Resistance".to_string())],
                value: None,
            },
            retreat: 2,
        }),
        rules: None,
        illus: Illus { illustrator: Some("Sanosuke Sakuma".to_string()), level: None },
        release_meta: ReleaseMeta {
            series: vec!["Sun & Moon".to_string()],
            set: "Unified Minds".to_string(),
            set_abbreviation: Some("UNM".to_string()),
            set_series_code: Some("SM11".to_string()),
            set_number: SetNumber::Num(149),
            set_total_cards: Some(236),
            rarity: "Uncommon".to_string(),
            date_released: ReleaseDate { year: 2019, month: 8, day: 2 },
        },
        mark_formats: Some(MarkFormats { mark: Some(Mark::F), formats: vec![] }),
        flavor_text: Some("Lakes where Dragonair live.".to_string()),
    }
}

#[test]
fn a_card_is_made_from_its_text() {
    let card = Card::try_from(dragonair()).unwrap();
    assert_eq!(card.id, "sm11-149");
    assert_eq!(card.name, "Dragonair");
    assert_eq!(card.supertype, "Pokémon");
    assert_eq!(card.subtypes, Some(vec!["Stage 1".to_string()]));
    assert_eq!(card.level, None);
    assert_eq!(card.hp, Some("90".to_string()));
    assert_eq!(card.types, Some(vec!["Dragon".to_string()]));
    assert_eq!(card.evolves_from, Some("Dratini".to_string()));
    assert_eq!(
        card.evolves_to,
        Some(vec!["Dragonite".to_string(), "Dragonite-GX".to_string(), "Dragonite ex".to_string()])
    );
    assert_eq!(card.abilities, None);
    assert_eq!(card.rules, None);
    assert_eq!(
        card.attacks,
        Some(vec![vec![
            ("convertedEnergyCost".to_string(), Json::Number(JsonNumber::PosInt(2))),
            (
                "cost".to_string(),
                Json::Array(vec![
                    Json::String("Water".to_string()),
                    Json::String("Lightning".to_string())
                ])
            ),
            ("damage".to_string(), Json::String("30".to_string())),
            ("name".to_string(), Json::String("Twister".to_string())),
            ("text".to_string(), Json::String("Flip 2 coins.".to_string())),
        ]])
    );
    assert_eq!(card.weaknesses, Some(vec![record(&[("type", "Fairy"), ("value", "×2")])]));
    assert_eq!(card.resistances, None);
    assert_eq!(card.retreat_cost, Some(vec!["Colorless".to_string(), "Colorless".to_string()]));
    assert_eq!(card.converted_retreat_cost, Some(2));
    assert_eq!(card.number, "149");
    assert_eq!(card.artist, Some("Sanosuke Sakuma".to_string()));
    assert_eq!(card.rarity, Some("Uncommon".to_string()));
    assert_eq!(card.flavor_text, Some("Lakes where Dragonair live.".to_string()));
    assert_eq!(card.national_pokedex_numbers, None);
    assert!(card.legalities.is_empty());
    assert!(card.images.is_empty());
    assert_eq!(card.ancient_trait, None);
    assert_eq!(card.regulation_mark, Some("F".to_string()));
}

#[test]
fn a_card_without_details_has_empty_fields() {
    let mut text = dragonair();
    text.weak_resist_retreat = None;
    text.type_evolves_is.evolves = None;
    text.type_evolves_is.stage = None;
    text.name_hp_color.hp = None;
    text.name_hp_color.color = None;
    text.all_text_info.text_infos = vec![];
    text.release_meta.set_series_code = None;
    text.release_meta.set_number = SetNumber::Str("SM162a".to_string());
    text.mark_formats = None;
    let card = Card::try_from(text).unwrap();
    assert_eq!(card.id, "unk-SM162a");
    assert_eq!(card.number, "SM162a");
    assert_eq!(card.subtypes, None);
    assert_eq!(card.hp, None);
    assert_eq!(card.types, None);
    assert_eq!(card.evolves_from, None);
    assert_eq!(card.evolves_to, None);
    assert_eq!(card.attacks, None);
    assert_eq!(card.weaknesses, None);
    assert_eq!(card.retreat_cost, None);
    assert_eq!(card.converted_retreat_cost, None);
    assert_eq!(card.regulation_mark, None);
}

#[test]
fn the_first_ancient_trait_is_taken_out_of_the_abilities() {
    let infos = vec![
        TextInfo::Ability { name: "Perfection".to_string(), text: "a".to_string() },
        TextInfo::Rule { rule: "r".to_string() },
        TextInfo::AncientTrait { name: "θ Stop".to_string(), text: "b".to_string() },
        TextInfo::PokeBody { name: "Exoskeleton".to_string(), text: "c".to_string() },
        TextInfo::AncientTrait { name: "Ω Barrier".to_string(), text: "d".to_string() },
    ];
    let mut abilities = abilities_of(&infos);
    assert_eq!(abilities.len(), 4);
    assert_eq!(
        abilities[0],
        record(&[("name", "Perfection"), ("text", "a"), ("type", "Ability")])
    );
    let ancient = take_ancient_trait(&mut abilities);
    assert_eq!(ancient, Some(record(&[("name", "θ Stop"), ("text", "b")])));
    assert_eq!(
        abilities,
        vec![
            record(&[("name", "Perfection"), ("text", "a"), ("type", "Ability")]),
            record(&[("name", "Exoskeleton"), ("text", "c"), ("type", "Poké-BODY")]),
            record(&[("name", "Ω Barrier"), ("text", "d"), ("type", "Ancient Trait")]),
        ]
    );
    let mut none = abilities_of(&infos[..2].iter().map(|_| TextInfo::Rule { rule: String::new() }).collect());
    assert_eq!(take_ancient_trait(&mut none), None);
}

#[test]
fn rules_are_written_out_with_their_purpose() {
    let infos = vec![
        TextInfo::Rule { rule: "extra".to_string() },
        TextInfo::Ability { name: "n".to_string(), text: "t".to_string() },
    ];
    let rules = Some(Rules {
        rules: vec![
            Rule::RuleBox { purpose: "TAG TEAM".to_string(), text: "three prizes".to_string() },
            Rule::NonRuleBox { purpose: "x".to_string(), text: "plain".to_string() },
        ],
    });
    assert_eq!(
        rules_of(&rules, &infos),
        Some(vec![
            "TAG TEAM rule: three prizes".to_string(),
            "plain".to_string(),
            "extra".to_string()
        ])
    );
    assert_eq!(rules_of(&None, &infos), None);
    assert_eq!(rules_of(&Some(Rules { rules: vec![] }), &vec![]), Some(vec![]));
}

#[test]
fn attacks_without_damage_have_an_empty_damage() {
    let infos = vec![
        TextInfo::Rule { rule: "r".to_string() },
        TextInfo::Attack {
            cost: vec![],
            name: "Poison Breath".to_string(),
            damage: None,
            text: "Flip a coin.".to_string(),
        },
    ];
    let attacks = attacks_of(&infos);
    assert_eq!(attacks.len(), 1);
    assert_eq!(attacks[0][0], ("convertedEnergyCost".to_string(), Json::Number(JsonNumber::PosInt(0))));
    assert_eq!(attacks[0][1], ("cost".to_string(), Json::Array(vec![])));
    assert_eq!(attacks[0][2], ("damage".to_string(), Json::String(String::new())));
    assert_eq!(attacks[0][3], ("name".to_string(), Json::String("Poison Breath".to_string())));
}

#[test]
fn modifiers_subtypes_and_ids() {
    let modifier = DamageModifier {
        colors: vec![PokeColor::Fire, PokeColor::Darkness],
        value: Some("-30".to_string()),
    };
    assert_eq!(
        damage_modifiers(&modifier),
        Some(vec![
            record(&[("type", "Fire"), ("value", "-30")]),
            record(&[("type", "Darkness"), ("value", "-30")]),
        ])
    );
    assert_eq!(damage_modifiers(&DamageModifier { colors: vec![], value: Some("x".into()) }), Some(vec![]));
    assert_eq!(retreat_cost(0), Vec::<String>::new());
    assert_eq!(retreat_cost(3), vec!["Colorless"; 3]);

    let mut kinds = dragonair().type_evolves_is;
    kinds.pkmn_subtype = Some(PkmnSubtype::Item);
    kinds.pkmn_subsubtype = Some(PkmnSubSubType::TechnicalMachine);
    kinds.is = vec![PtcgTag::TagTeam, PtcgTag::GX];
    assert_eq!(
        subtypes_of(&kinds),
        Some(vec![
            "Item".to_string(),
            "Technical Machine".to_string(),
            "TAG TEAM".to_string(),
            "GX".to_string(),
            "Stage 1".to_string()
        ])
    );
    kinds.pkmn_subtype = None;
    kinds.is = vec![];
    kinds.stage = None;
    assert_eq!(subtypes_of(&kinds), None);

    assert_eq!(card_id(&Some("SVP".to_string()), &SetNumber::Num(32)), "svp-32");
    assert_eq!(card_id(&None, &SetNumber::Str("H1".to_string())), "unk-H1");
    assert_eq!(card_id(&Some("XY".to_string()), &SetNumber::Num(-7)), "xy--7");
}

#[test]
fn set_numbers_are_numbers_where_they_can_be() {
    assert_eq!(SetNumber::from_str("149"), Ok(SetNumber::Num(149)));
    assert_eq!(SetNumber::from_str("-3"), Ok(SetNumber::Num(-3)));
    assert_eq!(SetNumber::from_str("SM162a"), Ok(SetNumber::Str("SM162a".to_string())));
    assert_eq!(SetNumber::from_str(""), Ok(SetNumber::Str(String::new())));
    assert_eq!(SetNumber::from_str("99999999999"), Ok(SetNumber::Str("99999999999".to_string())));
}

#[test]
fn text_is_cleaned() {
    let parts = vec!["  Pok&eacute;mon ".to_string(), "&amp; “friends” don’t ".to_string()];
    assert_eq!(clean_text(&parts), "Pokémon & \"friends\" don't");
    assert_eq!(clean_text(&vec![]), "");
    assert_eq!(clean_text(&vec![" \t\n".to_string()]), "");
    assert_eq!(clean_text(&vec!["a".to_string(), "b".to_string()]), "ab");
}

#[test]
fn numbers_are_read_between_other_characters() {
    assert_eq!(number_in("90 HP"), Ok(90));
    assert_eq!(number_in("/236"), Ok(236));
    assert_eq!(number_in("#32"), Ok(32));
    assert_eq!(number_in("HP"), Err(NumberError::NotANumber));
    assert_eq!(number_in("1 of 2"), Err(NumberError::NotANumber));
    assert_eq!(number_in(""), Err(NumberError::NotANumber));
}

#[test]
fn name_and_damage_are_read_from_one_line() {
    assert_eq!(
        name_and_damage("Twister : 30"),
        Ok(("Twister".to_string(), Some("30".to_string())))
    );
    assert_eq!(name_and_damage("Poison Breath"), Ok(("Poison Breath".to_string(), None)));
    assert_eq!(
        name_and_damage("Angry Grudge : 20×"),
        Ok(("Angry Grudge".to_string(), Some("20×".to_string())))
    );
    assert_eq!(
        name_and_damage("Miraculous Duo-GX : 200  "),
        Ok(("Miraculous Duo-GX".to_string(), Some("200".to_string())))
    );
    assert_eq!(name_and_damage("two\nlines"), Err(TextError::NoMatch));
}

#[test]
fn parse_evolves_text() {
    let parsed = Evolves::from_text(
        "Evolves from Tinkatink and into Tinkaton ex or Tinkaton",
    );
    assert_eq!(
        parsed,
        Ok(Evolves {
            from: vec!["Tinkatink".to_string()],
            to: vec!["Tinkaton ex".to_string(), "Tinkaton".to_string()],
        })
    );
    assert_eq!(
        Evolves::from_text("Evolves from Dratini and into Dragonite, Dragonite-GX, or Dragonite ex"),
        Ok(Evolves {
            from: vec!["Dratini".to_string()],
            to: vec!["Dragonite".to_string(), "Dragonite-GX".to_string(), "Dragonite ex".to_string()],
        })
    );
    assert_eq!(
        Evolves::from_text("Put onto Salamence"),
        Ok(Evolves { from: vec!["Salamence".to_string()], to: vec![] })
    );
    assert_eq!(
        Evolves::from_text("Evolves into Riemann"),
        Ok(Evolves { from: vec![], to: vec!["Riemann".to_string()] })
    );
    assert_eq!(Evolves::from_text("nothing of the kind\n"), Err(TextError::NoMatch));
    assert_eq!(
        Evolves::from_groups(None, None, None),
        Ok(Evolves { from: vec![], to: vec![] })
    );
    assert_eq!(
        split_names("Scizor, Scizor-GX, […] Kleavor, Dark Scizor, or Scizor ex"),
        Ok(vec![
            "Scizor".to_string(),
            "Scizor-GX".to_string(),
            "Kleavor".to_string(),
            "Dark Scizor".to_string(),
            "Scizor ex".to_string()
        ])
    );
}

#[test]
fn set_names_are_read_with_their_codes() {
    assert_eq!(
        set_name_and_code("Unified Minds (UNM)"),
        Ok(("Unified Minds".to_string(), Some("UNM".to_string())))
    );
    assert_eq!(set_name_and_code("Base Set"), Ok(("Base Set".to_string(), None)));
    assert_eq!(
        set_name_and_code("Promos (Black & White) (BWP)"),
        Ok(("Promos".to_string(), Some("Black & White) (BWP".to_string())))
    );
}

#[test]
fn strip_drops_what_is_not_compared() {
    let mut card = Card::try_from(dragonair()).unwrap();
    card.images = record(&[("small", "a.png")]);
    card.legalities = record(&[("standard", "Legal")]);
    card.national_pokedex_numbers = Some(vec![148]);
    card.strip();
    assert!(card.images.is_empty());
    assert!(card.legalities.is_empty());
    assert_eq!(card.national_pokedex_numbers, None);
    assert_eq!(card.name, "Dragonair");
    assert_eq!(card.id, "sm11-149");
}

#[test]
fn small_texts_are_read() {
    assert_eq!(tag_in_address("https://pkmncards.com/is/tag-team/"), "tag-team");
    assert_eq!(tag_in_address("https://pkmncards.com/is/ex-%e2%86%91/"), "ex-%e2%86%91");
    assert_eq!(tag_in_address("gx//"), "gx");
    assert_eq!(tag_in_address("other/is/v"), "other/is/v");
    assert_eq!(
        tag_in_address("https://pkmncards.com/is/https://pkmncards.com/is/v"),
        "v"
    );

    assert_eq!(level_in("LV.45"), Some("45".to_string()));
    assert_eq!(level_in("LV.X"), Some("X".to_string()));
    assert_eq!(level_in("LV."), Some(String::new()));
    assert_eq!(level_in("Level 45"), None);
    assert_eq!(level_in("lv.45"), None);

    assert_eq!(purpose_in("TAG TEAM rule:"), "TAG TEAM");
    assert_eq!(purpose_in("  Pokémon V rule: "), "Pokémon V");
    assert_eq!(purpose_in("· TAG TEAM "), "· TAG TEAM");
    assert_eq!(purpose_in("rule:rule:"), "");

    assert_eq!(name_line(" ⇢ Perfection"), "Perfection");
    assert_eq!(name_line("{+} → Miraculous Duo-GX : 200 "), "Miraculous Duo-GX : 200");
    assert_eq!(name_line("Twister"), "Twister");
    assert_eq!(name_line(" → "), "");

    assert_eq!(retreat_in(&Some("2".to_string())), Ok(2));
    assert_eq!(retreat_in(&Some("+3".to_string())), Ok(3));
    assert_eq!(retreat_in(&None), Ok(0));
    assert_eq!(retreat_in(&Some("two".to_string())), Err(TextError::NoMatch));
    assert_eq!(retreat_in(&Some("-1".to_string())), Err(TextError::NoMatch));
    assert_eq!(retreat_in(&Some(String::new())), Err(TextError::NoMatch));
}
