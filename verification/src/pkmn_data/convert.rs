//! How what a card page says of a card becomes a card of the dataset.

use crate::json::{Json, JsonNumber, JsonView};
use crate::pattern::texts_view;
use crate::pkmn_data::card::{
    option_view, CardText, DamageModifier, EnergyColor, PokeColor, Rule, Rules, SetNumber,
    TextInfo, TypeEvolvesIs,
};
use crate::ptcgio_data::{Card, JsonRecord, Record};
use crate::text::{decimal, decimal_i32, lowercase, lowercased, same_text};
use vstd::prelude::*;
use vstd::string::StringExecFns;

verus! {

/// What a record holds.
pub open spec fn record_view(record: Seq<(String, String)>) -> Seq<(Seq<char>, Seq<char>)> {
    record.map_values(|entry: (String, String)| (entry.0@, entry.1@))
}

/// What a list of records holds.
pub open spec fn records_view(records: Seq<Record>) -> Seq<Seq<(Seq<char>, Seq<char>)>> {
    records.map_values(|record: Record| record_view(record@))
}

/// The record of the ability that a paragraph holds, if it holds one.
pub open spec fn ability_record_of(info: &TextInfo) -> Option<Seq<(Seq<char>, Seq<char>)>> {
    match (info.ability_type_name(), info.ability_parts()) {
        (Some(kind), Some((name, text))) => Some(
            seq![("name"@, name), ("text"@, text), ("type"@, kind)],
        ),
        _ => None,
    }
}

/// The records of the abilities that the paragraphs hold, in the order of
/// the paragraphs.
pub open spec fn ability_records_of(infos: Seq<TextInfo>) -> Seq<Seq<(Seq<char>, Seq<char>)>>
    decreases infos.len(),
{
    if infos.len() == 0 {
        Seq::empty()
    } else {
        match ability_record_of(&infos.last()) {
            Some(record) => ability_records_of(infos.drop_last()).push(record),
            None => ability_records_of(infos.drop_last()),
        }
    }
}

/// The record of the ability that `info` holds: its name, its text and its
/// kind.
pub fn ability_record(info: &TextInfo) -> (res: Option<Record>)
    ensures
        match res {
            Some(record) => ability_record_of(info) == Some(record_view(record@)),
            None => ability_record_of(info) is None,
        },
{
    match info.get_ability() {
        Ok((kind, name, text)) => {
            let mut record: Record = Vec::new();
            record.push(("name".to_owned(), name.0));
            record.push(("text".to_owned(), text.0));
            record.push(("type".to_owned(), kind.0));
            assert(record_view(record@) =~= seq![
                ("name"@, name.0@),
                ("text"@, text.0@),
                ("type"@, kind.0@),
            ]);
            Some(record)
        },
        Err(_) => None,
    }
}

/// The records of the abilities among the paragraphs.
pub fn abilities_of(infos: &Vec<TextInfo>) -> (res: Vec<Record>)
    ensures
        records_view(res@) == ability_records_of(infos@),
{
    let mut res: Vec<Record> = Vec::new();
    let mut at: usize = 0;
    while at < infos.len()
        invariant
            at <= infos@.len(),
            records_view(res@) == ability_records_of(infos@.subrange(0, at as int)),
        decreases infos@.len() - at,
    {
        let ghost before = records_view(res@);
        let found = ability_record(&infos[at]);
        proof {
            let next = infos@.subrange(0, at + 1);
            assert(next.drop_last() =~= infos@.subrange(0, at as int));
            assert(next.last() == infos@[at as int]);
        }
        match found {
            Some(record) => {
                res.push(record);
                assert(records_view(res@) =~= before.push(record_view(record@)));
            },
            None => {},
        }
        at = at + 1;
    }
    assert(infos@.subrange(0, at as int) =~= infos@);
    res
}

/// Whether a record is that of an ancient trait: its first entry named
/// `type` holds `Ancient Trait`.
pub open spec fn is_ancient_trait(record: Seq<(Seq<char>, Seq<char>)>) -> bool
    decreases record.len(),
{
    if record.len() == 0 {
        false
    } else if record[0].0 == "type"@ {
        record[0].1 == "Ancient Trait"@
    } else {
        is_ancient_trait(record.skip(1))
    }
}

/// A record without its entries named `type`.
pub open spec fn without_type(record: Seq<(Seq<char>, Seq<char>)>) -> Seq<(Seq<char>, Seq<char>)> {
    record.filter(|entry: (Seq<char>, Seq<char>)| entry.0 != "type"@)
}

/// Returns whether `record` is that of an ancient trait.
pub fn holds_ancient_trait(record: &Record) -> (res: bool)
    ensures
        res == is_ancient_trait(record_view(record@)),
{
    let mut at: usize = 0;
    assert(record_view(record@).skip(0) =~= record_view(record@));
    while at < record.len()
        invariant
            at <= record@.len(),
            is_ancient_trait(record_view(record@)) == is_ancient_trait(
                record_view(record@).skip(at as int),
            ),
        decreases record@.len() - at,
    {
        let ghost rest = record_view(record@).skip(at as int);
        assert(rest[0] == record_view(record@)[at as int]);
        assert(rest.skip(1) =~= record_view(record@).skip(at + 1));
        if same_text(record[at].0.as_str(), "type") {
            return same_text(record[at].1.as_str(), "Ancient Trait");
        }
        at = at + 1;
    }
    false
}

/// Copies a record without its entries named `type`.
pub fn drop_type(record: &Record) -> (res: Record)
    ensures
        record_view(res@) == without_type(record_view(record@)),
{
    let mut res: Record = Vec::new();
    let mut at: usize = 0;
    while at < record.len()
        invariant
            at <= record@.len(),
            record_view(res@) == without_type(record_view(record@).subrange(0, at as int)),
        decreases record@.len() - at,
    {
        let ghost before = record_view(res@);
        let ghost seen = record_view(record@).subrange(0, at as int);
        proof {
            reveal(Seq::filter);
            let next = record_view(record@).subrange(0, at + 1);
            assert(next.drop_last() =~= seen);
            assert(next.last() == record_view(record@)[at as int]);
        }
        if !same_text(record[at].0.as_str(), "type") {
            res.push((record[at].0.clone(), record[at].1.clone()));
            assert(record_view(res@) =~= before.push(record_view(record@)[at as int]));
        }
        at = at + 1;
    }
    assert(record_view(record@).subrange(0, at as int) =~= record_view(record@));
    res
}

/// Takes the first ancient trait out of the abilities and returns it
/// without its kind.
pub fn take_ancient_trait(abilities: &mut Vec<Record>) -> (res: Option<Record>)
    ensures
        match res {
            Some(ancient) => exists|place: int|
                {
                    &&& 0 <= place < old(abilities)@.len()
                    &&& is_ancient_trait(
                        #[trigger] records_view(old(abilities)@)[place],
                    )
                    &&& forall|before: int|
                        0 <= before < place ==> !is_ancient_trait(
                            #[trigger] records_view(old(abilities)@)[before],
                        )
                    &&& final(abilities)@ == old(abilities)@.remove(place)
                    &&& record_view(ancient@) == without_type(
                        records_view(old(abilities)@)[place],
                    )
                },
            None => final(abilities)@ == old(abilities)@ && forall|place: int|
                0 <= place < old(abilities)@.len() ==> !is_ancient_trait(
                    #[trigger] records_view(old(abilities)@)[place],
                ),
        },
{
    let mut at: usize = 0;
    while at < abilities.len()
        invariant
            at <= abilities@.len(),
            abilities@ == old(abilities)@,
            forall|before: int|
                0 <= before < at ==> !is_ancient_trait(
                    #[trigger] records_view(old(abilities)@)[before],
                ),
        decreases abilities@.len() - at,
    {
        if holds_ancient_trait(&abilities[at]) {
            let ancient = abilities.remove(at);
            let res = drop_type(&ancient);
            assert(records_view(old(abilities)@)[at as int] == record_view(ancient@));
            return Some(res);
        }
        assert(records_view(old(abilities)@)[at as int] == record_view(abilities@[at as int]@));
        at = at + 1;
    }
    None
}

/// What a rule is written out as: the text of a rule outside a rule box,
/// and for a rule of a rule box its purpose, ` rule: ` and its text.
pub open spec fn rule_text_of(rule: &Rule) -> Seq<char> {
    match rule {
        Rule::RuleBox { purpose, text } => purpose@ + " rule: "@ + text@,
        Rule::NonRuleBox { text, .. } => text@,
    }
}

/// The rules among the paragraphs, in the order of the paragraphs.
pub open spec fn paragraph_rules_of(infos: Seq<TextInfo>) -> Seq<Seq<char>>
    decreases infos.len(),
{
    if infos.len() == 0 {
        Seq::empty()
    } else {
        match infos.last() {
            TextInfo::Rule { rule } => paragraph_rules_of(infos.drop_last()).push(rule@),
            _ => paragraph_rules_of(infos.drop_last()),
        }
    }
}

/// The rules of a card: the printed rules, then the rules among the
/// paragraphs. A card without printed rules has none.
pub open spec fn rules_text_of(rules: Option<Rules>, infos: Seq<TextInfo>) -> Option<Seq<Seq<char>>> {
    match rules {
        Some(rules) => Some(
            rules.rules@.map_values(|rule: Rule| rule_text_of(&rule)) + paragraph_rules_of(infos),
        ),
        None => None,
    }
}

/// The rules of a card, written out.
pub fn rules_of(rules: &Option<Rules>, infos: &Vec<TextInfo>) -> (res: Option<Vec<String>>)
    ensures
        match res {
            Some(texts) => rules_text_of(*rules, infos@) == Some(texts_view(texts@)),
            None => rules_text_of(*rules, infos@) is None,
        },
{
    let printed = match rules {
        Some(rules) => &rules.rules,
        None => {
            return None;
        },
    };
    let mut texts: Vec<String> = Vec::new();
    let mut at: usize = 0;
    while at < printed.len()
        invariant
            at <= printed@.len(),
            texts_view(texts@) == printed@.subrange(0, at as int).map_values(
                |rule: Rule| rule_text_of(&rule),
            ),
        decreases printed@.len() - at,
    {
        let ghost before = texts_view(texts@);
        let text = match &printed[at] {
            Rule::RuleBox { purpose, text } => {
                let mut line = purpose.clone();
                line.append(" rule: ");
                line.append(text.as_str());
                line
            },
            Rule::NonRuleBox { text, .. } => text.clone(),
        };
        let ghost line = text@;
        assert(line == rule_text_of(&printed@[at as int]));
        texts.push(text);
        assert(texts_view(texts@) =~= before.push(line));
        assert(printed@.subrange(0, at + 1) =~= printed@.subrange(0, at as int).push(
            printed@[at as int],
        ));
        assert(texts_view(texts@) =~= printed@.subrange(0, at + 1).map_values(
            |rule: Rule| rule_text_of(&rule),
        ));
        at = at + 1;
    }
    assert(printed@.subrange(0, at as int) =~= printed@);
    let ghost first = texts_view(texts@);
    let mut at: usize = 0;
    while at < infos.len()
        invariant
            at <= infos@.len(),
            texts_view(texts@) == first + paragraph_rules_of(infos@.subrange(0, at as int)),
        decreases infos@.len() - at,
    {
        let ghost before = texts_view(texts@);
        proof {
            let next = infos@.subrange(0, at + 1);
            assert(next.drop_last() =~= infos@.subrange(0, at as int));
            assert(next.last() == infos@[at as int]);
        }
        match &infos[at] {
            TextInfo::Rule { rule } => {
                texts.push(rule.clone());
                assert(texts_view(texts@) =~= before.push(rule@));
                assert(texts_view(texts@) =~= first + paragraph_rules_of(
                    infos@.subrange(0, at + 1),
                ));
            },
            _ => {},
        }
        at = at + 1;
    }
    assert(infos@.subrange(0, at as int) =~= infos@);
    Some(texts)
}

/// What a record of JSON values holds.
pub open spec fn json_record_view(record: Seq<(String, Json)>) -> Seq<(Seq<char>, JsonView)> {
    record.map_values(|entry: (String, Json)| (entry.0@, entry.1@))
}

/// What a list of records of JSON values holds.
pub open spec fn json_records_view(records: Seq<JsonRecord>) -> Seq<Seq<(Seq<char>, JsonView)>> {
    records.map_values(|record: JsonRecord| json_record_view(record@))
}

/// The names of the colors of a cost, as JSON strings.
pub open spec fn cost_view(cost: Seq<EnergyColor>) -> Seq<JsonView> {
    cost.map_values(|color: EnergyColor| JsonView::String(color.name()))
}

/// The record of the attack that a paragraph holds, if it holds one: the
/// number of energies of its cost, the colors of its cost, its damage or an
/// empty text, its name and its text.
pub open spec fn attack_record_of(info: &TextInfo) -> Option<Seq<(Seq<char>, JsonView)>> {
    match info {
        TextInfo::Attack { cost, name, damage, text } => Some(
            seq![
                ("convertedEnergyCost"@, JsonView::Number(JsonNumber::PosInt(cost@.len() as u64))),
                ("cost"@, JsonView::Array(cost_view(cost@))),
                (
                    "damage"@,
                    JsonView::String(
                        match damage {
                            Some(amount) => amount@,
                            None => Seq::empty(),
                        },
                    ),
                ),
                ("name"@, JsonView::String(name@)),
                ("text"@, JsonView::String(text@)),
            ],
        ),
        _ => None,
    }
}

/// The records of the attacks among the paragraphs, in the order of the
/// paragraphs.
pub open spec fn attack_records_of(infos: Seq<TextInfo>) -> Seq<Seq<(Seq<char>, JsonView)>>
    decreases infos.len(),
{
    if infos.len() == 0 {
        Seq::empty()
    } else {
        match attack_record_of(&infos.last()) {
            Some(record) => attack_records_of(infos.drop_last()).push(record),
            None => attack_records_of(infos.drop_last()),
        }
    }
}

/// The record of the attack that `info` holds.
pub fn attack_record(info: &TextInfo) -> (res: Option<JsonRecord>)
    ensures
        match res {
            Some(record) => attack_record_of(info) == Some(json_record_view(record@)),
            None => attack_record_of(info) is None,
        },
{
    match info {
        TextInfo::Attack { cost, name, damage, text } => {
            let mut colors: Vec<Json> = Vec::new();
            let mut at: usize = 0;
            while at < cost.len()
                invariant
                    at <= cost@.len(),
                    Json::array_view(colors@) == cost_view(cost@.subrange(0, at as int)),
                decreases cost@.len() - at,
            {
                let ghost before = Json::array_view(colors@);
                let color = Json::String(cost[at].to_string());
                assert(color@ == JsonView::String(cost@[at as int].name()));
                colors.push(color);
                assert(Json::array_view(colors@) =~= before.push(color@));
                assert(cost@.subrange(0, at + 1) =~= cost@.subrange(0, at as int).push(
                    cost@[at as int],
                ));
                assert(Json::array_view(colors@) =~= cost_view(cost@.subrange(0, at + 1)));
                at = at + 1;
            }
            assert(cost@.subrange(0, at as int) =~= cost@);
            let amount = match damage {
                Some(amount) => amount.clone(),
                None => String::new(),
            };
            let colors = Json::Array(colors);
            proof {
                colors.lemma_view_unfolds();
            }
            let mut record: JsonRecord = Vec::new();
            record.push(
                ("convertedEnergyCost".to_owned(), Json::Number(JsonNumber::PosInt(cost.len() as u64))),
            );
            record.push(("cost".to_owned(), colors));
            record.push(("damage".to_owned(), Json::String(amount)));
            record.push(("name".to_owned(), Json::String(name.clone())));
            record.push(("text".to_owned(), Json::String(text.clone())));
            assert(json_record_view(record@) =~= attack_record_of(info)->0);
            Some(record)
        },
        _ => None,
    }
}

/// The records of the attacks among the paragraphs.
pub fn attacks_of(infos: &Vec<TextInfo>) -> (res: Vec<JsonRecord>)
    ensures
        json_records_view(res@) == attack_records_of(infos@),
{
    let mut res: Vec<JsonRecord> = Vec::new();
    let mut at: usize = 0;
    while at < infos.len()
        invariant
            at <= infos@.len(),
            json_records_view(res@) == attack_records_of(infos@.subrange(0, at as int)),
        decreases infos@.len() - at,
    {
        let ghost before = json_records_view(res@);
        let found = attack_record(&infos[at]);
        proof {
            let next = infos@.subrange(0, at + 1);
            assert(next.drop_last() =~= infos@.subrange(0, at as int));
            assert(next.last() == infos@[at as int]);
        }
        match found {
            Some(record) => {
                res.push(record);
                assert(json_records_view(res@) =~= before.push(json_record_view(record@)));
            },
            None => {},
        }
        at = at + 1;
    }
    assert(infos@.subrange(0, at as int) =~= infos@);
    res
}

/// The records of a weakness or resistance: for every color its name and
/// the modifier. Without a modifier there is none.
pub open spec fn modifier_records_of(modifier: &DamageModifier) -> Option<
    Seq<Seq<(Seq<char>, Seq<char>)>>,
> {
    match modifier.value {
        Some(value) => Some(
            modifier.colors@.map_values(
                |color: PokeColor| seq![("type"@, color.name()), ("value"@, value@)],
            ),
        ),
        None => None,
    }
}

/// The records of a weakness or resistance.
pub fn damage_modifiers(modifier: &DamageModifier) -> (res: Option<Vec<Record>>)
    ensures
        match res {
            Some(records) => modifier_records_of(modifier) == Some(records_view(records@)),
            None => modifier_records_of(modifier) is None,
        },
{
    let value = match &modifier.value {
        Some(value) => value,
        None => {
            return None;
        },
    };
    let mut records: Vec<Record> = Vec::new();
    let mut at: usize = 0;
    while at < modifier.colors.len()
        invariant
            at <= modifier.colors@.len(),
            modifier.value == Some(*value),
            records_view(records@) == modifier.colors@.subrange(0, at as int).map_values(
                |color: PokeColor| seq![("type"@, color.name()), ("value"@, value@)],
            ),
        decreases modifier.colors@.len() - at,
    {
        let mut record: Record = Vec::new();
        record.push(("type".to_owned(), modifier.colors[at].to_string()));
        record.push(("value".to_owned(), value.clone()));
        assert(record_view(record@) =~= seq![
            ("type"@, modifier.colors@[at as int].name()),
            ("value"@, value@),
        ]);
        let ghost before = records_view(records@);
        records.push(record);
        assert(records_view(records@) =~= before.push(record_view(record@)));
        assert(modifier.colors@.subrange(0, at + 1) =~= modifier.colors@.subrange(
            0,
            at as int,
        ).push(modifier.colors@[at as int]));
        assert(records_view(records@) =~= modifier.colors@.subrange(0, at + 1).map_values(
            |color: PokeColor| seq![("type"@, color.name()), ("value"@, value@)],
        ));
        at = at + 1;
    }
    assert(modifier.colors@.subrange(0, at as int) =~= modifier.colors@);
    Some(records)
}

/// The retreat cost of a card: as many colorless energies as it counts.
pub fn retreat_cost(count: usize) -> (res: Vec<String>)
    ensures
        res@.len() == count,
        forall|i: int| 0 <= i < count ==> (#[trigger] res@[i])@ == "Colorless"@,
{
    let mut res: Vec<String> = Vec::new();
    let mut at: usize = 0;
    while at < count
        invariant
            at <= count,
            res@.len() == at,
            forall|i: int| 0 <= i < at ==> (#[trigger] res@[i])@ == "Colorless"@,
        decreases count - at,
    {
        res.push("Colorless".to_owned());
        at = at + 1;
    }
    res
}

/// The subtypes of a card: its subtype and, with it, its finer subtype,
/// then its tags, then its stage.
pub open spec fn subtype_names_of(kinds: &TypeEvolvesIs) -> Seq<Seq<char>> {
    (match kinds.pkmn_subtype {
        Some(subtype) => match kinds.pkmn_subsubtype {
            Some(finer) => seq![subtype.name(), finer.name()],
            None => seq![subtype.name()],
        },
        None => Seq::empty(),
    }) + kinds.is@.map_values(|tag: crate::pkmn_data::card::PtcgTag| tag.name()) + (match kinds.stage {
        Some(stage) => seq![stage.name()],
        None => Seq::empty(),
    })
}

/// The subtypes of a card, or `None` where it has none.
pub fn subtypes_of(kinds: &TypeEvolvesIs) -> (res: Option<Vec<String>>)
    ensures
        match res {
            Some(names) => texts_view(names@) == subtype_names_of(kinds) && names@.len() > 0,
            None => subtype_names_of(kinds).len() == 0,
        },
{
    let mut names: Vec<String> = Vec::new();
    if let Some(subtype) = &kinds.pkmn_subtype {
        names.push(subtype.to_string());
        if let Some(finer) = &kinds.pkmn_subsubtype {
            names.push(finer.to_string());
        }
    }
    let ghost first = texts_view(names@);
    let mut at: usize = 0;
    while at < kinds.is.len()
        invariant
            at <= kinds.is@.len(),
            texts_view(names@) == first + kinds.is@.subrange(0, at as int).map_values(
                |tag: crate::pkmn_data::card::PtcgTag| tag.name(),
            ),
        decreases kinds.is@.len() - at,
    {
        let ghost before = texts_view(names@);
        let name = kinds.is[at].to_string();
        let ghost added = name@;
        names.push(name);
        assert(texts_view(names@) =~= before.push(added));
        assert(kinds.is@.subrange(0, at + 1) =~= kinds.is@.subrange(0, at as int).push(
            kinds.is@[at as int],
        ));
        assert(texts_view(names@) =~= first + kinds.is@.subrange(0, at + 1).map_values(
            |tag: crate::pkmn_data::card::PtcgTag| tag.name(),
        ));
        at = at + 1;
    }
    assert(kinds.is@.subrange(0, at as int) =~= kinds.is@);
    let ghost second = texts_view(names@);
    if let Some(stage) = &kinds.stage {
        names.push(stage.to_string());
        assert(texts_view(names@) =~= second + seq![stage.name()]);
    } else {
        assert(texts_view(names@) =~= second + Seq::<Seq<char>>::empty());
    }
    assert(texts_view(names@) =~= subtype_names_of(kinds));
    if names.is_empty() {
        None
    } else {
        Some(names)
    }
}

/// The number of a card as a text.
pub open spec fn number_text_of(number: &SetNumber) -> Seq<char> {
    match number {
        SetNumber::Num(number) => decimal(*number as int),
        SetNumber::Str(text) => text@,
    }
}

/// Writes the number of a card out.
pub fn number_text(number: &SetNumber) -> (res: String)
    ensures
        res@ == number_text_of(number),
{
    match number {
        SetNumber::Num(number) => decimal_i32(*number),
        SetNumber::Str(text) => text.clone(),
    }
}

/// The identifier of a card: the code of its set in lower case, or `unk`,
/// then a hyphen and its number.
pub open spec fn card_id_of(code: Option<String>, number: &SetNumber) -> Seq<char> {
    (match code {
        Some(code) => lowercased(code@),
        None => "unk"@,
    }) + "-"@ + number_text_of(number)
}

/// The identifier of a card.
pub fn card_id(code: &Option<String>, number: &SetNumber) -> (res: String)
    ensures
        res@ == card_id_of(*code, number),
{
    let mut id = match code {
        Some(code) => lowercase(code.as_str()),
        None => "unk".to_owned(),
    };
    id.append("-");
    let number = number_text(number);
    id.append(number.as_str());
    id
}

/// What a list of colors holds: their names.
pub open spec fn color_names_of(colors: Seq<PokeColor>) -> Seq<Seq<char>> {
    colors.map_values(|color: PokeColor| color.name())
}

/// The names of the colors.
pub fn color_names(colors: &Vec<PokeColor>) -> (res: Vec<String>)
    ensures
        texts_view(res@) == color_names_of(colors@),
{
    let mut res: Vec<String> = Vec::new();
    let mut at: usize = 0;
    while at < colors.len()
        invariant
            at <= colors@.len(),
            texts_view(res@) == color_names_of(colors@.subrange(0, at as int)),
        decreases colors@.len() - at,
    {
        let ghost before = texts_view(res@);
        let name = colors[at].to_string();
        let ghost added = name@;
        res.push(name);
        assert(texts_view(res@) =~= before.push(added));
        assert(colors@.subrange(0, at + 1) =~= colors@.subrange(0, at as int).push(
            colors@[at as int],
        ));
        assert(texts_view(res@) =~= color_names_of(colors@.subrange(0, at + 1)));
        at = at + 1;
    }
    assert(colors@.subrange(0, at as int) =~= colors@);
    res
}

/// Whether `abilities` and `ancient` are the abilities and the ancient
/// trait of a card with the paragraphs `infos`: the first ancient trait
/// among the abilities is taken out and loses its kind, and a card without
/// other abilities has none.
pub open spec fn abilities_split(
    infos: Seq<TextInfo>,
    abilities: Option<Vec<Record>>,
    ancient: Option<Record>,
) -> bool {
    let all = ability_records_of(infos);
    let rest = match abilities {
        Some(records) => records_view(records@),
        None => Seq::empty(),
    };
    &&& abilities matches Some(records) ==> records@.len() > 0
    &&& match ancient {
        Some(found) => exists|place: int|
            {
                &&& 0 <= place < all.len()
                &&& is_ancient_trait(#[trigger] all[place])
                &&& forall|before: int| 0 <= before < place ==> !is_ancient_trait(#[trigger] all[before])
                &&& rest == all.remove(place)
                &&& record_view(found@) == without_type(all[place])
            },
        None => rest == all && forall|place: int|
            0 <= place < all.len() ==> !is_ancient_trait(#[trigger] all[place]),
    }
}

impl Card {
    /// Makes the card of the dataset from what a card page says of it.
    pub fn try_from(value: CardText) -> (res: Result<Card, crate::pkmn_data::card::TextError>)
        ensures
            res matches Ok(card) && {
                &&& card.id@ == card_id_of(
                    value.release_meta.set_series_code,
                    &value.release_meta.set_number,
                )
                &&& card.name == value.name_hp_color.name
                &&& card.supertype@ == value.type_evolves_is.pkmn_type.name()
                &&& match card.subtypes {
                    Some(names) => texts_view(names@) == subtype_names_of(&value.type_evolves_is)
                        && names@.len() > 0,
                    None => subtype_names_of(&value.type_evolves_is).len() == 0,
                }
                &&& card.level == value.illus.level
                &&& option_view(card.hp) == match value.name_hp_color.hp {
                    Some(hp) => Some(decimal(hp as int)),
                    None => None,
                }
                &&& match card.types {
                    Some(names) => value.name_hp_color.color matches Some(colors) && texts_view(
                        names@,
                    ) == color_names_of(colors@),
                    None => value.name_hp_color.color is None,
                }
                &&& match value.type_evolves_is.evolves {
                    Some(evolves) => card.evolves_to == Some(evolves.to) && card.evolves_from == (
                    if evolves.from@.len() > 0 {
                        Some(evolves.from@[0])
                    } else {
                        None
                    }),
                    None => card.evolves_to is None && card.evolves_from is None,
                }
                &&& abilities_split(
                    value.all_text_info.text_infos@,
                    card.abilities,
                    card.ancient_trait,
                )
                &&& match card.rules {
                    Some(texts) => rules_text_of(value.rules, value.all_text_info.text_infos@)
                        == Some(texts_view(texts@)),
                    None => rules_text_of(value.rules, value.all_text_info.text_infos@) is None,
                }
                &&& match card.attacks {
                    Some(records) => json_records_view(records@) == attack_records_of(
                        value.all_text_info.text_infos@,
                    ) && records@.len() > 0,
                    None => attack_records_of(value.all_text_info.text_infos@).len() == 0,
                }
                &&& match value.weak_resist_retreat {
                    Some(modifiers) => {
                        &&& match card.weaknesses {
                            Some(records) => modifier_records_of(&modifiers.weak) == Some(
                                records_view(records@),
                            ),
                            None => modifier_records_of(&modifiers.weak) is None,
                        }
                        &&& match card.resistances {
                            Some(records) => modifier_records_of(&modifiers.resist) == Some(
                                records_view(records@),
                            ),
                            None => modifier_records_of(&modifiers.resist) is None,
                        }
                        &&& card.converted_retreat_cost == Some(modifiers.retreat)
                        &&& card.retreat_cost matches Some(cost) && cost@.len()
                            == modifiers.retreat && forall|i: int|
                            0 <= i < cost@.len() ==> (#[trigger] cost@[i])@ == "Colorless"@
                    },
                    None => card.weaknesses is None && card.resistances is None
                        && card.retreat_cost is None && card.converted_retreat_cost is None,
                }
                &&& card.number@ == number_text_of(&value.release_meta.set_number)
                &&& card.artist == value.illus.illustrator
                &&& card.rarity == Some(value.release_meta.rarity)
                &&& card.flavor_text == value.flavor_text
                &&& card.national_pokedex_numbers is None
                &&& card.legalities@.len() == 0
                &&& card.images@.len() == 0
                &&& option_view(card.regulation_mark) == match value.mark_formats {
                    Some(mark_formats) => match mark_formats.mark {
                        Some(mark) => Some(mark.name()),
                        None => None,
                    },
                    None => None,
                }
            },
    {
        let mut abilities = abilities_of(&value.all_text_info.text_infos);
        let ghost all = abilities@;
        let ancient_trait = take_ancient_trait(&mut abilities);
        proof {
            if ancient_trait is Some {
                let place = choose|place: int|
                    {
                        &&& 0 <= place < all.len()
                        &&& is_ancient_trait(#[trigger] records_view(all)[place])
                        &&& forall|before: int|
                            0 <= before < place ==> !is_ancient_trait(
                                #[trigger] records_view(all)[before],
                            )
                        &&& abilities@ == all.remove(place)
                        &&& record_view(ancient_trait->0@) == without_type(
                            records_view(all)[place],
                        )
                    };
                assert(records_view(abilities@) =~= records_view(all).remove(place));
            } else {
                assert(records_view(abilities@) == records_view(all));
            }
        }

        let rules = rules_of(&value.rules, &value.all_text_info.text_infos);
        let attacks = attacks_of(&value.all_text_info.text_infos);

        let id = card_id(&value.release_meta.set_series_code, &value.release_meta.set_number);
        let number = number_text(&value.release_meta.set_number);
        let subtypes = subtypes_of(&value.type_evolves_is);
        let supertype = value.type_evolves_is.pkmn_type.to_string();
        let hp = match value.name_hp_color.hp {
            Some(hp) => Some(decimal_i32(hp)),
            None => None,
        };
        let types = match &value.name_hp_color.color {
            Some(colors) => Some(color_names(colors)),
            None => None,
        };
        let regulation_mark = match &value.mark_formats {
            Some(mark_formats) => match &mark_formats.mark {
                Some(mark) => Some(mark.to_string()),
                None => None,
            },
            None => None,
        };

        let (weaknesses, resistances, retreat, converted_retreat_cost) =
            match &value.weak_resist_retreat {
            None => (None, None, None, None),
            Some(modifiers) => {
                let weaknesses = damage_modifiers(&modifiers.weak);
                let resistances = damage_modifiers(&modifiers.resist);
                let retreat = retreat_cost(modifiers.retreat);
                let cost = retreat.len();
                (weaknesses, resistances, Some(retreat), Some(cost))
            },
        };

        let (from, to) = match value.type_evolves_is.evolves {
            None => (None, None),
            Some(evolves) => {
                let first = if evolves.from.len() > 0 {
                    Some(evolves.from[0].clone())
                } else {
                    None
                };
                (first, Some(evolves.to))
            },
        };

        let legalities: Record = Vec::new();
        let images: Record = Vec::new();
        let ghost rest = records_view(abilities@);
        let card_abilities = if !abilities.is_empty() {
            Some(abilities)
        } else {
            assert(rest =~= Seq::empty());
            None
        };
        proof {
            let records = ability_records_of(value.all_text_info.text_infos@);
            assert(records == records_view(all));
            if ancient_trait is Some {
                let place = choose|place: int|
                    {
                        &&& 0 <= place < all.len()
                        &&& is_ancient_trait(#[trigger] records_view(all)[place])
                        &&& forall|before: int|
                            0 <= before < place ==> !is_ancient_trait(
                                #[trigger] records_view(all)[before],
                            )
                        &&& rest == records_view(all).remove(place)
                        &&& record_view(ancient_trait->0@) == without_type(
                            records_view(all)[place],
                        )
                    };
                assert(is_ancient_trait(records[place]));
            }
            assert(abilities_split(
                value.all_text_info.text_infos@,
                card_abilities,
                ancient_trait,
            ));
        }
        let has_attacks = !attacks.is_empty();

        Ok(
            Card {
                id,
                name: value.name_hp_color.name,
                supertype,
                subtypes,
                level: value.illus.level,
                hp,
                types,
                evolves_from: from,
                evolves_to: to,
                abilities: card_abilities,
                rules,
                attacks: if has_attacks {
                    Some(attacks)
                } else {
                    None
                },
                resistances,
                weaknesses,
                retreat_cost: retreat,
                converted_retreat_cost,
                number,
                artist: value.illus.illustrator,
                rarity: Some(value.release_meta.rarity),
                flavor_text: value.flavor_text,
                national_pokedex_numbers: None,
                legalities,
                images,
                ancient_trait,
                regulation_mark,
            },
        )
    }
}

} // verus!
