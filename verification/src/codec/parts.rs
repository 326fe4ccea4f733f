use crate::codec::choices::{
    element_form, lemma_parse_element, lemma_parse_rarity, lemma_parse_stat, parse_element,
    parse_rarity, parse_stat, put_element, put_rarity, put_stat, rarity_form, stat_form,
    take_element, take_rarity, take_stat,
};
use crate::codec::wire::{
    byte_form, holds_at, lemma_holds_at_split, lemma_parse_byte, lemma_parse_text,
    lemma_parse_u32, lemma_parse_u64, parse_byte, parse_text, parse_u32, parse_u64, put_byte,
    put_text, put_u32, put_u64, read_agrees, take_byte, take_text, take_u32, take_u64, text_fits,
    text_form, u32_form, u64_form,
};
use crate::model::{
    slot_view, Equipment, EquipmentView, Item, ItemView, Skill, SkillView, Stats, TrainingSession,
};
use vstd::prelude::*;

verus! {

/// Where the next field starts after one that was parsed; no place where it was not.
pub open spec fn end_of<V>(parsed: Option<(V, int)>) -> int {
    match parsed {
        Some((_, next)) => next,
        None => -1,
    }
}

/// What was parsed, where something was.
pub open spec fn value_of<V>(parsed: Option<(V, int)>) -> V {
    parsed.unwrap().0
}

pub open spec fn stats_form(stats: Stats) -> Seq<u8> {
    u32_form(stats.strength) + (u32_form(stats.agility) + (u32_form(stats.intelligence) + (
    u32_form(stats.vitality) + u32_form(stats.luck))))
}

pub open spec fn parse_stats(bytes: Seq<u8>, at: int) -> Option<(Stats, int)> {
    let strength = parse_u32(bytes, at);
    let agility = parse_u32(bytes, end_of(strength));
    let intelligence = parse_u32(bytes, end_of(agility));
    let vitality = parse_u32(bytes, end_of(intelligence));
    let luck = parse_u32(bytes, end_of(vitality));
    if strength is Some && agility is Some && intelligence is Some && vitality is Some
        && luck is Some {
        Some(
            (
                Stats {
                    strength: value_of(strength),
                    agility: value_of(agility),
                    intelligence: value_of(intelligence),
                    vitality: value_of(vitality),
                    luck: value_of(luck),
                },
                end_of(luck),
            ),
        )
    } else {
        None
    }
}

pub proof fn lemma_parse_stats(bytes: Seq<u8>, at: int, stats: Stats)
    requires
        holds_at(bytes, at, stats_form(stats)),
    ensures
        stats_form(stats).len() == 20,
        parse_stats(bytes, at) == Some((stats, at + 20)),
{
    let after_vitality = u32_form(stats.luck);
    let after_intelligence = u32_form(stats.vitality) + after_vitality;
    let after_agility = u32_form(stats.intelligence) + after_intelligence;
    let after_strength = u32_form(stats.agility) + after_agility;
    lemma_holds_at_split(bytes, at, u32_form(stats.strength), after_strength);
    lemma_parse_u32(bytes, at, stats.strength);
    lemma_holds_at_split(bytes, at + 4, u32_form(stats.agility), after_agility);
    lemma_parse_u32(bytes, at + 4, stats.agility);
    lemma_holds_at_split(bytes, at + 8, u32_form(stats.intelligence), after_intelligence);
    lemma_parse_u32(bytes, at + 8, stats.intelligence);
    lemma_holds_at_split(bytes, at + 12, u32_form(stats.vitality), after_vitality);
    lemma_parse_u32(bytes, at + 12, stats.vitality);
    lemma_parse_u32(bytes, at + 16, stats.luck);
}

pub fn put_stats(out: &mut Vec<u8>, stats: &Stats)
    ensures
        final(out)@ == old(out)@ + stats_form(*stats),
{
    put_u32(out, stats.strength);
    put_u32(out, stats.agility);
    put_u32(out, stats.intelligence);
    put_u32(out, stats.vitality);
    put_u32(out, stats.luck);
    assert(out@ =~= old(out)@ + stats_form(*stats));
}

pub fn take_stats(bytes: &[u8], at: usize) -> (got: Option<(Stats, usize)>)
    requires
        at <= bytes@.len(),
    ensures
        read_agrees(got, parse_stats(bytes@, at as int), bytes@.len() as int),
{
    let (strength, next) = take_u32(bytes, at)?;
    let (agility, next) = take_u32(bytes, next)?;
    let (intelligence, next) = take_u32(bytes, next)?;
    let (vitality, next) = take_u32(bytes, next)?;
    let (luck, next) = take_u32(bytes, next)?;
    Some((Stats { strength, agility, intelligence, vitality, luck }, next))
}

pub open spec fn session_form(session: TrainingSession) -> Seq<u8> {
    u64_form(session.timestamp) + (stat_form(session.stat_trained) + u32_form(session.gain))
}

pub open spec fn parse_session(bytes: Seq<u8>, at: int) -> Option<(TrainingSession, int)> {
    let timestamp = parse_u64(bytes, at);
    let stat_trained = parse_stat(bytes, end_of(timestamp));
    let gain = parse_u32(bytes, end_of(stat_trained));
    if timestamp is Some && stat_trained is Some && gain is Some {
        Some(
            (
                TrainingSession {
                    timestamp: value_of(timestamp),
                    stat_trained: value_of(stat_trained),
                    gain: value_of(gain),
                },
                end_of(gain),
            ),
        )
    } else {
        None
    }
}

pub proof fn lemma_parse_session(bytes: Seq<u8>, at: int, session: TrainingSession)
    requires
        holds_at(bytes, at, session_form(session)),
    ensures
        session_form(session).len() == 13,
        parse_session(bytes, at) == Some((session, at + 13)),
{
    let after_stat = u32_form(session.gain);
    let after_timestamp = stat_form(session.stat_trained) + after_stat;
    lemma_holds_at_split(bytes, at, u64_form(session.timestamp), after_timestamp);
    lemma_parse_u64(bytes, at, session.timestamp);
    lemma_holds_at_split(bytes, at + 8, stat_form(session.stat_trained), after_stat);
    lemma_parse_stat(bytes, at + 8, session.stat_trained);
    lemma_parse_u32(bytes, at + 9, session.gain);
}

pub fn put_session(out: &mut Vec<u8>, session: &TrainingSession)
    ensures
        final(out)@ == old(out)@ + session_form(*session),
{
    put_u64(out, session.timestamp);
    put_stat(out, session.stat_trained);
    put_u32(out, session.gain);
    assert(out@ =~= old(out)@ + session_form(*session));
}

pub fn take_session(bytes: &[u8], at: usize) -> (got: Option<(TrainingSession, usize)>)
    requires
        at <= bytes@.len(),
    ensures
        read_agrees(got, parse_session(bytes@, at as int), bytes@.len() as int),
{
    let (timestamp, next) = take_u64(bytes, at)?;
    let (stat_trained, next) = take_stat(bytes, next)?;
    let (gain, next) = take_u32(bytes, next)?;
    Some((TrainingSession { timestamp, stat_trained, gain }, next))
}

pub open spec fn skill_form(skill: SkillView) -> Seq<u8> {
    u32_form(skill.id) + (text_form(skill.name) + (u32_form(skill.damage) + (u32_form(
        skill.cooldown,
    ) + (element_form(skill.element) + u32_form(skill.mastery_level)))))
}

pub open spec fn parse_skill(bytes: Seq<u8>, at: int) -> Option<(SkillView, int)> {
    let id = parse_u32(bytes, at);
    let name = parse_text(bytes, end_of(id));
    let damage = parse_u32(bytes, end_of(name));
    let cooldown = parse_u32(bytes, end_of(damage));
    let element = parse_element(bytes, end_of(cooldown));
    let mastery_level = parse_u32(bytes, end_of(element));
    if id is Some && name is Some && damage is Some && cooldown is Some && element is Some
        && mastery_level is Some {
        Some(
            (
                SkillView {
                    id: value_of(id),
                    name: value_of(name),
                    damage: value_of(damage),
                    cooldown: value_of(cooldown),
                    element: value_of(element),
                    mastery_level: value_of(mastery_level),
                },
                end_of(mastery_level),
            ),
        )
    } else {
        None
    }
}

pub proof fn lemma_parse_skill(bytes: Seq<u8>, at: int, skill: SkillView)
    requires
        text_fits(skill.name),
        holds_at(bytes, at, skill_form(skill)),
    ensures
        parse_skill(bytes, at) == Some((skill, at + skill_form(skill).len())),
{
    let after_element = u32_form(skill.mastery_level);
    let after_cooldown = element_form(skill.element) + after_element;
    let after_damage = u32_form(skill.cooldown) + after_cooldown;
    let after_name = u32_form(skill.damage) + after_damage;
    let after_id = text_form(skill.name) + after_name;
    lemma_holds_at_split(bytes, at, u32_form(skill.id), after_id);
    lemma_parse_u32(bytes, at, skill.id);
    let name_at = at + 4;
    lemma_holds_at_split(bytes, name_at, text_form(skill.name), after_name);
    lemma_parse_text(bytes, name_at, skill.name);
    let damage_at = name_at + text_form(skill.name).len();
    lemma_holds_at_split(bytes, damage_at, u32_form(skill.damage), after_damage);
    lemma_parse_u32(bytes, damage_at, skill.damage);
    lemma_holds_at_split(bytes, damage_at + 4, u32_form(skill.cooldown), after_cooldown);
    lemma_parse_u32(bytes, damage_at + 4, skill.cooldown);
    lemma_holds_at_split(bytes, damage_at + 8, element_form(skill.element), after_element);
    lemma_parse_element(bytes, damage_at + 8, skill.element);
    lemma_parse_u32(bytes, damage_at + 9, skill.mastery_level);
}

pub fn put_skill(out: &mut Vec<u8>, skill: &Skill)
    ensures
        final(out)@ == old(out)@ + skill_form(skill@),
        text_fits(skill@.name),
{
    put_u32(out, skill.id);
    put_text(out, &skill.name);
    put_u32(out, skill.damage);
    put_u32(out, skill.cooldown);
    put_element(out, skill.element);
    put_u32(out, skill.mastery_level);
    assert(out@ =~= old(out)@ + skill_form(skill@));
}

pub fn take_skill(bytes: &[u8], at: usize) -> (got: Option<(Skill, usize)>)
    requires
        at <= bytes@.len(),
    ensures
        match got {
            Some((skill, next)) => parse_skill(bytes@, at as int) == Some((skill@, next as int))
                && next <= bytes@.len(),
            None => parse_skill(bytes@, at as int) is None,
        },
{
    let (id, next) = take_u32(bytes, at)?;
    let (name, next) = take_text(bytes, next)?;
    let (damage, next) = take_u32(bytes, next)?;
    let (cooldown, next) = take_u32(bytes, next)?;
    let (element, next) = take_element(bytes, next)?;
    let (mastery_level, next) = take_u32(bytes, next)?;
    Some((Skill { id, name, damage, cooldown, element, mastery_level }, next))
}

pub open spec fn item_form(item: ItemView) -> Seq<u8> {
    u32_form(item.id) + (text_form(item.name) + (rarity_form(item.rarity) + (stats_form(
        item.stat_bonus,
    ) + u32_form(item.required_level))))
}

pub open spec fn parse_item(bytes: Seq<u8>, at: int) -> Option<(ItemView, int)> {
    let id = parse_u32(bytes, at);
    let name = parse_text(bytes, end_of(id));
    let rarity = parse_rarity(bytes, end_of(name));
    let stat_bonus = parse_stats(bytes, end_of(rarity));
    let required_level = parse_u32(bytes, end_of(stat_bonus));
    if id is Some && name is Some && rarity is Some && stat_bonus is Some
        && required_level is Some {
        Some(
            (
                ItemView {
                    id: value_of(id),
                    name: value_of(name),
                    rarity: value_of(rarity),
                    stat_bonus: value_of(stat_bonus),
                    required_level: value_of(required_level),
                },
                end_of(required_level),
            ),
        )
    } else {
        None
    }
}

pub proof fn lemma_parse_item(bytes: Seq<u8>, at: int, item: ItemView)
    requires
        text_fits(item.name),
        holds_at(bytes, at, item_form(item)),
    ensures
        parse_item(bytes, at) == Some((item, at + item_form(item).len())),
{
    let after_bonus = u32_form(item.required_level);
    let after_rarity = stats_form(item.stat_bonus) + after_bonus;
    let after_name = rarity_form(item.rarity) + after_rarity;
    let after_id = text_form(item.name) + after_name;
    lemma_holds_at_split(bytes, at, u32_form(item.id), after_id);
    lemma_parse_u32(bytes, at, item.id);
    let name_at = at + 4;
    lemma_holds_at_split(bytes, name_at, text_form(item.name), after_name);
    lemma_parse_text(bytes, name_at, item.name);
    let rarity_at = name_at + text_form(item.name).len();
    lemma_holds_at_split(bytes, rarity_at, rarity_form(item.rarity), after_rarity);
    lemma_parse_rarity(bytes, rarity_at, item.rarity);
    lemma_holds_at_split(bytes, rarity_at + 1, stats_form(item.stat_bonus), after_bonus);
    lemma_parse_stats(bytes, rarity_at + 1, item.stat_bonus);
    lemma_parse_u32(bytes, rarity_at + 21, item.required_level);
}

pub fn put_item(out: &mut Vec<u8>, item: &Item)
    ensures
        final(out)@ == old(out)@ + item_form(item@),
        text_fits(item@.name),
{
    put_u32(out, item.id);
    put_text(out, &item.name);
    put_rarity(out, item.rarity);
    put_stats(out, &item.stat_bonus);
    put_u32(out, item.required_level);
    assert(out@ =~= old(out)@ + item_form(item@));
}

pub fn take_item(bytes: &[u8], at: usize) -> (got: Option<(Item, usize)>)
    requires
        at <= bytes@.len(),
    ensures
        match got {
            Some((item, next)) => parse_item(bytes@, at as int) == Some((item@, next as int))
                && next <= bytes@.len(),
            None => parse_item(bytes@, at as int) is None,
        },
{
    let (id, next) = take_u32(bytes, at)?;
    let (name, next) = take_text(bytes, next)?;
    let (rarity, next) = take_rarity(bytes, next)?;
    let (stat_bonus, next) = take_stats(bytes, next)?;
    let (required_level, next) = take_u32(bytes, next)?;
    Some((Item { id, name, rarity, stat_bonus, required_level }, next))
}

/// An empty slot, or one whose item has a name that the format can hold.
pub open spec fn slot_fits(slot: Option<ItemView>) -> bool {
    match slot {
        Some(item) => text_fits(item.name),
        None => true,
    }
}

pub open spec fn slot_form(slot: Option<ItemView>) -> Seq<u8> {
    match slot {
        Some(item) => byte_form(1) + item_form(item),
        None => byte_form(0),
    }
}

pub open spec fn parse_slot(bytes: Seq<u8>, at: int) -> Option<(Option<ItemView>, int)> {
    match parse_byte(bytes, at) {
        Some((mark, next)) => {
            if mark == 0 {
                Some((None, next))
            } else if mark == 1 {
                match parse_item(bytes, next) {
                    Some((item, end)) => Some((Some(item), end)),
                    None => None,
                }
            } else {
                None
            }
        },
        None => None,
    }
}

pub proof fn lemma_parse_slot(bytes: Seq<u8>, at: int, slot: Option<ItemView>)
    requires
        slot_fits(slot),
        holds_at(bytes, at, slot_form(slot)),
    ensures
        parse_slot(bytes, at) == Some((slot, at + slot_form(slot).len())),
{
    match slot {
        Some(item) => {
            lemma_holds_at_split(bytes, at, byte_form(1), item_form(item));
            lemma_parse_byte(bytes, at, 1);
            lemma_parse_item(bytes, at + 1, item);
        },
        None => {
            lemma_parse_byte(bytes, at, 0);
        },
    }
}

pub fn put_slot(out: &mut Vec<u8>, slot: &Option<Item>)
    ensures
        final(out)@ == old(out)@ + slot_form(slot_view(*slot)),
        slot_fits(slot_view(*slot)),
{
    match slot {
        Some(item) => {
            put_byte(out, 1);
            put_item(out, item);
            assert(out@ =~= old(out)@ + slot_form(slot_view(*slot)));
        },
        None => {
            put_byte(out, 0);
        },
    }
}

pub fn take_slot(bytes: &[u8], at: usize) -> (got: Option<(Option<Item>, usize)>)
    requires
        at <= bytes@.len(),
    ensures
        match got {
            Some((slot, next)) => parse_slot(bytes@, at as int) == Some(
                (slot_view(slot), next as int),
            ) && next <= bytes@.len(),
            None => parse_slot(bytes@, at as int) is None,
        },
{
    let (mark, next) = take_byte(bytes, at)?;
    if mark == 0 {
        Some((None, next))
    } else if mark == 1 {
        let (item, end) = take_item(bytes, next)?;
        Some((Some(item), end))
    } else {
        None
    }
}

pub open spec fn equipment_fits(equipment: EquipmentView) -> bool {
    slot_fits(equipment.weapon) && slot_fits(equipment.armor) && slot_fits(equipment.accessory)
}

pub open spec fn equipment_form(equipment: EquipmentView) -> Seq<u8> {
    slot_form(equipment.weapon) + (slot_form(equipment.armor) + slot_form(equipment.accessory))
}

pub open spec fn parse_equipment(bytes: Seq<u8>, at: int) -> Option<(EquipmentView, int)> {
    let weapon = parse_slot(bytes, at);
    let armor = parse_slot(bytes, end_of(weapon));
    let accessory = parse_slot(bytes, end_of(armor));
    if weapon is Some && armor is Some && accessory is Some {
        Some(
            (
                EquipmentView {
                    weapon: value_of(weapon),
                    armor: value_of(armor),
                    accessory: value_of(accessory),
                },
                end_of(accessory),
            ),
        )
    } else {
        None
    }
}

pub proof fn lemma_parse_equipment(bytes: Seq<u8>, at: int, equipment: EquipmentView)
    requires
        equipment_fits(equipment),
        holds_at(bytes, at, equipment_form(equipment)),
    ensures
        parse_equipment(bytes, at) == Some((equipment, at + equipment_form(equipment).len())),
{
    let after_armor = slot_form(equipment.accessory);
    let after_weapon = slot_form(equipment.armor) + after_armor;
    lemma_holds_at_split(bytes, at, slot_form(equipment.weapon), after_weapon);
    lemma_parse_slot(bytes, at, equipment.weapon);
    let armor_at = at + slot_form(equipment.weapon).len();
    lemma_holds_at_split(bytes, armor_at, slot_form(equipment.armor), after_armor);
    lemma_parse_slot(bytes, armor_at, equipment.armor);
    lemma_parse_slot(bytes, armor_at + slot_form(equipment.armor).len(), equipment.accessory);
}

pub fn put_equipment(out: &mut Vec<u8>, equipment: &Equipment)
    ensures
        final(out)@ == old(out)@ + equipment_form(equipment@),
        equipment_fits(equipment@),
{
    put_slot(out, &equipment.weapon);
    put_slot(out, &equipment.armor);
    put_slot(out, &equipment.accessory);
    assert(out@ =~= old(out)@ + equipment_form(equipment@));
}

pub fn take_equipment(bytes: &[u8], at: usize) -> (got: Option<(Equipment, usize)>)
    requires
        at <= bytes@.len(),
    ensures
        match got {
            Some((equipment, next)) => parse_equipment(bytes@, at as int) == Some(
                (equipment@, next as int),
            ) && next <= bytes@.len(),
            None => parse_equipment(bytes@, at as int) is None,
        },
{
    let (weapon, next) = take_slot(bytes, at)?;
    let (armor, next) = take_slot(bytes, next)?;
    let (accessory, next) = take_slot(bytes, next)?;
    Some((Equipment { weapon, armor, accessory }, next))
}

} // verus!
