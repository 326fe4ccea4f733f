use crate::codec::wire::{
    byte_form, holds_at, lemma_parse_byte, parse_byte, put_byte, read_agrees, take_byte,
};
use crate::model::{CharacterClass, Element, ListingStatus, Rarity, Stat};
use vstd::prelude::*;

verus! {

/// The byte that stands for a `Stat`.
pub open spec fn stat_code(stat: Stat) -> u8 {
    match stat {
        Stat::Strength => 0,
        Stat::Agility => 1,
        Stat::Intelligence => 2,
        Stat::Vitality => 3,
        Stat::Luck => 4,
    }
}

pub open spec fn stat_of_code(code: u8) -> Option<Stat> {
    if code == 0 {
        Some(Stat::Strength)
    } else if code == 1 {
        Some(Stat::Agility)
    } else if code == 2 {
        Some(Stat::Intelligence)
    } else if code == 3 {
        Some(Stat::Vitality)
    } else if code == 4 {
        Some(Stat::Luck)
    } else {
        None
    }
}

pub open spec fn stat_form(stat: Stat) -> Seq<u8> {
    byte_form(stat_code(stat))
}

pub open spec fn parse_stat(bytes: Seq<u8>, at: int) -> Option<(Stat, int)> {
    match parse_byte(bytes, at) {
        Some((code, next)) => match stat_of_code(code) {
            Some(stat) => Some((stat, next)),
            None => None,
        },
        None => None,
    }
}

pub proof fn lemma_parse_stat(bytes: Seq<u8>, at: int, stat: Stat)
    requires
        holds_at(bytes, at, stat_form(stat)),
    ensures
        parse_stat(bytes, at) == Some((stat, at + 1)),
{
    lemma_parse_byte(bytes, at, stat_code(stat));
}

pub fn put_stat(out: &mut Vec<u8>, stat: Stat)
    ensures
        final(out)@ == old(out)@ + stat_form(stat),
{
    let code: u8 = match stat {
        Stat::Strength => 0,
        Stat::Agility => 1,
        Stat::Intelligence => 2,
        Stat::Vitality => 3,
        Stat::Luck => 4,
    };
    put_byte(out, code);
}

pub fn take_stat(bytes: &[u8], at: usize) -> (got: Option<(Stat, usize)>)
    requires
        at <= bytes@.len(),
    ensures
        read_agrees(got, parse_stat(bytes@, at as int), bytes@.len() as int),
{
    let (code, next) = take_byte(bytes, at)?;
    let stat = match code {
        0 => Some(Stat::Strength),
        1 => Some(Stat::Agility),
        2 => Some(Stat::Intelligence),
        3 => Some(Stat::Vitality),
        4 => Some(Stat::Luck),
        _ => None,
    };
    Some((stat?, next))
}

/// The byte that stands for a `Element`.
pub open spec fn element_code(element: Element) -> u8 {
    match element {
        Element::Fire => 0,
        Element::Water => 1,
        Element::Earth => 2,
        Element::Air => 3,
        Element::Light => 4,
        Element::Dark => 5,
    }
}

pub open spec fn element_of_code(code: u8) -> Option<Element> {
    if code == 0 {
        Some(Element::Fire)
    } else if code == 1 {
        Some(Element::Water)
    } else if code == 2 {
        Some(Element::Earth)
    } else if code == 3 {
        Some(Element::Air)
    } else if code == 4 {
        Some(Element::Light)
    } else if code == 5 {
        Some(Element::Dark)
    } else {
        None
    }
}

pub open spec fn element_form(element: Element) -> Seq<u8> {
    byte_form(element_code(element))
}

pub open spec fn parse_element(bytes: Seq<u8>, at: int) -> Option<(Element, int)> {
    match parse_byte(bytes, at) {
        Some((code, next)) => match element_of_code(code) {
            Some(element) => Some((element, next)),
            None => None,
        },
        None => None,
    }
}

pub proof fn lemma_parse_element(bytes: Seq<u8>, at: int, element: Element)
    requires
        holds_at(bytes, at, element_form(element)),
    ensures
        parse_element(bytes, at) == Some((element, at + 1)),
{
    lemma_parse_byte(bytes, at, element_code(element));
}

pub fn put_element(out: &mut Vec<u8>, element: Element)
    ensures
        final(out)@ == old(out)@ + element_form(element),
{
    let code: u8 = match element {
        Element::Fire => 0,
        Element::Water => 1,
        Element::Earth => 2,
        Element::Air => 3,
        Element::Light => 4,
        Element::Dark => 5,
    };
    put_byte(out, code);
}

pub fn take_element(bytes: &[u8], at: usize) -> (got: Option<(Element, usize)>)
    requires
        at <= bytes@.len(),
    ensures
        read_agrees(got, parse_element(bytes@, at as int), bytes@.len() as int),
{
    let (code, next) = take_byte(bytes, at)?;
    let element = match code {
        0 => Some(Element::Fire),
        1 => Some(Element::Water),
        2 => Some(Element::Earth),
        3 => Some(Element::Air),
        4 => Some(Element::Light),
        5 => Some(Element::Dark),
        _ => None,
    };
    Some((element?, next))
}

/// The byte that stands for a `Rarity`.
pub open spec fn rarity_code(rarity: Rarity) -> u8 {
    match rarity {
        Rarity::Common => 0,
        Rarity::Uncommon => 1,
        Rarity::Rare => 2,
        Rarity::Epic => 3,
        Rarity::Legendary => 4,
    }
}

pub open spec fn rarity_of_code(code: u8) -> Option<Rarity> {
    if code == 0 {
        Some(Rarity::Common)
    } else if code == 1 {
        Some(Rarity::Uncommon)
    } else if code == 2 {
        Some(Rarity::Rare)
    } else if code == 3 {
        Some(Rarity::Epic)
    } else if code == 4 {
        Some(Rarity::Legendary)
    } else {
        None
    }
}

pub open spec fn rarity_form(rarity: Rarity) -> Seq<u8> {
    byte_form(rarity_code(rarity))
}

pub open spec fn parse_rarity(bytes: Seq<u8>, at: int) -> Option<(Rarity, int)> {
    match parse_byte(bytes, at) {
        Some((code, next)) => match rarity_of_code(code) {
            Some(rarity) => Some((rarity, next)),
            None => None,
        },
        None => None,
    }
}

pub proof fn lemma_parse_rarity(bytes: Seq<u8>, at: int, rarity: Rarity)
    requires
        holds_at(bytes, at, rarity_form(rarity)),
    ensures
        parse_rarity(bytes, at) == Some((rarity, at + 1)),
{
    lemma_parse_byte(bytes, at, rarity_code(rarity));
}

pub fn put_rarity(out: &mut Vec<u8>, rarity: Rarity)
    ensures
        final(out)@ == old(out)@ + rarity_form(rarity),
{
    let code: u8 = match rarity {
        Rarity::Common => 0,
        Rarity::Uncommon => 1,
        Rarity::Rare => 2,
        Rarity::Epic => 3,
        Rarity::Legendary => 4,
    };
    put_byte(out, code);
}

pub fn take_rarity(bytes: &[u8], at: usize) -> (got: Option<(Rarity, usize)>)
    requires
        at <= bytes@.len(),
    ensures
        read_agrees(got, parse_rarity(bytes@, at as int), bytes@.len() as int),
{
    let (code, next) = take_byte(bytes, at)?;
    let rarity = match code {
        0 => Some(Rarity::Common),
        1 => Some(Rarity::Uncommon),
        2 => Some(Rarity::Rare),
        3 => Some(Rarity::Epic),
        4 => Some(Rarity::Legendary),
        _ => None,
    };
    Some((rarity?, next))
}

/// The byte that stands for a `CharacterClass`.
pub open spec fn class_code(class: CharacterClass) -> u8 {
    match class {
        CharacterClass::Warrior => 0,
        CharacterClass::Mage => 1,
        CharacterClass::Rogue => 2,
        CharacterClass::Cleric => 3,
        CharacterClass::Ranger => 4,
    }
}

pub open spec fn class_of_code(code: u8) -> Option<CharacterClass> {
    if code == 0 {
        Some(CharacterClass::Warrior)
    } else if code == 1 {
        Some(CharacterClass::Mage)
    } else if code == 2 {
        Some(CharacterClass::Rogue)
    } else if code == 3 {
        Some(CharacterClass::Cleric)
    } else if code == 4 {
        Some(CharacterClass::Ranger)
    } else {
        None
    }
}

pub open spec fn class_form(class: CharacterClass) -> Seq<u8> {
    byte_form(class_code(class))
}

pub open spec fn parse_class(bytes: Seq<u8>, at: int) -> Option<(CharacterClass, int)> {
    match parse_byte(bytes, at) {
        Some((code, next)) => match class_of_code(code) {
            Some(class) => Some((class, next)),
            None => None,
        },
        None => None,
    }
}

pub proof fn lemma_parse_class(bytes: Seq<u8>, at: int, class: CharacterClass)
    requires
        holds_at(bytes, at, class_form(class)),
    ensures
        parse_class(bytes, at) == Some((class, at + 1)),
{
    lemma_parse_byte(bytes, at, class_code(class));
}

pub fn put_class(out: &mut Vec<u8>, class: CharacterClass)
    ensures
        final(out)@ == old(out)@ + class_form(class),
{
    let code: u8 = match class {
        CharacterClass::Warrior => 0,
        CharacterClass::Mage => 1,
        CharacterClass::Rogue => 2,
        CharacterClass::Cleric => 3,
        CharacterClass::Ranger => 4,
    };
    put_byte(out, code);
}

pub fn take_class(bytes: &[u8], at: usize) -> (got: Option<(CharacterClass, usize)>)
    requires
        at <= bytes@.len(),
    ensures
        read_agrees(got, parse_class(bytes@, at as int), bytes@.len() as int),
{
    let (code, next) = take_byte(bytes, at)?;
    let class = match code {
        0 => Some(CharacterClass::Warrior),
        1 => Some(CharacterClass::Mage),
        2 => Some(CharacterClass::Rogue),
        3 => Some(CharacterClass::Cleric),
        4 => Some(CharacterClass::Ranger),
        _ => None,
    };
    Some((class?, next))
}

/// The byte that stands for a `ListingStatus`.
pub open spec fn status_code(status: ListingStatus) -> u8 {
    match status {
        ListingStatus::Active => 0,
        ListingStatus::Sold => 1,
        ListingStatus::Cancelled => 2,
    }
}

pub open spec fn status_of_code(code: u8) -> Option<ListingStatus> {
    if code == 0 {
        Some(ListingStatus::Active)
    } else if code == 1 {
        Some(ListingStatus::Sold)
    } else if code == 2 {
        Some(ListingStatus::Cancelled)
    } else {
        None
    }
}

pub open spec fn status_form(status: ListingStatus) -> Seq<u8> {
    byte_form(status_code(status))
}

pub open spec fn parse_status(bytes: Seq<u8>, at: int) -> Option<(ListingStatus, int)> {
    match parse_byte(bytes, at) {
        Some((code, next)) => match status_of_code(code) {
            Some(status) => Some((status, next)),
            None => None,
        },
        None => None,
    }
}

pub proof fn lemma_parse_status(bytes: Seq<u8>, at: int, status: ListingStatus)
    requires
        holds_at(bytes, at, status_form(status)),
    ensures
        parse_status(bytes, at) == Some((status, at + 1)),
{
    lemma_parse_byte(bytes, at, status_code(status));
}

pub fn put_status(out: &mut Vec<u8>, status: ListingStatus)
    ensures
        final(out)@ == old(out)@ + status_form(status),
{
    let code: u8 = match status {
        ListingStatus::Active => 0,
        ListingStatus::Sold => 1,
        ListingStatus::Cancelled => 2,
    };
    put_byte(out, code);
}

pub fn take_status(bytes: &[u8], at: usize) -> (got: Option<(ListingStatus, usize)>)
    requires
        at <= bytes@.len(),
    ensures
        read_agrees(got, parse_status(bytes@, at as int), bytes@.len() as int),
{
    let (code, next) = take_byte(bytes, at)?;
    let status = match code {
        0 => Some(ListingStatus::Active),
        1 => Some(ListingStatus::Sold),
        2 => Some(ListingStatus::Cancelled),
        _ => None,
    };
    Some((status?, next))
}

} // verus!
