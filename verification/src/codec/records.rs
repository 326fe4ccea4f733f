use crate::codec::choices::{
    class_form, lemma_parse_class, lemma_parse_status, parse_class, parse_status, put_class,
    put_status, status_form, take_class, take_status,
};
use crate::codec::lists::{
    lemma_parse_sessions, lemma_parse_skills, parse_sessions, parse_skills, put_sessions,
    put_skills, sessions_fit, sessions_form, skills_fit, skills_form, take_sessions, take_skills,
};
use crate::codec::parts::{
    end_of, equipment_fits, equipment_form, lemma_parse_equipment, lemma_parse_stats,
    parse_equipment, parse_stats, put_equipment, put_stats, stats_form, take_equipment,
    take_stats, value_of,
};
use crate::codec::wire::{
    byte_form, holds_at, lemma_holds_at_split, lemma_parse_byte, lemma_parse_text,
    lemma_parse_u32, lemma_parse_u64, parse_byte, parse_text, parse_u32, parse_u64, put_byte,
    put_text, put_u32, put_u64, take_byte, take_text, take_u32, take_u64, text_fits, text_form,
    u32_form, u64_form,
};
use crate::model::{Character, CharacterView, ListingStatus, ListingView, MarketListing};
use vstd::prelude::*;

verus! {

/// The version of the format, the first byte of every record.
pub const RECORD_VERSION: u8 = 1;

/// The most bytes that the record of a character may have.
pub const CHARACTER_MAX_SIZE: usize = 2048;

/// The most bytes that the record of a listing may have.
pub const LISTING_MAX_SIZE: usize = 512;

/// A character whose texts and lists have lengths that the format can write down.
pub open spec fn character_fits(character: CharacterView) -> bool {
    &&& text_fits(character.owner)
    &&& text_fits(character.name)
    &&& skills_fit(character.skills)
    &&& equipment_fits(character.equipment)
    &&& sessions_fit(character.training_history)
}

/// The fields that say who the character is and how far it has come.
pub open spec fn character_head_form(character: CharacterView) -> Seq<u8> {
    u64_form(character.id) + (text_form(character.owner) + (text_form(character.name) + (
    u32_form(character.level) + (u64_form(character.experience) + class_form(
        character.class,
    )))))
}

/// The fields that say what the character can do, and since when.
pub open spec fn character_tail_form(character: CharacterView) -> Seq<u8> {
    stats_form(character.stats) + (skills_form(character.skills) + (equipment_form(
        character.equipment,
    ) + (sessions_form(character.training_history) + (u64_form(character.creation_date)
        + u64_form(character.last_training)))))
}

pub open spec fn character_form(character: CharacterView) -> Seq<u8> {
    character_head_form(character) + character_tail_form(character)
}

pub open spec fn parse_character(bytes: Seq<u8>, at: int) -> Option<(CharacterView, int)> {
    let id = parse_u64(bytes, at);
    let owner = parse_text(bytes, end_of(id));
    let name = parse_text(bytes, end_of(owner));
    let level = parse_u32(bytes, end_of(name));
    let experience = parse_u64(bytes, end_of(level));
    let class = parse_class(bytes, end_of(experience));
    let stats = parse_stats(bytes, end_of(class));
    let skills = parse_skills(bytes, end_of(stats));
    let equipment = parse_equipment(bytes, end_of(skills));
    let training_history = parse_sessions(bytes, end_of(equipment));
    let creation_date = parse_u64(bytes, end_of(training_history));
    let last_training = parse_u64(bytes, end_of(creation_date));
    if id is Some && owner is Some && name is Some && level is Some && experience is Some
        && class is Some && stats is Some && skills is Some && equipment is Some
        && training_history is Some && creation_date is Some && last_training is Some {
        Some(
            (
                CharacterView {
                    id: value_of(id),
                    owner: value_of(owner),
                    name: value_of(name),
                    level: value_of(level),
                    experience: value_of(experience),
                    class: value_of(class),
                    stats: value_of(stats),
                    skills: value_of(skills),
                    equipment: value_of(equipment),
                    training_history: value_of(training_history),
                    creation_date: value_of(creation_date),
                    last_training: value_of(last_training),
                },
                end_of(last_training),
            ),
        )
    } else {
        None
    }
}

proof fn lemma_parse_character_head(bytes: Seq<u8>, at: int, character: CharacterView)
    requires
        text_fits(character.owner),
        text_fits(character.name),
        holds_at(bytes, at, character_head_form(character)),
    ensures
        ({
            let owner_at = at + 8;
            let name_at = owner_at + text_form(character.owner).len();
            let level_at = name_at + text_form(character.name).len();
            &&& parse_u64(bytes, at) == Some((character.id, owner_at))
            &&& parse_text(bytes, owner_at) == Some((character.owner, name_at))
            &&& parse_text(bytes, name_at) == Some((character.name, level_at))
            &&& parse_u32(bytes, level_at) == Some((character.level, level_at + 4))
            &&& parse_u64(bytes, level_at + 4) == Some((character.experience, level_at + 12))
            &&& parse_class(bytes, level_at + 12) == Some((character.class, level_at + 13))
            &&& at + character_head_form(character).len() == level_at + 13
        }),
{
    let after_experience = class_form(character.class);
    let after_level = u64_form(character.experience) + after_experience;
    let after_name = u32_form(character.level) + after_level;
    let after_owner = text_form(character.name) + after_name;
    let after_id = text_form(character.owner) + after_owner;
    lemma_holds_at_split(bytes, at, u64_form(character.id), after_id);
    lemma_parse_u64(bytes, at, character.id);
    let owner_at = at + 8;
    lemma_holds_at_split(bytes, owner_at, text_form(character.owner), after_owner);
    lemma_parse_text(bytes, owner_at, character.owner);
    let name_at = owner_at + text_form(character.owner).len();
    lemma_holds_at_split(bytes, name_at, text_form(character.name), after_name);
    lemma_parse_text(bytes, name_at, character.name);
    let level_at = name_at + text_form(character.name).len();
    lemma_holds_at_split(bytes, level_at, u32_form(character.level), after_level);
    lemma_parse_u32(bytes, level_at, character.level);
    lemma_holds_at_split(bytes, level_at + 4, u64_form(character.experience), after_experience);
    lemma_parse_u64(bytes, level_at + 4, character.experience);
    lemma_parse_class(bytes, level_at + 12, character.class);
}

proof fn lemma_parse_character_tail(bytes: Seq<u8>, at: int, character: CharacterView)
    requires
        skills_fit(character.skills),
        equipment_fits(character.equipment),
        sessions_fit(character.training_history),
        holds_at(bytes, at, character_tail_form(character)),
    ensures
        ({
            let skills_at = at + 20;
            let equipment_at = skills_at + skills_form(character.skills).len();
            let history_at = equipment_at + equipment_form(character.equipment).len();
            let creation_at = history_at + sessions_form(character.training_history).len();
            &&& parse_stats(bytes, at) == Some((character.stats, skills_at))
            &&& parse_skills(bytes, skills_at) == Some((character.skills, equipment_at))
            &&& parse_equipment(bytes, equipment_at) == Some((character.equipment, history_at))
            &&& parse_sessions(bytes, history_at) == Some(
                (character.training_history, creation_at),
            )
            &&& parse_u64(bytes, creation_at) == Some((character.creation_date, creation_at + 8))
            &&& parse_u64(bytes, creation_at + 8) == Some(
                (character.last_training, creation_at + 16),
            )
            &&& at + character_tail_form(character).len() == creation_at + 16
        }),
{
    let after_creation = u64_form(character.last_training);
    let after_history = u64_form(character.creation_date) + after_creation;
    let after_equipment = sessions_form(character.training_history) + after_history;
    let after_skills = equipment_form(character.equipment) + after_equipment;
    let after_stats = skills_form(character.skills) + after_skills;
    lemma_holds_at_split(bytes, at, stats_form(character.stats), after_stats);
    lemma_parse_stats(bytes, at, character.stats);
    let skills_at = at + 20;
    lemma_holds_at_split(bytes, skills_at, skills_form(character.skills), after_skills);
    lemma_parse_skills(bytes, skills_at, character.skills);
    let equipment_at = skills_at + skills_form(character.skills).len();
    lemma_holds_at_split(
        bytes,
        equipment_at,
        equipment_form(character.equipment),
        after_equipment,
    );
    lemma_parse_equipment(bytes, equipment_at, character.equipment);
    let history_at = equipment_at + equipment_form(character.equipment).len();
    lemma_holds_at_split(
        bytes,
        history_at,
        sessions_form(character.training_history),
        after_history,
    );
    lemma_parse_sessions(bytes, history_at, character.training_history);
    let creation_at = history_at + sessions_form(character.training_history).len();
    lemma_holds_at_split(bytes, creation_at, u64_form(character.creation_date), after_creation);
    lemma_parse_u64(bytes, creation_at, character.creation_date);
    lemma_parse_u64(bytes, creation_at + 8, character.last_training);
}

pub proof fn lemma_parse_character(bytes: Seq<u8>, at: int, character: CharacterView)
    requires
        character_fits(character),
        holds_at(bytes, at, character_form(character)),
    ensures
        parse_character(bytes, at) == Some((character, at + character_form(character).len())),
{
    lemma_holds_at_split(
        bytes,
        at,
        character_head_form(character),
        character_tail_form(character),
    );
    lemma_parse_character_head(bytes, at, character);
    lemma_parse_character_tail(
        bytes,
        at + character_head_form(character).len(),
        character,
    );
}

fn put_character(out: &mut Vec<u8>, character: &Character)
    ensures
        final(out)@ == old(out)@ + character_form(character@),
        character_fits(character@),
{
    put_u64(out, character.id);
    put_text(out, &character.owner);
    put_text(out, &character.name);
    put_u32(out, character.level);
    put_u64(out, character.experience);
    put_class(out, character.class);
    put_stats(out, &character.stats);
    put_skills(out, &character.skills);
    put_equipment(out, &character.equipment);
    put_sessions(out, &character.training_history);
    put_u64(out, character.creation_date);
    put_u64(out, character.last_training);
    assert(out@ =~= old(out)@ + character_form(character@));
}

fn take_character(bytes: &[u8], at: usize) -> (got: Option<(Character, usize)>)
    requires
        at <= bytes@.len(),
    ensures
        match got {
            Some((character, next)) => parse_character(bytes@, at as int) == Some(
                (character@, next as int),
            ) && next <= bytes@.len(),
            None => parse_character(bytes@, at as int) is None,
        },
{
    let (id, next) = take_u64(bytes, at)?;
    let (owner, next) = take_text(bytes, next)?;
    let (name, next) = take_text(bytes, next)?;
    let (level, next) = take_u32(bytes, next)?;
    let (experience, next) = take_u64(bytes, next)?;
    let (class, next) = take_class(bytes, next)?;
    let (stats, next) = take_stats(bytes, next)?;
    let (skills, next) = take_skills(bytes, next)?;
    let (equipment, next) = take_equipment(bytes, next)?;
    let (training_history, next) = take_sessions(bytes, next)?;
    let (creation_date, next) = take_u64(bytes, next)?;
    let (last_training, next) = take_u64(bytes, next)?;
    Some(
        (
            Character {
                id,
                owner,
                name,
                level,
                experience,
                class,
                stats,
                skills,
                equipment,
                training_history,
                creation_date,
                last_training,
            },
            next,
        ),
    )
}

/// The stored form of a character: the version, then its fields in the
/// order of their declaration.
pub open spec fn character_record(character: CharacterView) -> Seq<u8> {
    byte_form(RECORD_VERSION) + character_form(character)
}

/// The stored form of the character is no longer than its ceiling.
pub open spec fn character_within_ceiling(character: CharacterView) -> bool {
    character_record(character).len() <= CHARACTER_MAX_SIZE
}

/// The character that `bytes` are the stored form of, if they are one: the
/// version is the known one, the fields parse, and nothing follows them.
pub open spec fn character_of_record(bytes: Seq<u8>) -> Option<CharacterView> {
    match parse_byte(bytes, 0) {
        Some((version, start)) => match parse_character(bytes, start) {
            Some((character, end)) => if version == RECORD_VERSION && end == bytes.len() {
                Some(character)
            } else {
                None
            },
            None => None,
        },
        None => None,
    }
}

/// What was encoded is what decoding gives back.
pub proof fn lemma_character_round_trip(character: CharacterView)
    requires
        character_fits(character),
    ensures
        character_of_record(character_record(character)) == Some(character),
{
    let bytes = character_record(character);
    assert(bytes.subrange(0, bytes.len() as int) =~= bytes);
    lemma_holds_at_split(bytes, 0, byte_form(RECORD_VERSION), character_form(character));
    lemma_parse_byte(bytes, 0, RECORD_VERSION);
    lemma_parse_character(bytes, 1, character);
}

pub fn encode_character(character: &Character) -> (bytes: Vec<u8>)
    ensures
        bytes@ == character_record(character@),
        character_fits(character@),
{
    let mut bytes: Vec<u8> = Vec::new();
    put_byte(&mut bytes, RECORD_VERSION);
    put_character(&mut bytes, character);
    assert(bytes@ =~= character_record(character@));
    bytes
}

pub fn decode_character(bytes: &[u8]) -> (decoded: Option<Character>)
    ensures
        match decoded {
            Some(character) => character_of_record(bytes@) == Some(character@),
            None => character_of_record(bytes@) is None,
        },
{
    let (version, start) = take_byte(bytes, 0)?;
    let (character, end) = take_character(bytes, start)?;
    if version == RECORD_VERSION && end == bytes.len() {
        Some(character)
    } else {
        None
    }
}

/// A listing whose seller has a name that the format can write down.
pub open spec fn listing_fits(listing: ListingView) -> bool {
    text_fits(listing.seller)
}

pub open spec fn listing_form(listing: ListingView) -> Seq<u8> {
    u64_form(listing.id) + (u64_form(listing.character_id) + (text_form(listing.seller) + (
    u64_form(listing.price) + (u64_form(listing.listing_date) + status_form(listing.status)))))
}

pub open spec fn parse_listing(bytes: Seq<u8>, at: int) -> Option<(ListingView, int)> {
    let id = parse_u64(bytes, at);
    let character_id = parse_u64(bytes, end_of(id));
    let seller = parse_text(bytes, end_of(character_id));
    let price = parse_u64(bytes, end_of(seller));
    let listing_date = parse_u64(bytes, end_of(price));
    let status = parse_status(bytes, end_of(listing_date));
    if id is Some && character_id is Some && seller is Some && price is Some
        && listing_date is Some && status is Some {
        Some(
            (
                ListingView {
                    id: value_of(id),
                    character_id: value_of(character_id),
                    seller: value_of(seller),
                    price: value_of(price),
                    listing_date: value_of(listing_date),
                    status: value_of(status),
                },
                end_of(status),
            ),
        )
    } else {
        None
    }
}

pub proof fn lemma_parse_listing(bytes: Seq<u8>, at: int, listing: ListingView)
    requires
        listing_fits(listing),
        holds_at(bytes, at, listing_form(listing)),
    ensures
        parse_listing(bytes, at) == Some((listing, at + listing_form(listing).len())),
{
    let after_date = status_form(listing.status);
    let after_price = u64_form(listing.listing_date) + after_date;
    let after_seller = u64_form(listing.price) + after_price;
    let after_character = text_form(listing.seller) + after_seller;
    let after_id = u64_form(listing.character_id) + after_character;
    lemma_holds_at_split(bytes, at, u64_form(listing.id), after_id);
    lemma_parse_u64(bytes, at, listing.id);
    lemma_holds_at_split(bytes, at + 8, u64_form(listing.character_id), after_character);
    lemma_parse_u64(bytes, at + 8, listing.character_id);
    let seller_at = at + 16;
    lemma_holds_at_split(bytes, seller_at, text_form(listing.seller), after_seller);
    lemma_parse_text(bytes, seller_at, listing.seller);
    let price_at = seller_at + text_form(listing.seller).len();
    lemma_holds_at_split(bytes, price_at, u64_form(listing.price), after_price);
    lemma_parse_u64(bytes, price_at, listing.price);
    lemma_holds_at_split(bytes, price_at + 8, u64_form(listing.listing_date), after_date);
    lemma_parse_u64(bytes, price_at + 8, listing.listing_date);
    lemma_parse_status(bytes, price_at + 16, listing.status);
}

fn put_listing(out: &mut Vec<u8>, listing: &MarketListing)
    ensures
        final(out)@ == old(out)@ + listing_form(listing@),
        listing_fits(listing@),
{
    put_u64(out, listing.id);
    put_u64(out, listing.character_id);
    put_text(out, &listing.seller);
    put_u64(out, listing.price);
    put_u64(out, listing.listing_date);
    put_status(out, listing.status);
    assert(out@ =~= old(out)@ + listing_form(listing@));
}

fn take_listing(bytes: &[u8], at: usize) -> (got: Option<(MarketListing, usize)>)
    requires
        at <= bytes@.len(),
    ensures
        match got {
            Some((listing, next)) => parse_listing(bytes@, at as int) == Some(
                (listing@, next as int),
            ) && next <= bytes@.len(),
            None => parse_listing(bytes@, at as int) is None,
        },
{
    let (id, next) = take_u64(bytes, at)?;
    let (character_id, next) = take_u64(bytes, next)?;
    let (seller, next) = take_text(bytes, next)?;
    let (price, next) = take_u64(bytes, next)?;
    let (listing_date, next) = take_u64(bytes, next)?;
    let (status, next) = take_status(bytes, next)?;
    Some((MarketListing { id, character_id, seller, price, listing_date, status }, next))
}

/// The stored form of a listing: the version, then its fields in the order
/// of their declaration.
pub open spec fn listing_record(listing: ListingView) -> Seq<u8> {
    byte_form(RECORD_VERSION) + listing_form(listing)
}

/// The stored form of the listing is no longer than its ceiling.
pub open spec fn listing_within_ceiling(listing: ListingView) -> bool {
    listing_record(listing).len() <= LISTING_MAX_SIZE
}

/// The stored form of a listing is as long whatever its status is.
pub proof fn lemma_status_keeps_length(listing: ListingView, status: ListingStatus)
    ensures
        listing_record(ListingView { status, ..listing }).len() == listing_record(listing).len(),
{
    assert(status_form(status).len() == 1);
    assert(status_form(listing.status).len() == 1);
}

/// The listing that `bytes` are the stored form of, if they are one.
pub open spec fn listing_of_record(bytes: Seq<u8>) -> Option<ListingView> {
    match parse_byte(bytes, 0) {
        Some((version, start)) => match parse_listing(bytes, start) {
            Some((listing, end)) => if version == RECORD_VERSION && end == bytes.len() {
                Some(listing)
            } else {
                None
            },
            None => None,
        },
        None => None,
    }
}

/// What was encoded is what decoding gives back.
pub proof fn lemma_listing_round_trip(listing: ListingView)
    requires
        listing_fits(listing),
    ensures
        listing_of_record(listing_record(listing)) == Some(listing),
{
    let bytes = listing_record(listing);
    assert(bytes.subrange(0, bytes.len() as int) =~= bytes);
    lemma_holds_at_split(bytes, 0, byte_form(RECORD_VERSION), listing_form(listing));
    lemma_parse_byte(bytes, 0, RECORD_VERSION);
    lemma_parse_listing(bytes, 1, listing);
}

pub fn encode_listing(listing: &MarketListing) -> (bytes: Vec<u8>)
    ensures
        bytes@ == listing_record(listing@),
        listing_fits(listing@),
{
    let mut bytes: Vec<u8> = Vec::new();
    put_byte(&mut bytes, RECORD_VERSION);
    put_listing(&mut bytes, listing);
    assert(bytes@ =~= listing_record(listing@));
    bytes
}

pub fn decode_listing(bytes: &[u8]) -> (decoded: Option<MarketListing>)
    ensures
        match decoded {
            Some(listing) => listing_of_record(bytes@) == Some(listing@),
            None => listing_of_record(bytes@) is None,
        },
{
    let (version, start) = take_byte(bytes, 0)?;
    let (listing, end) = take_listing(bytes, start)?;
    if version == RECORD_VERSION && end == bytes.len() {
        Some(listing)
    } else {
        None
    }
}

} // verus!
