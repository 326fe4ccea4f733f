use character_market::codec::records::{
    decode_character, decode_listing, encode_character, encode_listing, CHARACTER_MAX_SIZE,
    LISTING_MAX_SIZE, RECORD_VERSION,
};
use character_market::codec::wire::{put_text, put_u32, put_u64, take_text, take_u32, take_u64};
use character_market::model::{
    Character, CharacterClass, Element, Equipment, Item, ListingStatus, MarketListing, Rarity,
    Skill, Stat, Stats, TrainingSession,
};

fn veteran() -> Character {
    Character {
        id: 42,
        owner: "rwlgt-iiaaa-aaaaa-aaaaa-cai".to_string(),
        name: "Björn 🐻".to_string(),
        level: 17,
        experience: 123_456_789_012,
        class: CharacterClass::Ranger,
        stats: Stats { strength: 11, agility: 22, intelligence: 33, vitality: 44, luck: 55 },
        skills: vec![
            Skill {
                id: 1,
                name: "Frost arrow".to_string(),
                damage: 30,
                cooldown: 4,
                element: Element::Water,
                mastery_level: 2,
            },
            Skill {
                id: 2,
                name: String::new(),
                damage: u32::MAX,
                cooldown: 0,
                element: Element::Dark,
                mastery_level: 9,
            },
        ],
        equipment: Equipment {
            weapon: Some(Item {
                id: 7,
                name: "Longbow".to_string(),
                rarity: Rarity::Epic,
                stat_bonus: Stats {
                    strength: 0,
                    agility: 5,
                    intelligence: 0,
                    vitality: 0,
                    luck: 1,
                },
                required_level: 10,
            }),
            armor: None,
            accessory: Some(Item {
                id: 8,
                name: "Ring".to_string(),
                rarity: Rarity::Common,
                stat_bonus: Stats {
                    strength: 1,
                    agility: 1,
                    intelligence: 1,
                    vitality: 1,
                    luck: 1,
                },
                required_level: 1,
            }),
        },
        training_history: vec![
            TrainingSession { timestamp: 100, stat_trained: Stat::Agility, gain: 3 },
            TrainingSession { timestamp: 30_000, stat_trained: Stat::Luck, gain: 1 },
            TrainingSession { timestamp: 60_000, stat_trained: Stat::Intelligence, gain: 2 },
        ],
        creation_date: 50,
        last_training: 60_000,
    }
}

fn offer() -> MarketListing {
    MarketListing {
        id: 3,
        character_id: 2,
        seller: "ab".to_string(),
        price: 258,
        listing_date: 1,
        status: ListingStatus::Cancelled,
    }
}

#[test]
fn character_round_trip() {
    let character = veteran();
    let bytes = encode_character(&character);
    assert_eq!(decode_character(&bytes), Some(character));
}

#[test]
fn listing_round_trip_for_every_status() {
    for status in [ListingStatus::Active, ListingStatus::Sold, ListingStatus::Cancelled] {
        let listing = MarketListing { status, ..offer() };
        assert_eq!(decode_listing(&encode_listing(&listing)), Some(listing));
    }
}

#[test]
fn every_choice_round_trips() {
    for class in [
        CharacterClass::Warrior,
        CharacterClass::Mage,
        CharacterClass::Rogue,
        CharacterClass::Cleric,
        CharacterClass::Ranger,
    ] {
        for (element, rarity, stat) in [
            (Element::Fire, Rarity::Common, Stat::Strength),
            (Element::Water, Rarity::Uncommon, Stat::Agility),
            (Element::Earth, Rarity::Rare, Stat::Intelligence),
            (Element::Air, Rarity::Epic, Stat::Vitality),
            (Element::Light, Rarity::Legendary, Stat::Luck),
            (Element::Dark, Rarity::Common, Stat::Luck),
        ] {
            let mut character = veteran();
            character.class = class;
            character.skills[0].element = element;
            character.equipment.armor = character.equipment.weapon.clone();
            character.equipment.armor.as_mut().unwrap().rarity = rarity;
            character.training_history[0].stat_trained = stat;
            assert_eq!(decode_character(&encode_character(&character)), Some(character));
        }
    }
}

#[test]
fn listing_bytes_are_exact() {
    let mut expected = vec![RECORD_VERSION];
    expected.extend_from_slice(&[3, 0, 0, 0, 0, 0, 0, 0]);
    expected.extend_from_slice(&[2, 0, 0, 0, 0, 0, 0, 0]);
    expected.extend_from_slice(&[2, 0, 0, 0, 0, 0, 0, 0]);
    expected.extend_from_slice(b"ab");
    expected.extend_from_slice(&[2, 1, 0, 0, 0, 0, 0, 0]);
    expected.extend_from_slice(&[1, 0, 0, 0, 0, 0, 0, 0]);
    expected.push(2);
    assert_eq!(encode_listing(&offer()), expected);
    assert_eq!(RECORD_VERSION, 1);
}

#[test]
fn decode_rejects_every_cut() {
    let bytes = encode_character(&veteran());
    for cut in 0..bytes.len() {
        assert_eq!(decode_character(&bytes[..cut]), None, "cut at {}", cut);
    }
    let bytes = encode_listing(&offer());
    for cut in 0..bytes.len() {
        assert_eq!(decode_listing(&bytes[..cut]), None, "cut at {}", cut);
    }
}

#[test]
fn decode_rejects_trailing_bytes() {
    let mut bytes = encode_character(&veteran());
    bytes.push(0);
    assert_eq!(decode_character(&bytes), None);
    let mut bytes = encode_listing(&offer());
    bytes.push(0);
    assert_eq!(decode_listing(&bytes), None);
}

#[test]
fn decode_rejects_other_versions() {
    let mut bytes = encode_listing(&offer());
    bytes[0] = 2;
    assert_eq!(decode_listing(&bytes), None);
    bytes[0] = 0;
    assert_eq!(decode_listing(&bytes), None);
    let mut bytes = encode_character(&veteran());
    bytes[0] = 0;
    assert_eq!(decode_character(&bytes), None);
}

#[test]
fn decode_rejects_unknown_choice() {
    let mut bytes = encode_listing(&offer());
    let last = bytes.len() - 1;
    bytes[last] = 3;
    assert_eq!(decode_listing(&bytes), None);
}

#[test]
fn decode_rejects_text_that_is_not_utf8() {
    let mut bytes = encode_listing(&offer());
    // The seller's two bytes follow the version, two identifiers and a length.
    bytes[25] = 0xff;
    assert_eq!(decode_listing(&bytes), None);
}

#[test]
fn decode_rejects_a_length_beyond_the_record() {
    let mut bytes = encode_listing(&offer());
    bytes[17..25].copy_from_slice(&u64::MAX.to_le_bytes());
    assert_eq!(decode_listing(&bytes), None);
    let veteran = veteran();
    let mut bytes = encode_character(&veteran);
    // The count of skills follows the version, the identifier, the two texts
    // with their lengths, the level, the experience, the class and the stats.
    let skills_at = 1 + 8 + (8 + veteran.owner.len()) + (8 + veteran.name.len()) + 4 + 8 + 1 + 20;
    assert_eq!(bytes[skills_at..skills_at + 8], 2u64.to_le_bytes());
    bytes[skills_at..skills_at + 8].copy_from_slice(&u64::MAX.to_le_bytes());
    assert_eq!(decode_character(&bytes), None);
}

#[test]
fn integers_are_little_endian() {
    let mut out = vec![9];
    put_u32(&mut out, 0x0403_0201);
    put_u64(&mut out, 0x0807_0605_0403_0201);
    assert_eq!(out, vec![9, 1, 2, 3, 4, 1, 2, 3, 4, 5, 6, 7, 8]);
    assert_eq!(take_u32(&out, 1), Some((0x0403_0201, 5)));
    assert_eq!(take_u64(&out, 5), Some((0x0807_0605_0403_0201, 13)));
    assert_eq!(take_u32(&out, 10), None);
    assert_eq!(take_u64(&out, 6), None);
    assert_eq!(take_u64(&out, 13), None);
}

#[test]
fn text_is_length_then_utf8() {
    let mut out = Vec::new();
    put_text(&mut out, &"hé".to_string());
    assert_eq!(out, vec![3, 0, 0, 0, 0, 0, 0, 0, b'h', 0xc3, 0xa9]);
    assert_eq!(take_text(&out, 0), Some(("hé".to_string(), 11)));
    // Cut inside the two bytes of the last letter.
    assert_eq!(take_text(&[2, 0, 0, 0, 0, 0, 0, 0, b'h', 0xc3, 0xa9], 0), None);
    assert_eq!(take_text(&out[..10], 0), None);
}

#[test]
fn ceilings_are_two_kilobytes_and_half_a_kilobyte() {
    assert_eq!(CHARACTER_MAX_SIZE, 2048);
    assert_eq!(LISTING_MAX_SIZE, 512);
}

#[test]
fn record_length_follows_the_texts() {
    // A listing takes 42 bytes and its seller's name.
    assert_eq!(encode_listing(&offer()).len(), 42 + 2);
    let mut character = veteran();
    let held = encode_character(&character).len();
    character.name.push_str("son");
    character.training_history.push(TrainingSession {
        timestamp: 90_000,
        stat_trained: Stat::Luck,
        gain: 1,
    });
    // Three letters more, and thirteen bytes for the session.
    assert_eq!(encode_character(&character).len(), held + 3 + 13);
}
