use character_market::model::{
    Character, CharacterClass, CreateCharacterPayload, LedgerError, ListCharacterPayload,
    ListingStatus, MarketListing, PurchaseCharacterPayload, Stat, Stats, Subject,
    TrainCharacterPayload, TrainingSession,
};
use character_market::store::Store;

const DAY_ONE: u64 = 1_000;
const COOLDOWN: u64 = 21_600;

fn try_create(
    store: &mut Store,
    name: &str,
    class: CharacterClass,
    caller: &str,
    now: u64,
) -> Result<Character, LedgerError> {
    let payload = CreateCharacterPayload { name: name.to_string(), class };
    assert!(store.can_create(&payload, &caller.to_string(), now));
    store.create_character(payload, caller.to_string(), now)
}

fn create(store: &mut Store, name: &str, class: CharacterClass, caller: &str, now: u64) -> Character {
    try_create(store, name, class, caller, now).unwrap()
}

fn train(
    store: &mut Store,
    character_id: u64,
    stat: Stat,
    caller: &str,
    now: u64,
) -> Result<Character, LedgerError> {
    let payload = TrainCharacterPayload { character_id, stat };
    assert!(store.can_train(&payload, &caller.to_string(), now));
    store.train_character(payload, caller.to_string(), now)
}

fn list(
    store: &mut Store,
    character_id: u64,
    price: u64,
    caller: &str,
    now: u64,
) -> Result<MarketListing, LedgerError> {
    let payload = ListCharacterPayload { character_id, price };
    assert!(store.can_list(&payload, &caller.to_string(), now));
    store.list_character(payload, caller.to_string(), now)
}

fn purchase(store: &mut Store, listing_id: u64, buyer: &str) -> Result<Character, LedgerError> {
    store.purchase_character(PurchaseCharacterPayload { listing_id }, buyer.to_string())
}

#[test]
fn new_store_is_empty() {
    let store = Store::new();
    assert_eq!(store.next_id(), 0);
    assert!(store.has_free_id());
    assert!(store.is_sound());
    assert!(store.get_market_listings().is_empty());
    assert_eq!(store.get_character(0), Err(LedgerError::NotFound(Subject::Character)));
}

#[test]
fn opened_store_over_blank_memory_is_empty() {
    let store = Store::open().expect("blank memory holds a well-formed store");
    assert_eq!(store.next_id(), 0);
    assert!(store.get_market_listings().is_empty());
}

#[test]
fn create_warrior_conan() {
    let mut store = Store::new();
    let conan = create(&mut store, "Conan", CharacterClass::Warrior, "alice", DAY_ONE);
    assert_eq!(
        conan,
        Character {
            id: 0,
            owner: "alice".to_string(),
            name: "Conan".to_string(),
            level: 1,
            experience: 0,
            class: CharacterClass::Warrior,
            stats: Stats { strength: 10, agility: 5, intelligence: 3, vitality: 8, luck: 5 },
            skills: vec![],
            equipment: character_market::model::Equipment {
                weapon: None,
                armor: None,
                accessory: None,
            },
            training_history: vec![],
            creation_date: DAY_ONE,
            last_training: DAY_ONE,
        }
    );
    assert_eq!(store.get_character(0), Ok(conan));
    assert_eq!(store.next_id(), 1);
}

#[test]
fn create_assigns_class_stats() {
    let mut store = Store::new();
    let mage = create(&mut store, "Merlin", CharacterClass::Mage, "alice", DAY_ONE);
    assert_eq!(
        mage.stats,
        Stats { strength: 3, agility: 5, intelligence: 10, vitality: 4, luck: 6 }
    );
    let even = Stats { strength: 5, agility: 5, intelligence: 5, vitality: 5, luck: 5 };
    for class in [CharacterClass::Rogue, CharacterClass::Cleric, CharacterClass::Ranger] {
        assert_eq!(create(&mut store, "Someone", class, "alice", DAY_ONE).stats, even);
    }
}

#[test]
fn create_rejects_empty_name() {
    let mut store = Store::new();
    let payload = CreateCharacterPayload { name: String::new(), class: CharacterClass::Rogue };
    assert_eq!(
        store.create_character(payload, "alice".to_string(), DAY_ONE),
        Err(LedgerError::InvalidInput)
    );
    assert_eq!(store.next_id(), 0);
    assert_eq!(store.get_character(0), Err(LedgerError::NotFound(Subject::Character)));
}

#[test]
fn identifiers_rise_across_both_ledgers() {
    let mut store = Store::new();
    let first = create(&mut store, "Conan", CharacterClass::Warrior, "alice", DAY_ONE);
    let listing = list(&mut store, first.id, 100, "alice", DAY_ONE).unwrap();
    let second = create(&mut store, "Merlin", CharacterClass::Mage, "bob", DAY_ONE);
    let other_listing = list(&mut store, second.id, 7, "bob", DAY_ONE).unwrap();
    assert_eq!(
        (first.id, listing.id, second.id, other_listing.id),
        (0, 1, 2, 3)
    );
    assert_eq!(store.next_id(), 4);
    assert_eq!(store.get_character(listing.id), Err(LedgerError::NotFound(Subject::Character)));
    assert!(store.is_sound());
}

#[test]
fn immediate_training_hits_cooldown() {
    let mut store = Store::new();
    let conan = create(&mut store, "Conan", CharacterClass::Warrior, "alice", DAY_ONE);
    assert_eq!(
        train(&mut store, conan.id, Stat::Strength, "alice", conan.creation_date),
        Err(LedgerError::CooldownActive)
    );
    assert_eq!(store.get_character(conan.id), Ok(conan));
}

#[test]
fn training_after_cooldown_applies_formula() {
    let mut store = Store::new();
    let conan = create(&mut store, "Conan", CharacterClass::Warrior, "alice", DAY_ONE);
    let now = DAY_ONE + COOLDOWN;
    // (22600 xor 0) mod 3 = 1, so the base is 2; a luck of 5 adds nothing.
    let trained = train(&mut store, conan.id, Stat::Strength, "alice", now).unwrap();
    assert_eq!(
        trained.stats,
        Stats { strength: 12, agility: 5, intelligence: 3, vitality: 8, luck: 5 }
    );
    assert_eq!(
        trained.training_history,
        vec![TrainingSession { timestamp: now, stat_trained: Stat::Strength, gain: 2 }]
    );
    assert_eq!(trained.last_training, now);
    assert_eq!(trained.creation_date, DAY_ONE);
    assert_eq!(store.get_character(conan.id), Ok(trained));
}

#[test]
fn cooldown_ends_at_the_full_window() {
    let mut store = Store::new();
    let conan = create(&mut store, "Conan", CharacterClass::Warrior, "alice", DAY_ONE);
    assert_eq!(
        train(&mut store, conan.id, Stat::Luck, "alice", DAY_ONE + COOLDOWN - 1),
        Err(LedgerError::CooldownActive)
    );
    assert!(train(&mut store, conan.id, Stat::Luck, "alice", DAY_ONE + COOLDOWN).is_ok());
}

#[test]
fn training_succeeds_once_per_window() {
    let mut store = Store::new();
    let conan = create(&mut store, "Conan", CharacterClass::Warrior, "alice", DAY_ONE);
    let first = DAY_ONE + COOLDOWN;
    let trained = train(&mut store, conan.id, Stat::Agility, "alice", first).unwrap();
    assert_eq!(
        train(&mut store, conan.id, Stat::Agility, "alice", first + COOLDOWN - 1),
        Err(LedgerError::CooldownActive)
    );
    assert_eq!(store.get_character(conan.id), Ok(trained.clone()));
    let again = train(&mut store, conan.id, Stat::Agility, "alice", first + COOLDOWN).unwrap();
    assert_eq!(again.training_history.len(), 2);
    assert!(again.stats.agility > trained.stats.agility);
}

#[test]
fn training_before_the_last_training_hits_cooldown() {
    let mut store = Store::new();
    let conan = create(&mut store, "Conan", CharacterClass::Warrior, "alice", DAY_ONE);
    assert_eq!(
        train(&mut store, conan.id, Stat::Strength, "alice", DAY_ONE - 1),
        Err(LedgerError::CooldownActive)
    );
}

#[test]
fn luck_adds_a_tenth_to_the_gain() {
    let mut store = Store::new();
    let merlin = create(&mut store, "Merlin", CharacterClass::Mage, "alice", 0);
    let mut now = 0;
    let mut luck = 6;
    // Train luck until the bonus shows: each gain is the base plus luck / 10.
    for _ in 0..6 {
        now += COOLDOWN;
        let base = ((now ^ merlin.id) % 3 + 1) as u32;
        let expected = base + luck / 10;
        let trained = train(&mut store, merlin.id, Stat::Luck, "alice", now).unwrap();
        assert_eq!(trained.stats.luck, luck + expected);
        assert_eq!(trained.training_history.last().unwrap().gain, expected);
        luck = trained.stats.luck;
    }
    assert!(luck >= 10);
    now += COOLDOWN;
    let before = store.get_character(merlin.id).unwrap();
    let trained = train(&mut store, merlin.id, Stat::Strength, "alice", now).unwrap();
    let base = ((now ^ merlin.id) % 3 + 1) as u32;
    assert_eq!(trained.stats.strength, before.stats.strength + base + luck / 10);
    assert_eq!(trained.stats.luck, luck);
}

#[test]
fn train_unknown_character_is_not_found() {
    let mut store = Store::new();
    assert_eq!(
        train(&mut store, 9, Stat::Strength, "alice", DAY_ONE),
        Err(LedgerError::NotFound(Subject::Character))
    );
}

#[test]
fn strangers_cannot_train_or_list() {
    let mut store = Store::new();
    let conan = create(&mut store, "Conan", CharacterClass::Warrior, "alice", DAY_ONE);
    assert_eq!(
        train(&mut store, conan.id, Stat::Strength, "mallory", DAY_ONE + COOLDOWN),
        Err(LedgerError::Unauthorized)
    );
    assert_eq!(
        list(&mut store, conan.id, 1, "mallory", DAY_ONE),
        Err(LedgerError::Unauthorized)
    );
    assert_eq!(store.get_character(conan.id), Ok(conan));
    assert!(store.get_market_listings().is_empty());
    assert_eq!(store.next_id(), 1);
}

#[test]
fn list_unknown_character_is_not_found() {
    let mut store = Store::new();
    assert_eq!(
        list(&mut store, 3, 100, "alice", DAY_ONE),
        Err(LedgerError::NotFound(Subject::Character))
    );
    assert_eq!(store.next_id(), 0);
}

#[test]
fn listing_is_active_and_leaves_the_character() {
    let mut store = Store::new();
    let conan = create(&mut store, "Conan", CharacterClass::Warrior, "alice", DAY_ONE);
    let listing = list(&mut store, conan.id, 100, "alice", DAY_ONE + 5).unwrap();
    assert_eq!(
        listing,
        MarketListing {
            id: 1,
            character_id: 0,
            seller: "alice".to_string(),
            price: 100,
            listing_date: DAY_ONE + 5,
            status: ListingStatus::Active,
        }
    );
    assert_eq!(store.get_market_listings(), vec![listing]);
    assert_eq!(store.get_character(conan.id), Ok(conan));
}

#[test]
fn list_then_purchase_then_second_purchase_fails() {
    let mut store = Store::new();
    let x = create(&mut store, "Xena", CharacterClass::Warrior, "a", DAY_ONE);
    let l1 = list(&mut store, x.id, 100, "a", DAY_ONE).unwrap();
    assert_eq!(l1.status, ListingStatus::Active);
    let bought = purchase(&mut store, l1.id, "b").unwrap();
    assert_eq!(bought, Character { owner: "b".to_string(), ..x });
    assert_eq!(store.get_character(bought.id), Ok(bought.clone()));
    assert!(store.get_market_listings().is_empty());
    assert_eq!(purchase(&mut store, l1.id, "c"), Err(LedgerError::ListingNotActive));
    assert_eq!(store.get_character(bought.id), Ok(bought));
    assert!(store.is_sound());
}

#[test]
fn purchase_unknown_listing_is_not_found() {
    let mut store = Store::new();
    let conan = create(&mut store, "Conan", CharacterClass::Warrior, "alice", DAY_ONE);
    assert_eq!(purchase(&mut store, 5, "bob"), Err(LedgerError::NotFound(Subject::Listing)));
    // A character's identifier names no listing.
    assert_eq!(
        purchase(&mut store, conan.id, "bob"),
        Err(LedgerError::NotFound(Subject::Listing))
    );
}

#[test]
fn purchase_touches_one_listing_and_one_character() {
    let mut store = Store::new();
    let conan = create(&mut store, "Conan", CharacterClass::Warrior, "alice", DAY_ONE);
    let merlin = create(&mut store, "Merlin", CharacterClass::Mage, "alice", DAY_ONE);
    let first = list(&mut store, conan.id, 10, "alice", DAY_ONE).unwrap();
    let second = list(&mut store, merlin.id, 20, "alice", DAY_ONE).unwrap();
    let sibling = list(&mut store, conan.id, 30, "alice", DAY_ONE).unwrap();
    let next_id = store.next_id();
    let bought = purchase(&mut store, first.id, "bob").unwrap();
    assert_eq!(bought.id, conan.id);
    assert_eq!(bought.owner, "bob");
    assert_eq!(store.get_character(merlin.id), Ok(merlin));
    // The other listings stay active, the one for the same character too.
    assert_eq!(store.get_market_listings(), vec![second, sibling]);
    assert_eq!(store.next_id(), next_id);
}

#[test]
fn new_owner_takes_over_the_rights() {
    let mut store = Store::new();
    let conan = create(&mut store, "Conan", CharacterClass::Warrior, "alice", DAY_ONE);
    let listing = list(&mut store, conan.id, 10, "alice", DAY_ONE).unwrap();
    purchase(&mut store, listing.id, "bob").unwrap();
    let later = DAY_ONE + COOLDOWN;
    assert_eq!(
        train(&mut store, conan.id, Stat::Vitality, "alice", later),
        Err(LedgerError::Unauthorized)
    );
    assert!(train(&mut store, conan.id, Stat::Vitality, "bob", later).is_ok());
    assert_eq!(list(&mut store, conan.id, 1, "alice", later), Err(LedgerError::Unauthorized));
}

#[test]
fn market_listings_come_by_rising_identifier() {
    let mut store = Store::new();
    let mut expected = Vec::new();
    for round in 0..40u64 {
        let hero = create(&mut store, "Hero", CharacterClass::Ranger, "alice", DAY_ONE);
        let listing = list(&mut store, hero.id, round, "alice", DAY_ONE).unwrap();
        if round % 3 == 0 {
            purchase(&mut store, listing.id, "bob").unwrap();
        } else {
            expected.push(listing);
        }
    }
    let listings = store.get_market_listings();
    assert_eq!(listings, expected);
    assert!(listings.iter().all(|listing| listing.status == ListingStatus::Active));
    assert!(listings.windows(2).all(|pair| pair[0].id < pair[1].id));
    assert!(store.is_sound());
}

#[test]
fn reads_repeat() {
    let mut store = Store::new();
    let conan = create(&mut store, "Conan", CharacterClass::Warrior, "alice", DAY_ONE);
    list(&mut store, conan.id, 10, "alice", DAY_ONE).unwrap();
    assert_eq!(store.get_character(conan.id), store.get_character(conan.id));
    assert_eq!(store.get_character(77), store.get_character(77));
    assert_eq!(store.get_market_listings(), store.get_market_listings());
}

#[test]
fn can_train_sees_a_full_counter() {
    let mut store = Store::new();
    let conan = create(&mut store, "Conan", CharacterClass::Warrior, "alice", 0);
    let payload = TrainCharacterPayload { character_id: conan.id, stat: Stat::Strength };
    assert!(store.can_train(&payload, &"alice".to_string(), COOLDOWN));
    // Where the training would be refused there is nothing to fit.
    assert!(store.can_train(&payload, &"mallory".to_string(), COOLDOWN));
    assert!(store.can_train(
        &TrainCharacterPayload { character_id: 8, stat: Stat::Luck },
        &"alice".to_string(),
        COOLDOWN
    ));
}

#[test]
fn names_keep_their_letters() {
    let mut store = Store::new();
    let name = "Zoë, the 勇者 of Åland 🗡";
    let hero = create(&mut store, name, CharacterClass::Cleric, "ålice", DAY_ONE);
    let read = store.get_character(hero.id).unwrap();
    assert_eq!(read.name, name);
    assert_eq!(read.owner, "ålice");
}

#[test]
fn create_refuses_a_name_beyond_the_ceiling() {
    let mut store = Store::new();
    let name = "n".repeat(3000);
    assert_eq!(
        try_create(&mut store, &name, CharacterClass::Warrior, "alice", DAY_ONE),
        Err(LedgerError::RecordTooLarge)
    );
    assert_eq!(store.next_id(), 0);
    assert_eq!(store.get_character(0), Err(LedgerError::NotFound(Subject::Character)));
    assert!(store.is_sound());
    // The identifier that was not taken goes to the next character.
    assert_eq!(create(&mut store, "Conan", CharacterClass::Warrior, "alice", DAY_ONE).id, 0);
}

#[test]
fn character_ceiling_is_exact() {
    let mut store = Store::new();
    // A fresh character takes 93 bytes and its two texts.
    let longest = "n".repeat(2048 - 93 - "alice".len());
    let hero = create(&mut store, &longest, CharacterClass::Rogue, "alice", DAY_ONE);
    assert_eq!(store.get_character(hero.id), Ok(hero));
    let too_long = "n".repeat(2048 - 93 - "alice".len() + 1);
    assert_eq!(
        try_create(&mut store, &too_long, CharacterClass::Rogue, "alice", DAY_ONE),
        Err(LedgerError::RecordTooLarge)
    );
    assert_eq!(store.next_id(), 1);
}

#[test]
fn training_stops_where_the_log_fills_the_record() {
    let mut store = Store::new();
    let conan = create(&mut store, "Conan", CharacterClass::Warrior, "alice", 0);
    // 103 bytes without a session, 13 for each: 149 sessions fit, 150 do not.
    let mut now = 0;
    for _ in 0..149 {
        now += COOLDOWN;
        train(&mut store, conan.id, Stat::Strength, "alice", now).unwrap();
    }
    let full = store.get_character(conan.id).unwrap();
    assert_eq!(full.training_history.len(), 149);
    now += COOLDOWN;
    assert_eq!(
        train(&mut store, conan.id, Stat::Strength, "alice", now),
        Err(LedgerError::RecordTooLarge)
    );
    assert_eq!(store.get_character(conan.id), Ok(full));
    assert!(store.is_sound());
}

#[test]
fn listing_refuses_a_seller_beyond_the_ceiling() {
    let mut store = Store::new();
    // A listing takes 42 bytes and its seller's name.
    let seller = "s".repeat(512 - 42 + 1);
    let hero = create(&mut store, "Hero", CharacterClass::Cleric, &seller, DAY_ONE);
    assert_eq!(
        list(&mut store, hero.id, 5, &seller, DAY_ONE),
        Err(LedgerError::RecordTooLarge)
    );
    assert_eq!(store.next_id(), 1);
    assert!(store.get_market_listings().is_empty());

    let seller = "s".repeat(512 - 42);
    let hero = create(&mut store, "Hero", CharacterClass::Cleric, &seller, DAY_ONE);
    let listing = list(&mut store, hero.id, 5, &seller, DAY_ONE).unwrap();
    assert_eq!(store.get_market_listings(), vec![listing]);
}

#[test]
fn purchase_refuses_a_buyer_beyond_the_ceiling() {
    let mut store = Store::new();
    let conan = create(&mut store, "Conan", CharacterClass::Warrior, "alice", DAY_ONE);
    let listing = list(&mut store, conan.id, 10, "alice", DAY_ONE).unwrap();
    let buyer = "b".repeat(2000);
    assert_eq!(purchase(&mut store, listing.id, &buyer), Err(LedgerError::RecordTooLarge));
    assert_eq!(store.get_character(conan.id), Ok(conan));
    assert_eq!(store.get_market_listings(), vec![listing.clone()]);
    // The listing is still there for a buyer who fits.
    assert_eq!(purchase(&mut store, listing.id, "bob").unwrap().owner, "bob");
    assert!(store.is_sound());
}

#[test]
fn counter_is_asked_only_where_a_record_would_be_made() {
    let mut store = Store::new();
    let conan = create(&mut store, "Conan", CharacterClass::Warrior, "alice", DAY_ONE);
    let mine = ListCharacterPayload { character_id: conan.id, price: 1 };
    assert!(store.can_list(&mine, &"alice".to_string(), DAY_ONE));
    assert!(store.can_list(&mine, &"mallory".to_string(), DAY_ONE));
    let nobody = ListCharacterPayload { character_id: 99, price: 1 };
    assert!(store.can_list(&nobody, &"alice".to_string(), DAY_ONE));
    let unnamed = CreateCharacterPayload { name: String::new(), class: CharacterClass::Mage };
    assert!(store.can_create(&unnamed, &"alice".to_string(), DAY_ONE));
}
