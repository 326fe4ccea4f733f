use character_market::model::{
    base_stats, training_gain, CharacterClass, LedgerError, Stat, Stats, Subject,
    TRAINING_COOLDOWN,
};

#[test]
fn cooldown_is_six_hours() {
    assert_eq!(TRAINING_COOLDOWN, 6 * 60 * 60);
}

#[test]
fn base_stats_by_class() {
    assert_eq!(
        base_stats(CharacterClass::Warrior),
        Stats { strength: 10, agility: 5, intelligence: 3, vitality: 8, luck: 5 }
    );
    assert_eq!(
        base_stats(CharacterClass::Mage),
        Stats { strength: 3, agility: 5, intelligence: 10, vitality: 4, luck: 6 }
    );
    assert_eq!(
        base_stats(CharacterClass::Cleric),
        Stats { strength: 5, agility: 5, intelligence: 5, vitality: 5, luck: 5 }
    );
}

#[test]
fn training_gain_exact_values() {
    // 6 xor 5 = 3, a multiple of three: the base is 1.
    assert_eq!(training_gain(6, 5, 0), 1);
    // 7 xor 3 = 4: the base is 2.
    assert_eq!(training_gain(7, 3, 9), 2);
    // 8 xor 0 = 8: the base is 3; a luck of 10 adds 1.
    assert_eq!(training_gain(8, 0, 10), 4);
    assert_eq!(training_gain(8, 0, 19), 4);
    assert_eq!(training_gain(8, 0, 257), 28);
    assert_eq!(training_gain(u64::MAX, 0, u32::MAX), 1 + 429_496_729);
}

#[test]
fn stats_get_and_set() {
    let mut stats = Stats { strength: 1, agility: 2, intelligence: 3, vitality: 4, luck: 5 };
    let all = [Stat::Strength, Stat::Agility, Stat::Intelligence, Stat::Vitality, Stat::Luck];
    for (place, stat) in all.into_iter().enumerate() {
        assert_eq!(stats.get(stat), place as u32 + 1);
    }
    stats.set(Stat::Vitality, 40);
    assert_eq!(
        stats,
        Stats { strength: 1, agility: 2, intelligence: 3, vitality: 40, luck: 5 }
    );
}

#[test]
fn error_messages() {
    assert_eq!(LedgerError::InvalidInput.message(), "Name cannot be empty");
    assert_eq!(LedgerError::NotFound(Subject::Character).message(), "Character not found");
    assert_eq!(LedgerError::NotFound(Subject::Listing).message(), "Listing not found");
    assert_eq!(LedgerError::Unauthorized.message(), "Not the character owner");
    assert_eq!(LedgerError::CooldownActive.message(), "Training cooldown not finished");
    assert_eq!(LedgerError::ListingNotActive.message(), "Listing is not active");
    assert_eq!(LedgerError::RecordTooLarge.message(), "Record is too large");
}
