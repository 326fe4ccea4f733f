use vstd::prelude::*;
use vstd::string::*;

verus! {

/// The five counters of a character.
#[derive(Clone, Copy, Debug, PartialEq, Eq, Structural)]
pub struct Stats {
    pub strength: u32,
    pub agility: u32,
    pub intelligence: u32,
    pub vitality: u32,
    pub luck: u32,
}

/// Names one of the five counters of [`Stats`].
#[derive(Clone, Copy, Debug, PartialEq, Eq, Structural)]
pub enum Stat {
    Strength,
    Agility,
    Intelligence,
    Vitality,
    Luck,
}

#[derive(Clone, Copy, Debug, PartialEq, Eq, Structural)]
pub enum Element {
    Fire,
    Water,
    Earth,
    Air,
    Light,
    Dark,
}

#[derive(Clone, Copy, Debug, PartialEq, Eq, Structural)]
pub enum Rarity {
    Common,
    Uncommon,
    Rare,
    Epic,
    Legendary,
}

#[derive(Clone, Copy, Debug, PartialEq, Eq, Structural)]
pub enum CharacterClass {
    Warrior,
    Mage,
    Rogue,
    Cleric,
    Ranger,
}

/// A listing starts `Active`; `Sold` and `Cancelled` are final.
#[derive(Clone, Copy, Debug, PartialEq, Eq, Structural)]
pub enum ListingStatus {
    Active,
    Sold,
    Cancelled,
}

/// One entry of a character's training log.
#[derive(Clone, Copy, Debug, PartialEq, Eq, Structural)]
pub struct TrainingSession {
    pub timestamp: u64,
    pub stat_trained: Stat,
    pub gain: u32,
}

#[derive(Clone, Debug, PartialEq, Eq)]
pub struct Skill {
    pub id: u32,
    pub name: String,
    pub damage: u32,
    pub cooldown: u32,
    pub element: Element,
    pub mastery_level: u32,
}

#[derive(Clone, Debug, PartialEq, Eq)]
pub struct Item {
    pub id: u32,
    pub name: String,
    pub rarity: Rarity,
    pub stat_bonus: Stats,
    pub required_level: u32,
}

/// The three slots in which a character can wear an item.
#[derive(Clone, Debug, PartialEq, Eq)]
pub struct Equipment {
    pub weapon: Option<Item>,
    pub armor: Option<Item>,
    pub accessory: Option<Item>,
}

#[derive(Clone, Debug, PartialEq, Eq)]
pub struct Character {
    pub id: u64,
    pub owner: String,
    pub name: String,
    pub level: u32,
    pub experience: u64,
    pub class: CharacterClass,
    pub stats: Stats,
    pub skills: Vec<Skill>,
    pub equipment: Equipment,
    pub training_history: Vec<TrainingSession>,
    pub creation_date: u64,
    pub last_training: u64,
}

/// An offer to hand a character over at a fixed price.
#[derive(Clone, Debug, PartialEq, Eq)]
pub struct MarketListing {
    pub id: u64,
    pub character_id: u64,
    pub seller: String,
    pub price: u64,
    pub listing_date: u64,
    pub status: ListingStatus,
}

#[derive(Clone, Debug, PartialEq, Eq)]
pub struct CreateCharacterPayload {
    pub name: String,
    pub class: CharacterClass,
}

#[derive(Clone, Copy, Debug, PartialEq, Eq, Structural)]
pub struct TrainCharacterPayload {
    pub character_id: u64,
    pub stat: Stat,
}

#[derive(Clone, Copy, Debug, PartialEq, Eq, Structural)]
pub struct ListCharacterPayload {
    pub character_id: u64,
    pub price: u64,
}

#[derive(Clone, Copy, Debug, PartialEq, Eq, Structural)]
pub struct PurchaseCharacterPayload {
    pub listing_id: u64,
}

/// Which kind of record a lookup missed.
#[derive(Clone, Copy, Debug, PartialEq, Eq, Structural)]
pub enum Subject {
    Character,
    Listing,
}

/// Why an operation on the ledgers was turned down.
#[derive(Clone, Copy, Debug, PartialEq, Eq, Structural)]
pub enum LedgerError {
    /// The name of a new character was empty.
    InvalidInput,
    /// No record is stored under the identifier.
    NotFound(Subject),
    /// The caller does not own the character.
    Unauthorized,
    /// The last training lies less than [`TRAINING_COOLDOWN`] seconds back.
    CooldownActive,
    /// The listing was sold or cancelled before.
    ListingNotActive,
    /// The record that would be stored is longer than its ceiling.
    RecordTooLarge,
}

impl LedgerError {
    /// The sentence that tells the caller why.
    pub open spec fn message_of(self) -> Seq<char> {
        match self {
            LedgerError::InvalidInput => "Name cannot be empty"@,
            LedgerError::NotFound(Subject::Character) => "Character not found"@,
            LedgerError::NotFound(Subject::Listing) => "Listing not found"@,
            LedgerError::Unauthorized => "Not the character owner"@,
            LedgerError::CooldownActive => "Training cooldown not finished"@,
            LedgerError::ListingNotActive => "Listing is not active"@,
            LedgerError::RecordTooLarge => "Record is too large"@,
        }
    }

    pub fn message(&self) -> (text: String)
        ensures
            text@ == self.message_of(),
    {
        match self {
            LedgerError::InvalidInput => String::from_str("Name cannot be empty"),
            LedgerError::NotFound(Subject::Character) => String::from_str("Character not found"),
            LedgerError::NotFound(Subject::Listing) => String::from_str("Listing not found"),
            LedgerError::Unauthorized => String::from_str("Not the character owner"),
            LedgerError::CooldownActive => String::from_str("Training cooldown not finished"),
            LedgerError::ListingNotActive => String::from_str("Listing is not active"),
            LedgerError::RecordTooLarge => String::from_str("Record is too large"),
        }
    }
}

/// Seconds that must pass between two trainings of one character.
pub const TRAINING_COOLDOWN: u64 = 21600;

pub struct SkillView {
    pub id: u32,
    pub name: Seq<char>,
    pub damage: u32,
    pub cooldown: u32,
    pub element: Element,
    pub mastery_level: u32,
}

pub struct ItemView {
    pub id: u32,
    pub name: Seq<char>,
    pub rarity: Rarity,
    pub stat_bonus: Stats,
    pub required_level: u32,
}

pub struct EquipmentView {
    pub weapon: Option<ItemView>,
    pub armor: Option<ItemView>,
    pub accessory: Option<ItemView>,
}

pub struct CharacterView {
    pub id: u64,
    pub owner: Seq<char>,
    pub name: Seq<char>,
    pub level: u32,
    pub experience: u64,
    pub class: CharacterClass,
    pub stats: Stats,
    pub skills: Seq<SkillView>,
    pub equipment: EquipmentView,
    pub training_history: Seq<TrainingSession>,
    pub creation_date: u64,
    pub last_training: u64,
}

pub struct ListingView {
    pub id: u64,
    pub character_id: u64,
    pub seller: Seq<char>,
    pub price: u64,
    pub listing_date: u64,
    pub status: ListingStatus,
}

impl View for Skill {
    type V = SkillView;

    open spec fn view(&self) -> SkillView {
        SkillView {
            id: self.id,
            name: self.name@,
            damage: self.damage,
            cooldown: self.cooldown,
            element: self.element,
            mastery_level: self.mastery_level,
        }
    }
}

impl View for Item {
    type V = ItemView;

    open spec fn view(&self) -> ItemView {
        ItemView {
            id: self.id,
            name: self.name@,
            rarity: self.rarity,
            stat_bonus: self.stat_bonus,
            required_level: self.required_level,
        }
    }
}

/// The view of an equipment slot.
pub open spec fn slot_view(slot: Option<Item>) -> Option<ItemView> {
    match slot {
        Some(item) => Some(item@),
        None => None,
    }
}

impl View for Equipment {
    type V = EquipmentView;

    open spec fn view(&self) -> EquipmentView {
        EquipmentView {
            weapon: slot_view(self.weapon),
            armor: slot_view(self.armor),
            accessory: slot_view(self.accessory),
        }
    }
}

/// The views of a list of skills, in order.
pub open spec fn skill_views(skills: Seq<Skill>) -> Seq<SkillView> {
    Seq::new(skills.len(), |i: int| skills[i]@)
}

impl View for Character {
    type V = CharacterView;

    open spec fn view(&self) -> CharacterView {
        CharacterView {
            id: self.id,
            owner: self.owner@,
            name: self.name@,
            level: self.level,
            experience: self.experience,
            class: self.class,
            stats: self.stats,
            skills: skill_views(self.skills@),
            equipment: self.equipment@,
            training_history: self.training_history@,
            creation_date: self.creation_date,
            last_training: self.last_training,
        }
    }
}

impl View for MarketListing {
    type V = ListingView;

    open spec fn view(&self) -> ListingView {
        ListingView {
            id: self.id,
            character_id: self.character_id,
            seller: self.seller@,
            price: self.price,
            listing_date: self.listing_date,
            status: self.status,
        }
    }
}

impl Stats {
    /// The counter that `stat` names.
    pub open spec fn value_of(self, stat: Stat) -> u32 {
        match stat {
            Stat::Strength => self.strength,
            Stat::Agility => self.agility,
            Stat::Intelligence => self.intelligence,
            Stat::Vitality => self.vitality,
            Stat::Luck => self.luck,
        }
    }

    /// These stats with the counter that `stat` names replaced by `value`.
    pub open spec fn with_value(self, stat: Stat, value: u32) -> Stats {
        match stat {
            Stat::Strength => Stats { strength: value, ..self },
            Stat::Agility => Stats { agility: value, ..self },
            Stat::Intelligence => Stats { intelligence: value, ..self },
            Stat::Vitality => Stats { vitality: value, ..self },
            Stat::Luck => Stats { luck: value, ..self },
        }
    }

    pub fn get(&self, stat: Stat) -> (value: u32)
        ensures
            value == self.value_of(stat),
    {
        match stat {
            Stat::Strength => self.strength,
            Stat::Agility => self.agility,
            Stat::Intelligence => self.intelligence,
            Stat::Vitality => self.vitality,
            Stat::Luck => self.luck,
        }
    }

    pub fn set(&mut self, stat: Stat, value: u32)
        ensures
            *final(self) == old(self).with_value(stat, value),
    {
        match stat {
            Stat::Strength => self.strength = value,
            Stat::Agility => self.agility = value,
            Stat::Intelligence => self.intelligence = value,
            Stat::Vitality => self.vitality = value,
            Stat::Luck => self.luck = value,
        }
    }
}

/// The stats that a character of `class` starts with.
pub open spec fn base_stats_of(class: CharacterClass) -> Stats {
    match class {
        CharacterClass::Warrior => Stats { strength: 10, agility: 5, intelligence: 3, vitality: 8, luck: 5 },
        CharacterClass::Mage => Stats { strength: 3, agility: 5, intelligence: 10, vitality: 4, luck: 6 },
        _ => Stats { strength: 5, agility: 5, intelligence: 5, vitality: 5, luck: 5 },
    }
}

pub fn base_stats(class: CharacterClass) -> (stats: Stats)
    ensures
        stats == base_stats_of(class),
{
    match class {
        CharacterClass::Warrior => Stats { strength: 10, agility: 5, intelligence: 3, vitality: 8, luck: 5 },
        CharacterClass::Mage => Stats { strength: 3, agility: 5, intelligence: 10, vitality: 4, luck: 6 },
        _ => Stats { strength: 5, agility: 5, intelligence: 5, vitality: 5, luck: 5 },
    }
}

/// What one training adds: one to three points, picked by the time and the
/// identifier, and a tenth of the character's luck, rounded down.
pub open spec fn training_gain_of(now: u64, character_id: u64, luck: u32) -> int {
    ((now ^ character_id) % 3) as int + 1 + (luck / 10) as int
}

pub fn training_gain(now: u64, character_id: u64, luck: u32) -> (gain: u32)
    ensures
        gain == training_gain_of(now, character_id, luck),
        1 <= gain <= 3 + luck / 10,
{
    let base: u32 = ((now ^ character_id) % 3 + 1) as u32;
    let luck_bonus: u32 = luck / 10;
    base + luck_bonus
}

} // verus!
