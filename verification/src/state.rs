use crate::codec::records::{character_within_ceiling, listing_within_ceiling};
use crate::model::{
    base_stats_of, training_gain_of, CharacterClass, CharacterView, EquipmentView, LedgerError,
    ListingStatus, ListingView, Stat, Subject, TrainingSession, TRAINING_COOLDOWN,
};
use vstd::prelude::*;

verus! {

/// What the two ledgers and the identifier counter hold.
pub struct LedgerState {
    /// The characters, each under its identifier.
    pub characters: Map<u64, CharacterView>,
    /// The listings, each under its identifier.
    pub listings: Map<u64, ListingView>,
    /// The identifier that the next new record gets.
    pub next_id: u64,
}

/// The ledgers after an operation, and what the operation answers.
pub struct Outcome<T> {
    pub state: LedgerState,
    pub result: Result<T, LedgerError>,
}

impl LedgerState {
    /// Identifiers below this one have been handed out, no other.
    pub open spec fn issued(self, id: u64) -> bool {
        id < self.next_id
    }

    /// Every record stands under its own identifier, which was handed out
    /// and names no record of the other ledger, and its stored form is
    /// within its ceiling; a character has a name and was not trained before
    /// it was made.
    pub open spec fn coherent(self) -> bool {
        &&& forall|id: u64| #[trigger]
            self.characters.contains_key(id) ==> {
                &&& self.characters[id].id == id
                &&& self.issued(id)
                &&& !self.listings.contains_key(id)
                &&& self.characters[id].name.len() > 0
                &&& self.characters[id].creation_date <= self.characters[id].last_training
                &&& character_within_ceiling(self.characters[id])
            }
        &&& forall|id: u64| #[trigger]
            self.listings.contains_key(id) ==> {
                &&& self.listings[id].id == id
                &&& self.issued(id)
                &&& listing_within_ceiling(self.listings[id])
            }
    }

    /// Every listing refers to a character that is stored.
    pub open spec fn referenced(self) -> bool {
        forall|id: u64| #[trigger]
            self.listings.contains_key(id) ==> self.characters.contains_key(
                self.listings[id].character_id,
            )
    }

    /// The ledgers are coherent and every listing refers to a character.
    pub open spec fn valid(self) -> bool {
        self.coherent() && self.referenced()
    }

    /// The counter can hand out one more identifier.
    pub open spec fn has_free_id(self) -> bool {
        self.next_id < u64::MAX
    }

    /// The ledgers with nothing in them.
    pub open spec fn empty() -> LedgerState {
        LedgerState { characters: Map::empty(), listings: Map::empty(), next_id: 0 }
    }
}

/// A character as it is made: level one, no experience, the stats of its
/// class, nothing learnt, worn or trained.
pub open spec fn new_character(
    id: u64,
    name: Seq<char>,
    class: CharacterClass,
    owner: Seq<char>,
    now: u64,
) -> CharacterView {
    CharacterView {
        id,
        owner,
        name,
        level: 1,
        experience: 0,
        class,
        stats: base_stats_of(class),
        skills: Seq::empty(),
        equipment: EquipmentView { weapon: None, armor: None, accessory: None },
        training_history: Seq::empty(),
        creation_date: now,
        last_training: now,
    }
}

/// Making a character: refused for an empty name and for a record beyond
/// the ceiling, in this order; else stored under the next identifier with
/// the caller as its owner.
pub open spec fn create_outcome(
    before: LedgerState,
    name: Seq<char>,
    class: CharacterClass,
    caller: Seq<char>,
    now: u64,
) -> Outcome<CharacterView> {
    if name.len() == 0 {
        Outcome { state: before, result: Err(LedgerError::InvalidInput) }
    } else {
        let character = new_character(before.next_id, name, class, caller, now);
        if !character_within_ceiling(character) {
            Outcome { state: before, result: Err(LedgerError::RecordTooLarge) }
        } else {
            Outcome {
                state: LedgerState {
                    characters: before.characters.insert(before.next_id, character),
                    next_id: (before.next_id + 1) as u64,
                    ..before
                },
                result: Ok(character),
            }
        }
    }
}

/// The time since the last training is shorter than the cooldown.
pub open spec fn cooling_down(character: CharacterView, now: u64) -> bool {
    now - character.last_training < TRAINING_COOLDOWN
}

/// The character after one training of `stat` at `now` that adds `gain`.
pub open spec fn trained(character: CharacterView, stat: Stat, now: u64, gain: int) -> CharacterView {
    CharacterView {
        stats: character.stats.with_value(
            stat,
            (character.stats.value_of(stat) + gain) as u32,
        ),
        training_history: character.training_history.push(
            TrainingSession { timestamp: now, stat_trained: stat, gain: gain as u32 },
        ),
        last_training: now,
        ..character
    }
}

/// Training: refused for an unknown character, for a caller who is not its
/// owner, during the cooldown, and where the longer log takes the record
/// beyond the ceiling, in this order; else the stat grows by the gain, the
/// session is logged and the cooldown starts anew.
pub open spec fn train_outcome(
    before: LedgerState,
    character_id: u64,
    stat: Stat,
    caller: Seq<char>,
    now: u64,
) -> Outcome<CharacterView> {
    if !before.characters.contains_key(character_id) {
        Outcome { state: before, result: Err(LedgerError::NotFound(Subject::Character)) }
    } else {
        let character = before.characters[character_id];
        if character.owner != caller {
            Outcome { state: before, result: Err(LedgerError::Unauthorized) }
        } else if cooling_down(character, now) {
            Outcome { state: before, result: Err(LedgerError::CooldownActive) }
        } else {
            let gain = training_gain_of(now, character_id, character.stats.luck);
            let after = trained(character, stat, now, gain);
            if !character_within_ceiling(after) {
                Outcome { state: before, result: Err(LedgerError::RecordTooLarge) }
            } else {
                Outcome {
                    state: LedgerState {
                        characters: before.characters.insert(character_id, after),
                        ..before
                    },
                    result: Ok(after),
                }
            }
        }
    }
}

/// Where the training gets as far as the gain, the grown stat fits its counter.
pub open spec fn training_fits(
    before: LedgerState,
    character_id: u64,
    stat: Stat,
    caller: Seq<char>,
    now: u64,
) -> bool {
    before.characters.contains_key(character_id) && before.characters[character_id].owner
        == caller && !cooling_down(before.characters[character_id], now) ==> {
        let character = before.characters[character_id];
        character.stats.value_of(stat) + training_gain_of(
            now,
            character_id,
            character.stats.luck,
        ) <= u32::MAX
    }
}

/// Listing: refused for an unknown character, for a caller who is not its
/// owner, and for a record beyond the ceiling, in this order; else an active
/// listing is stored under the next identifier with the caller as seller.
/// The character is not touched.
pub open spec fn list_outcome(
    before: LedgerState,
    character_id: u64,
    price: u64,
    caller: Seq<char>,
    now: u64,
) -> Outcome<ListingView> {
    if !before.characters.contains_key(character_id) {
        Outcome { state: before, result: Err(LedgerError::NotFound(Subject::Character)) }
    } else if before.characters[character_id].owner != caller {
        Outcome { state: before, result: Err(LedgerError::Unauthorized) }
    } else {
        let listing = ListingView {
            id: before.next_id,
            character_id,
            seller: caller,
            price,
            listing_date: now,
            status: ListingStatus::Active,
        };
        if !listing_within_ceiling(listing) {
            Outcome { state: before, result: Err(LedgerError::RecordTooLarge) }
        } else {
            Outcome {
                state: LedgerState {
                    listings: before.listings.insert(before.next_id, listing),
                    next_id: (before.next_id + 1) as u64,
                    ..before
                },
                result: Ok(listing),
            }
        }
    }
}

/// Purchase: refused for an unknown listing, for one that is not active,
/// for one whose character is gone, and where the buyer's name takes the
/// character's record beyond the ceiling, in this order; else the listing
/// is sold and the character belongs to the buyer, both at once.
pub open spec fn purchase_outcome(
    before: LedgerState,
    listing_id: u64,
    buyer: Seq<char>,
) -> Outcome<CharacterView> {
    if !before.listings.contains_key(listing_id) {
        Outcome { state: before, result: Err(LedgerError::NotFound(Subject::Listing)) }
    } else {
        let listing = before.listings[listing_id];
        if listing.status != ListingStatus::Active {
            Outcome { state: before, result: Err(LedgerError::ListingNotActive) }
        } else if !before.characters.contains_key(listing.character_id) {
            Outcome { state: before, result: Err(LedgerError::NotFound(Subject::Character)) }
        } else {
            let character = CharacterView {
                owner: buyer,
                ..before.characters[listing.character_id]
            };
            if !character_within_ceiling(character) {
                Outcome { state: before, result: Err(LedgerError::RecordTooLarge) }
            } else {
                Outcome {
                    state: LedgerState {
                        characters: before.characters.insert(listing.character_id, character),
                        listings: before.listings.insert(
                            listing_id,
                            ListingView { status: ListingStatus::Sold, ..listing },
                        ),
                        ..before
                    },
                    result: Ok(character),
                }
            }
        }
    }
}

/// The character stored under `character_id`, if there is one.
pub open spec fn lookup_outcome(state: LedgerState, character_id: u64) -> Result<
    CharacterView,
    LedgerError,
> {
    if state.characters.contains_key(character_id) {
        Ok(state.characters[character_id])
    } else {
        Err(LedgerError::NotFound(Subject::Character))
    }
}

/// `run` is the active listings of `state`, each once, by rising identifier.
pub open spec fn is_active_run(state: LedgerState, run: Seq<ListingView>) -> bool {
    &&& forall|i: int, j: int| 0 <= i < j < run.len() ==> run[i].id < run[j].id
    &&& forall|i: int|
        0 <= i < run.len() ==> {
            &&& state.listings.contains_key(#[trigger] run[i].id)
            &&& state.listings[run[i].id] == run[i]
            &&& run[i].status == ListingStatus::Active
        }
    &&& forall|id: u64|
        #![trigger state.listings.contains_key(id)]
        state.listings.contains_key(id) && state.listings[id].status == ListingStatus::Active
            ==> exists|i: int| 0 <= i < run.len() && #[trigger] run[i].id == id
}

} // verus!
