use crate::codec::records::{
    character_of_record, character_record, character_within_ceiling, decode_character,
    decode_listing, encode_character, encode_listing, lemma_character_round_trip,
    lemma_listing_round_trip, lemma_status_keeps_length, listing_of_record, listing_record,
    listing_within_ceiling, CHARACTER_MAX_SIZE, LISTING_MAX_SIZE,
};
use crate::model::{
    base_stats, training_gain, Character, CharacterClass, CharacterView,
    CreateCharacterPayload, Equipment,
    LedgerError, ListCharacterPayload, ListingStatus, ListingView, MarketListing,
    PurchaseCharacterPayload, Subject, TrainCharacterPayload, TrainingSession,
    TRAINING_COOLDOWN,
};
use crate::state::{
    create_outcome, is_active_run, list_outcome, lookup_outcome, new_character,
    purchase_outcome, train_outcome, training_fits, LedgerState,
};
use crate::storage::{
    counter_get, counter_set, counter_value, fresh_regions, open_regions, table_contents,
    table_entries, table_get, table_insert, Counter, Regions, Table,
};
use vstd::pervasive::unreached;
use vstd::prelude::*;

verus! {

/// The memory region of the character ledger.
pub const CHARACTER_REGION: u8 = 0;

/// The memory region of the market ledger.
pub const LISTING_REGION: u8 = 1;

/// The memory region of the identifier counter.
pub const COUNTER_REGION: u8 = 2;

/// The identifier of the first record of an empty store.
pub const FIRST_ID: u64 = 0;

/// The character ledger, the market ledger and the identifier counter that
/// both draw from.
pub struct Store {
    characters: Table,
    listings: Table,
    counter: Counter,
}

/// The characters that the entries of a table stand for.
pub open spec fn characters_of(entries: Map<u64, Seq<u8>>) -> Map<u64, CharacterView> {
    Map::new(
        |id: u64| entries.contains_key(id),
        |id: u64| character_of_record(entries[id]).unwrap(),
    )
}

/// The listings that the entries of a table stand for.
pub open spec fn listings_of(entries: Map<u64, Seq<u8>>) -> Map<u64, ListingView> {
    Map::new(
        |id: u64| entries.contains_key(id),
        |id: u64| listing_of_record(entries[id]).unwrap(),
    )
}

/// What an operation answered, as the ledgers' rules speak of it.
pub open spec fn character_answer(answer: Result<Character, LedgerError>) -> Result<
    CharacterView,
    LedgerError,
> {
    match answer {
        Ok(character) => Ok(character@),
        Err(error) => Err(error),
    }
}

/// What an operation answered, as the ledgers' rules speak of it.
pub open spec fn listing_answer(answer: Result<MarketListing, LedgerError>) -> Result<
    ListingView,
    LedgerError,
> {
    match answer {
        Ok(listing) => Ok(listing@),
        Err(error) => Err(error),
    }
}

/// The views of a list of listings, in order.
pub open spec fn listing_views(listings: Seq<MarketListing>) -> Seq<ListingView> {
    Seq::new(listings.len(), |i: int| listings[i]@)
}

impl View for Store {
    type V = LedgerState;

    closed spec fn view(&self) -> LedgerState {
        LedgerState {
            characters: characters_of(table_contents(self.characters)),
            listings: listings_of(table_contents(self.listings)),
            next_id: counter_value(self.counter),
        }
    }
}

impl Store {
    /// Every stored entry is the record of a character or of a listing.
    pub closed spec fn decodable(&self) -> bool {
        &&& forall|id: u64| #[trigger]
            table_contents(self.characters).contains_key(id) ==> character_of_record(
                table_contents(self.characters)[id],
            ) is Some
        &&& forall|id: u64| #[trigger]
            table_contents(self.listings).contains_key(id) ==> listing_of_record(
                table_contents(self.listings)[id],
            ) is Some
    }

    /// The store can be read, and what it holds is coherent.
    pub open spec fn readable(&self) -> bool {
        self.decodable() && self@.coherent()
    }

    /// The store can be read, and what it holds is valid: every store that
    /// this library hands out is so, and stays so.
    pub open spec fn wf(&self) -> bool {
        self.readable() && self@.referenced()
    }

    /// A store with no record in it, whose first identifier is zero. It
    /// takes the memory's regions for itself and overwrites what they held:
    /// on a canister, where every store stands in the one stable memory, a
    /// process makes one store and no second.
    pub fn new() -> (store: Store)
        ensures
            store.wf(),
            store@ == LedgerState::empty(),
    {
        let regions = fresh_regions(CHARACTER_REGION, LISTING_REGION, COUNTER_REGION, FIRST_ID);
        let store = Store {
            characters: regions.characters,
            listings: regions.listings,
            counter: regions.counter,
        };
        assert(store@.characters =~= Map::empty());
        assert(store@.listings =~= Map::empty());
        store
    }

    /// The entry under `id` is the record of a character that may stand there.
    closed spec fn character_entry_sound(&self, id: u64) -> bool {
        let decoded = character_of_record(table_contents(self.characters)[id]);
        &&& decoded is Some
        &&& decoded.unwrap().id == id
        &&& id < counter_value(self.counter)
        &&& !table_contents(self.listings).contains_key(id)
        &&& decoded.unwrap().name.len() > 0
        &&& decoded.unwrap().creation_date <= decoded.unwrap().last_training
        &&& character_within_ceiling(decoded.unwrap())
    }

    /// The entry under `id` is the record of a listing that may stand there.
    closed spec fn listing_entry_sound(&self, id: u64) -> bool {
        let decoded = listing_of_record(table_contents(self.listings)[id]);
        &&& decoded is Some
        &&& decoded.unwrap().id == id
        &&& id < counter_value(self.counter)
        &&& listing_within_ceiling(decoded.unwrap())
        &&& table_contents(self.characters).contains_key(decoded.unwrap().character_id)
    }

    /// A store is well-formed when each of its entries is sound.
    proof fn lemma_wf_by_entries(&self)
        ensures
            self.wf() <==> {
                &&& forall|id: u64| #[trigger]
                    table_contents(self.characters).contains_key(id)
                        ==> self.character_entry_sound(id)
                &&& forall|id: u64| #[trigger]
                    table_contents(self.listings).contains_key(id) ==> self.listing_entry_sound(
                        id,
                    )
            },
    {
        if self.wf() {
            assert forall|id: u64| #[trigger]
                table_contents(self.characters).contains_key(id) implies self.character_entry_sound(
                id,
            ) by {
                assert(self@.characters.contains_key(id));
                assert(!self@.listings.contains_key(id));
            }
            assert forall|id: u64| #[trigger]
                table_contents(self.listings).contains_key(id) implies self.listing_entry_sound(
                id,
            ) by {
                assert(self@.listings.contains_key(id));
                assert(self@.characters.contains_key(self@.listings[id].character_id));
            }
        }
        if (forall|id: u64| #[trigger]
            table_contents(self.characters).contains_key(id) ==> self.character_entry_sound(id))
            && (forall|id: u64| #[trigger]
            table_contents(self.listings).contains_key(id) ==> self.listing_entry_sound(id)) {
            assert forall|id: u64| #[trigger] self@.characters.contains_key(id) implies {
                &&& self@.characters[id].id == id
                &&& self@.issued(id)
                &&& !self@.listings.contains_key(id)
                &&& self@.characters[id].name.len() > 0
                &&& self@.characters[id].creation_date <= self@.characters[id].last_training
                &&& character_within_ceiling(self@.characters[id])
            } by {
                assert(table_contents(self.characters).contains_key(id));
                assert(self.character_entry_sound(id));
            }
            assert forall|id: u64| #[trigger] self@.listings.contains_key(id) implies {
                &&& self@.listings[id].id == id
                &&& self@.issued(id)
                &&& listing_within_ceiling(self@.listings[id])
                &&& self@.characters.contains_key(self@.listings[id].character_id)
            } by {
                assert(table_contents(self.listings).contains_key(id));
                assert(self.listing_entry_sound(id));
            }
            assert(self@.coherent());
            assert(self@.referenced());
        }
    }

    /// Whether every character entry is sound.
    fn characters_sound(&self) -> (sound: bool)
        ensures
            sound <==> forall|id: u64| #[trigger]
                table_contents(self.characters).contains_key(id) ==> self.character_entry_sound(
                    id,
                ),
    {
        let next = counter_get(&self.counter);
        let entries = table_entries(&self.characters);
        let mut i: usize = 0;
        while i < entries.len()
            invariant
                i <= entries.len(),
                next == counter_value(self.counter),
                forall|j: int|
                    0 <= j < entries.len() ==> table_contents(self.characters).contains_key(
                        #[trigger] entries[j].0,
                    ) && table_contents(self.characters)[entries[j].0] == entries[j].1@,
                forall|j: int| 0 <= j < i ==> self.character_entry_sound(#[trigger] entries[j].0),
            decreases entries.len() - i,
        {
            let id = entries[i].0;
            assert(table_contents(self.characters).contains_key(entries[i as int].0));
            let sound = match decode_character(entries[i].1.as_slice()) {
                Some(character) => character.id == id && id < next
                    && !character.name.as_str().is_empty() && character.creation_date
                    <= character.last_training && encode_character(&character).len()
                    <= CHARACTER_MAX_SIZE && table_get(&self.listings, id).is_none(),
                None => false,
            };
            if !sound {
                assert(!self.character_entry_sound(id));
                return false;
            }
            i += 1;
        }
        assert forall|id: u64| #[trigger]
            table_contents(self.characters).contains_key(id) implies self.character_entry_sound(
            id,
        ) by {
            let j = choose|j: int| 0 <= j < entries.len() && #[trigger] entries[j].0 == id;
            assert(self.character_entry_sound(entries[j].0));
        }
        true
    }

    /// Whether every listing entry is sound.
    fn listings_sound(&self) -> (sound: bool)
        ensures
            sound <==> forall|id: u64| #[trigger]
                table_contents(self.listings).contains_key(id) ==> self.listing_entry_sound(id),
    {
        let next = counter_get(&self.counter);
        let entries = table_entries(&self.listings);
        let mut i: usize = 0;
        while i < entries.len()
            invariant
                i <= entries.len(),
                next == counter_value(self.counter),
                forall|j: int|
                    0 <= j < entries.len() ==> table_contents(self.listings).contains_key(
                        #[trigger] entries[j].0,
                    ) && table_contents(self.listings)[entries[j].0] == entries[j].1@,
                forall|j: int| 0 <= j < i ==> self.listing_entry_sound(#[trigger] entries[j].0),
            decreases entries.len() - i,
        {
            let id = entries[i].0;
            assert(table_contents(self.listings).contains_key(entries[i as int].0));
            let sound = match decode_listing(entries[i].1.as_slice()) {
                Some(listing) => listing.id == id && id < next && encode_listing(&listing).len()
                    <= LISTING_MAX_SIZE && table_get(
                    &self.characters,
                    listing.character_id,
                ).is_some(),
                None => false,
            };
            if !sound {
                assert(!self.listing_entry_sound(id));
                return false;
            }
            i += 1;
        }
        assert forall|id: u64| #[trigger]
            table_contents(self.listings).contains_key(id) implies self.listing_entry_sound(
            id,
        ) by {
            let j = choose|j: int| 0 <= j < entries.len() && #[trigger] entries[j].0 == id;
            assert(self.listing_entry_sound(entries[j].0));
        }
        true
    }

    /// Whether the store is well-formed, looked up record by record.
    pub fn is_sound(&self) -> (sound: bool)
        ensures
            sound == self.wf(),
    {
        proof {
            self.lemma_wf_by_entries();
        }
        self.characters_sound() && self.listings_sound()
    }

    /// The store that the memory holds: what an earlier run has left there,
    /// or an empty one where none has. Nothing is handed out where the memory
    /// holds something else than a well-formed store, records in another
    /// encoding among it; as for `new`, a process on a canister opens one.
    pub fn open() -> (store: Option<Store>)
        ensures
            store is Some ==> store->0.wf(),
    {
        Store::adopt(open_regions(CHARACTER_REGION, LISTING_REGION, COUNTER_REGION, FIRST_ID))
    }

    /// The store that is made of the three structures as they are.
    pub(crate) closed spec fn over(regions: Regions) -> Store {
        Store {
            characters: regions.characters,
            listings: regions.listings,
            counter: regions.counter,
        }
    }

    /// Takes three structures for a store: handed out is the store made of
    /// them, where that store is well-formed, and nothing where it is not.
    pub(crate) fn adopt(regions: Regions) -> (store: Option<Store>)
        ensures
            store is Some <==> Store::over(regions).wf(),
            store is Some ==> store->0 == Store::over(regions),
    {
        let store = Store {
            characters: regions.characters,
            listings: regions.listings,
            counter: regions.counter,
        };
        if store.is_sound() {
            Some(store)
        } else {
            None
        }
    }

    /// The identifier that the next new record gets.
    pub fn next_id(&self) -> (id: u64)
        ensures
            id == self@.next_id,
    {
        counter_get(&self.counter)
    }

    /// Takes the next identifier and moves the counter past it.
    fn issue_id(&mut self) -> (id: u64)
        requires
            old(self).decodable(),
            old(self)@.has_free_id(),
        ensures
            id == old(self)@.next_id,
            final(self).decodable(),
            final(self)@ == (LedgerState { next_id: (id + 1) as u64, ..old(self)@ }),
    {
        let id = counter_get(&self.counter);
        counter_set(&mut self.counter, id + 1);
        id
    }

    /// The character stored under `id`.
    fn load_character(&self, id: u64) -> (found: Option<Character>)
        requires
            self.decodable(),
        ensures
            match found {
                Some(character) => self@.characters.contains_key(id) && self@.characters[id]
                    == character@,
                None => !self@.characters.contains_key(id),
            },
    {
        match table_get(&self.characters, id) {
            Some(bytes) => {
                match decode_character(bytes.as_slice()) {
                    Some(character) => Some(character),
                    None => unreached(),
                }
            },
            None => None,
        }
    }

    /// The stored form of `character`, where it is within its ceiling.
    fn character_record_within(character: &Character) -> (record: Option<Vec<u8>>)
        ensures
            record is Some <==> character_within_ceiling(character@),
            record is Some ==> record->0@ == character_record(character@),
            record is Some ==> character_of_record(record->0@) == Some(character@),
    {
        let bytes = encode_character(character);
        proof {
            lemma_character_round_trip(character@);
        }
        if bytes.len() <= CHARACTER_MAX_SIZE {
            Some(bytes)
        } else {
            None
        }
    }

    /// Stores the record of a character under `id`, in place of what was there.
    fn save_character(&mut self, id: u64, record: Vec<u8>)
        requires
            old(self).decodable(),
            character_of_record(record@) is Some,
            record@.len() <= CHARACTER_MAX_SIZE,
        ensures
            final(self).decodable(),
            final(self)@ == (LedgerState {
                characters: old(self)@.characters.insert(
                    id,
                    character_of_record(record@).unwrap(),
                ),
                ..old(self)@
            }),
    {
        let ghost character = character_of_record(record@).unwrap();
        table_insert(&mut self.characters, id, record);
        assert(self@.characters =~= old(self)@.characters.insert(id, character));
    }

    /// The listing stored under `id`.
    fn load_listing(&self, id: u64) -> (found: Option<MarketListing>)
        requires
            self.decodable(),
        ensures
            match found {
                Some(listing) => self@.listings.contains_key(id) && self@.listings[id]
                    == listing@,
                None => !self@.listings.contains_key(id),
            },
    {
        match table_get(&self.listings, id) {
            Some(bytes) => {
                match decode_listing(bytes.as_slice()) {
                    Some(listing) => Some(listing),
                    None => unreached(),
                }
            },
            None => None,
        }
    }

    /// The stored form of `listing`, where it is within its ceiling.
    fn listing_record_within(listing: &MarketListing) -> (record: Option<Vec<u8>>)
        ensures
            record is Some <==> listing_within_ceiling(listing@),
            record is Some ==> record->0@ == listing_record(listing@),
            record is Some ==> listing_of_record(record->0@) == Some(listing@),
    {
        let bytes = encode_listing(listing);
        proof {
            lemma_listing_round_trip(listing@);
        }
        if bytes.len() <= LISTING_MAX_SIZE {
            Some(bytes)
        } else {
            None
        }
    }

    /// Stores the record of a listing under `id`, in place of what was there.
    fn save_listing(&mut self, id: u64, record: Vec<u8>)
        requires
            old(self).decodable(),
            listing_of_record(record@) is Some,
            record@.len() <= LISTING_MAX_SIZE,
        ensures
            final(self).decodable(),
            final(self)@ == (LedgerState {
                listings: old(self)@.listings.insert(id, listing_of_record(record@).unwrap()),
                ..old(self)@
            }),
    {
        let ghost listing = listing_of_record(record@).unwrap();
        table_insert(&mut self.listings, id, record);
        assert(self@.listings =~= old(self)@.listings.insert(id, listing));
    }

    /// A character as it is made, under the identifier `id`.
    fn draft_character(
        id: u64,
        name: String,
        class: CharacterClass,
        owner: String,
        now: u64,
    ) -> (character: Character)
        ensures
            character@ == new_character(id, name@, class, owner@, now),
    {
        let character = Character {
            id,
            owner,
            name,
            level: 1,
            experience: 0,
            class,
            stats: base_stats(class),
            skills: Vec::new(),
            equipment: Equipment { weapon: None, armor: None, accessory: None },
            training_history: Vec::new(),
            creation_date: now,
            last_training: now,
        };
        assert(character@.skills =~= Seq::empty());
        character
    }

    /// Whether the counter has the identifier that making the character
    /// would take, where the character would be made.
    pub fn can_create(&self, payload: &CreateCharacterPayload, caller: &String, now: u64) -> (fits:
        bool)
        requires
            self.wf(),
        ensures
            fits == (create_outcome(self@, payload.name@, payload.class, caller@, now).result
                is Ok ==> self@.has_free_id()),
    {
        if self.has_free_id() || payload.name.as_str().is_empty() {
            return true;
        }
        let draft = Store::draft_character(
            self.next_id(),
            payload.name.clone(),
            payload.class,
            caller.clone(),
            now,
        );
        Store::character_record_within(&draft).is_none()
    }

    /// Makes a character for `caller` at the time `now`.
    pub fn create_character(
        &mut self,
        payload: CreateCharacterPayload,
        caller: String,
        now: u64,
    ) -> (answer: Result<Character, LedgerError>)
        requires
            old(self).wf(),
            create_outcome(old(self)@, payload.name@, payload.class, caller@, now).result is Ok
                ==> old(self)@.has_free_id(),
        ensures
            final(self).wf(),
            final(self)@ == create_outcome(
                old(self)@,
                payload.name@,
                payload.class,
                caller@,
                now,
            ).state,
            character_answer(answer) == create_outcome(
                old(self)@,
                payload.name@,
                payload.class,
                caller@,
                now,
            ).result,
    {
        if payload.name.as_str().is_empty() {
            return Err(LedgerError::InvalidInput);
        }
        let id = self.next_id();
        let character = Store::draft_character(id, payload.name, payload.class, caller, now);
        let record = match Store::character_record_within(&character) {
            Some(record) => record,
            None => {
                return Err(LedgerError::RecordTooLarge);
            },
        };
        self.issue_id();
        self.save_character(id, record);
        Ok(character)
    }

    /// Whether the counter can hand out one more identifier.
    pub fn has_free_id(&self) -> (free: bool)
        ensures
            free == self@.has_free_id(),
    {
        counter_get(&self.counter) < u64::MAX
    }

    /// Whether the stat that a training would grow still fits its counter.
    pub fn can_train(&self, payload: &TrainCharacterPayload, caller: &String, now: u64) -> (fits:
        bool)
        requires
            self.wf(),
        ensures
            fits == training_fits(self@, payload.character_id, payload.stat, caller@, now),
    {
        match self.load_character(payload.character_id) {
            Some(character) => {
                if !(character.owner == *caller) || now < character.last_training || now
                    - character.last_training < TRAINING_COOLDOWN {
                    true
                } else {
                    let gain = training_gain(now, payload.character_id, character.stats.luck);
                    character.stats.get(payload.stat) <= u32::MAX - gain
                }
            },
            None => true,
        }
    }

    /// Trains one stat of a character for `caller` at the time `now`.
    pub fn train_character(
        &mut self,
        payload: TrainCharacterPayload,
        caller: String,
        now: u64,
    ) -> (answer: Result<Character, LedgerError>)
        requires
            old(self).wf(),
            training_fits(old(self)@, payload.character_id, payload.stat, caller@, now),
        ensures
            final(self).wf(),
            final(self)@ == train_outcome(
                old(self)@,
                payload.character_id,
                payload.stat,
                caller@,
                now,
            ).state,
            character_answer(answer) == train_outcome(
                old(self)@,
                payload.character_id,
                payload.stat,
                caller@,
                now,
            ).result,
    {
        let mut character = match self.load_character(payload.character_id) {
            Some(character) => character,
            None => {
                return Err(LedgerError::NotFound(Subject::Character));
            },
        };
        if !(character.owner == caller) {
            return Err(LedgerError::Unauthorized);
        }
        if now < character.last_training || now - character.last_training < TRAINING_COOLDOWN {
            return Err(LedgerError::CooldownActive);
        }
        let gain = training_gain(now, payload.character_id, character.stats.luck);
        let grown = character.stats.get(payload.stat) + gain;
        character.stats.set(payload.stat, grown);
        character.training_history.push(
            TrainingSession { timestamp: now, stat_trained: payload.stat, gain },
        );
        character.last_training = now;
        let record = match Store::character_record_within(&character) {
            Some(record) => record,
            None => {
                return Err(LedgerError::RecordTooLarge);
            },
        };
        self.save_character(payload.character_id, record);
        Ok(character)
    }

    /// Whether the counter has the identifier that the listing would take,
    /// where the listing would be made.
    pub fn can_list(&self, payload: &ListCharacterPayload, caller: &String, now: u64) -> (fits:
        bool)
        requires
            self.wf(),
        ensures
            fits == (list_outcome(
                self@,
                payload.character_id,
                payload.price,
                caller@,
                now,
            ).result is Ok ==> self@.has_free_id()),
    {
        if self.has_free_id() {
            return true;
        }
        match self.load_character(payload.character_id) {
            Some(character) => {
                if !(character.owner == *caller) {
                    true
                } else {
                    let draft = MarketListing {
                        id: self.next_id(),
                        character_id: payload.character_id,
                        seller: caller.clone(),
                        price: payload.price,
                        listing_date: now,
                        status: ListingStatus::Active,
                    };
                    Store::listing_record_within(&draft).is_none()
                }
            },
            None => true,
        }
    }

    /// Offers a character of `caller` for sale at the time `now`.
    pub fn list_character(
        &mut self,
        payload: ListCharacterPayload,
        caller: String,
        now: u64,
    ) -> (answer: Result<MarketListing, LedgerError>)
        requires
            old(self).wf(),
            list_outcome(old(self)@, payload.character_id, payload.price, caller@, now).result
                is Ok ==> old(self)@.has_free_id(),
        ensures
            final(self).wf(),
            final(self)@ == list_outcome(
                old(self)@,
                payload.character_id,
                payload.price,
                caller@,
                now,
            ).state,
            listing_answer(answer) == list_outcome(
                old(self)@,
                payload.character_id,
                payload.price,
                caller@,
                now,
            ).result,
    {
        let character = match self.load_character(payload.character_id) {
            Some(character) => character,
            None => {
                return Err(LedgerError::NotFound(Subject::Character));
            },
        };
        if !(character.owner == caller) {
            return Err(LedgerError::Unauthorized);
        }
        let id = self.next_id();
        let listing = MarketListing {
            id,
            character_id: payload.character_id,
            seller: caller,
            price: payload.price,
            listing_date: now,
            status: ListingStatus::Active,
        };
        let record = match Store::listing_record_within(&listing) {
            Some(record) => record,
            None => {
                return Err(LedgerError::RecordTooLarge);
            },
        };
        self.issue_id();
        self.save_listing(id, record);
        Ok(listing)
    }

    /// Hands the character of an active listing over to `buyer` and marks
    /// the listing as sold. It asks only for a store that can be read, and
    /// so answers for a listing whose character is missing too.
    pub fn purchase_character(&mut self, payload: PurchaseCharacterPayload, buyer: String) -> (answer:
        Result<Character, LedgerError>)
        requires
            old(self).readable(),
        ensures
            final(self).readable(),
            old(self).wf() ==> final(self).wf(),
            final(self)@ == purchase_outcome(old(self)@, payload.listing_id, buyer@).state,
            character_answer(answer) == purchase_outcome(
                old(self)@,
                payload.listing_id,
                buyer@,
            ).result,
    {
        let mut listing = match self.load_listing(payload.listing_id) {
            Some(listing) => listing,
            None => {
                return Err(LedgerError::NotFound(Subject::Listing));
            },
        };
        match listing.status {
            ListingStatus::Active => {},
            _ => {
                return Err(LedgerError::ListingNotActive);
            },
        }
        let mut character = match self.load_character(listing.character_id) {
            Some(character) => character,
            None => {
                return Err(LedgerError::NotFound(Subject::Character));
            },
        };
        character.owner = buyer;
        let character_record = match Store::character_record_within(&character) {
            Some(record) => record,
            None => {
                return Err(LedgerError::RecordTooLarge);
            },
        };
        proof {
            lemma_status_keeps_length(listing@, ListingStatus::Sold);
        }
        listing.status = ListingStatus::Sold;
        let listing_record = match Store::listing_record_within(&listing) {
            Some(record) => record,
            None => unreached(),
        };
        self.save_character(listing.character_id, character_record);
        self.save_listing(payload.listing_id, listing_record);
        Ok(character)
    }

    /// The listings that are active, by rising identifier.
    pub fn get_market_listings(&self) -> (listings: Vec<MarketListing>)
        requires
            self.wf(),
        ensures
            is_active_run(self@, listing_views(listings@)),
    {
        let entries = table_entries(&self.listings);
        let mut active: Vec<MarketListing> = Vec::new();
        let ghost mut picks: Seq<int> = Seq::empty();
        let mut i: usize = 0;
        while i < entries.len()
            invariant
                self.wf(),
                i <= entries.len(),
                forall|a: int, b: int| 0 <= a < b < entries.len() ==> entries[a].0 < entries[b].0,
                forall|j: int|
                    0 <= j < entries.len() ==> table_contents(self.listings).contains_key(
                        #[trigger] entries[j].0,
                    ) && table_contents(self.listings)[entries[j].0] == entries[j].1@,
                picks.len() == active.len(),
                forall|a: int| 0 <= a < picks.len() ==> 0 <= #[trigger] picks[a] < i,
                forall|a: int|
                    0 <= a < active.len() ==> (#[trigger] active[a])@
                        == self@.listings[entries[picks[a]].0],
                forall|a: int|
                    0 <= a < active.len() ==> (#[trigger] active[a]).status
                        == ListingStatus::Active,
                forall|a: int, b: int| 0 <= a < b < picks.len() ==> picks[a] < picks[b],
                forall|j: int|
                    0 <= j < i && (#[trigger] self@.listings[entries[j].0]).status
                        == ListingStatus::Active ==> exists|a: int|
                        0 <= a < picks.len() && picks[a] == j,
            decreases entries.len() - i,
        {
            assert(table_contents(self.listings).contains_key(entries[i as int].0));
            let ghost earlier = picks;
            let ghost found = active@;
            match decode_listing(entries[i].1.as_slice()) {
                Some(listing) => {
                    match listing.status {
                        ListingStatus::Active => {
                            assert(self@.listings[entries[i as int].0] == listing@);
                            active.push(listing);
                            proof {
                                picks = picks.push(i as int);
                                assert forall|a: int| 0 <= a < active.len() implies (
                                #[trigger] active[a])@ == self@.listings[entries[picks[a]].0]
                                    && active[a].status == ListingStatus::Active by {
                                    if a < earlier.len() {
                                        assert(picks[a] == earlier[a]);
                                        assert(active[a] == found[a]);
                                    }
                                }
                                assert forall|j: int|
                                    0 <= j < i + 1 && (#[trigger] self@.listings[entries[j].0]).status
                                        == ListingStatus::Active implies exists|a: int|
                                    0 <= a < picks.len() && picks[a] == j by {
                                    if j < i {
                                        let a = choose|a: int|
                                            0 <= a < earlier.len() && earlier[a] == j;
                                        assert(picks[a] == j);
                                    } else {
                                        assert(picks[picks.len() - 1] == j);
                                    }
                                }
                            }
                        },
                        _ => {
                            assert(self@.listings[entries[i as int].0] == listing@);
                        },
                    }
                },
                None => unreached(),
            }
            i += 1;
        }
        proof {
            let run = listing_views(active@);
            assert forall|a: int| 0 <= a < run.len() implies {
                &&& #[trigger] run[a] == self@.listings[entries[picks[a]].0]
                &&& self@.listings.contains_key(entries[picks[a]].0)
                &&& run[a].id == entries[picks[a]].0
            } by {
                let key = entries[picks[a]].0;
                assert(table_contents(self.listings).contains_key(key));
                assert(self@.listings.contains_key(key));
                assert(run[a] == active[a]@);
            }
            assert forall|id: u64|
                #![trigger self@.listings.contains_key(id)]
                self@.listings.contains_key(id) && self@.listings[id].status
                    == ListingStatus::Active implies exists|a: int|
                0 <= a < run.len() && #[trigger] run[a].id == id by {
                assert(table_contents(self.listings).contains_key(id));
                let j = choose|j: int| 0 <= j < entries.len() && #[trigger] entries[j].0 == id;
                let a = choose|a: int| 0 <= a < picks.len() && picks[a] == j;
                assert(run[a] == self@.listings[entries[picks[a]].0]);
            }
        }
        active
    }

    /// The character stored under `character_id`.
    pub fn get_character(&self, character_id: u64) -> (answer: Result<Character, LedgerError>)
        requires
            self.wf(),
        ensures
            character_answer(answer) == lookup_outcome(self@, character_id),
    {
        match self.load_character(character_id) {
            Some(character) => Ok(character),
            None => Err(LedgerError::NotFound(Subject::Character)),
        }
    }
}

} // verus!
