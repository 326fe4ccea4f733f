//! The stable structures that hold the ledgers.
//!
//! Nothing in this file is proved: each contract says what the structure's
//! own code does, and the rest of the library is proved from these
//! contracts. A structure that cannot grow its memory region any further
//! stops the program; the contracts do not speak of that. They take each
//! structure to be alone in its region: on a canister, where the default
//! memory is the one stable memory, a process makes one set of regions.

use ic_stable_structures::memory_manager::{MemoryId, MemoryManager, VirtualMemory};
use ic_stable_structures::{Cell, DefaultMemoryImpl, StableBTreeMap};
use vstd::prelude::*;

verus! {

/// A `StableBTreeMap` from identifiers to encoded records, in a memory
/// region of its own.
#[verifier::external_body]
pub struct Table {
    inner: StableBTreeMap<u64, Vec<u8>, VirtualMemory<DefaultMemoryImpl>>,
}

/// A stable `Cell` that holds one `u64`, in a memory region of its own.
#[verifier::external_body]
pub struct Counter {
    inner: Cell<u64, VirtualMemory<DefaultMemoryImpl>>,
}

/// The entries of a table.
pub uninterp spec fn table_contents(table: Table) -> Map<u64, Seq<u8>>;

/// The number in a counter.
pub uninterp spec fn counter_value(counter: Counter) -> u64;

/// The three structures of a store.
pub(crate) struct Regions {
    pub characters: Table,
    pub listings: Table,
    pub counter: Counter,
}

/// `MemoryManager::init` over a memory of the default kind, then
/// `StableBTreeMap::new` in the first two of the given regions and
/// `Cell::new` in the third: `new` overwrites what a region held, so both
/// tables are empty and the counter holds `first`. The regions differ,
/// because two structures in one region damage each other, and none is 255,
/// which `MemoryId::new` refuses.
#[verifier::external_body]
pub(crate) fn fresh_regions(characters: u8, listings: u8, counter: u8, first: u64) -> (regions:
    Regions)
    requires
        characters != listings && characters != counter && listings != counter,
        characters < 255 && listings < 255 && counter < 255,
    ensures
        table_contents(regions.characters).dom() == Set::<u64>::empty(),
        table_contents(regions.listings).dom() == Set::<u64>::empty(),
        counter_value(regions.counter) == first,
{
    let manager = MemoryManager::init(DefaultMemoryImpl::default());
    let characters = StableBTreeMap::new(manager.get(MemoryId::new(characters)));
    let listings = StableBTreeMap::new(manager.get(MemoryId::new(listings)));
    let counter = Cell::new(manager.get(MemoryId::new(counter)), first);
    Regions {
        characters: Table { inner: characters },
        listings: Table { inner: listings },
        counter: Counter { inner: counter },
    }
}

/// `MemoryManager::init` over a memory of the default kind, then
/// `StableBTreeMap::init` in the first two of the given regions and
/// `Cell::init` in the third: `init` loads what a region holds, so nothing
/// is known of the result. A region whose header cannot be read stops the
/// program. The regions differ and none is 255, as for `fresh_regions`.
#[verifier::external_body]
pub(crate) fn open_regions(characters: u8, listings: u8, counter: u8, first: u64) -> (regions:
    Regions)
    requires
        characters != listings && characters != counter && listings != counter,
        characters < 255 && listings < 255 && counter < 255,
{
    let manager = MemoryManager::init(DefaultMemoryImpl::default());
    let characters = StableBTreeMap::init(manager.get(MemoryId::new(characters)));
    let listings = StableBTreeMap::init(manager.get(MemoryId::new(listings)));
    let counter = Cell::init(manager.get(MemoryId::new(counter)), first);
    Regions {
        characters: Table { inner: characters },
        listings: Table { inner: listings },
        counter: Counter { inner: counter },
    }
}

/// `StableBTreeMap::get`: the value stored under `key`, if there is one.
#[verifier::external_body]
pub(crate) fn table_get(table: &Table, key: u64) -> (found: Option<Vec<u8>>)
    ensures
        found is Some <==> table_contents(*table).contains_key(key),
        found is Some ==> found->0@ == table_contents(*table)[key],
{
    table.inner.get(&key)
}

/// `StableBTreeMap::insert`: afterwards `value` is stored under `key`, in
/// place of what was there; the other entries are as before. The tree
/// writes a value's length down in four bytes, so a longer value would not
/// be read back whole.
#[verifier::external_body]
pub(crate) fn table_insert(table: &mut Table, key: u64, value: Vec<u8>)
    requires
        value@.len() <= u32::MAX,
    ensures
        table_contents(*final(table)) == table_contents(*old(table)).insert(key, value@),
{
    table.inner.insert(key, value);
}

/// `StableBTreeMap::iter`, each entry taken out with `LazyEntry::into_pair`:
/// every entry once, by rising key.
#[verifier::external_body]
pub(crate) fn table_entries(table: &Table) -> (entries: Vec<(u64, Vec<u8>)>)
    ensures
        forall|i: int, j: int| 0 <= i < j < entries.len() ==> entries[i].0 < entries[j].0,
        forall|i: int|
            0 <= i < entries.len() ==> table_contents(*table).contains_key(
                #[trigger] entries[i].0,
            ) && table_contents(*table)[entries[i].0] == entries[i].1@,
        forall|key: u64|
            table_contents(*table).contains_key(key) ==> exists|i: int|
                0 <= i < entries.len() && #[trigger] entries[i].0 == key,
{
    table.inner.iter().map(|entry| entry.into_pair()).collect()
}

/// `Cell::get`: the number in the counter.
#[verifier::external_body]
pub(crate) fn counter_get(counter: &Counter) -> (value: u64)
    ensures
        value == counter_value(*counter),
{
    *counter.inner.get()
}

/// `Cell::set`: afterwards the counter holds `value`, in memory too.
#[verifier::external_body]
pub(crate) fn counter_set(counter: &mut Counter, value: u64)
    ensures
        counter_value(*final(counter)) == value,
{
    counter.inner.set(value);
}

} // verus!
