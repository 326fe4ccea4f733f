//! What holds of the ledgers' rules whatever the records and the callers.

use crate::codec::records::{
    character_within_ceiling, lemma_status_keeps_length, listing_within_ceiling,
};
use crate::model::{
    training_gain_of, CharacterClass, CharacterView, LedgerError, ListingStatus, ListingView,
    Stat, Subject, TrainingSession,
};
use crate::state::{
    create_outcome, is_active_run, list_outcome, lookup_outcome, new_character,
    purchase_outcome, train_outcome, trained, training_fits, LedgerState,
};
use vstd::prelude::*;

verus! {

/// A character with a name, whose record is within the ceiling, is always
/// made, and under an identifier that is new: greater than every identifier
/// handed out before, and so the identifier of no character and of no
/// listing.
pub proof fn law_create_takes_fresh_id(
    before: LedgerState,
    name: Seq<char>,
    class: CharacterClass,
    caller: Seq<char>,
    now: u64,
)
    requires
        before.valid(),
        before.has_free_id(),
        name.len() > 0,
        character_within_ceiling(new_character(before.next_id, name, class, caller, now)),
    ensures
        ({
            let outcome = create_outcome(before, name, class, caller, now);
            &&& outcome.result is Ok
            &&& outcome.state.valid()
            &&& forall|id: u64| before.issued(id) ==> id < outcome.result->Ok_0.id
            &&& forall|id: u64| #[trigger]
                before.characters.contains_key(id) ==> id < outcome.result->Ok_0.id
            &&& forall|id: u64| #[trigger]
                before.listings.contains_key(id) ==> id < outcome.result->Ok_0.id
            &&& outcome.state.issued(outcome.result->Ok_0.id)
            &&& outcome.state.characters.contains_key(outcome.result->Ok_0.id)
            &&& outcome.state.characters[outcome.result->Ok_0.id] == outcome.result->Ok_0
        }),
{
}

/// A listing that is made gets an identifier that is new in the same way:
/// the two ledgers draw from one counter.
pub proof fn law_list_takes_fresh_id(
    before: LedgerState,
    character_id: u64,
    price: u64,
    caller: Seq<char>,
    now: u64,
)
    requires
        before.valid(),
        before.has_free_id(),
        list_outcome(before, character_id, price, caller, now).result is Ok,
    ensures
        ({
            let outcome = list_outcome(before, character_id, price, caller, now);
            &&& outcome.state.valid()
            &&& forall|id: u64| before.issued(id) ==> id < outcome.result->Ok_0.id
            &&& forall|id: u64| #[trigger]
                before.characters.contains_key(id) ==> id < outcome.result->Ok_0.id
            &&& forall|id: u64| #[trigger]
                before.listings.contains_key(id) ==> id < outcome.result->Ok_0.id
            &&& outcome.state.issued(outcome.result->Ok_0.id)
            &&& outcome.state.listings.contains_key(outcome.result->Ok_0.id)
            &&& outcome.state.listings[outcome.result->Ok_0.id] == outcome.result->Ok_0
            &&& outcome.state.characters == before.characters
        }),
{
}

/// No operation takes an identifier back: what was handed out stays handed
/// out, so an identifier made later is greater than one made earlier.
pub proof fn law_counter_never_falls(
    before: LedgerState,
    name: Seq<char>,
    class: CharacterClass,
    character_id: u64,
    stat: Stat,
    price: u64,
    listing_id: u64,
    caller: Seq<char>,
    now: u64,
)
    requires
        before.has_free_id(),
    ensures
        before.next_id <= create_outcome(before, name, class, caller, now).state.next_id,
        before.next_id == train_outcome(before, character_id, stat, caller, now).state.next_id,
        before.next_id <= list_outcome(before, character_id, price, caller, now).state.next_id,
        before.next_id == purchase_outcome(before, listing_id, caller).state.next_id,
{
}

/// Coherent ledgers stay coherent under training and under purchase, and
/// listings that refer to characters go on doing so.
pub proof fn law_train_and_purchase_keep_validity(
    before: LedgerState,
    character_id: u64,
    stat: Stat,
    listing_id: u64,
    caller: Seq<char>,
    now: u64,
)
    requires
        before.coherent(),
    ensures
        train_outcome(before, character_id, stat, caller, now).state.coherent(),
        purchase_outcome(before, listing_id, caller).state.coherent(),
        before.referenced() ==> train_outcome(
            before,
            character_id,
            stat,
            caller,
            now,
        ).state.referenced(),
        before.referenced() ==> purchase_outcome(before, listing_id, caller).state.referenced(),
{
    if before.listings.contains_key(listing_id) {
        lemma_status_keeps_length(before.listings[listing_id], ListingStatus::Sold);
    }
}

/// A record beyond its ceiling is never stored: where an operation has
/// nothing else to refuse and the record that it would write is too long,
/// it is refused for that and changes nothing.
pub proof fn law_oversized_records_are_refused(
    before: LedgerState,
    name: Seq<char>,
    class: CharacterClass,
    character_id: u64,
    stat: Stat,
    price: u64,
    listing_id: u64,
    caller: Seq<char>,
    now: u64,
)
    ensures
        name.len() > 0 && !character_within_ceiling(
            new_character(before.next_id, name, class, caller, now),
        ) ==> create_outcome(before, name, class, caller, now).result == Err::<
            CharacterView,
            LedgerError,
        >(LedgerError::RecordTooLarge) && create_outcome(before, name, class, caller, now).state
            == before,
        before.characters.contains_key(character_id) && before.characters[character_id].owner
            == caller && now - before.characters[character_id].last_training >= 21600
            && !character_within_ceiling(
            trained(
                before.characters[character_id],
                stat,
                now,
                training_gain_of(now, character_id, before.characters[character_id].stats.luck),
            ),
        ) ==> train_outcome(before, character_id, stat, caller, now).result == Err::<
            CharacterView,
            LedgerError,
        >(LedgerError::RecordTooLarge) && train_outcome(
            before,
            character_id,
            stat,
            caller,
            now,
        ).state == before,
        before.characters.contains_key(character_id) && before.characters[character_id].owner
            == caller && !listing_within_ceiling(
            ListingView {
                id: before.next_id,
                character_id,
                seller: caller,
                price,
                listing_date: now,
                status: ListingStatus::Active,
            },
        ) ==> list_outcome(before, character_id, price, caller, now).result == Err::<
            ListingView,
            LedgerError,
        >(LedgerError::RecordTooLarge) && list_outcome(
            before,
            character_id,
            price,
            caller,
            now,
        ).state == before,
        before.listings.contains_key(listing_id) && before.listings[listing_id].status
            == ListingStatus::Active && before.characters.contains_key(
            before.listings[listing_id].character_id,
        ) && !character_within_ceiling(
            CharacterView {
                owner: caller,
                ..before.characters[before.listings[listing_id].character_id]
            },
        ) ==> purchase_outcome(before, listing_id, caller).result == Err::<
            CharacterView,
            LedgerError,
        >(LedgerError::RecordTooLarge) && purchase_outcome(before, listing_id, caller).state
            == before,
{
}

/// The owner's training is refused for the cooldown exactly when less than
/// the cooldown has passed since the last training. Otherwise, where the
/// longer record is within the ceiling, it goes through: the trained stat
/// grows by the gain, which is at least one, the other stats stay, one
/// session is logged, and the cooldown starts at `now`.
pub proof fn law_training_follows_cooldown(
    before: LedgerState,
    character_id: u64,
    stat: Stat,
    now: u64,
)
    requires
        before.characters.contains_key(character_id),
        training_fits(before, character_id, stat, before.characters[character_id].owner, now),
    ensures
        ({
            let character = before.characters[character_id];
            let outcome = train_outcome(before, character_id, stat, character.owner, now);
            let gain = training_gain_of(now, character_id, character.stats.luck);
            &&& outcome.result == Err::<CharacterView, LedgerError>(LedgerError::CooldownActive)
                <==> now - character.last_training < 21600
            &&& now - character.last_training >= 21600 && character_within_ceiling(
                trained(character, stat, now, gain),
            ) ==> {
                &&& outcome.result is Ok
                &&& outcome.state.characters[character_id] == outcome.result->Ok_0
                &&& outcome.result->Ok_0.stats.value_of(stat) == character.stats.value_of(stat)
                    + gain
                &&& outcome.result->Ok_0.stats.value_of(stat) > character.stats.value_of(stat)
                &&& forall|other: Stat|
                    other != stat ==> outcome.result->Ok_0.stats.value_of(other)
                        == character.stats.value_of(other)
                &&& outcome.result->Ok_0.training_history == character.training_history.push(
                    TrainingSession { timestamp: now, stat_trained: stat, gain: gain as u32 },
                )
                &&& outcome.result->Ok_0.last_training == now
            }
        }),
{
}

/// After a training that went through at `now`, every further training of
/// the character that comes before the cooldown is over is refused and
/// changes nothing.
pub proof fn law_training_once_per_window(
    before: LedgerState,
    character_id: u64,
    stat: Stat,
    caller: Seq<char>,
    now: u64,
    next_stat: Stat,
    later: u64,
)
    requires
        train_outcome(before, character_id, stat, caller, now).result is Ok,
        later - now < 21600,
    ensures
        ({
            let between = train_outcome(before, character_id, stat, caller, now).state;
            let outcome = train_outcome(between, character_id, next_stat, caller, later);
            &&& outcome.result == Err::<CharacterView, LedgerError>(LedgerError::CooldownActive)
            &&& outcome.state == between
        }),
{
}

/// Training and listing a character that the caller does not own are
/// refused as unauthorized and change nothing.
pub proof fn law_strangers_change_nothing(
    before: LedgerState,
    character_id: u64,
    stat: Stat,
    price: u64,
    caller: Seq<char>,
    now: u64,
)
    requires
        before.characters.contains_key(character_id),
        before.characters[character_id].owner != caller,
    ensures
        train_outcome(before, character_id, stat, caller, now).result == Err::<
            CharacterView,
            LedgerError,
        >(LedgerError::Unauthorized),
        train_outcome(before, character_id, stat, caller, now).state == before,
        list_outcome(before, character_id, price, caller, now).result == Err::<
            ListingView,
            LedgerError,
        >(LedgerError::Unauthorized),
        list_outcome(before, character_id, price, caller, now).state == before,
{
}

/// An operation that is refused, for whatever reason, changes nothing.
pub proof fn law_refusals_change_nothing(
    before: LedgerState,
    name: Seq<char>,
    class: CharacterClass,
    character_id: u64,
    stat: Stat,
    price: u64,
    listing_id: u64,
    caller: Seq<char>,
    now: u64,
)
    ensures
        create_outcome(before, name, class, caller, now).result is Err ==> create_outcome(
            before,
            name,
            class,
            caller,
            now,
        ).state == before,
        train_outcome(before, character_id, stat, caller, now).result is Err ==> train_outcome(
            before,
            character_id,
            stat,
            caller,
            now,
        ).state == before,
        list_outcome(before, character_id, price, caller, now).result is Err ==> list_outcome(
            before,
            character_id,
            price,
            caller,
            now,
        ).state == before,
        purchase_outcome(before, listing_id, caller).result is Err ==> purchase_outcome(
            before,
            listing_id,
            caller,
        ).state == before,
{
}

/// The purchase of a listing that is not active is refused and changes
/// neither the listing nor any character.
pub proof fn law_purchase_needs_active_listing(
    before: LedgerState,
    listing_id: u64,
    buyer: Seq<char>,
)
    requires
        before.listings.contains_key(listing_id),
        before.listings[listing_id].status != ListingStatus::Active,
    ensures
        purchase_outcome(before, listing_id, buyer).result == Err::<CharacterView, LedgerError>(
            LedgerError::ListingNotActive,
        ),
        purchase_outcome(before, listing_id, buyer).state == before,
{
}

/// The purchase of an active listing by a buyer whose name leaves the
/// character's record within the ceiling always goes through. It marks
/// this listing as sold and gives its character to the buyer, and touches
/// nothing else: every other listing and every other character is as
/// before, and so is every other field of the two records.
pub proof fn law_purchase_moves_exactly_one(
    before: LedgerState,
    listing_id: u64,
    buyer: Seq<char>,
)
    requires
        before.valid(),
        before.listings.contains_key(listing_id),
        before.listings[listing_id].status == ListingStatus::Active,
        character_within_ceiling(
            CharacterView {
                owner: buyer,
                ..before.characters[before.listings[listing_id].character_id]
            },
        ),
    ensures
        ({
            let listing = before.listings[listing_id];
            let outcome = purchase_outcome(before, listing_id, buyer);
            let after = outcome.state;
            &&& outcome.result is Ok
            &&& outcome.result->Ok_0 == after.characters[listing.character_id]
            &&& after.characters[listing.character_id] == (CharacterView {
                owner: buyer,
                ..before.characters[listing.character_id]
            })
            &&& after.listings[listing_id] == (ListingView {
                status: ListingStatus::Sold,
                ..listing
            })
            &&& after.characters.dom() == before.characters.dom()
            &&& after.listings.dom() == before.listings.dom()
            &&& forall|id: u64|
                id != listing.character_id && before.characters.contains_key(id)
                    ==> #[trigger] after.characters[id] == before.characters[id]
            &&& forall|id: u64|
                id != listing_id && before.listings.contains_key(id)
                    ==> #[trigger] after.listings[id] == before.listings[id]
            &&& after.next_id == before.next_id
        }),
{
    let listing = before.listings[listing_id];
    let after = purchase_outcome(before, listing_id, buyer).state;
    assert(before.characters.contains_key(listing.character_id));
    assert(after.characters.dom() =~= before.characters.dom());
    assert(after.listings.dom() =~= before.listings.dom());
}

/// The purchase of an active listing whose character is not stored is
/// refused as not found and changes nothing: the listing stays active.
pub proof fn law_purchase_needs_the_character(
    before: LedgerState,
    listing_id: u64,
    buyer: Seq<char>,
)
    requires
        before.listings.contains_key(listing_id),
        before.listings[listing_id].status == ListingStatus::Active,
        !before.characters.contains_key(before.listings[listing_id].character_id),
    ensures
        purchase_outcome(before, listing_id, buyer).result == Err::<CharacterView, LedgerError>(
            LedgerError::NotFound(Subject::Character),
        ),
        purchase_outcome(before, listing_id, buyer).state == before,
{
}

/// A listing is sold once: after a purchase that went through, every
/// further purchase of the same listing is refused and changes nothing.
pub proof fn law_purchase_happens_once(
    before: LedgerState,
    listing_id: u64,
    buyer: Seq<char>,
    late_buyer: Seq<char>,
)
    requires
        purchase_outcome(before, listing_id, buyer).result is Ok,
    ensures
        ({
            let between = purchase_outcome(before, listing_id, buyer).state;
            let outcome = purchase_outcome(between, listing_id, late_buyer);
            &&& outcome.result == Err::<CharacterView, LedgerError>(
                LedgerError::ListingNotActive,
            )
            &&& outcome.state == between
        }),
{
}

/// What a character may become: it keeps its identifier, name, class and
/// date of creation; its level, experience and stats do not fall; what it
/// has learnt and its training log only grow at the end; the time of its
/// last training does not go back.
pub open spec fn character_succeeds(earlier: CharacterView, later: CharacterView) -> bool {
    &&& later.id == earlier.id
    &&& later.name == earlier.name
    &&& later.class == earlier.class
    &&& later.creation_date == earlier.creation_date
    &&& later.level >= earlier.level
    &&& later.experience >= earlier.experience
    &&& forall|stat: Stat| later.stats.value_of(stat) >= earlier.stats.value_of(stat)
    &&& earlier.skills.is_prefix_of(later.skills)
    &&& earlier.training_history.is_prefix_of(later.training_history)
    &&& later.last_training >= earlier.last_training
}

/// What a listing may become: only its status changes, and only while it
/// is active.
pub open spec fn listing_succeeds(earlier: ListingView, later: ListingView) -> bool {
    &&& later == (ListingView { status: later.status, ..earlier })
    &&& earlier.status != ListingStatus::Active ==> later.status == earlier.status
}

/// No record is gone, and each is what its earlier self may become.
pub open spec fn ledgers_succeed(before: LedgerState, after: LedgerState) -> bool {
    &&& forall|id: u64| #[trigger]
        before.characters.contains_key(id) ==> after.characters.contains_key(id)
            && character_succeeds(before.characters[id], after.characters[id])
    &&& forall|id: u64| #[trigger]
        before.listings.contains_key(id) ==> after.listings.contains_key(id) && listing_succeeds(
            before.listings[id],
            after.listings[id],
        )
    &&& before.next_id <= after.next_id
}

/// Records are never removed and only change as they may: this holds of
/// every operation on valid ledgers, whoever calls and whatever is asked.
pub proof fn law_records_only_grow(
    before: LedgerState,
    name: Seq<char>,
    class: CharacterClass,
    character_id: u64,
    stat: Stat,
    price: u64,
    listing_id: u64,
    caller: Seq<char>,
    now: u64,
)
    requires
        before.valid(),
        before.has_free_id(),
        training_fits(before, character_id, stat, caller, now),
    ensures
        ledgers_succeed(before, create_outcome(before, name, class, caller, now).state),
        ledgers_succeed(before, train_outcome(before, character_id, stat, caller, now).state),
        ledgers_succeed(before, list_outcome(before, character_id, price, caller, now).state),
        ledgers_succeed(before, purchase_outcome(before, listing_id, caller).state),
{
    let trained = train_outcome(before, character_id, stat, caller, now);
    if trained.result is Ok {
        let earlier = before.characters[character_id];
        let later = trained.state.characters[character_id];
        assert(earlier.training_history.is_prefix_of(later.training_history));
        assert(earlier.skills.is_prefix_of(later.skills));
        assert(character_succeeds(earlier, later));
    }
    assert forall|id: u64| #[trigger] before.characters.contains_key(id) implies character_succeeds(
        before.characters[id],
        before.characters[id],
    ) by {
        assert(before.characters[id].skills.is_prefix_of(before.characters[id].skills));
        assert(before.characters[id].training_history.is_prefix_of(
            before.characters[id].training_history,
        ));
    }
    let bought = purchase_outcome(before, listing_id, caller);
    if bought.result is Ok {
        let sold = before.listings[listing_id];
        let earlier = before.characters[sold.character_id];
        let later = bought.state.characters[sold.character_id];
        assert(character_succeeds(earlier, later));
    }
}

/// A run of the active listings holds no listing that was sold or cancelled.
pub proof fn law_active_run_is_active(state: LedgerState, run: Seq<ListingView>)
    requires
        is_active_run(state, run),
    ensures
        forall|i: int|
            0 <= i < run.len() ==> (#[trigger] run[i]).status != ListingStatus::Sold && run[i].status
                != ListingStatus::Cancelled,
{
    assert forall|i: int| 0 <= i < run.len() implies (#[trigger] run[i]).status
        == ListingStatus::Active by {
        assert(state.listings.contains_key(run[i].id));
    }
}

/// The ledgers without the listing under `id`.
pub open spec fn without_listing(state: LedgerState, id: u64) -> LedgerState {
    LedgerState { listings: state.listings.remove(id), ..state }
}

/// Reading twice gives the same: what a lookup answers and what the run of
/// the active listings is are settled by what the ledgers hold.
pub proof fn law_reads_repeat(
    state: LedgerState,
    character_id: u64,
    first_answer: Result<CharacterView, LedgerError>,
    second_answer: Result<CharacterView, LedgerError>,
    first_run: Seq<ListingView>,
    second_run: Seq<ListingView>,
)
    requires
        first_answer == lookup_outcome(state, character_id),
        second_answer == lookup_outcome(state, character_id),
        is_active_run(state, first_run),
        is_active_run(state, second_run),
    ensures
        first_answer == second_answer,
        first_run == second_run,
    decreases first_run.len(),
{
    if first_run.len() == 0 {
        if second_run.len() > 0 {
            assert(state.listings.contains_key(second_run[0].id));
            let i = choose|i: int| 0 <= i < first_run.len() && first_run[i].id == second_run[0].id;
        }
        assert(first_run =~= second_run);
    } else {
        let last = first_run.last();
        assert(state.listings.contains_key(first_run[first_run.len() - 1].id));
        let j = choose|j: int| 0 <= j < second_run.len() && second_run[j].id == last.id;
        let other = second_run.last();
        assert(state.listings.contains_key(second_run[second_run.len() - 1].id));
        let i = choose|i: int| 0 <= i < first_run.len() && first_run[i].id == other.id;
        assert(last.id == other.id);
        assert(last == other);
        let rest = without_listing(state, last.id);
        let first_rest = first_run.drop_last();
        let second_rest = second_run.drop_last();
        assert(is_active_run(rest, first_rest)) by {
            assert forall|k: int| 0 <= k < first_rest.len() implies {
                &&& rest.listings.contains_key(#[trigger] first_rest[k].id)
                &&& rest.listings[first_rest[k].id] == first_rest[k]
                &&& first_rest[k].status == ListingStatus::Active
            } by {
                assert(first_rest[k] == first_run[k]);
                assert(state.listings.contains_key(first_run[k].id));
            }
            assert forall|id: u64|
                #![trigger rest.listings.contains_key(id)]
                rest.listings.contains_key(id) && rest.listings[id].status
                    == ListingStatus::Active implies exists|k: int|
                0 <= k < first_rest.len() && #[trigger] first_rest[k].id == id by {
                assert(state.listings.contains_key(id));
                let k = choose|k: int| 0 <= k < first_run.len() && first_run[k].id == id;
                assert(first_rest[k].id == id);
            }
        }
        assert(is_active_run(rest, second_rest)) by {
            assert forall|k: int| 0 <= k < second_rest.len() implies {
                &&& rest.listings.contains_key(#[trigger] second_rest[k].id)
                &&& rest.listings[second_rest[k].id] == second_rest[k]
                &&& second_rest[k].status == ListingStatus::Active
            } by {
                assert(second_rest[k] == second_run[k]);
                assert(state.listings.contains_key(second_run[k].id));
            }
            assert forall|id: u64|
                #![trigger rest.listings.contains_key(id)]
                rest.listings.contains_key(id) && rest.listings[id].status
                    == ListingStatus::Active implies exists|k: int|
                0 <= k < second_rest.len() && #[trigger] second_rest[k].id == id by {
                assert(state.listings.contains_key(id));
                let k = choose|k: int| 0 <= k < second_run.len() && second_run[k].id == id;
                assert(second_rest[k].id == id);
            }
        }
        law_reads_repeat(
            rest,
            character_id,
            lookup_outcome(rest, character_id),
            lookup_outcome(rest, character_id),
            first_rest,
            second_rest,
        );
        assert(first_run =~= first_rest.push(last));
        assert(second_run =~= second_rest.push(other));
    }
}

} // verus!
