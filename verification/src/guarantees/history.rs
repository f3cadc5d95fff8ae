//! The hands that a table keeps.
use crate::table::history::{hand_retained, Archival};
use crate::table::types::{DataKey, HandHistoryMeta, HandRecord};
use crate::table::PokerTableContract;
use vstd::arithmetic::div_mod::{lemma_mod_multiples_vanish, lemma_small_mod};
use vstd::prelude::*;

verus! {

/// The buffer holds as many hands as the contract was made for.
pub proof fn capacity_is_told(contract: PokerTableContract, capacity: u32)
    requires
        call_ensures(PokerTableContract::hand_history_capacity, (&contract,), capacity),
    ensures
        capacity == contract.history_capacity,
{
}

/// Stored bookkeeping is read as it is; without any, nothing has been archived.
pub proof fn bookkeeping_is_read(stored: Option<HandHistoryMeta>, meta: HandHistoryMeta)
    requires
        call_ensures(PokerTableContract::get_hand_history_meta, (stored,), meta),
    ensures
        stored is Some ==> meta == stored->0,
        stored is None ==> meta.next_slot == 0 && meta.stored == 0 && meta.total_archived == 0,
{
}

/// A buffer is read and written by bookkeeping whose next slot is one of its own
/// and which counts no more records than it has slots.
pub proof fn bookkeeping_fits(
    contract: PokerTableContract,
    stored: Option<HandHistoryMeta>,
    meta: HandHistoryMeta,
    capacity: u32,
    r: bool,
)
    requires
        call_ensures(PokerTableContract::get_hand_history_meta, (stored,), meta),
        call_ensures(PokerTableContract::hand_history_capacity, (&contract,), capacity),
        call_ensures(PokerTableContract::history_fits, (&contract, stored), r),
    ensures
        r <==> meta.next_slot < capacity && meta.stored <= capacity,
{
}

/// The slot after another, around the buffer.
pub open spec fn slot_after(slot: u32, capacity: u32) -> int {
    if slot + 1 == capacity {
        0
    } else {
        slot + 1
    }
}

/// A hand is archived in the next slot, and the slot after it comes next. One more
/// is kept until the buffer is full, and one more has been archived.
pub proof fn hand_is_archived(
    contract: PokerTableContract,
    stored: Option<HandHistoryMeta>,
    meta: HandHistoryMeta,
    fits: bool,
    archival: Archival,
)
    requires
        call_ensures(PokerTableContract::get_hand_history_meta, (stored,), meta),
        call_ensures(PokerTableContract::history_fits, (&contract, stored), fits),
        call_ensures(PokerTableContract::archive_hand, (&contract, stored), archival),
        fits,
        meta.total_archived < u32::MAX,
    ensures
        ({
            let after = archival.meta;
            let capacity = contract.history_capacity;
            &&& archival.slot == meta.next_slot
            &&& after.next_slot == slot_after(meta.next_slot, capacity)
            &&& meta.stored < capacity ==> after.stored == meta.stored + 1
            &&& meta.stored == capacity ==> after.stored == meta.stored
            &&& after.total_archived == meta.total_archived + 1
        }),
{
    let (slot, capacity) = (meta.next_slot as int, contract.history_capacity as int);
    if slot + 1 == capacity {
        lemma_mod_multiples_vanish(1, 0, capacity);
        lemma_small_mod(0, capacity as nat);
    } else {
        lemma_small_mod((slot + 1) as nat, capacity as nat);
    }
}

/// The keys lead back from the hand archived last: the slot after that of the
/// first key is the next one to be written, and the slot after that of any other
/// key is that of the key before it. There is a key for every hand kept, or for as
/// many as were asked for.
pub proof fn history_leads_back(
    contract: PokerTableContract,
    table_id: u32,
    stored: Option<HandHistoryMeta>,
    limit: u32,
    meta: HandHistoryMeta,
    fits: bool,
    keys: Vec<DataKey>,
)
    requires
        call_ensures(PokerTableContract::get_hand_history_meta, (stored,), meta),
        call_ensures(PokerTableContract::history_fits, (&contract, stored), fits),
        call_ensures(
            PokerTableContract::get_hand_history,
            (&contract, table_id, stored, limit),
            keys,
        ),
        fits,
    ensures
        limit == 0 ==> keys@.len() == meta.stored,
        limit >= meta.stored ==> keys@.len() == meta.stored,
        0 < limit <= meta.stored ==> keys@.len() == limit,
        forall|k: int|
            0 <= k < keys@.len() ==> {
                &&& #[trigger] keys@[k] matches DataKey::HandRecord(id, slot)
                &&& id == table_id
                &&& slot < contract.history_capacity
                &&& slot_after(slot, contract.history_capacity) == newer_slot(
                    keys@,
                    meta.next_slot,
                    k,
                )
            },
{
    let (next, c) = (meta.next_slot as int, contract.history_capacity as int);
    assert forall|k: int| 0 <= k < keys@.len() implies {
        &&& #[trigger] keys@[k] matches DataKey::HandRecord(id, slot)
        &&& id == table_id
        &&& slot == if next - 1 - k >= 0 {
            next - 1 - k
        } else {
            next - 1 - k + c
        }
    } by {
        if next - 1 - k >= 0 {
            lemma_small_mod((next - 1 - k) as nat, c as nat);
            lemma_mod_multiples_vanish(1, next - 1 - k, c);
        } else {
            lemma_small_mod((next - 1 - k + c) as nat, c as nat);
        }
    }
    assert forall|k: int| 0 <= k < keys@.len() implies {
        &&& #[trigger] keys@[k] matches DataKey::HandRecord(id, slot)
        &&& slot < c
        &&& slot_after(slot, contract.history_capacity) == newer_slot(keys@, meta.next_slot, k)
    } by {
        if k > 0 {
            assert(keys@[k - 1] is HandRecord);
        }
    }
}

/// The slot written after that of key `k`: that of the key before it, or the next
/// one to be written.
pub open spec fn newer_slot(keys: Seq<DataKey>, next_slot: u32, k: int) -> int {
    if k == 0 {
        next_slot as int
    } else {
        match keys[k - 1] {
            DataKey::HandRecord(_, slot) => slot as int,
            _ => -1,
        }
    }
}

/// The hand archived last is the first that is read, from the slot that it was
/// given.
pub proof fn archived_hand_is_read_first(
    contract: PokerTableContract,
    table_id: u32,
    stored: Option<HandHistoryMeta>,
    limit: u32,
    fits: bool,
    archival: Archival,
    keys: Vec<DataKey>,
)
    requires
        call_ensures(PokerTableContract::history_fits, (&contract, stored), fits),
        call_ensures(PokerTableContract::archive_hand, (&contract, stored), archival),
        call_ensures(
            PokerTableContract::get_hand_history,
            (&contract, table_id, Some(archival.meta), limit),
            keys,
        ),
        fits,
    ensures
        keys@.len() >= 1,
        keys@[0] == DataKey::HandRecord(table_id, archival.slot),
{
    let (slot, c) = (archival.slot as int, contract.history_capacity as int);
    if slot + 1 == c {
        lemma_mod_multiples_vanish(1, 0, c);
        lemma_small_mod(0, c as nat);
        lemma_small_mod((c - 1) as nat, c as nat);
    } else {
        lemma_small_mod((slot + 1) as nat, c as nat);
        lemma_small_mod(slot as nat, c as nat);
        lemma_mod_multiples_vanish(1, slot, c);
    }
}

/// A hand is found by its number exactly when some record has it, and then it is
/// the first of those, unchanged.
pub proof fn hand_is_found_by_number(
    records: Vec<HandRecord>,
    hand_number: u32,
    hand: Option<HandRecord>,
)
    requires
        call_ensures(PokerTableContract::get_hand, (records, hand_number), hand),
    ensures
        hand is None <==> forall|i: int|
            0 <= i < records@.len() ==> (#[trigger] records@[i]).hand_number != hand_number,
        hand is Some ==> hand->0.hand_number == hand_number,
        hand is Some ==> exists|i: int|
            {
                &&& 0 <= i < records@.len()
                &&& #[trigger] records@[i] == hand->0
                &&& forall|j: int|
                    0 <= j < i ==> (#[trigger] records@[j]).hand_number != hand_number
            },
{
    assert(hand is Some <==> hand_retained(records@, hand_number));
}

} // verus!
