//! The circular buffer of a table's completed hands.
//!
//! A buffer of capacity `c` keeps the last `c` archived hands. The hand archived
//! as number `n` (counting from 0) goes into slot `n % c`, over the hand that
//! was archived `c` hands before it.
use crate::table::types::{DataKey, HandHistoryMeta, HandRecord};
use crate::table::PokerTableContract;
use vstd::arithmetic::div_mod::{
    lemma_fundamental_div_mod, lemma_mod_bound, lemma_mod_multiples_vanish, lemma_small_mod,
};
use vstd::prelude::*;

verus! {

/// The bookkeeping of a buffer that `total` hands have been archived into.
pub open spec fn history_meta(total: u32, capacity: u32) -> HandHistoryMeta
    recommends
        capacity > 0,
{
    HandHistoryMeta {
        next_slot: (total as int % capacity as int) as u32,
        stored: if total < capacity {
            total
        } else {
            capacity
        },
        total_archived: total,
    }
}

/// True of the bookkeeping that archiving keeps.
pub open spec fn history_wf(meta: HandHistoryMeta, capacity: u32) -> bool {
    capacity > 0 && meta == history_meta(meta.total_archived, capacity)
}

/// True of bookkeeping that a buffer can be read and written by: its slot is one
/// of the buffer's, and it holds no more records than the buffer has slots.
pub open spec fn history_readable(meta: HandHistoryMeta, capacity: u32) -> bool {
    meta.next_slot < capacity && meta.stored <= capacity
}

/// The slot of the hand that was archived as the last but `k`.
pub open spec fn slot_back(meta: HandHistoryMeta, capacity: u32, k: int) -> u32
    recommends
        meta.next_slot < capacity,
        0 <= k < capacity,
{
    ((meta.next_slot + capacity - 1 - k) % capacity as int) as u32
}

/// The bookkeeping after one more hand: the next slot around the buffer, and one
/// more record until it is full.
pub open spec fn archived_meta(meta: HandHistoryMeta, capacity: u32) -> HandHistoryMeta {
    HandHistoryMeta {
        next_slot: ((meta.next_slot + 1) % capacity as int) as u32,
        stored: if meta.stored < capacity {
            (meta.stored + 1) as u32
        } else {
            meta.stored
        },
        total_archived: (meta.total_archived + 1) as u32,
    }
}

/// The stored bookkeeping; before the first archived hand, that of an empty
/// buffer.
pub open spec fn loaded_meta(stored: Option<HandHistoryMeta>) -> HandHistoryMeta {
    match stored {
        Some(meta) => meta,
        None => HandHistoryMeta { next_slot: 0, stored: 0, total_archived: 0 },
    }
}

/// How many hands a request reads: all that are retained, or the latest `limit`.
pub open spec fn hands_read(stored: u32, limit: u32) -> nat {
    if limit == 0 || limit > stored {
        stored as nat
    } else {
        limit as nat
    }
}

/// True when one of the records is of a hand with this number.
pub open spec fn hand_retained(records: Seq<HandRecord>, hand_number: u32) -> bool {
    exists|i: int| 0 <= i < records.len() && (#[trigger] records[i]).hand_number == hand_number
}

/// Where the next hand is archived, and the bookkeeping after that.
#[derive(Clone, Copy, Debug, PartialEq, Eq)]
pub struct Archival {
    pub slot: u32,
    pub meta: HandHistoryMeta,
}

impl PokerTableContract {
    /// Number of hands the history buffer can hold before it starts evicting.
    pub fn hand_history_capacity(&self) -> (capacity: u32)
        ensures
            capacity == self.history_capacity,
    {
        self.history_capacity
    }

    /// Bookkeeping for a table's hand-history buffer: how many records are
    /// retained right now and how many hands have been archived in total.
    pub fn get_hand_history_meta(stored: Option<HandHistoryMeta>) -> (meta: HandHistoryMeta)
        ensures
            meta == loaded_meta(stored),
    {
        match stored {
            Some(meta) => meta,
            None => HandHistoryMeta { next_slot: 0, stored: 0, total_archived: 0 },
        }
    }

    /// Tells whether a buffer of this capacity can be read and written by the
    /// stored bookkeeping.
    pub fn history_fits(&self, stored: Option<HandHistoryMeta>) -> (r: bool)
        ensures
            r == history_readable(loaded_meta(stored), self.history_capacity),
    {
        let meta = Self::get_hand_history_meta(stored);
        meta.next_slot < self.history_capacity && meta.stored <= self.history_capacity
    }

    /// Finds the slot for the next completed hand, over the oldest one once the
    /// buffer is full.
    pub fn archive_hand(&self, stored: Option<HandHistoryMeta>) -> (archival: Archival)
        requires
            history_readable(loaded_meta(stored), self.history_capacity),
            loaded_meta(stored).total_archived < u32::MAX,
        ensures
            archival.slot == loaded_meta(stored).next_slot,
            archival.meta == archived_meta(loaded_meta(stored), self.history_capacity),
    {
        let meta = Self::get_hand_history_meta(stored);
        let capacity: u32 = self.history_capacity;
        let slot: u32 = meta.next_slot;
        proof {
            slots_go_round(slot as int, capacity as int);
        }
        let next_slot: u32 = if slot == capacity - 1 {
            0
        } else {
            slot + 1
        };
        let kept: u32 = if meta.stored < capacity {
            meta.stored + 1
        } else {
            meta.stored
        };
        Archival {
            slot,
            meta: HandHistoryMeta {
                next_slot,
                stored: kept,
                total_archived: meta.total_archived + 1,
            },
        }
    }

    /// Finds the most recently completed hands, newest first: the keys that
    /// their records are stored under.
    ///
    /// The table keeps a circular buffer of the last settled hands. Pass
    /// `limit = 0` to read every retained record, or a smaller number to page in
    /// just the latest few. Hands older than the window have been overwritten.
    pub fn get_hand_history(
        &self,
        table_id: u32,
        stored: Option<HandHistoryMeta>,
        limit: u32,
    ) -> (keys: Vec<DataKey>)
        requires
            history_readable(loaded_meta(stored), self.history_capacity),
        ensures
            keys@.len() == hands_read(loaded_meta(stored).stored, limit),
            forall|k: int|
                0 <= k < keys@.len() ==> #[trigger] keys@[k] == DataKey::HandRecord(
                    table_id,
                    slot_back(loaded_meta(stored), self.history_capacity, k),
                ),
    {
        let meta = Self::get_hand_history_meta(stored);
        let capacity: u32 = self.history_capacity;
        let count: u32 = if limit == 0 || limit > meta.stored {
            meta.stored
        } else {
            limit
        };
        let mut keys: Vec<DataKey> = Vec::new();
        let mut slot: u32 = meta.next_slot;
        let mut k: u32 = 0;
        proof {
            slots_go_round(meta.next_slot as int, capacity as int);
        }
        while k < count
            invariant
                k <= count <= meta.stored,
                history_readable(meta, capacity),
                slot == (meta.next_slot + capacity - k) % capacity as int,
                keys@.len() == k,
                forall|j: int|
                    0 <= j < k ==> #[trigger] keys@[j] == DataKey::HandRecord(
                        table_id,
                        slot_back(meta, capacity, j),
                    ),
            decreases count - k,
        {
            proof {
                next_slot_follows(meta.next_slot + capacity - 1 - k, capacity as int);
            }
            slot = if slot == 0 {
                capacity - 1
            } else {
                slot - 1
            };
            keys.push(DataKey::HandRecord(table_id, slot));
            k = k + 1;
        }
        keys
    }

    /// Picks a single archived hand by its hand number out of the retained
    /// records, newest first. `None` once the hand has been evicted from the
    /// circular buffer.
    pub fn get_hand(records: Vec<HandRecord>, hand_number: u32) -> (hand: Option<HandRecord>)
        ensures
            hand is Some <==> hand_retained(records@, hand_number),
            match hand {
                Some(record) => exists|i: int|
                    {
                        &&& 0 <= i < records@.len()
                        &&& #[trigger] records@[i] == record
                        &&& record.hand_number == hand_number
                        &&& forall|j: int|
                            0 <= j < i ==> (#[trigger] records@[j]).hand_number != hand_number
                    },
                None => forall|j: int|
                    0 <= j < records@.len() ==> (#[trigger] records@[j]).hand_number
                        != hand_number,
            },
    {
        let mut retained = records;
        let mut i: usize = 0;
        while i < retained.len()
            invariant
                i <= retained.len(),
                retained@ == records@,
                forall|j: int| 0 <= j < i ==> (#[trigger] records@[j]).hand_number != hand_number,
            decreases retained.len() - i,
        {
            if retained[i].hand_number == hand_number {
                let record = retained.swap_remove(i);
                assert(records@[i as int] == record);
                return Some(record);
            }
            i = i + 1;
        }
        None
    }
}

/// The slot after slot `n % capacity` is slot `(n + 1) % capacity`.
proof fn next_slot_follows(n: int, capacity: int)
    requires
        n >= 0,
        capacity > 0,
    ensures
        0 <= n % capacity < capacity,
        (n + 1) % capacity == if n % capacity == capacity - 1 {
            0
        } else {
            n % capacity + 1
        },
{
    lemma_mod_bound(n, capacity);
    lemma_fundamental_div_mod(n, capacity);
    let q = n / capacity;
    let r = n % capacity;
    if r == capacity - 1 {
        assert(n + 1 == capacity * (q + 1) + 0) by (nonlinear_arith)
            requires
                n == capacity * q + r,
                r == capacity - 1,
        ;
        lemma_mod_multiples_vanish(q + 1, 0, capacity);
        lemma_small_mod(0, capacity as nat);
    } else {
        assert(n + 1 == capacity * q + (r + 1));
        lemma_mod_multiples_vanish(q, r + 1, capacity);
        lemma_small_mod((r + 1) as nat, capacity as nat);
    }
}

/// A slot, and the slot one round further, are the same; the slot after the last
/// is the first.
proof fn slots_go_round(slot: int, capacity: int)
    requires
        0 <= slot < capacity,
    ensures
        (slot + capacity) % capacity == slot,
        (slot + 1) % capacity == if slot == capacity - 1 {
            0
        } else {
            slot + 1
        },
{
    lemma_small_mod(slot as nat, capacity as nat);
    lemma_mod_multiples_vanish(1, slot, capacity);
    next_slot_follows(slot, capacity);
}

/// An empty buffer's bookkeeping is sound.
pub proof fn empty_history_is_sound(capacity: u32)
    requires
        capacity > 0,
    ensures
        history_wf(loaded_meta(None), capacity),
{
    lemma_small_mod(0, capacity as nat);
}

/// Archiving keeps the bookkeeping sound, and sound bookkeeping can be read by.
pub proof fn archiving_keeps_history_sound(meta: HandHistoryMeta, capacity: u32)
    requires
        history_wf(meta, capacity),
        meta.total_archived < u32::MAX,
    ensures
        history_readable(meta, capacity),
        archived_meta(meta, capacity) == history_meta((meta.total_archived + 1) as u32, capacity),
        history_wf(archived_meta(meta, capacity), capacity),
{
    next_slot_follows(meta.total_archived as int, capacity as int);
    slots_go_round(meta.next_slot as int, capacity as int);
}

/// In sound bookkeeping the hand archived as the last but `k` is the hand with
/// that number in the order of archiving.
proof fn slots_count_back(total: u32, capacity: u32, k: int)
    requires
        capacity > 0,
        0 <= k < total,
        k < capacity,
    ensures
        slot_back(history_meta(total, capacity), capacity, k) == (total - 1 - k) % capacity as int,
{
    let (n, c) = (total as int, capacity as int);
    lemma_mod_bound(n, c);
    lemma_mod_bound(n - 1 - k, c);
    lemma_fundamental_div_mod(n, c);
    let q = n / c - 1;
    let r = n % c + c - 1 - k;
    assert(n - 1 - k == c * q + r) by (nonlinear_arith)
        requires
            n == c * (n / c) + n % c,
            q == n / c - 1,
            r == n % c + c - 1 - k,
    ;
    lemma_mod_multiples_vanish(q, r, c);
}

/// What the buffer's slots hold once `hands` have been archived in order.
pub open spec fn buffer_after(hands: Seq<HandRecord>, capacity: u32) -> Map<u32, HandRecord>
    decreases hands.len(),
{
    if hands.len() == 0 {
        Map::empty()
    } else {
        buffer_after(hands.drop_last(), capacity).insert(
            history_meta((hands.len() - 1) as u32, capacity).next_slot,
            hands.last(),
        )
    }
}

/// The slot of each retained hand still holds that hand.
pub proof fn retained_hands_survive(hands: Seq<HandRecord>, capacity: u32, n: int)
    requires
        capacity > 0,
        hands.len() <= u32::MAX,
        0 <= n < hands.len(),
        hands.len() - capacity <= n,
    ensures
        buffer_after(hands, capacity).dom().contains((n % capacity as int) as u32),
        buffer_after(hands, capacity)[(n % capacity as int) as u32] == hands[n],
    decreases hands.len(),
{
    let last = hands.len() - 1;
    lemma_mod_bound(n, capacity as int);
    lemma_mod_bound(last, capacity as int);
    if n < last {
        retained_hands_survive(hands.drop_last(), capacity, n);
        assert(n % capacity as int != last % capacity as int) by {
            lemma_fundamental_div_mod(n, capacity as int);
            lemma_fundamental_div_mod(last, capacity as int);
            let (a, b) = (n / capacity as int, last / capacity as int);
            if n % capacity as int == last % capacity as int {
                assert(last - n == capacity * (b - a)) by (nonlinear_arith)
                    requires
                        n == capacity * a + n % capacity as int,
                        last == capacity * b + last % capacity as int,
                        n % capacity as int == last % capacity as int,
                ;
                assert(b - a <= 0 || b - a >= 1);
                assert(capacity * (b - a) <= 0 || capacity * (b - a) >= capacity)
                    by (nonlinear_arith)
                    requires
                        capacity > 0,
                        b - a <= 0 || b - a >= 1,
                ;
            }
        }
    }
}

/// The records that the slots of the latest hands hold, newest first, once
/// `hands` have been archived in order: what a request with `limit` reads.
pub open spec fn read_back(hands: Seq<HandRecord>, capacity: u32, limit: u32) -> Seq<HandRecord> {
    Seq::new(
        hands_read(history_meta(hands.len() as u32, capacity).stored, limit),
        |k: int|
            buffer_after(hands, capacity)[slot_back(
                history_meta(hands.len() as u32, capacity),
                capacity,
                k,
            )],
    )
}

/// Reading the buffer gives back the latest archived hands, newest first, as
/// many as were asked for and are retained.
pub proof fn history_reads_back_latest_hands(hands: Seq<HandRecord>, capacity: u32, limit: u32)
    requires
        capacity > 0,
        hands.len() <= u32::MAX,
    ensures
        ({
            let count = hands_read(history_meta(hands.len() as u32, capacity).stored, limit) as int;
            read_back(hands, capacity, limit) == hands.skip(hands.len() - count).reverse()
        }),
{
    let count = hands_read(history_meta(hands.len() as u32, capacity).stored, limit) as int;
    let latest = hands.skip(hands.len() - count).reverse();
    assert forall|k: int| 0 <= k < count implies #[trigger] read_back(
        hands,
        capacity,
        limit,
    )[k] == latest[k] by {
        retained_hands_survive(hands, capacity, hands.len() - 1 - k);
        slots_count_back(hands.len() as u32, capacity, k);
    }
    assert(read_back(hands, capacity, limit) =~= latest);
}

/// Where no two hands share a number, a hand is found by its number among the
/// retained records exactly as long as it is one of the last that the buffer
/// holds.
pub proof fn hand_is_found_until_evicted(hands: Seq<HandRecord>, capacity: u32, n: int)
    requires
        capacity > 0,
        hands.len() <= u32::MAX,
        0 <= n < hands.len(),
        forall|i: int, j: int|
            0 <= i < j < hands.len() ==> (#[trigger] hands[i]).hand_number != (
            #[trigger] hands[j]).hand_number,
    ensures
        (exists|k: int|
            0 <= k < read_back(hands, capacity, 0).len() && (#[trigger] read_back(
                hands,
                capacity,
                0,
            )[k]).hand_number == hands[n].hand_number) <==> n >= hands.len() - capacity,
        forall|k: int|
            0 <= k < read_back(hands, capacity, 0).len() && (#[trigger] read_back(
                hands,
                capacity,
                0,
            )[k]).hand_number == hands[n].hand_number ==> read_back(hands, capacity, 0)[k]
                == hands[n],
{
    let records = read_back(hands, capacity, 0);
    history_reads_back_latest_hands(hands, capacity, 0);
    assert forall|k: int| 0 <= k < records.len() implies #[trigger] records[k] == hands[hands.len()
        - 1 - k] by {}
    if n >= hands.len() - capacity {
        assert(records[hands.len() - 1 - n] == hands[n]);
    }
}

} // verus!
