//! Taking a seat, topping it up and giving it back.
use crate::constant_time;
use crate::sequences::{filter_next, filter_none};
use crate::table::events::TableEvent;
use crate::table::types::{
    stored_view, Address, Bytes32, Direction, GamePhase, IndexUpdate, PlayerState,
    PokerTableError, TableConfig, TableState, TableView, Transfer,
};
use crate::table::{
    access_error, between_hands, is_between_hands, load_table, open_table, seats_fit,
    PokerTableContract, MAX_PLAYERS_PER_TABLE, MAX_RAKE_BPS,
};
use vstd::prelude::*;

verus! {

// ---------------------------------------------------------------------------
// Where a player sits
// ---------------------------------------------------------------------------

/// True when `player` holds a seat.
pub open spec fn seated(players: Seq<PlayerState>, player: Address) -> bool {
    exists|i: int| 0 <= i < players.len() && (#[trigger] players[i]).address == player
}

/// True when `i` is the first seat that `player` holds.
pub open spec fn is_first_seat(players: Seq<PlayerState>, player: Address, i: int) -> bool {
    &&& 0 <= i < players.len()
    &&& players[i].address == player
    &&& forall|j: int| 0 <= j < i ==> (#[trigger] players[j]).address != player
}

/// The first seat that `player` holds, if there is one.
pub open spec fn seat_of(players: Seq<PlayerState>, player: Address) -> Option<int> {
    if exists|i: int| is_first_seat(players, player, i) {
        Some(choose|i: int| is_first_seat(players, player, i))
    } else {
        None
    }
}

/// A player has at most one first seat.
pub proof fn first_seat_is_unique(players: Seq<PlayerState>, player: Address, i: int)
    requires
        is_first_seat(players, player, i),
    ensures
        seat_of(players, player) == Some(i),
{
    let k = choose|k: int| is_first_seat(players, player, k);
    assert(is_first_seat(players, player, k));
    if k < i {
        assert(players[k].address != player);
    } else if i < k {
        assert(players[i].address != player);
    }
}

/// A player has a first seat exactly when they are seated.
pub proof fn seat_of_is_seated(players: Seq<PlayerState>, player: Address)
    ensures
        seat_of(players, player) is Some <==> seated(players, player),
        seat_of(players, player) is Some ==> is_first_seat(
            players,
            player,
            seat_of(players, player)->0,
        ),
    decreases players.len(),
{
    if seated(players, player) {
        let i = choose|i: int| 0 <= i < players.len() && (#[trigger] players[i]).address == player;
        let before = players.take(i);
        seat_of_is_seated(before, player);
        if seated(before, player) {
            let k = seat_of(before, player)->0;
            assert(is_first_seat(before, player, k));
            assert forall|j: int| 0 <= j < k implies (#[trigger] players[j]).address != player by {
                assert(before[j].address != player);
            }
            assert(players[k] == before[k]);
            assert(is_first_seat(players, player, k));
        } else {
            assert forall|j: int| 0 <= j < i implies (#[trigger] players[j]).address != player by {
                assert(before[j] == players[j]);
            }
            assert(is_first_seat(players, player, i));
        }
    }
}

/// Find a seated player's index, or `PlayerNotAtTable`.
pub fn find_seat(table: &TableState, player: &Address) -> (r: Result<u32, PokerTableError>)
    requires
        table.players.len() <= u32::MAX,
    ensures
        match r {
            Ok(i) => seat_of(table.players@, *player) == Some(i as int) && is_first_seat(
                table.players@,
                *player,
                i as int,
            ),
            Err(e) => e == PokerTableError::PlayerNotAtTable && seat_of(table.players@, *player)
                is None,
        },
{
    let mut i: usize = 0;
    while i < table.players.len()
        invariant
            table.players.len() <= u32::MAX,
            i <= table.players.len(),
            forall|j: int| 0 <= j < i ==> (#[trigger] table.players@[j]).address != *player,
        decreases table.players.len() - i,
    {
        if constant_time::address_eq(&table.players[i].address, player) {
            proof {
                first_seat_is_unique(table.players@, *player, i as int);
            }
            return Ok(i as u32);
        }
        i = i + 1;
    }
    proof {
        seat_of_is_seated(table.players@, *player);
    }
    Err(PokerTableError::PlayerNotAtTable)
}

// ---------------------------------------------------------------------------
// The list of tables a wallet sits at
// ---------------------------------------------------------------------------

/// The list of tables that a stored entry stands for.
pub open spec fn listed(tables: Option<Seq<u32>>) -> Seq<u32> {
    match tables {
        Some(list) => list,
        None => Seq::empty(),
    }
}

/// The stored entry with its list as a sequence.
pub open spec fn list_view(tables: Option<Vec<u32>>) -> Option<Seq<u32>> {
    match tables {
        Some(list) => Some(list@),
        None => None,
    }
}

/// The stored entry once an update has been carried out.
pub open spec fn after_update(tables: Option<Seq<u32>>, update: IndexUpdate) -> Option<Seq<u32>> {
    match update {
        IndexUpdate::Keep => tables,
        IndexUpdate::Store(list) => Some(list@),
        IndexUpdate::Remove => None,
    }
}

/// Selects the tables other than `table_id`.
pub open spec fn is_other_table(table_id: u32) -> spec_fn(u32) -> bool {
    |id: u32| id != table_id
}

/// The stored entry once its wallet has sat down at `table_id`.
pub open spec fn list_after_join(tables: Option<Seq<u32>>, table_id: u32) -> Option<Seq<u32>> {
    if listed(tables).contains(table_id) {
        tables
    } else {
        Some(listed(tables).push(table_id))
    }
}

/// The stored entry once its wallet has left `table_id`: deleted with its last
/// table.
pub open spec fn list_after_leave(tables: Option<Seq<u32>>, table_id: u32) -> Option<Seq<u32>> {
    let remaining = listed(tables).filter(is_other_table(table_id));
    if remaining.len() == 0 {
        None
    } else {
        Some(remaining)
    }
}

/// Record that a player now holds a seat at `table_id`.
///
/// The index is a convenience for multi-table clients, not a limit: nothing
/// here rejects a wallet for sitting at too many tables. Its length is the
/// number of live seats the wallet holds.
pub fn index_player_table(tables: Option<Vec<u32>>, table_id: u32) -> (update: IndexUpdate)
    ensures
        update == IndexUpdate::Keep <==> listed(list_view(tables)).contains(table_id),
        after_update(list_view(tables), update) == list_after_join(list_view(tables), table_id),
{
    let ghost before = listed(list_view(tables));
    let mut list: Vec<u32> = match tables {
        Some(list) => list,
        None => Vec::new(),
    };
    assert(list@ == before);
    let mut i: usize = 0;
    while i < list.len()
        invariant
            i <= list.len(),
            list@ == before,
            before == listed(list_view(tables)),
            forall|j: int| 0 <= j < i ==> list@[j] != table_id,
        decreases list.len() - i,
    {
        if constant_time::u32_eq(list[i], table_id) {
            assert(before[i as int] == table_id);
            return IndexUpdate::Keep;
        }
        i = i + 1;
    }
    list.push(table_id);
    IndexUpdate::Store(list)
}

/// Drop `table_id` from a player's list of tables.
pub fn unindex_player_table(tables: Option<Vec<u32>>, table_id: u32) -> (update: IndexUpdate)
    ensures
        update == IndexUpdate::Keep <==> tables is None,
        after_update(list_view(tables), update) == list_after_leave(list_view(tables), table_id),
{
    let list: Vec<u32> = match tables {
        Some(list) => list,
        None => {
            proof {
                reveal(Seq::filter);
            }
            return IndexUpdate::Keep;
        },
    };
    let mut remaining: Vec<u32> = Vec::new();
    let mut i: usize = 0;
    assert(list@.take(0).filter(is_other_table(table_id)) =~= Seq::<u32>::empty()) by {
        reveal(Seq::filter);
    }
    while i < list.len()
        invariant
            i <= list.len(),
            remaining@ == list@.take(i as int).filter(is_other_table(table_id)),
        decreases list.len() - i,
    {
        let id: u32 = list[i];
        if constant_time::u32_ne(id, table_id) {
            remaining.push(id);
        }
        proof {
            reveal(Seq::filter);
            assert(list@.take(i + 1).drop_last() =~= list@.take(i as int));
            assert(list@.take(i + 1).last() == id);
        }
        i = i + 1;
    }
    assert(list@.take(list@.len() as int) =~= list@);
    if remaining.len() == 0 {
        IndexUpdate::Remove
    } else {
        IndexUpdate::Store(remaining)
    }
}

// ---------------------------------------------------------------------------
// Opening a table
// ---------------------------------------------------------------------------

/// Why a configuration is refused, if so.
pub open spec fn config_error(config: TableConfig) -> Option<PokerTableError> {
    if config.rake_bps > MAX_RAKE_BPS {
        Some(PokerTableError::RakeBpsExceedsMax)
    } else if config.min_players < 2 || config.max_players < config.min_players
        || config.max_players > MAX_PLAYERS_PER_TABLE {
        Some(PokerTableError::InvalidPlayerCount)
    } else {
        None
    }
}

/// The id that a new table gets: the stored counter, which starts at 0.
pub open spec fn next_table_id(next_id: Option<u32>) -> u32 {
    match next_id {
        Some(id) => id,
        None => 0,
    }
}

/// A table that nobody has joined yet.
pub open spec fn new_table(id: u32, admin: Address, config: TableConfig, ledger: u32) -> TableView {
    TableView {
        id,
        admin,
        config,
        phase: GamePhase::Waiting,
        players: Seq::empty(),
        dealer_seat: 0,
        current_turn: 0,
        pot: 0,
        side_pots: Seq::empty(),
        deck_root: Bytes32 { bytes: zero_bytes() },
        hand_commitments: Seq::empty(),
        board_cards: Seq::empty(),
        dealt_indices: Seq::empty(),
        hand_number: 0,
        last_action_ledger: ledger,
        committee: config.committee,
        session_id: 0,
        rake_balance: 0,
        action_deadline: 0,
        hand_actions: Seq::empty(),
        jackpot_balance: 0,
    }
}

/// Thirty-two zero bytes.
pub open spec fn zero_bytes() -> [u8; 32] {
    vstd::array::spec_array_fill_for_copy_type::<u8, 32>(0)
}

/// A table that was opened: what to store, and what to publish.
#[derive(Debug, PartialEq, Eq)]
pub struct Created {
    pub table_id: u32,
    pub table: TableState,
    /// The counter to store for the table after this one.
    pub next_id: u32,
    pub event: TableEvent,
}

/// Refuses a configuration that no table may have.
pub fn check_config(config: &TableConfig) -> (r: Result<(), PokerTableError>)
    ensures
        r == match config_error(*config) {
            Some(e) => Err::<(), PokerTableError>(e),
            None => Ok(()),
        },
{
    if config.rake_bps > MAX_RAKE_BPS {
        return Err(PokerTableError::RakeBpsExceedsMax);
    }
    if config.min_players < 2 || config.max_players < config.min_players || config.max_players
        > MAX_PLAYERS_PER_TABLE {
        return Err(PokerTableError::InvalidPlayerCount);
    }
    Ok(())
}

impl PokerTableContract {
    /// Initialize a new poker table with configuration.
    pub fn create_table(
        admin: Address,
        config: TableConfig,
        next_id: Option<u32>,
        ledger: u32,
    ) -> (r: Result<Created, PokerTableError>)
        requires
            config_error(config) is None ==> next_table_id(next_id) < u32::MAX,
        ensures
            match r {
                Ok(created) => {
                    let id = next_table_id(next_id);
                    &&& config_error(config) is None
                    &&& created.table_id == id
                    &&& created.table@ == new_table(id, admin, config, ledger)
                    &&& created.next_id == id + 1
                    &&& created.event == TableEvent::TableCreated { table_id: id, admin }
                },
                Err(e) => config_error(config) == Some(e),
            },
    {
        match check_config(&config) {
            Ok(()) => {},
            Err(e) => return Err(e),
        }
        let table_id: u32 = match next_id {
            Some(id) => id,
            None => 0,
        };
        let table = TableState {
            id: table_id,
            admin,
            config,
            phase: GamePhase::Waiting,
            players: Vec::new(),
            dealer_seat: 0,
            current_turn: 0,
            pot: 0,
            side_pots: Vec::new(),
            deck_root: Bytes32 { bytes: [0u8; 32] },
            hand_commitments: Vec::new(),
            board_cards: Vec::new(),
            dealt_indices: Vec::new(),
            hand_number: 0,
            last_action_ledger: ledger,
            committee: config.committee,
            session_id: 0,
            rake_balance: 0,
            action_deadline: 0,
            hand_actions: Vec::new(),
            jackpot_balance: 0,
        };
        Ok(
            Created {
                table_id,
                table,
                next_id: table_id + 1,
                event: TableEvent::TableCreated { table_id, admin },
            },
        )
    }
}

// ---------------------------------------------------------------------------
// Joining
// ---------------------------------------------------------------------------

/// Why a player may not sit down, if so.
pub open spec fn join_error(
    paused: Option<bool>,
    stored: Option<TableView>,
    player: Address,
    buy_in: i128,
) -> Option<PokerTableError> {
    if access_error(paused, stored) is Some {
        access_error(paused, stored)
    } else {
        let table = stored->0;
        if table.phase != GamePhase::Waiting {
            Some(PokerTableError::TableNotAcceptingPlayers)
        } else if table.players.len() >= table.config.max_players {
            Some(PokerTableError::TableFull)
        } else if buy_in < table.config.min_buy_in || buy_in > table.config.max_buy_in {
            Some(PokerTableError::InvalidBuyIn)
        } else if seated(table.players, player) {
            Some(PokerTableError::AlreadySeated)
        } else {
            None
        }
    }
}

/// A seat just taken.
pub open spec fn new_player(player: Address, buy_in: i128, seat: int) -> PlayerState {
    PlayerState {
        address: player,
        stack: buy_in,
        bet_this_round: 0,
        committed: 0,
        folded: false,
        all_in: false,
        sitting_out: false,
        seat_index: seat as u32,
        total_buy_in: buy_in,
        rebuy_count: 0,
    }
}

/// The table once `player` has sat down.
pub open spec fn joined_table(table: TableView, player: Address, buy_in: i128) -> TableView {
    TableView {
        players: table.players.push(new_player(player, buy_in, table.players.len() as int)),
        ..table
    }
}

/// A seat that was taken: what to store, move and publish.
#[derive(Debug, PartialEq, Eq)]
pub struct Joined {
    pub seat: u32,
    pub table: TableState,
    pub transfer: Transfer,
    pub index: IndexUpdate,
    pub event: TableEvent,
}

impl PokerTableContract {
    /// Join a table with a buy-in deposit. `tables` is the player's stored list
    /// of tables.
    pub fn join_table(
        table_id: u32,
        paused: Option<bool>,
        stored: Option<TableState>,
        player: Address,
        buy_in: i128,
        tables: Option<Vec<u32>>,
    ) -> (r: Result<Joined, PokerTableError>)
        ensures
            match r {
                Ok(joined) => {
                    let table = stored->0@;
                    let list = list_view(tables);
                    &&& join_error(paused, stored_view(stored), player, buy_in) is None
                    &&& joined.seat == table.players.len()
                    &&& joined.table@ == joined_table(table, player, buy_in)
                    &&& joined.transfer == Transfer {
                        token: table.config.token,
                        account: player,
                        direction: Direction::Deposit,
                        amount: buy_in,
                    }
                    &&& joined.index == IndexUpdate::Keep <==> listed(list).contains(table_id)
                    &&& after_update(list, joined.index) == list_after_join(list, table_id)
                    &&& joined.event == TableEvent::PlayerJoined {
                        table_id,
                        player,
                        seat: joined.seat,
                    }
                },
                Err(e) => join_error(paused, stored_view(stored), player, buy_in) == Some(e),
            },
    {
        let mut table = match open_table(paused, stored) {
            Ok(table) => table,
            Err(e) => return Err(e),
        };
        if !matches!(table.phase, GamePhase::Waiting) {
            return Err(PokerTableError::TableNotAcceptingPlayers);
        }
        if table.players.len() >= table.config.max_players as usize {
            return Err(PokerTableError::TableFull);
        }
        if buy_in < table.config.min_buy_in || buy_in > table.config.max_buy_in {
            return Err(PokerTableError::InvalidBuyIn);
        }
        match find_seat(&table, &player) {
            Ok(_) => {
                proof {
                    seat_of_is_seated(table.players@, player);
                }
                return Err(PokerTableError::AlreadySeated);
            },
            Err(_) => {
                proof {
                    seat_of_is_seated(table.players@, player);
                }
            },
        }
        let transfer = Transfer {
            token: table.config.token,
            account: player,
            direction: Direction::Deposit,
            amount: buy_in,
        };
        let seat: u32 = table.players.len() as u32;
        table.players.push(
            PlayerState {
                address: player,
                stack: buy_in,
                bet_this_round: 0,
                committed: 0,
                folded: false,
                all_in: false,
                sitting_out: false,
                seat_index: seat,
                total_buy_in: buy_in,
                rebuy_count: 0,
            },
        );
        let index = index_player_table(tables, table_id);
        Ok(
            Joined {
                seat,
                table,
                transfer,
                index,
                event: TableEvent::PlayerJoined { table_id, player, seat },
            },
        )
    }

    /// Tables a wallet is currently seated at.
    ///
    /// A wallet may sit at any number of tables at once: there is no per-player
    /// cap, only the per-table `max_players` and whatever capital the player is
    /// willing to put up. The list is maintained on joining and leaving, so it
    /// holds only live seats.
    pub fn get_player_tables(tables: Option<Vec<u32>>) -> (list: Vec<u32>)
        ensures
            list@ == listed(list_view(tables)),
    {
        match tables {
            Some(list) => list,
            None => Vec::new(),
        }
    }

    /// Number of tables a wallet is currently seated at.
    pub fn get_player_table_count(tables: Option<Vec<u32>>) -> (count: u32)
        requires
            listed(list_view(tables)).len() <= u32::MAX,
        ensures
            count == listed(list_view(tables)).len(),
    {
        Self::get_player_tables(tables).len() as u32
    }
}

// ---------------------------------------------------------------------------
// Topping up
// ---------------------------------------------------------------------------

/// Why `player` may not rebuy at all, if so: refused before the amount is looked
/// at.
pub open spec fn rebuy_refusal(
    paused: Option<bool>,
    stored: Option<TableView>,
    player: Address,
) -> Option<PokerTableError> {
    if access_error(paused, stored) is Some {
        access_error(paused, stored)
    } else {
        let table = stored->0;
        let seat = seat_of(table.players, player);
        if !between_hands(table.phase) {
            Some(PokerTableError::CannotRebuyDuringActiveHand)
        } else if seat is None {
            Some(PokerTableError::PlayerNotAtTable)
        } else if table.config.max_rebuys > 0 && table.players[seat->0].rebuy_count
            >= table.config.max_rebuys {
            Some(PokerTableError::RebuyLimitReached)
        } else {
            None
        }
    }
}

/// True when a stack may be topped up by `amount` under `config`: the amount is
/// positive and at most one full buy-in, and the new stack lies inside the
/// buy-in band.
pub open spec fn rebuy_allowed(config: TableConfig, stack: i128, amount: i128) -> bool {
    &&& 0 < amount <= config.max_buy_in
    &&& config.min_buy_in <= stack + amount <= config.max_buy_in
}

/// Why a rebuy is refused, if so.
pub open spec fn rebuy_error(
    paused: Option<bool>,
    stored: Option<TableView>,
    player: Address,
    amount: i128,
) -> Option<PokerTableError> {
    if rebuy_refusal(paused, stored, player) is Some {
        rebuy_refusal(paused, stored, player)
    } else {
        let table = stored->0;
        let seat = seat_of(table.players, player)->0;
        if !rebuy_allowed(table.config, table.players[seat].stack, amount) {
            Some(PokerTableError::InvalidRebuyAmount)
        } else {
            None
        }
    }
}

/// True when the sums that a rebuy of `amount` computes fit their types. Only
/// the sums that are reached count.
pub open spec fn rebuy_sums_fit(
    paused: Option<bool>,
    stored: Option<TableView>,
    player: Address,
    amount: i128,
) -> bool {
    rebuy_refusal(paused, stored, player) is None ==> {
        let table = stored->0;
        let p = table.players[seat_of(table.players, player)->0];
        &&& i128::MIN <= p.stack + amount <= i128::MAX
        &&& rebuy_allowed(table.config, p.stack, amount) ==> {
            &&& p.total_buy_in + amount <= i128::MAX
            &&& p.rebuy_count < u32::MAX
        }
    }
}

/// A seat topped up by `amount`.
pub open spec fn topped_up(p: PlayerState, amount: i128) -> PlayerState {
    PlayerState {
        stack: (p.stack + amount) as i128,
        total_buy_in: (p.total_buy_in + amount) as i128,
        rebuy_count: (p.rebuy_count + 1) as u32,
        ..p
    }
}

/// The table once `player` has topped up.
pub open spec fn rebought_table(table: TableView, player: Address, amount: i128) -> TableView {
    let seat = seat_of(table.players, player)->0;
    TableView {
        players: table.players.update(seat, topped_up(table.players[seat], amount)),
        ..table
    }
}

/// A stack that was topped up: what to store, move and publish.
#[derive(Debug, PartialEq, Eq)]
pub struct Rebought {
    pub new_stack: i128,
    pub table: TableState,
    pub transfer: Transfer,
    pub event: TableEvent,
}

impl PokerTableContract {
    /// Tells whether `rebuy` can be computed on these values: false when one of
    /// its sums would leave the range of its type.
    pub fn rebuy_fits(
        paused: Option<bool>,
        stored: &Option<TableState>,
        player: Address,
        amount: i128,
    ) -> (r: bool)
        requires
            seats_fit(stored_view(*stored)),
        ensures
            r == rebuy_sums_fit(paused, stored_view(*stored), player, amount),
    {
        if let Some(true) = paused {
            return true;
        }
        let table = match stored {
            Some(table) => table,
            None => return true,
        };
        if !is_between_hands(table.phase) {
            return true;
        }
        let seat: u32 = match find_seat(table, &player) {
            Ok(seat) => seat,
            Err(_) => return true,
        };
        let p: PlayerState = table.players[seat as usize];
        if table.config.max_rebuys > 0 && p.rebuy_count >= table.config.max_rebuys {
            return true;
        }
        match p.stack.checked_add(amount) {
            None => false,
            Some(new_stack) => {
                if amount <= 0 || amount > table.config.max_buy_in || new_stack
                    > table.config.max_buy_in || new_stack < table.config.min_buy_in {
                    true
                } else {
                    p.total_buy_in.checked_add(amount).is_some() && p.rebuy_count < u32::MAX
                }
            },
        }
    }

    /// Top a seated player's stack up by a partial amount.
    ///
    /// A rebuy may be for any amount that leaves the player's stack inside the
    /// table's `[min_buy_in, max_buy_in]` band: it does not have to be a full
    /// buy-in. A player who has been ground down to 40 chips at a 100/1000
    /// table can add anywhere from 60 (back to the minimum) to 960 (up to the
    /// maximum). A single rebuy may never exceed one full buy-in.
    ///
    /// Rebuys are only allowed between hands, so the chips cannot appear
    /// mid-hand and change what an opponent is playing against. Each one is
    /// counted against `TableConfig::max_rebuys` (0 = unlimited).
    pub fn rebuy(
        table_id: u32,
        paused: Option<bool>,
        stored: Option<TableState>,
        player: Address,
        amount: i128,
    ) -> (r: Result<Rebought, PokerTableError>)
        requires
            seats_fit(stored_view(stored)),
            rebuy_sums_fit(paused, stored_view(stored), player, amount),
        ensures
            match r {
                Ok(rebought) => {
                    let table = stored->0@;
                    let p = table.players[seat_of(table.players, player)->0];
                    &&& rebuy_error(paused, stored_view(stored), player, amount) is None
                    &&& rebought.new_stack == p.stack + amount
                    &&& rebought.table@ == rebought_table(table, player, amount)
                    &&& rebought.transfer == Transfer {
                        token: table.config.token,
                        account: player,
                        direction: Direction::Deposit,
                        amount,
                    }
                    &&& rebought.event == TableEvent::PlayerRebuy {
                        table_id,
                        player,
                        amount,
                        new_stack: rebought.new_stack,
                        rebuy_count: (p.rebuy_count + 1) as u32,
                    }
                },
                Err(e) => rebuy_error(paused, stored_view(stored), player, amount) == Some(e),
            },
    {
        let mut table = match open_table(paused, stored) {
            Ok(table) => table,
            Err(e) => return Err(e),
        };
        if !is_between_hands(table.phase) {
            return Err(PokerTableError::CannotRebuyDuringActiveHand);
        }
        let seat: u32 = match find_seat(&table, &player) {
            Ok(seat) => seat,
            Err(e) => return Err(e),
        };
        let mut p: PlayerState = table.players[seat as usize];
        if table.config.max_rebuys > 0 && p.rebuy_count >= table.config.max_rebuys {
            return Err(PokerTableError::RebuyLimitReached);
        }
        let new_stack: i128 = p.stack + amount;
        if amount <= 0 || amount > table.config.max_buy_in || new_stack > table.config.max_buy_in
            || new_stack < table.config.min_buy_in {
            return Err(PokerTableError::InvalidRebuyAmount);
        }
        let transfer = Transfer {
            token: table.config.token,
            account: player,
            direction: Direction::Deposit,
            amount,
        };
        p.stack = new_stack;
        p.total_buy_in = p.total_buy_in + amount;
        p.rebuy_count = p.rebuy_count + 1;
        let rebuy_count: u32 = p.rebuy_count;
        table.players.set(seat as usize, p);
        Ok(
            Rebought {
                new_stack,
                table,
                transfer,
                event: TableEvent::PlayerRebuy { table_id, player, amount, new_stack, rebuy_count },
            },
        )
    }

    /// Chips a seated player has deposited this session (initial buy-in plus
    /// every rebuy) and how many rebuys they have used.
    pub fn get_player_buy_in(stored: Option<TableState>, player: Address) -> (r: Result<
        (i128, u32),
        PokerTableError,
    >)
        requires
            seats_fit(stored_view(stored)),
        ensures
            r == match stored_view(stored) {
                None => Err::<(i128, u32), PokerTableError>(PokerTableError::TableNotFound),
                Some(table) => match seat_of(table.players, player) {
                    None => Err(PokerTableError::PlayerNotAtTable),
                    Some(i) => Ok((table.players[i].total_buy_in, table.players[i].rebuy_count)),
                },
            },
    {
        let table = match load_table(stored) {
            Ok(table) => table,
            Err(e) => return Err(e),
        };
        match find_seat(&table, &player) {
            Ok(seat) => {
                let p: PlayerState = table.players[seat as usize];
                Ok((p.total_buy_in, p.rebuy_count))
            },
            Err(e) => Err(e),
        }
    }
}

// ---------------------------------------------------------------------------
// Leaving
// ---------------------------------------------------------------------------

/// Selects the seats that `player` does not hold.
pub open spec fn is_other_player(player: Address) -> spec_fn(PlayerState) -> bool {
    |p: PlayerState| p.address != player
}

/// Selects the seats that `player` holds.
pub open spec fn is_player(player: Address) -> spec_fn(PlayerState) -> bool {
    |p: PlayerState| p.address == player
}

/// Selects the seats that `player` holds and that still have chips.
pub open spec fn is_player_with_chips(player: Address) -> spec_fn(PlayerState) -> bool {
    |p: PlayerState| p.address == player && p.stack > 0
}

/// Seats numbered by their position.
pub open spec fn renumbered(players: Seq<PlayerState>) -> Seq<PlayerState> {
    players.map(|i: int, p: PlayerState| PlayerState { seat_index: i as u32, ..p })
}

/// A seat number brought back inside a table of `seats` seats.
pub open spec fn within_table(seat: u32, seats: nat) -> u32 {
    if seats == 0 {
        0
    } else {
        (seat as int % seats as int) as u32
    }
}

/// Why a player may not leave, if so.
pub open spec fn leave_error(
    paused: Option<bool>,
    stored: Option<TableView>,
    player: Address,
) -> Option<PokerTableError> {
    if access_error(paused, stored) is Some {
        access_error(paused, stored)
    } else if !between_hands(stored->0.phase) {
        Some(PokerTableError::CannotLeaveDuringActiveHand)
    } else if !seated(stored->0.players, player) {
        Some(PokerTableError::PlayerNotAtTable)
    } else {
        None
    }
}

/// The table once `player` has left: the other seats move up, are numbered
/// afresh, and the button and the turn stay inside the table.
pub open spec fn left_table(table: TableView, player: Address) -> TableView {
    let players = renumbered(table.players.filter(is_other_player(player)));
    TableView {
        players,
        dealer_seat: within_table(table.dealer_seat, players.len()),
        current_turn: within_table(table.current_turn, players.len()),
        ..table
    }
}

/// What is paid out to `player` on leaving: the chips of each seat they hold.
pub open spec fn payouts(table: TableView, player: Address) -> Seq<Transfer> {
    table.players.filter(is_player_with_chips(player)).map_values(
        |p: PlayerState| Transfer {
            token: table.config.token,
            account: player,
            direction: Direction::Withdrawal,
            amount: p.stack,
        },
    )
}

/// A seat that was given up: what to store, move and publish.
#[derive(Debug, PartialEq, Eq)]
pub struct Left {
    pub withdrawn: i128,
    pub table: TableState,
    pub transfers: Vec<Transfer>,
    pub index: IndexUpdate,
    pub event: TableEvent,
}

impl PokerTableContract {
    /// Leave the table and withdraw the remaining stack. `tables` is the
    /// player's stored list of tables.
    ///
    /// The remaining seats are renumbered so that `seat_index` keeps matching
    /// the player's position: betting, side-pot eligibility and the showdown
    /// proof's seat-indexed public outputs all treat the two as the same
    /// number. Leaving is only allowed between hands, so no pot depends on the
    /// old numbering.
    pub fn leave_table(
        table_id: u32,
        paused: Option<bool>,
        stored: Option<TableState>,
        player: Address,
        tables: Option<Vec<u32>>,
    ) -> (r: Result<Left, PokerTableError>)
        requires
            seats_fit(stored_view(stored)),
        ensures
            match r {
                Ok(left) => {
                    let table = stored->0@;
                    &&& leave_error(paused, stored_view(stored), player) is None
                    &&& left.withdrawn == table.players.filter(is_player(player)).last().stack
                    &&& left.table@ == left_table(table, player)
                    &&& left.transfers@ == payouts(table, player)
                    &&& left.index == IndexUpdate::Keep <==> tables is None
                    &&& after_update(list_view(tables), left.index) == list_after_leave(
                        list_view(tables),
                        table_id,
                    )
                    &&& left.event == TableEvent::PlayerLeft {
                        table_id,
                        player,
                        withdrawn: left.withdrawn,
                    }
                },
                Err(e) => leave_error(paused, stored_view(stored), player) == Some(e),
            },
    {
        let mut table = match open_table(paused, stored) {
            Ok(table) => table,
            Err(e) => return Err(e),
        };
        if !is_between_hands(table.phase) {
            return Err(PokerTableError::CannotLeaveDuringActiveHand);
        }
        let mut withdrawn: i128 = 0;
        let mut found: bool = false;
        let mut remaining: Vec<PlayerState> = Vec::new();
        let mut transfers: Vec<Transfer> = Vec::new();
        let ghost pay = |p: PlayerState|
            Transfer {
                token: table.config.token,
                account: player,
                direction: Direction::Withdrawal,
                amount: p.stack,
            };
        let ghost before = table@;
        let mut i: usize = 0;
        proof {
            filter_none(table.players@, is_player(player));
            filter_none(table.players@, is_other_player(player));
            filter_none(table.players@, is_player_with_chips(player));
        }
        while i < table.players.len()
            invariant
                i <= table.players.len(),
                table@ == before,
                pay == (|p: PlayerState|
                    Transfer {
                        token: before.config.token,
                        account: player,
                        direction: Direction::Withdrawal,
                        amount: p.stack,
                    }),
                remaining@ == before.players.take(i as int).filter(is_other_player(player)),
                transfers@ == before.players.take(i as int).filter(
                    is_player_with_chips(player),
                ).map_values(pay),
                found == (before.players.take(i as int).filter(is_player(player)).len() > 0),
                found ==> withdrawn == before.players.take(i as int).filter(
                    is_player(player),
                ).last().stack,
                found <==> exists|j: int|
                    0 <= j < i && (#[trigger] before.players[j]).address == player,
            decreases table.players.len() - i,
        {
            let p: PlayerState = table.players[i];
            proof {
                filter_next(before.players, i as int, is_player(player));
                filter_next(before.players, i as int, is_other_player(player));
                filter_next(before.players, i as int, is_player_with_chips(player));
            }
            if constant_time::address_eq(&p.address, &player) {
                found = true;
                withdrawn = p.stack;
                assert(before.players[i as int].address == player);
                if withdrawn > 0 {
                    transfers.push(
                        Transfer {
                            token: table.config.token,
                            account: player,
                            direction: Direction::Withdrawal,
                            amount: withdrawn,
                        },
                    );
                }
            } else {
                remaining.push(p);
            }
            assert(transfers@ =~= before.players.take(i + 1).filter(
                is_player_with_chips(player),
            ).map_values(pay));
            i = i + 1;
        }
        assert(before.players.take(before.players.len() as int) =~= before.players);
        if !found {
            return Err(PokerTableError::PlayerNotAtTable);
        }
        let ghost others = before.players.filter(is_other_player(player));
        proof {
            before.players.lemma_filter_len(is_other_player(player));
        }
        let mut k: usize = 0;
        while k < remaining.len()
            invariant
                k <= remaining.len(),
                remaining.len() == others.len() <= u32::MAX,
                forall|j: int|
                    0 <= j < k ==> remaining@[j] == (PlayerState {
                        seat_index: j as u32,
                        ..others[j]
                    }),
                forall|j: int| k <= j < others.len() ==> remaining@[j] == others[j],
            decreases remaining.len() - k,
        {
            let mut p: PlayerState = remaining[k];
            p.seat_index = k as u32;
            remaining.set(k, p);
            k = k + 1;
        }
        assert(remaining@ =~= renumbered(others));
        let seats: u32 = remaining.len() as u32;
        table.players = remaining;
        if seats == 0 {
            table.dealer_seat = 0;
            table.current_turn = 0;
        } else {
            table.dealer_seat = table.dealer_seat % seats;
            table.current_turn = table.current_turn % seats;
        }
        let index = unindex_player_table(tables, table_id);
        Ok(
            Left {
                withdrawn,
                table,
                transfers,
                index,
                event: TableEvent::PlayerLeft { table_id, player, withdrawn },
            },
        )
    }
}

} // verus!
