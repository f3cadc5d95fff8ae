//! Opening a table, taking a seat, topping it up and giving it back.
use crate::guarantees::{open, same_but_seats, sits_first_at, sits_nowhere};
use crate::table::events::TableEvent;
use crate::table::seats::{
    check_config, find_seat, first_seat_is_unique, index_player_table, is_first_seat,
    is_other_player, is_other_table, is_player, is_player_with_chips, seat_of_is_seated,
    unindex_player_table, Created, Joined, Left, Rebought,
};
use crate::table::types::{
    Address, Direction, GamePhase, IndexUpdate, PlayerState, PokerTableError, TableConfig,
    TableState,
};
use crate::table::PokerTableContract;
use vstd::prelude::*;

verus! {

/// The tables that a stored list names.
pub open spec fn names(tables: Option<Vec<u32>>) -> Seq<u32> {
    match tables {
        Some(list) => list@,
        None => Seq::empty(),
    }
}

// ---------------------------------------------------------------------------
// Finding a seat
// ---------------------------------------------------------------------------

/// A player is found at the first seat they hold, or refused when they hold none.
pub proof fn seat_is_found(table: TableState, player: Address, r: Result<u32, PokerTableError>)
    requires
        call_ensures(find_seat, (&table, &player), r),
    ensures
        r is Ok ==> sits_first_at(table.players@, player, r->Ok_0 as int),
        r is Err <==> sits_nowhere(table.players@, player),
        r is Err ==> r->Err_0 == PokerTableError::PlayerNotAtTable,
{
    seat_of_is_seated(table.players@, player);
}

// ---------------------------------------------------------------------------
// Lists of tables
// ---------------------------------------------------------------------------

/// Sitting down names the table at the end of the list, once.
pub proof fn joined_table_is_listed(tables: Option<Vec<u32>>, table_id: u32, update: IndexUpdate)
    requires
        call_ensures(index_player_table, (tables, table_id), update),
    ensures
        names(tables).contains(table_id) ==> update == IndexUpdate::Keep,
        !names(tables).contains(table_id) ==> {
            &&& update is Store
            &&& update->Store_0@ == names(tables).push(table_id)
        },
{
}

/// Leaving takes the table off the list and keeps the others in order; the list is
/// deleted with its last table.
pub proof fn left_table_is_unlisted(tables: Option<Vec<u32>>, table_id: u32, update: IndexUpdate)
    requires
        call_ensures(unindex_player_table, (tables, table_id), update),
    ensures
        tables is None ==> update == IndexUpdate::Keep,
        tables is Some && (forall|i: int|
            0 <= i < tables->0@.len() ==> #[trigger] tables->0@[i] == table_id) ==> update
            == IndexUpdate::Remove,
        tables is Some && (exists|i: int|
            0 <= i < tables->0@.len() && #[trigger] tables->0@[i] != table_id) ==> {
            &&& update is Store
            &&& update->Store_0@ == tables->0@.filter(|id: u32| id != table_id)
        },
{
    let others = |id: u32| id != table_id;
    assert(is_other_table(table_id) =~= others);
    if tables is Some {
        let list = tables->0@;
        if forall|i: int| 0 <= i < list.len() ==> #[trigger] list[i] == table_id {
            list.lemma_all_neg_filter_empty(others);
        } else {
            let i = choose|i: int| 0 <= i < list.len() && #[trigger] list[i] != table_id;
            list.lemma_filter_contains(others, i);
        }
    }
}

/// A wallet is told the tables on its list, and how many they are.
pub proof fn list_is_told(tables: Option<Vec<u32>>, list: Vec<u32>, count: u32)
    ensures
        call_ensures(PokerTableContract::get_player_tables, (tables,), list) ==> list@ == names(
            tables,
        ),
        call_ensures(PokerTableContract::get_player_table_count, (tables,), count) ==> count
            == names(tables).len(),
{
}

// ---------------------------------------------------------------------------
// Opening a table
// ---------------------------------------------------------------------------

/// True of a configuration with a rake of at most 5% and two to six seats.
pub open spec fn playable(config: TableConfig) -> bool {
    &&& config.rake_bps <= 500
    &&& 2 <= config.min_players
    &&& config.min_players <= config.max_players
    &&& config.max_players <= 6
}

/// A configuration is refused for its rake first, and for its seats otherwise.
pub proof fn configurations_are_checked(config: TableConfig, r: Result<(), PokerTableError>)
    requires
        call_ensures(check_config, (&config,), r),
    ensures
        r is Ok <==> playable(config),
        r == Err::<(), PokerTableError>(PokerTableError::RakeBpsExceedsMax) <==> config.rake_bps
            > 500,
        r == Err::<(), PokerTableError>(PokerTableError::InvalidPlayerCount) <==> config.rake_bps
            <= 500 && !playable(config),
{
}

/// A table is opened under the next id with what its admin configured, and with
/// nobody and nothing at it.
pub proof fn table_is_opened(
    admin: Address,
    config: TableConfig,
    next_id: Option<u32>,
    ledger: u32,
    r: Result<Created, PokerTableError>,
)
    requires
        call_ensures(PokerTableContract::create_table, (admin, config, next_id, ledger), r),
    ensures
        r is Ok <==> playable(config),
        r == Err::<Created, PokerTableError>(PokerTableError::RakeBpsExceedsMax)
            <==> config.rake_bps > 500,
        r == Err::<Created, PokerTableError>(PokerTableError::InvalidPlayerCount)
            <==> config.rake_bps <= 500 && !playable(config),
        r is Ok ==> {
            let created = r->Ok_0;
            let table = created.table;
            &&& next_id is Some ==> created.table_id == next_id->0
            &&& next_id is None ==> created.table_id == 0
            &&& created.next_id == created.table_id + 1
            &&& created.event == (TableEvent::TableCreated { table_id: created.table_id, admin })
            &&& table.id == created.table_id
            &&& table.admin == admin
            &&& table.committee == config.committee
            &&& table.config == config
            &&& table.phase == GamePhase::Waiting
            &&& table.players@.len() == 0
            &&& table.dealer_seat == 0
            &&& table.current_turn == 0
            &&& table.pot == 0
            &&& table.side_pots@.len() == 0
            &&& table.rake_balance == 0
            &&& table.jackpot_balance == 0
            &&& forall|i: int| 0 <= i < 32 ==> #[trigger] table.deck_root.bytes@[i] == 0
            &&& table.hand_commitments@.len() == 0
            &&& table.board_cards@.len() == 0
            &&& table.dealt_indices@.len() == 0
            &&& table.hand_number == 0
            &&& table.session_id == 0
            &&& table.hand_actions@.len() == 0
            &&& table.last_action_ledger == ledger
            &&& table.action_deadline == 0
        },
{
    if r is Ok {
        let table = r->Ok_0.table@;
        assert(table.players.len() == 0);
    }
}

// ---------------------------------------------------------------------------
// Joining
// ---------------------------------------------------------------------------

/// A player is seated last, with the buy-in as their stack and as all they
/// deposited, exactly when the table waits, has a free seat, allows the buy-in and
/// does not seat them yet.
pub proof fn player_is_seated(
    table_id: u32,
    paused: Option<bool>,
    stored: Option<TableState>,
    player: Address,
    buy_in: i128,
    tables: Option<Vec<u32>>,
    r: Result<Joined, PokerTableError>,
)
    requires
        call_ensures(
            PokerTableContract::join_table,
            (table_id, paused, stored, player, buy_in, tables),
            r,
        ),
    ensures
        r == Err::<Joined, PokerTableError>(PokerTableError::ContractPaused) <==> paused == Some(
            true,
        ),
        r == Err::<Joined, PokerTableError>(PokerTableError::TableNotFound) <==> paused != Some(
            true,
        ) && stored is None,
        open(paused, stored) ==> {
            let table = stored->0;
            let waits = table.phase == GamePhase::Waiting;
            let has_room = table.players@.len() < table.config.max_players;
            let in_band = table.config.min_buy_in <= buy_in && buy_in <= table.config.max_buy_in;
            let stranger = sits_nowhere(table.players@, player);
            &&& r == Err::<Joined, PokerTableError>(PokerTableError::TableNotAcceptingPlayers)
                <==> !waits
            &&& r == Err::<Joined, PokerTableError>(PokerTableError::TableFull) <==> waits
                && !has_room
            &&& r == Err::<Joined, PokerTableError>(PokerTableError::InvalidBuyIn) <==> waits
                && has_room && !in_band
            &&& r == Err::<Joined, PokerTableError>(PokerTableError::AlreadySeated) <==> waits
                && has_room && in_band && !stranger
            &&& r is Ok <==> waits && has_room && in_band && stranger
        },
        r is Ok ==> {
            let table = stored->0;
            let joined = r->Ok_0;
            let seats = joined.table.players@;
            let taken = seats.last();
            &&& same_but_seats(joined.table, table)
            &&& joined.table.dealer_seat == table.dealer_seat
            &&& joined.table.current_turn == table.current_turn
            &&& seats.len() == table.players@.len() + 1
            &&& seats.drop_last() == table.players@
            &&& joined.seat == table.players@.len()
            &&& taken.address == player
            &&& taken.stack == buy_in
            &&& taken.total_buy_in == buy_in
            &&& taken.rebuy_count == 0
            &&& taken.seat_index == joined.seat
            &&& taken.bet_this_round == 0
            &&& taken.committed == 0
            &&& !taken.folded && !taken.all_in && !taken.sitting_out
            &&& joined.transfer.token == table.config.token
            &&& joined.transfer.account == player
            &&& joined.transfer.direction == Direction::Deposit
            &&& joined.transfer.amount == buy_in
            &&& joined.event == (TableEvent::PlayerJoined { table_id, player, seat: joined.seat })
            &&& names(tables).contains(table_id) ==> joined.index == IndexUpdate::Keep
            &&& !names(tables).contains(table_id) ==> {
                &&& joined.index is Store
                &&& joined.index->Store_0@ == names(tables).push(table_id)
            }
        },
{
    if r is Ok {
        let seats = r->Ok_0.table@.players;
        assert(seats.drop_last() =~= stored->0.players@);
        assert(r->Ok_0.table.players@ == seats);
    }
}

// ---------------------------------------------------------------------------
// Topping up
// ---------------------------------------------------------------------------

/// A player is topped up exactly when no hand is on, they sit at the table, have
/// rebuys left, and add a positive amount of at most one full buy-in that leaves
/// their stack within the band. Nobody else's seat changes.
pub proof fn stack_is_topped_up(
    table_id: u32,
    paused: Option<bool>,
    stored: Option<TableState>,
    player: Address,
    amount: i128,
    i: int,
    r: Result<Rebought, PokerTableError>,
)
    requires
        call_ensures(PokerTableContract::rebuy, (table_id, paused, stored, player, amount), r),
        open(paused, stored) && !sits_nowhere(stored->0.players@, player) ==> sits_first_at(
            stored->0.players@,
            player,
            i,
        ),
    ensures
        r == Err::<Rebought, PokerTableError>(PokerTableError::ContractPaused) <==> paused == Some(
            true,
        ),
        r == Err::<Rebought, PokerTableError>(PokerTableError::TableNotFound) <==> paused != Some(
            true,
        ) && stored is None,
        open(paused, stored) ==> {
            let table = stored->0;
            let seat = table.players@[i];
            let new_stack = seat.stack + amount;
            let between = table.phase == GamePhase::Waiting || table.phase == GamePhase::Settlement;
            let stranger = sits_nowhere(table.players@, player);
            let spent = table.config.max_rebuys != 0 && seat.rebuy_count
                >= table.config.max_rebuys;
            let allowed = 0 < amount && amount <= table.config.max_buy_in && new_stack
                <= table.config.max_buy_in && new_stack >= table.config.min_buy_in;
            &&& r == Err::<Rebought, PokerTableError>(
                PokerTableError::CannotRebuyDuringActiveHand,
            ) <==> !between
            &&& r == Err::<Rebought, PokerTableError>(PokerTableError::PlayerNotAtTable)
                <==> between && stranger
            &&& r == Err::<Rebought, PokerTableError>(PokerTableError::RebuyLimitReached)
                <==> between && !stranger && spent
            &&& r == Err::<Rebought, PokerTableError>(PokerTableError::InvalidRebuyAmount)
                <==> between && !stranger && !spent && !allowed
            &&& r is Ok <==> between && !stranger && !spent && allowed
        },
        r is Ok && stored->0.players@[i].total_buy_in + amount <= i128::MAX
            && stored->0.players@[i].rebuy_count < u32::MAX ==> {
            let table = stored->0;
            let before = table.players@[i];
            let rebought = r->Ok_0;
            let seats = rebought.table.players@;
            let after = seats[i];
            &&& same_but_seats(rebought.table, table)
            &&& rebought.table.dealer_seat == table.dealer_seat
            &&& rebought.table.current_turn == table.current_turn
            &&& seats.len() == table.players@.len()
            &&& forall|j: int|
                0 <= j < seats.len() && j != i ==> #[trigger] seats[j] == table.players@[j]
            &&& after.stack - before.stack == amount
            &&& after.total_buy_in - before.total_buy_in == amount
            &&& after.rebuy_count - before.rebuy_count == 1
            &&& after.address == before.address
            &&& after.seat_index == before.seat_index
            &&& after.bet_this_round == before.bet_this_round
            &&& after.committed == before.committed
            &&& after.folded == before.folded
            &&& after.all_in == before.all_in
            &&& after.sitting_out == before.sitting_out
            &&& rebought.new_stack == after.stack
            &&& rebought.transfer.token == table.config.token
            &&& rebought.transfer.account == player
            &&& rebought.transfer.direction == Direction::Deposit
            &&& rebought.transfer.amount == amount
            &&& rebought.event == (TableEvent::PlayerRebuy {
                table_id,
                player,
                amount,
                new_stack: after.stack,
                rebuy_count: after.rebuy_count,
            })
        },
{
    if open(paused, stored) {
        let players = stored->0.players@;
        seat_of_is_seated(players, player);
        if !sits_nowhere(players, player) {
            assert(is_first_seat(players, player, i));
            first_seat_is_unique(players, player, i);
        }
        if r is Ok {
            assert(r->Ok_0.table@.players == r->Ok_0.table.players@);
        }
    }
}

/// A rebuy can be computed exactly when each sum that it reaches has a place in
/// its type. One that is refused before that reaches none.
pub proof fn topping_up_is_in_range(
    paused: Option<bool>,
    stored: Option<TableState>,
    player: Address,
    amount: i128,
    i: int,
    fits: bool,
)
    requires
        call_ensures(PokerTableContract::rebuy_fits, (paused, &stored, player, amount), fits),
        open(paused, stored) && !sits_nowhere(stored->0.players@, player) ==> sits_first_at(
            stored->0.players@,
            player,
            i,
        ),
    ensures
        !open(paused, stored) ==> fits,
        open(paused, stored) ==> {
            let table = stored->0;
            let config = table.config;
            let seat = table.players@[i];
            let new_stack = seat.stack + amount;
            let between = table.phase == GamePhase::Waiting || table.phase == GamePhase::Settlement;
            let reached = between && !sits_nowhere(table.players@, player) && (config.max_rebuys
                == 0 || seat.rebuy_count < config.max_rebuys);
            let allowed = 0 < amount && amount <= config.max_buy_in && new_stack
                <= config.max_buy_in && new_stack >= config.min_buy_in;
            fits <==> (reached ==> i128::MIN <= new_stack && new_stack <= i128::MAX && (allowed
                ==> seat.total_buy_in + amount <= i128::MAX && seat.rebuy_count < u32::MAX))
        },
{
    if open(paused, stored) {
        let players = stored->0.players@;
        seat_of_is_seated(players, player);
        if !sits_nowhere(players, player) {
            assert(is_first_seat(players, player, i));
            first_seat_is_unique(players, player, i);
        }
    }
}

/// A player is told what they deposited and how often they topped up, as their
/// first seat records it.
pub proof fn deposits_are_told(
    stored: Option<TableState>,
    player: Address,
    i: int,
    r: Result<(i128, u32), PokerTableError>,
)
    requires
        call_ensures(PokerTableContract::get_player_buy_in, (stored, player), r),
    ensures
        stored is None <==> r == Err::<(i128, u32), PokerTableError>(
            PokerTableError::TableNotFound,
        ),
        stored is Some ==> (sits_nowhere(stored->0.players@, player) <==> r == Err::<
            (i128, u32),
            PokerTableError,
        >(PokerTableError::PlayerNotAtTable)),
        stored is Some && sits_first_at(stored->0.players@, player, i) ==> r == Ok::<
            (i128, u32),
            PokerTableError,
        >((stored->0.players@[i].total_buy_in, stored->0.players@[i].rebuy_count)),
{
    if stored is Some {
        let players = stored->0.players@;
        seat_of_is_seated(players, player);
        if sits_first_at(players, player, i) {
            assert(is_first_seat(players, player, i));
            first_seat_is_unique(players, player, i);
        }
    }
}

// ---------------------------------------------------------------------------
// Leaving
// ---------------------------------------------------------------------------

/// The last item that passes a filter is the last one that passes the test.
proof fn last_kept_is_last<A>(s: Seq<A>, pred: spec_fn(A) -> bool)
    requires
        s.filter(pred).len() > 0,
    ensures
        exists|i: int|
            {
                &&& 0 <= i < s.len()
                &&& pred(#[trigger] s[i])
                &&& s[i] == s.filter(pred).last()
                &&& forall|j: int| i < j < s.len() ==> !pred(#[trigger] s[j])
            },
    decreases s.len(),
{
    reveal(Seq::filter);
    if s.len() > 0 {
        let rest = s.drop_last();
        if pred(s.last()) {
            assert(s[s.len() - 1] == s.filter(pred).last());
        } else {
            last_kept_is_last(rest, pred);
            let i = choose|i: int|
                {
                    &&& 0 <= i < rest.len()
                    &&& pred(#[trigger] rest[i])
                    &&& rest[i] == rest.filter(pred).last()
                    &&& forall|j: int| i < j < rest.len() ==> !pred(#[trigger] rest[j])
                };
            assert(s[i] == rest[i]);
            assert forall|j: int| i < j < s.len() implies !pred(#[trigger] s[j]) by {
                if j < rest.len() {
                    assert(!pred(rest[j]));
                }
            }
        }
    }
}

/// A player leaves exactly when no hand is on and they sit at the table. They get
/// the chips of every seat they hold. The others keep all they have, in the same
/// order, with their positions as seat numbers, and the button and the turn move
/// by whole rounds onto one of the seats left.
pub proof fn player_leaves(
    table_id: u32,
    paused: Option<bool>,
    stored: Option<TableState>,
    player: Address,
    tables: Option<Vec<u32>>,
    r: Result<Left, PokerTableError>,
)
    requires
        call_ensures(
            PokerTableContract::leave_table,
            (table_id, paused, stored, player, tables),
            r,
        ),
        stored is Some ==> stored->0.players@.len() <= u32::MAX,
    ensures
        r == Err::<Left, PokerTableError>(PokerTableError::ContractPaused) <==> paused == Some(
            true,
        ),
        r == Err::<Left, PokerTableError>(PokerTableError::TableNotFound) <==> paused != Some(
            true,
        ) && stored is None,
        open(paused, stored) ==> {
            let table = stored->0;
            let between = table.phase == GamePhase::Waiting || table.phase == GamePhase::Settlement;
            let stranger = sits_nowhere(table.players@, player);
            &&& r == Err::<Left, PokerTableError>(PokerTableError::CannotLeaveDuringActiveHand)
                <==> !between
            &&& r == Err::<Left, PokerTableError>(PokerTableError::PlayerNotAtTable) <==> between
                && stranger
            &&& r is Ok <==> between && !stranger
        },
        r is Ok ==> {
            let table = stored->0;
            let left = r->Ok_0;
            let seats = left.table.players@;
            let others = table.players@.filter(|p: PlayerState| p.address != player);
            let paid = table.players@.filter(
                |p: PlayerState| p.address == player && p.stack > 0,
            );
            let n = seats.len() as int;
            &&& same_but_seats(left.table, table)
            &&& seats.len() == others.len()
            &&& forall|k: int|
                0 <= k < n ==> {
                    &&& (#[trigger] seats[k]).seat_index == k
                    &&& seats[k].address == others[k].address
                    &&& seats[k].stack == others[k].stack
                    &&& seats[k].bet_this_round == others[k].bet_this_round
                    &&& seats[k].committed == others[k].committed
                    &&& seats[k].folded == others[k].folded
                    &&& seats[k].all_in == others[k].all_in
                    &&& seats[k].sitting_out == others[k].sitting_out
                    &&& seats[k].total_buy_in == others[k].total_buy_in
                    &&& seats[k].rebuy_count == others[k].rebuy_count
                }
            &&& n == 0 ==> left.table.dealer_seat == 0 && left.table.current_turn == 0
            &&& n > 0 ==> {
                &&& left.table.dealer_seat < n
                &&& left.table.current_turn < n
                &&& (table.dealer_seat - left.table.dealer_seat) % n == 0
                &&& (table.current_turn - left.table.current_turn) % n == 0
                &&& left.table.dealer_seat <= table.dealer_seat
                &&& left.table.current_turn <= table.current_turn
            }
            &&& exists|i: int|
                {
                    &&& 0 <= i < table.players@.len()
                    &&& (#[trigger] table.players@[i]).address == player
                    &&& left.withdrawn == table.players@[i].stack
                    &&& forall|j: int|
                        i < j < table.players@.len() ==> (#[trigger] table.players@[j]).address
                            != player
                }
            &&& left.transfers@.len() == paid.len()
            &&& forall|k: int|
                0 <= k < paid.len() ==> {
                    &&& (#[trigger] left.transfers@[k]).token == table.config.token
                    &&& left.transfers@[k].account == player
                    &&& left.transfers@[k].direction == Direction::Withdrawal
                    &&& left.transfers@[k].amount == paid[k].stack
                }
            &&& left.event == (TableEvent::PlayerLeft {
                table_id,
                player,
                withdrawn: left.withdrawn,
            })
            &&& tables is None ==> left.index == IndexUpdate::Keep
            &&& tables is Some && (forall|i: int|
                0 <= i < tables->0@.len() ==> #[trigger] tables->0@[i] == table_id) ==> left.index
                == IndexUpdate::Remove
            &&& tables is Some && (exists|i: int|
                0 <= i < tables->0@.len() && #[trigger] tables->0@[i] != table_id) ==> {
                &&& left.index is Store
                &&& left.index->Store_0@ == tables->0@.filter(|id: u32| id != table_id)
            }
        },
{
    if r is Ok {
        let table = stored->0;
        let left = r->Ok_0;
        let others = |p: PlayerState| p.address != player;
        let own = |p: PlayerState| p.address == player;
        let paid = |p: PlayerState| p.address == player && p.stack > 0;
        assert(is_other_player(player) =~= others);
        assert(is_player(player) =~= own);
        assert(is_player_with_chips(player) =~= paid);
        assert(left.table@.players == left.table.players@);
        table.players@.lemma_filter_len(others);
        let i = choose|i: int|
            0 <= i < table.players@.len() && (#[trigger] table.players@[i]).address == player;
        table.players@.lemma_filter_contains(own, i);
        last_kept_is_last(table.players@, own);
        let last = choose|i: int|
            {
                &&& 0 <= i < table.players@.len()
                &&& own(#[trigger] table.players@[i])
                &&& table.players@[i] == table.players@.filter(own).last()
                &&& forall|j: int|
                    i < j < table.players@.len() ==> !own(#[trigger] table.players@[j])
            };
        assert(table.players@[last].address == player);
        assert forall|j: int| last < j < table.players@.len() implies (
        #[trigger] table.players@[j]).address != player by {
            assert(!own(table.players@[j]));
        }
        let n = left.table.players@.len() as int;
        if n > 0 {
            whole_rounds(table.dealer_seat as int, n);
            whole_rounds(table.current_turn as int, n);
        }
        if tables is Some {
            let elsewhere = |id: u32| id != table_id;
            assert(is_other_table(table_id) =~= elsewhere);
            let list = tables->0@;
            if forall|i: int| 0 <= i < list.len() ==> #[trigger] list[i] == table_id {
                list.lemma_all_neg_filter_empty(elsewhere);
            } else {
                let k = choose|k: int| 0 <= k < list.len() && #[trigger] list[k] != table_id;
                list.lemma_filter_contains(elsewhere, k);
            }
        }
    }
}

/// Taking a remainder moves by whole rounds.
proof fn whole_rounds(seat: int, n: int)
    requires
        seat >= 0,
        n > 0,
    ensures
        0 <= seat % n < n,
        seat % n <= seat,
        (seat - seat % n) % n == 0,
{
    vstd::arithmetic::div_mod::lemma_mod_bound(seat, n);
    vstd::arithmetic::div_mod::lemma_fundamental_div_mod(seat, n);
    vstd::arithmetic::div_mod::lemma_mod_multiples_basic(seat / n, n);
    vstd::arithmetic::div_mod::lemma_mod_decreases(seat as nat, n as nat);
    assert(seat - seat % n == (seat / n) * n) by (nonlinear_arith)
        requires
            seat == n * (seat / n) + seat % n,
    ;
}

} // verus!
