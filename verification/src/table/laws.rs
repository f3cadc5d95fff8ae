//! What holds of a table whatever is done with it.
use crate::table::admin::{min_players_error, rake_paid_out, with_config};
use crate::table::play::{
    action_error, betting_phase, board_indices, cards_to_reveal, deal_error, deal_sums_fit,
    dealt_table, reveal_error, revealed_table, round_after_reveal, showdown_error, start_error,
    started_error, started_table,
};
use crate::table::seats::{
    config_error, first_seat_is_unique, is_first_seat, is_other_player, is_other_table, is_player,
    is_player_with_chips, join_error, joined_table, leave_error, left_table, list_after_join,
    list_after_leave, listed, new_table, next_table_id, payouts, rebought_table, rebuy_allowed,
    rebuy_error, rebuy_sums_fit, renumbered, seat_of, seat_of_is_seated, seated, topped_up,
};
use crate::table::types::{
    Address, Bytes32, Direction, GamePhase, PlayerState, PokerTableError, TableConfig, TableView,
    Transfer,
};
use crate::table::{access_error, between_hands, paused_flag, MAX_PLAYERS_PER_TABLE, MAX_RAKE_BPS};
use vstd::arithmetic::div_mod::lemma_small_mod;
use vstd::prelude::*;

verus! {

// ---------------------------------------------------------------------------
// A pause suspends everything but the admin's operations
// ---------------------------------------------------------------------------

/// While a table is paused, every operation but the admin's is refused with
/// `ContractPaused`, whatever the table and the arguments are.
pub proof fn paused_table_refuses_players(
    paused: Option<bool>,
    stored: Option<TableView>,
    player: Address,
    amount: i128,
    dealt: Result<TableView, PokerTableError>,
    verified: bool,
    count: nat,
    other_count: nat,
    public_inputs: Seq<u8>,
    hole_cards: Seq<(u32, u32)>,
)
    requires
        paused_flag(paused),
    ensures
        join_error(paused, stored, player, amount) == Some(PokerTableError::ContractPaused),
        rebuy_error(paused, stored, player, amount) == Some(PokerTableError::ContractPaused),
        leave_error(paused, stored, player) == Some(PokerTableError::ContractPaused),
        start_error(paused, stored) == Some(PokerTableError::ContractPaused),
        started_error(paused, stored, dealt) == Some(PokerTableError::ContractPaused),
        deal_error(paused, stored, player, count, verified) == Some(
            PokerTableError::ContractPaused,
        ),
        action_error(paused, stored) == Some(PokerTableError::ContractPaused),
        reveal_error(paused, stored, player, count, other_count, verified) == Some(
            PokerTableError::ContractPaused,
        ),
        showdown_error(paused, stored, player, verified, public_inputs, hole_cards) == Some(
            PokerTableError::ContractPaused,
        ),
        access_error(paused, stored) == Some(PokerTableError::ContractPaused),
{
}

/// A table that was never paused, or was unpaused, is open again.
pub proof fn unpaused_table_is_open(table: TableView)
    ensures
        access_error(Some(false), Some(table)) is None,
        access_error(None, Some(table)) is None,
{
}

// ---------------------------------------------------------------------------
// Who may do what, and when
// ---------------------------------------------------------------------------

/// Nobody but the table's committee deals, reveals or shows down, and even the
/// committee does not with a proof that the verifier rejects.
pub proof fn committee_needs_authority_and_proof(
    paused: Option<bool>,
    table: TableView,
    committee: Address,
    verified: bool,
    count: nat,
    other_count: nat,
    public_inputs: Seq<u8>,
    hole_cards: Seq<(u32, u32)>,
)
    requires
        committee != table.committee || !verified,
    ensures
        deal_error(paused, Some(table), committee, count, verified) is Some,
        reveal_error(paused, Some(table), committee, count, other_count, verified) is Some,
        showdown_error(
            paused,
            Some(table),
            committee,
            verified,
            public_inputs,
            hole_cards,
        ) is Some,
{
}

/// Every operation of a hand belongs to its phases: players sit down while the
/// table waits, hands start between hands, the deal opens the first betting
/// round, each reveal the next one, and bets are taken in betting rounds only.
pub proof fn operations_keep_to_their_phase(
    paused: Option<bool>,
    table: TableView,
    player: Address,
    amount: i128,
    verified: bool,
    count: nat,
    other_count: nat,
    public_inputs: Seq<u8>,
    hole_cards: Seq<(u32, u32)>,
)
    ensures
        join_error(paused, Some(table), player, amount) is None ==> table.phase
            == GamePhase::Waiting,
        start_error(paused, Some(table)) is None ==> between_hands(table.phase),
        deal_error(paused, Some(table), player, count, verified) is None ==> table.phase
            == GamePhase::Dealing,
        action_error(paused, Some(table)) is None ==> betting_phase(table.phase),
        reveal_error(paused, Some(table), player, count, other_count, verified) is None
            ==> !betting_phase(table.phase) && betting_phase(round_after_reveal(table.phase)),
        showdown_error(
            paused,
            Some(table),
            player,
            verified,
            public_inputs,
            hole_cards,
        ) is None ==> table.phase == GamePhase::Showdown,
{
}

/// The stored counter after `k` tables have been opened.
pub open spec fn counter_after(next_id: Option<u32>, k: nat) -> Option<u32>
    decreases k,
{
    if k == 0 {
        next_id
    } else {
        Some((next_table_id(counter_after(next_id, (k - 1) as nat)) + 1) as u32)
    }
}

/// Tables are numbered in the order in which they are opened: after `k` openings
/// the next id is `k` more than at first, and `k` itself on a fresh ledger. So
/// each table gets a larger id than all before it.
pub proof fn tables_get_fresh_ids(next_id: Option<u32>, k: nat, earlier: nat)
    requires
        next_table_id(next_id) + k <= u32::MAX,
    ensures
        next_table_id(counter_after(next_id, k)) == next_table_id(next_id) + k,
        next_id is None ==> next_table_id(counter_after(next_id, k)) == k,
        earlier < k ==> next_table_id(counter_after(next_id, earlier)) < next_table_id(
            counter_after(next_id, k),
        ),
    decreases k,
{
    if k > 0 {
        tables_get_fresh_ids(next_id, (k - 1) as nat, earlier);
    }
}

// ---------------------------------------------------------------------------
// The shape of a table
// ---------------------------------------------------------------------------

/// True when each seat carries its own position as its number.
pub open spec fn seats_numbered(players: Seq<PlayerState>) -> bool {
    forall|i: int| 0 <= i < players.len() ==> (#[trigger] players[i]).seat_index == i
}

/// True when nobody holds two seats.
pub open spec fn players_distinct(players: Seq<PlayerState>) -> bool {
    forall|i: int, j: int|
        0 <= i < j < players.len() ==> (#[trigger] players[i]).address != (
        #[trigger] players[j]).address
}

/// True when `seat` is a seat of a table of `seats` seats, or 0 at an empty one.
pub open spec fn seat_in_table(seat: u32, seats: nat) -> bool {
    seat < seats || (seats == 0 && seat == 0)
}

/// True of a configuration that a table may have.
pub open spec fn config_wf(config: TableConfig) -> bool {
    &&& config.rake_bps <= MAX_RAKE_BPS
    &&& 2 <= config.min_players <= config.max_players <= MAX_PLAYERS_PER_TABLE
}

/// True of every table that the operations produce: its configuration is
/// allowed, its seats are not more than that, numbered and held by different
/// players, and the button and the turn are at a seat.
pub open spec fn table_wf(table: TableView) -> bool {
    &&& config_wf(table.config)
    &&& table.players.len() <= table.config.max_players
    &&& seats_numbered(table.players)
    &&& players_distinct(table.players)
    &&& seat_in_table(table.dealer_seat, table.players.len())
    &&& seat_in_table(table.current_turn, table.players.len())
}

/// A new table is well-formed.
pub proof fn new_table_is_wf(id: u32, admin: Address, config: TableConfig, ledger: u32)
    requires
        config_error(config) is None,
    ensures
        table_wf(new_table(id, admin, config, ledger)),
{
}

/// Sitting down keeps a table well-formed.
pub proof fn join_keeps_wf(
    paused: Option<bool>,
    table: TableView,
    player: Address,
    buy_in: i128,
)
    requires
        table_wf(table),
        join_error(paused, Some(table), player, buy_in) is None,
    ensures
        table_wf(joined_table(table, player, buy_in)),
{
}

/// A rebuy keeps a table well-formed, and every seat with its player.
pub proof fn rebuy_keeps_wf(
    paused: Option<bool>,
    table: TableView,
    player: Address,
    amount: i128,
)
    requires
        table_wf(table),
        rebuy_error(paused, Some(table), player, amount) is None,
    ensures
        table_wf(rebought_table(table, player, amount)),
        forall|a: Address|
            seated(rebought_table(table, player, amount).players, a) <==> seated(table.players, a),
{
    seat_of_is_seated(table.players, player);
    let seat = seat_of(table.players, player)->0;
    let after = rebought_table(table, player, amount).players;
    assert(after[seat].address == table.players[seat].address);
    assert forall|a: Address| seated(after, a) <==> seated(table.players, a) by {
        if seated(after, a) {
            let i = choose|i: int| 0 <= i < after.len() && (#[trigger] after[i]).address == a;
            assert(table.players[i].address == a);
        }
        if seated(table.players, a) {
            let i = choose|i: int|
                0 <= i < table.players.len() && (#[trigger] table.players[i]).address == a;
            assert(after[i].address == a);
        }
    }
}

/// Seats that are numbered by their position are left as they are.
pub proof fn renumbering_numbered_seats(players: Seq<PlayerState>)
    requires
        seats_numbered(players),
        players.len() <= u32::MAX,
    ensures
        renumbered(players) == players,
{
    assert forall|i: int| 0 <= i < players.len() implies renumbered(players)[i] == players[i] by {
        assert(players[i].seat_index == i);
    }
    assert(renumbered(players) =~= players);
}

/// What a filter keeps was there before, in the same order.
proof fn filter_keeps_order(players: Seq<PlayerState>, pred: spec_fn(PlayerState) -> bool)
    ensures
        players.filter(pred).len() <= players.len(),
        forall|i: int|
            0 <= i < players.filter(pred).len() ==> pred(#[trigger] players.filter(pred)[i])
                && players.contains(players.filter(pred)[i]),
        forall|i: int|
            0 <= i < players.len() && pred(#[trigger] players[i]) ==> players.filter(
                pred,
            ).contains(players[i]),
        players_distinct(players) ==> players_distinct(players.filter(pred)),
    decreases players.len(),
{
    reveal(Seq::filter);
    if players.len() > 0 {
        let rest = players.drop_last();
        let kept = rest.filter(pred);
        filter_keeps_order(rest, pred);
        assert forall|i: int| 0 <= i < players.filter(pred).len() implies pred(
            #[trigger] players.filter(pred)[i],
        ) && players.contains(players.filter(pred)[i]) by {
            if i < kept.len() {
                assert(rest.contains(kept[i]));
                let k = choose|k: int| 0 <= k < rest.len() && rest[k] == kept[i];
                assert(players[k] == kept[i]);
            } else {
                assert(players[players.len() - 1] == players.filter(pred)[i]);
            }
        }
        assert forall|i: int|
            0 <= i < players.len() && pred(#[trigger] players[i]) implies players.filter(
            pred,
        ).contains(players[i]) by {
            if i < rest.len() {
                assert(rest[i] == players[i]);
                assert(kept.contains(players[i]));
                let k = choose|k: int| 0 <= k < kept.len() && kept[k] == players[i];
                assert(players.filter(pred)[k] == players[i]);
            } else {
                assert(players.filter(pred)[kept.len() as int] == players[i]);
            }
        }
        if players_distinct(players) {
            assert(players_distinct(rest)) by {
                assert forall|i: int, j: int| 0 <= i < j < rest.len() implies (
                #[trigger] rest[i]).address != (#[trigger] rest[j]).address by {
                    assert(players[i].address != players[j].address);
                }
            }
            let all = players.filter(pred);
            assert forall|i: int, j: int| 0 <= i < j < all.len() implies (
            #[trigger] all[i]).address != (#[trigger] all[j]).address by {
                if j < kept.len() {
                    assert(kept[i].address != kept[j].address);
                } else {
                    assert(rest.contains(kept[i]));
                    let k = choose|k: int| 0 <= k < rest.len() && rest[k] == kept[i];
                    assert(players[k].address != players[players.len() - 1].address);
                }
            }
        }
    }
}

/// After a player left, exactly the others are still seated.
pub proof fn leave_unseats_only_the_player(table: TableView, player: Address, a: Address)
    ensures
        seated(left_table(table, player).players, a) <==> a != player && seated(table.players, a),
{
    let others = table.players.filter(is_other_player(player));
    let after = left_table(table, player).players;
    filter_keeps_order(table.players, is_other_player(player));
    if seated(after, a) {
        let i = choose|i: int| 0 <= i < after.len() && (#[trigger] after[i]).address == a;
        assert(others[i].address == a);
        assert(is_other_player(player)(others[i]));
        assert(table.players.contains(others[i]));
        let k = choose|k: int| 0 <= k < table.players.len() && table.players[k] == others[i];
        assert(table.players[k].address == a);
    }
    if a != player && seated(table.players, a) {
        let i = choose|i: int|
            0 <= i < table.players.len() && (#[trigger] table.players[i]).address == a;
        assert(is_other_player(player)(table.players[i]));
        assert(others.contains(table.players[i]));
        let k = choose|k: int| 0 <= k < others.len() && others[k] == table.players[i];
        assert(after[k].address == a);
    }
}

/// Leaving keeps a table well-formed: the other seats close up, and the button
/// and the turn stay inside the smaller table.
pub proof fn leave_keeps_wf(table: TableView, player: Address)
    requires
        table_wf(table),
    ensures
        table_wf(left_table(table, player)),
{
    let others = table.players.filter(is_other_player(player));
    let after = left_table(table, player).players;
    filter_keeps_order(table.players, is_other_player(player));
    assert forall|i: int, j: int| 0 <= i < j < after.len() implies (#[trigger] after[i]).address
        != (#[trigger] after[j]).address by {
        assert(others[i].address != others[j].address);
    }
    let seats = after.len() as int;
    if seats > 0 {
        assert(0 <= table.dealer_seat as int % seats < seats);
        assert(0 <= table.current_turn as int % seats < seats);
    }
}

/// Committing a deal keeps a table well-formed: the first to act is seated.
pub proof fn deal_keeps_wf(
    paused: Option<bool>,
    table: TableView,
    committee: Address,
    deck_root: Bytes32,
    hand_commitments: Seq<Bytes32>,
    dealt_indices: Seq<u32>,
    verified: bool,
    ledger: u32,
)
    requires
        table_wf(table),
        deal_error(paused, Some(table), committee, hand_commitments.len(), verified) is None,
        deal_sums_fit(table, ledger),
    ensures
        table_wf(dealt_table(table, deck_root, hand_commitments, dealt_indices, ledger)),
{
    let seats = table.players.len() as int;
    assert(0 <= (table.dealer_seat + 3) % seats < seats);
}

/// Starting a hand, revealing cards, paying out the rake and the admin's changes
/// of the configuration keep a table well-formed.
pub proof fn other_operations_keep_wf(
    table: TableView,
    cards: Seq<u32>,
    indices: Seq<u32>,
    ledger: u32,
    hub: Address,
    value: u32,
    min_category: u32,
    min_rank: u32,
)
    requires
        table_wf(table),
    ensures
        table_wf(started_table(table)),
        table_wf(revealed_table(table, cards, indices, ledger)),
        table_wf(rake_paid_out(table)),
        table_wf(with_config(table, TableConfig { game_hub: hub, ..table.config })),
        table_wf(with_config(table, TableConfig { max_rebuys: value, ..table.config })),
        value <= MAX_RAKE_BPS ==> table_wf(
            with_config(table, TableConfig { rake_bps: value, ..table.config }),
        ),
        min_players_error(Some(table), value) is None ==> table_wf(
            with_config(table, TableConfig { min_players: value, ..table.config }),
        ),
        table_wf(
            with_config(
                table,
                TableConfig {
                    jackpot_rake_share_bps: value,
                    min_bad_beat_category: min_category,
                    min_bad_beat_rank: min_rank,
                    ..table.config
                },
            ),
        ),
{
}

// ---------------------------------------------------------------------------
// Chips
// ---------------------------------------------------------------------------

/// The chips in front of all players.
pub open spec fn stacks(players: Seq<PlayerState>) -> int
    decreases players.len(),
{
    if players.len() == 0 {
        0
    } else {
        stacks(players.drop_last()) + players.last().stack
    }
}

/// All chips that the table holds for somebody: the stacks, the pot, the rake
/// and the jackpot.
pub open spec fn chips_held(table: TableView) -> int {
    stacks(table.players) + table.pot + table.rake_balance + table.jackpot_balance
}

/// The tokens that a list of transfers moves.
pub open spec fn moved(transfers: Seq<Transfer>) -> int
    decreases transfers.len(),
{
    if transfers.len() == 0 {
        0
    } else {
        moved(transfers.drop_last()) + transfers.last().amount
    }
}

/// True when no stack is negative.
pub open spec fn stacks_nonnegative(players: Seq<PlayerState>) -> bool {
    forall|i: int| 0 <= i < players.len() ==> (#[trigger] players[i]).stack >= 0
}

/// Changing one stack changes the sum by as much.
proof fn stacks_update(players: Seq<PlayerState>, i: int, p: PlayerState)
    requires
        0 <= i < players.len(),
    ensures
        stacks(players.update(i, p)) == stacks(players) - players[i].stack + p.stack,
    decreases players.len(),
{
    let after = players.update(i, p);
    if i < players.len() - 1 {
        stacks_update(players.drop_last(), i, p);
        assert(after.drop_last() =~= players.drop_last().update(i, p));
    } else {
        assert(after.drop_last() =~= players.drop_last());
    }
}

/// Numbering seats moves no chips.
proof fn stacks_renumbered(players: Seq<PlayerState>)
    ensures
        stacks(renumbered(players)) == stacks(players),
    decreases players.len(),
{
    if players.len() > 0 {
        stacks_renumbered(players.drop_last());
        assert(renumbered(players).drop_last() =~= renumbered(players.drop_last()));
    }
}

/// The stacks split into those of the others and what is paid out to the player.
proof fn stacks_split(
    players: Seq<PlayerState>,
    player: Address,
    pay: spec_fn(PlayerState) -> Transfer,
)
    requires
        stacks_nonnegative(players),
        forall|p: PlayerState| (#[trigger] pay(p)).amount == p.stack,
    ensures
        stacks(players) == stacks(players.filter(is_other_player(player))) + moved(
            players.filter(is_player_with_chips(player)).map_values(pay),
        ),
    decreases players.len(),
{
    reveal(Seq::filter);
    if players.len() > 0 {
        let rest = players.drop_last();
        let last = players.last();
        assert(stacks_nonnegative(rest)) by {
            assert forall|i: int| 0 <= i < rest.len() implies (#[trigger] rest[i]).stack >= 0 by {
                assert(players[i].stack >= 0);
            }
        }
        stacks_split(rest, player, pay);
        let kept = rest.filter(is_other_player(player));
        let paid = rest.filter(is_player_with_chips(player));
        assert(last == players[players.len() - 1]);
        if last.address != player {
            assert(kept.push(last).drop_last() =~= kept);
        } else if last.stack > 0 {
            assert(paid.push(last).map_values(pay).drop_last() =~= paid.map_values(pay));
        }
    } else {
        assert(players.filter(is_player_with_chips(player)).map_values(pay) =~= Seq::empty());
    }
}

/// Sitting down adds exactly the deposited buy-in to the chips held.
pub proof fn join_conserves_chips(table: TableView, player: Address, buy_in: i128)
    ensures
        chips_held(joined_table(table, player, buy_in)) == chips_held(table) + buy_in,
{
    let after = joined_table(table, player, buy_in).players;
    assert(after.drop_last() =~= table.players);
}

/// A rebuy adds exactly the deposited amount to the chips held, and nothing to
/// anybody else's stack.
pub proof fn rebuy_conserves_chips(
    paused: Option<bool>,
    table: TableView,
    player: Address,
    amount: i128,
)
    requires
        rebuy_error(paused, Some(table), player, amount) is None,
        rebuy_sums_fit(paused, Some(table), player, amount),
    ensures
        chips_held(rebought_table(table, player, amount)) == chips_held(table) + amount,
        forall|i: int|
            0 <= i < table.players.len() && i != seat_of(table.players, player)->0 ==> (
            #[trigger] rebought_table(table, player, amount).players[i]) == table.players[i],
{
    seat_of_is_seated(table.players, player);
    let seat = seat_of(table.players, player)->0;
    stacks_update(table.players, seat, topped_up(table.players[seat], amount));
}

/// Leaving takes exactly what is paid out from the chips held.
pub proof fn leave_conserves_chips(table: TableView, player: Address)
    requires
        stacks_nonnegative(table.players),
    ensures
        chips_held(left_table(table, player)) == chips_held(table) - moved(payouts(table, player)),
{
    let others = table.players.filter(is_other_player(player));
    let pay = |p: PlayerState|
        Transfer {
            token: table.config.token,
            account: player,
            direction: Direction::Withdrawal,
            amount: p.stack,
        };
    stacks_split(table.players, player, pay);
    stacks_renumbered(others);
    assert(payouts(table, player) == table.players.filter(
        is_player_with_chips(player),
    ).map_values(pay));
}

/// Withdrawing the rake takes exactly the accumulated rake from the chips held,
/// and leaves none to withdraw again.
pub proof fn rake_withdrawal_conserves_chips(table: TableView)
    ensures
        chips_held(rake_paid_out(table)) == chips_held(table) - table.rake_balance,
        rake_paid_out(table).rake_balance == 0,
{
}

/// Where the smallest buy-in is not negative, sitting down, topping up and
/// leaving never make a stack negative.
pub proof fn stacks_stay_nonnegative(
    paused: Option<bool>,
    table: TableView,
    player: Address,
    amount: i128,
)
    requires
        stacks_nonnegative(table.players),
        table.config.min_buy_in >= 0,
    ensures
        join_error(paused, Some(table), player, amount) is None ==> stacks_nonnegative(
            joined_table(table, player, amount).players,
        ),
        rebuy_error(paused, Some(table), player, amount) is None ==> stacks_nonnegative(
            rebought_table(table, player, amount).players,
        ),
        stacks_nonnegative(left_table(table, player).players),
{
    seat_of_is_seated(table.players, player);
    let others = table.players.filter(is_other_player(player));
    let after = left_table(table, player).players;
    filter_keeps_order(table.players, is_other_player(player));
    assert forall|i: int| 0 <= i < after.len() implies (#[trigger] after[i]).stack >= 0 by {
        assert(table.players.contains(others[i]));
    }
}

/// Starting a hand, committing a deal, revealing cards and changing the
/// configuration move no chips.
pub proof fn play_moves_no_chips_by_itself(
    table: TableView,
    deck_root: Bytes32,
    hand_commitments: Seq<Bytes32>,
    cards: Seq<u32>,
    indices: Seq<u32>,
    ledger: u32,
    config: TableConfig,
)
    ensures
        chips_held(started_table(table)) == chips_held(table),
        chips_held(dealt_table(table, deck_root, hand_commitments, indices, ledger))
            == chips_held(table),
        chips_held(revealed_table(table, cards, indices, ledger)) == chips_held(table),
        chips_held(with_config(table, config)) == chips_held(table),
{
}

/// In a table of distinct players, the seats of a seated player are one.
proof fn one_seat_each(players: Seq<PlayerState>, player: Address)
    requires
        players_distinct(players),
        seated(players, player),
    ensures
        players.filter(is_player(player)) == seq![players[seat_of(players, player)->0]],
    decreases players.len(),
{
    reveal(Seq::filter);
    seat_of_is_seated(players, player);
    let seat = seat_of(players, player)->0;
    let rest = players.drop_last();
    assert forall|i: int, j: int| 0 <= i < j < rest.len() implies (#[trigger] rest[i]).address != (
    #[trigger] rest[j]).address by {
        assert(players[i].address != players[j].address);
    }
    if seat == players.len() - 1 {
        assert(!seated(rest, player)) by {
            if seated(rest, player) {
                let i = choose|i: int| 0 <= i < rest.len() && (#[trigger] rest[i]).address
                    == player;
                assert(players[i].address == player);
            }
        }
        no_seat(rest, player);
        assert(players.filter(is_player(player)) =~= seq![players[seat]]);
    } else {
        assert(rest[seat].address == player);
        assert(is_first_seat(rest, player, seat)) by {
            assert forall|j: int| 0 <= j < seat implies (#[trigger] rest[j]).address != player by {
                assert(players[j].address != player);
            }
        }
        first_seat_is_unique(rest, player, seat);
        one_seat_each(rest, player);
        assert(players.last().address != player) by {
            assert(players[seat].address != players[players.len() - 1].address);
        }
    }
}

/// A player who is not seated has no seats.
proof fn no_seat(players: Seq<PlayerState>, player: Address)
    requires
        !seated(players, player),
    ensures
        players.filter(is_player(player)) == Seq::<PlayerState>::empty(),
        players.filter(is_player_with_chips(player)) == Seq::<PlayerState>::empty(),
        players.filter(is_other_player(player)) == players,
    decreases players.len(),
{
    reveal(Seq::filter);
    if players.len() > 0 {
        let rest = players.drop_last();
        assert(!seated(rest, player)) by {
            if seated(rest, player) {
                let i = choose|i: int| 0 <= i < rest.len() && (#[trigger] rest[i]).address
                    == player;
                assert(players[i].address == player);
            }
        }
        no_seat(rest, player);
        assert(players[players.len() - 1].address != player);
        assert(rest.push(players.last()) =~= players);
    }
}

/// Where nobody holds two seats and no stack is negative, a leaving player
/// withdraws their whole stack in one transfer, or in none when it is empty.
pub proof fn leave_pays_the_stack(paused: Option<bool>, table: TableView, player: Address)
    requires
        players_distinct(table.players),
        stacks_nonnegative(table.players),
        leave_error(paused, Some(table), player) is None,
    ensures
        ({
            let stack = table.players[seat_of(table.players, player)->0].stack;
            &&& table.players.filter(is_player(player)).last().stack == stack
            &&& payouts(table, player) == if stack > 0 {
                seq![
                    Transfer {
                        token: table.config.token,
                        account: player,
                        direction: Direction::Withdrawal,
                        amount: stack,
                    },
                ]
            } else {
                Seq::empty()
            }
            &&& moved(payouts(table, player)) == stack
        }),
{
    one_seat_each(table.players, player);
    seat_of_is_seated(table.players, player);
    let only = table.players.filter(is_player(player));
    let seat = table.players[seat_of(table.players, player)->0];
    assert(only.last() == seat);
    chips_of_one_seat(table.players, player);
    assert(seat.stack >= 0);
    assert(moved(Seq::empty()) == 0);
    if seat.stack > 0 {
        let paid = Transfer {
            token: table.config.token,
            account: player,
            direction: Direction::Withdrawal,
            amount: seat.stack,
        };
        assert(payouts(table, player) =~= seq![paid]);
        assert(seq![paid].drop_last() =~= Seq::empty());
    } else {
        assert(payouts(table, player) =~= Seq::empty());
    }
}

/// The seats with chips are the seats, less an empty one.
proof fn chips_of_one_seat(players: Seq<PlayerState>, player: Address)
    ensures
        players.filter(is_player_with_chips(player)) == players.filter(is_player(player)).filter(
            is_player_with_chips(player),
        ),
        players.filter(is_player(player)).len() == 1 ==> players.filter(
            is_player_with_chips(player),
        ) == if players.filter(is_player(player))[0].stack > 0 {
            players.filter(is_player(player))
        } else {
            Seq::empty()
        },
    decreases players.len(),
{
    reveal(Seq::filter);
    if players.len() > 0 {
        let rest = players.drop_last();
        chips_of_one_seat(rest, player);
        let own = rest.filter(is_player(player));
        if players.last().address == player {
            assert(own.push(players.last()).drop_last() =~= own);
        }
    }
    let own = players.filter(is_player(player));
    if own.len() == 1 {
        filter_keeps_order(players, is_player(player));
        assert(is_player(player)(own[0]));
        assert(own.drop_last() =~= Seq::empty());
        assert(own =~= seq![own.last()]);
    }
}

// ---------------------------------------------------------------------------
// Sitting down and leaving again
// ---------------------------------------------------------------------------

/// Sitting down and leaving again gives the buy-in back and, where the seats
/// were numbered by their position, the seats as they were. So is the whole
/// table where the button and the turn were at a seat, and the wallet's list
/// where it did not name the table.
pub proof fn join_then_leave_restores(
    paused: Option<bool>,
    table: TableView,
    player: Address,
    buy_in: i128,
    tables: Option<Seq<u32>>,
    table_id: u32,
)
    requires
        join_error(paused, Some(table), player, buy_in) is None,
    ensures
        leave_error(paused, Some(joined_table(table, player, buy_in)), player) is None,
        joined_table(table, player, buy_in).players.filter(is_player(player)).last().stack
            == buy_in,
        seats_numbered(table.players) ==> left_table(
            joined_table(table, player, buy_in),
            player,
        ).players == table.players,
        seats_numbered(table.players) && seat_in_table(table.dealer_seat, table.players.len())
            && seat_in_table(table.current_turn, table.players.len()) ==> left_table(
            joined_table(table, player, buy_in),
            player,
        ) == table,
        !listed(tables).contains(table_id) ==> listed(
            list_after_leave(list_after_join(tables, table_id), table_id),
        ) == listed(tables),
{
    reveal(Seq::filter);
    let joined = joined_table(table, player, buy_in);
    let last = joined.players.last();
    assert(joined.players[joined.players.len() - 1].address == player);
    assert(joined.players.drop_last() =~= table.players);
    no_seat(table.players, player);
    assert(joined.players.filter(is_other_player(player)) == table.players);
    assert(joined.players.filter(is_player(player)) =~= seq![last]);
    if seats_numbered(table.players) {
        renumbering_numbered_seats(table.players);
        let seats = table.players.len() as int;
        if seats > 0 && table.dealer_seat < seats && table.current_turn < seats {
            lemma_small_mod(table.dealer_seat as nat, seats as nat);
            lemma_small_mod(table.current_turn as nat, seats as nat);
        }
        if seat_in_table(table.dealer_seat, table.players.len()) && seat_in_table(
            table.current_turn,
            table.players.len(),
        ) {
            assert(left_table(joined, player) =~= table);
        }
    }
    let list = listed(tables);
    if !list.contains(table_id) {
        filtering_absent(list, table_id);
        assert(list.push(table_id).drop_last() =~= list);
    }
}

/// Dropping a table that is not listed changes nothing.
proof fn filtering_absent(list: Seq<u32>, table_id: u32)
    requires
        !list.contains(table_id),
    ensures
        list.filter(is_other_table(table_id)) == list,
    decreases list.len(),
{
    reveal(Seq::filter);
    if list.len() > 0 {
        let rest = list.drop_last();
        assert(!rest.contains(table_id)) by {
            if rest.contains(table_id) {
                let i = choose|i: int| 0 <= i < rest.len() && rest[i] == table_id;
                assert(list[i] == table_id);
            }
        }
        filtering_absent(rest, table_id);
        assert(list[list.len() - 1] != table_id);
        assert(rest.push(list.last()) =~= list);
    }
}

// ---------------------------------------------------------------------------
// Buy-ins
// ---------------------------------------------------------------------------

/// A player sits down with a stack inside the table's buy-in band, which is all
/// they have deposited.
pub proof fn join_stack_is_in_band(
    paused: Option<bool>,
    table: TableView,
    player: Address,
    buy_in: i128,
)
    requires
        join_error(paused, Some(table), player, buy_in) is None,
    ensures
        ({
            let p = joined_table(table, player, buy_in).players.last();
            &&& p.address == player
            &&& table.config.min_buy_in <= p.stack <= table.config.max_buy_in
            &&& p.total_buy_in == p.stack
            &&& p.rebuy_count == 0
        }),
{
}

/// A rebuy is for at most one full buy-in, leaves the stack inside the table's
/// buy-in band, and is accounted for: the deposits grow by the amount, and the
/// rebuys by one, up to the limit if there is one.
pub proof fn rebuy_stack_is_in_band(
    paused: Option<bool>,
    table: TableView,
    player: Address,
    amount: i128,
)
    requires
        rebuy_error(paused, Some(table), player, amount) is None,
        rebuy_sums_fit(paused, Some(table), player, amount),
    ensures
        ({
            let seat = seat_of(table.players, player)->0;
            let before = table.players[seat];
            let p = rebought_table(table, player, amount).players[seat];
            &&& p.address == player
            &&& 0 < amount <= table.config.max_buy_in
            &&& table.config.min_buy_in <= p.stack <= table.config.max_buy_in
            &&& p.total_buy_in == before.total_buy_in + amount
            &&& p.rebuy_count == before.rebuy_count + 1
            &&& table.config.max_rebuys > 0 ==> p.rebuy_count <= table.config.max_rebuys
        }),
{
    seat_of_is_seated(table.players, player);
}

/// What happens at a table between two operations of one player.
pub enum SeatOperation {
    /// A player sits down.
    Join { player: Address, buy_in: i128 },
    /// A player tops up.
    Rebuy { player: Address, amount: i128 },
    /// A player leaves.
    Leave { player: Address },
    /// Anything else, a hand among it, that leaves the table so.
    Other { table: TableView },
}

/// True when the same players sit in the same seats with the same deposits.
pub open spec fn same_deposits(before: Seq<PlayerState>, after: Seq<PlayerState>) -> bool {
    &&& before.len() == after.len()
    &&& forall|i: int|
        0 <= i < before.len() ==> {
            &&& (#[trigger] after[i]).address == before[i].address
            &&& after[i].total_buy_in == before[i].total_buy_in
            &&& after[i].rebuy_count == before[i].rebuy_count
        }
}

/// True when an operation is carried out at a table.
pub open spec fn carried_out(table: TableView, operation: SeatOperation) -> bool {
    match operation {
        SeatOperation::Join { player, buy_in } => join_error(
            None,
            Some(table),
            player,
            buy_in,
        ) is None,
        SeatOperation::Rebuy { player, amount } => rebuy_error(
            None,
            Some(table),
            player,
            amount,
        ) is None && rebuy_sums_fit(None, Some(table), player, amount),
        SeatOperation::Leave { player } => leave_error(None, Some(table), player) is None,
        SeatOperation::Other { table: after } => same_deposits(table.players, after.players),
    }
}

/// The table after an operation.
pub open spec fn after_operation(table: TableView, operation: SeatOperation) -> TableView {
    match operation {
        SeatOperation::Join { player, buy_in } => joined_table(table, player, buy_in),
        SeatOperation::Rebuy { player, amount } => rebought_table(table, player, amount),
        SeatOperation::Leave { player } => left_table(table, player),
        SeatOperation::Other { table: after } => after,
    }
}

/// The table after several operations.
pub open spec fn after_operations(table: TableView, operations: Seq<SeatOperation>) -> TableView
    decreases operations.len(),
{
    if operations.len() == 0 {
        table
    } else {
        after_operation(after_operations(table, operations.drop_last()), operations.last())
    }
}

/// True when all operations are carried out, and `player` does not leave.
pub open spec fn session_of(
    table: TableView,
    player: Address,
    operations: Seq<SeatOperation>,
) -> bool
    decreases operations.len(),
{
    operations.len() > 0 ==> {
        &&& session_of(table, player, operations.drop_last())
        &&& carried_out(after_operations(table, operations.drop_last()), operations.last())
        &&& operations.last() != (SeatOperation::Leave { player })
    }
}

/// The chips that `player` added by rebuys.
pub open spec fn rebuy_total(operations: Seq<SeatOperation>, player: Address) -> int
    decreases operations.len(),
{
    if operations.len() == 0 {
        0
    } else {
        rebuy_total(operations.drop_last(), player) + match operations.last() {
            SeatOperation::Rebuy { player: who, amount } => if who == player {
                amount as int
            } else {
                0
            },
            _ => 0,
        }
    }
}

/// How many rebuys `player` made.
pub open spec fn rebuy_number(operations: Seq<SeatOperation>, player: Address) -> nat
    decreases operations.len(),
{
    if operations.len() == 0 {
        0
    } else {
        rebuy_number(operations.drop_last(), player) + match operations.last() {
            SeatOperation::Rebuy { player: who, .. } => if who == player {
                1nat
            } else {
                0nat
            },
            _ => 0nat,
        }
    }
}

/// True when `player` holds one seat, with these deposits recorded.
pub open spec fn deposits_are(
    players: Seq<PlayerState>,
    player: Address,
    total: int,
    rebuys: nat,
) -> bool {
    &&& seat_of(players, player) is Some
    &&& is_first_seat(players, player, seat_of(players, player)->0)
    &&& players[seat_of(players, player)->0].total_buy_in == total
    &&& players[seat_of(players, player)->0].rebuy_count == rebuys
}

/// A seat of distinct players is the player's first.
proof fn only_seat_is_first(players: Seq<PlayerState>, player: Address, i: int)
    requires
        players_distinct(players),
        0 <= i < players.len(),
        players[i].address == player,
    ensures
        is_first_seat(players, player, i),
        seat_of(players, player) == Some(i),
{
    assert forall|j: int| 0 <= j < i implies (#[trigger] players[j]).address != player by {
        assert(players[j].address != players[i].address);
    }
    first_seat_is_unique(players, player, i);
}

/// An operation of somebody else, or one that leaves deposits alone, keeps a
/// player's deposits; a rebuy of the player adds to them.
proof fn operation_keeps_deposits(
    table: TableView,
    player: Address,
    operation: SeatOperation,
    total: int,
    rebuys: nat,
)
    requires
        players_distinct(table.players),
        deposits_are(table.players, player, total, rebuys),
        carried_out(table, operation),
        operation != (SeatOperation::Leave { player }),
    ensures
        players_distinct(after_operation(table, operation).players),
        ({
            let players = after_operation(table, operation).players;
            match operation {
                SeatOperation::Rebuy { player: who, amount } => if who == player {
                    deposits_are(players, player, total + amount, rebuys + 1)
                } else {
                    deposits_are(players, player, total, rebuys)
                },
                _ => deposits_are(players, player, total, rebuys),
            }
        }),
{
    let before = table.players;
    let after = after_operation(table, operation).players;
    let seat = seat_of(before, player)->0;
    match operation {
        SeatOperation::Join { player: who, buy_in } => {
            assert forall|i: int, j: int| 0 <= i < j < after.len() implies (
            #[trigger] after[i]).address != (#[trigger] after[j]).address by {
                if j < before.len() {
                    assert(before[i].address != before[j].address);
                } else {
                    assert(before[i].address != who);
                }
            }
            only_seat_is_first(after, player, seat);
        },
        SeatOperation::Rebuy { player: who, amount } => {
            seat_of_is_seated(before, who);
            let other = seat_of(before, who)->0;
            assert forall|i: int, j: int| 0 <= i < j < after.len() implies (
            #[trigger] after[i]).address != (#[trigger] after[j]).address by {
                assert(before[i].address != before[j].address);
            }
            assert(after[seat].address == player);
            only_seat_is_first(after, player, seat);
        },
        SeatOperation::Leave { player: who } => {
            let others = before.filter(is_other_player(who));
            filter_keeps_order(before, is_other_player(who));
            assert forall|i: int, j: int| 0 <= i < j < after.len() implies (
            #[trigger] after[i]).address != (#[trigger] after[j]).address by {
                assert(others[i].address != others[j].address);
            }
            assert(is_other_player(who)(before[seat]));
            assert(others.contains(before[seat]));
            let k = choose|k: int| 0 <= k < others.len() && others[k] == before[seat];
            assert(after[k].address == player);
            only_seat_is_first(after, player, k);
        },
        SeatOperation::Other { table: next } => {
            assert forall|i: int, j: int| 0 <= i < j < after.len() implies (
            #[trigger] after[i]).address != (#[trigger] after[j]).address by {
                assert(before[i].address != before[j].address);
            }
            assert(after[seat].address == before[seat].address);
            only_seat_is_first(after, player, seat);
        },
    }
}

/// Over a session, whatever others do and however hands go, a player's recorded
/// deposits are the buy-in plus every rebuy, and the recorded count is the number
/// of rebuys. (A hand counts here as long as it leaves seats and deposits alone.)
pub proof fn deposits_are_buy_in_plus_rebuys(
    table: TableView,
    player: Address,
    buy_in: i128,
    operations: Seq<SeatOperation>,
)
    requires
        players_distinct(table.players),
        join_error(None, Some(table), player, buy_in) is None,
        session_of(joined_table(table, player, buy_in), player, operations),
    ensures
        players_distinct(
            after_operations(joined_table(table, player, buy_in), operations).players,
        ),
        deposits_are(
            after_operations(joined_table(table, player, buy_in), operations).players,
            player,
            buy_in + rebuy_total(operations, player),
            rebuy_number(operations, player),
        ),
    decreases operations.len(),
{
    let joined = joined_table(table, player, buy_in);
    if operations.len() == 0 {
        let players = joined.players;
        assert forall|i: int, j: int| 0 <= i < j < players.len() implies (
        #[trigger] players[i]).address != (#[trigger] players[j]).address by {
            if j < table.players.len() {
                assert(table.players[i].address != table.players[j].address);
            } else {
                assert(table.players[i].address != player);
            }
        }
        only_seat_is_first(players, player, table.players.len() as int);
    } else {
        let earlier = operations.drop_last();
        deposits_are_buy_in_plus_rebuys(table, player, buy_in, earlier);
        operation_keeps_deposits(
            after_operations(joined, earlier),
            player,
            operations.last(),
            buy_in + rebuy_total(earlier, player),
            rebuy_number(earlier, player),
        );
    }
}

/// A further rebuy in a session, between hands and within the band, is refused
/// exactly when the limit has been reached. Otherwise it adds its amount to the
/// recorded deposits and one to the count, and changes nothing at the table but
/// the player's stack, deposits and count.
pub proof fn rebuy_continues_the_session(
    table: TableView,
    player: Address,
    buy_in: i128,
    operations: Seq<SeatOperation>,
    amount: i128,
)
    requires
        players_distinct(table.players),
        join_error(None, Some(table), player, buy_in) is None,
        session_of(joined_table(table, player, buy_in), player, operations),
        ({
            let now = after_operations(joined_table(table, player, buy_in), operations);
            &&& between_hands(now.phase)
            &&& rebuy_allowed(
                now.config,
                now.players[seat_of(now.players, player)->0].stack,
                amount,
            )
            &&& rebuy_sums_fit(None, Some(now), player, amount)
        }),
    ensures
        ({
            let now = after_operations(joined_table(table, player, buy_in), operations);
            let seat = seat_of(now.players, player)->0;
            let rebuys = rebuy_number(operations, player);
            let deposited = buy_in + rebuy_total(operations, player);
            let after = rebought_table(now, player, amount);
            if now.config.max_rebuys > 0 && rebuys >= now.config.max_rebuys {
                rebuy_error(None, Some(now), player, amount) == Some(
                    PokerTableError::RebuyLimitReached,
                )
            } else {
                &&& rebuy_error(None, Some(now), player, amount) is None
                &&& deposits_are(after.players, player, deposited + amount, rebuys + 1)
                &&& seat_of(after.players, player) == Some(seat)
                &&& after == (TableView {
                    players: now.players.update(
                        seat,
                        PlayerState {
                            stack: (now.players[seat].stack + amount) as i128,
                            total_buy_in: (deposited + amount) as i128,
                            rebuy_count: (rebuys + 1) as u32,
                            ..now.players[seat]
                        },
                    ),
                    ..now
                })
            }
        }),
{
    let now = after_operations(joined_table(table, player, buy_in), operations);
    deposits_are_buy_in_plus_rebuys(table, player, buy_in, operations);
    let rebuys = rebuy_number(operations, player);
    let seat = seat_of(now.players, player)->0;
    if !(now.config.max_rebuys > 0 && rebuys >= now.config.max_rebuys) {
        let rebuy = SeatOperation::Rebuy { player, amount };
        assert(carried_out(now, rebuy));
        operation_keeps_deposits(
            now,
            player,
            rebuy,
            buy_in + rebuy_total(operations, player),
            rebuys,
        );
        let after = rebought_table(now, player, amount);
        assert(after.players[seat].address == player);
        only_seat_is_first(after.players, player, seat);
    }
}

/// Once a player has used as many rebuys as the limit allows, no amount is
/// accepted any more, however the limit came about.
pub proof fn rebuy_limit_holds(table: TableView, player: Address, amount: i128, max_rebuys: u32)
    requires
        between_hands(table.phase),
        seated(table.players, player),
        max_rebuys > 0,
        table.players[seat_of(table.players, player)->0].rebuy_count >= max_rebuys,
    ensures
        rebuy_error(
            None,
            Some(with_config(table, TableConfig { max_rebuys, ..table.config })),
            player,
            amount,
        ) == Some(PokerTableError::RebuyLimitReached),
{
    seat_of_is_seated(table.players, player);
}

/// Chips enter and leave a table only between hands.
pub proof fn chips_move_only_between_hands(
    paused: Option<bool>,
    table: TableView,
    player: Address,
    amount: i128,
)
    requires
        !between_hands(table.phase),
    ensures
        join_error(paused, Some(table), player, amount) is Some,
        rebuy_error(paused, Some(table), player, amount) is Some,
        leave_error(paused, Some(table), player) is Some,
{
}

// ---------------------------------------------------------------------------
// The board
// ---------------------------------------------------------------------------

/// The board that a showdown is verified against is made of the flop, the turn
/// and the river, in the order in which they were revealed.
pub proof fn board_is_what_was_revealed(
    table: TableView,
    flop: Seq<u32>,
    flop_indices: Seq<u32>,
    turn: Seq<u32>,
    turn_indices: Seq<u32>,
    river: Seq<u32>,
    river_indices: Seq<u32>,
    ledgers: (u32, u32, u32),
)
    requires
        flop_indices.len() == cards_to_reveal(GamePhase::DealingFlop)->0,
        turn_indices.len() == cards_to_reveal(GamePhase::DealingTurn)->0,
        river_indices.len() == cards_to_reveal(GamePhase::DealingRiver)->0,
    ensures
        ({
            let after_flop = revealed_table(table, flop, flop_indices, ledgers.0);
            let after_turn = revealed_table(after_flop, turn, turn_indices, ledgers.1);
            let after_river = revealed_table(after_turn, river, river_indices, ledgers.2);
            board_indices(after_river) == flop_indices + turn_indices + river_indices
        }),
{
    let after_flop = revealed_table(table, flop, flop_indices, ledgers.0);
    let after_turn = revealed_table(after_flop, turn, turn_indices, ledgers.1);
    let after_river = revealed_table(after_turn, river, river_indices, ledgers.2);
    assert(board_indices(after_river) =~= flop_indices + turn_indices + river_indices);
}

// ---------------------------------------------------------------------------
// The list of tables a wallet sits at
// ---------------------------------------------------------------------------

/// The tables and the wallets' lists of tables, as the ledger holds them.
#[verifier::ext_equal]
pub struct Ledger {
    pub tables: Map<u32, TableView>,
    pub lists: Map<Address, Seq<u32>>,
}

/// The stored list of a wallet.
pub open spec fn list_of(ledger: Ledger, a: Address) -> Option<Seq<u32>> {
    if ledger.lists.dom().contains(a) {
        Some(ledger.lists[a])
    } else {
        None
    }
}

/// The ledger with a wallet's list replaced, or deleted.
pub open spec fn with_list(
    lists: Map<Address, Seq<u32>>,
    a: Address,
    list: Option<Seq<u32>>,
) -> Map<Address, Seq<u32>> {
    match list {
        Some(list) => lists.insert(a, list),
        None => lists.remove(a),
    }
}

/// True when `a` holds a seat at table `id`.
pub open spec fn sits_at(ledger: Ledger, a: Address, id: u32) -> bool {
    ledger.tables.dom().contains(id) && seated(ledger.tables[id].players, a)
}

/// True when each wallet's list names exactly the tables that it sits at, each
/// once.
pub open spec fn lists_are_exact(ledger: Ledger) -> bool {
    &&& forall|a: Address, id: u32|
        #![trigger listed(list_of(ledger, a)).contains(id)]
        #![trigger sits_at(ledger, a, id)]
        listed(list_of(ledger, a)).contains(id) <==> sits_at(ledger, a, id)
    &&& forall|a: Address| (#[trigger] listed(list_of(ledger, a))).no_duplicates()
}

/// The ledger after `player` joined table `id`.
pub open spec fn ledger_after_join(
    ledger: Ledger,
    id: u32,
    player: Address,
    buy_in: i128,
) -> Ledger {
    Ledger {
        tables: ledger.tables.insert(id, joined_table(ledger.tables[id], player, buy_in)),
        lists: with_list(
            ledger.lists,
            player,
            list_after_join(list_of(ledger, player), id),
        ),
    }
}

/// The ledger after `player` left table `id`.
pub open spec fn ledger_after_leave(ledger: Ledger, id: u32, player: Address) -> Ledger {
    Ledger {
        tables: ledger.tables.insert(id, left_table(ledger.tables[id], player)),
        lists: with_list(
            ledger.lists,
            player,
            list_after_leave(list_of(ledger, player), id),
        ),
    }
}

/// Joining keeps every wallet's list exact.
pub proof fn join_keeps_lists_exact(ledger: Ledger, id: u32, player: Address, buy_in: i128)
    requires
        lists_are_exact(ledger),
        ledger.tables.dom().contains(id),
    ensures
        lists_are_exact(ledger_after_join(ledger, id, player, buy_in)),
{
    let after = ledger_after_join(ledger, id, player, buy_in);
    let old_players = ledger.tables[id].players;
    let new_players = after.tables[id].players;
    let list = listed(list_of(ledger, player));
    let new_list = listed(list_of(after, player));
    assert(new_list == if list.contains(id) { list } else { list.push(id) });
    assert forall|a: Address, t: u32|
        #![trigger listed(list_of(after, a)).contains(t)]
        #![trigger sits_at(after, a, t)]
        listed(list_of(after, a)).contains(t) <==> sits_at(after, a, t) by {
        assert(listed(list_of(ledger, a)).contains(t) <==> sits_at(ledger, a, t));
        if a != player {
            assert(list_of(after, a) == list_of(ledger, a));
        } else {
            assert(list.push(id)[list.len() as int] == id);
            assert(list.push(id).contains(id));
            if list.contains(t) {
                let k = choose|k: int| 0 <= k < list.len() && list[k] == t;
                assert(list.push(id)[k] == t);
            }
            if list.push(id).contains(t) && t != id {
                let k = choose|k: int| 0 <= k < list.push(id).len() && list.push(id)[k] == t;
                assert(list[k] == t);
            }
        }
        if t == id {
            if seated(old_players, a) {
                let k = choose|k: int|
                    0 <= k < old_players.len() && (#[trigger] old_players[k]).address == a;
                assert(new_players[k].address == a);
            }
            if a == player {
                assert(new_players[old_players.len() as int].address == a);
            }
            if seated(new_players, a) && a != player {
                let k = choose|k: int|
                    0 <= k < new_players.len() && (#[trigger] new_players[k]).address == a;
                assert(old_players[k].address == a);
            }
        }
    }
    assert forall|a: Address| (#[trigger] listed(list_of(after, a))).no_duplicates() by {
        assert(listed(list_of(ledger, a)).no_duplicates());
        if a != player {
            assert(list_of(after, a) == list_of(ledger, a));
        }
    }
}

/// What is left of a list without one of its tables.
proof fn list_without(list: Seq<u32>, id: u32)
    ensures
        forall|t: u32|
            list.filter(is_other_table(id)).contains(t) <==> t != id && list.contains(t),
        list.no_duplicates() ==> list.filter(is_other_table(id)).no_duplicates(),
    decreases list.len(),
{
    reveal(Seq::filter);
    let kept = list.filter(is_other_table(id));
    if list.len() > 0 {
        let rest = list.drop_last();
        let last = list.last();
        let rest_kept = rest.filter(is_other_table(id));
        list_without(rest, id);
        assert(rest.push(last) =~= list);
        assert forall|t: u32| kept.contains(t) <==> t != id && list.contains(t) by {
            contains_push(rest, last, t);
            contains_push(rest_kept, last, t);
        }
        if list.no_duplicates() {
            assert(rest.no_duplicates());
            assert(!rest.contains(last)) by {
                if rest.contains(last) {
                    let k = choose|k: int| 0 <= k < rest.len() && rest[k] == last;
                    assert(list[k] == list[list.len() - 1]);
                }
            }
        }
    }
}

/// What a sequence contains after a push.
proof fn contains_push(s: Seq<u32>, x: u32, t: u32)
    ensures
        s.push(x).contains(t) <==> s.contains(t) || t == x,
{
    assert(s.push(x)[s.len() as int] == x);
    if s.contains(t) {
        let k = choose|k: int| 0 <= k < s.len() && s[k] == t;
        assert(s.push(x)[k] == t);
    }
    if s.push(x).contains(t) && t != x {
        let k = choose|k: int| 0 <= k < s.push(x).len() && s.push(x)[k] == t;
        assert(s[k] == t);
    }
}

/// Leaving keeps every wallet's list exact.
pub proof fn leave_keeps_lists_exact(ledger: Ledger, id: u32, player: Address)
    requires
        lists_are_exact(ledger),
        ledger.tables.dom().contains(id),
    ensures
        lists_are_exact(ledger_after_leave(ledger, id, player)),
{
    let after = ledger_after_leave(ledger, id, player);
    let list = listed(list_of(ledger, player));
    list_without(list, id);
    assert(listed(list_of(after, player)) =~= list.filter(is_other_table(id)));
    assert forall|a: Address, t: u32|
        #![trigger listed(list_of(after, a)).contains(t)]
        #![trigger sits_at(after, a, t)]
        listed(list_of(after, a)).contains(t) <==> sits_at(after, a, t) by {
        assert(listed(list_of(ledger, a)).contains(t) <==> sits_at(ledger, a, t));
        leave_unseats_only_the_player(ledger.tables[id], player, a);
        if a != player {
            assert(list_of(after, a) == list_of(ledger, a));
        }
    }
    assert forall|a: Address| (#[trigger] listed(list_of(after, a))).no_duplicates() by {
        assert(listed(list_of(ledger, a)).no_duplicates());
        if a != player {
            assert(list_of(after, a) == list_of(ledger, a));
        }
    }
}

/// Opening a table under a fresh id, and any operation that leaves each player
/// of a table seated or not as before, keep every wallet's list exact.
pub proof fn unchanged_seats_keep_lists_exact(ledger: Ledger, id: u32, table: TableView)
    requires
        lists_are_exact(ledger),
        forall|a: Address| #[trigger] seated(table.players, a) <==> sits_at(ledger, a, id),
    ensures
        lists_are_exact(Ledger { tables: ledger.tables.insert(id, table), ..ledger }),
{
    let after = Ledger { tables: ledger.tables.insert(id, table), ..ledger };
    assert forall|a: Address, t: u32|
        #![trigger listed(list_of(after, a)).contains(t)]
        #![trigger sits_at(after, a, t)]
        listed(list_of(after, a)).contains(t) <==> sits_at(after, a, t) by {
        assert(list_of(after, a) == list_of(ledger, a));
        assert(listed(list_of(ledger, a)).contains(t) <==> sits_at(ledger, a, t));
        assert(seated(table.players, a) <==> sits_at(ledger, a, id));
    }
    assert forall|a: Address| (#[trigger] listed(list_of(after, a))).no_duplicates() by {
        assert(list_of(after, a) == list_of(ledger, a));
        assert(listed(list_of(ledger, a)).no_duplicates());
    }
}

/// The length of a wallet's list is the number of tables that it sits at.
pub proof fn list_length_counts_seats(ledger: Ledger, a: Address, tables: Set<u32>)
    requires
        lists_are_exact(ledger),
        forall|id: u32| #[trigger] tables.contains(id) <==> sits_at(ledger, a, id),
    ensures
        tables.len() == listed(list_of(ledger, a)).len(),
{
    let list = listed(list_of(ledger, a));
    list.unique_seq_to_set();
    assert forall|id: u32| list.to_set().contains(id) <==> tables.contains(id) by {
        assert(list.contains(id) <==> sits_at(ledger, a, id));
    }
    assert(list.to_set() =~= tables);
}

} // verus!
