//! Opening a table, taking a seat, topping it up and giving it back.
use poker_table::table::events::TableEvent;
use poker_table::table::seats::{
    check_config, find_seat, index_player_table, unindex_player_table, Joined, Left, Rebought,
};
use poker_table::table::types::{
    Address, Bytes32, DataKey, Direction, GamePhase, IndexUpdate, PokerTableError, TableConfig,
    TableState,
};
use poker_table::table::{load_table, require_not_paused, save_key, PokerTableContract};

fn address(n: u8) -> Address {
    Address { strkey: [n; 56] }
}

fn config() -> TableConfig {
    TableConfig {
        token: address(1),
        min_buy_in: 100,
        max_buy_in: 1000,
        small_blind: 5,
        big_blind: 10,
        min_players: 2,
        max_players: 6,
        timeout_ledgers: 60,
        committee: address(2),
        verifier: address(3),
        game_hub: address(4),
        rake_bps: 250,
        max_rebuys: 0,
        jackpot_rake_share_bps: 0,
        min_bad_beat_category: 7,
        min_bad_beat_rank: 12,
    }
}

fn table() -> TableState {
    PokerTableContract::create_table(address(9), config(), None, 1000).unwrap().table
}

fn join(table: TableState, player: u8, buy_in: i128) -> Joined {
    PokerTableContract::join_table(0, None, Some(table), address(player), buy_in, None).unwrap()
}

fn rebuy(table: TableState, player: u8, amount: i128) -> Result<Rebought, PokerTableError> {
    let stored = Some(table);
    assert!(PokerTableContract::rebuy_fits(None, &stored, address(player), amount));
    PokerTableContract::rebuy(0, None, stored, address(player), amount)
}

fn leave(table: TableState, player: u8) -> Result<Left, PokerTableError> {
    PokerTableContract::leave_table(0, None, Some(table), address(player), Some(vec![0]))
}

/// The chips in front of all players.
fn stacks(table: &TableState) -> i128 {
    table.players.iter().map(|p| p.stack).sum()
}

#[test]
fn new_table_is_empty() {
    let created = PokerTableContract::create_table(address(9), config(), Some(41), 1000).unwrap();
    assert_eq!(created.table_id, 41);
    assert_eq!(created.next_id, 42);
    assert_eq!(created.event, TableEvent::TableCreated { table_id: 41, admin: address(9) });
    let table = created.table;
    assert_eq!(table.id, 41);
    assert_eq!(table.admin, address(9));
    assert_eq!(table.config, config());
    assert_eq!(table.phase, GamePhase::Waiting);
    assert!(table.players.is_empty());
    assert_eq!(table.deck_root, Bytes32 { bytes: [0u8; 32] });
    assert_eq!(table.last_action_ledger, 1000);
    assert_eq!(table.committee, address(2));
    assert_eq!(table.pot, 0);
    assert_eq!(table.hand_number, 0);
    assert_eq!(save_key(&table), DataKey::Table(41));
}

#[test]
fn first_table_gets_id_zero() {
    let first = PokerTableContract::create_table(address(9), config(), None, 0).unwrap();
    assert_eq!(first.table_id, 0);
    let second =
        PokerTableContract::create_table(address(9), config(), Some(first.next_id), 0).unwrap();
    assert_eq!(second.table_id, 1);
    let mut next_id: Option<u32> = None;
    for k in 0..5 {
        let created =
            PokerTableContract::create_table(address(9), config(), next_id, 0).unwrap();
        assert_eq!(created.table_id, k);
        next_id = Some(created.next_id);
    }
}

#[test]
fn configurations_out_of_bounds_are_refused() {
    let refused = |c: TableConfig| PokerTableContract::create_table(address(9), c, None, 0).err();
    let count = Some(PokerTableError::InvalidPlayerCount);
    assert_eq!(
        refused(TableConfig { rake_bps: 501, ..config() }),
        Some(PokerTableError::RakeBpsExceedsMax)
    );
    assert_eq!(refused(TableConfig { rake_bps: 500, ..config() }), None);
    assert_eq!(refused(TableConfig { min_players: 1, ..config() }), count);
    assert_eq!(refused(TableConfig { min_players: 4, max_players: 3, ..config() }), count);
    assert_eq!(refused(TableConfig { max_players: 7, ..config() }), count);
    assert_eq!(refused(TableConfig { min_players: 6, max_players: 6, ..config() }), None);
    // The rake is looked at first.
    assert_eq!(
        check_config(&TableConfig { rake_bps: 501, min_players: 0, ..config() }),
        Err(PokerTableError::RakeBpsExceedsMax)
    );
}

#[test]
fn player_takes_the_next_seat() {
    let first = join(table(), 20, 300);
    assert_eq!(first.seat, 0);
    let second = join(first.table, 21, 1000);
    assert_eq!(second.seat, 1);
    assert_eq!(second.transfer.token, address(1));
    assert_eq!(second.transfer.account, address(21));
    assert_eq!(second.transfer.direction, Direction::Deposit);
    assert_eq!(second.transfer.amount, 1000);
    assert_eq!(second.index, IndexUpdate::Store(vec![0]));
    assert_eq!(
        second.event,
        TableEvent::PlayerJoined { table_id: 0, player: address(21), seat: 1 }
    );
    let p = second.table.players[1];
    assert_eq!(p.address, address(21));
    assert_eq!(p.stack, 1000);
    assert_eq!(p.total_buy_in, 1000);
    assert_eq!(p.rebuy_count, 0);
    assert_eq!(p.seat_index, 1);
    assert!(!p.folded && !p.all_in && !p.sitting_out);
    assert_eq!(stacks(&second.table), 1300);
}

#[test]
fn joining_is_refused_for_each_reason() {
    let join = |paused: Option<bool>, stored: Option<TableState>, player: u8, buy_in: i128| {
        PokerTableContract::join_table(0, paused, stored, address(player), buy_in, None).err()
    };
    assert_eq!(join(Some(true), None, 20, 1), Some(PokerTableError::ContractPaused));
    assert_eq!(join(Some(false), None, 20, 1), Some(PokerTableError::TableNotFound));
    let mut settled = table();
    settled.phase = GamePhase::Settlement;
    assert_eq!(
        join(None, Some(settled), 20, 100),
        Some(PokerTableError::TableNotAcceptingPlayers)
    );
    let mut full = table();
    full.config.max_players = 2;
    for player in 30..32 {
        full = PokerTableContract::join_table(0, None, Some(full), address(player), 100, None)
            .unwrap()
            .table;
    }
    assert_eq!(join(None, Some(full), 20, 1), Some(PokerTableError::TableFull));
    assert_eq!(join(None, Some(table()), 20, 99), Some(PokerTableError::InvalidBuyIn));
    assert_eq!(join(None, Some(table()), 20, 1001), Some(PokerTableError::InvalidBuyIn));
    assert_eq!(join(None, Some(table()), 20, 100), None);
    let seated =
        PokerTableContract::join_table(0, None, Some(table()), address(20), 100, None).unwrap();
    assert_eq!(join(None, Some(seated.table), 20, 100), Some(PokerTableError::AlreadySeated));
}

#[test]
fn ground_down_player_may_add_sixty_to_nine_hundred_and_sixty() {
    let mut table = join(table(), 20, 100).table;
    table.players[0].stack = 40;
    let refused = Some(PokerTableError::InvalidRebuyAmount);
    assert_eq!(rebuy(table.clone(), 20, 59).err(), refused);
    assert_eq!(rebuy(table.clone(), 20, 60).unwrap().new_stack, 100);
    assert_eq!(rebuy(table.clone(), 20, 960).unwrap().new_stack, 1000);
    assert_eq!(rebuy(table.clone(), 20, 961).err(), refused);
    assert_eq!(rebuy(table.clone(), 20, 0).err(), refused);
    assert_eq!(rebuy(table, 20, -1).err(), refused);
}

#[test]
fn rebuy_is_counted_and_paid_for() {
    let first = join(join(table(), 20, 300).table, 21, 400);
    let before = stacks(&first.table);
    let rebought = rebuy(first.table, 21, 50).unwrap();
    assert_eq!(rebought.new_stack, 450);
    assert_eq!(rebought.transfer.account, address(21));
    assert_eq!(rebought.transfer.direction, Direction::Deposit);
    assert_eq!(rebought.transfer.amount, 50);
    assert_eq!(
        rebought.event,
        TableEvent::PlayerRebuy {
            table_id: 0,
            player: address(21),
            amount: 50,
            new_stack: 450,
            rebuy_count: 1,
        }
    );
    assert_eq!(stacks(&rebought.table), before + 50);
    assert_eq!(rebought.table.players[0].stack, 300);
    assert_eq!(
        PokerTableContract::get_player_buy_in(Some(rebought.table), address(21)),
        Ok((450, 1))
    );
}

#[test]
fn rebuy_is_refused_for_each_reason() {
    let seated = join(table(), 20, 100).table;
    let rebuy_with = |paused: Option<bool>, stored: Option<TableState>, player: u8| {
        PokerTableContract::rebuy(0, paused, stored, address(player), 10).err()
    };
    assert_eq!(rebuy_with(Some(true), None, 20), Some(PokerTableError::ContractPaused));
    assert_eq!(rebuy_with(None, None, 20), Some(PokerTableError::TableNotFound));
    let mut live = seated.clone();
    live.phase = GamePhase::Flop;
    assert_eq!(
        rebuy_with(None, Some(live), 20),
        Some(PokerTableError::CannotRebuyDuringActiveHand)
    );
    assert_eq!(
        rebuy_with(None, Some(seated.clone()), 21),
        Some(PokerTableError::PlayerNotAtTable)
    );
    let mut limited = seated.clone();
    limited.config.max_rebuys = 1;
    let once = PokerTableContract::rebuy(0, None, Some(limited), address(20), 10).unwrap();
    assert_eq!(rebuy_with(None, Some(once.table), 20), Some(PokerTableError::RebuyLimitReached));
    // Between hands means after settlement too.
    let mut settled = seated;
    settled.phase = GamePhase::Settlement;
    assert_eq!(rebuy_with(None, Some(settled), 20), None);
}

#[test]
fn lowered_rebuy_limit_keeps_the_chips() {
    let seated = join(table(), 20, 100).table;
    let twice = rebuy(rebuy(seated, 20, 10).unwrap().table, 20, 10).unwrap();
    let lowered = PokerTableContract::set_max_rebuys(0, Some(twice.table), 1).unwrap();
    assert_eq!(lowered.table.players[0].stack, 120);
    assert_eq!(lowered.table.players[0].total_buy_in, 120);
    assert_eq!(rebuy(lowered.table, 20, 10).err(), Some(PokerTableError::RebuyLimitReached));
}

#[test]
fn rebuy_beyond_range_does_not_fit() {
    let mut table = join(table(), 20, 100).table;
    table.config.max_buy_in = i128::MAX;
    table.players[0].stack = i128::MAX - 5;
    assert!(!PokerTableContract::rebuy_fits(None, &Some(table.clone()), address(20), 6));
    assert!(!PokerTableContract::rebuy_fits(None, &Some(table.clone()), address(20), i128::MAX));
    table.players[0].stack = 100;
    table.players[0].rebuy_count = u32::MAX;
    assert!(!PokerTableContract::rebuy_fits(None, &Some(table.clone()), address(20), 6));
    assert!(PokerTableContract::rebuy_fits(Some(true), &Some(table), address(20), 6));
}

#[test]
fn buy_in_of_a_stranger_is_not_found() {
    assert_eq!(
        PokerTableContract::get_player_buy_in(Some(table()), address(20)),
        Err(PokerTableError::PlayerNotAtTable)
    );
    assert_eq!(
        PokerTableContract::get_player_buy_in(None, address(20)),
        Err(PokerTableError::TableNotFound)
    );
}

#[test]
fn leaving_pays_out_and_closes_the_gap() {
    let mut full = join(join(join(table(), 20, 100).table, 21, 200).table, 22, 300).table;
    full.dealer_seat = 2;
    full.current_turn = 1;
    let left = leave(full, 21).unwrap();
    assert_eq!(left.withdrawn, 200);
    assert_eq!(left.transfers.len(), 1);
    assert_eq!(left.transfers[0].account, address(21));
    assert_eq!(left.transfers[0].direction, Direction::Withdrawal);
    assert_eq!(left.transfers[0].amount, 200);
    assert_eq!(
        left.event,
        TableEvent::PlayerLeft { table_id: 0, player: address(21), withdrawn: 200 }
    );
    assert_eq!(left.index, IndexUpdate::Remove);
    assert_eq!(left.table.players.len(), 2);
    assert_eq!(left.table.players[0].address, address(20));
    assert_eq!(left.table.players[0].seat_index, 0);
    assert_eq!(left.table.players[1].address, address(22));
    assert_eq!(left.table.players[1].seat_index, 1);
    assert_eq!(left.table.dealer_seat, 0);
    assert_eq!(left.table.current_turn, 1);
    assert_eq!(stacks(&left.table), 400);
}

#[test]
fn last_player_leaves_an_empty_table() {
    let mut one = join(table(), 20, 100).table;
    one.players[0].stack = 0;
    one.dealer_seat = 5;
    one.current_turn = 5;
    let left = leave(one, 20).unwrap();
    assert_eq!(left.withdrawn, 0);
    assert!(left.transfers.is_empty());
    assert!(left.table.players.is_empty());
    assert_eq!(left.table.dealer_seat, 0);
    assert_eq!(left.table.current_turn, 0);
}

#[test]
fn leaving_is_refused_for_each_reason() {
    let leave_with = |paused: Option<bool>, stored: Option<TableState>, player: u8| {
        PokerTableContract::leave_table(0, paused, stored, address(player), None).err()
    };
    let seated = join(table(), 20, 100).table;
    assert_eq!(
        leave_with(Some(true), Some(seated.clone()), 20),
        Some(PokerTableError::ContractPaused)
    );
    assert_eq!(leave_with(None, None, 20), Some(PokerTableError::TableNotFound));
    let mut live = seated.clone();
    live.phase = GamePhase::Dispute;
    assert_eq!(
        leave_with(None, Some(live), 20),
        Some(PokerTableError::CannotLeaveDuringActiveHand)
    );
    assert_eq!(leave_with(None, Some(seated), 21), Some(PokerTableError::PlayerNotAtTable));
}

#[test]
fn joining_and_leaving_again_restores_the_table() {
    let before = join(join(table(), 20, 100).table, 21, 200).table;
    let joined = join(before.clone(), 22, 555);
    let left = leave(joined.table, 22).unwrap();
    assert_eq!(left.table, before);
    assert_eq!(left.withdrawn, 555);
}

#[test]
fn first_seat_of_a_player_is_found() {
    let seated = join(join(table(), 20, 100).table, 21, 200).table;
    assert_eq!(find_seat(&seated, &address(20)), Ok(0));
    assert_eq!(find_seat(&seated, &address(21)), Ok(1));
    assert_eq!(find_seat(&seated, &address(22)), Err(PokerTableError::PlayerNotAtTable));
    // Addresses that differ in their last byte only are different players.
    let mut strkey = [20u8; 56];
    strkey[55] = 21;
    assert_eq!(
        find_seat(&seated, &Address { strkey }),
        Err(PokerTableError::PlayerNotAtTable)
    );
}

#[test]
fn list_of_tables_follows_joins_and_leaves() {
    assert_eq!(index_player_table(None, 3), IndexUpdate::Store(vec![3]));
    assert_eq!(index_player_table(Some(vec![3]), 5), IndexUpdate::Store(vec![3, 5]));
    assert_eq!(index_player_table(Some(vec![3, 5]), 5), IndexUpdate::Keep);
    assert_eq!(unindex_player_table(None, 3), IndexUpdate::Keep);
    assert_eq!(unindex_player_table(Some(vec![3, 5, 8]), 5), IndexUpdate::Store(vec![3, 8]));
    assert_eq!(unindex_player_table(Some(vec![5]), 5), IndexUpdate::Remove);
    assert_eq!(unindex_player_table(Some(vec![3]), 5), IndexUpdate::Store(vec![3]));
    assert_eq!(PokerTableContract::get_player_tables(None), Vec::<u32>::new());
    assert_eq!(PokerTableContract::get_player_tables(Some(vec![3, 5])), vec![3, 5]);
    assert_eq!(PokerTableContract::get_player_table_count(None), 0);
    assert_eq!(PokerTableContract::get_player_table_count(Some(vec![3, 5])), 2);
}

#[test]
fn paused_or_missing_tables_are_not_opened() {
    assert_eq!(require_not_paused(Some(true)), Err(PokerTableError::ContractPaused));
    assert_eq!(require_not_paused(Some(false)), Ok(()));
    assert_eq!(require_not_paused(None), Ok(()));
    assert_eq!(load_table(None), Err(PokerTableError::TableNotFound));
    assert_eq!(load_table(Some(table())), Ok(table()));
}

#[test]
fn wallet_list_names_exactly_its_tables() {
    let mut tables: Vec<TableState> = Vec::new();
    for id in 0..3u32 {
        tables.push(
            PokerTableContract::create_table(address(9), config(), Some(id), 0).unwrap().table,
        );
    }
    let mut list: Option<Vec<u32>> = None;
    let apply = |list: Option<Vec<u32>>, update: IndexUpdate| match update {
        IndexUpdate::Keep => list,
        IndexUpdate::Store(tables) => Some(tables),
        IndexUpdate::Remove => None,
    };
    for id in [2u32, 0] {
        let stored = Some(tables[id as usize].clone());
        let joined =
            PokerTableContract::join_table(id, None, stored, address(20), 100, list.clone())
                .unwrap();
        tables[id as usize] = joined.table;
        list = apply(list, joined.index);
    }
    assert_eq!(list, Some(vec![2, 0]));
    assert_eq!(PokerTableContract::get_player_table_count(list.clone()), 2);
    for (id, rest) in [(2u32, Some(vec![0])), (0, None)] {
        let stored = Some(tables[id as usize].clone());
        let left =
            PokerTableContract::leave_table(id, None, stored, address(20), list.clone()).unwrap();
        tables[id as usize] = left.table;
        list = apply(list, left.index);
        assert_eq!(list, rest);
    }
}

#[test]
fn stacks_stay_nonnegative_through_a_session() {
    let mut session = join(join(table(), 20, 100).table, 21, 1000).table;
    session.players[0].stack = 0;
    let rebought = rebuy(session, 20, 100).unwrap().table;
    assert!(rebought.players.iter().all(|p| p.stack >= 0));
    let left = leave(rebought, 21).unwrap().table;
    assert_eq!(stacks(&left), 100);
    assert!(left.players.iter().all(|p| p.stack >= 0));
}

#[test]
fn deposits_add_up_over_a_session() {
    let mut state = join(join(table(), 20, 300).table, 21, 200).table;
    state = rebuy(state, 21, 50).unwrap().table;
    state = join(state, 22, 100).table;
    state = rebuy(state, 20, 100).unwrap().table;
    state = leave(state, 20).unwrap().table;
    // A hand costs the player chips, and deposits stay as they were.
    state.players[0].stack = 10;
    state = rebuy(state, 21, 500).unwrap().table;
    assert_eq!(
        PokerTableContract::get_player_buy_in(Some(state.clone()), address(21)),
        Ok((200 + 50 + 500, 2))
    );
    state.config.max_rebuys = 2;
    assert_eq!(rebuy(state, 21, 5).err(), Some(PokerTableError::RebuyLimitReached));
}
