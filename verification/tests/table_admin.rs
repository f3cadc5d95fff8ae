//! What the admin changes, what anyone reads, and the hand history.
use poker_table::constant_time::{address_eq, address_ne, bytes_eq, u32_eq, u32_ne};
use poker_table::table::admin::PauseChange;
use poker_table::table::events::TableEvent;
use poker_table::table::types::{
    Address, Bytes32, DataKey, Direction, GamePhase, HandHistoryMeta, HandRecord,
    PokerTableError, TableConfig, TableState,
};
use poker_table::table::PokerTableContract;

fn address(n: u8) -> Address {
    Address { strkey: [n; 56] }
}

fn table() -> TableState {
    let config = TableConfig {
        token: address(1),
        min_buy_in: 100,
        max_buy_in: 1000,
        small_blind: 5,
        big_blind: 10,
        min_players: 2,
        max_players: 4,
        timeout_ledgers: 60,
        committee: address(2),
        verifier: address(3),
        game_hub: address(4),
        rake_bps: 250,
        max_rebuys: 0,
        jackpot_rake_share_bps: 1500,
        min_bad_beat_category: 7,
        min_bad_beat_rank: 12,
    };
    PokerTableContract::create_table(address(9), config, Some(7), 1000).unwrap().table
}

#[test]
fn pause_and_unpause_set_the_flag() {
    let stored = Some(table());
    let pause = PokerTableContract::pause(7, &stored).unwrap();
    assert_eq!(
        pause,
        PauseChange {
            paused: true,
            event: TableEvent::TablePaused { table_id: 7, admin: address(9) },
        }
    );
    assert!(PokerTableContract::is_paused(Some(pause.paused)));
    let unpause = PokerTableContract::unpause(7, &stored).unwrap();
    assert_eq!(
        unpause.event,
        TableEvent::TableUnpaused { table_id: 7, admin: address(9) }
    );
    assert!(!PokerTableContract::is_paused(Some(unpause.paused)));
    assert!(!PokerTableContract::is_paused(None));
}

#[test]
fn readers_report_what_is_stored() {
    let mut state = table();
    state.rake_balance = 31;
    state.jackpot_balance = 17;
    let stored = Some(state.clone());
    assert_eq!(PokerTableContract::get_admin(&stored), Ok(address(9)));
    assert_eq!(PokerTableContract::get_hub(&stored), Ok(address(4)));
    assert_eq!(PokerTableContract::get_rake_balance(&stored), Ok(31));
    assert_eq!(PokerTableContract::get_jackpot_balance(&stored), Ok(17));
    assert_eq!(PokerTableContract::get_jackpot_config(&stored), Ok((1500, 7, 12)));
    assert_eq!(PokerTableContract::get_table(stored), Ok(state));
}

#[test]
fn missing_table_is_reported_everywhere() {
    let missing = PokerTableError::TableNotFound;
    assert_eq!(PokerTableContract::get_table(None), Err(missing));
    assert_eq!(PokerTableContract::pause(7, &None), Err(missing));
    assert_eq!(PokerTableContract::unpause(7, &None), Err(missing));
    assert_eq!(PokerTableContract::get_admin(&None), Err(missing));
    assert_eq!(PokerTableContract::get_hub(&None), Err(missing));
    assert_eq!(PokerTableContract::set_hub(None, address(5)), Err(missing));
    assert_eq!(PokerTableContract::upgrade(&None, Bytes32 { bytes: [1; 32] }), Err(missing));
    assert_eq!(PokerTableContract::set_max_rebuys(7, None, 1), Err(missing));
    assert_eq!(PokerTableContract::set_rake_bps(7, None, 1), Err(missing));
    assert_eq!(PokerTableContract::set_min_players(7, None, 2), Err(missing));
    assert_eq!(PokerTableContract::get_rake_balance(&None), Err(missing));
    assert_eq!(PokerTableContract::get_jackpot_balance(&None), Err(missing));
    assert_eq!(PokerTableContract::get_jackpot_config(&None), Err(missing));
    assert_eq!(PokerTableContract::set_jackpot_config(7, None, 1, 2, 3), Err(missing));
    assert_eq!(PokerTableContract::withdraw_rake(7, None), Err(missing));
}

#[test]
fn admin_changes_one_setting_at_a_time() {
    let mut expected = table();
    expected.config.game_hub = address(5);
    assert_eq!(PokerTableContract::set_hub(Some(table()), address(5)), Ok(expected));

    let mut expected = table();
    expected.config.max_rebuys = 3;
    let change = PokerTableContract::set_max_rebuys(7, Some(table()), 3).unwrap();
    assert_eq!(change.table, expected);
    assert_eq!(change.event, TableEvent::MaxRebuysUpdated { table_id: 7, max_rebuys: 3 });

    let mut expected = table();
    expected.config.rake_bps = 500;
    let change = PokerTableContract::set_rake_bps(7, Some(table()), 500).unwrap();
    assert_eq!(change.table, expected);
    assert_eq!(change.event, TableEvent::RakeBpsUpdated { table_id: 7, rake_bps: 500 });

    let mut expected = table();
    expected.config.jackpot_rake_share_bps = 10;
    expected.config.min_bad_beat_category = 8;
    expected.config.min_bad_beat_rank = 11;
    let change = PokerTableContract::set_jackpot_config(7, Some(table()), 10, 8, 11).unwrap();
    assert_eq!(change.table, expected);
    assert_eq!(
        change.event,
        TableEvent::JackpotConfigUpdated {
            table_id: 7,
            rake_share_bps: 10,
            min_category: 8,
            min_rank: 11,
        }
    );
    assert_eq!(
        PokerTableContract::upgrade(&Some(table()), Bytes32 { bytes: [1; 32] }),
        Ok(Bytes32 { bytes: [1; 32] })
    );
}

#[test]
fn rake_is_capped_at_five_percent() {
    assert_eq!(
        PokerTableContract::set_rake_bps(7, Some(table()), 501).err(),
        Some(PokerTableError::RakeBpsExceedsMax)
    );
    // The cap is checked before the table is looked for.
    assert_eq!(
        PokerTableContract::set_rake_bps(7, None, 501).err(),
        Some(PokerTableError::RakeBpsExceedsMax)
    );
    assert_eq!(PokerTableContract::set_rake_bps_check(500), Ok(()));
}

#[test]
fn minimum_players_stay_within_the_table() {
    let count = Some(PokerTableError::InvalidPlayerCount);
    let set = |stored: TableState, n: u32| {
        PokerTableContract::set_min_players(7, Some(stored), n)
    };
    assert_eq!(set(table(), 1).err(), count);
    assert_eq!(set(table(), 5).err(), count);
    let change = set(table(), 4).unwrap();
    assert_eq!(change.table.config.min_players, 4);
    assert_eq!(change.event, TableEvent::MinPlayersUpdated { table_id: 7, min_players: 4 });
    let mut live = table();
    live.phase = GamePhase::Preflop;
    assert_eq!(set(live, 3).err(), Some(PokerTableError::CannotChangeMinPlayersMidHand));
}

#[test]
fn rake_is_withdrawn_once() {
    let mut state = table();
    state.rake_balance = 31;
    let first = PokerTableContract::withdraw_rake(7, Some(state)).unwrap();
    assert_eq!(first.amount, 31);
    let transfer = first.transfer.unwrap();
    assert_eq!(transfer.token, address(1));
    assert_eq!(transfer.account, address(9));
    assert_eq!(transfer.direction, Direction::Withdrawal);
    assert_eq!(transfer.amount, 31);
    let second = PokerTableContract::withdraw_rake(7, first.table).unwrap();
    assert_eq!(second.amount, 0);
    assert_eq!(second.table, None);
    assert_eq!(second.transfer, None);
    assert_eq!(
        second.event,
        TableEvent::RakeWithdrawn { table_id: 7, admin: address(9), amount: 0 }
    );
}

#[test]
fn events_are_published_under_their_names() {
    let admin = address(9);
    let names = [
        (TableEvent::TableCreated { table_id: 0, admin }, "table_created"),
        (TableEvent::PlayerJoined { table_id: 0, player: admin, seat: 0 }, "player_joined"),
        (TableEvent::PlayerLeft { table_id: 0, player: admin, withdrawn: 0 }, "player_left"),
        (TableEvent::MaxRebuysUpdated { table_id: 0, max_rebuys: 0 }, "max_rebuys_updated"),
        (TableEvent::HandStarted { table_id: 0, hand_number: 0 }, "hand_started"),
        (TableEvent::TablePaused { table_id: 0, admin }, "table_paused"),
        (TableEvent::TableUnpaused { table_id: 0, admin }, "table_unpaused"),
        (TableEvent::RakeBpsUpdated { table_id: 0, rake_bps: 0 }, "rake_bps_updated"),
        (TableEvent::MinPlayersUpdated { table_id: 0, min_players: 0 }, "min_players_updated"),
        (TableEvent::RakeWithdrawn { table_id: 0, admin, amount: 0 }, "rake_withdrawn"),
    ];
    for (event, name) in names {
        assert_eq!(event.name(), name);
    }
}

#[test]
fn errors_are_reported_under_their_numbers() {
    assert_eq!(PokerTableError::TableNotFound.code(), 1);
    assert_eq!(PokerTableError::InvalidPlayerIndex.code(), 10);
    assert_eq!(PokerTableError::NotInBettingPhase.code(), 20);
    assert_eq!(PokerTableError::BoardNotComplete.code(), 30);
    assert_eq!(PokerTableError::HoleCardMismatch.code(), 34);
    assert_eq!(PokerTableError::ContractPaused.code(), 39);
    assert_eq!(PokerTableError::TargetNotActive.code(), 41);
}

#[test]
fn comparisons_look_at_every_bit() {
    assert!(u32_eq(5, 5) && !u32_eq(5, 5 | 1 << 31));
    assert!(u32_ne(5, 4) && !u32_ne(0, 0));
    assert!(bytes_eq(&[1, 2, 3], &[1, 2, 3]));
    assert!(!bytes_eq(&[1, 2, 3], &[1, 2, 131]));
    assert!(address_eq(&address(1), &address(1)));
    assert!(address_ne(&address(1), &address(2)));
}

/// A hand with nothing but its number.
fn hand(hand_number: u32) -> HandRecord {
    HandRecord {
        hand_number,
        players: vec![],
        board: vec![],
        actions: vec![],
        payouts: vec![],
        total_pot: 0,
        rake: 0,
        showdown: false,
        settled_ledger: 0,
    }
}

/// A history buffer of three slots with hands archived into it.
struct Buffer {
    contract: PokerTableContract,
    meta: Option<HandHistoryMeta>,
    slots: [Option<HandRecord>; 3],
}

impl Buffer {
    fn with_hands(hands: u32) -> Buffer {
        let contract = PokerTableContract { history_capacity: 3 };
        let mut buffer = Buffer { contract, meta: None, slots: [None, None, None] };
        for n in 1..=hands {
            assert!(contract.history_fits(buffer.meta));
            let archival = contract.archive_hand(buffer.meta);
            buffer.slots[archival.slot as usize] = Some(hand(n));
            buffer.meta = Some(archival.meta);
        }
        buffer
    }

    fn read(&self, limit: u32) -> Vec<HandRecord> {
        self.contract
            .get_hand_history(7, self.meta, limit)
            .into_iter()
            .map(|key| match key {
                DataKey::HandRecord(7, slot) => self.slots[slot as usize].clone().unwrap(),
                _ => unreachable!(),
            })
            .collect()
    }

    fn numbers(&self, limit: u32) -> Vec<u32> {
        self.read(limit).iter().map(|record| record.hand_number).collect()
    }
}

#[test]
fn history_keeps_the_latest_hands() {
    assert_eq!(Buffer::with_hands(0).numbers(0), Vec::<u32>::new());
    assert_eq!(Buffer::with_hands(2).numbers(0), vec![2, 1]);
    let buffer = Buffer::with_hands(7);
    assert_eq!(buffer.numbers(0), vec![7, 6, 5]);
    assert_eq!(buffer.numbers(1), vec![7]);
    assert_eq!(buffer.numbers(2), vec![7, 6]);
    assert_eq!(buffer.numbers(9), vec![7, 6, 5]);
    assert_eq!(buffer.contract.hand_history_capacity(), 3);
    assert_eq!(
        PokerTableContract::get_hand_history_meta(buffer.meta),
        HandHistoryMeta { next_slot: 1, stored: 3, total_archived: 7 }
    );
    assert_eq!(
        PokerTableContract::get_hand_history_meta(None),
        HandHistoryMeta { next_slot: 0, stored: 0, total_archived: 0 }
    );
}

#[test]
fn evicted_hands_are_not_found() {
    let buffer = Buffer::with_hands(7);
    for n in 1..=4 {
        assert_eq!(PokerTableContract::get_hand(buffer.read(0), n), None);
    }
    for n in 5..=7 {
        assert_eq!(PokerTableContract::get_hand(buffer.read(0), n), Some(hand(n)));
    }
    assert_eq!(PokerTableContract::get_hand(buffer.read(0), 8), None);
}

#[test]
fn bookkeeping_out_of_range_is_told_apart() {
    let contract = PokerTableContract { history_capacity: 3 };
    let sound = HandHistoryMeta { next_slot: 1, stored: 3, total_archived: 7 };
    assert!(contract.history_fits(Some(sound)));
    assert!(contract.history_fits(Some(HandHistoryMeta { next_slot: 2, ..sound })));
    assert!(!contract.history_fits(Some(HandHistoryMeta { next_slot: 3, ..sound })));
    assert!(!contract.history_fits(Some(HandHistoryMeta { stored: 4, ..sound })));
    assert!(!PokerTableContract { history_capacity: 0 }.history_fits(None));
}

#[test]
fn history_is_read_back_from_the_next_slot() {
    // Whatever was counted over the lifetime, the slots before the next one are
    // read, around the buffer.
    let contract = PokerTableContract { history_capacity: 3 };
    let meta = HandHistoryMeta { next_slot: 1, stored: 2, total_archived: 0 };
    assert_eq!(
        contract.get_hand_history(7, Some(meta), 0),
        vec![DataKey::HandRecord(7, 0), DataKey::HandRecord(7, 2)]
    );
}
