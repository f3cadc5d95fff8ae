//! Playing a hand: the deal, the board and the showdown.
use poker_table::table::events::TableEvent;
use poker_table::table::play::{HubNotice, ProvedOutcome};
use poker_table::table::session::derive_session_id;
use poker_table::table::showdown::{
    extract_u32_from_public_inputs, hole_cards_fit, verify_hole_cards_against_proof,
};
use poker_table::table::types::{
    Address, Bytes32, GamePhase, PokerTableError, TableConfig, TableState,
};
use poker_table::table::PokerTableContract;
use soroban_sdk::{Bytes, Env};

fn address(n: u8) -> Address {
    Address { strkey: [n; 56] }
}

fn root(n: u8) -> Bytes32 {
    Bytes32 { bytes: [n; 32] }
}

/// A table of three players in a given phase.
fn table(phase: GamePhase) -> TableState {
    let config = TableConfig {
        token: address(1),
        min_buy_in: 100,
        max_buy_in: 1000,
        small_blind: 5,
        big_blind: 10,
        min_players: 2,
        max_players: 6,
        timeout_ledgers: 60,
        committee: address(2),
        verifier: address(3),
        game_hub: address(4),
        rake_bps: 250,
        max_rebuys: 0,
        jackpot_rake_share_bps: 0,
        min_bad_beat_category: 7,
        min_bad_beat_rank: 12,
    };
    let mut table =
        PokerTableContract::create_table(address(9), config, Some(7), 1000).unwrap().table;
    for player in 20..23 {
        table = PokerTableContract::join_table(
            7,
            None,
            Some(table),
            address(player),
            100 * player as i128 - 1900,
            None,
        )
        .unwrap()
        .table;
    }
    table.phase = phase;
    table
}

/// Public inputs with a small integer in each of the given fields.
fn inputs(env: &Env, fields: &[(usize, u32)]) -> Bytes {
    let mut bytes = vec![0u8; 27 * 32];
    for (field, value) in fields {
        bytes[field * 32 + 28..field * 32 + 32].copy_from_slice(&value.to_be_bytes());
    }
    Bytes::from_slice(env, &bytes)
}

#[test]
fn session_ids_have_known_values() {
    assert_eq!(derive_session_id(0, 0), 0);
    assert_eq!(derive_session_id(0, 1), 2443840399);
    assert_eq!(derive_session_id(1, 1), 3991680617);
    assert_eq!(derive_session_id(7, 42), 3406924429);
}

#[test]
fn sessions_of_different_hands_and_tables_differ() {
    for hand in 0..200u32 {
        assert_ne!(derive_session_id(7, hand), derive_session_id(7, hand + 1));
        assert_ne!(derive_session_id(hand, 3), derive_session_id(hand + 1, 3));
    }
}

#[test]
fn started_hand_is_announced_to_the_hub() {
    let stored = Some(table(GamePhase::Waiting));
    assert_eq!(PokerTableContract::start_hand_check(None, &stored), Ok(()));
    let mut dealt = table(GamePhase::Dealing);
    dealt.hand_number = 42;
    let started = PokerTableContract::start_hand(7, None, &stored, Ok(dealt.clone())).unwrap();
    assert_eq!(
        started.notice,
        HubNotice {
            game_hub: address(4),
            session_id: 3406924429,
            player1: address(20),
            player2: address(21),
            player1_stack: 100,
            player2_stack: 200,
        }
    );
    assert_eq!(started.event, TableEvent::HandStarted { table_id: 7, hand_number: 42 });
    dealt.session_id = 3406924429;
    assert_eq!(started.table, dealt);
}

#[test]
fn starting_is_refused_for_each_reason() {
    let start = |paused: Option<bool>, stored: &Option<TableState>| {
        PokerTableContract::start_hand(7, paused, stored, Ok(table(GamePhase::Dealing))).err()
    };
    let waiting = Some(table(GamePhase::Waiting));
    assert_eq!(start(Some(true), &waiting), Some(PokerTableError::ContractPaused));
    assert_eq!(start(None, &None), Some(PokerTableError::TableNotFound));
    assert_eq!(
        start(None, &Some(table(GamePhase::River))),
        Some(PokerTableError::HandAlreadyInProgress)
    );
    let mut lonely = table(GamePhase::Waiting);
    lonely.players.truncate(1);
    assert_eq!(start(None, &Some(lonely.clone())), Some(PokerTableError::NotEnoughPlayers));
    assert_eq!(start(None, &Some(table(GamePhase::Settlement))), None);
    // A refusal of the dealing rules is passed on.
    assert_eq!(
        PokerTableContract::start_hand(7, None, &waiting, Err(PokerTableError::NotEnoughChips))
            .err(),
        Some(PokerTableError::NotEnoughChips)
    );
    assert_eq!(
        PokerTableContract::start_hand(7, None, &waiting, Ok(lonely)).err(),
        Some(PokerTableError::InvalidPlayerIndex)
    );
}

#[test]
fn committed_deal_opens_the_betting() {
    let mut dealing = table(GamePhase::Dealing);
    dealing.dealer_seat = 1;
    dealing.hand_number = 5;
    let stored = Some(dealing.clone());
    assert_eq!(
        PokerTableContract::commit_deal_query(None, &stored, address(2), 3),
        Ok(address(3))
    );
    assert!(PokerTableContract::commit_deal_fits(None, &stored, address(2), 3, true, 2000));
    let commitments = vec![root(11), root(12), root(13)];
    let dealt = PokerTableContract::commit_deal(
        7,
        None,
        stored,
        address(2),
        root(10),
        commitments.clone(),
        vec![0, 1, 2, 3, 4, 5],
        true,
        2000,
    )
    .unwrap();
    assert_eq!(
        dealt.event,
        TableEvent::DealCommitted {
            table_id: 7,
            hand_number: 5,
            hand_commitments: commitments.clone(),
        }
    );
    let mut expected = dealing;
    expected.deck_root = root(10);
    expected.hand_commitments = commitments;
    expected.dealt_indices = vec![0, 1, 2, 3, 4, 5];
    expected.phase = GamePhase::Preflop;
    expected.last_action_ledger = 2000;
    expected.current_turn = 1;
    expected.action_deadline = 2060;
    assert_eq!(dealt.table, expected);
}

#[test]
fn deal_is_refused_for_each_reason() {
    let deal = |paused: Option<bool>,
                stored: Option<TableState>,
                committee: u8,
                count: usize,
                verified: bool| {
        assert!(PokerTableContract::commit_deal_fits(
            paused,
            &stored,
            address(committee),
            count,
            verified,
            2000
        ));
        PokerTableContract::commit_deal(
            7,
            paused,
            stored,
            address(committee),
            root(10),
            vec![root(11); count],
            vec![],
            verified,
            2000,
        )
        .err()
    };
    let dealing = || Some(table(GamePhase::Dealing));
    assert_eq!(deal(Some(true), dealing(), 2, 3, true), Some(PokerTableError::ContractPaused));
    assert_eq!(deal(None, None, 2, 3, true), Some(PokerTableError::TableNotFound));
    assert_eq!(
        deal(None, Some(table(GamePhase::Preflop)), 2, 3, true),
        Some(PokerTableError::NotInDealingPhase)
    );
    assert_eq!(
        deal(None, dealing(), 9, 3, true),
        Some(PokerTableError::NotAuthorizedCommittee)
    );
    assert_eq!(deal(None, dealing(), 2, 2, true), Some(PokerTableError::WrongCommitmentCount));
    assert_eq!(
        deal(None, dealing(), 2, 3, false),
        Some(PokerTableError::DealProofVerificationFailed)
    );
    let mut lonely = table(GamePhase::Dealing);
    lonely.players.truncate(1);
    assert_eq!(deal(None, Some(lonely), 2, 1, true), Some(PokerTableError::NotEnoughPlayers));
}

#[test]
fn deadline_beyond_range_does_not_fit() {
    let stored = Some(table(GamePhase::Dealing));
    let fits = |verified: bool, ledger: u32| {
        PokerTableContract::commit_deal_fits(None, &stored, address(2), 3, verified, ledger)
    };
    assert!(fits(true, u32::MAX - 60));
    assert!(!fits(true, u32::MAX - 59));
    assert!(fits(false, u32::MAX));
}

#[test]
fn betting_rules_are_asked_in_betting_rounds_only() {
    let stored = Some(table(GamePhase::Turn));
    let mut acted = table(GamePhase::Turn);
    acted.pot = 77;
    assert_eq!(PokerTableContract::player_action_check(None, &stored), Ok(()));
    assert_eq!(
        PokerTableContract::player_action(None, &stored, Ok(acted.clone())),
        Ok(acted.clone())
    );
    assert_eq!(
        PokerTableContract::player_action(None, &stored, Err(PokerTableError::NotYourTurn)),
        Err(PokerTableError::NotYourTurn)
    );
    for phase in [GamePhase::Waiting, GamePhase::DealingTurn, GamePhase::Showdown] {
        assert_eq!(
            PokerTableContract::player_action(None, &Some(table(phase)), Ok(acted.clone())),
            Err(PokerTableError::NotInBettingPhase)
        );
    }
    for phase in [GamePhase::Preflop, GamePhase::Flop, GamePhase::River] {
        assert_eq!(PokerTableContract::player_action_check(None, &Some(table(phase))), Ok(()));
    }
    assert_eq!(
        PokerTableContract::player_action(Some(true), &stored, Ok(acted)),
        Err(PokerTableError::ContractPaused)
    );
}

#[test]
fn timeouts_are_passed_on_unless_paused() {
    let stored = Some(table(GamePhase::Turn));
    let mut next = table(GamePhase::Turn);
    next.current_turn = 2;
    assert_eq!(
        PokerTableContract::claim_timeout(None, &stored, Ok(next.clone())),
        Ok(next.clone())
    );
    assert_eq!(PokerTableContract::force_fold(None, &stored, Ok(next.clone())), Ok(next.clone()));
    assert_eq!(
        PokerTableContract::claim_timeout(None, &stored, Err(PokerTableError::TimeoutNotReached)),
        Err(PokerTableError::TimeoutNotReached)
    );
    assert_eq!(
        PokerTableContract::claim_timeout(Some(true), &stored, Ok(next.clone())),
        Err(PokerTableError::ContractPaused)
    );
    assert_eq!(
        PokerTableContract::force_fold(None, &None, Ok(next.clone())),
        Err(PokerTableError::TableNotFound)
    );
    assert_eq!(
        PokerTableContract::force_fold(Some(true), &stored, Ok(next)),
        Err(PokerTableError::ContractPaused)
    );
}

#[test]
fn flop_turn_and_river_fill_the_board() {
    let mut state = table(GamePhase::DealingFlop);
    state.deck_root = root(10);
    state.dealt_indices = vec![0, 1, 2, 3, 4, 5];
    let streets = [
        (GamePhase::DealingFlop, GamePhase::Flop, vec![40, 41, 42], vec![6, 7, 8]),
        (GamePhase::DealingTurn, GamePhase::Turn, vec![43], vec![9]),
        (GamePhase::DealingRiver, GamePhase::River, vec![44], vec![10]),
    ];
    for (street, round, cards, indices) in streets {
        state.phase = street;
        let stored = Some(state.clone());
        let query = PokerTableContract::reveal_board_query(
            None,
            &stored,
            address(2),
            cards.len(),
            indices.len(),
        )
        .unwrap();
        assert_eq!(query.verifier, address(3));
        assert_eq!(query.deck_root, root(10));
        let opened = PokerTableContract::reveal_board_opened(
            None,
            stored.clone(),
            address(2),
            &cards,
            &indices,
            true,
            3000,
        )
        .unwrap();
        assert_eq!(opened.phase, round);
        assert_eq!(opened.last_action_ledger, 3000);
        let revealed = PokerTableContract::reveal_board(
            7,
            None,
            &stored,
            address(2),
            cards.clone(),
            indices.clone(),
            true,
            Ok(opened.clone()),
        )
        .unwrap();
        assert_eq!(revealed.table, opened);
        assert_eq!(revealed.event, TableEvent::BoardRevealed { table_id: 7, cards, indices });
        state = revealed.table;
    }
    assert_eq!(state.board_cards, vec![40, 41, 42, 43, 44]);
    assert_eq!(state.dealt_indices, vec![0, 1, 2, 3, 4, 5, 6, 7, 8, 9, 10]);
    state.phase = GamePhase::Showdown;
    let query =
        PokerTableContract::submit_showdown_query(None, &Some(state), address(2)).unwrap();
    assert_eq!(query.board_indices, vec![6, 7, 8, 9, 10]);
    assert_eq!(query.deck_root, root(10));
    assert_eq!(query.verifier, address(3));
}

#[test]
fn reveal_is_refused_for_each_reason() {
    let reveal = |paused: Option<bool>,
                  stored: Option<TableState>,
                  committee: u8,
                  count: usize,
                  verified: bool,
                  reset: Result<TableState, PokerTableError>| {
        let error = PokerTableContract::reveal_board(
            7,
            paused,
            &stored,
            address(committee),
            vec![40; count],
            vec![6; count],
            verified,
            reset,
        )
        .err();
        let opened = PokerTableContract::reveal_board_opened(
            paused,
            stored,
            address(committee),
            &vec![40; count],
            &vec![6; count],
            verified,
            3000,
        );
        if let Err(e) = opened {
            assert_eq!(error, Some(e));
        }
        error
    };
    let flop = || Some(table(GamePhase::DealingFlop));
    let ok = || Ok(table(GamePhase::Flop));
    assert_eq!(
        reveal(Some(true), flop(), 2, 3, true, ok()),
        Some(PokerTableError::ContractPaused)
    );
    assert_eq!(reveal(None, None, 2, 3, true, ok()), Some(PokerTableError::TableNotFound));
    assert_eq!(
        reveal(None, flop(), 9, 3, true, ok()),
        Some(PokerTableError::NotAuthorizedCommittee)
    );
    assert_eq!(
        reveal(None, Some(table(GamePhase::Flop)), 2, 3, true, ok()),
        Some(PokerTableError::NotInRevealPhase)
    );
    assert_eq!(reveal(None, flop(), 2, 1, true, ok()), Some(PokerTableError::WrongCardCount));
    assert_eq!(
        reveal(None, Some(table(GamePhase::DealingTurn)), 2, 3, true, ok()),
        Some(PokerTableError::WrongCardCount)
    );
    assert_eq!(
        reveal(None, flop(), 2, 3, false, ok()),
        Some(PokerTableError::RevealProofVerificationFailed)
    );
    assert_eq!(
        reveal(None, flop(), 2, 3, true, Err(PokerTableError::InvalidPlayerIndex)),
        Some(PokerTableError::InvalidPlayerIndex)
    );
    assert_eq!(
        PokerTableContract::reveal_board_query(None, &flop(), address(2), 3, 2).err(),
        Some(PokerTableError::WrongCardCount)
    );
}

#[test]
fn small_integers_are_read_from_their_fields() {
    let env = Env::default();
    let public_inputs = inputs(&env, &[(0, 1), (13, 0x0102_0304), (26, u32::MAX)]);
    assert_eq!(extract_u32_from_public_inputs(&public_inputs, 0), 1);
    assert_eq!(extract_u32_from_public_inputs(&public_inputs, 1), 0);
    assert_eq!(extract_u32_from_public_inputs(&public_inputs, 13), 0x0102_0304);
    assert_eq!(extract_u32_from_public_inputs(&public_inputs, 26), u32::MAX);
    // Past the end there are zeroes.
    assert_eq!(extract_u32_from_public_inputs(&public_inputs, 27), 0);
    let short = Bytes::from_slice(&env, &[7u8; 30]);
    assert_eq!(extract_u32_from_public_inputs(&short, 0), 0x0707_0000);
}

#[test]
fn hole_cards_are_held_against_the_proof() {
    let env = Env::default();
    let mut showdown = table(GamePhase::Showdown);
    showdown.players[1].folded = true;
    let public_inputs =
        inputs(&env, &[(13, 4), (19, 5), (14, 6), (20, 7), (15, 8), (21, 9)]);
    let verify = |cards: &[(u32, u32)]| {
        assert!(hole_cards_fit(&showdown, &public_inputs, &cards.to_vec()));
        verify_hole_cards_against_proof(&showdown, &public_inputs, &cards.to_vec())
    };
    assert_eq!(verify(&[(4, 5), (8, 9)]), Ok(()));
    // Cards beyond the seats still in the hand are not looked at.
    assert_eq!(verify(&[(4, 5), (8, 9), (1, 1)]), Ok(()));
    assert_eq!(verify(&[(4, 5), (6, 7)]), Err(PokerTableError::HoleCardMismatch));
    assert_eq!(verify(&[(5, 4), (8, 9)]), Err(PokerTableError::HoleCardMismatch));
    assert_eq!(verify(&[(4, 5), (8, 0)]), Err(PokerTableError::HoleCardMismatch));
    assert_eq!(verify(&[(4, 5)]), Err(PokerTableError::InvalidHoleCards));
    assert_eq!(verify(&[]), Err(PokerTableError::InvalidHoleCards));
    // A wrong card is found before a missing one.
    assert_eq!(verify(&[(0, 0)]), Err(PokerTableError::HoleCardMismatch));
}

#[test]
fn showdown_without_players_has_no_hole_cards() {
    let env = Env::default();
    let mut showdown = table(GamePhase::Showdown);
    for player in showdown.players.iter_mut() {
        player.folded = true;
    }
    assert_eq!(
        verify_hole_cards_against_proof(&showdown, &inputs(&env, &[]), &vec![(0, 0)]),
        Err(PokerTableError::InvalidHoleCards)
    );
}

#[test]
fn seat_beyond_range_does_not_fit() {
    let env = Env::default();
    let mut showdown = table(GamePhase::Showdown);
    let public_inputs = inputs(&env, &[]);
    showdown.players[1].seat_index = 134_217_708;
    assert!(hole_cards_fit(&showdown, &public_inputs, &vec![(0, 0); 3]));
    showdown.players[1].seat_index = 134_217_709;
    assert!(!hole_cards_fit(&showdown, &public_inputs, &vec![(0, 0); 3]));
    // It is not looked at once an earlier seat has been refused.
    assert!(hole_cards_fit(&showdown, &public_inputs, &vec![(1, 0); 3]));
    showdown.players[1].folded = true;
    assert!(hole_cards_fit(&showdown, &public_inputs, &vec![(0, 0); 3]));
}

#[test]
fn proved_winner_is_settled() {
    let env = Env::default();
    let mut showdown = table(GamePhase::Showdown);
    showdown.dealt_indices = vec![6, 7, 8, 9, 10];
    showdown.hand_commitments = vec![root(11), root(12), root(13)];
    let stored = Some(showdown.clone());
    let query = PokerTableContract::submit_showdown_query(None, &stored, address(2)).unwrap();
    assert_eq!(query.hand_commitments, vec![root(11), root(12), root(13)]);
    let public_inputs = inputs(
        &env,
        &[(13, 4), (19, 5), (14, 6), (20, 7), (15, 8), (21, 9), (25, 2), (26, 0b110)],
    );
    let cards = vec![(4, 5), (6, 7), (8, 9)];
    assert!(PokerTableContract::showdown_fits(
        None,
        &stored,
        address(2),
        true,
        &public_inputs,
        &cards
    ));
    let outcome = PokerTableContract::showdown_outcome(
        None,
        &stored,
        address(2),
        true,
        &public_inputs,
        &cards,
    )
    .unwrap();
    assert_eq!(outcome, ProvedOutcome { winner_index: 2, tie_mask: 6 });
    let mut settled = showdown;
    settled.phase = GamePhase::Settlement;
    assert_eq!(
        PokerTableContract::submit_showdown(
            None,
            &stored,
            address(2),
            true,
            &public_inputs,
            &cards,
            Ok(settled.clone())
        ),
        Ok(settled)
    );
}

#[test]
fn showdown_is_refused_for_each_reason() {
    let env = Env::default();
    let public_inputs = inputs(&env, &[]);
    let showdown = |paused: Option<bool>,
                    stored: Option<TableState>,
                    committee: u8,
                    verified: bool,
                    cards: Vec<(u32, u32)>,
                    settled: Result<TableState, PokerTableError>| {
        assert!(PokerTableContract::showdown_fits(
            paused,
            &stored,
            address(committee),
            verified,
            &public_inputs,
            &cards
        ));
        PokerTableContract::submit_showdown(
            paused,
            &stored,
            address(committee),
            verified,
            &public_inputs,
            &cards,
            settled,
        )
        .err()
    };
    let mut complete = table(GamePhase::Showdown);
    complete.dealt_indices = vec![6, 7, 8, 9, 10];
    let mut short = complete.clone();
    short.dealt_indices.pop();
    let ok = || Ok(table(GamePhase::Settlement));
    let right = || vec![(0, 0); 3];
    assert_eq!(
        showdown(Some(true), Some(complete.clone()), 2, true, right(), ok()),
        Some(PokerTableError::ContractPaused)
    );
    assert_eq!(
        showdown(None, None, 2, true, right(), ok()),
        Some(PokerTableError::TableNotFound)
    );
    assert_eq!(
        showdown(None, Some(table(GamePhase::River)), 2, true, right(), ok()),
        Some(PokerTableError::NotInShowdownPhase)
    );
    assert_eq!(
        showdown(None, Some(complete.clone()), 9, true, right(), ok()),
        Some(PokerTableError::NotAuthorizedCommittee)
    );
    assert_eq!(
        showdown(None, Some(short), 2, true, right(), ok()),
        Some(PokerTableError::BoardNotComplete)
    );
    assert_eq!(
        showdown(None, Some(complete.clone()), 2, false, right(), ok()),
        Some(PokerTableError::ShowdownProofVerificationFailed)
    );
    assert_eq!(
        showdown(None, Some(complete.clone()), 2, true, vec![(1, 0); 3], ok()),
        Some(PokerTableError::HoleCardMismatch)
    );
    assert_eq!(
        showdown(None, Some(complete.clone()), 2, true, vec![], ok()),
        Some(PokerTableError::InvalidHoleCards)
    );
    let refused = Err(PokerTableError::WinnerNotEligibleForPot);
    assert_eq!(
        showdown(None, Some(complete.clone()), 2, true, right(), refused),
        Some(PokerTableError::WinnerNotEligibleForPot)
    );
    assert_eq!(showdown(None, Some(complete), 2, true, right(), ok()), None);
}
