//! Playing a hand: dealing, betting, revealing the board and settling.
//!
//! A hand needs answers from outside the table: from the proof verifier, and
//! from the rules that deal, bet, settle and time out. Where an operation waits
//! for such an answer it comes in two parts. The first says whether to ask and
//! what; the second takes the answer and finishes.
use crate::constant_time;
use crate::table::events::TableEvent;
use crate::table::session::{derive_session_id, session_id};
use crate::table::showdown::{
    bytes_contents, extract_u32_from_public_inputs, field_value, hole_cards_fit,
    hole_cards_result, seat_fields_fit, verify_hole_cards_against_proof, TIE_MASK_FIELD,
    WINNER_FIELD,
};
use crate::table::types::{
    result_view, stored_view, Address, Bytes32, GamePhase, PokerTableError, TableState, TableView,
};
use crate::table::{
    access_error, between_hands, is_between_hands, open_table, seats_fit, view_table,
    PokerTableContract, BOARD_INDICES_COUNT,
};
use vstd::prelude::*;

verus! {

// ---------------------------------------------------------------------------
// Starting a hand
// ---------------------------------------------------------------------------

/// Why a hand may not start, if so.
pub open spec fn start_error(
    paused: Option<bool>,
    stored: Option<TableView>,
) -> Option<PokerTableError> {
    if access_error(paused, stored) is Some {
        access_error(paused, stored)
    } else if !between_hands(stored->0.phase) {
        Some(PokerTableError::HandAlreadyInProgress)
    } else if stored->0.players.len() < stored->0.config.min_players {
        Some(PokerTableError::NotEnoughPlayers)
    } else {
        None
    }
}

/// Why starting a hand fails, if so, once the dealing rules have answered.
pub open spec fn started_error(
    paused: Option<bool>,
    stored: Option<TableView>,
    dealt: Result<TableView, PokerTableError>,
) -> Option<PokerTableError> {
    if start_error(paused, stored) is Some {
        start_error(paused, stored)
    } else {
        match dealt {
            Err(e) => Some(e),
            Ok(table) => if table.players.len() < 2 {
                Some(PokerTableError::InvalidPlayerIndex)
            } else {
                None
            },
        }
    }
}

/// The table once its new hand has a session id.
pub open spec fn started_table(dealt: TableView) -> TableView {
    TableView { session_id: session_id(dealt.id, dealt.hand_number), ..dealt }
}

/// What the game hub is told when a hand starts: the session and the first two
/// players with their stacks.
#[derive(Clone, Copy, Debug, PartialEq, Eq)]
pub struct HubNotice {
    pub game_hub: Address,
    pub session_id: u32,
    pub player1: Address,
    pub player2: Address,
    pub player1_stack: i128,
    pub player2_stack: i128,
}

/// A hand that was started: what to store, tell the hub and publish.
#[derive(Debug, PartialEq, Eq)]
pub struct Started {
    pub table: TableState,
    pub notice: HubNotice,
    pub event: TableEvent,
}

impl PokerTableContract {
    /// Tells whether a new hand may be dealt.
    pub fn start_hand_check(paused: Option<bool>, stored: &Option<TableState>) -> (r: Result<
        (),
        PokerTableError,
    >)
        ensures
            r == match start_error(paused, stored_view(*stored)) {
                Some(e) => Err::<(), PokerTableError>(e),
                None => Ok(()),
            },
    {
        let table = match view_table(paused, stored) {
            Ok(table) => table,
            Err(e) => return Err(e),
        };
        if !is_between_hands(table.phase) {
            return Err(PokerTableError::HandAlreadyInProgress);
        }
        if table.players.len() < table.config.min_players as usize {
            return Err(PokerTableError::NotEnoughPlayers);
        }
        Ok(())
    }

    /// Start a new hand. Called after enough players are seated. `dealt` is what
    /// the dealing rules made of the table.
    pub fn start_hand(
        table_id: u32,
        paused: Option<bool>,
        stored: &Option<TableState>,
        dealt: Result<TableState, PokerTableError>,
    ) -> (r: Result<Started, PokerTableError>)
        ensures
            match r {
                Ok(started) => {
                    let table = dealt->Ok_0@;
                    &&& started_error(paused, stored_view(*stored), result_view(dealt)) is None
                    &&& started.table@ == started_table(table)
                    &&& started.notice == HubNotice {
                        game_hub: table.config.game_hub,
                        session_id: session_id(table.id, table.hand_number),
                        player1: table.players[0].address,
                        player2: table.players[1].address,
                        player1_stack: table.players[0].stack,
                        player2_stack: table.players[1].stack,
                    }
                    &&& started.event == TableEvent::HandStarted {
                        table_id,
                        hand_number: table.hand_number,
                    }
                },
                Err(e) => started_error(paused, stored_view(*stored), result_view(dealt)) == Some(
                    e,
                ),
            },
    {
        match Self::start_hand_check(paused, stored) {
            Ok(()) => {},
            Err(e) => return Err(e),
        }
        let mut table = match dealt {
            Ok(table) => table,
            Err(e) => return Err(e),
        };
        if table.players.len() < 2 {
            return Err(PokerTableError::InvalidPlayerIndex);
        }
        let p1 = table.players[0];
        let p2 = table.players[1];
        table.session_id = derive_session_id(table.id, table.hand_number);
        let notice = HubNotice {
            game_hub: table.config.game_hub,
            session_id: table.session_id,
            player1: p1.address,
            player2: p2.address,
            player1_stack: p1.stack,
            player2_stack: p2.stack,
        };
        let hand_number: u32 = table.hand_number;
        Ok(Started { table, notice, event: TableEvent::HandStarted { table_id, hand_number } })
    }
}

// ---------------------------------------------------------------------------
// The deal
// ---------------------------------------------------------------------------

/// Why a deal is refused before its proof is looked at, if so.
pub open spec fn deal_refusal(
    paused: Option<bool>,
    stored: Option<TableView>,
    committee: Address,
    commitments: nat,
) -> Option<PokerTableError> {
    if access_error(paused, stored) is Some {
        access_error(paused, stored)
    } else if stored->0.phase != GamePhase::Dealing {
        Some(PokerTableError::NotInDealingPhase)
    } else if committee != stored->0.committee {
        Some(PokerTableError::NotAuthorizedCommittee)
    } else if commitments != stored->0.players.len() {
        Some(PokerTableError::WrongCommitmentCount)
    } else {
        None
    }
}

/// Why a deal is refused, if so, once the verifier has answered.
pub open spec fn deal_error(
    paused: Option<bool>,
    stored: Option<TableView>,
    committee: Address,
    commitments: nat,
    verified: bool,
) -> Option<PokerTableError> {
    if deal_refusal(paused, stored, committee, commitments) is Some {
        deal_refusal(paused, stored, committee, commitments)
    } else if !verified {
        Some(PokerTableError::DealProofVerificationFailed)
    } else if stored->0.players.len() < 2 {
        Some(PokerTableError::NotEnoughPlayers)
    } else {
        None
    }
}

/// True when the sums that a deal computes fit a `u32`.
pub open spec fn deal_sums_fit(table: TableView, ledger: u32) -> bool {
    &&& table.dealer_seat + 3 <= u32::MAX
    &&& ledger + table.config.timeout_ledgers <= u32::MAX
}

/// The table once the deal is committed: betting opens with the player to the
/// left of the big blind, who has `timeout_ledgers` ledgers to act.
pub open spec fn dealt_table(
    table: TableView,
    deck_root: Bytes32,
    hand_commitments: Seq<Bytes32>,
    dealt_indices: Seq<u32>,
    ledger: u32,
) -> TableView {
    TableView {
        deck_root,
        hand_commitments,
        dealt_indices,
        phase: GamePhase::Preflop,
        last_action_ledger: ledger,
        current_turn: ((table.dealer_seat + 3) % table.players.len() as int) as u32,
        action_deadline: (ledger + table.config.timeout_ledgers) as u32,
        ..table
    }
}

/// A deal that was committed: what to store and publish.
#[derive(Debug, PartialEq, Eq)]
pub struct Dealt {
    pub table: TableState,
    pub event: TableEvent,
}

impl PokerTableContract {
    /// Tells whether a deal's proof is to be verified, and by which contract.
    pub fn commit_deal_query(
        paused: Option<bool>,
        stored: &Option<TableState>,
        committee: Address,
        commitments: usize,
    ) -> (r: Result<Address, PokerTableError>)
        ensures
            r == match deal_refusal(paused, stored_view(*stored), committee, commitments as nat) {
                Some(e) => Err::<Address, PokerTableError>(e),
                None => Ok(stored->0.config.verifier),
            },
    {
        let table = match view_table(paused, stored) {
            Ok(table) => table,
            Err(e) => return Err(e),
        };
        if !matches!(table.phase, GamePhase::Dealing) {
            return Err(PokerTableError::NotInDealingPhase);
        }
        if constant_time::address_ne(&committee, &table.committee) {
            return Err(PokerTableError::NotAuthorizedCommittee);
        }
        if commitments != table.players.len() {
            return Err(PokerTableError::WrongCommitmentCount);
        }
        Ok(table.config.verifier)
    }

    /// Tells whether `commit_deal` can be computed on these values: false when
    /// one of its sums would leave the range of a `u32`.
    pub fn commit_deal_fits(
        paused: Option<bool>,
        stored: &Option<TableState>,
        committee: Address,
        commitments: usize,
        verified: bool,
        ledger: u32,
    ) -> (r: bool)
        ensures
            r == (deal_error(
                paused,
                stored_view(*stored),
                committee,
                commitments as nat,
                verified,
            ) is None ==> deal_sums_fit(stored->0@, ledger)),
    {
        if Self::commit_deal_query(paused, stored, committee, commitments).is_err() || !verified {
            return true;
        }
        match stored {
            Some(table) => table.players.len() < 2 || (table.dealer_seat.checked_add(3).is_some()
                && ledger.checked_add(table.config.timeout_ledgers).is_some()),
            None => true,
        }
    }

    /// Committee submits deal commitment and proof. `verified` is the verifier's
    /// answer on the proof, `ledger` the current ledger sequence.
    pub fn commit_deal(
        table_id: u32,
        paused: Option<bool>,
        stored: Option<TableState>,
        committee: Address,
        deck_root: Bytes32,
        hand_commitments: Vec<Bytes32>,
        dealt_indices: Vec<u32>,
        verified: bool,
        ledger: u32,
    ) -> (r: Result<Dealt, PokerTableError>)
        requires
            seats_fit(stored_view(stored)),
            deal_error(
                paused,
                stored_view(stored),
                committee,
                hand_commitments@.len(),
                verified,
            ) is None ==> deal_sums_fit(stored->0@, ledger),
        ensures
            match r {
                Ok(dealt) => {
                    let table = stored->0@;
                    &&& deal_error(
                        paused,
                        stored_view(stored),
                        committee,
                        hand_commitments@.len(),
                        verified,
                    ) is None
                    &&& dealt.table@ == dealt_table(
                        table,
                        deck_root,
                        hand_commitments@,
                        dealt_indices@,
                        ledger,
                    )
                    &&& dealt.event matches TableEvent::DealCommitted {
                        table_id: id,
                        hand_number,
                        hand_commitments: published,
                    } && id == table_id && hand_number == table.hand_number && published@
                        == hand_commitments@
                },
                Err(e) => deal_error(
                    paused,
                    stored_view(stored),
                    committee,
                    hand_commitments@.len(),
                    verified,
                ) == Some(e),
            },
    {
        match Self::commit_deal_query(paused, &stored, committee, hand_commitments.len()) {
            Ok(_) => {},
            Err(e) => return Err(e),
        }
        let mut table = match open_table(paused, stored) {
            Ok(table) => table,
            Err(e) => return Err(e),
        };
        if !verified {
            return Err(PokerTableError::DealProofVerificationFailed);
        }
        let published: Vec<Bytes32> = hand_commitments.clone();
        assert(published@ =~= hand_commitments@);
        table.deck_root = deck_root;
        table.hand_commitments = hand_commitments;
        table.dealt_indices = dealt_indices;
        table.phase = GamePhase::Preflop;
        table.last_action_ledger = ledger;
        let num_players: u32 = table.players.len() as u32;
        if num_players < 2 {
            return Err(PokerTableError::NotEnoughPlayers);
        }
        table.current_turn = (table.dealer_seat + 3) % num_players;
        table.action_deadline = ledger + table.config.timeout_ledgers;
        let hand_number: u32 = table.hand_number;
        Ok(
            Dealt {
                table,
                event: TableEvent::DealCommitted {
                    table_id,
                    hand_number,
                    hand_commitments: published,
                },
            },
        )
    }
}

// ---------------------------------------------------------------------------
// Betting
// ---------------------------------------------------------------------------

/// True in a betting round.
pub open spec fn betting_phase(phase: GamePhase) -> bool {
    phase == GamePhase::Preflop || phase == GamePhase::Flop || phase == GamePhase::Turn || phase
        == GamePhase::River
}

/// Why no betting action is taken at all, if so.
pub open spec fn action_error(
    paused: Option<bool>,
    stored: Option<TableView>,
) -> Option<PokerTableError> {
    if access_error(paused, stored) is Some {
        access_error(paused, stored)
    } else if !betting_phase(stored->0.phase) {
        Some(PokerTableError::NotInBettingPhase)
    } else {
        None
    }
}

/// The answer of the rules of the hand, unless the operation was refused before
/// they were asked.
pub open spec fn unless_refused(
    refusal: Option<PokerTableError>,
    answer: Result<TableView, PokerTableError>,
) -> Result<TableView, PokerTableError> {
    match refusal {
        Some(e) => Err(e),
        None => answer,
    }
}

impl PokerTableContract {
    /// Tells whether the betting rules are to be asked.
    pub fn player_action_check(paused: Option<bool>, stored: &Option<TableState>) -> (r: Result<
        (),
        PokerTableError,
    >)
        ensures
            r == match action_error(paused, stored_view(*stored)) {
                Some(e) => Err::<(), PokerTableError>(e),
                None => Ok(()),
            },
    {
        let table = match view_table(paused, stored) {
            Ok(table) => table,
            Err(e) => return Err(e),
        };
        if !matches!(
            table.phase,
            GamePhase::Preflop | GamePhase::Flop | GamePhase::Turn | GamePhase::River
        ) {
            return Err(PokerTableError::NotInBettingPhase);
        }
        Ok(())
    }

    /// Player submits a betting action. `acted` is what the betting rules made
    /// of the table; the result is the table to store.
    pub fn player_action(
        paused: Option<bool>,
        stored: &Option<TableState>,
        acted: Result<TableState, PokerTableError>,
    ) -> (r: Result<TableState, PokerTableError>)
        ensures
            result_view(r) == unless_refused(
                action_error(paused, stored_view(*stored)),
                result_view(acted),
            ),
    {
        match Self::player_action_check(paused, stored) {
            Ok(()) => acted,
            Err(e) => Err(e),
        }
    }

    /// Claim timeout when opponent or committee is stalling. `processed` is what
    /// the timeout rules made of the table; the result is the table to store.
    pub fn claim_timeout(
        paused: Option<bool>,
        stored: &Option<TableState>,
        processed: Result<TableState, PokerTableError>,
    ) -> (r: Result<TableState, PokerTableError>)
        ensures
            result_view(r) == unless_refused(
                access_error(paused, stored_view(*stored)),
                result_view(processed),
            ),
    {
        match view_table(paused, stored) {
            Ok(_) => processed,
            Err(e) => Err(e),
        }
    }

    /// Force-fold a stalling player after the action deadline has passed.
    /// `folded` is what the timeout rules made of the table; the result is the
    /// table to store.
    pub fn force_fold(
        paused: Option<bool>,
        stored: &Option<TableState>,
        folded: Result<TableState, PokerTableError>,
    ) -> (r: Result<TableState, PokerTableError>)
        ensures
            result_view(r) == unless_refused(
                access_error(paused, stored_view(*stored)),
                result_view(folded),
            ),
    {
        match view_table(paused, stored) {
            Ok(_) => folded,
            Err(e) => Err(e),
        }
    }
}

// ---------------------------------------------------------------------------
// The board
// ---------------------------------------------------------------------------

/// How many community cards the committee reveals in this phase; none in a
/// phase that reveals no cards.
pub open spec fn cards_to_reveal(phase: GamePhase) -> Option<nat> {
    match phase {
        GamePhase::DealingFlop => Some(3),
        GamePhase::DealingTurn => Some(1),
        GamePhase::DealingRiver => Some(1),
        _ => None,
    }
}

/// The betting round that a reveal opens.
pub open spec fn round_after_reveal(phase: GamePhase) -> GamePhase {
    match phase {
        GamePhase::DealingFlop => GamePhase::Flop,
        GamePhase::DealingTurn => GamePhase::Turn,
        GamePhase::DealingRiver => GamePhase::River,
        _ => phase,
    }
}

/// Why a reveal is refused before its proof is looked at, if so.
pub open spec fn reveal_refusal(
    paused: Option<bool>,
    stored: Option<TableView>,
    committee: Address,
    cards: nat,
    indices: nat,
) -> Option<PokerTableError> {
    if access_error(paused, stored) is Some {
        access_error(paused, stored)
    } else if committee != stored->0.committee {
        Some(PokerTableError::NotAuthorizedCommittee)
    } else if cards_to_reveal(stored->0.phase) is None {
        Some(PokerTableError::NotInRevealPhase)
    } else if cards != cards_to_reveal(stored->0.phase)->0 || indices != cards_to_reveal(
        stored->0.phase,
    )->0 {
        Some(PokerTableError::WrongCardCount)
    } else {
        None
    }
}

/// Why a reveal is refused, if so, once the verifier has answered.
pub open spec fn reveal_error(
    paused: Option<bool>,
    stored: Option<TableView>,
    committee: Address,
    cards: nat,
    indices: nat,
    verified: bool,
) -> Option<PokerTableError> {
    if reveal_refusal(paused, stored, committee, cards, indices) is Some {
        reveal_refusal(paused, stored, committee, cards, indices)
    } else if !verified {
        Some(PokerTableError::RevealProofVerificationFailed)
    } else {
        None
    }
}

/// The table with the revealed cards on its board and the next betting round
/// open.
pub open spec fn revealed_table(
    table: TableView,
    cards: Seq<u32>,
    indices: Seq<u32>,
    ledger: u32,
) -> TableView {
    TableView {
        board_cards: table.board_cards + cards,
        dealt_indices: table.dealt_indices + indices,
        phase: round_after_reveal(table.phase),
        last_action_ledger: ledger,
        ..table
    }
}

/// What the verifier is asked about a reveal, besides the proof and the cards.
#[derive(Clone, Copy, Debug, PartialEq, Eq)]
pub struct RevealQuery {
    pub verifier: Address,
    pub deck_root: Bytes32,
}

/// Board cards that were revealed: what to store and publish.
#[derive(Debug, PartialEq, Eq)]
pub struct Revealed {
    pub table: TableState,
    pub event: TableEvent,
}

impl PokerTableContract {
    /// Tells whether a reveal's proof is to be verified, by which contract and
    /// against which deck.
    pub fn reveal_board_query(
        paused: Option<bool>,
        stored: &Option<TableState>,
        committee: Address,
        cards: usize,
        indices: usize,
    ) -> (r: Result<RevealQuery, PokerTableError>)
        ensures
            r == match reveal_refusal(
                paused,
                stored_view(*stored),
                committee,
                cards as nat,
                indices as nat,
            ) {
                Some(e) => Err::<RevealQuery, PokerTableError>(e),
                None => Ok(
                    RevealQuery {
                        verifier: stored->0.config.verifier,
                        deck_root: stored->0.deck_root,
                    },
                ),
            },
    {
        let table = match view_table(paused, stored) {
            Ok(table) => table,
            Err(e) => return Err(e),
        };
        if constant_time::address_ne(&committee, &table.committee) {
            return Err(PokerTableError::NotAuthorizedCommittee);
        }
        let expected: usize = match table.phase {
            GamePhase::DealingFlop => 3,
            GamePhase::DealingTurn => 1,
            GamePhase::DealingRiver => 1,
            _ => return Err(PokerTableError::NotInRevealPhase),
        };
        if cards != expected || indices != expected {
            return Err(PokerTableError::WrongCardCount);
        }
        Ok(RevealQuery { verifier: table.config.verifier, deck_root: table.deck_root })
    }

    /// Puts revealed cards on the board and opens the next betting round: the
    /// table that the betting rules then prepare for the round.
    pub fn reveal_board_opened(
        paused: Option<bool>,
        stored: Option<TableState>,
        committee: Address,
        cards: &Vec<u32>,
        indices: &Vec<u32>,
        verified: bool,
        ledger: u32,
    ) -> (r: Result<TableState, PokerTableError>)
        ensures
            match r {
                Ok(table) => {
                    &&& reveal_error(
                        paused,
                        stored_view(stored),
                        committee,
                        cards@.len(),
                        indices@.len(),
                        verified,
                    ) is None
                    &&& table@ == revealed_table(stored->0@, cards@, indices@, ledger)
                },
                Err(e) => reveal_error(
                    paused,
                    stored_view(stored),
                    committee,
                    cards@.len(),
                    indices@.len(),
                    verified,
                ) == Some(e),
            },
    {
        match Self::reveal_board_query(paused, &stored, committee, cards.len(), indices.len()) {
            Ok(_) => {},
            Err(e) => return Err(e),
        }
        let mut table = match open_table(paused, stored) {
            Ok(table) => table,
            Err(e) => return Err(e),
        };
        if !verified {
            return Err(PokerTableError::RevealProofVerificationFailed);
        }
        let ghost before = table@;
        let mut i: usize = 0;
        while i < cards.len()
            invariant
                i <= cards.len(),
                cards.len() == indices.len(),
                table@ == (TableView {
                    board_cards: before.board_cards + cards@.take(i as int),
                    dealt_indices: before.dealt_indices + indices@.take(i as int),
                    ..before
                }),
            decreases cards.len() - i,
        {
            table.board_cards.push(cards[i]);
            table.dealt_indices.push(indices[i]);
            assert(cards@.take(i + 1) =~= cards@.take(i as int).push(cards@[i as int]));
            assert(indices@.take(i + 1) =~= indices@.take(i as int).push(indices@[i as int]));
            i = i + 1;
        }
        assert(cards@.take(cards@.len() as int) =~= cards@);
        assert(indices@.take(indices@.len() as int) =~= indices@);
        table.phase = match table.phase {
            GamePhase::DealingFlop => GamePhase::Flop,
            GamePhase::DealingTurn => GamePhase::Turn,
            GamePhase::DealingRiver => GamePhase::River,
            _ => return Err(PokerTableError::NotInRevealPhase),
        };
        table.last_action_ledger = ledger;
        Ok(table)
    }

    /// Committee reveals board cards (flop/turn/river) with proof. `verified` is
    /// the verifier's answer on the proof, and `reset` what the betting rules
    /// made of the opened table.
    pub fn reveal_board(
        table_id: u32,
        paused: Option<bool>,
        stored: &Option<TableState>,
        committee: Address,
        cards: Vec<u32>,
        indices: Vec<u32>,
        verified: bool,
        reset: Result<TableState, PokerTableError>,
    ) -> (r: Result<Revealed, PokerTableError>)
        ensures
            match r {
                Ok(revealed) => {
                    &&& reveal_error(
                        paused,
                        stored_view(*stored),
                        committee,
                        cards@.len(),
                        indices@.len(),
                        verified,
                    ) is None
                    &&& reset == Ok::<TableState, PokerTableError>(revealed.table)
                    &&& revealed.event == TableEvent::BoardRevealed { table_id, cards, indices }
                },
                Err(e) => unless_refused(
                    reveal_error(
                        paused,
                        stored_view(*stored),
                        committee,
                        cards@.len(),
                        indices@.len(),
                        verified,
                    ),
                    result_view(reset),
                ) == Err::<TableView, PokerTableError>(e),
            },
    {
        match Self::reveal_board_query(paused, stored, committee, cards.len(), indices.len()) {
            Ok(_) => {},
            Err(e) => return Err(e),
        }
        if !verified {
            return Err(PokerTableError::RevealProofVerificationFailed);
        }
        match reset {
            Ok(table) => Ok(
                Revealed { table, event: TableEvent::BoardRevealed { table_id, cards, indices } },
            ),
            Err(e) => Err(e),
        }
    }
}

// ---------------------------------------------------------------------------
// Showdown
// ---------------------------------------------------------------------------

/// Why a showdown is refused before its proof is looked at, if so.
pub open spec fn showdown_refusal(
    paused: Option<bool>,
    stored: Option<TableView>,
    committee: Address,
) -> Option<PokerTableError> {
    if access_error(paused, stored) is Some {
        access_error(paused, stored)
    } else if stored->0.phase != GamePhase::Showdown {
        Some(PokerTableError::NotInShowdownPhase)
    } else if committee != stored->0.committee {
        Some(PokerTableError::NotAuthorizedCommittee)
    } else if stored->0.dealt_indices.len() < BOARD_INDICES_COUNT {
        Some(PokerTableError::BoardNotComplete)
    } else {
        None
    }
}

/// Why a showdown is refused, if so, once the verifier has answered.
pub open spec fn showdown_error(
    paused: Option<bool>,
    stored: Option<TableView>,
    committee: Address,
    verified: bool,
    public_inputs: Seq<u8>,
    hole_cards: Seq<(u32, u32)>,
) -> Option<PokerTableError> {
    if showdown_refusal(paused, stored, committee) is Some {
        showdown_refusal(paused, stored, committee)
    } else if !verified {
        Some(PokerTableError::ShowdownProofVerificationFailed)
    } else {
        match hole_cards_result(stored->0.players, public_inputs, hole_cards) {
            Err(e) => Some(e),
            Ok(()) => None,
        }
    }
}

/// The deck indices of the five community cards: the last ones dealt.
pub open spec fn board_indices(table: TableView) -> Seq<u32> {
    table.dealt_indices.skip(table.dealt_indices.len() - BOARD_INDICES_COUNT)
}

/// What the verifier is asked about a showdown, besides the proof.
#[derive(Debug, PartialEq, Eq)]
pub struct ShowdownQuery {
    pub verifier: Address,
    pub hand_commitments: Vec<Bytes32>,
    pub board_indices: Vec<u32>,
    pub deck_root: Bytes32,
}

/// The outcome that the showdown proof established.
#[derive(Clone, Copy, Debug, PartialEq, Eq)]
pub struct ProvedOutcome {
    pub winner_index: u32,
    pub tie_mask: u32,
}

impl PokerTableContract {
    /// Tells whether a showdown's proof is to be verified, by which contract and
    /// against which commitments, board and deck.
    pub fn submit_showdown_query(
        paused: Option<bool>,
        stored: &Option<TableState>,
        committee: Address,
    ) -> (r: Result<ShowdownQuery, PokerTableError>)
        ensures
            match r {
                Ok(query) => {
                    let table = stored->0@;
                    &&& showdown_refusal(paused, stored_view(*stored), committee) is None
                    &&& query.verifier == table.config.verifier
                    &&& query.hand_commitments@ == table.hand_commitments
                    &&& query.board_indices@ == board_indices(table)
                    &&& query.deck_root == table.deck_root
                },
                Err(e) => showdown_refusal(paused, stored_view(*stored), committee) == Some(e),
            },
    {
        let table = match view_table(paused, stored) {
            Ok(table) => table,
            Err(e) => return Err(e),
        };
        if !matches!(table.phase, GamePhase::Showdown) {
            return Err(PokerTableError::NotInShowdownPhase);
        }
        if constant_time::address_ne(&committee, &table.committee) {
            return Err(PokerTableError::NotAuthorizedCommittee);
        }
        if table.dealt_indices.len() < BOARD_INDICES_COUNT as usize {
            return Err(PokerTableError::BoardNotComplete);
        }
        let board_start: usize = table.dealt_indices.len() - BOARD_INDICES_COUNT as usize;
        let mut board: Vec<u32> = Vec::new();
        let mut i: usize = board_start;
        while i < table.dealt_indices.len()
            invariant
                board_start <= i <= table.dealt_indices.len(),
                board@ == table.dealt_indices@.subrange(board_start as int, i as int),
            decreases table.dealt_indices.len() - i,
        {
            board.push(table.dealt_indices[i]);
            assert(table.dealt_indices@.subrange(board_start as int, i + 1)
                =~= table.dealt_indices@.subrange(board_start as int, i as int).push(
                table.dealt_indices@[i as int],
            ));
            i = i + 1;
        }
        let hand_commitments: Vec<Bytes32> = table.hand_commitments.clone();
        assert(hand_commitments@ =~= table.hand_commitments@);
        assert(board@ =~= board_indices(table@));
        Ok(
            ShowdownQuery {
                verifier: table.config.verifier,
                hand_commitments,
                board_indices: board,
                deck_root: table.deck_root,
            },
        )
    }

    /// Tells whether `showdown_outcome` and `submit_showdown` can be computed on
    /// these values: false when they would look for a seat's cards at a position
    /// that is no `u32`.
    pub fn showdown_fits(
        paused: Option<bool>,
        stored: &Option<TableState>,
        committee: Address,
        verified: bool,
        public_inputs: &soroban_sdk::Bytes,
        hole_cards: &Vec<(u32, u32)>,
    ) -> (r: bool)
        ensures
            r == (showdown_refusal(paused, stored_view(*stored), committee) is None && verified
                ==> seat_fields_fit(
                stored->0.players@,
                bytes_contents(*public_inputs),
                hole_cards@,
            )),
    {
        if Self::submit_showdown_query(paused, stored, committee).is_err() || !verified {
            return true;
        }
        match stored {
            Some(table) => hole_cards_fit(table, public_inputs, hole_cards),
            None => true,
        }
    }

    /// The winner that the proof established, once the submitted hole cards have
    /// been held against it. The circuit proved this winner; hands are not
    /// evaluated again.
    pub fn showdown_outcome(
        paused: Option<bool>,
        stored: &Option<TableState>,
        committee: Address,
        verified: bool,
        public_inputs: &soroban_sdk::Bytes,
        hole_cards: &Vec<(u32, u32)>,
    ) -> (r: Result<ProvedOutcome, PokerTableError>)
        requires
            showdown_refusal(paused, stored_view(*stored), committee) is None && verified
                ==> seat_fields_fit(
                stored->0.players@,
                bytes_contents(*public_inputs),
                hole_cards@,
            ),
        ensures
            match r {
                Ok(outcome) => {
                    let contents = bytes_contents(*public_inputs);
                    &&& showdown_error(
                        paused,
                        stored_view(*stored),
                        committee,
                        verified,
                        contents,
                        hole_cards@,
                    ) is None
                    &&& outcome.winner_index == field_value(contents, WINNER_FIELD as int)
                    &&& outcome.tie_mask == field_value(contents, TIE_MASK_FIELD as int)
                },
                Err(e) => showdown_error(
                    paused,
                    stored_view(*stored),
                    committee,
                    verified,
                    bytes_contents(*public_inputs),
                    hole_cards@,
                ) == Some(e),
            },
    {
        match Self::submit_showdown_query(paused, stored, committee) {
            Ok(_) => {},
            Err(e) => return Err(e),
        }
        let table = match view_table(paused, stored) {
            Ok(table) => table,
            Err(e) => return Err(e),
        };
        if !verified {
            return Err(PokerTableError::ShowdownProofVerificationFailed);
        }
        let winner_index: u32 = extract_u32_from_public_inputs(public_inputs, WINNER_FIELD);
        let tie_mask: u32 = extract_u32_from_public_inputs(public_inputs, TIE_MASK_FIELD);
        match verify_hole_cards_against_proof(table, public_inputs, hole_cards) {
            Ok(()) => Ok(ProvedOutcome { winner_index, tie_mask }),
            Err(e) => Err(e),
        }
    }

    /// Submit showdown: reveal hole cards, verify winner, settle. `settled` is
    /// what the settlement rules made of the table with the proved outcome; the
    /// result is the table to store.
    pub fn submit_showdown(
        paused: Option<bool>,
        stored: &Option<TableState>,
        committee: Address,
        verified: bool,
        public_inputs: &soroban_sdk::Bytes,
        hole_cards: &Vec<(u32, u32)>,
        settled: Result<TableState, PokerTableError>,
    ) -> (r: Result<TableState, PokerTableError>)
        requires
            showdown_refusal(paused, stored_view(*stored), committee) is None && verified
                ==> seat_fields_fit(
                stored->0.players@,
                bytes_contents(*public_inputs),
                hole_cards@,
            ),
        ensures
            result_view(r) == unless_refused(
                showdown_error(
                    paused,
                    stored_view(*stored),
                    committee,
                    verified,
                    bytes_contents(*public_inputs),
                    hole_cards@,
                ),
                result_view(settled),
            ),
    {
        match Self::showdown_outcome(
            paused,
            stored,
            committee,
            verified,
            public_inputs,
            hole_cards,
        ) {
            Ok(_) => settled,
            Err(e) => Err(e),
        }
    }
}

} // verus!
