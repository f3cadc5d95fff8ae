//! Playing a hand: dealing, betting, revealing the board and settling.
use crate::guarantees::{
    open, same_but_seats, same_cards, same_hand, same_pots, same_seats, same_table, same_times,
};
use crate::sequences::{filter_next, filter_none};
use crate::table::events::TableEvent;
use crate::table::play::{Dealt, ProvedOutcome, RevealQuery, Revealed, ShowdownQuery, Started};
use crate::table::session::derive_session_id;
use crate::table::showdown::{
    bytes_contents, cards_proved, extract_u32_from_public_inputs, field_value, hole_cards_fit,
    in_hand, proved_up_to, verify_hole_cards_against_proof,
};
use crate::table::types::{
    Address, Bytes32, GamePhase, PlayerState, PokerTableError, TableState,
};
use crate::table::PokerTableContract;
use vstd::prelude::*;

verus! {

// ---------------------------------------------------------------------------
// Starting a hand
// ---------------------------------------------------------------------------

/// A hand may start exactly when the table is open, no hand is on, and as many
/// players sit as the table asks for.
pub proof fn hand_may_start(
    paused: Option<bool>,
    stored: Option<TableState>,
    r: Result<(), PokerTableError>,
)
    requires
        call_ensures(PokerTableContract::start_hand_check, (paused, &stored), r),
    ensures
        r == Err::<(), PokerTableError>(PokerTableError::ContractPaused) <==> paused == Some(true),
        r == Err::<(), PokerTableError>(PokerTableError::TableNotFound) <==> paused != Some(true)
            && stored is None,
        open(paused, stored) ==> {
            let table = stored->0;
            let between = table.phase == GamePhase::Waiting || table.phase == GamePhase::Settlement;
            let enough = table.players@.len() >= table.config.min_players;
            &&& r == Err::<(), PokerTableError>(PokerTableError::HandAlreadyInProgress)
                <==> !between
            &&& r == Err::<(), PokerTableError>(PokerTableError::NotEnoughPlayers) <==> between
                && !enough
            &&& r is Ok <==> between && enough
        },
{
}

/// Once the minimum has been raised above the number of players, no hand starts.
pub proof fn raised_minimum_stops_hands(
    table_id: u32,
    stored: Option<TableState>,
    min_players: u32,
    changed: Result<crate::table::admin::ConfigChange, PokerTableError>,
    r: Result<(), PokerTableError>,
)
    requires
        call_ensures(PokerTableContract::set_min_players, (table_id, stored, min_players), changed),
        changed is Ok,
        call_ensures(
            PokerTableContract::start_hand_check,
            (None, &Some(changed->Ok_0.table)),
            r,
        ),
        stored->0.players@.len() < min_players,
    ensures
        r == Err::<(), PokerTableError>(PokerTableError::NotEnoughPlayers),
{
    assert(changed->Ok_0.table@.players == changed->Ok_0.table.players@);
}

/// A hand starts when it may and the dealing rules agree. The table is theirs but
/// for the session id, and the hub hears of that session, of the first two players
/// and of their stacks.
pub proof fn hand_starts(
    table_id: u32,
    paused: Option<bool>,
    stored: Option<TableState>,
    dealt: Result<TableState, PokerTableError>,
    may: Result<(), PokerTableError>,
    session: u32,
    r: Result<Started, PokerTableError>,
)
    requires
        call_ensures(PokerTableContract::start_hand, (table_id, paused, &stored, dealt), r),
        call_ensures(PokerTableContract::start_hand_check, (paused, &stored), may),
        dealt is Ok ==> call_ensures(
            derive_session_id,
            (dealt->Ok_0.id, dealt->Ok_0.hand_number),
            session,
        ),
    ensures
        may is Err ==> r == Err::<Started, PokerTableError>(may->Err_0),
        may is Ok && dealt is Err ==> r == Err::<Started, PokerTableError>(dealt->Err_0),
        may is Ok && dealt is Ok && dealt->Ok_0.players@.len() < 2 ==> r == Err::<
            Started,
            PokerTableError,
        >(PokerTableError::InvalidPlayerIndex),
        may is Ok && dealt is Ok && dealt->Ok_0.players@.len() >= 2 ==> r is Ok,
        r is Ok ==> {
            let table = dealt->Ok_0;
            let started = r->Ok_0;
            let (first, second) = (table.players@[0], table.players@[1]);
            &&& same_table(started.table, table)
            &&& started.table.config == table.config
            &&& started.table.phase == table.phase
            &&& same_seats(started.table, table)
            &&& same_pots(started.table, table)
            &&& same_cards(started.table, table)
            &&& same_times(started.table, table)
            &&& started.table.hand_number == table.hand_number
            &&& started.table.hand_actions@ == table.hand_actions@
            &&& started.table.session_id == session
            &&& started.notice.session_id == session
            &&& started.notice.game_hub == table.config.game_hub
            &&& started.notice.player1 == first.address
            &&& started.notice.player2 == second.address
            &&& started.notice.player1_stack == first.stack
            &&& started.notice.player2_stack == second.stack
            &&& started.event == (TableEvent::HandStarted {
                table_id,
                hand_number: table.hand_number,
            })
        },
{
}

/// The bits of the session id of a hand: the table id and the hand number with its
/// halves exchanged, multiplied and folded twice, modulo 2^32.
pub proof fn session_id_is_mixed(table_id: u32, hand_number: u32, id: u32)
    requires
        call_ensures(derive_session_id, (table_id, hand_number), id),
    ensures
        exists|seed: u32, first: u32, folded: u32, second: u32|
            {
                &&& seed == table_id ^ ((hand_number << 16u32) | (hand_number >> 16u32))
                &&& first as int == (seed * 0x9E37_79B1) % 0x1_0000_0000
                &&& folded == first ^ (first >> 16u32)
                &&& second as int == (folded * 0x85EB_CA6B) % 0x1_0000_0000
                &&& id == #[trigger] mixed(seed, first, folded, second)
            },
{
    let seed = table_id ^ ((hand_number << 16u32) | (hand_number >> 16u32));
    let first = ((seed * 0x9E37_79B1) % 0x1_0000_0000) as u32;
    let folded = first ^ (first >> 16u32);
    let second = ((folded * 0x85EB_CA6B) % 0x1_0000_0000) as u32;
    assert(id == mixed(seed, first, folded, second));
}

/// The last step of mixing.
pub open spec fn mixed(seed: u32, first: u32, folded: u32, second: u32) -> u32 {
    second ^ (second >> 13u32)
}

// ---------------------------------------------------------------------------
// The deal
// ---------------------------------------------------------------------------

/// The next seat around a table of `n` seats.
pub open spec fn next_seat(seat: int, n: int) -> int {
    if seat == n - 1 {
        0
    } else {
        seat + 1
    }
}

/// A deal is looked at exactly when the table is dealing, the caller is its
/// committee and there is one commitment for each player. Its verifier is asked.
pub proof fn deal_is_looked_at(
    paused: Option<bool>,
    stored: Option<TableState>,
    committee: Address,
    commitments: usize,
    r: Result<Address, PokerTableError>,
)
    requires
        call_ensures(
            PokerTableContract::commit_deal_query,
            (paused, &stored, committee, commitments),
            r,
        ),
    ensures
        r == Err::<Address, PokerTableError>(PokerTableError::ContractPaused) <==> paused == Some(
            true,
        ),
        r == Err::<Address, PokerTableError>(PokerTableError::TableNotFound) <==> paused != Some(
            true,
        ) && stored is None,
        open(paused, stored) ==> {
            let table = stored->0;
            let dealing = table.phase == GamePhase::Dealing;
            let member = committee == table.committee;
            let complete = commitments == table.players@.len();
            &&& r == Err::<Address, PokerTableError>(PokerTableError::NotInDealingPhase)
                <==> !dealing
            &&& r == Err::<Address, PokerTableError>(PokerTableError::NotAuthorizedCommittee)
                <==> dealing && !member
            &&& r == Err::<Address, PokerTableError>(PokerTableError::WrongCommitmentCount)
                <==> dealing && member && !complete
            &&& r is Ok <==> dealing && member && complete
            &&& r is Ok ==> r->Ok_0 == table.config.verifier
        },
{
}

/// A deal that is looked at and verified, with two players or more, opens the
/// first betting round with the third seat after the button. That player has the
/// table's timeout to act.
pub proof fn deal_opens_the_betting(
    table_id: u32,
    paused: Option<bool>,
    stored: Option<TableState>,
    committee: Address,
    deck_root: Bytes32,
    hand_commitments: Vec<Bytes32>,
    dealt_indices: Vec<u32>,
    verified: bool,
    ledger: u32,
    looked: Result<Address, PokerTableError>,
    r: Result<Dealt, PokerTableError>,
)
    requires
        call_ensures(
            PokerTableContract::commit_deal,
            (
                table_id,
                paused,
                stored,
                committee,
                deck_root,
                hand_commitments,
                dealt_indices,
                verified,
                ledger,
            ),
            r,
        ),
        call_ensures(
            PokerTableContract::commit_deal_query,
            (paused, &stored, committee, hand_commitments@.len() as usize),
            looked,
        ),
        hand_commitments@.len() <= usize::MAX,
    ensures
        looked is Err ==> r == Err::<Dealt, PokerTableError>(looked->Err_0),
        looked is Ok && !verified ==> r == Err::<Dealt, PokerTableError>(
            PokerTableError::DealProofVerificationFailed,
        ),
        looked is Ok && verified && stored->0.players@.len() < 2 ==> r == Err::<
            Dealt,
            PokerTableError,
        >(PokerTableError::NotEnoughPlayers),
        looked is Ok && verified && stored->0.players@.len() >= 2 ==> r is Ok,
        r is Ok ==> {
            let table = stored->0;
            let dealt = r->Ok_0;
            let after = dealt.table;
            let n = table.players@.len() as int;
            &&& same_table(after, table)
            &&& after.config == table.config
            &&& same_pots(after, table)
            &&& same_hand(after, table)
            &&& after.players@ == table.players@
            &&& after.dealer_seat == table.dealer_seat
            &&& after.board_cards@ == table.board_cards@
            &&& after.phase == GamePhase::Preflop
            &&& after.deck_root == deck_root
            &&& after.hand_commitments@ == hand_commitments@
            &&& after.dealt_indices@ == dealt_indices@
            &&& after.last_action_ledger == ledger
            &&& ledger + table.config.timeout_ledgers <= u32::MAX ==> after.action_deadline
                - ledger == table.config.timeout_ledgers
            &&& table.dealer_seat < n && n <= u32::MAX ==> after.current_turn == next_seat(
                next_seat(next_seat(table.dealer_seat as int, n), n),
                n,
            )
            &&& n <= u32::MAX ==> after.current_turn < n && (table.dealer_seat + 3
                - after.current_turn) % n == 0
            &&& dealt.event matches TableEvent::DealCommitted {
                table_id: id,
                hand_number,
                hand_commitments: published,
            } && id == table_id && hand_number == table.hand_number && published@
                == hand_commitments@
        },
{
    if r is Ok {
        let table = stored->0;
        let n = table.players@.len() as int;
        let d = table.dealer_seat as int;
        vstd::arithmetic::div_mod::lemma_mod_bound(d + 3, n);
        vstd::arithmetic::div_mod::lemma_fundamental_div_mod(d + 3, n);
        vstd::arithmetic::div_mod::lemma_mod_multiples_basic((d + 3) / n, n);
        assert(d + 3 - (d + 3) % n == ((d + 3) / n) * n) by (nonlinear_arith)
            requires
                d + 3 == n * ((d + 3) / n) + (d + 3) % n,
        ;
        if d < n {
            if d + 3 < n {
                vstd::arithmetic::div_mod::lemma_small_mod((d + 3) as nat, n as nat);
            } else if d + 3 < 2 * n {
                vstd::arithmetic::div_mod::lemma_small_mod((d + 3 - n) as nat, n as nat);
                vstd::arithmetic::div_mod::lemma_mod_multiples_vanish(1, d + 3 - n, n);
            } else {
                assert(n == 2 && d == 1);
                assert(4int % 2 == 0);
            }
        }
    }
}

/// A deal can be computed exactly when the turn and the deadline have a place in
/// their types, or nothing comes to them.
pub proof fn dealing_is_in_range(
    paused: Option<bool>,
    stored: Option<TableState>,
    committee: Address,
    commitments: usize,
    verified: bool,
    ledger: u32,
    looked: Result<Address, PokerTableError>,
    fits: bool,
)
    requires
        call_ensures(
            PokerTableContract::commit_deal_fits,
            (paused, &stored, committee, commitments, verified, ledger),
            fits,
        ),
        call_ensures(
            PokerTableContract::commit_deal_query,
            (paused, &stored, committee, commitments),
            looked,
        ),
    ensures
        fits <==> (looked is Ok && verified && stored->0.players@.len() >= 2
            ==> stored->0.dealer_seat + 3 <= u32::MAX && ledger
            + stored->0.config.timeout_ledgers <= u32::MAX),
{
}

// ---------------------------------------------------------------------------
// Betting and timeouts
// ---------------------------------------------------------------------------

/// The betting rules are asked exactly in the four betting rounds of an open
/// table, and their answer is what is stored.
pub proof fn bets_are_taken_in_betting_rounds(
    paused: Option<bool>,
    stored: Option<TableState>,
    acted: Result<TableState, PokerTableError>,
    may: Result<(), PokerTableError>,
    r: Result<TableState, PokerTableError>,
)
    requires
        call_ensures(PokerTableContract::player_action_check, (paused, &stored), may),
        call_ensures(PokerTableContract::player_action, (paused, &stored, acted), r),
    ensures
        may == Err::<(), PokerTableError>(PokerTableError::ContractPaused) <==> paused == Some(
            true,
        ),
        may == Err::<(), PokerTableError>(PokerTableError::TableNotFound) <==> paused != Some(true)
            && stored is None,
        open(paused, stored) ==> {
            let phase = stored->0.phase;
            let betting = phase == GamePhase::Preflop || phase == GamePhase::Flop || phase
                == GamePhase::Turn || phase == GamePhase::River;
            &&& may is Ok <==> betting
            &&& may == Err::<(), PokerTableError>(PokerTableError::NotInBettingPhase) <==> !betting
        },
        may is Err ==> r == Err::<TableState, PokerTableError>(may->Err_0),
        may is Ok ==> answered(acted, r),
{
}

/// True when an operation gave what the rules of the hand answered.
pub open spec fn answered(
    answer: Result<TableState, PokerTableError>,
    r: Result<TableState, PokerTableError>,
) -> bool {
    match (answer, r) {
        (Ok(table), Ok(after)) => {
            &&& same_but_seats(after, table)
            &&& same_seats(after, table)
        },
        (Err(e), Err(given)) => e == given,
        _ => false,
    }
}

/// The timeout rules are asked at every open table, and their answer is what is
/// stored.
pub proof fn timeouts_are_passed_on(
    paused: Option<bool>,
    stored: Option<TableState>,
    answer: Result<TableState, PokerTableError>,
    r: Result<TableState, PokerTableError>,
)
    requires
        call_ensures(PokerTableContract::claim_timeout, (paused, &stored, answer), r)
            || call_ensures(PokerTableContract::force_fold, (paused, &stored, answer), r),
    ensures
        paused == Some(true) ==> r == Err::<TableState, PokerTableError>(
            PokerTableError::ContractPaused,
        ),
        paused != Some(true) && stored is None ==> r == Err::<TableState, PokerTableError>(
            PokerTableError::TableNotFound,
        ),
        open(paused, stored) ==> answered(answer, r),
{
}

// ---------------------------------------------------------------------------
// The board
// ---------------------------------------------------------------------------

/// A reveal is looked at exactly when the caller is the table's committee and
/// brings three cards for the flop, or one for the turn or the river, with as many
/// deck positions. The table's verifier is asked, against its deck.
pub proof fn reveal_is_looked_at(
    paused: Option<bool>,
    stored: Option<TableState>,
    committee: Address,
    cards: usize,
    indices: usize,
    r: Result<RevealQuery, PokerTableError>,
)
    requires
        call_ensures(
            PokerTableContract::reveal_board_query,
            (paused, &stored, committee, cards, indices),
            r,
        ),
    ensures
        r == Err::<RevealQuery, PokerTableError>(PokerTableError::ContractPaused) <==> paused
            == Some(true),
        r == Err::<RevealQuery, PokerTableError>(PokerTableError::TableNotFound) <==> paused
            != Some(true) && stored is None,
        open(paused, stored) ==> {
            let table = stored->0;
            let member = committee == table.committee;
            let flop = table.phase == GamePhase::DealingFlop;
            let later = table.phase == GamePhase::DealingTurn || table.phase
                == GamePhase::DealingRiver;
            let complete = (flop && cards == 3 && indices == 3) || (later && cards == 1 && indices
                == 1);
            &&& r == Err::<RevealQuery, PokerTableError>(PokerTableError::NotAuthorizedCommittee)
                <==> !member
            &&& r == Err::<RevealQuery, PokerTableError>(PokerTableError::NotInRevealPhase)
                <==> member && !flop && !later
            &&& r == Err::<RevealQuery, PokerTableError>(PokerTableError::WrongCardCount)
                <==> member && (flop || later) && !complete
            &&& r is Ok <==> member && complete
            &&& r is Ok ==> r->Ok_0.verifier == table.config.verifier && r->Ok_0.deck_root
                == table.deck_root
        },
{
}

/// A reveal that is looked at and verified puts its cards behind those on the
/// board and its positions behind those dealt, and opens the betting round of its
/// street. Nothing else changes before the betting rules prepare the round.
pub proof fn reveal_extends_the_board(
    paused: Option<bool>,
    stored: Option<TableState>,
    committee: Address,
    cards: Vec<u32>,
    indices: Vec<u32>,
    verified: bool,
    ledger: u32,
    looked: Result<RevealQuery, PokerTableError>,
    r: Result<TableState, PokerTableError>,
)
    requires
        call_ensures(
            PokerTableContract::reveal_board_opened,
            (paused, stored, committee, &cards, &indices, verified, ledger),
            r,
        ),
        call_ensures(
            PokerTableContract::reveal_board_query,
            (paused, &stored, committee, cards@.len() as usize, indices@.len() as usize),
            looked,
        ),
        cards@.len() <= usize::MAX,
        indices@.len() <= usize::MAX,
    ensures
        looked is Err ==> r == Err::<TableState, PokerTableError>(looked->Err_0),
        looked is Ok && !verified ==> r == Err::<TableState, PokerTableError>(
            PokerTableError::RevealProofVerificationFailed,
        ),
        looked is Ok && verified ==> r is Ok,
        r is Ok ==> {
            let table = stored->0;
            let after = r->Ok_0;
            &&& same_table(after, table)
            &&& after.config == table.config
            &&& same_seats(after, table)
            &&& same_pots(after, table)
            &&& same_hand(after, table)
            &&& after.action_deadline == table.action_deadline
            &&& after.last_action_ledger == ledger
            &&& after.deck_root == table.deck_root
            &&& after.hand_commitments@ == table.hand_commitments@
            &&& after.board_cards@ == table.board_cards@ + cards@
            &&& after.dealt_indices@ == table.dealt_indices@ + indices@
            &&& table.phase == GamePhase::DealingFlop ==> after.phase == GamePhase::Flop
            &&& table.phase == GamePhase::DealingTurn ==> after.phase == GamePhase::Turn
            &&& table.phase == GamePhase::DealingRiver ==> after.phase == GamePhase::River
        },
{
}

/// A reveal ends with what the betting rules made of the opened table, and its
/// cards and positions are published.
pub proof fn reveal_is_published(
    table_id: u32,
    paused: Option<bool>,
    stored: Option<TableState>,
    committee: Address,
    cards: Vec<u32>,
    indices: Vec<u32>,
    verified: bool,
    reset: Result<TableState, PokerTableError>,
    looked: Result<RevealQuery, PokerTableError>,
    r: Result<Revealed, PokerTableError>,
)
    requires
        call_ensures(
            PokerTableContract::reveal_board,
            (table_id, paused, &stored, committee, cards, indices, verified, reset),
            r,
        ),
        call_ensures(
            PokerTableContract::reveal_board_query,
            (paused, &stored, committee, cards@.len() as usize, indices@.len() as usize),
            looked,
        ),
        cards@.len() <= usize::MAX,
        indices@.len() <= usize::MAX,
    ensures
        looked is Err ==> r == Err::<Revealed, PokerTableError>(looked->Err_0),
        looked is Ok && !verified ==> r == Err::<Revealed, PokerTableError>(
            PokerTableError::RevealProofVerificationFailed,
        ),
        looked is Ok && verified && reset is Err ==> r == Err::<Revealed, PokerTableError>(
            reset->Err_0,
        ),
        looked is Ok && verified && reset is Ok ==> {
            &&& r is Ok
            &&& r->Ok_0.table == reset->Ok_0
            &&& r->Ok_0.event == (TableEvent::BoardRevealed { table_id, cards, indices })
        },
{
}

// ---------------------------------------------------------------------------
// Showdown
// ---------------------------------------------------------------------------

/// Byte `i` of a byte string, 0 past its end.
pub open spec fn byte_of(contents: Seq<u8>, i: int) -> int {
    if i < contents.len() {
        contents[i] as int
    } else {
        0
    }
}

/// True when a field of 32 bytes ends in the four bytes of `n`, the most
/// significant first.
pub open spec fn field_holds(contents: Seq<u8>, field: int, n: int) -> bool {
    let end = 32 * field + 31;
    n == byte_of(contents, end) + 256 * (byte_of(contents, end - 1) + 256 * (byte_of(
        contents,
        end - 2,
    ) + 256 * byte_of(contents, end - 3)))
}

/// A small integer is read from the last four bytes of its field.
pub proof fn field_is_read(public_inputs: soroban_sdk::Bytes, field: u32, r: u32)
    requires
        call_ensures(extract_u32_from_public_inputs, (&public_inputs, field), r),
    ensures
        field_holds(bytes_contents(public_inputs), field as int, r as int),
{
}

/// How many of the first `i` players have not folded.
pub open spec fn still_in(players: Seq<PlayerState>, i: int) -> int
    decreases i,
{
    if i <= 0 {
        0
    } else {
        still_in(players, i - 1) + if players[i - 1].folded {
            0int
        } else {
            1int
        }
    }
}

/// True when a pair of cards was submitted for the player in position `i`: as many
/// pairs come before it as players before them have not folded.
pub open spec fn has_pair(players: Seq<PlayerState>, cards: Seq<(u32, u32)>, i: int) -> bool {
    still_in(players, i) < cards.len()
}

/// True when the pair submitted for the player in position `i` is the one that the
/// proof shows for their seat: the first card in field 13, the second in field 19,
/// each counted on by the seat.
pub open spec fn pair_is_proved(
    players: Seq<PlayerState>,
    contents: Seq<u8>,
    cards: Seq<(u32, u32)>,
    i: int,
) -> bool {
    let pair = cards[still_in(players, i)];
    &&& has_pair(players, cards, i)
    &&& field_holds(contents, 13 + players[i].seat_index, pair.0 as int)
    &&& field_holds(contents, 19 + players[i].seat_index, pair.1 as int)
}

/// Players who have not folded, in order, are those that the filter keeps.
proof fn active_in_order(players: Seq<PlayerState>, n: int)
    requires
        0 <= n <= players.len(),
    ensures
        players.take(n).filter(in_hand()).len() == still_in(players, n),
        0 <= still_in(players, n) <= n,
        forall|i: int|
            0 <= i < n && !(#[trigger] players[i]).folded ==> 0 <= still_in(players, i)
                < still_in(players, n) && players.take(n).filter(in_hand())[still_in(players, i)]
                == players[i],
        forall|i: int| 0 <= i <= n ==> #[trigger] still_in(players, i) <= still_in(players, n),
    decreases n,
{
    if n == 0 {
        filter_none(players, in_hand());
    } else {
        active_in_order(players, n - 1);
        filter_next(players, n - 1, in_hand());
    }
}

/// Each kept player stands at one position.
proof fn active_has_position(players: Seq<PlayerState>, n: int, k: int) -> (i: int)
    requires
        0 <= n <= players.len(),
        0 <= k < still_in(players, n),
    ensures
        0 <= i < n,
        !players[i].folded,
        still_in(players, i) == k,
    decreases n,
{
    if !players[n - 1].folded && still_in(players, n - 1) == k {
        n - 1
    } else {
        active_has_position(players, n - 1, k)
    }
}

/// A field value is what the field holds.
proof fn field_value_is_held(contents: Seq<u8>, field: int, n: int)
    requires
        field >= 0,
    ensures
        field_value(contents, field) == n <==> field_holds(contents, field, n),
{
}

/// The hole cards pass exactly when some player has not folded and every player
/// who has not, all-in or not, was given the pair that the proof shows for their
/// seat. They are a mismatch when the first player without such a pair was given
/// another, and invalid when that player was given none or nobody is left.
pub proof fn hole_cards_are_held_against_the_proof(
    table: TableState,
    public_inputs: soroban_sdk::Bytes,
    hole_cards: Vec<(u32, u32)>,
    r: Result<(), PokerTableError>,
)
    requires
        call_ensures(verify_hole_cards_against_proof, (&table, &public_inputs, &hole_cards), r),
    ensures
        ({
            let players = table.players@;
            let contents = bytes_contents(public_inputs);
            let cards = hole_cards@;
            &&& r is Ok <==> {
                &&& exists|i: int| 0 <= i < players.len() && !(#[trigger] players[i]).folded
                &&& forall|i: int|
                    0 <= i < players.len() && !(#[trigger] players[i]).folded ==> pair_is_proved(
                        players,
                        contents,
                        cards,
                        i,
                    )
            }
            &&& r == Err::<(), PokerTableError>(PokerTableError::HoleCardMismatch)
                <==> exists|i: int|
                {
                    &&& 0 <= i < players.len()
                    &&& !(#[trigger] players[i]).folded
                    &&& has_pair(players, cards, i)
                    &&& !pair_is_proved(players, contents, cards, i)
                    &&& forall|j: int|
                        0 <= j < i && !(#[trigger] players[j]).folded ==> pair_is_proved(
                            players,
                            contents,
                            cards,
                            j,
                        )
                }
            &&& r is Err && r->Err_0 != PokerTableError::HoleCardMismatch ==> r->Err_0
                == PokerTableError::InvalidHoleCards
        }),
{
    let players = table.players@;
    let contents = bytes_contents(public_inputs);
    let cards = hole_cards@;
    let active = players.filter(in_hand());
    let n = players.len() as int;
    active_in_order(players, n);
    assert(players.take(n) =~= players);
    assert forall|i: int| 0 <= i < n && !(#[trigger] players[i]).folded implies (
    pair_is_proved(players, contents, cards, i) <==> still_in(players, i) < cards.len()
        && cards_proved(contents, active[still_in(players, i)].seat_index, cards[still_in(
        players,
        i,
    )])) by {
        let pair = cards[still_in(players, i)];
        field_value_is_held(contents, 13 + players[i].seat_index, pair.0 as int);
        field_value_is_held(contents, 19 + players[i].seat_index, pair.1 as int);
    }
    // What is proved of the first players is proved of the first kept ones.
    assert forall|i: int| 0 <= i < n && !(#[trigger] players[i]).folded implies (proved_up_to(
        active,
        contents,
        cards,
        still_in(players, i),
    ) <==> forall|j: int|
        0 <= j < i && !(#[trigger] players[j]).folded ==> pair_is_proved(
            players,
            contents,
            cards,
            j,
        )) by {
        proved_in_both_ways(players, contents, cards, i);
    }
    proved_in_both_ways(players, contents, cards, n);
    if active.len() == 0 {
        assert forall|i: int| 0 <= i < n implies (#[trigger] players[i]).folded by {}
    } else {
        let i = active_has_position(players, n, 0);
        assert(!players[i].folded);
    }
    if exists|k: int|
        0 <= k < active.len() && k < cards.len() && #[trigger] proved_up_to(
            active,
            contents,
            cards,
            k,
        ) && !cards_proved(contents, active[k].seat_index, cards[k]) {
        let k = choose|k: int|
            0 <= k < active.len() && k < cards.len() && #[trigger] proved_up_to(
                active,
                contents,
                cards,
                k,
            ) && !cards_proved(contents, active[k].seat_index, cards[k]);
        let i = active_has_position(players, n, k);
        assert(!players[i].folded && has_pair(players, cards, i) && !pair_is_proved(
            players,
            contents,
            cards,
            i,
        ));
        assert(!proved_up_to(active, contents, cards, active.len() as int));
    }
    if exists|i: int|
        {
            &&& 0 <= i < players.len()
            &&& !(#[trigger] players[i]).folded
            &&& has_pair(players, cards, i)
            &&& !pair_is_proved(players, contents, cards, i)
            &&& forall|j: int|
                0 <= j < i && !(#[trigger] players[j]).folded ==> pair_is_proved(
                    players,
                    contents,
                    cards,
                    j,
                )
        } {
        let i = choose|i: int|
            {
                &&& 0 <= i < players.len()
                &&& !(#[trigger] players[i]).folded
                &&& has_pair(players, cards, i)
                &&& !pair_is_proved(players, contents, cards, i)
                &&& forall|j: int|
                    0 <= j < i && !(#[trigger] players[j]).folded ==> pair_is_proved(
                        players,
                        contents,
                        cards,
                        j,
                    )
            };
        let k = still_in(players, i);
        assert(proved_up_to(active, contents, cards, k));
        assert(!cards_proved(contents, active[k].seat_index, cards[k]));
    }
}

/// The pairs of the first `n` players are proved exactly when those of the first
/// kept ones are.
proof fn proved_in_both_ways(
    players: Seq<PlayerState>,
    contents: Seq<u8>,
    cards: Seq<(u32, u32)>,
    n: int,
)
    requires
        0 <= n <= players.len(),
    ensures
        proved_up_to(players.filter(in_hand()), contents, cards, still_in(players, n))
            <==> forall|j: int|
            0 <= j < n && !(#[trigger] players[j]).folded ==> pair_is_proved(
                players,
                contents,
                cards,
                j,
            ),
{
    let all = players.len() as int;
    let active = players.filter(in_hand());
    active_in_order(players, all);
    active_in_order(players, n);
    assert(players.take(all) =~= players);
    let k = still_in(players, n);
    if proved_up_to(active, contents, cards, k) {
        assert forall|j: int| 0 <= j < n && !(#[trigger] players[j]).folded implies pair_is_proved(
            players,
            contents,
            cards,
            j,
        ) by {
            let at = still_in(players, j);
            assert(active[at] == players[j]);
            assert(cards_proved(contents, active[at].seat_index, cards[at]));
            field_value_is_held(contents, 13 + players[j].seat_index, cards[at].0 as int);
            field_value_is_held(contents, 19 + players[j].seat_index, cards[at].1 as int);
        }
    }
    if forall|j: int|
        0 <= j < n && !(#[trigger] players[j]).folded ==> pair_is_proved(
            players,
            contents,
            cards,
            j,
        ) {
        assert forall|at: int| 0 <= at < k implies cards_proved(
            contents,
            (#[trigger] active[at]).seat_index,
            cards[at],
        ) && at < cards.len() by {
            let j = active_has_position(players, n, at);
            assert(!players[j].folded);
            assert(pair_is_proved(players, contents, cards, j));
            field_value_is_held(contents, 13 + players[j].seat_index, cards[at].0 as int);
            field_value_is_held(contents, 19 + players[j].seat_index, cards[at].1 as int);
        }
        if k > 0 {
            assert(cards_proved(contents, active[k - 1].seat_index, cards[k - 1]));
        }
    }
}

/// A showdown is looked at exactly when the table is at it, the caller is its
/// committee, and five board positions have been dealt. Its verifier is asked
/// against the commitments, the last five positions dealt and the deck.
pub proof fn showdown_is_looked_at(
    paused: Option<bool>,
    stored: Option<TableState>,
    committee: Address,
    r: Result<ShowdownQuery, PokerTableError>,
)
    requires
        call_ensures(
            PokerTableContract::submit_showdown_query,
            (paused, &stored, committee),
            r,
        ),
    ensures
        r == Err::<ShowdownQuery, PokerTableError>(PokerTableError::ContractPaused) <==> paused
            == Some(true),
        r == Err::<ShowdownQuery, PokerTableError>(PokerTableError::TableNotFound) <==> paused
            != Some(true) && stored is None,
        open(paused, stored) ==> {
            let table = stored->0;
            let showdown = table.phase == GamePhase::Showdown;
            let member = committee == table.committee;
            let complete = table.dealt_indices@.len() >= 5;
            &&& r == Err::<ShowdownQuery, PokerTableError>(PokerTableError::NotInShowdownPhase)
                <==> !showdown
            &&& r == Err::<ShowdownQuery, PokerTableError>(
                PokerTableError::NotAuthorizedCommittee,
            ) <==> showdown && !member
            &&& r == Err::<ShowdownQuery, PokerTableError>(PokerTableError::BoardNotComplete)
                <==> showdown && member && !complete
            &&& r is Ok <==> showdown && member && complete
        },
        r is Ok ==> {
            let table = stored->0;
            let query = r->Ok_0;
            let dealt = table.dealt_indices@;
            &&& query.verifier == table.config.verifier
            &&& query.deck_root == table.deck_root
            &&& query.hand_commitments@ == table.hand_commitments@
            &&& query.board_indices@.len() == 5
            &&& forall|k: int|
                0 <= k < 5 ==> #[trigger] query.board_indices@[k] == dealt[dealt.len() - 5 + k]
        },
{
}

/// A showdown that is looked at and verified, and whose hole cards pass, has the
/// winner of field 25 and the tie mask of field 26.
pub proof fn proved_outcome_is_taken(
    paused: Option<bool>,
    stored: Option<TableState>,
    committee: Address,
    verified: bool,
    public_inputs: soroban_sdk::Bytes,
    hole_cards: Vec<(u32, u32)>,
    looked: Result<ShowdownQuery, PokerTableError>,
    held: Result<(), PokerTableError>,
    r: Result<ProvedOutcome, PokerTableError>,
)
    requires
        call_ensures(
            PokerTableContract::showdown_outcome,
            (paused, &stored, committee, verified, &public_inputs, &hole_cards),
            r,
        ),
        call_ensures(
            PokerTableContract::submit_showdown_query,
            (paused, &stored, committee),
            looked,
        ),
        looked is Ok ==> call_ensures(
            verify_hole_cards_against_proof,
            (&stored->0, &public_inputs, &hole_cards),
            held,
        ),
    ensures
        looked is Err ==> r == Err::<ProvedOutcome, PokerTableError>(looked->Err_0),
        looked is Ok && !verified ==> r == Err::<ProvedOutcome, PokerTableError>(
            PokerTableError::ShowdownProofVerificationFailed,
        ),
        looked is Ok && verified && held is Err ==> r == Err::<ProvedOutcome, PokerTableError>(
            held->Err_0,
        ),
        looked is Ok && verified && held is Ok ==> {
            &&& r is Ok
            &&& field_holds(bytes_contents(public_inputs), 25, r->Ok_0.winner_index as int)
            &&& field_holds(bytes_contents(public_inputs), 26, r->Ok_0.tie_mask as int)
        },
{
}

/// A showdown ends with what the settlement rules answered, once its outcome was
/// taken.
pub proof fn showdown_is_settled(
    paused: Option<bool>,
    stored: Option<TableState>,
    committee: Address,
    verified: bool,
    public_inputs: soroban_sdk::Bytes,
    hole_cards: Vec<(u32, u32)>,
    settled: Result<TableState, PokerTableError>,
    outcome: Result<ProvedOutcome, PokerTableError>,
    r: Result<TableState, PokerTableError>,
)
    requires
        call_ensures(
            PokerTableContract::submit_showdown,
            (paused, &stored, committee, verified, &public_inputs, &hole_cards, settled),
            r,
        ),
        call_ensures(
            PokerTableContract::showdown_outcome,
            (paused, &stored, committee, verified, &public_inputs, &hole_cards),
            outcome,
        ),
    ensures
        outcome is Err ==> r == Err::<TableState, PokerTableError>(outcome->Err_0),
        outcome is Ok ==> answered(settled, r),
{
}

/// Hole cards can be held against a proof exactly when the fields of every player
/// who is come to, one after the other while pairs are proved, start within range.
pub proof fn holding_cards_is_in_range(
    table: TableState,
    public_inputs: soroban_sdk::Bytes,
    hole_cards: Vec<(u32, u32)>,
    fits: bool,
)
    requires
        call_ensures(hole_cards_fit, (&table, &public_inputs, &hole_cards), fits),
    ensures
        ({
            let players = table.players@;
            let contents = bytes_contents(public_inputs);
            let cards = hole_cards@;
            fits <==> forall|i: int|
                {
                    &&& 0 <= i < players.len()
                    &&& !(#[trigger] players[i]).folded
                    &&& forall|j: int|
                        0 <= j < i && !(#[trigger] players[j]).folded ==> pair_is_proved(
                            players,
                            contents,
                            cards,
                            j,
                        )
                } ==> 32 * (19 + players[i].seat_index) + 31 <= u32::MAX
        }),
{
    let players = table.players@;
    let contents = bytes_contents(public_inputs);
    let cards = hole_cards@;
    let active = players.filter(in_hand());
    let n = players.len() as int;
    active_in_order(players, n);
    assert(players.take(n) =~= players);
    if fits {
        assert forall|i: int|
            {
                &&& 0 <= i < players.len()
                &&& !(#[trigger] players[i]).folded
                &&& forall|j: int|
                    0 <= j < i && !(#[trigger] players[j]).folded ==> pair_is_proved(
                        players,
                        contents,
                        cards,
                        j,
                    )
            } implies 32 * (19 + players[i].seat_index) + 31 <= u32::MAX by {
            proved_in_both_ways(players, contents, cards, i);
            let k = still_in(players, i);
            assert(proved_up_to(active, contents, cards, k));
            assert(active[k] == players[i]);
        }
    } else {
        let k = choose|k: int|
            0 <= k < active.len() && #[trigger] proved_up_to(active, contents, cards, k)
                && !crate::table::showdown::field_fits(19 + active[k].seat_index);
        let i = active_has_position(players, n, k);
        proved_in_both_ways(players, contents, cards, i);
        assert(!players[i].folded);
        assert(active[k] == players[i]);
    }
}

/// A showdown can be computed exactly when it is refused before the cards are
/// held against the proof, or when holding them can.
pub proof fn showdown_is_in_range(
    paused: Option<bool>,
    stored: Option<TableState>,
    committee: Address,
    verified: bool,
    public_inputs: soroban_sdk::Bytes,
    hole_cards: Vec<(u32, u32)>,
    looked: Result<ShowdownQuery, PokerTableError>,
    held: bool,
    fits: bool,
)
    requires
        call_ensures(
            PokerTableContract::showdown_fits,
            (paused, &stored, committee, verified, &public_inputs, &hole_cards),
            fits,
        ),
        call_ensures(
            PokerTableContract::submit_showdown_query,
            (paused, &stored, committee),
            looked,
        ),
        looked is Ok ==> call_ensures(
            hole_cards_fit,
            (&stored->0, &public_inputs, &hole_cards),
            held,
        ),
    ensures
        fits <==> (looked is Ok && verified ==> held),
{
}

} // verus!
