//! What each operation gives, stated over its inputs and its result.
//!
//! A guarantee takes the arguments of a call and what the call returned, and says
//! what a caller may rely on. Where two calls bear on each other, it takes both.
pub mod admin;
pub mod basics;
pub mod cache;
pub mod heartbeats;
pub mod history;
pub mod pins;
pub mod play;
pub mod reliability;
pub mod seats;

use crate::table::types::{Address, PlayerState, TableState};
use vstd::prelude::*;

verus! {

/// True when a table can be operated on: it is not paused, and it exists.
pub open spec fn open(paused: Option<bool>, stored: Option<TableState>) -> bool {
    paused != Some(true) && stored is Some
}

/// True when `i` is the first seat that `player` holds.
pub open spec fn sits_first_at(players: Seq<PlayerState>, player: Address, i: int) -> bool {
    &&& 0 <= i < players.len()
    &&& players[i].address == player
    &&& forall|j: int| 0 <= j < i ==> (#[trigger] players[j]).address != player
}

/// True when `player` holds no seat.
pub open spec fn sits_nowhere(players: Seq<PlayerState>, player: Address) -> bool {
    forall|i: int| 0 <= i < players.len() ==> (#[trigger] players[i]).address != player
}

/// True when two tables are the same one, under the same people.
pub open spec fn same_table(a: TableState, b: TableState) -> bool {
    a.id == b.id && a.admin == b.admin && a.committee == b.committee
}

/// True when two tables hold the same chips outside the stacks.
pub open spec fn same_pots(a: TableState, b: TableState) -> bool {
    &&& a.pot == b.pot
    &&& a.side_pots@ == b.side_pots@
    &&& a.rake_balance == b.rake_balance
    &&& a.jackpot_balance == b.jackpot_balance
}

/// True when the same cards are dealt and shown.
pub open spec fn same_cards(a: TableState, b: TableState) -> bool {
    &&& a.deck_root == b.deck_root
    &&& a.hand_commitments@ == b.hand_commitments@
    &&& a.board_cards@ == b.board_cards@
    &&& a.dealt_indices@ == b.dealt_indices@
}

/// True when the same hand is on, under the same session and with the same
/// actions behind it.
pub open spec fn same_hand(a: TableState, b: TableState) -> bool {
    &&& a.hand_number == b.hand_number
    &&& a.session_id == b.session_id
    &&& a.hand_actions@ == b.hand_actions@
}

/// True when the same times are noted.
pub open spec fn same_times(a: TableState, b: TableState) -> bool {
    a.last_action_ledger == b.last_action_ledger && a.action_deadline == b.action_deadline
}

/// True when the same players sit in the same seats, with the button and the turn
/// where they were.
pub open spec fn same_seats(a: TableState, b: TableState) -> bool {
    &&& a.players@ == b.players@
    &&& a.dealer_seat == b.dealer_seat
    &&& a.current_turn == b.current_turn
}

/// True when two tables differ in their seats at most.
pub open spec fn same_but_seats(a: TableState, b: TableState) -> bool {
    &&& same_table(a, b)
    &&& a.config == b.config
    &&& a.phase == b.phase
    &&& same_pots(a, b)
    &&& same_cards(a, b)
    &&& same_hand(a, b)
    &&& same_times(a, b)
}

/// True when two tables differ in their configuration at most.
pub open spec fn same_but_config(a: TableState, b: TableState) -> bool {
    &&& same_table(a, b)
    &&& a.phase == b.phase
    &&& same_seats(a, b)
    &&& same_pots(a, b)
    &&& same_cards(a, b)
    &&& same_hand(a, b)
    &&& same_times(a, b)
}

} // verus!
