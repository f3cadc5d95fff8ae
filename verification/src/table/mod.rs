//! The poker table contract: who sits where, what a hand may do next, and what
//! each operation asks of the ledger.
//!
//! Every operation takes what the ledger held when it was called and returns
//! either the refusal or everything that has to happen: the table to store,
//! the tokens to move, the event to publish. The caller authenticates, reads
//! and writes.
pub mod admin;
pub mod events;
pub mod history;
pub mod laws;
pub mod play;
pub mod seats;
pub mod session;
pub mod showdown;
pub mod types;

use crate::table::types::{
    stored_view, DataKey, GamePhase, PokerTableError, TableState, TableView,
};
use vstd::prelude::*;

verus! {

/// Extend a table's time to live once it falls below this (~1 day in ledgers).
pub const TABLE_TTL_THRESHOLD: u32 = 17_280;

/// Time to live of a table in ledgers (~30 days).
pub const TABLE_TTL_EXTEND: u32 = 518_400;

/// Community cards of a complete board: flop (3), turn (1) and river (1).
pub const BOARD_INDICES_COUNT: u32 = 5;

/// Most seats a table may have.
pub const MAX_PLAYERS_PER_TABLE: u32 = 6;

/// Highest rake a table may take, in basis points (5%).
pub const MAX_RAKE_BPS: u32 = 500;

/// The poker table contract.
#[derive(Clone, Copy, Debug, PartialEq, Eq)]
pub struct PokerTableContract {
    /// Hands that a table's history buffer can hold.
    pub history_capacity: u32,
}

/// True when the stored pause flag is raised. A table without a flag is not
/// paused.
pub open spec fn paused_flag(paused: Option<bool>) -> bool {
    paused == Some(true)
}

/// Why the table cannot even be looked at, if so.
pub open spec fn access_error(
    paused: Option<bool>,
    stored: Option<TableView>,
) -> Option<PokerTableError> {
    if paused_flag(paused) {
        Some(PokerTableError::ContractPaused)
    } else if stored is None {
        Some(PokerTableError::TableNotFound)
    } else {
        None
    }
}

/// True between two hands: no chips are in play.
pub open spec fn between_hands(phase: GamePhase) -> bool {
    phase == GamePhase::Waiting || phase == GamePhase::Settlement
}

/// Seats are numbered by `u32` on the ledger, so no table holds more of them.
pub open spec fn seats_fit(stored: Option<TableView>) -> bool {
    stored is Some ==> stored->0.players.len() <= u32::MAX
}

/// Refuses every operation on a paused table.
pub fn require_not_paused(paused: Option<bool>) -> (r: Result<(), PokerTableError>)
    ensures
        r == if paused_flag(paused) {
            Err::<(), PokerTableError>(PokerTableError::ContractPaused)
        } else {
            Ok(())
        },
{
    match paused {
        Some(true) => Err(PokerTableError::ContractPaused),
        _ => Ok(()),
    }
}

/// The table that was stored, or `TableNotFound`.
pub fn load_table(stored: Option<TableState>) -> (r: Result<TableState, PokerTableError>)
    ensures
        r == match stored {
            Some(table) => Ok::<TableState, PokerTableError>(table),
            None => Err(PokerTableError::TableNotFound),
        },
{
    match stored {
        Some(table) => Ok(table),
        None => Err(PokerTableError::TableNotFound),
    }
}

/// The key a table is saved under.
pub fn save_key(table: &TableState) -> (key: DataKey)
    ensures
        key == DataKey::Table(table.id),
{
    DataKey::Table(table.id)
}

/// Loads a table for an operation that a pause suspends.
pub fn open_table(paused: Option<bool>, stored: Option<TableState>) -> (r: Result<
    TableState,
    PokerTableError,
>)
    ensures
        match r {
            Ok(table) => access_error(paused, stored_view(stored)) is None && stored == Some(table),
            Err(e) => access_error(paused, stored_view(stored)) == Some(e),
        },
{
    match require_not_paused(paused) {
        Err(e) => Err(e),
        Ok(()) => load_table(stored),
    }
}

/// Looks at a table for an operation that a pause suspends.
pub fn view_table<'a>(paused: Option<bool>, stored: &'a Option<TableState>) -> (r: Result<
    &'a TableState,
    PokerTableError,
>)
    ensures
        match r {
            Ok(table) => access_error(paused, stored_view(*stored)) is None && *stored == Some(
                *table,
            ),
            Err(e) => access_error(paused, stored_view(*stored)) == Some(e),
        },
{
    match require_not_paused(paused) {
        Err(e) => Err(e),
        Ok(()) => match stored {
            Some(table) => Ok(table),
            None => Err(PokerTableError::TableNotFound),
        },
    }
}

/// True between two hands.
pub fn is_between_hands(phase: GamePhase) -> (r: bool)
    ensures
        r == between_hands(phase),
{
    matches!(phase, GamePhase::Waiting | GamePhase::Settlement)
}

} // verus!
