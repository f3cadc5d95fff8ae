//! Access to a table, what its admin changes, and what is read of it.
use crate::guarantees::{
    open, same_but_config, same_cards, same_hand, same_pots, same_seats, same_table, same_times,
};
use crate::table::admin::{ConfigChange, PauseChange, RakeWithdrawal};
use crate::table::events::TableEvent;
use crate::table::types::{
    Address, Bytes32, DataKey, Direction, GamePhase, PokerTableError, TableConfig, TableState,
};
use crate::table::{
    is_between_hands, load_table, open_table, require_not_paused, save_key, view_table,
    PokerTableContract,
};
use vstd::prelude::*;

verus! {

// ---------------------------------------------------------------------------
// Access
// ---------------------------------------------------------------------------

/// A raised pause flag refuses; a lowered one, or none, does not.
pub proof fn pause_refuses(paused: Option<bool>, r: Result<(), PokerTableError>, told: bool)
    requires
        call_ensures(require_not_paused, (paused,), r),
        call_ensures(PokerTableContract::is_paused, (paused,), told),
    ensures
        told <==> paused == Some(true),
        told ==> r == Err::<(), PokerTableError>(PokerTableError::ContractPaused),
        !told ==> r == Ok::<(), PokerTableError>(()),
{
}

/// A stored table is loaded as it is, and a missing one is not found.
pub proof fn table_is_loaded(
    stored: Option<TableState>,
    r: Result<TableState, PokerTableError>,
    read: Result<TableState, PokerTableError>,
)
    requires
        call_ensures(load_table, (stored,), r),
        call_ensures(PokerTableContract::get_table, (stored,), read),
    ensures
        stored is Some ==> r == Ok::<TableState, PokerTableError>(stored->0),
        stored is None ==> r == Err::<TableState, PokerTableError>(PokerTableError::TableNotFound),
        read is Ok <==> stored is Some,
        read is Ok ==> read->Ok_0.config == stored->0.config && same_but_config(
            read->Ok_0,
            stored->0,
        ),
        read is Err ==> read->Err_0 == PokerTableError::TableNotFound,
{
}

/// A table is operated on exactly when it is not paused and exists; a pause is
/// told first.
pub proof fn table_is_opened(
    paused: Option<bool>,
    stored: Option<TableState>,
    r: Result<TableState, PokerTableError>,
    seen: Result<&TableState, PokerTableError>,
)
    requires
        call_ensures(open_table, (paused, stored), r),
        call_ensures(view_table, (paused, &stored), seen),
    ensures
        open(paused, stored) ==> r == Ok::<TableState, PokerTableError>(stored->0),
        open(paused, stored) ==> seen is Ok && *seen->Ok_0 == stored->0,
        paused == Some(true) ==> r == Err::<TableState, PokerTableError>(
            PokerTableError::ContractPaused,
        ),
        paused == Some(true) ==> seen is Err && seen->Err_0 == PokerTableError::ContractPaused,
        paused != Some(true) && stored is None ==> r == Err::<TableState, PokerTableError>(
            PokerTableError::TableNotFound,
        ),
        paused != Some(true) && stored is None ==> seen is Err && seen->Err_0
            == PokerTableError::TableNotFound,
{
}

/// A table is saved under its own id, so two tables share a key only by their id.
pub proof fn table_is_saved_by_id(a: TableState, b: TableState, a_key: DataKey, b_key: DataKey)
    requires
        call_ensures(save_key, (&a,), a_key),
        call_ensures(save_key, (&b,), b_key),
    ensures
        a_key == DataKey::Table(a.id),
        a_key == b_key <==> a.id == b.id,
{
}

/// No hand is on exactly while a table waits or has settled.
pub proof fn hands_are_told_apart(phase: GamePhase, r: bool)
    requires
        call_ensures(is_between_hands, (phase,), r),
    ensures
        r <==> phase == GamePhase::Waiting || phase == GamePhase::Settlement,
{
}

// ---------------------------------------------------------------------------
// Pausing
// ---------------------------------------------------------------------------

/// Pausing a table raises the flag that refuses, and unpausing lowers it. Both
/// are published with the table's admin.
pub proof fn pausing_is_undone(
    table_id: u32,
    stored: Option<TableState>,
    paused: Result<PauseChange, PokerTableError>,
    unpaused: Result<PauseChange, PokerTableError>,
)
    requires
        call_ensures(PokerTableContract::pause, (table_id, &stored), paused),
        call_ensures(PokerTableContract::unpause, (table_id, &stored), unpaused),
    ensures
        paused is Ok <==> stored is Some,
        unpaused is Ok <==> stored is Some,
        paused is Err ==> paused->Err_0 == PokerTableError::TableNotFound,
        unpaused is Err ==> unpaused->Err_0 == PokerTableError::TableNotFound,
        stored is Some ==> {
            let admin = stored->0.admin;
            &&& paused->Ok_0.paused
            &&& !unpaused->Ok_0.paused
            &&& paused->Ok_0.event == (TableEvent::TablePaused { table_id, admin })
            &&& unpaused->Ok_0.event == (TableEvent::TableUnpaused { table_id, admin })
        },
{
}

// ---------------------------------------------------------------------------
// Reading
// ---------------------------------------------------------------------------

/// Each reading gives its part of a stored table.
pub proof fn parts_are_read(
    table: TableState,
    admin: Result<Address, PokerTableError>,
    hub: Result<Address, PokerTableError>,
    rake: Result<i128, PokerTableError>,
    jackpot: Result<i128, PokerTableError>,
    jackpot_config: Result<(u32, u32, u32), PokerTableError>,
)
    requires
        call_ensures(PokerTableContract::get_admin, (&Some(table),), admin),
        call_ensures(PokerTableContract::get_hub, (&Some(table),), hub),
        call_ensures(PokerTableContract::get_rake_balance, (&Some(table),), rake),
        call_ensures(PokerTableContract::get_jackpot_balance, (&Some(table),), jackpot),
        call_ensures(PokerTableContract::get_jackpot_config, (&Some(table),), jackpot_config),
    ensures
        admin == Ok::<Address, PokerTableError>(table.admin),
        hub == Ok::<Address, PokerTableError>(table.config.game_hub),
        rake == Ok::<i128, PokerTableError>(table.rake_balance),
        jackpot == Ok::<i128, PokerTableError>(table.jackpot_balance),
        jackpot_config is Ok,
        jackpot_config->Ok_0.0 == table.config.jackpot_rake_share_bps,
        jackpot_config->Ok_0.1 == table.config.min_bad_beat_category,
        jackpot_config->Ok_0.2 == table.config.min_bad_beat_rank,
{
}

/// Nothing is read of a missing table.
pub proof fn missing_table_is_not_read(
    admin: Result<Address, PokerTableError>,
    hub: Result<Address, PokerTableError>,
    rake: Result<i128, PokerTableError>,
    jackpot: Result<i128, PokerTableError>,
    jackpot_config: Result<(u32, u32, u32), PokerTableError>,
)
    requires
        call_ensures(PokerTableContract::get_admin, (&None,), admin),
        call_ensures(PokerTableContract::get_hub, (&None,), hub),
        call_ensures(PokerTableContract::get_rake_balance, (&None,), rake),
        call_ensures(PokerTableContract::get_jackpot_balance, (&None,), jackpot),
        call_ensures(PokerTableContract::get_jackpot_config, (&None,), jackpot_config),
    ensures
        admin == Err::<Address, PokerTableError>(PokerTableError::TableNotFound),
        hub == Err::<Address, PokerTableError>(PokerTableError::TableNotFound),
        rake == Err::<i128, PokerTableError>(PokerTableError::TableNotFound),
        jackpot == Err::<i128, PokerTableError>(PokerTableError::TableNotFound),
        jackpot_config is Err && jackpot_config->Err_0 == PokerTableError::TableNotFound,
{
}

// ---------------------------------------------------------------------------
// Changing
// ---------------------------------------------------------------------------

/// The hub that was set is the one that is read, and nothing else changes.
pub proof fn hub_is_set(
    stored: Option<TableState>,
    new_hub: Address,
    r: Result<TableState, PokerTableError>,
    read: Result<Address, PokerTableError>,
)
    requires
        call_ensures(PokerTableContract::set_hub, (stored, new_hub), r),
        r is Ok ==> call_ensures(PokerTableContract::get_hub, (&Some(r->Ok_0),), read),
    ensures
        r is Ok <==> stored is Some,
        r is Err ==> r->Err_0 == PokerTableError::TableNotFound,
        r is Ok ==> {
            &&& read == Ok::<Address, PokerTableError>(new_hub)
            &&& same_but_config(r->Ok_0, stored->0)
            &&& r->Ok_0.config == (TableConfig { game_hub: new_hub, ..stored->0.config })
        },
{
}

/// A stored table is upgraded to the code that is named.
pub proof fn code_is_upgraded(
    stored: Option<TableState>,
    hash: Bytes32,
    r: Result<Bytes32, PokerTableError>,
)
    requires
        call_ensures(PokerTableContract::upgrade, (&stored, hash), r),
    ensures
        stored is Some ==> r == Ok::<Bytes32, PokerTableError>(hash),
        stored is None ==> r == Err::<Bytes32, PokerTableError>(PokerTableError::TableNotFound),
{
}

/// The limit of rebuys is set to any number, and nothing else changes.
pub proof fn rebuy_limit_is_set(
    table_id: u32,
    stored: Option<TableState>,
    max_rebuys: u32,
    r: Result<ConfigChange, PokerTableError>,
)
    requires
        call_ensures(PokerTableContract::set_max_rebuys, (table_id, stored, max_rebuys), r),
    ensures
        r is Ok <==> stored is Some,
        r is Err ==> r->Err_0 == PokerTableError::TableNotFound,
        r is Ok ==> {
            let change = r->Ok_0;
            &&& same_but_config(change.table, stored->0)
            &&& change.table.config == (TableConfig { max_rebuys, ..stored->0.config })
            &&& change.event == (TableEvent::MaxRebuysUpdated { table_id, max_rebuys })
        },
{
}

/// The rake is set to at most five percent; a higher one is refused before the
/// table is looked at. Nothing else changes.
pub proof fn rake_is_set(
    table_id: u32,
    stored: Option<TableState>,
    rake_bps: u32,
    may: Result<(), PokerTableError>,
    r: Result<ConfigChange, PokerTableError>,
)
    requires
        call_ensures(PokerTableContract::set_rake_bps_check, (rake_bps,), may),
        call_ensures(PokerTableContract::set_rake_bps, (table_id, stored, rake_bps), r),
    ensures
        rake_bps <= 500 ==> may == Ok::<(), PokerTableError>(()),
        rake_bps > 500 ==> may == Err::<(), PokerTableError>(PokerTableError::RakeBpsExceedsMax),
        r is Ok <==> rake_bps <= 500 && stored is Some,
        rake_bps > 500 ==> r == Err::<ConfigChange, PokerTableError>(
            PokerTableError::RakeBpsExceedsMax,
        ),
        rake_bps <= 500 && stored is None ==> r == Err::<ConfigChange, PokerTableError>(
            PokerTableError::TableNotFound,
        ),
        r is Ok ==> {
            let change = r->Ok_0;
            &&& same_but_config(change.table, stored->0)
            &&& change.table.config == (TableConfig { rake_bps, ..stored->0.config })
            &&& change.event == (TableEvent::RakeBpsUpdated { table_id, rake_bps })
        },
{
}

/// The minimum of players is set between hands, from two up to the seats of the
/// table. Nothing else changes.
pub proof fn minimum_is_set(
    table_id: u32,
    stored: Option<TableState>,
    min_players: u32,
    r: Result<ConfigChange, PokerTableError>,
)
    requires
        call_ensures(PokerTableContract::set_min_players, (table_id, stored, min_players), r),
    ensures
        stored is None <==> r == Err::<ConfigChange, PokerTableError>(
            PokerTableError::TableNotFound,
        ),
        stored is Some ==> {
            let table = stored->0;
            let between = table.phase == GamePhase::Waiting || table.phase == GamePhase::Settlement;
            let fits = 2 <= min_players <= table.config.max_players;
            &&& r is Ok <==> between && fits
            &&& r == Err::<ConfigChange, PokerTableError>(
                PokerTableError::CannotChangeMinPlayersMidHand,
            ) <==> !between
            &&& r == Err::<ConfigChange, PokerTableError>(PokerTableError::InvalidPlayerCount)
                <==> between && !fits
        },
        r is Ok ==> {
            let change = r->Ok_0;
            &&& same_but_config(change.table, stored->0)
            &&& change.table.config == (TableConfig { min_players, ..stored->0.config })
            &&& change.event == (TableEvent::MinPlayersUpdated { table_id, min_players })
        },
{
}

/// The rules of the jackpot that were set are those that are read, and nothing
/// else changes.
pub proof fn jackpot_is_set(
    table_id: u32,
    stored: Option<TableState>,
    share: u32,
    category: u32,
    rank: u32,
    r: Result<ConfigChange, PokerTableError>,
    read: Result<(u32, u32, u32), PokerTableError>,
)
    requires
        call_ensures(
            PokerTableContract::set_jackpot_config,
            (table_id, stored, share, category, rank),
            r,
        ),
        r is Ok ==> call_ensures(
            PokerTableContract::get_jackpot_config,
            (&Some(r->Ok_0.table),),
            read,
        ),
    ensures
        r is Ok <==> stored is Some,
        r is Err ==> r->Err_0 == PokerTableError::TableNotFound,
        r is Ok ==> {
            let change = r->Ok_0;
            &&& read == Ok::<(u32, u32, u32), PokerTableError>((share, category, rank))
            &&& same_but_config(change.table, stored->0)
            &&& change.table.config == (TableConfig {
                jackpot_rake_share_bps: share,
                min_bad_beat_category: category,
                min_bad_beat_rank: rank,
                ..stored->0.config
            })
            &&& change.event == (TableEvent::JackpotConfigUpdated {
                table_id,
                rake_share_bps: share,
                min_category: category,
                min_rank: rank,
            })
        },
{
}

/// All rake that a table holds goes to its admin in the table's token, and none
/// is left. Where it holds none, nothing moves and nothing changes.
pub proof fn rake_is_paid_out(
    table_id: u32,
    stored: Option<TableState>,
    r: Result<RakeWithdrawal, PokerTableError>,
)
    requires
        call_ensures(PokerTableContract::withdraw_rake, (table_id, stored), r),
    ensures
        r is Ok <==> stored is Some,
        r is Err ==> r->Err_0 == PokerTableError::TableNotFound,
        r is Ok ==> {
            let table = stored->0;
            let paid = r->Ok_0;
            &&& paid.amount == table.rake_balance
            &&& paid.event == (TableEvent::RakeWithdrawn {
                table_id,
                admin: table.admin,
                amount: paid.amount,
            })
            &&& paid.transfer is Some <==> table.rake_balance > 0
            &&& paid.table is Some <==> table.rake_balance > 0
            &&& paid.transfer is Some ==> {
                let transfer = paid.transfer->0;
                &&& transfer.token == table.config.token
                &&& transfer.account == table.admin
                &&& transfer.direction == Direction::Withdrawal
                &&& transfer.amount == table.rake_balance
            }
            &&& paid.table is Some ==> {
                let after = paid.table->0;
                &&& after.rake_balance == 0
                &&& after.pot == table.pot
                &&& after.side_pots@ == table.side_pots@
                &&& after.jackpot_balance == table.jackpot_balance
                &&& after.config == table.config
                &&& after.phase == table.phase
                &&& same_table(after, table)
                &&& same_seats(after, table)
                &&& same_cards(after, table)
                &&& same_hand(after, table)
                &&& same_times(after, table)
            }
        },
{
}

/// Once the rake has been withdrawn, withdrawing again moves nothing.
pub proof fn rake_is_paid_out_once(
    table_id: u32,
    stored: Option<TableState>,
    first: Result<RakeWithdrawal, PokerTableError>,
    second: Result<RakeWithdrawal, PokerTableError>,
)
    requires
        call_ensures(PokerTableContract::withdraw_rake, (table_id, stored), first),
        first is Ok,
        first->Ok_0.table is Some,
        call_ensures(
            PokerTableContract::withdraw_rake,
            (table_id, first->Ok_0.table),
            second,
        ),
    ensures
        second is Ok,
        second->Ok_0.amount == 0,
        second->Ok_0.transfer is None,
        second->Ok_0.table is None,
{
    assert(first->Ok_0.table->0@.rake_balance == first->Ok_0.table->0.rake_balance);
}

// ---------------------------------------------------------------------------
// Numbers and names
// ---------------------------------------------------------------------------

/// Every error has its own number.
pub proof fn errors_are_numbered(e: PokerTableError, code: u32)
    requires
        call_ensures(PokerTableError::code, (&e,), code),
    ensures
        e == PokerTableError::TableNotFound <==> code == 1,
        e == PokerTableError::TableNotAcceptingPlayers <==> code == 2,
        e == PokerTableError::TableFull <==> code == 3,
        e == PokerTableError::InvalidBuyIn <==> code == 4,
        e == PokerTableError::AlreadySeated <==> code == 5,
        e == PokerTableError::PlayerNotAtTable <==> code == 6,
        e == PokerTableError::CannotLeaveDuringActiveHand <==> code == 7,
        e == PokerTableError::HandAlreadyInProgress <==> code == 8,
        e == PokerTableError::NotEnoughPlayers <==> code == 9,
        e == PokerTableError::InvalidPlayerIndex <==> code == 10,
        e == PokerTableError::NotYourTurn <==> code == 11,
        e == PokerTableError::PlayerAlreadyFolded <==> code == 12,
        e == PokerTableError::PlayerAlreadyAllIn <==> code == 13,
        e == PokerTableError::MustCallOrFold <==> code == 14,
        e == PokerTableError::NothingToCall <==> code == 15,
        e == PokerTableError::CannotBetWhenOutstandingBet <==> code == 16,
        e == PokerTableError::BetTooSmall <==> code == 17,
        e == PokerTableError::RaiseTooSmall <==> code == 18,
        e == PokerTableError::NotEnoughChips <==> code == 19,
        e == PokerTableError::NotInBettingPhase <==> code == 20,
        e == PokerTableError::NotInDealingPhase <==> code == 21,
        e == PokerTableError::NotInRevealPhase <==> code == 22,
        e == PokerTableError::NotInShowdownPhase <==> code == 23,
        e == PokerTableError::WrongCommitmentCount <==> code == 24,
        e == PokerTableError::WrongCardCount <==> code == 25,
        e == PokerTableError::NotAuthorizedCommittee <==> code == 26,
        e == PokerTableError::DealProofVerificationFailed <==> code == 27,
        e == PokerTableError::RevealProofVerificationFailed <==> code == 28,
        e == PokerTableError::ShowdownProofVerificationFailed <==> code == 29,
        e == PokerTableError::BoardNotComplete <==> code == 30,
        e == PokerTableError::InvalidHoleCards <==> code == 31,
        e == PokerTableError::TimeoutNotReached <==> code == 32,
        e == PokerTableError::TimeoutNotApplicable <==> code == 33,
        e == PokerTableError::HoleCardMismatch <==> code == 34,
        e == PokerTableError::WinnerNotEligibleForPot <==> code == 35,
        e == PokerTableError::RakeBpsExceedsMax <==> code == 36,
        e == PokerTableError::InvalidPlayerCount <==> code == 37,
        e == PokerTableError::CannotChangeMinPlayersMidHand <==> code == 38,
        e == PokerTableError::ContractPaused <==> code == 39,
        e == PokerTableError::ForceFoldNotAvailable <==> code == 40,
        e == PokerTableError::TargetNotActive <==> code == 41,
        e == PokerTableError::CannotRebuyDuringActiveHand <==> code == 42,
        e == PokerTableError::RebuyLimitReached <==> code == 43,
        e == PokerTableError::InvalidRebuyAmount <==> code == 44,
{
}

/// Every event is published under its own name.
pub proof fn events_are_named(event: TableEvent, name: &'static str)
    requires
        call_ensures(TableEvent::name, (&event,), name),
    ensures
        event is TableCreated ==> name@ == "table_created"@,
        event is PlayerJoined ==> name@ == "player_joined"@,
        event is PlayerRebuy ==> name@ == "player_rebuy"@,
        event is MaxRebuysUpdated ==> name@ == "max_rebuys_updated"@,
        event is PlayerLeft ==> name@ == "player_left"@,
        event is HandStarted ==> name@ == "hand_started"@,
        event is DealCommitted ==> name@ == "deal_committed"@,
        event is BoardRevealed ==> name@ == "board_revealed"@,
        event is TablePaused ==> name@ == "table_paused"@,
        event is TableUnpaused ==> name@ == "table_unpaused"@,
        event is RakeBpsUpdated ==> name@ == "rake_bps_updated"@,
        event is MinPlayersUpdated ==> name@ == "min_players_updated"@,
        event is JackpotConfigUpdated ==> name@ == "jackpot_config_updated"@,
        event is RakeWithdrawn ==> name@ == "rake_withdrawn"@,
{
}

} // verus!
