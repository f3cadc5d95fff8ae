//! What the table's admin may change, and what anyone may read.
//!
//! An operation of the admin is authorised by `TableState::admin`; the caller
//! authenticates that account once the table is found, before the operation.
use crate::table::events::TableEvent;
use crate::table::types::{
    result_view, stored_view, Address, Bytes32, Direction, PokerTableError, TableConfig,
    TableState, TableView, Transfer,
};
use crate::table::{
    between_hands, is_between_hands, load_table, paused_flag, PokerTableContract, MAX_RAKE_BPS,
};
use vstd::prelude::*;

verus! {

/// The stored table, or `TableNotFound`.
pub open spec fn found(stored: Option<TableView>) -> Result<TableView, PokerTableError> {
    match stored {
        Some(table) => Ok(table),
        None => Err(PokerTableError::TableNotFound),
    }
}

/// A table under another configuration.
pub open spec fn with_config(table: TableView, config: TableConfig) -> TableView {
    TableView { config, ..table }
}

/// A change of a table's configuration: what to store and publish.
#[derive(Debug, PartialEq, Eq)]
pub struct ConfigChange {
    pub table: TableState,
    pub event: TableEvent,
}

/// A pause flag to store, and what to publish.
#[derive(Debug, PartialEq, Eq)]
pub struct PauseChange {
    pub paused: bool,
    pub event: TableEvent,
}

/// Rake paid out: what to store, move and publish.
#[derive(Debug, PartialEq, Eq)]
pub struct RakeWithdrawal {
    pub amount: i128,
    /// The table to store; none when there was nothing to withdraw.
    pub table: Option<TableState>,
    pub transfer: Option<Transfer>,
    pub event: TableEvent,
}

impl PokerTableContract {
    /// Read current table state (view function).
    pub fn get_table(stored: Option<TableState>) -> (r: Result<TableState, PokerTableError>)
        ensures
            result_view(r) == found(stored_view(stored)),
    {
        load_table(stored)
    }

    /// Pause a table (admin only). All non-admin operations are refused while
    /// paused.
    pub fn pause(table_id: u32, stored: &Option<TableState>) -> (r: Result<
        PauseChange,
        PokerTableError,
    >)
        ensures
            r == match *stored {
                None => Err::<PauseChange, PokerTableError>(PokerTableError::TableNotFound),
                Some(table) => Ok(
                    PauseChange {
                        paused: true,
                        event: TableEvent::TablePaused { table_id, admin: table.admin },
                    },
                ),
            },
    {
        match stored {
            None => Err(PokerTableError::TableNotFound),
            Some(table) => Ok(
                PauseChange {
                    paused: true,
                    event: TableEvent::TablePaused { table_id, admin: table.admin },
                },
            ),
        }
    }

    /// Unpause a table (admin only).
    pub fn unpause(table_id: u32, stored: &Option<TableState>) -> (r: Result<
        PauseChange,
        PokerTableError,
    >)
        ensures
            r == match *stored {
                None => Err::<PauseChange, PokerTableError>(PokerTableError::TableNotFound),
                Some(table) => Ok(
                    PauseChange {
                        paused: false,
                        event: TableEvent::TableUnpaused { table_id, admin: table.admin },
                    },
                ),
            },
    {
        match stored {
            None => Err(PokerTableError::TableNotFound),
            Some(table) => Ok(
                PauseChange {
                    paused: false,
                    event: TableEvent::TableUnpaused { table_id, admin: table.admin },
                },
            ),
        }
    }

    /// Returns true if the table is currently paused.
    pub fn is_paused(paused: Option<bool>) -> (r: bool)
        ensures
            r == paused_flag(paused),
    {
        match paused {
            Some(flag) => flag,
            None => false,
        }
    }

    /// Get the admin address for a table.
    pub fn get_admin(stored: &Option<TableState>) -> (r: Result<Address, PokerTableError>)
        ensures
            r == match *stored {
                None => Err::<Address, PokerTableError>(PokerTableError::TableNotFound),
                Some(table) => Ok(table.admin),
            },
    {
        match stored {
            None => Err(PokerTableError::TableNotFound),
            Some(table) => Ok(table.admin),
        }
    }

    /// Get the Game Hub address for a table.
    pub fn get_hub(stored: &Option<TableState>) -> (r: Result<Address, PokerTableError>)
        ensures
            r == match *stored {
                None => Err::<Address, PokerTableError>(PokerTableError::TableNotFound),
                Some(table) => Ok(table.config.game_hub),
            },
    {
        match stored {
            None => Err(PokerTableError::TableNotFound),
            Some(table) => Ok(table.config.game_hub),
        }
    }

    /// Update the Game Hub address for a table (admin only). The result is the
    /// table to store.
    pub fn set_hub(stored: Option<TableState>, new_hub: Address) -> (r: Result<
        TableState,
        PokerTableError,
    >)
        ensures
            match r {
                Ok(table) => stored is Some && table@ == with_config(
                    stored->0@,
                    TableConfig { game_hub: new_hub, ..stored->0.config },
                ),
                Err(e) => stored is None && e == PokerTableError::TableNotFound,
            },
    {
        let mut table = match load_table(stored) {
            Ok(table) => table,
            Err(e) => return Err(e),
        };
        table.config.game_hub = new_hub;
        Ok(table)
    }

    /// Upgrade the contract code (admin only). The result is the hash of the
    /// code to install.
    pub fn upgrade(stored: &Option<TableState>, new_wasm_hash: Bytes32) -> (r: Result<
        Bytes32,
        PokerTableError,
    >)
        ensures
            r == match *stored {
                None => Err::<Bytes32, PokerTableError>(PokerTableError::TableNotFound),
                Some(_) => Ok(new_wasm_hash),
            },
    {
        match stored {
            None => Err(PokerTableError::TableNotFound),
            Some(_) => Ok(new_wasm_hash),
        }
    }

    /// Update the per-session rebuy limit (admin only). `0` means unlimited.
    /// Lowering the limit below what a player has already used simply stops
    /// them rebuying again; it never claws chips back.
    pub fn set_max_rebuys(table_id: u32, stored: Option<TableState>, max_rebuys: u32) -> (r: Result<
        ConfigChange,
        PokerTableError,
    >)
        ensures
            match r {
                Ok(change) => {
                    &&& stored is Some
                    &&& change.table@ == with_config(
                        stored->0@,
                        TableConfig { max_rebuys, ..stored->0.config },
                    )
                    &&& change.event == TableEvent::MaxRebuysUpdated { table_id, max_rebuys }
                },
                Err(e) => stored is None && e == PokerTableError::TableNotFound,
            },
    {
        let mut table = match load_table(stored) {
            Ok(table) => table,
            Err(e) => return Err(e),
        };
        table.config.max_rebuys = max_rebuys;
        Ok(ConfigChange { table, event: TableEvent::MaxRebuysUpdated { table_id, max_rebuys } })
    }

    /// Refuses a rake above the cap. Checked before the table is looked for.
    pub fn set_rake_bps_check(rake_bps: u32) -> (r: Result<(), PokerTableError>)
        ensures
            r == if rake_bps > MAX_RAKE_BPS {
                Err::<(), PokerTableError>(PokerTableError::RakeBpsExceedsMax)
            } else {
                Ok(())
            },
    {
        if rake_bps > MAX_RAKE_BPS {
            Err(PokerTableError::RakeBpsExceedsMax)
        } else {
            Ok(())
        }
    }

    /// Update the rake (admin only). Capped at `MAX_RAKE_BPS` (5%).
    pub fn set_rake_bps(table_id: u32, stored: Option<TableState>, rake_bps: u32) -> (r: Result<
        ConfigChange,
        PokerTableError,
    >)
        ensures
            match r {
                Ok(change) => {
                    &&& rake_bps <= MAX_RAKE_BPS
                    &&& stored is Some
                    &&& change.table@ == with_config(
                        stored->0@,
                        TableConfig { rake_bps, ..stored->0.config },
                    )
                    &&& change.event == TableEvent::RakeBpsUpdated { table_id, rake_bps }
                },
                Err(e) => if rake_bps > MAX_RAKE_BPS {
                    e == PokerTableError::RakeBpsExceedsMax
                } else {
                    stored is None && e == PokerTableError::TableNotFound
                },
            },
    {
        match Self::set_rake_bps_check(rake_bps) {
            Ok(()) => {},
            Err(e) => return Err(e),
        }
        let mut table = match load_table(stored) {
            Ok(table) => table,
            Err(e) => return Err(e),
        };
        table.config.rake_bps = rake_bps;
        Ok(ConfigChange { table, event: TableEvent::RakeBpsUpdated { table_id, rake_bps } })
    }

    /// Update the minimum seated players required to start a hand. This can
    /// only be changed between hands and must stay within the table capacity.
    pub fn set_min_players(table_id: u32, stored: Option<TableState>, min_players: u32) -> (r:
        Result<ConfigChange, PokerTableError>)
        ensures
            match r {
                Ok(change) => {
                    &&& min_players_error(stored_view(stored), min_players) is None
                    &&& change.table@ == with_config(
                        stored->0@,
                        TableConfig { min_players, ..stored->0.config },
                    )
                    &&& change.event == TableEvent::MinPlayersUpdated { table_id, min_players }
                },
                Err(e) => min_players_error(stored_view(stored), min_players) == Some(e),
            },
    {
        let mut table = match load_table(stored) {
            Ok(table) => table,
            Err(e) => return Err(e),
        };
        if !is_between_hands(table.phase) {
            return Err(PokerTableError::CannotChangeMinPlayersMidHand);
        }
        if min_players < 2 || min_players > table.config.max_players {
            return Err(PokerTableError::InvalidPlayerCount);
        }
        table.config.min_players = min_players;
        Ok(ConfigChange { table, event: TableEvent::MinPlayersUpdated { table_id, min_players } })
    }

    /// Read the rake accumulated so far for a table (view function).
    pub fn get_rake_balance(stored: &Option<TableState>) -> (r: Result<i128, PokerTableError>)
        ensures
            r == match *stored {
                None => Err::<i128, PokerTableError>(PokerTableError::TableNotFound),
                Some(table) => Ok(table.rake_balance),
            },
    {
        match stored {
            None => Err(PokerTableError::TableNotFound),
            Some(table) => Ok(table.rake_balance),
        }
    }

    /// Read the bad-beat jackpot pool balance for a table (view function).
    pub fn get_jackpot_balance(stored: &Option<TableState>) -> (r: Result<i128, PokerTableError>)
        ensures
            r == match *stored {
                None => Err::<i128, PokerTableError>(PokerTableError::TableNotFound),
                Some(table) => Ok(table.jackpot_balance),
            },
    {
        match stored {
            None => Err(PokerTableError::TableNotFound),
            Some(table) => Ok(table.jackpot_balance),
        }
    }

    /// Read the jackpot configuration parameters for a table (view function):
    /// the share of the rake, the lowest category and the lowest rank.
    pub fn get_jackpot_config(stored: &Option<TableState>) -> (r: Result<
        (u32, u32, u32),
        PokerTableError,
    >)
        ensures
            r == match *stored {
                None => Err::<(u32, u32, u32), PokerTableError>(PokerTableError::TableNotFound),
                Some(table) => Ok(
                    (
                        table.config.jackpot_rake_share_bps,
                        table.config.min_bad_beat_category,
                        table.config.min_bad_beat_rank,
                    ),
                ),
            },
    {
        match stored {
            None => Err(PokerTableError::TableNotFound),
            Some(table) => Ok(
                (
                    table.config.jackpot_rake_share_bps,
                    table.config.min_bad_beat_category,
                    table.config.min_bad_beat_rank,
                ),
            ),
        }
    }

    /// Update the jackpot configuration (admin only).
    ///
    /// `jackpot_rake_share_bps` is the share of each hand's rake, in basis
    /// points, that feeds the jackpot pool (`0` disables the jackpot).
    /// `min_category` and `min_rank` define the qualifying hand threshold.
    pub fn set_jackpot_config(
        table_id: u32,
        stored: Option<TableState>,
        jackpot_rake_share_bps: u32,
        min_category: u32,
        min_rank: u32,
    ) -> (r: Result<ConfigChange, PokerTableError>)
        ensures
            match r {
                Ok(change) => {
                    &&& stored is Some
                    &&& change.table@ == with_config(
                        stored->0@,
                        TableConfig {
                            jackpot_rake_share_bps,
                            min_bad_beat_category: min_category,
                            min_bad_beat_rank: min_rank,
                            ..stored->0.config
                        },
                    )
                    &&& change.event == TableEvent::JackpotConfigUpdated {
                        table_id,
                        rake_share_bps: jackpot_rake_share_bps,
                        min_category,
                        min_rank,
                    }
                },
                Err(e) => stored is None && e == PokerTableError::TableNotFound,
            },
    {
        let mut table = match load_table(stored) {
            Ok(table) => table,
            Err(e) => return Err(e),
        };
        table.config.jackpot_rake_share_bps = jackpot_rake_share_bps;
        table.config.min_bad_beat_category = min_category;
        table.config.min_bad_beat_rank = min_rank;
        Ok(
            ConfigChange {
                table,
                event: TableEvent::JackpotConfigUpdated {
                    table_id,
                    rake_share_bps: jackpot_rake_share_bps,
                    min_category,
                    min_rank,
                },
            },
        )
    }

    /// Withdraw the accumulated rake to the table admin. Returns the amount
    /// withdrawn.
    pub fn withdraw_rake(table_id: u32, stored: Option<TableState>) -> (r: Result<
        RakeWithdrawal,
        PokerTableError,
    >)
        ensures
            match r {
                Ok(withdrawal) => {
                    let table = stored->0@;
                    &&& stored is Some
                    &&& withdrawal.amount == table.rake_balance
                    &&& if table.rake_balance > 0 {
                        &&& withdrawal.table is Some
                        &&& withdrawal.table->0@ == rake_paid_out(table)
                        &&& withdrawal.transfer == Some(
                            Transfer {
                                token: table.config.token,
                                account: table.admin,
                                direction: Direction::Withdrawal,
                                amount: table.rake_balance,
                            },
                        )
                    } else {
                        withdrawal.table is None && withdrawal.transfer is None
                    }
                    &&& withdrawal.event == TableEvent::RakeWithdrawn {
                        table_id,
                        admin: table.admin,
                        amount: table.rake_balance,
                    }
                },
                Err(e) => stored is None && e == PokerTableError::TableNotFound,
            },
    {
        let mut table = match load_table(stored) {
            Ok(table) => table,
            Err(e) => return Err(e),
        };
        let amount: i128 = table.rake_balance;
        let event = TableEvent::RakeWithdrawn { table_id, admin: table.admin, amount };
        if amount > 0 {
            let transfer = Transfer {
                token: table.config.token,
                account: table.admin,
                direction: Direction::Withdrawal,
                amount,
            };
            table.rake_balance = 0;
            Ok(
                RakeWithdrawal { amount, table: Some(table), transfer: Some(transfer), event },
            )
        } else {
            Ok(RakeWithdrawal { amount, table: None, transfer: None, event })
        }
    }
}

/// Why the minimum number of players may not be changed, if so.
pub open spec fn min_players_error(
    stored: Option<TableView>,
    min_players: u32,
) -> Option<PokerTableError> {
    match stored {
        None => Some(PokerTableError::TableNotFound),
        Some(table) => if !between_hands(table.phase) {
            Some(PokerTableError::CannotChangeMinPlayersMidHand)
        } else if min_players < 2 || min_players > table.config.max_players {
            Some(PokerTableError::InvalidPlayerCount)
        } else {
            None
        },
    }
}

/// The table once its rake has been paid out.
pub open spec fn rake_paid_out(table: TableView) -> TableView {
    TableView { rake_balance: 0, ..table }
}

} // verus!
