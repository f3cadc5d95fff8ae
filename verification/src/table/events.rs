//! The events a table publishes.
use crate::table::types::{Address, Bytes32};
use vstd::prelude::*;

verus! {

/// One published event: its topic is its name and the table's id, the other
/// fields are its payload.
#[derive(Debug, PartialEq, Eq)]
pub enum TableEvent {
    TableCreated { table_id: u32, admin: Address },
    PlayerJoined { table_id: u32, player: Address, seat: u32 },
    PlayerRebuy {
        table_id: u32,
        player: Address,
        amount: i128,
        new_stack: i128,
        rebuy_count: u32,
    },
    MaxRebuysUpdated { table_id: u32, max_rebuys: u32 },
    PlayerLeft { table_id: u32, player: Address, withdrawn: i128 },
    HandStarted { table_id: u32, hand_number: u32 },
    DealCommitted { table_id: u32, hand_number: u32, hand_commitments: Vec<Bytes32> },
    BoardRevealed { table_id: u32, cards: Vec<u32>, indices: Vec<u32> },
    TablePaused { table_id: u32, admin: Address },
    TableUnpaused { table_id: u32, admin: Address },
    RakeBpsUpdated { table_id: u32, rake_bps: u32 },
    MinPlayersUpdated { table_id: u32, min_players: u32 },
    JackpotConfigUpdated { table_id: u32, rake_share_bps: u32, min_category: u32, min_rank: u32 },
    RakeWithdrawn { table_id: u32, admin: Address, amount: i128 },
}

/// The name each event is published under.
pub open spec fn event_name(event: TableEvent) -> Seq<char> {
    match event {
        TableEvent::TableCreated { .. } => "table_created"@,
        TableEvent::PlayerJoined { .. } => "player_joined"@,
        TableEvent::PlayerRebuy { .. } => "player_rebuy"@,
        TableEvent::MaxRebuysUpdated { .. } => "max_rebuys_updated"@,
        TableEvent::PlayerLeft { .. } => "player_left"@,
        TableEvent::HandStarted { .. } => "hand_started"@,
        TableEvent::DealCommitted { .. } => "deal_committed"@,
        TableEvent::BoardRevealed { .. } => "board_revealed"@,
        TableEvent::TablePaused { .. } => "table_paused"@,
        TableEvent::TableUnpaused { .. } => "table_unpaused"@,
        TableEvent::RakeBpsUpdated { .. } => "rake_bps_updated"@,
        TableEvent::MinPlayersUpdated { .. } => "min_players_updated"@,
        TableEvent::JackpotConfigUpdated { .. } => "jackpot_config_updated"@,
        TableEvent::RakeWithdrawn { .. } => "rake_withdrawn"@,
    }
}

impl TableEvent {
    /// The name this event is published under.
    pub fn name(&self) -> (name: &'static str)
        ensures
            name@ == event_name(*self),
    {
        match self {
            TableEvent::TableCreated { .. } => "table_created",
            TableEvent::PlayerJoined { .. } => "player_joined",
            TableEvent::PlayerRebuy { .. } => "player_rebuy",
            TableEvent::MaxRebuysUpdated { .. } => "max_rebuys_updated",
            TableEvent::PlayerLeft { .. } => "player_left",
            TableEvent::HandStarted { .. } => "hand_started",
            TableEvent::DealCommitted { .. } => "deal_committed",
            TableEvent::BoardRevealed { .. } => "board_revealed",
            TableEvent::TablePaused { .. } => "table_paused",
            TableEvent::TableUnpaused { .. } => "table_unpaused",
            TableEvent::RakeBpsUpdated { .. } => "rake_bps_updated",
            TableEvent::MinPlayersUpdated { .. } => "min_players_updated",
            TableEvent::JackpotConfigUpdated { .. } => "jackpot_config_updated",
            TableEvent::RakeWithdrawn { .. } => "rake_withdrawn",
        }
    }
}

} // verus!
