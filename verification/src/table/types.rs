//! The data of a poker table: its configuration, its seats, the state of the
//! hand in progress, and what an operation asks of the ledger around it.
use vstd::prelude::*;

verus! {

/// A ledger account or contract, by its strkey text (`G...` or `C...`).
#[derive(Clone, Copy, Debug, PartialEq, Eq)]
pub struct Address {
    pub strkey: [u8; 56],
}

/// A 32-byte commitment, root or code hash.
#[derive(Clone, Copy, Debug, PartialEq, Eq)]
pub struct Bytes32 {
    pub bytes: [u8; 32],
}

/// The rules a table is played under.
#[derive(Clone, Copy, Debug, PartialEq, Eq)]
pub struct TableConfig {
    /// Payment token (e.g., USDC).
    pub token: Address,
    pub min_buy_in: i128,
    pub max_buy_in: i128,
    pub small_blind: i128,
    pub big_blind: i128,
    /// Minimum seated players required to start a hand.
    pub min_players: u32,
    /// Maximum seated players allowed at the table. Capped at 6.
    pub max_players: u32,
    /// Ledgers before timeout (~5 sec each).
    pub timeout_ledgers: u32,
    /// MPC committee address.
    pub committee: Address,
    /// ZK verifier contract address.
    pub verifier: Address,
    /// Game hub contract that hears of the start and the end of a game.
    pub game_hub: Address,
    /// Rake taken from every pot, in basis points (100 = 1%).
    pub rake_bps: u32,
    /// Rebuys a player may take in one session; 0 means unlimited.
    pub max_rebuys: u32,
    /// Share of each hand's rake that feeds the jackpot pool, in basis points;
    /// 0 disables the jackpot.
    pub jackpot_rake_share_bps: u32,
    /// Lowest hand category that qualifies for the bad-beat jackpot.
    pub min_bad_beat_category: u32,
    /// Lowest rank within that category that qualifies.
    pub min_bad_beat_rank: u32,
}

/// Why an operation on a table was refused.
#[derive(Clone, Copy, Debug, PartialEq, Eq, Structural)]
pub enum PokerTableError {
    TableNotFound,
    TableNotAcceptingPlayers,
    TableFull,
    InvalidBuyIn,
    AlreadySeated,
    PlayerNotAtTable,
    CannotLeaveDuringActiveHand,
    HandAlreadyInProgress,
    NotEnoughPlayers,
    InvalidPlayerIndex,
    NotYourTurn,
    PlayerAlreadyFolded,
    PlayerAlreadyAllIn,
    MustCallOrFold,
    NothingToCall,
    CannotBetWhenOutstandingBet,
    BetTooSmall,
    RaiseTooSmall,
    NotEnoughChips,
    NotInBettingPhase,
    NotInDealingPhase,
    NotInRevealPhase,
    NotInShowdownPhase,
    WrongCommitmentCount,
    WrongCardCount,
    NotAuthorizedCommittee,
    DealProofVerificationFailed,
    RevealProofVerificationFailed,
    ShowdownProofVerificationFailed,
    BoardNotComplete,
    InvalidHoleCards,
    TimeoutNotReached,
    TimeoutNotApplicable,
    HoleCardMismatch,
    WinnerNotEligibleForPot,
    RakeBpsExceedsMax,
    InvalidPlayerCount,
    CannotChangeMinPlayersMidHand,
    ContractPaused,
    ForceFoldNotAvailable,
    TargetNotActive,
    CannotRebuyDuringActiveHand,
    RebuyLimitReached,
    InvalidRebuyAmount,
}

/// The number under which each error is reported on the ledger.
pub open spec fn error_code(e: PokerTableError) -> u32 {
    match e {
        PokerTableError::TableNotFound => 1,
        PokerTableError::TableNotAcceptingPlayers => 2,
        PokerTableError::TableFull => 3,
        PokerTableError::InvalidBuyIn => 4,
        PokerTableError::AlreadySeated => 5,
        PokerTableError::PlayerNotAtTable => 6,
        PokerTableError::CannotLeaveDuringActiveHand => 7,
        PokerTableError::HandAlreadyInProgress => 8,
        PokerTableError::NotEnoughPlayers => 9,
        PokerTableError::InvalidPlayerIndex => 10,
        PokerTableError::NotYourTurn => 11,
        PokerTableError::PlayerAlreadyFolded => 12,
        PokerTableError::PlayerAlreadyAllIn => 13,
        PokerTableError::MustCallOrFold => 14,
        PokerTableError::NothingToCall => 15,
        PokerTableError::CannotBetWhenOutstandingBet => 16,
        PokerTableError::BetTooSmall => 17,
        PokerTableError::RaiseTooSmall => 18,
        PokerTableError::NotEnoughChips => 19,
        PokerTableError::NotInBettingPhase => 20,
        PokerTableError::NotInDealingPhase => 21,
        PokerTableError::NotInRevealPhase => 22,
        PokerTableError::NotInShowdownPhase => 23,
        PokerTableError::WrongCommitmentCount => 24,
        PokerTableError::WrongCardCount => 25,
        PokerTableError::NotAuthorizedCommittee => 26,
        PokerTableError::DealProofVerificationFailed => 27,
        PokerTableError::RevealProofVerificationFailed => 28,
        PokerTableError::ShowdownProofVerificationFailed => 29,
        PokerTableError::BoardNotComplete => 30,
        PokerTableError::InvalidHoleCards => 31,
        PokerTableError::TimeoutNotReached => 32,
        PokerTableError::TimeoutNotApplicable => 33,
        PokerTableError::HoleCardMismatch => 34,
        PokerTableError::WinnerNotEligibleForPot => 35,
        PokerTableError::RakeBpsExceedsMax => 36,
        PokerTableError::InvalidPlayerCount => 37,
        PokerTableError::CannotChangeMinPlayersMidHand => 38,
        PokerTableError::ContractPaused => 39,
        PokerTableError::ForceFoldNotAvailable => 40,
        PokerTableError::TargetNotActive => 41,
        PokerTableError::CannotRebuyDuringActiveHand => 42,
        PokerTableError::RebuyLimitReached => 43,
        PokerTableError::InvalidRebuyAmount => 44,
    }
}

impl PokerTableError {
    /// The number under which this error is reported on the ledger.
    pub fn code(&self) -> (code: u32)
        ensures
            code == error_code(*self),
    {
        match self {
            PokerTableError::TableNotFound => 1,
            PokerTableError::TableNotAcceptingPlayers => 2,
            PokerTableError::TableFull => 3,
            PokerTableError::InvalidBuyIn => 4,
            PokerTableError::AlreadySeated => 5,
            PokerTableError::PlayerNotAtTable => 6,
            PokerTableError::CannotLeaveDuringActiveHand => 7,
            PokerTableError::HandAlreadyInProgress => 8,
            PokerTableError::NotEnoughPlayers => 9,
            PokerTableError::InvalidPlayerIndex => 10,
            PokerTableError::NotYourTurn => 11,
            PokerTableError::PlayerAlreadyFolded => 12,
            PokerTableError::PlayerAlreadyAllIn => 13,
            PokerTableError::MustCallOrFold => 14,
            PokerTableError::NothingToCall => 15,
            PokerTableError::CannotBetWhenOutstandingBet => 16,
            PokerTableError::BetTooSmall => 17,
            PokerTableError::RaiseTooSmall => 18,
            PokerTableError::NotEnoughChips => 19,
            PokerTableError::NotInBettingPhase => 20,
            PokerTableError::NotInDealingPhase => 21,
            PokerTableError::NotInRevealPhase => 22,
            PokerTableError::NotInShowdownPhase => 23,
            PokerTableError::WrongCommitmentCount => 24,
            PokerTableError::WrongCardCount => 25,
            PokerTableError::NotAuthorizedCommittee => 26,
            PokerTableError::DealProofVerificationFailed => 27,
            PokerTableError::RevealProofVerificationFailed => 28,
            PokerTableError::ShowdownProofVerificationFailed => 29,
            PokerTableError::BoardNotComplete => 30,
            PokerTableError::InvalidHoleCards => 31,
            PokerTableError::TimeoutNotReached => 32,
            PokerTableError::TimeoutNotApplicable => 33,
            PokerTableError::HoleCardMismatch => 34,
            PokerTableError::WinnerNotEligibleForPot => 35,
            PokerTableError::RakeBpsExceedsMax => 36,
            PokerTableError::InvalidPlayerCount => 37,
            PokerTableError::CannotChangeMinPlayersMidHand => 38,
            PokerTableError::ContractPaused => 39,
            PokerTableError::ForceFoldNotAvailable => 40,
            PokerTableError::TargetNotActive => 41,
            PokerTableError::CannotRebuyDuringActiveHand => 42,
            PokerTableError::RebuyLimitReached => 43,
            PokerTableError::InvalidRebuyAmount => 44,
        }
    }
}

/// No two errors are reported under the same number.
pub proof fn error_codes_are_distinct(a: PokerTableError, b: PokerTableError)
    requires
        error_code(a) == error_code(b),
    ensures
        a == b,
{
}

/// One seat at a table.
#[derive(Clone, Copy, Debug, PartialEq, Eq)]
pub struct PlayerState {
    pub address: Address,
    pub stack: i128,
    pub bet_this_round: i128,
    /// Total chips this player has committed to the pot across every betting
    /// round of the current hand. Used to compute multi-way side pots, since a
    /// player can only win the chips they themselves have contributed to.
    pub committed: i128,
    pub folded: bool,
    pub all_in: bool,
    pub sitting_out: bool,
    pub seat_index: u32,
    /// Chips deposited this session: the initial buy-in plus every rebuy.
    pub total_buy_in: i128,
    pub rebuy_count: u32,
}

/// Where a table stands in the course of a hand.
#[derive(Clone, Copy, Debug, PartialEq, Eq, Structural)]
pub enum GamePhase {
    /// Waiting for players.
    Waiting,
    /// Committee is dealing.
    Dealing,
    /// Betting round: preflop.
    Preflop,
    /// Committee revealing flop.
    DealingFlop,
    /// Betting round: flop.
    Flop,
    /// Committee revealing turn.
    DealingTurn,
    /// Betting round: turn.
    Turn,
    /// Committee revealing river.
    DealingRiver,
    /// Betting round: river.
    River,
    /// Revealing hands and determining winner.
    Showdown,
    /// Pot distributed, ready for next hand.
    Settlement,
    /// Something went wrong; funds frozen.
    Dispute,
}

/// A betting action.
#[derive(Clone, Copy, Debug, PartialEq, Eq)]
pub enum Action {
    Fold,
    Check,
    Call,
    Bet(i128),
    Raise(i128),
    AllIn,
}

/// A pot that only some seats can win.
#[derive(Clone, Debug, PartialEq, Eq)]
pub struct SidePot {
    pub amount: i128,
    /// Seat indices.
    pub eligible_players: Vec<u32>,
}

/// The kind of a betting action, without its amount.
#[derive(Clone, Copy, Debug, PartialEq, Eq, Structural)]
pub enum ActionKind {
    Fold,
    Check,
    Call,
    Bet,
    Raise,
    AllIn,
}

/// One entry of a hand's action summary.
#[derive(Clone, Copy, Debug, PartialEq, Eq)]
pub struct ActionRecord {
    pub seat: u32,
    /// Betting round the action was taken in.
    pub phase: GamePhase,
    pub kind: ActionKind,
    /// Chips this action added to the pot (0 for fold/check).
    pub amount: i128,
}

/// Chips credited to a single seat when a hand settled.
#[derive(Clone, Copy, Debug, PartialEq, Eq)]
pub struct Payout {
    pub seat: u32,
    pub address: Address,
    pub amount: i128,
}

/// An immutable record of one completed hand, retained in the table's circular
/// hand-history buffer.
#[derive(Clone, Debug, PartialEq, Eq)]
pub struct HandRecord {
    pub hand_number: u32,
    /// Seat-ordered addresses of the players dealt into the hand.
    pub players: Vec<Address>,
    /// Community cards as they stood when the hand ended (may be shorter than
    /// five if everyone folded before the river).
    pub board: Vec<u32>,
    /// Betting actions in the order they were taken.
    pub actions: Vec<ActionRecord>,
    /// How the pot was split, one entry per paid seat.
    pub payouts: Vec<Payout>,
    /// Pot size before rake was deducted.
    pub total_pot: i128,
    pub rake: i128,
    /// True when the hand ended by showdown, false when everyone else folded.
    pub showdown: bool,
    pub settled_ledger: u32,
}

/// Bookkeeping for a table's circular hand-history buffer.
#[derive(Clone, Copy, Debug, PartialEq, Eq)]
pub struct HandHistoryMeta {
    /// Slot the next archived hand will be written to.
    pub next_slot: u32,
    /// Records currently stored, saturating at the buffer capacity.
    pub stored: u32,
    /// Hands archived over the table's lifetime, including evicted ones.
    pub total_archived: u32,
}

/// Everything a table remembers between two operations.
#[derive(Clone, Debug, PartialEq, Eq)]
pub struct TableState {
    pub id: u32,
    pub admin: Address,
    pub config: TableConfig,
    pub phase: GamePhase,
    pub players: Vec<PlayerState>,
    pub dealer_seat: u32,
    pub current_turn: u32,
    pub pot: i128,
    pub side_pots: Vec<SidePot>,
    pub deck_root: Bytes32,
    pub hand_commitments: Vec<Bytes32>,
    /// Revealed community cards.
    pub board_cards: Vec<u32>,
    /// Deck indices already dealt.
    pub dealt_indices: Vec<u32>,
    pub hand_number: u32,
    /// For timeout calculation.
    pub last_action_ledger: u32,
    pub committee: Address,
    /// Game hub session ID for current hand.
    pub session_id: u32,
    /// Accumulated rake collected from settled hands, withdrawable by `admin`.
    pub rake_balance: i128,
    /// Ledger sequence by which the current player must act.
    pub action_deadline: u32,
    /// Betting actions taken so far in the current hand.
    pub hand_actions: Vec<ActionRecord>,
    /// The bad-beat jackpot pool.
    pub jackpot_balance: i128,
}

/// A table with its collections as mathematical sequences.
#[verifier::ext_equal]
pub struct TableView {
    pub id: u32,
    pub admin: Address,
    pub config: TableConfig,
    pub phase: GamePhase,
    pub players: Seq<PlayerState>,
    pub dealer_seat: u32,
    pub current_turn: u32,
    pub pot: i128,
    pub side_pots: Seq<SidePot>,
    pub deck_root: Bytes32,
    pub hand_commitments: Seq<Bytes32>,
    pub board_cards: Seq<u32>,
    pub dealt_indices: Seq<u32>,
    pub hand_number: u32,
    pub last_action_ledger: u32,
    pub committee: Address,
    pub session_id: u32,
    pub rake_balance: i128,
    pub action_deadline: u32,
    pub hand_actions: Seq<ActionRecord>,
    pub jackpot_balance: i128,
}

impl View for TableState {
    type V = TableView;

    open spec fn view(&self) -> TableView {
        TableView {
            id: self.id,
            admin: self.admin,
            config: self.config,
            phase: self.phase,
            players: self.players@,
            dealer_seat: self.dealer_seat,
            current_turn: self.current_turn,
            pot: self.pot,
            side_pots: self.side_pots@,
            deck_root: self.deck_root,
            hand_commitments: self.hand_commitments@,
            board_cards: self.board_cards@,
            dealt_indices: self.dealt_indices@,
            hand_number: self.hand_number,
            last_action_ledger: self.last_action_ledger,
            committee: self.committee,
            session_id: self.session_id,
            rake_balance: self.rake_balance,
            action_deadline: self.action_deadline,
            hand_actions: self.hand_actions@,
            jackpot_balance: self.jackpot_balance,
        }
    }
}

/// What the ledger holds under a table's key, with the table as its view.
pub open spec fn stored_view(stored: Option<TableState>) -> Option<TableView> {
    match stored {
        Some(table) => Some(table@),
        None => None,
    }
}

/// What another module made of a table: its next state, or a refusal.
pub open spec fn result_view(
    result: Result<TableState, PokerTableError>,
) -> Result<TableView, PokerTableError> {
    match result {
        Ok(table) => Ok(table@),
        Err(e) => Err(e),
    }
}

/// A key of the contract's storage.
#[derive(Clone, Copy, Debug, PartialEq, Eq)]
pub enum DataKey {
    Table(u32),
    /// Per-table pause flag.
    Paused(u32),
    /// One archived hand: (table_id, circular buffer slot).
    HandRecord(u32, u32),
    /// Circular buffer bookkeeping for a table's hand history.
    HandHistoryMeta(u32),
    /// Tables a wallet is currently seated at, for multi-table clients.
    PlayerTables(Address),
}

/// Which way a token transfer goes.
#[derive(Clone, Copy, Debug, PartialEq, Eq, Structural)]
pub enum Direction {
    /// From the account into the contract.
    Deposit,
    /// From the contract to the account.
    Withdrawal,
}

/// A token transfer that an operation asks for.
#[derive(Clone, Copy, Debug, PartialEq, Eq)]
pub struct Transfer {
    pub token: Address,
    pub account: Address,
    pub direction: Direction,
    pub amount: i128,
}

/// What becomes of a wallet's stored list of tables.
#[derive(Debug, PartialEq, Eq)]
pub enum IndexUpdate {
    /// Nothing is written.
    Keep,
    /// The list is replaced by this one.
    Store(Vec<u32>),
    /// The list is deleted.
    Remove,
}

} // verus!
