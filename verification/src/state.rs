//! Data model of the settlement engine: configuration, draws, bets,
//! winners, the execution context, and transfer intents, together with
//! their mathematical views and well-formedness invariants.

use vstd::prelude::*;

verus! {

/// Identity of an account, as the engine reads it: an opaque number.
pub type AccountId = u128;

/// An amount of the settlement currency.
pub type Balance = u128;

/// What the host hands to every engine entry point: who is calling and
/// what the clock reads. The engine never consults ambient state.
#[derive(Clone, Copy, Debug, PartialEq, Eq, Structural)]
pub struct ExecContext {
    /// The account invoking the operation
    pub caller: AccountId,
    /// The current block height
    pub block_number: u32,
    /// The current block timestamp, used as randomness seed input
    pub block_timestamp: u64,
}

/// One asset-transfer intent: the engine issues each exactly once per
/// logical payout line, and the host executes it.
#[derive(Clone, Copy, Debug, PartialEq, Eq, Structural)]
pub struct Transfer {
    /// Identifier of the settlement currency
    pub asset_id: u128,
    /// Destination account
    pub to: AccountId,
    /// Amount moved
    pub amount: Balance,
}

/// Administrative parameters of the lottery.
#[derive(Clone, Copy, Debug, PartialEq, Eq, Structural)]
pub struct LotterySetup {
    /// Account authorized for operational actions
    pub operator: AccountId,
    /// Account authorized to change this configuration
    pub dev: AccountId,
    /// Identifier of the settlement currency
    pub asset_id: u128,
    /// Starting block of the current cycle
    pub starting_block: u32,
    /// Length of one cycle in blocks
    pub daily_total_blocks: u32,
    /// Starting block of the next cycle; always
    /// `starting_block + daily_total_blocks`
    pub next_starting_block: u32,
    /// Maximum number of draws the registry may hold
    pub maximum_draws: u8,
    /// Maximum number of bets per draw
    pub maximum_bets: u16,
    /// Whether the lottery is currently started
    pub is_started: bool,
}

impl LotterySetup {
    /// The configuration invariant: the next cycle starts exactly one
    /// cycle length after the current one.
    pub open spec fn wf(self) -> bool {
        self.next_starting_block == self.starting_block + self.daily_total_blocks
    }
}

/// Lifecycle state of a draw.
#[derive(Clone, Copy, Debug, PartialEq, Eq, Structural)]
pub enum DrawStatus {
    /// Accepting bets
    Open,
    /// Betting closed, winning number drawn, awaiting close
    Processing,
    /// No betting; the initial state and the state after settlement
    Close,
}

impl Default for DrawStatus {
    fn default() -> (r: Self)
        ensures
            r == DrawStatus::Close,
    {
        DrawStatus::Close
    }
}

/// A bet recorded against a draw.
#[derive(Debug, PartialEq, Eq)]
pub struct Bet {
    /// The wagering account
    pub bettor: AccountId,
    /// The referring account, possibly an inert placeholder
    pub upline: AccountId,
    /// The number wagered on
    pub bet_number: u16,
    /// Opaque reference to the payment proof that justified this bet
    pub tx_hash: Vec<u8>,
}

/// Mathematical view of a [`Bet`].
#[verifier::ext_equal]
pub ghost struct BetView {
    pub bettor: AccountId,
    pub upline: AccountId,
    pub bet_number: u16,
    pub tx_hash: Seq<u8>,
}

impl View for Bet {
    type V = BetView;

    open spec fn view(&self) -> BetView {
        BetView {
            bettor: self.bettor,
            upline: self.upline,
            bet_number: self.bet_number,
            tx_hash: self.tx_hash@,
        }
    }
}

impl Clone for Bet {
    fn clone(&self) -> (r: Self)
        ensures
            r@ == self@,
    {
        Bet {
            bettor: self.bettor,
            upline: self.upline,
            bet_number: self.bet_number,
            tx_hash: self.tx_hash.clone(),
        }
    }
}

/// A winning record, produced once per close cycle.
#[derive(Debug, PartialEq, Eq)]
pub struct Winner {
    /// Number of the draw that was won
    pub draw_number: u32,
    /// The winning bettor
    pub bettor: AccountId,
    /// The winning bet's referrer
    pub upline: AccountId,
    /// The number wagered on
    pub bet_number: u16,
    /// Payment proof reference carried over from the bet
    pub tx_hash: Vec<u8>,
    /// The bettor's equal share of the jackpot payout
    pub bettor_share: Balance,
    /// The referrer's equal share of the referral pool
    pub upline_share: Balance,
}

/// Mathematical view of a [`Winner`].
#[verifier::ext_equal]
pub ghost struct WinnerView {
    pub draw_number: u32,
    pub bettor: AccountId,
    pub upline: AccountId,
    pub bet_number: u16,
    pub tx_hash: Seq<u8>,
    pub bettor_share: Balance,
    pub upline_share: Balance,
}

impl View for Winner {
    type V = WinnerView;

    open spec fn view(&self) -> WinnerView {
        WinnerView {
            draw_number: self.draw_number,
            bettor: self.bettor,
            upline: self.upline,
            bet_number: self.bet_number,
            tx_hash: self.tx_hash@,
            bettor_share: self.bettor_share,
            upline_share: self.upline_share,
        }
    }
}

impl Clone for Winner {
    fn clone(&self) -> (r: Self)
        ensures
            r@ == self@,
    {
        Winner {
            draw_number: self.draw_number,
            bettor: self.bettor,
            upline: self.upline,
            bet_number: self.bet_number,
            tx_hash: self.tx_hash.clone(),
            bettor_share: self.bettor_share,
            upline_share: self.upline_share,
        }
    }
}

/// One lottery round: its betting window, ledger, winning number and
/// accumulators.
#[derive(Debug, PartialEq, Eq)]
pub struct Draw {
    /// Unique, monotonically assigned number of this draw
    pub draw_number: u32,
    /// Offset from the cycle's starting block after which the draw may open
    pub opening_blocks: u32,
    /// Offset from the cycle's starting block after which the draw may be
    /// processed
    pub processing_blocks: u32,
    /// Offset from the cycle's starting block after which the draw may be
    /// closed
    pub closing_blocks: u32,
    /// Fixed price of one bet
    pub bet_amount: Balance,
    /// Accumulated balance awaiting distribution to winners
    pub jackpot: Balance,
    /// Accumulated balance awaiting distribution to all bettors
    pub rebate: Balance,
    /// The bet ledger, in arrival order
    pub bets: Vec<Bet>,
    /// The drawn (or overridden) winning number
    pub winning_number: u16,
    /// Winning records of the latest close cycle
    pub winners: Vec<Winner>,
    /// Lifecycle state
    pub status: DrawStatus,
    /// Redundant mirror of "accepting bets", kept in lock-step with
    /// `status == DrawStatus::Open`
    pub is_open: bool,
}

/// Mathematical view of a [`Draw`].
#[verifier::ext_equal]
pub ghost struct DrawView {
    pub draw_number: u32,
    pub opening_blocks: u32,
    pub processing_blocks: u32,
    pub closing_blocks: u32,
    pub bet_amount: Balance,
    pub jackpot: Balance,
    pub rebate: Balance,
    pub bets: Seq<BetView>,
    pub winning_number: u16,
    pub winners: Seq<WinnerView>,
    pub status: DrawStatus,
    pub is_open: bool,
}

impl View for Draw {
    type V = DrawView;

    open spec fn view(&self) -> DrawView {
        DrawView {
            draw_number: self.draw_number,
            opening_blocks: self.opening_blocks,
            processing_blocks: self.processing_blocks,
            closing_blocks: self.closing_blocks,
            bet_amount: self.bet_amount,
            jackpot: self.jackpot,
            rebate: self.rebate,
            bets: self.bets@.map_values(|b: Bet| b@),
            winning_number: self.winning_number,
            winners: self.winners@.map_values(|w: Winner| w@),
            status: self.status,
            is_open: self.is_open,
        }
    }
}

impl Clone for Draw {
    fn clone(&self) -> (r: Self)
        ensures
            r@ == self@,
    {
        let r = Draw {
            draw_number: self.draw_number,
            opening_blocks: self.opening_blocks,
            processing_blocks: self.processing_blocks,
            closing_blocks: self.closing_blocks,
            bet_amount: self.bet_amount,
            jackpot: self.jackpot,
            rebate: self.rebate,
            bets: self.bets.clone(),
            winning_number: self.winning_number,
            winners: self.winners.clone(),
            status: self.status,
            is_open: self.is_open,
        };
        proof {
            assert(r.bets@.map_values(|b: Bet| b@) =~= self.bets@.map_values(|b: Bet| b@));
            assert(r.winners@.map_values(|w: Winner| w@) =~= self.winners@.map_values(
                |w: Winner| w@,
            ));
            assert(r@ =~= self@);
        }
        r
    }
}

impl DrawView {
    /// The per-draw invariant: the betting window's offsets are strictly
    /// ordered, and the open flag mirrors the lifecycle state.
    pub open spec fn wf(self) -> bool {
        &&& self.opening_blocks < self.processing_blocks < self.closing_blocks
        &&& (self.is_open <==> self.status == DrawStatus::Open)
    }
}

} // verus!
