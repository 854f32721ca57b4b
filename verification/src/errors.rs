//! Error taxonomy and outcome notifications of the settlement engine.

use vstd::prelude::*;

verus! {

/// Guard failures of the engine's state-changing operations.
///
/// Every failure is local and non-fatal: the operation reports it to the
/// caller and leaves the ledger unchanged.
#[derive(Clone, Copy, Debug, PartialEq, Eq, Structural)]
pub enum Error {
    /// Attempt to start the lottery when it is already started
    AlreadyStarted,
    /// A temporal gate against the block clock was not met
    InvalidBlock,
    /// Attempt to start the lottery beyond the starting block
    StartingBlockPassed,
    /// No record to operate on
    NoRecords,
    /// The caller is not authorized for the operation
    BadOrigin,
    /// Total draws would exceed the configured maximum
    TooManyDraws,
    /// No draw carries the given draw number
    DrawNotFound,
    /// The draw is not accepting bets
    DrawClosed,
    /// The draw is currently accepting bets
    DrawOpen,
    /// The draw is already being processed
    DrawProcessing,
    /// The draw is not in the processing state
    DrawNotProcessing,
    /// The bet does not match the configured bet amount
    InvalidBetAmount,
    /// The per-draw block offsets are not strictly ordered below the cycle
    InvalidBlocksHierarchy,
    /// The draw is not in the closed state
    DrawNotClosed,
}

/// Failures of the external asset-transfer collaborator.
#[derive(Clone, Copy, Debug, PartialEq, Eq, Structural)]
pub enum RuntimeError {
    /// A runtime call issued by the host could not be dispatched
    CallRuntimeFailed,
}

/// Unified error type: an internal guard failure or an external one.
#[derive(Clone, Copy, Debug, PartialEq, Eq, Structural)]
pub enum ContractError {
    /// Internal errors
    Internal(Error),
    /// Runtime call errors
    Runtime(RuntimeError),
}

impl From<Error> for ContractError {
    fn from(err: Error) -> (r: Self) {
        ContractError::Internal(err)
    }
}

impl vstd::std_specs::convert::FromSpecImpl<Error> for ContractError {
    open spec fn obeys_from_spec() -> bool {
        true
    }

    open spec fn from_spec(err: Error) -> Self {
        ContractError::Internal(err)
    }
}

impl From<RuntimeError> for ContractError {
    fn from(err: RuntimeError) -> (r: Self) {
        ContractError::Runtime(err)
    }
}

impl vstd::std_specs::convert::FromSpecImpl<RuntimeError> for ContractError {
    open spec fn obeys_from_spec() -> bool {
        true
    }

    open spec fn from_spec(err: RuntimeError) -> Self {
        ContractError::Runtime(err)
    }
}

/// Successful outcomes, for the host's event sink.
#[derive(Clone, Copy, Debug, PartialEq, Eq, Structural)]
pub enum Success {
    LotterySetup,
    LotteryStarted,
    LotteryStopped,
    DrawAdded,
    DrawProcessed,
    DrawClosed,
    BetAdded,
}

/// What the host's event sink is notified with: a success or an error,
/// never consulted for control flow.
#[derive(Clone, Copy, Debug, PartialEq, Eq, Structural)]
pub enum LotteryStatus {
    EmitSuccess(Success),
    EmitError(Error),
}

} // verus!
