//! Vocabulary of the betting ledger.
use vstd::prelude::*;

verus! {

/// What a bet predicts.
#[derive(Clone, Copy, Debug, PartialEq, Eq, Structural)]
pub enum BetType {
    /// A yes/no prediction.
    Binary,
    /// A numeric prediction.
    Quantity,
    /// When an event occurs.
    Timing,
    /// A sequence of events.
    Pattern,
}

/// Lifecycle state of a bet.
#[derive(Clone, Copy, Debug, PartialEq, Eq, Structural)]
pub enum BetStatus {
    Active,
    Resolved,
    Cancelled,
    Expired,
}

/// How a bet's outcome was established.
#[derive(Clone, Copy, Debug, PartialEq, Eq, Structural)]
pub enum DetectionMethod {
    ComputerVision,
    UserConsensus,
    ManualVerification,
    TimeBased,
}

} // verus!
