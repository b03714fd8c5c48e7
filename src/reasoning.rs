//! Vocabulary of the hybrid reasoning paradigms that settle bets.
use vstd::prelude::*;

verus! {

#[derive(Clone, Copy, Debug, PartialEq, Eq, Structural)]
pub enum OutcomeType {
    Win,
    Loss,
    PartialWin,
    Void,
    Split,
    Uncertain,
}

#[derive(Clone, Copy, Debug, PartialEq, Eq, Structural)]
pub enum ReasoningParadigm {
    Imperative,
    Logical,
    Fuzzy,
    Hybrid,
}

#[derive(Clone, Copy, Debug, PartialEq, Eq, Structural)]
pub enum ConditionType {
    SpeedMilestone,
    PoseEvent,
    DetectionCount,
    TimeBasedEvent,
    MultiFactorEvent,
    ComplexPattern,
}

#[derive(Clone, Copy, Debug, PartialEq, Eq, Structural)]
pub enum MembershipFunction {
    Triangular,
    Trapezoidal,
    Gaussian,
    Sigmoid,
    Bell,
}

#[derive(Clone, Copy, Debug, PartialEq, Eq, Structural)]
pub enum PredicateType {
    Exists,
    ForAll,
    Implies,
    And,
    Or,
    Not,
    Temporal,
}

#[derive(Clone, Copy, Debug, PartialEq, Eq, Structural)]
pub enum ConstraintType {
    Equal,
    GreaterThan,
    LessThan,
    Within,
    Outside,
}

#[derive(Clone, Copy, Debug, PartialEq, Eq, Structural)]
pub enum DistributionMethod {
    WinnerTakesAll,
    ProportionalSharing,
    TieredDistribution,
    FuzzyProportional,
    HybridDistribution,
}

} // verus!
