//! The errors that operations and queries report.

use vstd::prelude::*;

verus! {

/// Why an operation or a query was rejected. Every rejection leaves the
/// controller unchanged.
#[derive(Clone, Copy, PartialEq, Eq, Structural, Debug)]
pub enum ContractError {
    /// The caller is not the configured owner of an owner-gated operation.
    Unauthorized,
    /// A gauge with this address is already registered.
    GaugeAlreadyExists,
    /// The gauge address or gauge id is not registered.
    GaugeNotFound,
    /// A voting ratio above 10000 basis points.
    InvalidVotingRatio,
    /// A re-vote for the same gauge before the minimum interval elapsed.
    VoteTooOften,
    /// The voter's total allocation would exceed 10000 basis points.
    InsufficientVotingRatio,
    /// The voter's lock expires in the current period or earlier.
    LockExpiresTooSoon,
    /// A relative-weight query while the aggregate weight is zero.
    TotalWeightIsZero,
    /// A mutating call at a period behind the gauge's last checkpoint.
    TimestampError,
    /// A fixed-point computation exceeded the representable range.
    ArithmeticOverflow,
    /// A configuration with a period duration of zero.
    InvalidPeriodDuration,
}

} // verus!
