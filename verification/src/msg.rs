//! The messages the controller accepts and the responses it returns.

use vstd::prelude::*;
use crate::fixed::Fixed;

verus! {

/// The controller's configuration.
#[derive(Clone, PartialEq, Eq, Debug)]
pub struct Config {
    /// The only address allowed to run owner-gated operations.
    pub owner: String,
    pub anchor_token: String,
    pub anchor_voting_escrow: String,
    /// Seconds per period; strictly positive.
    pub period_duration: u64,
    /// Minimum number of periods between two votes of one voter for one
    /// gauge.
    pub user_vote_delay: u64,
}

/// What the lock authority reports about a voter's lock at the time of a
/// vote: the period in which the lock expires, and the voter's undiluted
/// decay slope as an exact fraction.
#[derive(Clone, Copy, PartialEq, Eq, Structural, Debug)]
pub struct LockInfo {
    pub unlock_period: u64,
    pub slope_numerator: u128,
    pub slope_denominator: u128,
}

#[derive(Clone, PartialEq, Eq, Debug)]
pub struct InstantiateMsg {
    pub owner: String,
    pub anchor_token: String,
    pub anchor_voting_escrow: String,
    pub period_duration: u64,
    pub user_vote_delay: u64,
}

#[derive(Clone, PartialEq, Eq, Debug)]
pub enum ExecuteMsg {
    AddGauge { gauge_addr: String, weight: u128 },
    ChangeGaugeWeight { gauge_addr: String, weight: u128 },
    VoteForGaugeWeight { gauge_addr: String, ratio: u64 },
    UpdateConfig {
        owner: Option<String>,
        anchor_token: Option<String>,
        anchor_voting_escrow: Option<String>,
        user_vote_delay: Option<u64>,
    },
}

#[derive(Clone, PartialEq, Eq, Debug)]
pub enum QueryMsg {
    GaugeCount,
    GaugeWeight { gauge_addr: String },
    GaugeWeightAt { gauge_addr: String, time: u64 },
    TotalWeight,
    TotalWeightAt { time: u64 },
    GaugeRelativeWeight { gauge_addr: String },
    GaugeRelativeWeightAt { gauge_addr: String, time: u64 },
    GaugeAddr { gauge_id: u64 },
    AllGaugeAddr,
    Config,
}

#[derive(Clone, Copy, PartialEq, Eq, Structural, Debug)]
pub struct GaugeCountResponse {
    pub gauge_count: u64,
}

#[derive(Clone, Copy, PartialEq, Eq, Structural, Debug)]
pub struct GaugeWeightResponse {
    pub gauge_weight: u128,
}

#[derive(Clone, Copy, PartialEq, Eq, Structural, Debug)]
pub struct GaugeWeightAtResponse {
    pub gauge_weight_at: u128,
}

#[derive(Clone, Copy, PartialEq, Eq, Structural, Debug)]
pub struct TotalWeightResponse {
    pub total_weight: u128,
}

#[derive(Clone, Copy, PartialEq, Eq, Structural, Debug)]
pub struct TotalWeightAtResponse {
    pub total_weight_at: u128,
}

#[derive(Clone, Copy, PartialEq, Eq, Structural, Debug)]
pub struct GaugeRelativeWeightResponse {
    pub gauge_relative_weight: Fixed,
}

#[derive(Clone, Copy, PartialEq, Eq, Structural, Debug)]
pub struct GaugeRelativeWeightAtResponse {
    pub gauge_relative_weight_at: Fixed,
}

#[derive(Clone, PartialEq, Eq, Debug)]
pub struct GaugeAddrResponse {
    pub gauge_addr: String,
}

#[derive(Clone, PartialEq, Eq, Debug)]
pub struct AllGaugeAddrResponse {
    pub all_gauge_addr: Vec<String>,
}

#[derive(Clone, PartialEq, Eq, Debug)]
pub struct ConfigResponse {
    pub owner: String,
    pub anchor_token: String,
    pub anchor_voting_escrow: String,
    pub period_duration: u64,
    pub user_vote_delay: u64,
}

/// The typed answer of the `query` dispatcher, one variant per query.
#[derive(Clone, PartialEq, Eq, Debug)]
pub enum QueryAnswer {
    GaugeCount(GaugeCountResponse),
    GaugeWeight(GaugeWeightResponse),
    GaugeWeightAt(GaugeWeightAtResponse),
    TotalWeight(TotalWeightResponse),
    TotalWeightAt(TotalWeightAtResponse),
    GaugeRelativeWeight(GaugeRelativeWeightResponse),
    GaugeRelativeWeightAt(GaugeRelativeWeightAtResponse),
    GaugeAddr(GaugeAddrResponse),
    AllGaugeAddr(AllGaugeAddrResponse),
    Config(ConfigResponse),
}

} // verus!
