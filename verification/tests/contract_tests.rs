//! The controller exercised through `execute` and `query`, end to end.

use gauge_controller::controller::Controller;
use gauge_controller::errors::ContractError;
use gauge_controller::fixed::Fixed;
use gauge_controller::msg::{
    AllGaugeAddrResponse, ConfigResponse, ExecuteMsg, GaugeAddrResponse, GaugeCountResponse,
    GaugeRelativeWeightAtResponse, GaugeRelativeWeightResponse, GaugeWeightAtResponse,
    GaugeWeightResponse, InstantiateMsg, LockInfo, QueryAnswer, QueryMsg, TotalWeightAtResponse,
    TotalWeightResponse,
};

const WEEK: u64 = 604800;
const VOTE_DELAY: u64 = 2;
const BASE_TIME: u64 = 1600000000;
const SCALE: u128 = 1_000_000_000;

/// The period `BASE_TIME` falls in.
fn base_period() -> u64 {
    BASE_TIME / WEEK
}

/// A lock report for a voter: expires `unlock_offset` periods after
/// `BASE_TIME`'s period, with the given full slope in atomic units per
/// period.
fn lock(unlock_offset: u64, slope_atomics: u128) -> LockInfo {
    LockInfo {
        unlock_period: base_period() + unlock_offset,
        slope_numerator: slope_atomics,
        slope_denominator: SCALE,
    }
}

/// A placeholder report for messages that never read it.
fn no_lock() -> LockInfo {
    LockInfo { unlock_period: 0, slope_numerator: 0, slope_denominator: 1 }
}

fn instantiate_default() -> Controller {
    Controller::instantiate(InstantiateMsg {
        owner: "owner".to_string(),
        anchor_token: "anchor_token".to_string(),
        anchor_voting_escrow: "anchor_voting_escrow".to_string(),
        period_duration: WEEK,
        user_vote_delay: VOTE_DELAY,
    })
    .unwrap()
}

fn run_execute_msg_expect_ok(
    ctl: &mut Controller,
    sender: String,
    msg: ExecuteMsg,
    time: u64,
    lock: LockInfo,
) {
    if let Err(err) = ctl.execute(sender, time, msg, lock) {
        panic!("{:?}", err);
    }
}

fn run_execute_msg_expect_error(
    expect_err: ContractError,
    ctl: &mut Controller,
    sender: String,
    msg: ExecuteMsg,
    time: u64,
    lock: LockInfo,
) {
    match ctl.execute(sender, time, msg, lock) {
        Err(err) => assert_eq!(expect_err, err),
        _ => panic!("DO NOT ENTER HERE"),
    };
}

fn run_query_msg_expect_ok(expect_response: QueryAnswer, ctl: &Controller, msg: QueryMsg, time: u64) {
    assert_eq!(expect_response, ctl.query(time, msg).unwrap());
}

fn run_query_msg_expect_error(expect_err: ContractError, ctl: &Controller, msg: QueryMsg, time: u64) {
    match ctl.query(time, msg) {
        Err(err) => assert_eq!(expect_err, err),
        _ => panic!("DO NOT ENTER HERE"),
    };
}

#[test]
fn proper_initialization() {
    let ctl = instantiate_default();

    let config = match ctl.query(BASE_TIME, QueryMsg::Config).unwrap() {
        QueryAnswer::Config(c) => c,
        _ => panic!("DO NOT ENTER HERE"),
    };
    assert_eq!("owner", config.owner.as_str());
    assert_eq!("anchor_token", config.anchor_token.as_str());
    assert_eq!("anchor_voting_escrow", config.anchor_voting_escrow.as_str());
}

#[test]
fn test_add_two_gauges_and_change_weight() {
    let mut ctl = instantiate_default();
    let time = BASE_TIME;

    run_execute_msg_expect_ok(
        &mut ctl,
        "owner".to_string(),
        ExecuteMsg::AddGauge { gauge_addr: "gauge_addr_1".to_string(), weight: 100 },
        time,
        no_lock(),
    );

    run_query_msg_expect_ok(
        QueryAnswer::GaugeCount(GaugeCountResponse { gauge_count: 1 }),
        &ctl,
        QueryMsg::GaugeCount,
        time,
    );

    run_query_msg_expect_ok(
        QueryAnswer::GaugeWeight(GaugeWeightResponse { gauge_weight: 100 }),
        &ctl,
        QueryMsg::GaugeWeight { gauge_addr: "gauge_addr_1".to_string() },
        time,
    );

    run_query_msg_expect_error(
        ContractError::GaugeNotFound,
        &ctl,
        QueryMsg::GaugeWeight { gauge_addr: "gauge_addr_2".to_string() },
        time,
    );

    run_query_msg_expect_ok(
        QueryAnswer::GaugeAddr(GaugeAddrResponse { gauge_addr: "gauge_addr_1".to_string() }),
        &ctl,
        QueryMsg::GaugeAddr { gauge_id: 0 },
        time,
    );

    run_query_msg_expect_error(
        ContractError::GaugeNotFound,
        &ctl,
        QueryMsg::GaugeAddr { gauge_id: 1 },
        time,
    );

    run_execute_msg_expect_error(
        ContractError::GaugeAlreadyExists,
        &mut ctl,
        "owner".to_string(),
        ExecuteMsg::AddGauge { gauge_addr: "gauge_addr_1".to_string(), weight: 100 },
        time,
        no_lock(),
    );

    run_execute_msg_expect_error(
        ContractError::Unauthorized,
        &mut ctl,
        "addr0000".to_string(),
        ExecuteMsg::AddGauge { gauge_addr: "gauge_addr_2".to_string(), weight: 100 },
        time,
        no_lock(),
    );

    run_execute_msg_expect_ok(
        &mut ctl,
        "owner".to_string(),
        ExecuteMsg::AddGauge { gauge_addr: "gauge_addr_2".to_string(), weight: 100 },
        time,
        no_lock(),
    );

    run_query_msg_expect_ok(
        QueryAnswer::GaugeCount(GaugeCountResponse { gauge_count: 2 }),
        &ctl,
        QueryMsg::GaugeCount,
        time,
    );

    run_query_msg_expect_ok(
        QueryAnswer::AllGaugeAddr(AllGaugeAddrResponse {
            all_gauge_addr: vec!["gauge_addr_1".to_string(), "gauge_addr_2".to_string()],
        }),
        &ctl,
        QueryMsg::AllGaugeAddr,
        time,
    );

    run_execute_msg_expect_error(
        ContractError::Unauthorized,
        &mut ctl,
        "addr0000".to_string(),
        ExecuteMsg::ChangeGaugeWeight { gauge_addr: "gauge_addr_1".to_string(), weight: 200 },
        time,
        no_lock(),
    );

    run_execute_msg_expect_error(
        ContractError::GaugeNotFound,
        &mut ctl,
        "owner".to_string(),
        ExecuteMsg::ChangeGaugeWeight { gauge_addr: "gauge_addr_3".to_string(), weight: 200 },
        time,
        no_lock(),
    );

    run_execute_msg_expect_ok(
        &mut ctl,
        "owner".to_string(),
        ExecuteMsg::ChangeGaugeWeight { gauge_addr: "gauge_addr_1".to_string(), weight: 200 },
        time,
        no_lock(),
    );

    run_query_msg_expect_ok(
        QueryAnswer::GaugeWeight(GaugeWeightResponse { gauge_weight: 200 }),
        &ctl,
        QueryMsg::GaugeWeight { gauge_addr: "gauge_addr_1".to_string() },
        time,
    );

    run_query_msg_expect_ok(
        QueryAnswer::GaugeRelativeWeight(GaugeRelativeWeightResponse {
            gauge_relative_weight: Fixed::checked_from_ratio(2, 3).unwrap(),
        }),
        &ctl,
        QueryMsg::GaugeRelativeWeight { gauge_addr: "gauge_addr_1".to_string() },
        time,
    );

    run_execute_msg_expect_error(
        ContractError::TimestampError,
        &mut ctl,
        "owner".to_string(),
        ExecuteMsg::ChangeGaugeWeight { gauge_addr: "gauge_addr_2".to_string(), weight: 200 },
        time - WEEK,
        no_lock(),
    );
}

#[test]
fn test_vote_for_single_gauge_by_single_user() {
    let mut ctl = instantiate_default();
    let mut time = BASE_TIME;
    // What the escrow reports for user_1 throughout this history.
    let user_1 = lock(100, 9982443532982890);

    run_execute_msg_expect_ok(
        &mut ctl,
        "owner".to_string(),
        ExecuteMsg::AddGauge { gauge_addr: "gauge_addr_1".to_string(), weight: 23333 },
        time,
        no_lock(),
    );

    run_execute_msg_expect_error(
        ContractError::InvalidVotingRatio,
        &mut ctl,
        "user_1".to_string(),
        ExecuteMsg::VoteForGaugeWeight { gauge_addr: "gauge_addr_1".to_string(), ratio: 10001 },
        time,
        user_1,
    );

    run_execute_msg_expect_ok(
        &mut ctl,
        "user_1".to_string(),
        ExecuteMsg::VoteForGaugeWeight { gauge_addr: "gauge_addr_1".to_string(), ratio: 10000 },
        time,
        user_1,
    );

    time += WEEK * (VOTE_DELAY - 1);

    run_execute_msg_expect_error(
        ContractError::VoteTooOften,
        &mut ctl,
        "user_1".to_string(),
        ExecuteMsg::VoteForGaugeWeight { gauge_addr: "gauge_addr_1".to_string(), ratio: 10000 },
        time,
        user_1,
    );

    run_query_msg_expect_ok(
        QueryAnswer::GaugeWeight(GaugeWeightResponse { gauge_weight: 988285242 }),
        &ctl,
        QueryMsg::GaugeWeight { gauge_addr: "gauge_addr_1".to_string() },
        time,
    );

    time += WEEK;

    run_query_msg_expect_ok(
        QueryAnswer::GaugeWeight(GaugeWeightResponse { gauge_weight: 978302799 }),
        &ctl,
        QueryMsg::GaugeWeight { gauge_addr: "gauge_addr_1".to_string() },
        time,
    );

    run_execute_msg_expect_ok(
        &mut ctl,
        "user_1".to_string(),
        ExecuteMsg::VoteForGaugeWeight { gauge_addr: "gauge_addr_1".to_string(), ratio: 0 },
        time,
        user_1,
    );

    run_query_msg_expect_ok(
        QueryAnswer::GaugeWeight(GaugeWeightResponse { gauge_weight: 23333 }),
        &ctl,
        QueryMsg::GaugeWeight { gauge_addr: "gauge_addr_1".to_string() },
        time,
    );

    time += 100 * WEEK;

    run_query_msg_expect_ok(
        QueryAnswer::GaugeWeight(GaugeWeightResponse { gauge_weight: 23333 }),
        &ctl,
        QueryMsg::GaugeWeight { gauge_addr: "gauge_addr_1".to_string() },
        time,
    );

    run_execute_msg_expect_error(
        ContractError::LockExpiresTooSoon,
        &mut ctl,
        "user_1".to_string(),
        ExecuteMsg::VoteForGaugeWeight { gauge_addr: "gauge_addr_1".to_string(), ratio: 10000 },
        time,
        user_1,
    );
}

#[test]
fn test_vote_for_single_gauge_by_multiple_users() {
    let mut ctl = instantiate_default();
    let mut time = BASE_TIME;
    let user_1 = lock(100, 9982443556749629);
    let user_2 = lock(66, 15151515247288312);

    run_execute_msg_expect_ok(
        &mut ctl,
        "owner".to_string(),
        ExecuteMsg::AddGauge { gauge_addr: "gauge_addr_1".to_string(), weight: 0 },
        time,
        no_lock(),
    );

    run_query_msg_expect_error(
        ContractError::TotalWeightIsZero,
        &ctl,
        QueryMsg::GaugeRelativeWeight { gauge_addr: "gauge_addr_1".to_string() },
        time,
    );

    run_query_msg_expect_error(
        ContractError::TotalWeightIsZero,
        &ctl,
        QueryMsg::GaugeRelativeWeightAt {
            gauge_addr: "gauge_addr_1".to_string(),
            time: time + 100 * WEEK,
        },
        time,
    );

    run_execute_msg_expect_ok(
        &mut ctl,
        "owner".to_string(),
        ExecuteMsg::ChangeGaugeWeight { gauge_addr: "gauge_addr_1".to_string(), weight: 23333 },
        time,
        no_lock(),
    );

    run_execute_msg_expect_ok(
        &mut ctl,
        "user_1".to_string(),
        ExecuteMsg::VoteForGaugeWeight { gauge_addr: "gauge_addr_1".to_string(), ratio: 768 },
        time,
        user_1,
    );

    time += WEEK;

    run_execute_msg_expect_ok(
        &mut ctl,
        "user_2".to_string(),
        ExecuteMsg::VoteForGaugeWeight { gauge_addr: "gauge_addr_1".to_string(), ratio: 8453 },
        time,
        user_2,
    );

    run_query_msg_expect_ok(
        QueryAnswer::GaugeWeight(GaugeWeightResponse { gauge_weight: 908414277 }),
        &ctl,
        QueryMsg::GaugeWeight { gauge_addr: "gauge_addr_1".to_string() },
        time,
    );

    run_query_msg_expect_ok(
        QueryAnswer::GaugeWeightAt(GaugeWeightAtResponse { gauge_weight_at: 19956276 }),
        &ctl,
        QueryMsg::GaugeWeightAt {
            gauge_addr: "gauge_addr_1".to_string(),
            time: time + 73 * WEEK,
        },
        time,
    );

    time += 23 * WEEK;

    run_query_msg_expect_ok(
        QueryAnswer::GaugeWeight(GaugeWeightResponse { gauge_weight: 596207044 }),
        &ctl,
        QueryMsg::GaugeWeight { gauge_addr: "gauge_addr_1".to_string() },
        time,
    );

    time += 42 * WEEK;

    run_query_msg_expect_ok(
        QueryAnswer::GaugeWeight(GaugeWeightResponse { gauge_weight: 26089489 }),
        &ctl,
        QueryMsg::GaugeWeight { gauge_addr: "gauge_addr_1".to_string() },
        time,
    );

    time += 8 * WEEK;

    run_query_msg_expect_ok(
        QueryAnswer::GaugeWeight(GaugeWeightResponse { gauge_weight: 19956276 }),
        &ctl,
        QueryMsg::GaugeWeight { gauge_addr: "gauge_addr_1".to_string() },
        time,
    );

    run_query_msg_expect_ok(
        QueryAnswer::GaugeWeightAt(GaugeWeightAtResponse { gauge_weight_at: 908414277 }),
        &ctl,
        QueryMsg::GaugeWeightAt {
            gauge_addr: "gauge_addr_1".to_string(),
            time: time - 73 * WEEK,
        },
        time,
    );
}

#[test]
fn test_vote_for_multiple_gauges_by_single_user() {
    let mut ctl = instantiate_default();
    let mut time = BASE_TIME;
    let user_1 = lock(100, 9982443540515057);

    run_execute_msg_expect_ok(
        &mut ctl,
        "owner".to_string(),
        ExecuteMsg::AddGauge { gauge_addr: "gauge_addr_1".to_string(), weight: 23333 },
        time,
        no_lock(),
    );

    run_execute_msg_expect_ok(
        &mut ctl,
        "owner".to_string(),
        ExecuteMsg::AddGauge { gauge_addr: "gauge_addr_2".to_string(), weight: 66666 },
        time,
        no_lock(),
    );

    run_execute_msg_expect_ok(
        &mut ctl,
        "user_1".to_string(),
        ExecuteMsg::VoteForGaugeWeight { gauge_addr: "gauge_addr_1".to_string(), ratio: 4357 },
        time,
        user_1,
    );

    run_execute_msg_expect_error(
        ContractError::InsufficientVotingRatio,
        &mut ctl,
        "user_1".to_string(),
        ExecuteMsg::VoteForGaugeWeight { gauge_addr: "gauge_addr_2".to_string(), ratio: 5644 },
        time,
        user_1,
    );

    run_execute_msg_expect_ok(
        &mut ctl,
        "user_1".to_string(),
        ExecuteMsg::VoteForGaugeWeight { gauge_addr: "gauge_addr_2".to_string(), ratio: 5643 },
        time,
        user_1,
    );

    run_query_msg_expect_ok(
        QueryAnswer::GaugeRelativeWeight(GaugeRelativeWeightResponse {
            gauge_relative_weight: Fixed::checked_from_ratio(434958398, 563375954 + 434958398)
                .unwrap(),
        }),
        &ctl,
        QueryMsg::GaugeRelativeWeight { gauge_addr: "gauge_addr_1".to_string() },
        time,
    );

    run_query_msg_expect_ok(
        QueryAnswer::GaugeRelativeWeightAt(GaugeRelativeWeightAtResponse {
            gauge_relative_weight_at: Fixed::checked_from_ratio(23333, 66666 + 23333).unwrap(),
        }),
        &ctl,
        QueryMsg::GaugeRelativeWeightAt {
            gauge_addr: "gauge_addr_1".to_string(),
            time: time + 117 * WEEK,
        },
        time,
    );

    run_query_msg_expect_ok(
        QueryAnswer::TotalWeightAt(TotalWeightAtResponse { total_weight_at: 66666 + 23333 }),
        &ctl,
        QueryMsg::TotalWeightAt { time: time + 117 * WEEK },
        time,
    );

    time += 17 * WEEK;

    run_query_msg_expect_ok(
        QueryAnswer::GaugeRelativeWeight(GaugeRelativeWeightResponse {
            gauge_relative_weight: Fixed::checked_from_ratio(361019437, 467613375 + 361019437)
                .unwrap(),
        }),
        &ctl,
        QueryMsg::GaugeRelativeWeight { gauge_addr: "gauge_addr_1".to_string() },
        time,
    );

    time += 100 * WEEK;

    run_query_msg_expect_ok(
        QueryAnswer::GaugeRelativeWeight(GaugeRelativeWeightResponse {
            gauge_relative_weight: Fixed::checked_from_ratio(23333, 66666 + 23333).unwrap(),
        }),
        &ctl,
        QueryMsg::GaugeRelativeWeight { gauge_addr: "gauge_addr_1".to_string() },
        time,
    );

    run_query_msg_expect_ok(
        QueryAnswer::TotalWeight(TotalWeightResponse { total_weight: 66666 + 23333 }),
        &ctl,
        QueryMsg::TotalWeight,
        time,
    );

    run_query_msg_expect_ok(
        QueryAnswer::GaugeRelativeWeightAt(GaugeRelativeWeightAtResponse {
            gauge_relative_weight_at: Fixed::checked_from_ratio(434958398, 563375954 + 434958398)
                .unwrap(),
        }),
        &ctl,
        QueryMsg::GaugeRelativeWeightAt {
            gauge_addr: "gauge_addr_1".to_string(),
            time: time - 117 * WEEK,
        },
        time,
    );
}

#[test]
fn test_vote_for_single_gauge_and_cancel() {
    let mut ctl = instantiate_default();
    let mut time = BASE_TIME;
    // The escrow's report for each vote call; user_1's slope shrinks a
    // little as the weeks pass.
    let user_1_a = lock(100, 9982443475155146);
    let user_1_b = lock(100, 9982443520689092);
    let user_1_d = lock(100, 9982443540027080);
    let user_3 = lock(100, 8474263683694053);

    run_execute_msg_expect_ok(
        &mut ctl,
        "owner".to_string(),
        ExecuteMsg::AddGauge { gauge_addr: "gauge_addr_1".to_string(), weight: 23333 },
        time,
        no_lock(),
    );

    run_execute_msg_expect_ok(
        &mut ctl,
        "user_1".to_string(),
        ExecuteMsg::VoteForGaugeWeight { gauge_addr: "gauge_addr_1".to_string(), ratio: 4357 },
        time,
        user_1_a,
    );

    run_execute_msg_expect_ok(
        &mut ctl,
        "user_3".to_string(),
        ExecuteMsg::VoteForGaugeWeight { gauge_addr: "gauge_addr_1".to_string(), ratio: 5644 },
        time,
        user_3,
    );

    run_query_msg_expect_ok(
        QueryAnswer::GaugeWeight(GaugeWeightResponse { gauge_weight: 913245837 }),
        &ctl,
        QueryMsg::GaugeWeight { gauge_addr: "gauge_addr_1".to_string() },
        time,
    );

    time += WEEK;

    run_query_msg_expect_ok(
        QueryAnswer::GaugeWeight(GaugeWeightResponse { gauge_weight: 904113612 }),
        &ctl,
        QueryMsg::GaugeWeight { gauge_addr: "gauge_addr_1".to_string() },
        time,
    );

    run_execute_msg_expect_error(
        ContractError::VoteTooOften,
        &mut ctl,
        "user_1".to_string(),
        ExecuteMsg::VoteForGaugeWeight { gauge_addr: "gauge_addr_1".to_string(), ratio: 4357 },
        time,
        user_1_a,
    );

    time += WEEK;

    run_execute_msg_expect_ok(
        &mut ctl,
        "user_1".to_string(),
        ExecuteMsg::VoteForGaugeWeight { gauge_addr: "gauge_addr_1".to_string(), ratio: 5644 },
        time,
        user_1_b,
    );

    time += 33 * WEEK;

    run_query_msg_expect_ok(
        QueryAnswer::GaugeWeight(GaugeWeightResponse { gauge_weight: 677126093 }),
        &ctl,
        QueryMsg::GaugeWeight { gauge_addr: "gauge_addr_1".to_string() },
        time,
    );

    run_execute_msg_expect_ok(
        &mut ctl,
        "user_1".to_string(),
        ExecuteMsg::VoteForGaugeWeight { gauge_addr: "gauge_addr_1".to_string(), ratio: 0 },
        time,
        user_1_b,
    );

    run_query_msg_expect_ok(
        QueryAnswer::GaugeWeight(GaugeWeightResponse { gauge_weight: 310910170 }),
        &ctl,
        QueryMsg::GaugeWeight { gauge_addr: "gauge_addr_1".to_string() },
        time,
    );

    time += 17 * WEEK;

    run_execute_msg_expect_ok(
        &mut ctl,
        "user_1".to_string(),
        ExecuteMsg::VoteForGaugeWeight { gauge_addr: "gauge_addr_1".to_string(), ratio: 9999 },
        time,
        user_1_d,
    );

    run_query_msg_expect_ok(
        QueryAnswer::GaugeWeight(GaugeWeightResponse { gauge_weight: 708710679 }),
        &ctl,
        QueryMsg::GaugeWeight { gauge_addr: "gauge_addr_1".to_string() },
        time,
    );

    time += 300 * WEEK;

    run_execute_msg_expect_ok(
        &mut ctl,
        "owner".to_string(),
        ExecuteMsg::ChangeGaugeWeight { gauge_addr: "gauge_addr_1".to_string(), weight: 200000 },
        time,
        no_lock(),
    );

    run_query_msg_expect_ok(
        QueryAnswer::GaugeWeight(GaugeWeightResponse { gauge_weight: 200000 }),
        &ctl,
        QueryMsg::GaugeWeight { gauge_addr: "gauge_addr_1".to_string() },
        time,
    );
}

#[test]
fn test_overflow() {
    let x = Fixed::from_atomics(u128::MAX);
    match x.checked_mul_u64(u64::MAX) {
        None => (),
        _ => panic!("DO NOT ENTER HERE"),
    }
}

#[test]
fn test_bias_be_negative() {
    let mut ctl = instantiate_default();
    let mut time = BASE_TIME;
    let user_1 = lock(100, 9982443532982890);

    run_execute_msg_expect_ok(
        &mut ctl,
        "owner".to_string(),
        ExecuteMsg::AddGauge { gauge_addr: "gauge_addr_1".to_string(), weight: 0 },
        time,
        no_lock(),
    );

    run_execute_msg_expect_ok(
        &mut ctl,
        "user_1".to_string(),
        ExecuteMsg::VoteForGaugeWeight { gauge_addr: "gauge_addr_1".to_string(), ratio: 10000 },
        time,
        user_1,
    );

    run_execute_msg_expect_ok(
        &mut ctl,
        "owner".to_string(),
        ExecuteMsg::ChangeGaugeWeight { gauge_addr: "gauge_addr_1".to_string(), weight: 0 },
        time,
        no_lock(),
    );

    time += 20 * WEEK;

    run_query_msg_expect_ok(
        QueryAnswer::GaugeWeight(GaugeWeightResponse { gauge_weight: 0 }),
        &ctl,
        QueryMsg::GaugeWeight { gauge_addr: "gauge_addr_1".to_string() },
        time,
    );
}

#[test]
fn update_config() {
    let mut ctl = instantiate_default();
    let time = BASE_TIME;

    let config = match ctl.query(time, QueryMsg::Config).unwrap() {
        QueryAnswer::Config(c) => c,
        _ => panic!("DO NOT ENTER HERE"),
    };
    assert_eq!("owner", config.owner.as_str());
    assert_eq!("anchor_token", config.anchor_token.as_str());
    assert_eq!("anchor_voting_escrow", config.anchor_voting_escrow.as_str());

    let msg = ExecuteMsg::UpdateConfig {
        owner: Some("gov".to_string()),
        anchor_token: Some("anchor2.0".to_string()),
        anchor_voting_escrow: Some("voting_escrow2.0".to_string()),
        user_vote_delay: None,
    };

    run_execute_msg_expect_error(
        ContractError::Unauthorized,
        &mut ctl,
        "addr0001".to_string(),
        msg.clone(),
        time,
        no_lock(),
    );

    run_execute_msg_expect_ok(&mut ctl, "owner".to_string(), msg, time, no_lock());

    run_query_msg_expect_ok(
        QueryAnswer::Config(ConfigResponse {
            owner: "gov".to_string(),
            anchor_token: "anchor2.0".to_string(),
            anchor_voting_escrow: "voting_escrow2.0".to_string(),
            period_duration: WEEK,
            user_vote_delay: VOTE_DELAY,
        }),
        &ctl,
        QueryMsg::Config,
        time,
    );
}

#[test]
fn test_vote_decay_faster() {
    // decay normally
    let mut ctl = instantiate_default();
    let mut time = BASE_TIME;
    let user_2 = lock(66, 15151515247288312);
    // a slope so small that the allocation's whole contribution rounds to
    // zero and the dust rule forces it out
    let dust_user = lock(66, 500000);

    run_execute_msg_expect_ok(
        &mut ctl,
        "owner".to_string(),
        ExecuteMsg::AddGauge { gauge_addr: "gauge_addr_1".to_string(), weight: 2000 },
        time,
        no_lock(),
    );

    run_execute_msg_expect_ok(
        &mut ctl,
        "user_2".to_string(),
        ExecuteMsg::VoteForGaugeWeight { gauge_addr: "gauge_addr_1".to_string(), ratio: 5000 },
        time,
        user_2,
    );

    let mut gauge_weight_normal = vec![];
    for _ in 0..50 {
        match ctl
            .query(time, QueryMsg::GaugeWeight { gauge_addr: "gauge_addr_1".to_string() })
            .unwrap()
        {
            QueryAnswer::GaugeWeight(resp) => gauge_weight_normal.push(resp.gauge_weight),
            _ => panic!("DO NOT ENTER HERE"),
        }
        time += WEEK;
    }

    // decay faster
    let mut ctl = instantiate_default();
    let mut time = BASE_TIME;

    run_execute_msg_expect_ok(
        &mut ctl,
        "owner".to_string(),
        ExecuteMsg::AddGauge { gauge_addr: "gauge_addr_1".to_string(), weight: 2000 },
        time,
        no_lock(),
    );

    for user in ["user_4", "user_5", "user_6", "user_7", "user_8", "user_9", "user_10"] {
        run_execute_msg_expect_ok(
            &mut ctl,
            user.to_string(),
            ExecuteMsg::VoteForGaugeWeight { gauge_addr: "gauge_addr_1".to_string(), ratio: 2000 },
            time,
            dust_user,
        );
    }

    run_execute_msg_expect_ok(
        &mut ctl,
        "user_2".to_string(),
        ExecuteMsg::VoteForGaugeWeight { gauge_addr: "gauge_addr_1".to_string(), ratio: 5000 },
        time,
        user_2,
    );

    let mut gauge_weight_fast = vec![];
    for _ in 0..50 {
        match ctl
            .query(time, QueryMsg::GaugeWeight { gauge_addr: "gauge_addr_1".to_string() })
            .unwrap()
        {
            QueryAnswer::GaugeWeight(resp) => gauge_weight_fast.push(resp.gauge_weight),
            _ => panic!("DO NOT ENTER HERE"),
        }
        time += WEEK;
    }

    assert_eq!(gauge_weight_normal, gauge_weight_fast);
}
