use lib::claim::{claim_stakes, is_selected_exec, ClaimOutcome, ClaimStakesParams, GenesisClaim};
use lib::error::AdrenaError;
use lib::staking::{
    new_blank_locked_stake, LiquidStake, LockedStake, NextStakingRound, Staking, StakingRound, StakingType,
    UserStaking, MAX_LOCKED_STAKES, SECONDS_PER_DAY,
};

fn resolved_round(start_time: i64, total_stake: u64, lm_total_stake: u64) -> StakingRound {
    StakingRound {
        start_time,
        end_time: start_time + 4_000,
        rate: 500_000_000,
        total_stake,
        total_claim: 0,
        lm_rate: 500_000_000,
        lm_total_stake,
        lm_total_claim: 0,
    }
}

fn staking(staking_type: StakingType, rounds: Vec<StakingRound>) -> Staking {
    Staking {
        staking_type,
        staked_token_decimals: 6,
        reward_token_decimals: 6,
        nb_liquid_tokens: 0,
        nb_locked_tokens: 0,
        current_staking_round: StakingRound {
            start_time: 10_000,
            end_time: 0,
            rate: 0,
            total_stake: 0,
            total_claim: 0,
            lm_rate: 0,
            lm_total_stake: 0,
            lm_total_claim: 0,
        },
        next_staking_round: NextStakingRound { total_stake: 0, lm_total_stake: 0 },
        resolved_staking_rounds: rounds,
        resolved_reward_token_amount: 10_000_000,
        resolved_staked_token_amount: 10_000_000,
        resolved_lm_reward_token_amount: 10_000_000,
        resolved_lm_staked_token_amount: 10_000_000,
        current_month_emission_amount_per_round: 0,
    }
}

fn locked(id: u64, amount: u64, stake_time: i64) -> LockedStake {
    LockedStake {
        id,
        amount,
        stake_time,
        claim_time: 0,
        end_time: 1_000_000,
        lock_duration: 90 * SECONDS_PER_DAY,
        reward_multiplier: 17_500,
        lm_reward_multiplier: 15_000,
        vote_multiplier: 12_000,
        amount_with_reward_multiplier: amount * 7 / 4,
        amount_with_lm_reward_multiplier: amount * 3 / 2,
        resolved: false,
        early_exit: false,
        early_exit_fee: 0,
        is_genesis: false,
        genesis_claim_time: 0,
        qualified_for_rewards_in_resolved_round_count: 0,
    }
}

fn user(liquid: LiquidStake, stakes: Vec<LockedStake>) -> UserStaking {
    let mut locked_stakes = stakes;
    while locked_stakes.len() < MAX_LOCKED_STAKES {
        locked_stakes.push(new_blank_locked_stake());
    }
    UserStaking { staking_type: None, liquid_stake: liquid, locked_stakes }
}

fn all() -> ClaimStakesParams {
    ClaimStakesParams { locked_stake_indexes: None }
}

fn listed(indexes: Vec<u8>) -> ClaimStakesParams {
    ClaimStakesParams { locked_stake_indexes: Some(indexes) }
}

fn no_liquid() -> LiquidStake {
    LiquidStake { amount: 0, stake_time: 0, claim_time: 0, overlap_time: 0, overlap_amount: 0 }
}

#[test]
fn selected_positions() {
    assert!(is_selected_exec(&None, 3));
    assert!(is_selected_exec(&Some(vec![1, 3]), 3));
    assert!(!is_selected_exec(&Some(vec![1, 3]), 2));
}

#[test]
fn claim_a_locked_stake() {
    let mut s = staking(StakingType::LM, vec![resolved_round(1_000, 1_750_000, 1_500_000)]);
    let mut u = user(no_liquid(), vec![locked(1, 1_000_000, 500)]);
    let r = claim_stakes(&mut s, &mut u, &all(), None);
    // 1.75 weighted tokens at 0.5 per token, and 1.5 LM-weighted tokens at 0.5.
    assert_eq!(r, Ok(ClaimOutcome { rewards_token_amount: 875_000, lm_rewards_token_amount: 750_000, genesis_lm_rewards_token_amount: 0 }));
    // The round was fully claimed and is dropped.
    assert!(s.resolved_staking_rounds.is_empty());
    assert_eq!(s.resolved_reward_token_amount, 10_000_000 - 875_000);
    assert_eq!(s.resolved_staked_token_amount, 10_000_000 - 1_750_000);
    assert_eq!(s.resolved_lm_reward_token_amount, 10_000_000 - 750_000);
    assert_eq!(s.resolved_lm_staked_token_amount, 10_000_000 - 1_500_000);
    let st = u.locked_stakes[0];
    assert_eq!(st.claim_time, 9_999);
    assert_eq!(st.qualified_for_rewards_in_resolved_round_count, 1);
    assert_eq!(u.liquid_stake.claim_time, 9_999);
    assert_eq!(u.staking_type, Some(StakingType::LM));
}

#[test]
fn claiming_twice_pays_nothing_more() {
    let mut s = staking(StakingType::LM, vec![resolved_round(1_000, 3_500_000, 3_000_000)]);
    let mut u = user(no_liquid(), vec![locked(1, 1_000_000, 500)]);
    let first = claim_stakes(&mut s, &mut u, &all(), None).unwrap();
    assert_eq!(first.rewards_token_amount, 875_000);
    // The round is kept: another staker has not claimed yet.
    assert_eq!(s.resolved_staking_rounds.len(), 1);
    assert_eq!(s.resolved_staking_rounds[0].total_claim, 1_750_000);
    let second = claim_stakes(&mut s, &mut u, &all(), None).unwrap();
    assert_eq!(second, ClaimOutcome { rewards_token_amount: 0, lm_rewards_token_amount: 0, genesis_lm_rewards_token_amount: 0 });
    assert_eq!(s.resolved_staking_rounds[0].total_claim, 1_750_000);
    assert_eq!(u.locked_stakes[0].qualified_for_rewards_in_resolved_round_count, 1);
}

#[test]
fn claim_only_the_listed_stakes() {
    let mut s = staking(StakingType::LM, vec![resolved_round(1_000, 3_500_000, 3_000_000)]);
    let mut u = user(no_liquid(), vec![locked(1, 1_000_000, 500), locked(2, 1_000_000, 600)]);
    let r = claim_stakes(&mut s, &mut u, &listed(vec![1]), None).unwrap();
    assert_eq!(r.rewards_token_amount, 875_000);
    assert_eq!(u.locked_stakes[0].claim_time, 0);
    assert_eq!(u.locked_stakes[1].claim_time, 9_999);
    assert_eq!(u.locked_stakes[0].qualified_for_rewards_in_resolved_round_count, 0);
    assert_eq!(u.locked_stakes[1].qualified_for_rewards_in_resolved_round_count, 1);
    // The other stake claims its share later.
    let r = claim_stakes(&mut s, &mut u, &listed(vec![0]), None).unwrap();
    assert_eq!(r.rewards_token_amount, 875_000);
    assert!(s.resolved_staking_rounds.is_empty());
}

#[test]
fn stakes_that_do_not_qualify_earn_nothing() {
    let mut s = staking(StakingType::LM, vec![resolved_round(1_000, 1_750_000, 1_500_000)]);
    // Staked after the round started.
    let mut u = user(no_liquid(), vec![locked(1, 1_000_000, 2_000)]);
    let r = claim_stakes(&mut s, &mut u, &all(), None).unwrap();
    assert_eq!(r.rewards_token_amount, 0);
    assert_eq!(s.resolved_staking_rounds.len(), 1);
    assert_eq!(u.locked_stakes[0].qualified_for_rewards_in_resolved_round_count, 0);
}

#[test]
fn liquid_stake_claims_in_lm_staking() {
    let mut s = staking(StakingType::LM, vec![resolved_round(1_000, 3_000_000, 0)]);
    let liquid = LiquidStake { amount: 1_000_000, stake_time: 500, claim_time: 0, overlap_time: 0, overlap_amount: 0 };
    let mut u = user(liquid, vec![]);
    let r = claim_stakes(&mut s, &mut u, &all(), None).unwrap();
    assert_eq!(r.rewards_token_amount, 500_000);
    assert_eq!(s.resolved_staking_rounds[0].total_claim, 1_000_000);
    assert_eq!(s.resolved_staked_token_amount, 9_000_000);
    assert_eq!(u.liquid_stake.claim_time, 9_999);
}

#[test]
fn liquid_stake_with_overlap_claims_what_it_held_before() {
    let mut s = staking(StakingType::LM, vec![resolved_round(1_000, 3_000_000, 0)]);
    let liquid = LiquidStake { amount: 1_000_000, stake_time: 500, claim_time: 0, overlap_time: 1_500, overlap_amount: 400_000 };
    let mut u = user(liquid, vec![]);
    let r = claim_stakes(&mut s, &mut u, &all(), None).unwrap();
    assert_eq!(r.rewards_token_amount, 300_000);
    assert_eq!(u.liquid_stake.overlap_amount, 0);
    assert_eq!(u.liquid_stake.overlap_time, 0);
}

#[test]
fn lp_staking_refuses_a_qualifying_liquid_stake() {
    let mut s = staking(StakingType::LP, vec![resolved_round(1_000, 3_000_000, 0)]);
    let liquid = LiquidStake { amount: 100, stake_time: 500, claim_time: 0, overlap_time: 0, overlap_amount: 0 };
    let mut u = user(liquid, vec![]);
    assert_eq!(claim_stakes(&mut s, &mut u, &all(), None), Err(AdrenaError::InvalidStakingState));
}

#[test]
fn claim_with_an_unknown_position() {
    let mut s = staking(StakingType::LM, vec![resolved_round(1_000, 1_750_000, 1_500_000)]);
    let mut u = user(no_liquid(), vec![locked(1, 1_000_000, 500)]);
    assert_eq!(claim_stakes(&mut s, &mut u, &listed(vec![32]), None), Err(AdrenaError::InvalidArgument));
}

#[test]
fn genesis_rewards_are_minted() {
    let mut s = staking(StakingType::LM, vec![]);
    let mut stake = locked(1, 1_000_000, 500);
    stake.is_genesis = true;
    let mut u = user(no_liquid(), vec![stake]);
    let g = GenesisClaim { reward_distribution_end_date: 1_000, reward_rate: 1_000_000, current_time: 500 };
    let r = claim_stakes(&mut s, &mut u, &all(), Some(g)).unwrap();
    // 1_000_000 tokens for 500 seconds at 0.001 per token-second.
    assert_eq!(r.genesis_lm_rewards_token_amount, 500_000);
    assert_eq!(u.locked_stakes[0].genesis_claim_time, 500);
    // Past the end of the distribution only the remaining period counts.
    let g2 = GenesisClaim { reward_distribution_end_date: 1_000, reward_rate: 1_000_000, current_time: 5_000 };
    let r = claim_stakes(&mut s, &mut u, &all(), Some(g2)).unwrap();
    assert_eq!(r.genesis_lm_rewards_token_amount, 500_000);
    assert_eq!(u.locked_stakes[0].genesis_claim_time, 5_000);
    let r = claim_stakes(&mut s, &mut u, &all(), Some(g2)).unwrap();
    assert_eq!(r.genesis_lm_rewards_token_amount, 0);
}

#[test]
fn every_round_is_claimed_after_a_dropped_one() {
    let mut s = staking(StakingType::LM, vec![resolved_round(1_000, 1_750_000, 1_500_000), resolved_round(2_000, 1_750_000, 1_500_000)]);
    let mut u = user(no_liquid(), vec![locked(1, 1_000_000, 500)]);
    let r = claim_stakes(&mut s, &mut u, &all(), None).unwrap();
    // Both rounds are claimed and, fully claimed, dropped.
    assert_eq!(r.rewards_token_amount, 1_750_000);
    assert_eq!(r.lm_rewards_token_amount, 1_500_000);
    assert!(s.resolved_staking_rounds.is_empty());
    assert_eq!(u.locked_stakes[0].qualified_for_rewards_in_resolved_round_count, 2);
}

#[test]
fn lp_staking_refuses_a_liquid_stake_qualifying_after_a_dropped_round() {
    // The first round is fully claimed by the locked stake; the liquid stake qualifies only
    // for the second.
    let mut s = staking(StakingType::LP, vec![resolved_round(1_000, 1_750_000, 1_500_000), resolved_round(2_000, 3_000_000, 0)]);
    let liquid = LiquidStake { amount: 100, stake_time: 1_500, claim_time: 0, overlap_time: 0, overlap_amount: 0 };
    let mut u = user(liquid, vec![locked(1, 1_000_000, 500)]);
    assert_eq!(claim_stakes(&mut s, &mut u, &all(), None), Err(AdrenaError::InvalidStakingState));
    assert_eq!(s.resolved_staking_rounds.len(), 2);
}

#[test]
fn a_refused_claim_changes_nothing() {
    // An LP staking: the locked stake is claimed for the round before the liquid stake is met.
    let rounds = vec![resolved_round(1_000, 3_500_000, 3_000_000)];
    let mut s = staking(StakingType::LP, rounds.clone());
    let liquid = LiquidStake { amount: 100, stake_time: 500, claim_time: 0, overlap_time: 0, overlap_amount: 0 };
    let mut u = user(liquid, vec![locked(1, 1_000_000, 500)]);
    assert_eq!(claim_stakes(&mut s, &mut u, &all(), None), Err(AdrenaError::InvalidStakingState));
    assert_eq!(s.resolved_staking_rounds, rounds);
    assert_eq!((s.resolved_reward_token_amount, s.resolved_staked_token_amount), (10_000_000, 10_000_000));
    assert_eq!(u.locked_stakes[0], locked(1, 1_000_000, 500));
    assert_eq!((u.liquid_stake, u.staking_type), (liquid, None));
    // A listed position that names no stake.
    let mut s = staking(StakingType::LM, rounds.clone());
    let mut u = user(no_liquid(), vec![locked(1, 1_000_000, 500)]);
    assert_eq!(claim_stakes(&mut s, &mut u, &listed(vec![0, 32]), None), Err(AdrenaError::InvalidArgument));
    assert_eq!(s.resolved_staking_rounds, rounds);
    assert_eq!((u.locked_stakes[0].claim_time, u.staking_type), (0, None));
}
