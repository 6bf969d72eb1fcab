use lib::error::AdrenaError;
use lib::staking::{
    add_locked_stake, current_round_lm_emission, find_locked_stake, find_staking_option,
    finalize_locked_stake, init_user_staking, remove_liquid_stake, remove_locked_stake,
    resolve_staking_round, upgrade_locked_stake, AddLockedStakeParams,
    FinalizeLockedStakeParams, LiquidStake, LockedStake, NextStakingRound, Staking,
    StakingOption, StakingRound, StakingType, UpgradeLockedStakeParams, UserStaking,
    RemoveLiquidStakeParams, RemoveLockedStakeParams,
    new_blank_locked_stake, LM_EMISSION_START_TIME, MAX_LOCKED_STAKES, MAX_RESOLVED_ROUNDS, SECONDS_PER_DAY,
};

fn round(start_time: i64, total_stake: u64, lm_total_stake: u64) -> StakingRound {
    StakingRound {
        start_time,
        end_time: 0,
        rate: 0,
        total_stake,
        total_claim: 0,
        lm_rate: 0,
        lm_total_stake,
        lm_total_claim: 0,
    }
}

fn staking(staking_type: StakingType) -> Staking {
    Staking {
        staking_type,
        staked_token_decimals: 6,
        reward_token_decimals: 6,
        nb_liquid_tokens: 0,
        nb_locked_tokens: 0,
        current_staking_round: round(1_000, 0, 0),
        next_staking_round: NextStakingRound { total_stake: 0, lm_total_stake: 0 },
        resolved_staking_rounds: Vec::new(),
        resolved_reward_token_amount: 0,
        resolved_staked_token_amount: 0,
        resolved_lm_reward_token_amount: 0,
        resolved_lm_staked_token_amount: 0,
        current_month_emission_amount_per_round: 77,
    }
}

fn options() -> Vec<StakingOption> {
    vec![
        StakingOption { locked_days: 90, reward_multiplier: 17_500, lm_reward_multiplier: 15_000, vote_multiplier: 12_000 },
        StakingOption { locked_days: 180, reward_multiplier: 20_000, lm_reward_multiplier: 20_000, vote_multiplier: 15_000 },
    ]
}

fn locked(id: u64, amount: u64, stake_time: i64, end_time: i64) -> LockedStake {
    LockedStake {
        id,
        amount,
        stake_time,
        claim_time: 0,
        end_time,
        lock_duration: 90 * SECONDS_PER_DAY,
        reward_multiplier: 17_500,
        lm_reward_multiplier: 15_000,
        vote_multiplier: 12_000,
        amount_with_reward_multiplier: amount * 7 / 4,
        amount_with_lm_reward_multiplier: amount * 3 / 2,
        resolved: false,
        early_exit: false,
        early_exit_fee: 0,
        is_genesis: false,
        genesis_claim_time: 0,
        qualified_for_rewards_in_resolved_round_count: 0,
    }
}

fn empty_user() -> UserStaking {
    UserStaking {
        staking_type: None,
        liquid_stake: LiquidStake { amount: 0, stake_time: 0, claim_time: 0, overlap_time: 0, overlap_amount: 0 },
        locked_stakes: vec![new_blank_locked_stake(); MAX_LOCKED_STAKES],
    }
}

/// Puts `stake` in the first free slot.
fn put(u: &mut UserStaking, stake: LockedStake) {
    let i = u.locked_stakes.iter().position(|s| s.amount == 0).unwrap();
    u.locked_stakes[i] = stake;
}

fn held(u: &UserStaking) -> usize {
    u.locked_stakes.iter().filter(|s| s.amount != 0).count()
}

#[test]
fn init_user_staking_is_empty() {
    let s = staking(StakingType::LP);
    let u = init_user_staking(&s);
    assert_eq!(u.staking_type, Some(StakingType::LP));
    assert_eq!(u.liquid_stake.amount, 0);
    assert_eq!(u.locked_stakes, vec![new_blank_locked_stake(); MAX_LOCKED_STAKES]);
}

#[test]
fn staking_option_lookup() {
    assert_eq!(find_staking_option(&options(), 180).map(|o| o.vote_multiplier), Ok(15_000));
    assert_eq!(find_staking_option(&options(), 30), Err(AdrenaError::InvalidLockDuration));
}

#[test]
fn add_locked_stake_records_the_stake() {
    let mut s = staking(StakingType::LM);
    let mut u = empty_user();
    let r = add_locked_stake(&mut s, &mut u, &AddLockedStakeParams { amount: 1_000_000, locked_days: 90 }, &options(), 1, 2_000);
    assert_eq!(r, Ok(1_200_000));
    assert_eq!(held(&u), 1);
    let st = u.locked_stakes[0];
    assert_eq!(st.id, 1);
    assert_eq!(st.amount, 1_000_000);
    assert_eq!(st.stake_time, 2_000);
    assert_eq!(st.end_time, 2_000 + 90 * 86_400);
    assert_eq!(st.lock_duration, 90 * 86_400);
    assert_eq!(st.amount_with_reward_multiplier, 1_750_000);
    assert_eq!(st.amount_with_lm_reward_multiplier, 1_500_000);
    assert!(!st.resolved);
    assert_eq!(u.staking_type, Some(StakingType::LM));
    assert_eq!(s.next_staking_round.total_stake, 1_750_000);
    assert_eq!(s.next_staking_round.lm_total_stake, 1_500_000);
    assert_eq!(s.nb_locked_tokens, 1_000_000);
    assert_eq!(s.current_staking_round.total_stake, 0);
}

#[test]
fn add_locked_stake_errors() {
    let mut s = staking(StakingType::LM);
    let mut u = empty_user();
    assert_eq!(
        add_locked_stake(&mut s, &mut u, &AddLockedStakeParams { amount: 0, locked_days: 90 }, &options(), 1, 2_000),
        Err(AdrenaError::InvalidArgument)
    );
    assert_eq!(
        add_locked_stake(&mut s, &mut u, &AddLockedStakeParams { amount: 5, locked_days: 30 }, &options(), 1, 2_000),
        Err(AdrenaError::InvalidLockDuration)
    );
    let mut lp = staking(StakingType::LP);
    assert_eq!(
        add_locked_stake(&mut lp, &mut u, &AddLockedStakeParams { amount: 5, locked_days: 90 }, &options(), 1, 2_000),
        Err(AdrenaError::InvalidArgument)
    );
    let mut full = empty_user();
    for i in 0..MAX_LOCKED_STAKES {
        put(&mut full, locked(i as u64 + 1, 10, 1, 10_000_000));
    }
    assert_eq!(
        add_locked_stake(&mut s, &mut full, &AddLockedStakeParams { amount: 5, locked_days: 90 }, &options(), 99, 2_000),
        Err(AdrenaError::InvalidStakeState)
    );
    // A refused stake changes nothing.
    assert_eq!((held(&full), full.staking_type), (MAX_LOCKED_STAKES, None));
    assert_eq!((s.nb_locked_tokens, s.next_staking_round.total_stake, s.next_staking_round.lm_total_stake), (0, 0, 0));
    assert_eq!((held(&u), u.staking_type), (0, None));
}

#[test]
fn find_locked_stake_by_id() {
    let mut u = empty_user();
    put(&mut u, locked(4, 10, 1, 100));
    put(&mut u, locked(8, 10, 1, 100));
    assert_eq!(find_locked_stake(&u, 8), Some(1));
    assert_eq!(find_locked_stake(&u, 5), None);
}

#[test]
fn upgrade_adds_tokens_and_lengthens_the_lock() {
    let mut s = staking(StakingType::LM);
    let mut u = empty_user();
    add_locked_stake(&mut s, &mut u, &AddLockedStakeParams { amount: 1_000_000, locked_days: 90 }, &options(), 1, 2_000).unwrap();
    s.current_staking_round.total_stake = 1_750_000;
    s.current_staking_round.lm_total_stake = 1_500_000;
    let params = UpgradeLockedStakeParams { locked_stake_id: 1, amount: Some(500_000), locked_days: Some(180) };
    let (claimed, r) = upgrade_locked_stake(&mut s, &mut u, &params, &options(), 3_000, true, None).unwrap();
    assert_eq!(claimed.rewards_token_amount, 0);
    assert_eq!(r.additional_amount, 500_000);
    assert_eq!(r.additional_voting_power, 2_250_000 - 1_200_000);
    let st = u.locked_stakes[0];
    assert_eq!(st.amount, 1_500_000);
    assert_eq!(st.lock_duration, 180 * 86_400);
    assert_eq!(st.end_time, 3_000 + 180 * 86_400);
    assert_eq!(st.amount_with_reward_multiplier, 3_000_000);
    assert_eq!(st.amount_with_lm_reward_multiplier, 3_000_000);
    // The claim made first marks the stake as claimed just before the current round.
    assert_eq!(st.claim_time, 999);
    assert_eq!(s.next_staking_round.total_stake, 3_000_000);
    assert_eq!(s.current_staking_round.total_stake, 3_000_000);
    assert_eq!(s.nb_locked_tokens, 1_500_000);
}

#[test]
fn upgrade_errors() {
    let mut s = staking(StakingType::LM);
    let mut u = empty_user();
    add_locked_stake(&mut s, &mut u, &AddLockedStakeParams { amount: 1_000_000, locked_days: 90 }, &options(), 1, 2_000).unwrap();
    let up = |amount: Option<u64>, days: Option<u32>| UpgradeLockedStakeParams { locked_stake_id: 1, amount, locked_days: days };
    let before = u.locked_stakes[0];
    assert_eq!(
        upgrade_locked_stake(&mut s, &mut u, &UpgradeLockedStakeParams { locked_stake_id: 2, amount: Some(1), locked_days: None }, &options(), 3_000, true, None),
        Err(AdrenaError::UserStakeNotFound)
    );
    assert_eq!(upgrade_locked_stake(&mut s, &mut u, &up(None, None), &options(), 3_000, true, None), Err(AdrenaError::InvalidArgument));
    assert_eq!(upgrade_locked_stake(&mut s, &mut u, &up(Some(0), None), &options(), 3_000, true, None), Err(AdrenaError::InvalidArgument));
    assert_eq!(upgrade_locked_stake(&mut s, &mut u, &up(Some(1), None), &options(), 3_000, false, None), Err(AdrenaError::StakeNotEstablished));
    assert_eq!(upgrade_locked_stake(&mut s, &mut u, &up(None, Some(90)), &options(), 3_000, true, None), Err(AdrenaError::InvalidLockDuration));
    assert_eq!(upgrade_locked_stake(&mut s, &mut u, &up(None, Some(120)), &options(), 3_000, true, None), Err(AdrenaError::InvalidLockDuration));
    // An ended lock cannot be upgraded.
    assert_eq!(
        upgrade_locked_stake(&mut s, &mut u, &up(Some(1), None), &options(), 2_000 + 90 * 86_400, true, None),
        Err(AdrenaError::InvalidStakeState)
    );
    // Refused upgrades change nothing.
    assert_eq!(u.locked_stakes[0], before);
    assert_eq!(held(&u), 1);
    assert_eq!((s.nb_locked_tokens, s.next_staking_round.total_stake), (1_000_000, 1_750_000));
}

#[test]
fn finalize_at_the_end_of_the_lock() {
    let mut s = staking(StakingType::LM);
    let mut u = empty_user();
    add_locked_stake(&mut s, &mut u, &AddLockedStakeParams { amount: 1_000_000, locked_days: 90 }, &options(), 1, 2_000).unwrap();
    let end = 2_000 + 90 * 86_400;
    let params = FinalizeLockedStakeParams { locked_stake_id: 1, early_exit: false };
    assert_eq!(finalize_locked_stake(&mut s, &mut u, &params, true, end - 1, true, 0, false), Err(AdrenaError::InvalidStakeState));
    assert_eq!(finalize_locked_stake(&mut s, &mut u, &params, false, end, true, 0, false), Ok(1_200_000));
    let st = u.locked_stakes[0];
    assert!(st.resolved);
    assert!(!st.early_exit);
    assert_eq!(st.early_exit_fee, 0);
    assert_eq!(st.end_time, end);
    assert_eq!(s.next_staking_round.total_stake, 0);
    assert_eq!(s.nb_locked_tokens, 0);
    // Finalizing twice is refused.
    assert_eq!(finalize_locked_stake(&mut s, &mut u, &params, true, end, true, 0, false), Err(AdrenaError::InvalidStakeState));
    // A lock held to its end returns every token.
    let (_, removed) = remove_locked_stake(&mut s, &mut u, &RemoveLockedStakeParams { locked_stake_index: 0 }, end, None).unwrap();
    assert_eq!((removed.amount_to_unstake, removed.amount_to_burn), (1_000_000, 0));
}

#[test]
fn early_exit_charges_the_fee() {
    let mut s = staking(StakingType::LM);
    let mut u = empty_user();
    add_locked_stake(&mut s, &mut u, &AddLockedStakeParams { amount: 1_000_000, locked_days: 90 }, &options(), 1, 2_000).unwrap();
    let params = FinalizeLockedStakeParams { locked_stake_id: 1, early_exit: true };
    assert_eq!(finalize_locked_stake(&mut s, &mut u, &params, false, 5_000, true, 300_000, false), Err(AdrenaError::InvalidArgument));
    assert_eq!(finalize_locked_stake(&mut s, &mut u, &params, true, 5_000, false, 300_000, false), Err(AdrenaError::StakeNotEstablished));
    assert_eq!(
        finalize_locked_stake(&mut s, &mut u, &FinalizeLockedStakeParams { locked_stake_id: 3, early_exit: true }, true, 5_000, true, 0, false),
        Err(AdrenaError::UserStakeNotFound)
    );
    assert_eq!(finalize_locked_stake(&mut s, &mut u, &params, true, 5_000, true, 300_000, false), Ok(1_200_000));
    let st = u.locked_stakes[0];
    assert!(st.resolved && st.early_exit);
    assert_eq!(st.early_exit_fee, 300_000);
    assert_eq!(st.end_time, 5_000);
    // The stake then leaves: what is unstaked and what is burnt make up its amount.
    let (_, removed) = remove_locked_stake(&mut s, &mut u, &RemoveLockedStakeParams { locked_stake_index: 0 }, 5_000, None).unwrap();
    assert_eq!(removed.locked_stake_id, 1);
    assert_eq!(removed.amount_to_unstake, 700_000);
    assert_eq!(removed.amount_to_burn, 300_000);
    assert_eq!(removed.amount_to_unstake + removed.amount_to_burn, 1_000_000);
    // Its slot is free again.
    assert_eq!(u.locked_stakes[0], new_blank_locked_stake());
}

#[test]
fn early_exit_fee_waived_for_fully_liquid_lp() {
    let mut s = staking(StakingType::LP);
    let mut u = empty_user();
    put(&mut u, locked(1, 1_000_000, 2_000, 2_000 + 90 * 86_400));
    s.next_staking_round = NextStakingRound { total_stake: 1_750_000, lm_total_stake: 1_500_000 };
    s.nb_locked_tokens = 1_000_000;
    let params = FinalizeLockedStakeParams { locked_stake_id: 1, early_exit: true };
    assert_eq!(finalize_locked_stake(&mut s, &mut u, &params, true, 5_000, true, 300_000, true), Ok(1_200_000));
    assert_eq!(u.locked_stakes[0].early_exit_fee, 0);
}

#[test]
fn remove_locked_stake_errors() {
    let mut s = staking(StakingType::LM);
    let mut u = empty_user();
    put(&mut u, locked(1, 10, 1, 100));
    assert_eq!(
        remove_locked_stake(&mut s, &mut u, &RemoveLockedStakeParams { locked_stake_index: 32 }, 200, None).map(|r| r.1.locked_stake_id),
        Err(AdrenaError::UserStakeNotFound)
    );
    // A free slot holds no finalized stake.
    assert_eq!(
        remove_locked_stake(&mut s, &mut u, &RemoveLockedStakeParams { locked_stake_index: 1 }, 200, None).map(|r| r.1.locked_stake_id),
        Err(AdrenaError::UnresolvedStake)
    );
    assert_eq!(
        remove_locked_stake(&mut s, &mut u, &RemoveLockedStakeParams { locked_stake_index: 0 }, 200, None).map(|r| r.1.locked_stake_id),
        Err(AdrenaError::UnresolvedStake)
    );
    // A refused removal does not claim either.
    assert_eq!(u.locked_stakes[0], locked(1, 10, 1, 100));
    assert_eq!(held(&u), 1);
    assert_eq!(u.staking_type, None);
}

#[test]
fn remove_a_finalized_locked_stake() {
    let mut s = staking(StakingType::LM);
    let mut u = empty_user();
    let mut st = locked(1, 1_000, 1, 100);
    st.resolved = true;
    st.early_exit = true;
    st.early_exit_fee = 300;
    put(&mut u, locked(2, 10, 1, 10_000));
    put(&mut u, st);
    let (claimed, removed) = remove_locked_stake(&mut s, &mut u, &RemoveLockedStakeParams { locked_stake_index: 1 }, 200, None).unwrap();
    assert_eq!(claimed.rewards_token_amount, 0);
    assert_eq!((removed.locked_stake_id, removed.amount_to_unstake, removed.amount_to_burn), (1, 700, 300));
    assert_eq!(held(&u), 1);
    assert_eq!(u.locked_stakes[1], new_blank_locked_stake());
    assert_eq!((u.locked_stakes[0].id, u.locked_stakes[0].claim_time), (2, 999));
    assert_eq!(u.staking_type, Some(StakingType::LM));
}

#[test]
fn remove_liquid_stake_outside_the_round() {
    let mut s = staking(StakingType::LM);
    let mut u = empty_user();
    u.liquid_stake = LiquidStake { amount: 500, stake_time: 1_500, claim_time: 0, overlap_time: 0, overlap_amount: 0 };
    s.nb_liquid_tokens = 500;
    s.next_staking_round.total_stake = 500;
    s.current_staking_round.total_stake = 0;
    assert_eq!(remove_liquid_stake(&mut s, &mut u, &RemoveLiquidStakeParams { amount: 0 }, None).map(|r| r.voting_power), Err(AdrenaError::InvalidArgument));
    assert_eq!(remove_liquid_stake(&mut s, &mut u, &RemoveLiquidStakeParams { amount: 501 }, None).map(|r| r.voting_power), Err(AdrenaError::InvalidStakeState));
    // Staked after the current round started: the round never counted it.
    assert_eq!(remove_liquid_stake(&mut s, &mut u, &RemoveLiquidStakeParams { amount: 200 }, None).map(|r| r.voting_power), Ok(200));
    assert_eq!(u.liquid_stake.amount, 300);
    assert_eq!(s.nb_liquid_tokens, 300);
    assert_eq!(s.next_staking_round.total_stake, 300);
    assert_eq!(s.current_staking_round.total_stake, 0);
}

#[test]
fn remove_liquid_stake_counted_by_the_round() {
    let mut s = staking(StakingType::LP);
    let mut u = empty_user();
    u.liquid_stake = LiquidStake { amount: 500, stake_time: 500, claim_time: 0, overlap_time: 1_200, overlap_amount: 100 };
    s.nb_liquid_tokens = 500;
    s.next_staking_round.total_stake = 500;
    s.current_staking_round.total_stake = 400;
    // 150 leave: 100 of them were the overlap the round did not count.
    assert_eq!(remove_liquid_stake(&mut s, &mut u, &RemoveLiquidStakeParams { amount: 150 }, None).map(|r| r.voting_power), Ok(0));
    assert_eq!(u.liquid_stake.amount, 350);
    assert_eq!(u.liquid_stake.overlap_amount, 0);
    assert_eq!(s.current_staking_round.total_stake, 350);
    assert_eq!(s.next_staking_round.total_stake, 350);
}

#[test]
fn lm_emission_of_the_round() {
    let s = staking(StakingType::LM);
    assert_eq!(current_round_lm_emission(&s, LM_EMISSION_START_TIME - 1, false), 0);
    assert_eq!(current_round_lm_emission(&s, LM_EMISSION_START_TIME, false), 77);
    let lp = staking(StakingType::LP);
    assert_eq!(current_round_lm_emission(&lp, LM_EMISSION_START_TIME, true), 0);
    assert_eq!(current_round_lm_emission(&lp, LM_EMISSION_START_TIME, false), 77);
}

#[test]
fn resolve_round_with_stake() {
    let mut s = staking(StakingType::LM);
    s.current_staking_round = round(1_000, 2_000_000, 1_000_000);
    s.next_staking_round = NextStakingRound { total_stake: 3_000_000, lm_total_stake: 1_500_000 };
    assert_eq!(resolve_staking_round(&mut s, 5_000, false, 1_000_000, 500_000), Err(AdrenaError::InvalidStakingRoundState));
    assert_eq!(resolve_staking_round(&mut s, 5_000, true, 1_000_000, 500_000), Ok(()));
    assert_eq!(s.resolved_staking_rounds.len(), 1);
    let r = s.resolved_staking_rounds[0];
    // 1 reward token per 2 staked: 0.5 with 9 decimals.
    assert_eq!(r.rate, 500_000_000);
    assert_eq!(r.lm_rate, 500_000_000);
    assert_eq!(r.start_time, 1_000);
    assert_eq!(r.end_time, 5_000);
    assert_eq!(s.resolved_reward_token_amount, 1_000_000);
    assert_eq!(s.resolved_staked_token_amount, 2_000_000);
    assert_eq!(s.resolved_lm_reward_token_amount, 500_000);
    assert_eq!(s.resolved_lm_staked_token_amount, 1_000_000);
    assert_eq!(s.current_staking_round, StakingRound {
        start_time: 5_000,
        end_time: 0,
        rate: 0,
        total_stake: 3_000_000,
        total_claim: 0,
        lm_rate: 0,
        lm_total_stake: 1_500_000,
        lm_total_claim: 0,
    });
}

#[test]
fn resolve_round_without_stake_rolls_over() {
    let mut s = staking(StakingType::LM);
    s.resolved_reward_token_amount = 100;
    assert_eq!(resolve_staking_round(&mut s, 5_000, true, 1_000_000, 500_000), Ok(()));
    assert!(s.resolved_staking_rounds.is_empty());
    assert_eq!(s.resolved_reward_token_amount, 100);
    assert_eq!(s.resolved_lm_reward_token_amount, 0);
    assert_eq!(s.current_staking_round.start_time, 5_000);
    // The next round shares what the last one could not.
    s.current_staking_round.total_stake = 1_000_000;
    assert_eq!(resolve_staking_round(&mut s, 9_000, true, 1_000_100, 500_000), Ok(()));
    assert_eq!(s.resolved_staking_rounds[0].rate, 1_000_000_000);
    assert_eq!(s.resolved_reward_token_amount, 1_000_100);
}

#[test]
fn resolve_round_drops_the_oldest_when_full() {
    let mut s = staking(StakingType::LM);
    for i in 0..MAX_RESOLVED_ROUNDS {
        let mut r = round(i as i64 + 1, 1_000, 0);
        r.rate = 2_000_000_000;
        r.total_claim = if i == 0 { 400 } else { 1_000 };
        s.resolved_staking_rounds.push(r);
    }
    s.resolved_reward_token_amount = 10_000;
    s.resolved_staked_token_amount = 5_000;
    s.current_staking_round = round(100, 1_000, 0);
    assert_eq!(resolve_staking_round(&mut s, 200, true, 12_000, 0), Ok(()));
    assert_eq!(s.resolved_staking_rounds.len(), MAX_RESOLVED_ROUNDS);
    assert_eq!(s.resolved_staking_rounds[0].start_time, 2);
    assert_eq!(s.resolved_staking_rounds[MAX_RESOLVED_ROUNDS - 1].start_time, 100);
    // The oldest round's 600 unclaimed tokens at rate 2 return 1_200 reward tokens.
    assert_eq!(s.resolved_reward_token_amount, 12_000 - 1_200);
    assert_eq!(s.resolved_staked_token_amount, 5_000 + 1_000 - 600);
}

#[test]
fn remove_liquid_stake_claims_first() {
    let mut s = staking(StakingType::LM);
    s.resolved_staking_rounds = vec![StakingRound { rate: 500_000_000, ..round(100, 1_000_000, 0) }];
    s.resolved_reward_token_amount = 10_000_000;
    s.resolved_staked_token_amount = 10_000_000;
    s.nb_liquid_tokens = 1_000_000;
    s.next_staking_round.total_stake = 1_000_000;
    s.current_staking_round.total_stake = 1_000_000;
    let mut u = empty_user();
    u.liquid_stake = LiquidStake { amount: 1_000_000, stake_time: 50, claim_time: 0, overlap_time: 0, overlap_amount: 0 };
    // A withdrawal of more than is staked: refused, and the claim does not happen either.
    assert_eq!(
        remove_liquid_stake(&mut s, &mut u, &RemoveLiquidStakeParams { amount: 1_000_001 }, None).map(|r| r.voting_power),
        Err(AdrenaError::InvalidStakeState)
    );
    assert_eq!((s.resolved_staking_rounds.len(), s.resolved_reward_token_amount, u.liquid_stake.claim_time), (1, 10_000_000, 0));
    let r = remove_liquid_stake(&mut s, &mut u, &RemoveLiquidStakeParams { amount: 400_000 }, None).unwrap();
    // The round's rewards are claimed first: 1 token at 0.5 per token.
    assert_eq!(r.claimed.rewards_token_amount, 500_000);
    assert_eq!(r.voting_power, 400_000);
    assert!(s.resolved_staking_rounds.is_empty());
    assert_eq!(s.resolved_reward_token_amount, 9_500_000);
    assert_eq!((u.liquid_stake.amount, u.liquid_stake.claim_time), (600_000, 999));
    assert_eq!((s.nb_liquid_tokens, s.next_staking_round.total_stake), (600_000, 600_000));
    assert_eq!(s.current_staking_round.total_stake, 600_000);
}

#[test]
fn a_new_stake_takes_the_first_free_slot() {
    let mut s = staking(StakingType::LM);
    let mut u = empty_user();
    put(&mut u, locked(1, 10, 1, 10_000_000));
    put(&mut u, locked(2, 10, 1, 10_000_000));
    u.locked_stakes[0] = new_blank_locked_stake();
    add_locked_stake(&mut s, &mut u, &AddLockedStakeParams { amount: 1_000, locked_days: 90 }, &options(), 7, 2_000).unwrap();
    assert_eq!((u.locked_stakes[0].id, u.locked_stakes[1].id, u.locked_stakes[2].amount), (7, 2, 0));
}

#[test]
fn remove_liquid_stake_refuses_zero_before_claiming() {
    // An LP staking whose liquid stake qualifies for a resolved round: a claim would be refused.
    let mut s = staking(StakingType::LP);
    s.resolved_staking_rounds = vec![StakingRound { rate: 500_000_000, ..round(100, 1_000_000, 0) }];
    let mut u = empty_user();
    u.liquid_stake = LiquidStake { amount: 1_000_000, stake_time: 50, claim_time: 0, overlap_time: 0, overlap_amount: 0 };
    assert_eq!(
        remove_liquid_stake(&mut s, &mut u, &RemoveLiquidStakeParams { amount: 0 }, None).map(|r| r.voting_power),
        Err(AdrenaError::InvalidArgument)
    );
    assert_eq!(
        remove_liquid_stake(&mut s, &mut u, &RemoveLiquidStakeParams { amount: 10 }, None).map(|r| r.voting_power),
        Err(AdrenaError::InvalidStakingState)
    );
    assert_eq!((s.resolved_staking_rounds.len(), u.liquid_stake.claim_time), (1, 0));
}
