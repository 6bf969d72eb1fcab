use vstd::prelude::*;

use crate::claim::{claim_stakes, claim_stakes_accepts, claim_stakes_outcome, ClaimOutcome, ClaimStakesParams, GenesisClaim};
use crate::error::AdrenaError;
use crate::math::{
    bps_mul_value, checked_bps_mul, checked_decimal_div, checked_decimal_mul, decimal_div_value,
    decimal_mul_value, LM_DECIMALS, RATE_DECIMALS,
};

verus! {

/// Seconds in a day.
pub const SECONDS_PER_DAY: u64 = 86_400u64;

/// How many locked stakes a user may hold at once.
pub const MAX_LOCKED_STAKES: usize = 32usize;

/// How many resolved rounds a staking keeps before it drops the oldest.
pub const MAX_RESOLVED_ROUNDS: usize = 32usize;

/// What is staked: the governance token (LM) or the liquidity-pool token (LP).
#[derive(Debug, Clone, Copy, PartialEq, Eq, Structural)]
pub enum StakingType {
    LM,
    LP,
}

/// One staking round: when it ran, the reward rates fixed when it was resolved, the stake it
/// counted and how much of that stake has claimed its rewards.
#[derive(Debug, Clone, Copy, PartialEq, Eq, Structural)]
pub struct StakingRound {
    pub start_time: i64,
    pub end_time: i64,
    pub rate: u64,
    pub total_stake: u64,
    pub total_claim: u64,
    pub lm_rate: u64,
    pub lm_total_stake: u64,
    pub lm_total_claim: u64,
}

/// The stake counted for the round after the current one.
#[derive(Debug, Clone, Copy, PartialEq, Eq, Structural)]
pub struct NextStakingRound {
    pub total_stake: u64,
    pub lm_total_stake: u64,
}

/// A staking pool: its rounds and the accounting of what its reward vaults owe.
pub struct Staking {
    pub staking_type: StakingType,
    pub staked_token_decimals: u8,
    pub reward_token_decimals: u8,
    pub nb_liquid_tokens: u64,
    pub nb_locked_tokens: u64,
    pub current_staking_round: StakingRound,
    pub next_staking_round: NextStakingRound,
    /// Resolved rounds with rewards not yet fully claimed, oldest first.
    pub resolved_staking_rounds: Vec<StakingRound>,
    pub resolved_reward_token_amount: u64,
    pub resolved_staked_token_amount: u64,
    pub resolved_lm_reward_token_amount: u64,
    pub resolved_lm_staked_token_amount: u64,
    pub current_month_emission_amount_per_round: u64,
}

/// A stake that can be withdrawn at any time.
#[derive(Debug, Clone, Copy, PartialEq, Eq, Structural)]
pub struct LiquidStake {
    pub amount: u64,
    pub stake_time: i64,
    pub claim_time: i64,
    /// When stake was added while some was already staked.
    pub overlap_time: i64,
    /// How much of `amount` was added at `overlap_time`.
    pub overlap_amount: u64,
}

/// A stake locked for a number of days, with its reward and vote multipliers (basis points).
#[derive(Debug, Clone, Copy, PartialEq, Eq, Structural)]
pub struct LockedStake {
    pub id: u64,
    pub amount: u64,
    pub stake_time: i64,
    pub claim_time: i64,
    pub end_time: i64,
    pub lock_duration: u64,
    pub reward_multiplier: u32,
    pub lm_reward_multiplier: u32,
    pub vote_multiplier: u32,
    pub amount_with_reward_multiplier: u64,
    pub amount_with_lm_reward_multiplier: u64,
    pub resolved: bool,
    pub early_exit: bool,
    pub early_exit_fee: u64,
    pub is_genesis: bool,
    pub genesis_claim_time: i64,
    pub qualified_for_rewards_in_resolved_round_count: u32,
}

/// A user's stakes in one staking pool: the liquid stake and a table of `MAX_LOCKED_STAKES`
/// slots for locked stakes, a slot holding no tokens being free. `staking_type` is `None`
/// until it is first set.
pub struct UserStaking {
    pub staking_type: Option<StakingType>,
    pub liquid_stake: LiquidStake,
    pub locked_stakes: Vec<LockedStake>,
}

/// One line of a staking pool's lock table: the multipliers a lock of `locked_days` earns.
#[derive(Debug, Clone, Copy, PartialEq, Eq, Structural)]
pub struct StakingOption {
    pub locked_days: u32,
    pub reward_multiplier: u32,
    pub lm_reward_multiplier: u32,
    pub vote_multiplier: u32,
}

impl Staking {
    /// At most `MAX_RESOLVED_ROUNDS` resolved rounds are kept.
    pub open spec fn well_formed(&self) -> bool {
        self.resolved_staking_rounds@.len() <= MAX_RESOLVED_ROUNDS
    }
}

impl UserStaking {
    /// The table of locked stakes has its `MAX_LOCKED_STAKES` slots.
    pub open spec fn well_formed(&self) -> bool {
        self.locked_stakes@.len() == MAX_LOCKED_STAKES
    }
}

/// What a free slot of the table of locked stakes holds.
pub open spec fn blank_locked_stake() -> LockedStake {
    LockedStake {
        id: 0,
        amount: 0,
        stake_time: 0,
        claim_time: 0,
        end_time: 0,
        lock_duration: 0,
        reward_multiplier: 0,
        lm_reward_multiplier: 0,
        vote_multiplier: 0,
        amount_with_reward_multiplier: 0,
        amount_with_lm_reward_multiplier: 0,
        resolved: false,
        early_exit: false,
        early_exit_fee: 0,
        is_genesis: false,
        genesis_claim_time: 0,
        qualified_for_rewards_in_resolved_round_count: 0,
    }
}

/// What a free slot of the table of locked stakes holds.
pub fn new_blank_locked_stake() -> (stake: LockedStake)
    ensures
        stake == blank_locked_stake(),
{
    LockedStake {
        id: 0,
        amount: 0,
        stake_time: 0,
        claim_time: 0,
        end_time: 0,
        lock_duration: 0,
        reward_multiplier: 0,
        lm_reward_multiplier: 0,
        vote_multiplier: 0,
        amount_with_reward_multiplier: 0,
        amount_with_lm_reward_multiplier: 0,
        resolved: false,
        early_exit: false,
        early_exit_fee: 0,
        is_genesis: false,
        genesis_claim_time: 0,
        qualified_for_rewards_in_resolved_round_count: 0,
    }
}

/// `i` is the first free slot (one holding no tokens) of the table.
pub open spec fn is_first_free_slot(stakes: Seq<LockedStake>, i: int) -> bool {
    &&& 0 <= i < stakes.len()
    &&& stakes[i].amount == 0
    &&& forall|j: int| 0 <= j < i ==> stakes[j].amount != 0
}

/// Some slot of the table is free.
pub open spec fn has_free_slot(stakes: Seq<LockedStake>) -> bool {
    exists|j: int| 0 <= j < stakes.len() && stakes[j].amount == 0
}

/// The first free slot of the user's table of locked stakes, if any.
pub fn find_free_slot(user_staking: &UserStaking) -> (r: Option<usize>)
    ensures
        r matches Some(i) ==> is_first_free_slot(user_staking.locked_stakes@, i as int),
        r is None ==> !has_free_slot(user_staking.locked_stakes@),
{
    let mut i: usize = 0;
    while i < user_staking.locked_stakes.len()
        invariant
            i <= user_staking.locked_stakes@.len(),
            forall|j: int| 0 <= j < i ==> user_staking.locked_stakes@[j].amount != 0,
        decreases user_staking.locked_stakes@.len() - i,
    {
        if user_staking.locked_stakes[i].amount == 0 {
            return Some(i);
        }
        i = i + 1;
    }
    None
}

impl LiquidStake {
    /// The stake earns rewards from `round`: it was staked before the round started and has
    /// not claimed since the round started.
    pub open spec fn qualifies_for_rewards_from_spec(&self, round: StakingRound) -> bool {
        &&& self.stake_time != 0
        &&& self.stake_time < round.start_time
        &&& (self.claim_time == 0 || self.claim_time < round.start_time)
    }

    /// Whether the stake earns rewards from `round`.
    pub fn qualifies_for_rewards_from(&self, round: &StakingRound) -> (b: bool)
        ensures
            b == self.qualifies_for_rewards_from_spec(*round),
    {
        self.stake_time != 0 && self.stake_time < round.start_time && (self.claim_time == 0
            || self.claim_time < round.start_time)
    }
}

impl LockedStake {
    /// The stake earns rewards from `round`: it holds tokens, was staked before the round
    /// started, has not claimed since, and was still locked when the round ended (a round
    /// that has not ended yet has an `end_time` of zero).
    pub open spec fn qualifies_for_rewards_from_spec(&self, round: StakingRound) -> bool {
        &&& self.amount != 0
        &&& self.stake_time != 0
        &&& self.stake_time < round.start_time
        &&& (self.claim_time == 0 || self.claim_time < round.start_time)
        &&& (round.end_time == 0 || round.end_time <= self.end_time)
    }

    /// Whether the stake earns rewards from `round`.
    pub fn qualifies_for_rewards_from(&self, round: &StakingRound) -> (b: bool)
        ensures
            b == self.qualifies_for_rewards_from_spec(*round),
    {
        self.amount != 0 && self.stake_time != 0 && self.stake_time < round.start_time && (
        self.claim_time == 0 || self.claim_time < round.start_time) && (round.end_time == 0
            || round.end_time <= self.end_time)
    }

    /// The lock is over at `current_time`.
    pub open spec fn has_ended_spec(&self, current_time: i64) -> bool {
        self.end_time <= current_time
    }

    /// Whether the lock is over at `current_time`.
    pub fn has_ended(&self, current_time: i64) -> (b: bool)
        ensures
            b == self.has_ended_spec(current_time),
    {
        self.end_time <= current_time
    }

    /// The voting power the stake gives: its amount times its vote multiplier.
    pub open spec fn voting_power_spec(&self) -> nat {
        bps_mul_value(self.amount as nat, self.vote_multiplier as nat)
    }
}

/// The line of a lock table for `locked_days`, if the table has one.
pub open spec fn staking_option_for(options: Seq<StakingOption>, locked_days: u32) -> Option<
    StakingOption,
>
    decreases options.len(),
{
    if options.len() == 0 {
        None
    } else if options[0].locked_days == locked_days {
        Some(options[0])
    } else {
        staking_option_for(options.drop_first(), locked_days)
    }
}

/// The line found for `locked_days` is that of `locked_days`.
pub proof fn lemma_staking_option_days(options: Seq<StakingOption>, locked_days: u32)
    ensures
        staking_option_for(options, locked_days) matches Some(o) ==> o.locked_days == locked_days,
    decreases options.len(),
{
    if options.len() > 0 && options[0].locked_days != locked_days {
        lemma_staking_option_days(options.drop_first(), locked_days);
    }
}

/// Looks up the line of a lock table for `locked_days`; `InvalidLockDuration` where the table
/// has none.
pub fn find_staking_option(options: &Vec<StakingOption>, locked_days: u32) -> (r: Result<
    StakingOption,
    AdrenaError,
>)
    ensures
        staking_option_for(options@, locked_days) matches Some(o) ==> r == Ok::<
            StakingOption,
            AdrenaError,
        >(o),
        staking_option_for(options@, locked_days) is None ==> r == Err::<
            StakingOption,
            AdrenaError,
        >(AdrenaError::InvalidLockDuration),
{
    proof {
        assert(options@.skip(0) =~= options@);
    }
    let mut i: usize = 0;
    while i < options.len()
        invariant
            i <= options@.len(),
            staking_option_for(options@, locked_days) == staking_option_for(
                options@.skip(i as int),
                locked_days,
            ),
        decreases options@.len() - i,
    {
        proof {
            assert(options@.skip(i as int).drop_first() =~= options@.skip(i + 1));
        }
        if options[i].locked_days == locked_days {
            return Ok(options[i]);
        }
        i = i + 1;
    }
    proof {
        assert(options@.skip(i as int).len() == 0);
    }
    Err(AdrenaError::InvalidLockDuration)
}

/// A new user staking of the pool's type, with nothing staked and every slot free.
pub fn init_user_staking(staking: &Staking) -> (u: UserStaking)
    ensures
        u.well_formed(),
        u.staking_type == Some(staking.staking_type),
        u.liquid_stake == (LiquidStake {
            amount: 0,
            stake_time: 0,
            claim_time: 0,
            overlap_time: 0,
            overlap_amount: 0,
        }),
        u.locked_stakes@ == Seq::new(MAX_LOCKED_STAKES as nat, |i: int| blank_locked_stake()),
{
    let mut locked_stakes: Vec<LockedStake> = Vec::new();
    let mut i: usize = 0;
    while i < MAX_LOCKED_STAKES
        invariant
            i <= MAX_LOCKED_STAKES,
            locked_stakes@ == Seq::new(i as nat, |k: int| blank_locked_stake()),
        decreases MAX_LOCKED_STAKES - i,
    {
        locked_stakes.push(new_blank_locked_stake());
        proof {
            assert(locked_stakes@ =~= Seq::new((i + 1) as nat, |k: int| blank_locked_stake()));
        }
        i = i + 1;
    }
    UserStaking {
        staking_type: Some(staking.staking_type),
        liquid_stake: LiquidStake {
            amount: 0,
            stake_time: 0,
            claim_time: 0,
            overlap_time: 0,
            overlap_amount: 0,
        },
        locked_stakes,
    }
}

/// What a new locked stake asks for.
pub struct AddLockedStakeParams {
    pub amount: u64,
    pub locked_days: u32,
}

/// The locked stake that `add_locked_stake` records.
pub open spec fn new_locked_stake(
    id: u64,
    amount: u64,
    option: StakingOption,
    current_time: i64,
) -> LockedStake {
    LockedStake {
        id,
        amount,
        stake_time: current_time,
        claim_time: 0,
        end_time: (current_time + option.locked_days * SECONDS_PER_DAY) as i64,
        lock_duration: (option.locked_days * SECONDS_PER_DAY) as u64,
        reward_multiplier: option.reward_multiplier,
        lm_reward_multiplier: option.lm_reward_multiplier,
        vote_multiplier: option.vote_multiplier,
        amount_with_reward_multiplier: bps_mul_value(
            amount as nat,
            option.reward_multiplier as nat,
        ) as u64,
        amount_with_lm_reward_multiplier: bps_mul_value(
            amount as nat,
            option.lm_reward_multiplier as nat,
        ) as u64,
        resolved: false,
        early_exit: false,
        early_exit_fee: 0,
        is_genesis: false,
        genesis_claim_time: 0,
        qualified_for_rewards_in_resolved_round_count: 0,
    }
}

/// Locks `params.amount` tokens for `params.locked_days` in an LM staking, as a new locked
/// stake with identifier `id`, at `current_time`. The multipliers come from the pool's lock
/// table `options`. Returns the voting power to grant the owner; the caller transfers
/// `params.amount` into the staking vault.
///
/// Errors, in this order: `InvalidArgument` for a zero amount, `InvalidLockDuration` for a
/// lock the table lacks, `InvalidArgument` for an LP staking, `MathOverflow` where a
/// multiplied amount does not fit, `InvalidStakeState` where no slot of the user's table is
/// free. The stake goes into the first free slot. An error changes nothing.
pub fn add_locked_stake(
    staking: &mut Staking,
    user_staking: &mut UserStaking,
    params: &AddLockedStakeParams,
    options: &Vec<StakingOption>,
    id: u64,
    current_time: i64,
) -> (r: Result<u64, AdrenaError>)
    requires
        old(staking).well_formed(),
        old(user_staking).well_formed(),
        staking_option_for(options@, params.locked_days) matches Some(o) ==> (params.amount != 0
            && old(staking).staking_type == StakingType::LM ==> {
            &&& i64::MIN <= current_time + params.locked_days * SECONDS_PER_DAY <= i64::MAX
            &&& old(staking).next_staking_round.total_stake + bps_mul_value(
                params.amount as nat,
                o.reward_multiplier as nat,
            ) <= u64::MAX
            &&& old(staking).next_staking_round.lm_total_stake + bps_mul_value(
                params.amount as nat,
                o.lm_reward_multiplier as nat,
            ) <= u64::MAX
            &&& old(staking).nb_locked_tokens + params.amount <= u64::MAX
        }),
    ensures
        final(staking).well_formed(),
        final(user_staking).well_formed(),
        r is Err ==> *final(staking) == *old(staking) && *final(user_staking) == *old(user_staking),
        params.amount == 0 ==> r == Err::<u64, AdrenaError>(AdrenaError::InvalidArgument),
        params.amount != 0 && staking_option_for(options@, params.locked_days) is None ==> r
            == Err::<u64, AdrenaError>(AdrenaError::InvalidLockDuration),
        params.amount != 0 && staking_option_for(options@, params.locked_days) is Some
            && old(staking).staking_type != StakingType::LM ==> r == Err::<u64, AdrenaError>(
            AdrenaError::InvalidArgument,
        ),
        staking_option_for(options@, params.locked_days) matches Some(o) ==> (params.amount != 0
            && old(staking).staking_type == StakingType::LM ==> {
            let fits = bps_mul_value(params.amount as nat, o.reward_multiplier as nat)
                <= u64::MAX && bps_mul_value(params.amount as nat, o.lm_reward_multiplier as nat)
                <= u64::MAX;
            let room = has_free_slot(old(user_staking).locked_stakes@);
            let vote_fits = bps_mul_value(params.amount as nat, o.vote_multiplier as nat)
                <= u64::MAX;
            &&& !fits ==> r == Err::<u64, AdrenaError>(AdrenaError::MathOverflow)
            &&& fits && !room ==> r == Err::<u64, AdrenaError>(AdrenaError::InvalidStakeState)
            &&& fits && room && !vote_fits ==> r == Err::<u64, AdrenaError>(
                AdrenaError::MathOverflow,
            )
            &&& fits && room && vote_fits ==> {
                &&& r == Ok::<u64, AdrenaError>(
                    bps_mul_value(params.amount as nat, o.vote_multiplier as nat) as u64,
                )
                &&& exists|i: int| #[trigger] is_first_free_slot(old(user_staking).locked_stakes@, i)
                    && final(user_staking).locked_stakes@ == old(user_staking).locked_stakes@.update(
                    i,
                    new_locked_stake(id, params.amount, o, current_time),
                )
                &&& final(user_staking).liquid_stake == old(user_staking).liquid_stake
                &&& final(user_staking).staking_type == (match old(user_staking).staking_type {
                    Some(t) => Some(t),
                    None => Some(old(staking).staking_type),
                })
                &&& final(staking).next_staking_round.total_stake
                    == old(staking).next_staking_round.total_stake + bps_mul_value(
                    params.amount as nat,
                    o.reward_multiplier as nat,
                )
                &&& final(staking).next_staking_round.lm_total_stake
                    == old(staking).next_staking_round.lm_total_stake + bps_mul_value(
                    params.amount as nat,
                    o.lm_reward_multiplier as nat,
                )
                &&& final(staking).nb_locked_tokens == old(staking).nb_locked_tokens
                    + params.amount
                &&& final(staking).current_staking_round == old(staking).current_staking_round
                &&& final(staking).resolved_staking_rounds@ == old(
                    staking,
                ).resolved_staking_rounds@
                &&& final(staking).nb_liquid_tokens == old(staking).nb_liquid_tokens
                &&& final(staking).resolved_reward_token_amount == old(
                    staking,
                ).resolved_reward_token_amount
                &&& final(staking).resolved_staked_token_amount == old(
                    staking,
                ).resolved_staked_token_amount
                &&& final(staking).resolved_lm_reward_token_amount == old(
                    staking,
                ).resolved_lm_reward_token_amount
                &&& final(staking).resolved_lm_staked_token_amount == old(
                    staking,
                ).resolved_lm_staked_token_amount
                &&& final(staking).staking_type == old(staking).staking_type
            }
        }),
{
    if params.amount == 0 {
        return Err(AdrenaError::InvalidArgument);
    }
    let option = find_staking_option(options, params.locked_days)?;
    if staking.staking_type != StakingType::LM {
        return Err(AdrenaError::InvalidArgument);
    }
    let with_reward = checked_bps_mul(params.amount, option.reward_multiplier as u64)?;
    let with_lm_reward = checked_bps_mul(params.amount, option.lm_reward_multiplier as u64)?;
    proof {
        lemma_staking_option_days(options@, params.locked_days);
        assert(option.locked_days as u64 * SECONDS_PER_DAY <= 4294967295u64 * 86400u64)
            by (nonlinear_arith)
            requires
                option.locked_days <= 4294967295u32,
        ;
    }
    let lock_duration: u64 = option.locked_days as u64 * SECONDS_PER_DAY;
    let stake = LockedStake {
        id,
        amount: params.amount,
        stake_time: current_time,
        claim_time: 0,
        end_time: current_time + lock_duration as i64,
        lock_duration,
        reward_multiplier: option.reward_multiplier,
        lm_reward_multiplier: option.lm_reward_multiplier,
        vote_multiplier: option.vote_multiplier,
        amount_with_reward_multiplier: with_reward,
        amount_with_lm_reward_multiplier: with_lm_reward,
        resolved: false,
        early_exit: false,
        early_exit_fee: 0,
        is_genesis: false,
        genesis_claim_time: 0,
        qualified_for_rewards_in_resolved_round_count: 0,
    };
    let slot = match find_free_slot(user_staking) {
        Some(i) => i,
        None => {
            return Err(AdrenaError::InvalidStakeState);
        },
    };
    let voting_power = checked_bps_mul(params.amount, option.vote_multiplier as u64)?;
    if user_staking.staking_type.is_none() {
        user_staking.staking_type = Some(staking.staking_type);
    }
    user_staking.locked_stakes.set(slot, stake);
    staking.next_staking_round.total_stake = staking.next_staking_round.total_stake + with_reward;
    staking.next_staking_round.lm_total_stake = staking.next_staking_round.lm_total_stake
        + with_lm_reward;
    staking.nb_locked_tokens = staking.nb_locked_tokens + params.amount;
    Ok(voting_power)
}

/// `i` is the first position of a locked stake with identifier `id`.
pub open spec fn is_first_with_id(stakes: Seq<LockedStake>, id: u64, i: int) -> bool {
    &&& 0 <= i < stakes.len()
    &&& stakes[i].id == id
    &&& forall|j: int| 0 <= j < i ==> stakes[j].id != id
}

/// No locked stake has identifier `id`.
pub open spec fn has_no_stake_with_id(stakes: Seq<LockedStake>, id: u64) -> bool {
    forall|j: int| 0 <= j < stakes.len() ==> stakes[j].id != id
}

/// The position of the first locked stake with identifier `id`, if any.
pub fn find_locked_stake(user_staking: &UserStaking, id: u64) -> (r: Option<usize>)
    ensures
        r matches Some(i) ==> is_first_with_id(user_staking.locked_stakes@, id, i as int),
        r is None ==> has_no_stake_with_id(user_staking.locked_stakes@, id),
{
    let mut i: usize = 0;
    while i < user_staking.locked_stakes.len()
        invariant
            i <= user_staking.locked_stakes@.len(),
            forall|j: int| 0 <= j < i ==> user_staking.locked_stakes@[j].id != id,
        decreases user_staking.locked_stakes@.len() - i,
    {
        if user_staking.locked_stakes[i].id == id {
            return Some(i);
        }
        i = i + 1;
    }
    None
}

/// What an upgrade of a locked stake asks for: more tokens, a longer lock, or both.
pub struct UpgradeLockedStakeParams {
    pub locked_stake_id: u64,
    pub amount: Option<u64>,
    pub locked_days: Option<u32>,
}

/// The lock, in days, that an upgrade leads to.
pub open spec fn upgraded_locked_days(stake: LockedStake, locked_days: Option<u32>) -> u32 {
    match locked_days {
        Some(d) => d,
        None => (stake.lock_duration / SECONDS_PER_DAY) as u32,
    }
}

/// The amount that an upgrade leads to.
pub open spec fn upgraded_amount(stake: LockedStake, amount: Option<u64>) -> int {
    match amount {
        Some(a) => stake.amount + a,
        None => stake.amount as int,
    }
}

/// The error that an upgrade of `stake` is answered with, in the order of the checks, or
/// `None` where it is accepted.
pub open spec fn upgrade_error(
    staking_type: StakingType,
    stake: LockedStake,
    params: UpgradeLockedStakeParams,
    options: Seq<StakingOption>,
    current_time: i64,
    established: bool,
) -> Option<AdrenaError> {
    let days = upgraded_locked_days(stake, params.locked_days);
    let new_amount = upgraded_amount(stake, params.amount);
    if stake.voting_power_spec() > u64::MAX {
        Some(AdrenaError::MathOverflow)
    } else if params.amount is None && params.locked_days is None {
        Some(AdrenaError::InvalidArgument)
    } else if !(stake.amount != 0 && !stake.is_genesis && !stake.early_exit && !stake.resolved
        && !stake.has_ended_spec(current_time)) {
        Some(AdrenaError::InvalidStakeState)
    } else if params.amount == Some(0u64) {
        Some(AdrenaError::InvalidArgument)
    } else if !established {
        Some(AdrenaError::StakeNotEstablished)
    } else if params.locked_days matches Some(d) && d * SECONDS_PER_DAY <= stake.lock_duration {
        Some(AdrenaError::InvalidLockDuration)
    } else if staking_option_for(options, days) is None {
        Some(AdrenaError::InvalidLockDuration)
    } else if bps_mul_value(new_amount as nat, staking_option_for(options, days)->0.reward_multiplier as nat) > u64::MAX
        || bps_mul_value(new_amount as nat, staking_option_for(options, days)->0.lm_reward_multiplier as nat) > u64::MAX {
        Some(AdrenaError::MathOverflow)
    } else if staking_type == StakingType::LM && bps_mul_value(
        new_amount as nat,
        staking_option_for(options, days)->0.vote_multiplier as nat,
    ) > u64::MAX {
        Some(AdrenaError::MathOverflow)
    } else {
        None
    }
}

/// The upgrade of `stake` passes the checks made before its new amount is summed.
pub open spec fn upgrade_checks_pass(
    stake: LockedStake,
    params: UpgradeLockedStakeParams,
    current_time: i64,
    established: bool,
) -> bool {
    &&& stake.voting_power_spec() <= u64::MAX
    &&& !(params.amount is None && params.locked_days is None)
    &&& stake.amount != 0 && !stake.is_genesis && !stake.early_exit && !stake.resolved
        && !stake.has_ended_spec(current_time)
    &&& params.amount != Some(0u64)
    &&& established
}

/// The upgraded lock is longer, is in the table, and its weighted amounts fit.
pub open spec fn upgrade_weights_fit(
    stake: LockedStake,
    params: UpgradeLockedStakeParams,
    options: Seq<StakingOption>,
) -> bool {
    let days = upgraded_locked_days(stake, params.locked_days);
    let new_amount = upgraded_amount(stake, params.amount);
    &&& !(params.locked_days matches Some(d) && d * SECONDS_PER_DAY <= stake.lock_duration)
    &&& staking_option_for(options, days) is Some
    &&& bps_mul_value(new_amount as nat, staking_option_for(options, days)->0.reward_multiplier as nat) <= u64::MAX
    &&& bps_mul_value(new_amount as nat, staking_option_for(options, days)->0.lm_reward_multiplier as nat) <= u64::MAX
}

/// The locked stake after an accepted upgrade.
pub open spec fn upgraded_stake(
    stake: LockedStake,
    params: UpgradeLockedStakeParams,
    options: Seq<StakingOption>,
    current_time: i64,
) -> LockedStake {
    let days = upgraded_locked_days(stake, params.locked_days);
    let new_amount = upgraded_amount(stake, params.amount);
    let o = staking_option_for(options, days)->0;
    LockedStake {
        amount: new_amount as u64,
        lock_duration: (days * SECONDS_PER_DAY) as u64,
        end_time: (current_time + days * SECONDS_PER_DAY) as i64,
        reward_multiplier: o.reward_multiplier,
        lm_reward_multiplier: o.lm_reward_multiplier,
        vote_multiplier: o.vote_multiplier,
        amount_with_reward_multiplier: bps_mul_value(new_amount as nat, o.reward_multiplier as nat) as u64,
        amount_with_lm_reward_multiplier: bps_mul_value(new_amount as nat, o.lm_reward_multiplier as nat) as u64,
        ..stake
    }
}

/// What an accepted upgrade owes outside the staking accounts.
#[derive(Debug, Clone, Copy, PartialEq, Eq, Structural)]
pub struct UpgradeOutcome {
    /// The voting power to add to the owner (LM staking only).
    pub additional_voting_power: u64,
    /// The tokens to move from the owner into the staking vault.
    pub additional_amount: u64,
}

/// What an upgrade of a locked stake asks of the accounts: where the stake it names passes the
/// checks, the upgraded amounts, lock and totals fit their types and only grow.
pub open spec fn upgrade_accepts(
    staking: Staking,
    user_staking: UserStaking,
    params: UpgradeLockedStakeParams,
    options: Seq<StakingOption>,
    current_time: i64,
    established: bool,
) -> bool {
    forall|i: int| #[trigger]
        is_first_with_id(user_staking.locked_stakes@, params.locked_stake_id, i) ==> {
            let stake = user_staking.locked_stakes@[i];
            let new_stake = upgraded_stake(stake, params, options, current_time);
            let days = upgraded_locked_days(stake, params.locked_days);
            &&& upgrade_checks_pass(stake, params, current_time, established) ==> upgraded_amount(stake, params.amount) <= u64::MAX
            &&& upgrade_checks_pass(stake, params, current_time, established) && upgrade_weights_fit(stake, params, options) ==> {
                &&& i64::MIN <= current_time + days * SECONDS_PER_DAY <= i64::MAX
                &&& new_stake.amount_with_reward_multiplier >= stake.amount_with_reward_multiplier
                &&& new_stake.amount_with_lm_reward_multiplier >= stake.amount_with_lm_reward_multiplier
            }
            &&& upgrade_error(staking.staking_type, stake, params, options, current_time, established) is None ==> {
                &&& staking.staking_type == StakingType::LM ==> new_stake.voting_power_spec() >= stake.voting_power_spec()
                &&& staking.current_staking_round.total_stake + new_stake.amount_with_reward_multiplier - stake.amount_with_reward_multiplier <= u64::MAX
                &&& staking.current_staking_round.lm_total_stake + new_stake.amount_with_lm_reward_multiplier - stake.amount_with_lm_reward_multiplier <= u64::MAX
                &&& staking.next_staking_round.total_stake + new_stake.amount_with_reward_multiplier - stake.amount_with_reward_multiplier <= u64::MAX
                &&& staking.next_staking_round.lm_total_stake + new_stake.amount_with_lm_reward_multiplier - stake.amount_with_lm_reward_multiplier <= u64::MAX
                &&& staking.nb_locked_tokens + new_stake.amount - stake.amount <= u64::MAX
            }
        }
}

/// What an upgrade of the locked stake `params.locked_stake_id` answers (`r`), and what it leaves
/// in the accounts, from `staking` and `user_staking` to `staking_after` and `user_after`:
/// `UserStakeNotFound` where the user holds no such stake, the error of `upgrade_error`
/// otherwise, and on an error nothing changes; where it is accepted, the stake becomes
/// `upgraded_stake` and the rounds count the growth of its weighted amounts.
pub open spec fn upgrade_outcome(
    staking: Staking,
    user_staking: UserStaking,
    params: UpgradeLockedStakeParams,
    options: Seq<StakingOption>,
    current_time: i64,
    established: bool,
    r: Result<UpgradeOutcome, AdrenaError>,
    staking_after: Staking,
    user_after: UserStaking,
) -> bool {
    &&& r is Err ==> staking_after == staking && user_after == user_staking
    &&& has_no_stake_with_id(user_staking.locked_stakes@, params.locked_stake_id) ==> r
        == Err::<UpgradeOutcome, AdrenaError>(AdrenaError::UserStakeNotFound)
    &&& forall|i: int| #[trigger]
        is_first_with_id(user_staking.locked_stakes@, params.locked_stake_id, i) ==> {
            let stake = user_staking.locked_stakes@[i];
            let new_stake = upgraded_stake(stake, params, options, current_time);
            let err = upgrade_error(staking.staking_type, stake, params, options, current_time, established);
            &&& err matches Some(e) ==> r == Err::<UpgradeOutcome, AdrenaError>(e)
            &&& err is None ==> {
                &&& r == Ok::<UpgradeOutcome, AdrenaError>(UpgradeOutcome {
                    additional_voting_power: if staking.staking_type == StakingType::LM {
                        (new_stake.voting_power_spec() - stake.voting_power_spec()) as u64
                    } else {
                        0
                    },
                    additional_amount: match params.amount {
                        Some(a) => a,
                        None => 0,
                    },
                })
                &&& user_after.locked_stakes@ == user_staking.locked_stakes@.update(i, new_stake)
                &&& user_after.liquid_stake == user_staking.liquid_stake
                &&& user_after.staking_type == user_staking.staking_type
                &&& staking_after.current_staking_round == (StakingRound {
                    total_stake: (staking.current_staking_round.total_stake + new_stake.amount_with_reward_multiplier - stake.amount_with_reward_multiplier) as u64,
                    lm_total_stake: (staking.current_staking_round.lm_total_stake + new_stake.amount_with_lm_reward_multiplier - stake.amount_with_lm_reward_multiplier) as u64,
                    ..staking.current_staking_round
                })
                &&& staking_after.next_staking_round == (NextStakingRound {
                    total_stake: (staking.next_staking_round.total_stake + new_stake.amount_with_reward_multiplier - stake.amount_with_reward_multiplier) as u64,
                    lm_total_stake: (staking.next_staking_round.lm_total_stake + new_stake.amount_with_lm_reward_multiplier - stake.amount_with_lm_reward_multiplier) as u64,
                })
                &&& staking_after.nb_locked_tokens == staking.nb_locked_tokens + new_stake.amount - stake.amount
                &&& staking_after.nb_liquid_tokens == staking.nb_liquid_tokens
                &&& staking_after.resolved_staking_rounds@ == staking.resolved_staking_rounds@
                &&& staking_after.resolved_reward_token_amount == staking.resolved_reward_token_amount
                &&& staking_after.resolved_staked_token_amount == staking.resolved_staked_token_amount
                &&& staking_after.resolved_lm_reward_token_amount == staking.resolved_lm_reward_token_amount
                &&& staking_after.resolved_lm_staked_token_amount == staking.resolved_lm_staked_token_amount
                &&& staking_after.staking_type == staking.staking_type
            }
        }
}

/// Adds tokens to a locked stake whose rewards have just been claimed, lengthens its lock, or
/// both (see `upgrade_outcome`). The stake takes the multipliers of its new lock from
/// `options` and starts its new lock at `current_time`. `established` says whether the stake
/// has earned rewards long enough to be upgraded.
pub fn upgrade_claimed_locked_stake(
    staking: &mut Staking,
    user_staking: &mut UserStaking,
    params: &UpgradeLockedStakeParams,
    options: &Vec<StakingOption>,
    current_time: i64,
    established: bool,
) -> (r: Result<UpgradeOutcome, AdrenaError>)
    requires
        upgrade_accepts(*old(staking), *old(user_staking), *params, options@, current_time, established),
    ensures
        upgrade_outcome(*old(staking), *old(user_staking), *params, options@, current_time, established, r, *final(staking),
            *final(user_staking)),
{
    let index = match find_locked_stake(user_staking, params.locked_stake_id) {
        Some(i) => i,
        None => {
            return Err(AdrenaError::UserStakeNotFound);
        },
    };
    let stake = user_staking.locked_stakes[index];
    let voting_power_before = checked_bps_mul(stake.amount, stake.vote_multiplier as u64)?;
    if params.amount.is_none() && params.locked_days.is_none() {
        return Err(AdrenaError::InvalidArgument);
    }
    if !(stake.amount != 0 && !stake.is_genesis && !stake.early_exit && !stake.resolved
        && !stake.has_ended(current_time)) {
        return Err(AdrenaError::InvalidStakeState);
    }
    if let Some(a) = params.amount {
        if a == 0 {
            return Err(AdrenaError::InvalidArgument);
        }
    }
    if !established {
        return Err(AdrenaError::StakeNotEstablished);
    }
    proof {
        assert(is_first_with_id(old(user_staking).locked_stakes@, params.locked_stake_id, index as int));
    }
    let new_amount: u64 = match params.amount {
        Some(a) => stake.amount + a,
        None => stake.amount,
    };
    let new_locked_days: u32 = match params.locked_days {
        Some(d) => {
            let new_lock_duration: u64 = d as u64 * SECONDS_PER_DAY;
            if new_lock_duration <= stake.lock_duration {
                return Err(AdrenaError::InvalidLockDuration);
            }
            d
        },
        None => (stake.lock_duration / SECONDS_PER_DAY) as u32,
    };
    let option = find_staking_option(options, new_locked_days)?;
    proof {
        lemma_staking_option_days(options@, new_locked_days);
        assert(new_locked_days as u64 * SECONDS_PER_DAY <= 4294967295u64 * 86400u64)
            by (nonlinear_arith)
            requires
                new_locked_days <= 4294967295u32,
        ;
    }
    let new_with_reward = checked_bps_mul(new_amount, option.reward_multiplier as u64)?;
    let new_with_lm_reward = checked_bps_mul(new_amount, option.lm_reward_multiplier as u64)?;
    let additional_with_reward = new_with_reward - stake.amount_with_reward_multiplier;
    let additional_with_lm_reward = new_with_lm_reward - stake.amount_with_lm_reward_multiplier;
    let new_lock_duration: u64 = new_locked_days as u64 * SECONDS_PER_DAY;
    let new_stake = LockedStake {
        amount: new_amount,
        lock_duration: new_lock_duration,
        end_time: current_time + new_lock_duration as i64,
        reward_multiplier: option.reward_multiplier,
        lm_reward_multiplier: option.lm_reward_multiplier,
        vote_multiplier: option.vote_multiplier,
        amount_with_reward_multiplier: new_with_reward,
        amount_with_lm_reward_multiplier: new_with_lm_reward,
        ..stake
    };
    let additional_voting_power: u64 = if staking.staking_type == StakingType::LM {
        let voting_power_after = checked_bps_mul(new_amount, option.vote_multiplier as u64)?;
        voting_power_after - voting_power_before
    } else {
        0
    };
    user_staking.locked_stakes.set(index, new_stake);
    staking.current_staking_round.total_stake = staking.current_staking_round.total_stake
        + additional_with_reward;
    staking.current_staking_round.lm_total_stake = staking.current_staking_round.lm_total_stake
        + additional_with_lm_reward;
    staking.next_staking_round.total_stake = staking.next_staking_round.total_stake
        + additional_with_reward;
    staking.next_staking_round.lm_total_stake = staking.next_staking_round.lm_total_stake
        + additional_with_lm_reward;
    let additional_amount: u64 = match params.amount {
        Some(a) => a,
        None => 0,
    };
    staking.nb_locked_tokens = staking.nb_locked_tokens + additional_amount;
    Ok(UpgradeOutcome { additional_voting_power, additional_amount })
}

/// Adds tokens to a locked stake, lengthens its lock, or both: first claims the rewards of all
/// the user's stakes (see `claim_stakes`, with `genesis` for the genesis campaign), then
/// upgrades the stake as it stands after the claim (see `upgrade_outcome`; `established` says
/// whether, once claimed, it has earned rewards long enough to be upgraded). Returns what the
/// claim pays and what the upgrade owes; the caller moves the tokens and the voting power. An
/// error, of the claim or of the upgrade, changes nothing.
pub fn upgrade_locked_stake(
    staking: &mut Staking,
    user_staking: &mut UserStaking,
    params: &UpgradeLockedStakeParams,
    options: &Vec<StakingOption>,
    current_time: i64,
    established: bool,
    genesis: Option<GenesisClaim>,
) -> (r: Result<(ClaimOutcome, UpgradeOutcome), AdrenaError>)
    requires
        claim_stakes_accepts(*old(staking), *old(user_staking), None, genesis),
        forall|s: Staking, u: UserStaking, c: ClaimOutcome| #[trigger]
            claim_stakes_outcome(*old(staking), *old(user_staking), None, genesis, Ok(c), s, u)
            ==> upgrade_accepts(s, u, *params, options@, current_time, established),
    ensures
        r is Err ==> *final(staking) == *old(staking) && *final(user_staking) == *old(user_staking),
        exists|s: Staking, u: UserStaking, c: Result<ClaimOutcome, AdrenaError>| #[trigger]
            claim_stakes_outcome(*old(staking), *old(user_staking), None, genesis, c, s, u) && {
            &&& c matches Err(e) ==> r == Err::<(ClaimOutcome, UpgradeOutcome), AdrenaError>(e)
            &&& c matches Ok(claimed) ==> exists|w: Result<UpgradeOutcome, AdrenaError>, s2: Staking, u2: UserStaking| #[trigger]
                upgrade_outcome(s, u, *params, options@, current_time, established, w, s2, u2) && {
                &&& w matches Err(e) ==> r == Err::<(ClaimOutcome, UpgradeOutcome), AdrenaError>(e)
                &&& w matches Ok(upgrade) ==> r == Ok::<(ClaimOutcome, UpgradeOutcome), AdrenaError>((claimed, upgrade))
                    && *final(staking) == s2 && *final(user_staking) == u2
            }
        },
{
    let mut work = copy_staking(staking);
    let mut work_user = copy_user_staking(user_staking);
    let claim = claim_stakes(&mut work, &mut work_user, &ClaimStakesParams { locked_stake_indexes: None }, genesis);
    let claimed = match claim {
        Err(e) => {
            proof {
                assert(claim_stakes_outcome(*old(staking), *old(user_staking), None, genesis, claim, *old(staking), *old(user_staking)));
            }
            return Err(e);
        },
        Ok(c) => c,
    };
    let ghost claimed_staking = work;
    let ghost claimed_user = work_user;
    proof {
        assert(claim_stakes_outcome(*old(staking), *old(user_staking), None, genesis, claim, claimed_staking, claimed_user));
    }
    let upgrade = upgrade_claimed_locked_stake(&mut work, &mut work_user, params, options, current_time, established);
    proof {
        assert(upgrade_outcome(claimed_staking, claimed_user, *params, options@, current_time, established, upgrade, work, work_user));
    }
    match upgrade {
        Err(e) => Err(e),
        Ok(outcome) => {
            *staking = work;
            *user_staking = work_user;
            Ok((claimed, outcome))
        },
    }
}

/// The error that finalizing `stake` is answered with, in the order of the checks, or `None`
/// where it is accepted.
pub open spec fn finalize_error(
    stake: LockedStake,
    early_exit: bool,
    caller_is_owner: bool,
    current_time: i64,
    established: bool,
) -> Option<AdrenaError> {
    if stake.amount == 0 {
        Some(AdrenaError::InvalidStakeState)
    } else if early_exit && stake.has_ended_spec(current_time) {
        Some(AdrenaError::InvalidStakeState)
    } else if early_exit && !caller_is_owner {
        Some(AdrenaError::InvalidArgument)
    } else if early_exit && !established {
        Some(AdrenaError::StakeNotEstablished)
    } else if !early_exit && !stake.has_ended_spec(current_time) {
        Some(AdrenaError::InvalidStakeState)
    } else if stake.resolved {
        Some(AdrenaError::InvalidStakeState)
    } else if stake.voting_power_spec() > u64::MAX {
        Some(AdrenaError::MathOverflow)
    } else {
        None
    }
}

/// What finalizing a locked stake asks for.
pub struct FinalizeLockedStakeParams {
    pub locked_stake_id: u64,
    pub early_exit: bool,
}

/// The locked stake once finalized. An early exit costs `early_exit_fee` tokens, unless the
/// fee is waived.
pub open spec fn finalized_stake(
    stake: LockedStake,
    early_exit: bool,
    current_time: i64,
    early_exit_fee: u64,
    fee_waived: bool,
) -> LockedStake {
    LockedStake {
        resolved: true,
        early_exit_fee: if early_exit && !fee_waived {
            early_exit_fee
        } else {
            0
        },
        early_exit,
        end_time: if early_exit {
            current_time
        } else {
            stake.end_time
        },
        ..stake
    }
}

/// Ends a locked stake, at the end of its lock or early: it stops counting in the current
/// round (where it qualified for it) and in the next, and is marked resolved. An early exit,
/// which only the owner may ask for and only for an established stake, is charged
/// `early_exit_fee` (the fee the stake's terms set at `current_time`), unless
/// `alp_fully_liquid` says that an LP staking has become fully liquid. Returns the voting
/// power to take from the owner. An error changes nothing.
pub fn finalize_locked_stake(
    staking: &mut Staking,
    user_staking: &mut UserStaking,
    params: &FinalizeLockedStakeParams,
    caller_is_owner: bool,
    current_time: i64,
    established: bool,
    early_exit_fee: u64,
    alp_fully_liquid: bool,
) -> (r: Result<u64, AdrenaError>)
    requires
        forall|i: int| #[trigger]
            is_first_with_id(old(user_staking).locked_stakes@, params.locked_stake_id, i) ==> {
                let stake = old(user_staking).locked_stakes@[i];
                finalize_error(stake, params.early_exit, caller_is_owner, current_time, established) is None ==> {
                    &&& stake.qualifies_for_rewards_from_spec(old(staking).current_staking_round) ==> {
                        &&& old(staking).current_staking_round.total_stake >= stake.amount_with_reward_multiplier
                        &&& old(staking).current_staking_round.lm_total_stake >= stake.amount_with_lm_reward_multiplier
                    }
                    &&& old(staking).next_staking_round.total_stake >= stake.amount_with_reward_multiplier
                    &&& old(staking).next_staking_round.lm_total_stake >= stake.amount_with_lm_reward_multiplier
                    &&& old(staking).nb_locked_tokens >= stake.amount
                }
            },
    ensures
        r is Err ==> *final(staking) == *old(staking) && *final(user_staking) == *old(user_staking),
        has_no_stake_with_id(old(user_staking).locked_stakes@, params.locked_stake_id) ==> r
            == Err::<u64, AdrenaError>(AdrenaError::UserStakeNotFound),
        forall|i: int| #[trigger]
            is_first_with_id(old(user_staking).locked_stakes@, params.locked_stake_id, i) ==> {
                let stake = old(user_staking).locked_stakes@[i];
                let err = finalize_error(stake, params.early_exit, caller_is_owner, current_time, established);
                let qualifies = stake.qualifies_for_rewards_from_spec(old(staking).current_staking_round);
                let fee_waived = old(staking).staking_type == StakingType::LP && alp_fully_liquid;
                &&& err matches Some(e) ==> r == Err::<u64, AdrenaError>(e)
                &&& err is None ==> {
                    &&& r == Ok::<u64, AdrenaError>(stake.voting_power_spec() as u64)
                    &&& final(user_staking).locked_stakes@ == old(user_staking).locked_stakes@.update(
                        i,
                        finalized_stake(stake, params.early_exit, current_time, early_exit_fee, fee_waived),
                    )
                    &&& final(user_staking).liquid_stake == old(user_staking).liquid_stake
                    &&& final(user_staking).staking_type == (match old(user_staking).staking_type {
                        Some(t) => Some(t),
                        None => Some(old(staking).staking_type),
                    })
                    &&& final(staking).current_staking_round == (if qualifies {
                        StakingRound {
                            total_stake: (old(staking).current_staking_round.total_stake - stake.amount_with_reward_multiplier) as u64,
                            lm_total_stake: (old(staking).current_staking_round.lm_total_stake - stake.amount_with_lm_reward_multiplier) as u64,
                            ..old(staking).current_staking_round
                        }
                    } else {
                        old(staking).current_staking_round
                    })
                    &&& final(staking).next_staking_round == (NextStakingRound {
                        total_stake: (old(staking).next_staking_round.total_stake - stake.amount_with_reward_multiplier) as u64,
                        lm_total_stake: (old(staking).next_staking_round.lm_total_stake - stake.amount_with_lm_reward_multiplier) as u64,
                    })
                    &&& final(staking).nb_locked_tokens == old(staking).nb_locked_tokens - stake.amount
                    &&& final(staking).nb_liquid_tokens == old(staking).nb_liquid_tokens
                    &&& final(staking).resolved_staking_rounds@ == old(staking).resolved_staking_rounds@
                    &&& final(staking).resolved_reward_token_amount == old(staking).resolved_reward_token_amount
                    &&& final(staking).resolved_staked_token_amount == old(staking).resolved_staked_token_amount
                    &&& final(staking).resolved_lm_reward_token_amount == old(staking).resolved_lm_reward_token_amount
                    &&& final(staking).resolved_lm_staked_token_amount == old(staking).resolved_lm_staked_token_amount
                    &&& final(staking).staking_type == old(staking).staking_type
                }
            },
{
    let index = match find_locked_stake(user_staking, params.locked_stake_id) {
        Some(i) => i,
        None => {
            return Err(AdrenaError::UserStakeNotFound);
        },
    };
    proof {
        assert(is_first_with_id(old(user_staking).locked_stakes@, params.locked_stake_id, index as int));
    }
    let stake = user_staking.locked_stakes[index];
    if stake.amount == 0 {
        return Err(AdrenaError::InvalidStakeState);
    }
    if params.early_exit {
        if stake.has_ended(current_time) {
            return Err(AdrenaError::InvalidStakeState);
        }
        if !caller_is_owner {
            return Err(AdrenaError::InvalidArgument);
        }
        if !established {
            return Err(AdrenaError::StakeNotEstablished);
        }
    }
    if !(params.early_exit || stake.has_ended(current_time)) {
        return Err(AdrenaError::InvalidStakeState);
    }
    if stake.resolved {
        return Err(AdrenaError::InvalidStakeState);
    }
    let voting_power = checked_bps_mul(stake.amount, stake.vote_multiplier as u64)?;
    if user_staking.staking_type.is_none() {
        user_staking.staking_type = Some(staking.staking_type);
    }
    if stake.qualifies_for_rewards_from(&staking.current_staking_round) {
        staking.current_staking_round.total_stake = staking.current_staking_round.total_stake
            - stake.amount_with_reward_multiplier;
        staking.current_staking_round.lm_total_stake = staking.current_staking_round.lm_total_stake
            - stake.amount_with_lm_reward_multiplier;
    }
    staking.next_staking_round.total_stake = staking.next_staking_round.total_stake
        - stake.amount_with_reward_multiplier;
    staking.next_staking_round.lm_total_stake = staking.next_staking_round.lm_total_stake
        - stake.amount_with_lm_reward_multiplier;
    staking.nb_locked_tokens = staking.nb_locked_tokens - stake.amount;
    let fee: u64 = if params.early_exit {
        if staking.staking_type == StakingType::LP && alp_fully_liquid {
            0
        } else {
            early_exit_fee
        }
    } else {
        0
    };
    let new_stake = LockedStake {
        resolved: true,
        early_exit_fee: fee,
        early_exit: params.early_exit,
        end_time: if params.early_exit {
            current_time
        } else {
            stake.end_time
        },
        ..stake
    };
    user_staking.locked_stakes.set(index, new_stake);
    Ok(voting_power)
}

/// The tokens that leave a finalized locked stake: those returned to the owner and those
/// burnt as the early-exit fee.
#[derive(Debug, Clone, Copy, PartialEq, Eq, Structural)]
pub struct RemovedLockedStake {
    pub locked_stake_id: u64,
    pub amount_to_unstake: u64,
    pub amount_to_burn: u64,
}

/// Which locked stake a removal takes out: its position in the user's locked stakes.
#[derive(Debug, Clone, Copy, PartialEq, Eq, Structural)]
pub struct RemoveLockedStakeParams {
    pub locked_stake_index: u64,
}

/// What taking a locked stake out asks of the accounts: the stake at the position holds at
/// least the fee it is charged.
pub open spec fn release_locked_accepts(user_staking: UserStaking, params: RemoveLockedStakeParams) -> bool {
    params.locked_stake_index < user_staking.locked_stakes@.len() ==> user_staking.locked_stakes@[params.locked_stake_index as int].amount
        >= user_staking.locked_stakes@[params.locked_stake_index as int].early_exit_fee
}

/// What taking out the locked stake at position `params.locked_stake_index` at `current_time`
/// answers (`r`), and what it leaves of the user's stakes (`user_after`): `UserStakeNotFound`
/// where there is no stake at that position, `UnresolvedStake` where the stake is not
/// finalized after its lock ended or after an early exit, and on an error nothing changes;
/// otherwise the stake's slot is freed, and its tokens less the early-exit fee go back to the
/// owner while the fee is burnt.
pub open spec fn release_locked_outcome(
    user_staking: UserStaking,
    params: RemoveLockedStakeParams,
    current_time: i64,
    r: Result<RemovedLockedStake, AdrenaError>,
    user_after: UserStaking,
) -> bool {
    let index = params.locked_stake_index as int;
    let stake = user_staking.locked_stakes@[index];
    let removable = (stake.early_exit || stake.has_ended_spec(current_time)) && stake.resolved;
    &&& r is Err ==> user_after == user_staking
    &&& params.locked_stake_index >= user_staking.locked_stakes@.len() ==> r == Err::<RemovedLockedStake, AdrenaError>(
        AdrenaError::UserStakeNotFound,
    )
    &&& params.locked_stake_index < user_staking.locked_stakes@.len() && !removable ==> r == Err::<RemovedLockedStake, AdrenaError>(
        AdrenaError::UnresolvedStake,
    )
    &&& params.locked_stake_index < user_staking.locked_stakes@.len() && removable ==> {
        &&& r == Ok::<RemovedLockedStake, AdrenaError>(RemovedLockedStake {
            locked_stake_id: stake.id,
            amount_to_unstake: (stake.amount - stake.early_exit_fee) as u64,
            amount_to_burn: stake.early_exit_fee,
        })
        &&& r->Ok_0.amount_to_unstake + r->Ok_0.amount_to_burn == stake.amount
        &&& user_after.locked_stakes@ == user_staking.locked_stakes@.update(index, blank_locked_stake())
        &&& user_after.liquid_stake == user_staking.liquid_stake
        &&& user_after.staking_type == user_staking.staking_type
    }
}

/// Takes out the finalized locked stake at position `params.locked_stake_index`, whose
/// rewards have just been claimed (see `release_locked_outcome`).
pub fn release_locked_stake(user_staking: &mut UserStaking, params: &RemoveLockedStakeParams, current_time: i64) -> (r:
    Result<RemovedLockedStake, AdrenaError>)
    requires
        release_locked_accepts(*old(user_staking), *params),
    ensures
        release_locked_outcome(*old(user_staking), *params, current_time, r, *final(user_staking)),
{
    if params.locked_stake_index >= user_staking.locked_stakes.len() as u64 {
        return Err(AdrenaError::UserStakeNotFound);
    }
    let index = params.locked_stake_index as usize;
    let stake = user_staking.locked_stakes[index];
    if !((stake.early_exit || stake.has_ended(current_time)) && stake.resolved) {
        return Err(AdrenaError::UnresolvedStake);
    }
    let amount_to_unstake = stake.amount - stake.early_exit_fee;
    user_staking.locked_stakes.set(index, new_blank_locked_stake());
    Ok(RemovedLockedStake {
        locked_stake_id: stake.id,
        amount_to_unstake,
        amount_to_burn: stake.early_exit_fee,
    })
}

/// Removes the finalized locked stake at position `params.locked_stake_index`: first claims
/// the rewards of all the user's stakes (see `claim_stakes`, with `genesis` for the genesis
/// campaign), then takes the stake out of the stakes as they stand after the claim (see
/// `release_locked_outcome`). Returns what the claim pays and how many of the stake's tokens
/// go back to the owner and how many are burnt. An error, of the claim or of the removal,
/// changes nothing.
pub fn remove_locked_stake(
    staking: &mut Staking,
    user_staking: &mut UserStaking,
    params: &RemoveLockedStakeParams,
    current_time: i64,
    genesis: Option<GenesisClaim>,
) -> (r: Result<(ClaimOutcome, RemovedLockedStake), AdrenaError>)
    requires
        claim_stakes_accepts(*old(staking), *old(user_staking), None, genesis),
        forall|s: Staking, u: UserStaking, c: ClaimOutcome| #[trigger]
            claim_stakes_outcome(*old(staking), *old(user_staking), None, genesis, Ok(c), s, u)
            ==> release_locked_accepts(u, *params),
    ensures
        r is Err ==> *final(staking) == *old(staking) && *final(user_staking) == *old(user_staking),
        exists|s: Staking, u: UserStaking, c: Result<ClaimOutcome, AdrenaError>| #[trigger]
            claim_stakes_outcome(*old(staking), *old(user_staking), None, genesis, c, s, u) && {
            &&& c matches Err(e) ==> r == Err::<(ClaimOutcome, RemovedLockedStake), AdrenaError>(e)
            &&& c matches Ok(claimed) ==> exists|w: Result<RemovedLockedStake, AdrenaError>, u2: UserStaking| #[trigger]
                release_locked_outcome(u, *params, current_time, w, u2) && {
                &&& w matches Err(e) ==> r == Err::<(ClaimOutcome, RemovedLockedStake), AdrenaError>(e)
                &&& w matches Ok(removed) ==> r == Ok::<(ClaimOutcome, RemovedLockedStake), AdrenaError>((claimed, removed))
                    && *final(staking) == s && *final(user_staking) == u2
            }
        },
{
    let mut work = copy_staking(staking);
    let mut work_user = copy_user_staking(user_staking);
    let claim = claim_stakes(&mut work, &mut work_user, &ClaimStakesParams { locked_stake_indexes: None }, genesis);
    let claimed = match claim {
        Err(e) => {
            proof {
                assert(claim_stakes_outcome(*old(staking), *old(user_staking), None, genesis, claim, *old(staking), *old(user_staking)));
            }
            return Err(e);
        },
        Ok(c) => c,
    };
    let ghost claimed_user = work_user;
    proof {
        assert(claim_stakes_outcome(*old(staking), *old(user_staking), None, genesis, claim, work, claimed_user));
    }
    let removal = release_locked_stake(&mut work_user, params, current_time);
    proof {
        assert(release_locked_outcome(claimed_user, *params, current_time, removal, work_user));
    }
    match removal {
        Err(e) => Err(e),
        Ok(removed) => {
            *staking = work;
            *user_staking = work_user;
            Ok((claimed, removed))
        },
    }
}

/// The current round's stake after `amount` leaves a liquid stake that qualifies for it,
/// and the liquid stake's overlap after it.
pub open spec fn liquid_removal_from_current_round(
    liquid: LiquidStake,
    round: StakingRound,
    amount: u64,
) -> (int, u64) {
    if liquid.overlap_amount > 0 && liquid.overlap_time >= round.start_time {
        if amount > liquid.overlap_amount {
            (round.total_stake - (amount - liquid.overlap_amount), 0u64)
        } else {
            (round.total_stake as int, (liquid.overlap_amount - amount) as u64)
        }
    } else {
        (round.total_stake - amount, liquid.overlap_amount)
    }
}

/// How many tokens a withdrawal takes from the liquid stake.
#[derive(Debug, Clone, Copy, PartialEq, Eq, Structural)]
pub struct RemoveLiquidStakeParams {
    pub amount: u64,
}

/// What a withdrawal from the liquid stake asks of the accounts: where it goes ahead, the
/// staking counts the tokens it takes out.
pub open spec fn withdraw_liquid_accepts(staking: Staking, user_staking: UserStaking, params: RemoveLiquidStakeParams) -> bool {
    params.amount != 0 && user_staking.liquid_stake.amount >= params.amount ==> {
        let liquid = LiquidStake { amount: (user_staking.liquid_stake.amount - params.amount) as u64, ..user_staking.liquid_stake };
        &&& staking.nb_liquid_tokens >= params.amount
        &&& staking.next_staking_round.total_stake >= params.amount
        &&& liquid.qualifies_for_rewards_from_spec(staking.current_staking_round) ==>
            liquid_removal_from_current_round(liquid, staking.current_staking_round, params.amount).0 >= 0
    }
}

/// What a withdrawal of `params.amount` tokens from the liquid stake answers (`r`), and what it
/// leaves in the accounts, from `staking` and `user_staking` to `staking_after` and
/// `user_after`: `InvalidArgument` for a zero amount, `InvalidStakeState` where the liquid
/// stake holds fewer tokens, and on an error nothing changes. Otherwise the current round
/// stops counting the tokens, except for the part that was staked during the round (the
/// overlap), which it never counted; the next round stops counting them; and the voting power
/// to take from the owner is returned (LM staking only).
pub open spec fn withdraw_liquid_outcome(
    staking: Staking,
    user_staking: UserStaking,
    params: RemoveLiquidStakeParams,
    r: Result<u64, AdrenaError>,
    staking_after: Staking,
    user_after: UserStaking,
) -> bool {
    let liquid = LiquidStake { amount: (user_staking.liquid_stake.amount - params.amount) as u64, ..user_staking.liquid_stake };
    let round = staking.current_staking_round;
    let qualifies = liquid.qualifies_for_rewards_from_spec(round);
    let removal = liquid_removal_from_current_round(liquid, round, params.amount);
    &&& r is Err ==> staking_after == staking && user_after == user_staking
    &&& params.amount == 0 ==> r == Err::<u64, AdrenaError>(AdrenaError::InvalidArgument)
    &&& params.amount != 0 && user_staking.liquid_stake.amount < params.amount ==> r == Err::<u64, AdrenaError>(
        AdrenaError::InvalidStakeState,
    )
    &&& params.amount != 0 && user_staking.liquid_stake.amount >= params.amount ==> {
        &&& r == Ok::<u64, AdrenaError>(if staking.staking_type == StakingType::LM { params.amount } else { 0 })
        &&& user_after.liquid_stake == (if qualifies {
            LiquidStake { overlap_amount: removal.1, ..liquid }
        } else {
            liquid
        })
        &&& user_after.locked_stakes@ == user_staking.locked_stakes@
        &&& user_after.staking_type == user_staking.staking_type
        &&& staking_after.current_staking_round == (if qualifies {
            StakingRound { total_stake: removal.0 as u64, ..round }
        } else {
            round
        })
        &&& staking_after.next_staking_round == (NextStakingRound {
            total_stake: (staking.next_staking_round.total_stake - params.amount) as u64,
            ..staking.next_staking_round
        })
        &&& staking_after.nb_liquid_tokens == staking.nb_liquid_tokens - params.amount
        &&& staking_after.nb_locked_tokens == staking.nb_locked_tokens
        &&& staking_after.resolved_staking_rounds@ == staking.resolved_staking_rounds@
        &&& staking_after.resolved_reward_token_amount == staking.resolved_reward_token_amount
        &&& staking_after.resolved_staked_token_amount == staking.resolved_staked_token_amount
        &&& staking_after.resolved_lm_reward_token_amount == staking.resolved_lm_reward_token_amount
        &&& staking_after.resolved_lm_staked_token_amount == staking.resolved_lm_staked_token_amount
        &&& staking_after.staking_type == staking.staking_type
    }
}

/// Withdraws `params.amount` tokens from a liquid stake whose rewards have just been claimed
/// (see `withdraw_liquid_outcome`).
pub fn withdraw_liquid_stake(staking: &mut Staking, user_staking: &mut UserStaking, params: &RemoveLiquidStakeParams) -> (r:
    Result<u64, AdrenaError>)
    requires
        withdraw_liquid_accepts(*old(staking), *old(user_staking), *params),
    ensures
        withdraw_liquid_outcome(*old(staking), *old(user_staking), *params, r, *final(staking), *final(user_staking)),
{
    let amount: u64 = params.amount;
    if amount == 0 {
        return Err(AdrenaError::InvalidArgument);
    }
    if user_staking.liquid_stake.amount < amount {
        return Err(AdrenaError::InvalidStakeState);
    }
    let voting_power: u64 = if staking.staking_type == StakingType::LM {
        amount
    } else {
        0
    };
    user_staking.liquid_stake.amount = user_staking.liquid_stake.amount - amount;
    staking.nb_liquid_tokens = staking.nb_liquid_tokens - amount;
    if user_staking.liquid_stake.qualifies_for_rewards_from(&staking.current_staking_round) {
        if user_staking.liquid_stake.overlap_amount > 0 && user_staking.liquid_stake.overlap_time
            >= staking.current_staking_round.start_time {
            if amount > user_staking.liquid_stake.overlap_amount {
                staking.current_staking_round.total_stake = staking.current_staking_round.total_stake
                    - (amount - user_staking.liquid_stake.overlap_amount);
                user_staking.liquid_stake.overlap_amount = 0;
            } else {
                user_staking.liquid_stake.overlap_amount = user_staking.liquid_stake.overlap_amount
                    - amount;
            }
        } else {
            staking.current_staking_round.total_stake = staking.current_staking_round.total_stake
                - amount;
        }
    }
    staking.next_staking_round.total_stake = staking.next_staking_round.total_stake - amount;
    Ok(voting_power)
}

/// What a withdrawal from the liquid stake gives: what the claim made first paid, and the
/// voting power to take from the owner.
#[derive(Debug, Clone, Copy, PartialEq, Eq, Structural)]
pub struct RemovedLiquidStake {
    pub claimed: ClaimOutcome,
    pub voting_power: u64,
}

/// Withdraws `params.amount` tokens from the liquid stake: refuses a zero amount
/// (`InvalidArgument`) before anything else, then claims the rewards of all the user's
/// stakes (see `claim_stakes`, with `genesis` for the genesis campaign), then withdraws from
/// the liquid stake as it stands after the claim (see `withdraw_liquid_outcome`). The caller pays the claim and moves `params.amount` from the
/// vault to the owner. An error, of the claim or of the withdrawal, changes nothing.
pub fn remove_liquid_stake(
    staking: &mut Staking,
    user_staking: &mut UserStaking,
    params: &RemoveLiquidStakeParams,
    genesis: Option<GenesisClaim>,
) -> (r: Result<RemovedLiquidStake, AdrenaError>)
    requires
        params.amount != 0 ==> claim_stakes_accepts(*old(staking), *old(user_staking), None, genesis),
        forall|s: Staking, u: UserStaking, c: ClaimOutcome| #[trigger]
            claim_stakes_outcome(*old(staking), *old(user_staking), None, genesis, Ok(c), s, u) && params.amount != 0
            ==> withdraw_liquid_accepts(s, u, *params),
    ensures
        r is Err ==> *final(staking) == *old(staking) && *final(user_staking) == *old(user_staking),
        params.amount == 0 ==> r == Err::<RemovedLiquidStake, AdrenaError>(AdrenaError::InvalidArgument),
        params.amount != 0 ==> exists|s: Staking, u: UserStaking, c: Result<ClaimOutcome, AdrenaError>| #[trigger]
            claim_stakes_outcome(*old(staking), *old(user_staking), None, genesis, c, s, u) && {
            &&& c matches Err(e) ==> r == Err::<RemovedLiquidStake, AdrenaError>(e)
            &&& c matches Ok(claimed) ==> exists|w: Result<u64, AdrenaError>, s2: Staking, u2: UserStaking| #[trigger]
                withdraw_liquid_outcome(s, u, *params, w, s2, u2) && {
                &&& w matches Err(e) ==> r == Err::<RemovedLiquidStake, AdrenaError>(e)
                &&& w matches Ok(v) ==> r == Ok::<RemovedLiquidStake, AdrenaError>(RemovedLiquidStake { claimed, voting_power: v })
                    && *final(staking) == s2 && *final(user_staking) == u2
            }
        },
{
    if params.amount == 0 {
        return Err(AdrenaError::InvalidArgument);
    }
    let mut work = copy_staking(staking);
    let mut work_user = copy_user_staking(user_staking);
    let ghost start = work;
    let ghost start_user = work_user;
    let claim = claim_stakes(&mut work, &mut work_user, &ClaimStakesParams { locked_stake_indexes: None }, genesis);
    let claimed = match claim {
        Err(e) => {
            proof {
                assert(claim_stakes_outcome(*old(staking), *old(user_staking), None, genesis, claim, *old(staking), *old(user_staking)));
            }
            return Err(e);
        },
        Ok(c) => c,
    };
    let ghost claimed_staking = work;
    let ghost claimed_user = work_user;
    proof {
        assert(claim_stakes_outcome(*old(staking), *old(user_staking), None, genesis, claim, claimed_staking, claimed_user));
    }
    let withdrawal = withdraw_liquid_stake(&mut work, &mut work_user, params);
    proof {
        assert(withdraw_liquid_outcome(claimed_staking, claimed_user, *params, withdrawal, work, work_user));
    }
    match withdrawal {
        Err(e) => Err(e),
        Ok(voting_power) => {
            *staking = work;
            *user_staking = work_user;
            Ok(RemovedLiquidStake { claimed, voting_power })
        },
    }
}

/// A copy of a staking's accounts.
fn copy_staking(staking: &Staking) -> (c: Staking)
    ensures
        c.resolved_staking_rounds@ == staking.resolved_staking_rounds@,
        c == (Staking { resolved_staking_rounds: c.resolved_staking_rounds, ..*staking }),
{
    Staking {
        staking_type: staking.staking_type,
        staked_token_decimals: staking.staked_token_decimals,
        reward_token_decimals: staking.reward_token_decimals,
        nb_liquid_tokens: staking.nb_liquid_tokens,
        nb_locked_tokens: staking.nb_locked_tokens,
        current_staking_round: staking.current_staking_round,
        next_staking_round: staking.next_staking_round,
        resolved_staking_rounds: copy_vec(&staking.resolved_staking_rounds),
        resolved_reward_token_amount: staking.resolved_reward_token_amount,
        resolved_staked_token_amount: staking.resolved_staked_token_amount,
        resolved_lm_reward_token_amount: staking.resolved_lm_reward_token_amount,
        resolved_lm_staked_token_amount: staking.resolved_lm_staked_token_amount,
        current_month_emission_amount_per_round: staking.current_month_emission_amount_per_round,
    }
}

/// A copy of a user's stakes.
fn copy_user_staking(user_staking: &UserStaking) -> (c: UserStaking)
    ensures
        c.locked_stakes@ == user_staking.locked_stakes@,
        c.staking_type == user_staking.staking_type,
        c.liquid_stake == user_staking.liquid_stake,
{
    UserStaking {
        staking_type: user_staking.staking_type,
        liquid_stake: user_staking.liquid_stake,
        locked_stakes: copy_vec(&user_staking.locked_stakes),
    }
}

/// A copy of a list of plain values.
pub(crate) fn copy_vec<T: Copy>(v: &Vec<T>) -> (c: Vec<T>)
    ensures
        c@ == v@,
{
    let mut c: Vec<T> = Vec::new();
    let mut i: usize = 0;
    while i < v.len()
        invariant
            i <= v@.len(),
            c@ == v@.subrange(0, i as int),
        decreases v@.len() - i,
    {
        c.push(v[i]);
        proof {
            assert(c@ =~= v@.subrange(0, i + 1));
        }
        i = i + 1;
    }
    proof {
        assert(v@.subrange(0, v@.len() as int) =~= v@);
    }
    c
}

/// The moment LM rewards started to be emitted (when trading went live).
pub const LM_EMISSION_START_TIME: i64 = 1727006400i64;

/// The LM tokens the current round emits before the emission filter, at `current_time`:
/// nothing before emission started, nothing for an LP staking whose current round started
/// once the pool became fully liquid (`round_after_alp_liquid_breakpoint`), the monthly
/// emission per round otherwise.
pub fn current_round_lm_emission(
    staking: &Staking,
    current_time: i64,
    round_after_alp_liquid_breakpoint: bool,
) -> (amount: u64)
    ensures
        amount == (if current_time < LM_EMISSION_START_TIME {
            0
        } else if staking.staking_type == StakingType::LP && round_after_alp_liquid_breakpoint {
            0
        } else {
            staking.current_month_emission_amount_per_round
        }),
{
    if current_time < LM_EMISSION_START_TIME {
        0
    } else if staking.staking_type == StakingType::LP && round_after_alp_liquid_breakpoint {
        0
    } else {
        staking.current_month_emission_amount_per_round
    }
}

/// The reward per staked token of a round (with `RATE_DECIMALS` decimals): `reward` tokens
/// of `reward_decimals` decimals shared by `stake` tokens of `staked_decimals` decimals;
/// zero where nothing is staked.
pub open spec fn round_rate(reward: u64, reward_decimals: u8, stake: u64, staked_decimals: u8) -> nat {
    if stake == 0 {
        0
    } else {
        decimal_div_value(
            reward as nat,
            -(reward_decimals as int),
            stake as nat,
            -(staked_decimals as int),
            -(RATE_DECIMALS as int),
        )
    }
}

/// The rewards owed to `stake` tokens (of `staked_decimals` decimals) at rate `rate`, in
/// reward tokens of `reward_decimals` decimals, rounded down.
pub open spec fn round_reward(rate: u64, stake: u64, staked_decimals: u8, reward_decimals: u8) -> nat {
    decimal_mul_value(
        rate as nat,
        -(RATE_DECIMALS as int),
        stake as nat,
        -(staked_decimals as int),
        -(reward_decimals as int),
    )
}

/// The reward rate of a round, or `MathOverflow` where it does not fit.
fn compute_round_rate(reward: u64, reward_decimals: u8, stake: u64, staked_decimals: u8) -> (r:
    Result<u64, AdrenaError>)
    ensures
        round_rate(reward, reward_decimals, stake, staked_decimals) <= u64::MAX ==> r == Ok::<
            u64,
            AdrenaError,
        >(round_rate(reward, reward_decimals, stake, staked_decimals) as u64),
        round_rate(reward, reward_decimals, stake, staked_decimals) > u64::MAX ==> r == Err::<
            u64,
            AdrenaError,
        >(AdrenaError::MathOverflow),
{
    if stake == 0 {
        Ok(0)
    } else {
        checked_decimal_div(
            reward,
            -(reward_decimals as i32),
            stake,
            -(staked_decimals as i32),
            -(RATE_DECIMALS as i32),
        )
    }
}

/// The staking after its current round is resolved at `current_time`, the reward vaults
/// holding `reward_vault_amount` and `lm_reward_vault_amount` (this round's emission minted).
/// The round's rewards are what the vaults hold beyond what earlier rounds were assigned. A
/// round in which something was staked and something is to be shared joins the resolved
/// rounds, with its rates; where `MAX_RESOLVED_ROUNDS` rounds are already kept, the oldest is
/// dropped first and its unclaimed rewards return to the pool of unassigned rewards. The
/// next round becomes the current one.
pub open spec fn resolve_outcome(
    staking: Staking,
    current_time: i64,
    reward_vault_amount: u64,
    lm_reward_vault_amount: u64,
) -> (bool, Staking) {
    let round = staking.current_staking_round;
    let reward = (reward_vault_amount - staking.resolved_reward_token_amount) as u64;
    let lm_reward = (lm_reward_vault_amount - staking.resolved_lm_reward_token_amount) as u64;
    let rate = round_rate(reward, staking.reward_token_decimals, round.total_stake, staking.staked_token_decimals) as u64;
    let lm_rate = round_rate(lm_reward, LM_DECIMALS as u8, round.lm_total_stake, LM_DECIMALS as u8) as u64;
    let moved = (round.total_stake != 0 || round.lm_total_stake != 0) && (rate != 0 || lm_rate != 0);
    let full = staking.resolved_staking_rounds@.len() == MAX_RESOLVED_ROUNDS;
    let oldest = staking.resolved_staking_rounds@[0];
    let drops_unclaimed = moved && full && oldest.total_claim <= oldest.total_stake;
    let eligible = (oldest.total_stake - oldest.total_claim) as u64;
    let unclaimed = round_reward(oldest.rate, eligible, staking.staked_token_decimals, staking.reward_token_decimals);
    (moved, Staking {
        current_staking_round: StakingRound {
            start_time: current_time,
            end_time: 0,
            rate: 0,
            total_stake: staking.next_staking_round.total_stake,
            total_claim: 0,
            lm_rate: 0,
            lm_total_stake: staking.next_staking_round.lm_total_stake,
            lm_total_claim: 0,
        },
        resolved_reward_token_amount: if !moved {
            staking.resolved_reward_token_amount
        } else if drops_unclaimed {
            (reward_vault_amount - unclaimed) as u64
        } else {
            reward_vault_amount
        },
        resolved_staked_token_amount: if !moved {
            staking.resolved_staked_token_amount
        } else if drops_unclaimed {
            (staking.resolved_staked_token_amount + round.total_stake - eligible) as u64
        } else {
            (staking.resolved_staked_token_amount + round.total_stake) as u64
        },
        resolved_lm_reward_token_amount: if moved {
            lm_reward_vault_amount
        } else {
            staking.resolved_lm_reward_token_amount
        },
        resolved_lm_staked_token_amount: if moved {
            (staking.resolved_lm_staked_token_amount + round.lm_total_stake) as u64
        } else {
            staking.resolved_lm_staked_token_amount
        },
        ..staking
    })
}

/// The rounds kept as resolved after a resolution (see `resolve_outcome`).
pub open spec fn resolved_rounds_after(
    staking: Staking,
    current_time: i64,
    reward_vault_amount: u64,
    lm_reward_vault_amount: u64,
) -> Seq<StakingRound> {
    let round = staking.current_staking_round;
    let reward = (reward_vault_amount - staking.resolved_reward_token_amount) as u64;
    let lm_reward = (lm_reward_vault_amount - staking.resolved_lm_reward_token_amount) as u64;
    let rate = round_rate(reward, staking.reward_token_decimals, round.total_stake, staking.staked_token_decimals) as u64;
    let lm_rate = round_rate(lm_reward, LM_DECIMALS as u8, round.lm_total_stake, LM_DECIMALS as u8) as u64;
    let moved = resolve_outcome(staking, current_time, reward_vault_amount, lm_reward_vault_amount).0;
    let full = staking.resolved_staking_rounds@.len() == MAX_RESOLVED_ROUNDS;
    let kept = if moved && full {
        staking.resolved_staking_rounds@.drop_first()
    } else {
        staking.resolved_staking_rounds@
    };
    if moved {
        kept.push(StakingRound { rate, lm_rate, end_time: current_time, ..round })
    } else {
        kept
    }
}

/// Resolves the current staking round at `current_time` (see `resolve_outcome` and
/// `resolved_rounds_after`); `resolvable` says whether the round has lasted long enough.
/// `InvalidStakingRoundState` where it has not, `MathOverflow` where a rate or the dropped
/// round's unclaimed rewards do not fit. An error changes nothing.
pub fn resolve_staking_round(
    staking: &mut Staking,
    current_time: i64,
    resolvable: bool,
    reward_vault_amount: u64,
    lm_reward_vault_amount: u64,
) -> (r: Result<(), AdrenaError>)
    requires
        old(staking).well_formed(),
        resolvable ==> {
            let outcome = resolve_outcome(*old(staking), current_time, reward_vault_amount, lm_reward_vault_amount);
            let round = old(staking).current_staking_round;
            let oldest = old(staking).resolved_staking_rounds@[0];
            let eligible = (oldest.total_stake - oldest.total_claim) as u64;
            &&& reward_vault_amount >= old(staking).resolved_reward_token_amount
            &&& lm_reward_vault_amount >= old(staking).resolved_lm_reward_token_amount
            &&& outcome.0 ==> {
                &&& old(staking).resolved_staked_token_amount + round.total_stake <= u64::MAX
                &&& old(staking).resolved_lm_staked_token_amount + round.lm_total_stake <= u64::MAX
                &&& old(staking).resolved_staking_rounds@.len() == MAX_RESOLVED_ROUNDS
                    && oldest.total_claim <= oldest.total_stake ==> {
                    &&& round_reward(oldest.rate, eligible, old(staking).staked_token_decimals, old(staking).reward_token_decimals)
                        <= reward_vault_amount
                    &&& eligible <= old(staking).resolved_staked_token_amount + round.total_stake
                }
            }
        },
    ensures
        r is Err ==> *final(staking) == *old(staking),
        !resolvable ==> r == Err::<(), AdrenaError>(AdrenaError::InvalidStakingRoundState),
        resolvable ==> {
            let round = old(staking).current_staking_round;
            let reward = (reward_vault_amount - old(staking).resolved_reward_token_amount) as u64;
            let lm_reward = (lm_reward_vault_amount - old(staking).resolved_lm_reward_token_amount) as u64;
            let rate = round_rate(reward, old(staking).reward_token_decimals, round.total_stake, old(staking).staked_token_decimals);
            let lm_rate = round_rate(lm_reward, LM_DECIMALS as u8, round.lm_total_stake, LM_DECIMALS as u8);
            let outcome = resolve_outcome(*old(staking), current_time, reward_vault_amount, lm_reward_vault_amount);
            let oldest = old(staking).resolved_staking_rounds@[0];
            let eligible = (oldest.total_stake - oldest.total_claim) as u64;
            let unclaimed = round_reward(oldest.rate, eligible, old(staking).staked_token_decimals, old(staking).reward_token_decimals);
            let drops_unclaimed = outcome.0 && old(staking).resolved_staking_rounds@.len() == MAX_RESOLVED_ROUNDS
                && oldest.total_claim <= oldest.total_stake;
            &&& rate > u64::MAX ==> r == Err::<(), AdrenaError>(AdrenaError::MathOverflow)
            &&& rate <= u64::MAX && lm_rate > u64::MAX ==> r == Err::<(), AdrenaError>(AdrenaError::MathOverflow)
            &&& rate <= u64::MAX && lm_rate <= u64::MAX && drops_unclaimed && unclaimed > u64::MAX
                ==> r == Err::<(), AdrenaError>(AdrenaError::MathOverflow)
            &&& rate <= u64::MAX && lm_rate <= u64::MAX && !(drops_unclaimed && unclaimed > u64::MAX) ==> {
                &&& r == Ok::<(), AdrenaError>(())
                &&& final(staking).well_formed()
                &&& final(staking).current_staking_round == outcome.1.current_staking_round
                &&& final(staking).next_staking_round == old(staking).next_staking_round
                &&& final(staking).resolved_reward_token_amount == outcome.1.resolved_reward_token_amount
                &&& final(staking).resolved_staked_token_amount == outcome.1.resolved_staked_token_amount
                &&& final(staking).resolved_lm_reward_token_amount == outcome.1.resolved_lm_reward_token_amount
                &&& final(staking).resolved_lm_staked_token_amount == outcome.1.resolved_lm_staked_token_amount
                &&& final(staking).resolved_staking_rounds@ == resolved_rounds_after(*old(staking), current_time, reward_vault_amount, lm_reward_vault_amount)
                &&& final(staking).nb_liquid_tokens == old(staking).nb_liquid_tokens
                &&& final(staking).nb_locked_tokens == old(staking).nb_locked_tokens
                &&& final(staking).staking_type == old(staking).staking_type
                &&& final(staking).staked_token_decimals == old(staking).staked_token_decimals
                &&& final(staking).reward_token_decimals == old(staking).reward_token_decimals
                &&& final(staking).current_month_emission_amount_per_round == old(staking).current_month_emission_amount_per_round
                &&& final(staking).resolved_reward_token_amount <= reward_vault_amount
                &&& final(staking).resolved_lm_reward_token_amount <= lm_reward_vault_amount
            }
        },
{
    if !resolvable {
        return Err(AdrenaError::InvalidStakingRoundState);
    }
    let round = staking.current_staking_round;
    let reward: u64 = reward_vault_amount - staking.resolved_reward_token_amount;
    let lm_reward: u64 = lm_reward_vault_amount - staking.resolved_lm_reward_token_amount;
    let rate = compute_round_rate(reward, staking.reward_token_decimals, round.total_stake, staking.staked_token_decimals)?;
    let lm_rate = compute_round_rate(lm_reward, LM_DECIMALS as u8, round.lm_total_stake, LM_DECIMALS as u8)?;
    let moved: bool = (round.total_stake != 0 || round.lm_total_stake != 0) && (rate != 0 || lm_rate != 0);
    let full: bool = staking.resolved_staking_rounds.len() == MAX_RESOLVED_ROUNDS;
    let mut drops_unclaimed: bool = false;
    let mut eligible: u64 = 0;
    let mut unclaimed: u64 = 0;
    if moved && full {
        let oldest = staking.resolved_staking_rounds[0];
        if oldest.total_claim <= oldest.total_stake {
            eligible = oldest.total_stake - oldest.total_claim;
            unclaimed = checked_decimal_mul(
                oldest.rate,
                -(RATE_DECIMALS as i32),
                eligible,
                -(staking.staked_token_decimals as i32),
                -(staking.reward_token_decimals as i32),
            )?;
            drops_unclaimed = true;
        }
    }
    staking.current_staking_round.rate = rate;
    staking.current_staking_round.lm_rate = lm_rate;
    if moved {
        staking.resolved_staked_token_amount = staking.resolved_staked_token_amount + round.total_stake;
        staking.resolved_reward_token_amount = reward_vault_amount;
        staking.resolved_lm_staked_token_amount = staking.resolved_lm_staked_token_amount
            + round.lm_total_stake;
        staking.resolved_lm_reward_token_amount = lm_reward_vault_amount;
        if full {
            if drops_unclaimed {
                staking.resolved_reward_token_amount = staking.resolved_reward_token_amount - unclaimed;
                staking.resolved_staked_token_amount = staking.resolved_staked_token_amount - eligible;
            }
            staking.resolved_staking_rounds.remove(0);
            proof {
                assert(staking.resolved_staking_rounds@ =~= old(staking).resolved_staking_rounds@.drop_first());
            }
        }
        let mut resolved_round = staking.current_staking_round;
        resolved_round.end_time = current_time;
        staking.resolved_staking_rounds.push(resolved_round);
    }
    staking.current_staking_round = StakingRound {
        start_time: current_time,
        end_time: 0,
        rate: 0,
        total_stake: staking.next_staking_round.total_stake,
        total_claim: 0,
        lm_rate: 0,
        lm_total_stake: staking.next_staking_round.lm_total_stake,
        lm_total_claim: 0,
    };
    Ok(())
}

/// A round with nothing to share stays unresolved: where both reward rates the resolution
/// computes for the current round are zero, resolving it adds no round to the resolved ones
/// and leaves the resolved reward and staked totals as they were, whatever was staked.
pub proof fn lemma_rateless_round_is_not_resolved(
    staking: Staking,
    current_time: i64,
    reward_vault_amount: u64,
    lm_reward_vault_amount: u64,
)
    requires
        round_rate(
            (reward_vault_amount - staking.resolved_reward_token_amount) as u64,
            staking.reward_token_decimals,
            staking.current_staking_round.total_stake,
            staking.staked_token_decimals,
        ) == 0,
        round_rate(
            (lm_reward_vault_amount - staking.resolved_lm_reward_token_amount) as u64,
            LM_DECIMALS as u8,
            staking.current_staking_round.lm_total_stake,
            LM_DECIMALS as u8,
        ) == 0,
    ensures
        ({
            let outcome = resolve_outcome(staking, current_time, reward_vault_amount, lm_reward_vault_amount);
            &&& !outcome.0
            &&& resolved_rounds_after(staking, current_time, reward_vault_amount, lm_reward_vault_amount)
                == staking.resolved_staking_rounds@
            &&& outcome.1.resolved_reward_token_amount == staking.resolved_reward_token_amount
            &&& outcome.1.resolved_staked_token_amount == staking.resolved_staked_token_amount
            &&& outcome.1.resolved_lm_reward_token_amount == staking.resolved_lm_reward_token_amount
            &&& outcome.1.resolved_lm_staked_token_amount == staking.resolved_lm_staked_token_amount
        }),
{
}

/// A reward of nothing gives a rate of zero.
proof fn lemma_no_reward_no_rate(reward_decimals: u8, stake: u64, staked_decimals: u8)
    ensures
        round_rate(0, reward_decimals, stake, staked_decimals) == 0,
{
    if stake != 0 {
        let p: int = -(reward_decimals as int) + (staked_decimals as int) + (RATE_DECIMALS as int);
        if p >= 0 {
            let k = crate::math::pow10(p as nat);
            assert(0nat * k == 0) by (nonlinear_arith);
            assert(0nat / (stake as nat) == 0) by (nonlinear_arith)
                requires
                    stake as nat > 0,
            ;
        } else {
            let d = (stake as nat) * crate::math::pow10((-p) as nat);
            crate::math::lemma_pow10_positive((-p) as nat);
            assert(d > 0) by (nonlinear_arith)
                requires
                    stake as nat > 0,
                    crate::math::pow10((-p) as nat) > 0,
                    d == (stake as nat) * crate::math::pow10((-p) as nat),
            ;
            assert(0nat / d == 0) by (nonlinear_arith)
                requires
                    d > 0,
            ;
        }
    }
}

/// A round that brought nothing new to the vaults stays unresolved: where the vaults hold
/// exactly what earlier rounds were assigned, resolving the current round adds no resolved
/// round and leaves the resolved totals as they were, however much was staked in it.
pub proof fn lemma_nothing_new_to_share(
    staking: Staking,
    current_time: i64,
)
    ensures
        ({
            let outcome = resolve_outcome(staking, current_time, staking.resolved_reward_token_amount,
                staking.resolved_lm_reward_token_amount);
            &&& !outcome.0
            &&& resolved_rounds_after(staking, current_time, staking.resolved_reward_token_amount,
                staking.resolved_lm_reward_token_amount) == staking.resolved_staking_rounds@
            &&& outcome.1.resolved_reward_token_amount == staking.resolved_reward_token_amount
            &&& outcome.1.resolved_staked_token_amount == staking.resolved_staked_token_amount
            &&& outcome.1.resolved_lm_reward_token_amount == staking.resolved_lm_reward_token_amount
            &&& outcome.1.resolved_lm_staked_token_amount == staking.resolved_lm_staked_token_amount
        }),
{
    lemma_no_reward_no_rate(staking.reward_token_decimals, staking.current_staking_round.total_stake, staking.staked_token_decimals);
    lemma_no_reward_no_rate(LM_DECIMALS as u8, staking.current_staking_round.lm_total_stake, LM_DECIMALS as u8);
    lemma_rateless_round_is_not_resolved(staking, current_time, staking.resolved_reward_token_amount,
        staking.resolved_lm_reward_token_amount);
}

/// Rewards of a round in which nothing was staked are not lost: resolving it adds no round
/// to the resolved ones and assigns no reward, so that what the vaults hold carries over to
/// the rounds to come.
pub proof fn lemma_unstaked_round_rolls_over(
    staking: Staking,
    current_time: i64,
    reward_vault_amount: u64,
    lm_reward_vault_amount: u64,
)
    requires
        staking.current_staking_round.total_stake == 0,
        staking.current_staking_round.lm_total_stake == 0,
    ensures
        ({
            let outcome = resolve_outcome(staking, current_time, reward_vault_amount, lm_reward_vault_amount);
            &&& !outcome.0
            &&& outcome.1.resolved_reward_token_amount == staking.resolved_reward_token_amount
            &&& outcome.1.resolved_lm_reward_token_amount == staking.resolved_lm_reward_token_amount
            &&& outcome.1.resolved_staked_token_amount == staking.resolved_staked_token_amount
            &&& outcome.1.resolved_lm_staked_token_amount == staking.resolved_lm_staked_token_amount
            &&& resolved_rounds_after(staking, current_time, reward_vault_amount, lm_reward_vault_amount)
                == staking.resolved_staking_rounds@
        }),
{
}

/// A lock held to its end costs nothing: a stake finalized at the end of its lock keeps all
/// its tokens and is charged no early-exit fee, so that its removal returns every token
/// (`amount_to_unstake` is its amount less that fee) and burns none.
pub proof fn lemma_full_lock_returns_everything(
    stake: LockedStake,
    current_time: i64,
    early_exit_fee: u64,
    fee_waived: bool,
)
    ensures
        ({
            let finalized = finalized_stake(stake, false, current_time, early_exit_fee, fee_waived);
            &&& finalized.early_exit_fee == 0
            &&& finalized.amount - finalized.early_exit_fee == stake.amount
            &&& finalized.resolved
            &&& !finalized.early_exit
        }),
{
}

} // verus!
