use vstd::prelude::*;

use crate::error::AdrenaError;
use crate::math::{
    checked_as_u64, checked_decimal_mul, decimal_mul_value, LM_DECIMALS, RATE_DECIMALS, RATE_POWER,
};
use crate::staking::{
    copy_vec, LiquidStake, LockedStake, Staking, StakingRound, StakingType, UserStaking, MAX_LOCKED_STAKES,
};

verus! {

/// Whether the locked stake at position `i` takes part in a claim: every stake where no
/// positions are given, the listed ones otherwise.
pub open spec fn is_selected(indexes: Option<Seq<u8>>, i: int) -> bool {
    match indexes {
        None => true,
        Some(s) => s.contains(i as u8),
    }
}

/// The view of the positions a claim is made for.
pub open spec fn indexes_view(indexes: Option<Vec<u8>>) -> Option<Seq<u8>> {
    match indexes {
        None => None,
        Some(v) => Some(v@),
    }
}

/// Whether the locked stake at position `i` takes part in a claim.
pub fn is_selected_exec(indexes: &Option<Vec<u8>>, i: usize) -> (b: bool)
    requires
        i < 256,
    ensures
        b == is_selected(indexes_view(*indexes), i as int),
{
    match indexes {
        None => true,
        Some(v) => {
            let mut j: usize = 0;
            while j < v.len()
                invariant
                    j <= v@.len(),
                    i < 256,
                    indexes_view(*indexes) == Some(v@),
                    forall|k: int| 0 <= k < j ==> v@[k] != i as u8,
                decreases v@.len() - j,
            {
                if v[j] == i as u8 {
                    proof {
                        assert(v@[j as int] == i as u8);
                    }
                    return true;
                }
                j = j + 1;
            }
            false
        },
    }
}

/// What a locked stake earns from a resolved round: its rewards and LM rewards, and the
/// weighted amounts it claims them for.
pub open spec fn locked_claim_term(
    stake: LockedStake,
    round: StakingRound,
    staked_decimals: u8,
    reward_decimals: u8,
) -> (int, int, int, int) {
    (
        decimal_mul_value(
            stake.amount_with_reward_multiplier as nat,
            -(staked_decimals as int),
            round.rate as nat,
            -(RATE_DECIMALS as int),
            -(reward_decimals as int),
        ) as int,
        decimal_mul_value(
            stake.amount_with_lm_reward_multiplier as nat,
            -(LM_DECIMALS as int),
            round.lm_rate as nat,
            -(RATE_DECIMALS as int),
            -(LM_DECIMALS as int),
        ) as int,
        stake.amount_with_reward_multiplier as int,
        stake.amount_with_lm_reward_multiplier as int,
    )
}

/// The sum of what the first `n` locked stakes earn from `round`, counting only those that
/// take part in the claim and qualify for the round.
pub open spec fn locked_claim_sum(
    stakes: Seq<LockedStake>,
    indexes: Option<Seq<u8>>,
    round: StakingRound,
    staked_decimals: u8,
    reward_decimals: u8,
    n: int,
) -> (int, int, int, int)
    decreases n,
{
    if n <= 0 {
        (0, 0, 0, 0)
    } else {
        let prev = locked_claim_sum(stakes, indexes, round, staked_decimals, reward_decimals, n - 1);
        let s = stakes[n - 1];
        if is_selected(indexes, n - 1) && s.qualifies_for_rewards_from_spec(round) {
            let t = locked_claim_term(s, round, staked_decimals, reward_decimals);
            (prev.0 + t.0, prev.1 + t.1, prev.2 + t.2, prev.3 + t.3)
        } else {
            prev
        }
    }
}

/// The liquid stake after claiming `round`, and the amount it claims for: where tokens were
/// added during a round that preceded `round`'s resolution, only the tokens staked before
/// count, and the overlap is cleared.
pub open spec fn liquid_claim(liquid: LiquidStake, round: StakingRound) -> (LiquidStake, int) {
    if !liquid.qualifies_for_rewards_from_spec(round) {
        (liquid, 0)
    } else if liquid.overlap_amount > 0 && liquid.overlap_time >= round.start_time {
        (
            LiquidStake { overlap_amount: 0, overlap_time: 0, ..liquid },
            liquid.amount - liquid.overlap_amount,
        )
    } else {
        (liquid, liquid.amount as int)
    }
}

/// The rewards a liquid stake earns for `amount` tokens at the round's rate.
pub open spec fn liquid_reward(
    amount: int,
    round: StakingRound,
    staked_decimals: u8,
    reward_decimals: u8,
) -> int {
    decimal_mul_value(
        amount as nat,
        -(staked_decimals as int),
        round.rate as nat,
        -(RATE_DECIMALS as int),
        -(reward_decimals as int),
    ) as int
}

/// Where a claim stands after some resolved rounds: the rounds kept (not yet fully claimed),
/// the liquid stake, the sums owed and claimed for, and whether it met a liquid stake that
/// qualified in an LP staking (which refuses the claim).
pub ghost struct ClaimProgress {
    pub kept: Seq<StakingRound>,
    pub liquid: LiquidStake,
    pub rewards: int,
    pub lm_rewards: int,
    pub stake_with_reward_multiplier: int,
    pub stake_with_lm_reward_multiplier: int,
    pub lp_error: bool,
}

/// The round after its claims, in a claim that has reached it with liquid stake `liquid`.
pub open spec fn claimed_round(
    round: StakingRound,
    stakes: Seq<LockedStake>,
    indexes: Option<Seq<u8>>,
    liquid: LiquidStake,
    staking_type: StakingType,
    staked_decimals: u8,
    reward_decimals: u8,
) -> StakingRound {
    let locked = locked_claim_sum(stakes, indexes, round, staked_decimals, reward_decimals, stakes.len() as int);
    let lq = liquid_claim(liquid, round);
    let liquid_part = if staking_type == StakingType::LM { lq.1 } else { 0 };
    StakingRound {
        total_claim: (round.total_claim + locked.2 + liquid_part) as u64,
        lm_total_claim: (round.lm_total_claim + locked.3) as u64,
        ..round
    }
}

/// The claim after one more resolved round.
pub open spec fn claim_step(
    p: ClaimProgress,
    round: StakingRound,
    stakes: Seq<LockedStake>,
    indexes: Option<Seq<u8>>,
    staking_type: StakingType,
    staked_decimals: u8,
    reward_decimals: u8,
) -> ClaimProgress {
    if p.lp_error {
        p
    } else if round.start_time <= 0 {
        ClaimProgress { kept: p.kept.push(round), ..p }
    } else {
        let locked = locked_claim_sum(stakes, indexes, round, staked_decimals, reward_decimals, stakes.len() as int);
        let lq = liquid_claim(p.liquid, round);
        let qualifies = p.liquid.qualifies_for_rewards_from_spec(round);
        if qualifies && staking_type == StakingType::LP {
            ClaimProgress { lp_error: true, ..p }
        } else {
            let liquid_part = if staking_type == StakingType::LM { lq.1 } else { 0 };
            let liquid_rewards = if staking_type == StakingType::LM && qualifies {
                liquid_reward(lq.1, round, staked_decimals, reward_decimals)
            } else {
                0
            };
            let after = claimed_round(round, stakes, indexes, p.liquid, staking_type, staked_decimals, reward_decimals);
            let fully_claimed = after.total_claim == after.total_stake && after.lm_total_claim == after.lm_total_stake;
            ClaimProgress {
                kept: if fully_claimed { p.kept } else { p.kept.push(after) },
                liquid: lq.0,
                rewards: p.rewards + locked.0 + liquid_rewards,
                lm_rewards: p.lm_rewards + locked.1,
                stake_with_reward_multiplier: p.stake_with_reward_multiplier + locked.2 + liquid_part,
                stake_with_lm_reward_multiplier: p.stake_with_lm_reward_multiplier + locked.3,
                lp_error: false,
            }
        }
    }
}

/// The claim after the first `n` resolved rounds have been gone through.
pub open spec fn claim_progress(
    rounds: Seq<StakingRound>,
    stakes: Seq<LockedStake>,
    indexes: Option<Seq<u8>>,
    liquid: LiquidStake,
    staking_type: StakingType,
    staked_decimals: u8,
    reward_decimals: u8,
    n: int,
) -> ClaimProgress
    decreases n,
{
    if n <= 0 {
        ClaimProgress {
            kept: Seq::empty(),
            liquid,
            rewards: 0,
            lm_rewards: 0,
            stake_with_reward_multiplier: 0,
            stake_with_lm_reward_multiplier: 0,
            lp_error: false,
        }
    } else {
        claim_step(
            claim_progress(rounds, stakes, indexes, liquid, staking_type, staked_decimals, reward_decimals, n - 1),
            rounds[n - 1],
            stakes,
            indexes,
            staking_type,
            staked_decimals,
            reward_decimals,
        )
    }
}

/// How many of the first `n` resolved rounds the locked stake at position `i` earns from.
pub open spec fn qualified_round_count(
    rounds: Seq<StakingRound>,
    stakes: Seq<LockedStake>,
    indexes: Option<Seq<u8>>,
    i: int,
    n: int,
) -> int
    decreases n,
{
    if n <= 0 {
        0
    } else {
        let round = rounds[n - 1];
        qualified_round_count(rounds, stakes, indexes, i, n - 1) + if round.start_time > 0
            && is_selected(indexes, i) && stakes[i].qualifies_for_rewards_from_spec(round) {
            1int
        } else {
            0int
        }
    }
}

/// Sums of a claim's terms are never negative and only grow.
proof fn lemma_locked_claim_sum_monotone(
    stakes: Seq<LockedStake>,
    indexes: Option<Seq<u8>>,
    round: StakingRound,
    staked_decimals: u8,
    reward_decimals: u8,
    a: int,
    b: int,
)
    requires
        0 <= a <= b,
    ensures
        ({
            let sa = locked_claim_sum(stakes, indexes, round, staked_decimals, reward_decimals, a);
            let sb = locked_claim_sum(stakes, indexes, round, staked_decimals, reward_decimals, b);
            &&& 0 <= sa.0 <= sb.0
            &&& 0 <= sa.1 <= sb.1
            &&& 0 <= sa.2 <= sb.2
            &&& 0 <= sa.3 <= sb.3
        }),
    decreases b,
{
    if b > a {
        lemma_locked_claim_sum_monotone(stakes, indexes, round, staked_decimals, reward_decimals, a, b - 1);
    } else if b > 0 {
        lemma_locked_claim_sum_monotone(stakes, indexes, round, staked_decimals, reward_decimals, 0, b - 1);
    }
}

/// Counts of qualifying rounds are never negative.
proof fn lemma_qualified_round_count_nonnegative(
    rounds: Seq<StakingRound>,
    stakes: Seq<LockedStake>,
    indexes: Option<Seq<u8>>,
    i: int,
    n: int,
)
    ensures
        qualified_round_count(rounds, stakes, indexes, i, n) >= 0,
    decreases n,
{
    if n > 0 {
        lemma_qualified_round_count_nonnegative(rounds, stakes, indexes, i, n - 1);
    }
}

/// `a` is `b` up to its count of qualifying rounds.
pub open spec fn same_but_count(a: LockedStake, b: LockedStake) -> bool {
    a == LockedStake { qualified_for_rewards_in_resolved_round_count: a.qualified_for_rewards_in_resolved_round_count, ..b }
}

/// Claims one resolved round for the locked stakes: adds what each selected, qualifying stake
/// earns and counts the round for it. `base` is the stakes as the claim sees them.
fn claim_locked_for_round(
    user_staking: &mut UserStaking,
    indexes: &Option<Vec<u8>>,
    round: &StakingRound,
    staked_decimals: u8,
    reward_decimals: u8,
    Ghost(base): Ghost<Seq<LockedStake>>,
) -> (t: (u64, u64, u64, u64))
    requires
        old(user_staking).well_formed(),
        base.len() == old(user_staking).locked_stakes@.len(),
        forall|i: int| 0 <= i < base.len() ==> #[trigger] same_but_count(old(user_staking).locked_stakes@[i], base[i]),
        forall|i: int| 0 <= i < base.len() && is_selected(indexes_view(*indexes), i)
            && base[i].qualifies_for_rewards_from_spec(*round) ==>
            old(user_staking).locked_stakes@[i].qualified_for_rewards_in_resolved_round_count + 1 <= u32::MAX,
        ({
            let full = locked_claim_sum(base, indexes_view(*indexes), *round, staked_decimals, reward_decimals, base.len() as int);
            full.0 <= u64::MAX && full.1 <= u64::MAX && full.2 <= u64::MAX && full.3 <= u64::MAX
        }),
    ensures
        final(user_staking).well_formed(),
        final(user_staking).liquid_stake == old(user_staking).liquid_stake,
        final(user_staking).staking_type == old(user_staking).staking_type,
        final(user_staking).locked_stakes@.len() == old(user_staking).locked_stakes@.len(),
        forall|i: int| 0 <= i < base.len() ==> #[trigger] final(user_staking).locked_stakes@[i] == (
            if is_selected(indexes_view(*indexes), i) && base[i].qualifies_for_rewards_from_spec(*round) {
                LockedStake {
                    qualified_for_rewards_in_resolved_round_count: (old(user_staking).locked_stakes@[i].qualified_for_rewards_in_resolved_round_count + 1) as u32,
                    ..old(user_staking).locked_stakes@[i]
                }
            } else {
                old(user_staking).locked_stakes@[i]
            }),
        ({
            let full = locked_claim_sum(base, indexes_view(*indexes), *round, staked_decimals, reward_decimals, base.len() as int);
            t.0 == full.0 && t.1 == full.1 && t.2 == full.2 && t.3 == full.3
        }),
{
    let ghost idx = indexes_view(*indexes);
    let mut rewards: u64 = 0;
    let mut lm_rewards: u64 = 0;
    let mut with_reward: u64 = 0;
    let mut with_lm_reward: u64 = 0;
    let mut i: usize = 0;
    let n = user_staking.locked_stakes.len();
    while i < n
        invariant
            n == base.len(),
            n <= MAX_LOCKED_STAKES,
            i <= n,
            idx == indexes_view(*indexes),
            user_staking.locked_stakes@.len() == n,
            user_staking.liquid_stake == old(user_staking).liquid_stake,
            user_staking.staking_type == old(user_staking).staking_type,
            forall|j: int| 0 <= j < base.len() ==> #[trigger] same_but_count(old(user_staking).locked_stakes@[j], base[j]),
            forall|j: int| 0 <= j < base.len() && is_selected(idx, j)
                && base[j].qualifies_for_rewards_from_spec(*round) ==>
                old(user_staking).locked_stakes@[j].qualified_for_rewards_in_resolved_round_count + 1 <= u32::MAX,
            ({
                let full = locked_claim_sum(base, idx, *round, staked_decimals, reward_decimals, n as int);
                full.0 <= u64::MAX && full.1 <= u64::MAX && full.2 <= u64::MAX && full.3 <= u64::MAX
            }),
            ({
                let part = locked_claim_sum(base, idx, *round, staked_decimals, reward_decimals, i as int);
                rewards == part.0 && lm_rewards == part.1 && with_reward == part.2 && with_lm_reward == part.3
            }),
            forall|j: int| i <= j < n ==> #[trigger] user_staking.locked_stakes@[j] == old(user_staking).locked_stakes@[j],
            forall|j: int| 0 <= j < i ==> #[trigger] user_staking.locked_stakes@[j] == (
                if is_selected(idx, j) && base[j].qualifies_for_rewards_from_spec(*round) {
                    LockedStake {
                        qualified_for_rewards_in_resolved_round_count: (old(user_staking).locked_stakes@[j].qualified_for_rewards_in_resolved_round_count + 1) as u32,
                        ..old(user_staking).locked_stakes@[j]
                    }
                } else {
                    old(user_staking).locked_stakes@[j]
                }),
        decreases n - i,
    {
        let stake = user_staking.locked_stakes[i];
        proof {
            assert(same_but_count(old(user_staking).locked_stakes@[i as int], base[i as int]));
            lemma_locked_claim_sum_monotone(base, idx, *round, staked_decimals, reward_decimals, i + 1, n as int);
        }
        if is_selected_exec(indexes, i) && stake.qualifies_for_rewards_from(round) {
            let r = checked_decimal_mul(
                stake.amount_with_reward_multiplier,
                -(staked_decimals as i32),
                round.rate,
                -(RATE_DECIMALS as i32),
                -(reward_decimals as i32),
            );
            let lr = checked_decimal_mul(
                stake.amount_with_lm_reward_multiplier,
                -(LM_DECIMALS as i32),
                round.lm_rate,
                -(RATE_DECIMALS as i32),
                -(LM_DECIMALS as i32),
            );
            match (r, lr) {
                (Ok(r), Ok(lr)) => {
                    rewards = rewards + r;
                    lm_rewards = lm_rewards + lr;
                },
                _ => {
                    proof {
                        assert(false);
                    }
                },
            }
            with_reward = with_reward + stake.amount_with_reward_multiplier;
            with_lm_reward = with_lm_reward + stake.amount_with_lm_reward_multiplier;
            let updated = LockedStake {
                qualified_for_rewards_in_resolved_round_count: stake.qualified_for_rewards_in_resolved_round_count + 1,
                ..stake
            };
            user_staking.locked_stakes.set(i, updated);
        }
        i = i + 1;
    }
    (rewards, lm_rewards, with_reward, with_lm_reward)
}

/// The arithmetic a claim goes through stays within bounds: at each resolved round it
/// reaches, its sums, the round's claimed amounts, the liquid stake's overlap and each
/// stake's count of rounds fit their types.
pub open spec fn claim_fits(
    rounds: Seq<StakingRound>,
    stakes: Seq<LockedStake>,
    indexes: Option<Seq<u8>>,
    liquid: LiquidStake,
    staking_type: StakingType,
    staked_decimals: u8,
    reward_decimals: u8,
) -> bool {
    forall|k: int| #![trigger rounds[k]] 0 <= k < rounds.len() ==> {
        let p = claim_progress(rounds, stakes, indexes, liquid, staking_type, staked_decimals, reward_decimals, k);
        let round = rounds[k];
        let locked = locked_claim_sum(stakes, indexes, round, staked_decimals, reward_decimals, stakes.len() as int);
        let qualifies = p.liquid.qualifies_for_rewards_from_spec(round);
        let lq = liquid_claim(p.liquid, round);
        !p.lp_error && round.start_time > 0 ==> {
            &&& p.rewards + locked.0 <= u64::MAX
            &&& p.lm_rewards + locked.1 <= u64::MAX
            &&& p.stake_with_reward_multiplier + locked.2 <= u64::MAX
            &&& p.stake_with_lm_reward_multiplier + locked.3 <= u64::MAX
            &&& round.total_claim + locked.2 <= u64::MAX
            &&& round.lm_total_claim + locked.3 <= u64::MAX
            &&& forall|i: int| 0 <= i < stakes.len() && is_selected(indexes, i)
                && stakes[i].qualifies_for_rewards_from_spec(round) ==> stakes[i].qualified_for_rewards_in_resolved_round_count
                + #[trigger] qualified_round_count(rounds, stakes, indexes, i, k) + 1 <= u32::MAX
            &&& qualifies ==> lq.1 >= 0
            &&& qualifies && staking_type == StakingType::LM ==> {
                &&& p.rewards + locked.0 + liquid_reward(lq.1, round, staked_decimals, reward_decimals) <= u64::MAX
                &&& p.stake_with_reward_multiplier + locked.2 + lq.1 <= u64::MAX
                &&& round.total_claim + locked.2 + lq.1 <= u64::MAX
            }
        }
    }
}

/// What the genesis liquidity campaign still pays: where it has ended and holds liquidity,
/// the end of its reward distribution, its reward rate per token and second (with
/// `RATE_DECIMALS` decimals), and the time of the claim.
#[derive(Debug, Clone, Copy, PartialEq, Eq, Structural)]
pub struct GenesisClaim {
    pub reward_distribution_end_date: i64,
    pub reward_rate: u128,
    pub current_time: i64,
}

/// The locked stake earns genesis rewards in this claim.
pub open spec fn genesis_applies(stake: LockedStake, g: GenesisClaim) -> bool {
    &&& stake.amount != 0
    &&& stake.is_genesis
    &&& stake.genesis_claim_time < g.reward_distribution_end_date
    &&& g.current_time > stake.genesis_claim_time
}

/// The seconds of genesis rewards owed: since the last genesis claim, up to the end of the
/// distribution.
pub open spec fn genesis_period(stake: LockedStake, g: GenesisClaim) -> int {
    let period = g.current_time - stake.genesis_claim_time;
    let max_period = g.reward_distribution_end_date - stake.genesis_claim_time;
    if period < max_period { period } else { max_period }
}

/// The genesis rewards a locked stake earns in this claim.
pub open spec fn genesis_reward(stake: LockedStake, g: GenesisClaim) -> int {
    if genesis_applies(stake, g) {
        (stake.amount * genesis_period(stake, g) * g.reward_rate) / (RATE_POWER as int)
    } else {
        0
    }
}

/// The sum of the genesis rewards of the first `n` selected locked stakes.
pub open spec fn genesis_sum(stakes: Seq<LockedStake>, indexes: Option<Seq<u8>>, g: GenesisClaim, n: int) -> int
    decreases n,
{
    if n <= 0 {
        0
    } else {
        genesis_sum(stakes, indexes, g, n - 1) + if is_selected(indexes, n - 1) {
            genesis_reward(stakes[n - 1], g)
        } else {
            0
        }
    }
}

/// The locked stake after the genesis part of a claim.
pub open spec fn genesis_claimed_stake(stake: LockedStake, selected: bool, g: GenesisClaim) -> LockedStake {
    if selected && genesis_applies(stake, g) {
        LockedStake { genesis_claim_time: g.current_time, ..stake }
    } else {
        stake
    }
}

/// The locked stakes as the rounds of a claim see them, after its genesis part.
pub open spec fn stakes_after_genesis(stakes: Seq<LockedStake>, indexes: Option<Seq<u8>>, genesis: Option<GenesisClaim>) -> Seq<LockedStake> {
    match genesis {
        None => stakes,
        Some(g) => Seq::new(stakes.len(), |i: int| genesis_claimed_stake(stakes[i], is_selected(indexes, i), g)),
    }
}

/// The genesis part of a claim stays within bounds.
pub open spec fn genesis_fits(stakes: Seq<LockedStake>, indexes: Option<Seq<u8>>, g: GenesisClaim) -> bool {
    &&& genesis_sum(stakes, indexes, g, stakes.len() as int) <= u64::MAX
    &&& forall|i: int| 0 <= i < stakes.len() && is_selected(indexes, i) && #[trigger] genesis_applies(stakes[i], g) ==> {
        &&& g.reward_distribution_end_date - stakes[i].genesis_claim_time <= i64::MAX
        &&& g.current_time - stakes[i].genesis_claim_time <= i64::MAX
        &&& stakes[i].amount * genesis_period(stakes[i], g) * g.reward_rate <= u128::MAX
    }
}

proof fn lemma_genesis_sum_monotone(stakes: Seq<LockedStake>, indexes: Option<Seq<u8>>, g: GenesisClaim, a: int, b: int)
    requires
        0 <= a <= b,
    ensures
        0 <= genesis_sum(stakes, indexes, g, a) <= genesis_sum(stakes, indexes, g, b),
    decreases b,
{
    if b > 0 {
        let m = if b > a { a } else { b - 1 };
        lemma_genesis_sum_monotone(stakes, indexes, g, m, b - 1);
        let s = stakes[b - 1];
        if genesis_applies(s, g) {
            assert(s.amount * genesis_period(s, g) >= 0) by (nonlinear_arith)
                requires
                    s.amount >= 0,
                    genesis_period(s, g) >= 0,
            ;
            assert(s.amount * genesis_period(s, g) * g.reward_rate >= 0) by (nonlinear_arith)
                requires
                    s.amount * genesis_period(s, g) >= 0,
                    g.reward_rate >= 0,
            ;
        }
    }
}

/// Pays the genesis rewards of the selected locked stakes and moves their genesis claim time
/// to the time of the claim. Returns the LM tokens to mint for them.
fn claim_genesis_rewards(user_staking: &mut UserStaking, indexes: &Option<Vec<u8>>, g: &GenesisClaim) -> (total: u64)
    requires
        old(user_staking).well_formed(),
        genesis_fits(old(user_staking).locked_stakes@, indexes_view(*indexes), *g),
    ensures
        final(user_staking).well_formed(),
        total == genesis_sum(old(user_staking).locked_stakes@, indexes_view(*indexes), *g, old(user_staking).locked_stakes@.len() as int),
        final(user_staking).locked_stakes@ == stakes_after_genesis(old(user_staking).locked_stakes@, indexes_view(*indexes), Some(*g)),
        final(user_staking).liquid_stake == old(user_staking).liquid_stake,
        final(user_staking).staking_type == old(user_staking).staking_type,
{
    let ghost stakes = old(user_staking).locked_stakes@;
    let ghost idx = indexes_view(*indexes);
    let n = user_staking.locked_stakes.len();
    let mut total: u64 = 0;
    let mut i: usize = 0;
    while i < n
        invariant
            n == stakes.len(),
            n <= MAX_LOCKED_STAKES,
            i <= n,
            idx == indexes_view(*indexes),
            genesis_fits(stakes, idx, *g),
            user_staking.locked_stakes@.len() == n,
            user_staking.liquid_stake == old(user_staking).liquid_stake,
            user_staking.staking_type == old(user_staking).staking_type,
            total == genesis_sum(stakes, idx, *g, i as int),
            forall|j: int| i <= j < n ==> #[trigger] user_staking.locked_stakes@[j] == stakes[j],
            forall|j: int| 0 <= j < i ==> #[trigger] user_staking.locked_stakes@[j] == genesis_claimed_stake(stakes[j], is_selected(idx, j), *g),
        decreases n - i,
    {
        let stake = user_staking.locked_stakes[i];
        proof {
            lemma_genesis_sum_monotone(stakes, idx, *g, i + 1, n as int);
        }
        if is_selected_exec(indexes, i) && stake.amount != 0 && stake.is_genesis
            && stake.genesis_claim_time < g.reward_distribution_end_date
            && g.current_time > stake.genesis_claim_time {
            proof {
                assert(genesis_applies(stakes[i as int], *g));
            }
            let max_period: i64 = g.reward_distribution_end_date - stake.genesis_claim_time;
            let period: i64 = g.current_time - stake.genesis_claim_time;
            let clamped: i64 = if period < max_period { period } else { max_period };
            proof {
                assert(stake.amount as int * clamped as int <= u64::MAX as int * i64::MAX as int) by (nonlinear_arith)
                    requires
                        0 <= stake.amount <= u64::MAX,
                        0 <= clamped <= i64::MAX,
                ;
                assert(u64::MAX as int * i64::MAX as int <= u128::MAX);
            }
            let product: u128 = stake.amount as u128 * clamped as u128 * g.reward_rate;
            let reward = match checked_as_u64(product / RATE_POWER) {
                Ok(r) => r,
                Err(_) => {
                    proof {
                        assert(false);
                    }
                    0
                },
            };
            total = total + reward;
            user_staking.locked_stakes.set(i, LockedStake { genesis_claim_time: g.current_time, ..stake });
        }
        i = i + 1;
    }
    proof {
        assert(user_staking.locked_stakes@ =~= stakes_after_genesis(stakes, idx, Some(*g)));
    }
    total
}

/// The positions a claim lists all name a locked stake.
pub open spec fn indexes_valid(indexes: Option<Seq<u8>>, n: int) -> bool {
    indexes is None || forall|k: int| #![trigger indexes->0[k]] 0 <= k < indexes->0.len() ==> (indexes->0[k] as int) < n
}

/// What a claim pays: reward tokens and LM tokens from the vaults, and LM tokens to mint
/// for the genesis campaign.
#[derive(Debug, Clone, Copy, PartialEq, Eq, Structural)]
pub struct ClaimOutcome {
    pub rewards_token_amount: u64,
    pub lm_rewards_token_amount: u64,
    pub genesis_lm_rewards_token_amount: u64,
}

/// The locked stakes after a claim: each selected stake counts the rounds it earned from and
/// has claimed up to `claim_time`.
pub open spec fn stakes_after_claim(
    rounds: Seq<StakingRound>,
    base: Seq<LockedStake>,
    indexes: Option<Seq<u8>>,
    claim_time: i64,
) -> Seq<LockedStake> {
    Seq::new(base.len(), |i: int| LockedStake {
        qualified_for_rewards_in_resolved_round_count: (base[i].qualified_for_rewards_in_resolved_round_count
            + qualified_round_count(rounds, base, indexes, i, rounds.len() as int)) as u32,
        claim_time: if is_selected(indexes, i) { claim_time } else { base[i].claim_time },
        ..base[i]
    })
}

/// Claims one resolved round that has started (`round`, at position `processed` of
/// `rounds`), for a claim that stands at `p`: the locked stakes, then the liquid stake.
/// Fails where an LP staking meets a qualifying liquid stake.
fn claim_round(
    user_staking: &mut UserStaking,
    indexes: &Option<Vec<u8>>,
    round: StakingRound,
    staking_type: StakingType,
    staked_decimals: u8,
    reward_decimals: u8,
    totals: (u64, u64, u64, u64),
    Ghost(base): Ghost<Seq<LockedStake>>,
    Ghost(p): Ghost<ClaimProgress>,
    Ghost(rounds): Ghost<Seq<StakingRound>>,
    Ghost(processed): Ghost<int>,
) -> (r: Result<(StakingRound, (u64, u64, u64, u64)), ()>)
    requires
        old(user_staking).well_formed(),
        base.len() == old(user_staking).locked_stakes@.len(),
        0 <= processed < rounds.len(),
        round == rounds[processed],
        round.start_time > 0,
        !p.lp_error,
        old(user_staking).liquid_stake == p.liquid,
        totals.0 == p.rewards && totals.1 == p.lm_rewards && totals.2 == p.stake_with_reward_multiplier
            && totals.3 == p.stake_with_lm_reward_multiplier,
        forall|i: int| 0 <= i < base.len() ==> #[trigger] old(user_staking).locked_stakes@[i] == (LockedStake {
            qualified_for_rewards_in_resolved_round_count: (base[i].qualified_for_rewards_in_resolved_round_count
                + qualified_round_count(rounds, base, indexes_view(*indexes), i, processed)) as u32,
            ..base[i]
        }),
        ({
            let idx = indexes_view(*indexes);
            let locked = locked_claim_sum(base, idx, round, staked_decimals, reward_decimals, base.len() as int);
            let qualifies = p.liquid.qualifies_for_rewards_from_spec(round);
            let lq = liquid_claim(p.liquid, round);
            &&& p.rewards + locked.0 <= u64::MAX
            &&& p.lm_rewards + locked.1 <= u64::MAX
            &&& p.stake_with_reward_multiplier + locked.2 <= u64::MAX
            &&& p.stake_with_lm_reward_multiplier + locked.3 <= u64::MAX
            &&& round.total_claim + locked.2 <= u64::MAX
            &&& round.lm_total_claim + locked.3 <= u64::MAX
            &&& forall|i: int| 0 <= i < base.len() && is_selected(idx, i)
                && base[i].qualifies_for_rewards_from_spec(round) ==> base[i].qualified_for_rewards_in_resolved_round_count
                + #[trigger] qualified_round_count(rounds, base, idx, i, processed) + 1 <= u32::MAX
            &&& qualifies ==> lq.1 >= 0
            &&& qualifies && staking_type == StakingType::LM ==> {
                &&& p.rewards + locked.0 + liquid_reward(lq.1, round, staked_decimals, reward_decimals) <= u64::MAX
                &&& p.stake_with_reward_multiplier + locked.2 + lq.1 <= u64::MAX
                &&& round.total_claim + locked.2 + lq.1 <= u64::MAX
            }
        }),
    ensures
        ({
            let idx = indexes_view(*indexes);
            let q = claim_step(p, round, base, idx, staking_type, staked_decimals, reward_decimals);
            &&& r is Err <==> q.lp_error
            &&& r matches Ok((after, t)) ==> {
                &&& after == claimed_round(round, base, idx, p.liquid, staking_type, staked_decimals, reward_decimals)
                &&& t.0 == q.rewards && t.1 == q.lm_rewards && t.2 == q.stake_with_reward_multiplier
                    && t.3 == q.stake_with_lm_reward_multiplier
                &&& final(user_staking).liquid_stake == q.liquid
                &&& final(user_staking).staking_type == old(user_staking).staking_type
                &&& final(user_staking).well_formed()
                &&& final(user_staking).locked_stakes@.len() == base.len()
                &&& forall|i: int| 0 <= i < base.len() ==> #[trigger] final(user_staking).locked_stakes@[i] == (LockedStake {
                    qualified_for_rewards_in_resolved_round_count: (base[i].qualified_for_rewards_in_resolved_round_count
                        + qualified_round_count(rounds, base, idx, i, processed + 1)) as u32,
                    ..base[i]
                })
            }
        }),
{
    let ghost idx = indexes_view(*indexes);
    proof {
        lemma_locked_claim_sum_monotone(base, idx, round, staked_decimals, reward_decimals, 0, base.len() as int);
        assert forall|i: int| 0 <= i < base.len() implies #[trigger] same_but_count(user_staking.locked_stakes@[i], base[i]) by {}
        assert forall|i: int| 0 <= i < base.len() && is_selected(idx, i)
            && base[i].qualifies_for_rewards_from_spec(round) implies
            user_staking.locked_stakes@[i].qualified_for_rewards_in_resolved_round_count + 1 <= u32::MAX by {
            lemma_qualified_round_count_nonnegative(rounds, base, idx, i, processed);
            assert(base[i].qualified_for_rewards_in_resolved_round_count + qualified_round_count(rounds, base, idx, i, processed) + 1 <= u32::MAX);
        }
    }
    let ghost stakes_before = user_staking.locked_stakes@;
    let t = claim_locked_for_round(user_staking, indexes, &round, staked_decimals, reward_decimals, Ghost(base));
    proof {
        assert forall|i: int| 0 <= i < base.len() implies #[trigger] user_staking.locked_stakes@[i] == (LockedStake {
            qualified_for_rewards_in_resolved_round_count: (base[i].qualified_for_rewards_in_resolved_round_count
                + qualified_round_count(rounds, base, idx, i, processed + 1)) as u32,
            ..base[i]
        }) by {
            lemma_qualified_round_count_nonnegative(rounds, base, idx, i, processed);
            if is_selected(idx, i) && base[i].qualifies_for_rewards_from_spec(round) {
                assert(base[i].qualified_for_rewards_in_resolved_round_count + qualified_round_count(rounds, base, idx, i, processed) + 1 <= u32::MAX);
            }
        }
    }
    let mut rewards = totals.0 + t.0;
    let lm_rewards = totals.1 + t.1;
    let mut with_reward = totals.2 + t.2;
    let with_lm_reward = totals.3 + t.3;
    let mut after = round;
    after.total_claim = round.total_claim + t.2;
    after.lm_total_claim = round.lm_total_claim + t.3;
    if user_staking.liquid_stake.qualifies_for_rewards_from(&round) {
        let amount: u64 = if user_staking.liquid_stake.overlap_amount > 0
            && user_staking.liquid_stake.overlap_time >= round.start_time {
            let a = user_staking.liquid_stake.amount - user_staking.liquid_stake.overlap_amount;
            user_staking.liquid_stake.overlap_amount = 0;
            user_staking.liquid_stake.overlap_time = 0;
            a
        } else {
            user_staking.liquid_stake.amount
        };
        if staking_type == StakingType::LM {
            let lr = checked_decimal_mul(
                amount,
                -(staked_decimals as i32),
                round.rate,
                -(RATE_DECIMALS as i32),
                -(reward_decimals as i32),
            );
            match lr {
                Ok(lr) => {
                    rewards = rewards + lr;
                },
                Err(_) => {
                    proof {
                        assert(false);
                    }
                },
            }
            after.total_claim = after.total_claim + amount;
            with_reward = with_reward + amount;
        }
        if staking_type == StakingType::LP {
            return Err(());
        }
    }
    Ok((after, (rewards, lm_rewards, with_reward, with_lm_reward)))
}

/// A refused claim stays refused.
proof fn lemma_lp_error_persists(
    rounds: Seq<StakingRound>,
    stakes: Seq<LockedStake>,
    indexes: Option<Seq<u8>>,
    liquid: LiquidStake,
    staking_type: StakingType,
    staked_decimals: u8,
    reward_decimals: u8,
    a: int,
    b: int,
)
    requires
        0 <= a <= b,
        claim_progress(rounds, stakes, indexes, liquid, staking_type, staked_decimals, reward_decimals, a).lp_error,
    ensures
        claim_progress(rounds, stakes, indexes, liquid, staking_type, staked_decimals, reward_decimals, b).lp_error,
    decreases b,
{
    if b > a {
        lemma_lp_error_persists(rounds, stakes, indexes, liquid, staking_type, staked_decimals, reward_decimals, a, b - 1);
    }
}

/// Whether every listed position names one of `n` locked stakes.
fn indexes_all_valid(indexes: &Option<Vec<u8>>, n: usize) -> (b: bool)
    ensures
        b == indexes_valid(indexes_view(*indexes), n as int),
{
    match indexes {
        None => true,
        Some(v) => {
            let mut j: usize = 0;
            while j < v.len()
                invariant
                    j <= v@.len(),
                    indexes_view(*indexes) == Some(v@),
                    forall|k: int| 0 <= k < j ==> v@[k] < n,
                decreases v@.len() - j,
            {
                if v[j] as usize >= n {
                    proof {
                        let ghost o = indexes_view(*indexes);
                        assert(o->0 == v@);
                        assert(o->0[j as int] == v@[j as int]);
                        assert(!(o is None));
                        assert(!indexes_valid(o, n as int));
                    }
                    return false;
                }
                j = j + 1;
            }
            true
        },
    }
}

/// Marks the selected locked stakes as claimed up to `claim_time`.
fn mark_claimed(user_staking: &mut UserStaking, indexes: &Option<Vec<u8>>, claim_time: i64)
    requires
        old(user_staking).well_formed(),
        indexes_valid(indexes_view(*indexes), old(user_staking).locked_stakes@.len() as int),
    ensures
        final(user_staking).locked_stakes@ == Seq::new(old(user_staking).locked_stakes@.len(), |i: int| LockedStake {
            claim_time: if is_selected(indexes_view(*indexes), i) { claim_time } else { old(user_staking).locked_stakes@[i].claim_time },
            ..old(user_staking).locked_stakes@[i]
        }),
        final(user_staking).liquid_stake == old(user_staking).liquid_stake,
        final(user_staking).staking_type == old(user_staking).staking_type,
{
    let ghost counted = old(user_staking).locked_stakes@;
    let ghost idx = indexes_view(*indexes);
    let n_stakes = user_staking.locked_stakes.len();
    match indexes {
        Some(v) => {
            proof {
                assert(idx->0 == v@);
                assert(!(idx is None));
                assert forall|q: int| 0 <= q < v@.len() implies v@[q] < n_stakes by {
                    assert(idx->0[q] == v@[q]);
                }
            }
            let mut j: usize = 0;
            while j < v.len()
                invariant
                    j <= v@.len(),
                    idx == Some(v@),
                    n_stakes <= MAX_LOCKED_STAKES,
                    forall|q: int| 0 <= q < v@.len() ==> v@[q] < n_stakes,
                    counted.len() == n_stakes,
                    user_staking.locked_stakes@.len() == n_stakes,
                    user_staking.liquid_stake == old(user_staking).liquid_stake,
                    user_staking.staking_type == old(user_staking).staking_type,
                    forall|i: int| 0 <= i < n_stakes ==> #[trigger] user_staking.locked_stakes@[i] == (LockedStake {
                        claim_time: if v@.subrange(0, j as int).contains(i as u8) { claim_time } else { counted[i].claim_time },
                        ..counted[i]
                    }),
                decreases v@.len() - j,
            {
                let i = v[j] as usize;
                let stake = user_staking.locked_stakes[i];
                user_staking.locked_stakes.set(i, LockedStake { claim_time, ..stake });
                proof {
                    assert forall|q: int| 0 <= q < n_stakes implies #[trigger] user_staking.locked_stakes@[q] == (LockedStake {
                        claim_time: if v@.subrange(0, j + 1).contains(q as u8) { claim_time } else { counted[q].claim_time },
                        ..counted[q]
                    }) by {
                        assert(v@.subrange(0, j + 1) =~= v@.subrange(0, j as int).push(v@[j as int]));
                        if q == i {
                            assert(v@.subrange(0, j + 1)[j as int] == q as u8);
                        } else {
                            assert((q as u8) != v@[j as int]);
                            if v@.subrange(0, j + 1).contains(q as u8) {
                                let sub = v@.subrange(0, j + 1);
                                let w = choose|w: int| 0 <= w < sub.len() && #[trigger] sub[w] == q as u8;
                                assert(v@.subrange(0, j as int)[w] == q as u8);
                            }
                            if v@.subrange(0, j as int).contains(q as u8) {
                                let sub = v@.subrange(0, j as int);
                                let w = choose|w: int| 0 <= w < sub.len() && #[trigger] sub[w] == q as u8;
                                assert(v@.subrange(0, j + 1)[w] == q as u8);
                            }
                        }
                    }
                }
                j = j + 1;
            }
            proof {
                assert(v@.subrange(0, v@.len() as int) =~= v@);
            }
        },
        None => {
            let mut i: usize = 0;
            while i < n_stakes
                invariant
                    i <= n_stakes,
                    idx is None,
                    counted.len() == n_stakes,
                    user_staking.locked_stakes@.len() == n_stakes,
                    user_staking.liquid_stake == old(user_staking).liquid_stake,
                    user_staking.staking_type == old(user_staking).staking_type,
                    forall|q: int| 0 <= q < n_stakes ==> #[trigger] user_staking.locked_stakes@[q] == (LockedStake {
                        claim_time: if q < i { claim_time } else { counted[q].claim_time },
                        ..counted[q]
                    }),
                decreases n_stakes - i,
            {
                let stake = user_staking.locked_stakes[i];
                user_staking.locked_stakes.set(i, LockedStake { claim_time, ..stake });
                i = i + 1;
            }
        },
    }
    proof {
        assert(user_staking.locked_stakes@ =~= Seq::new(counted.len(), |i: int| LockedStake {
            claim_time: if is_selected(idx, i) { claim_time } else { counted[i].claim_time },
            ..counted[i]
        }));
    }
}

/// The bounds that `claim_fits` gives at round `k`.
proof fn lemma_claim_fits_at(
    rounds: Seq<StakingRound>,
    stakes: Seq<LockedStake>,
    indexes: Option<Seq<u8>>,
    liquid: LiquidStake,
    staking_type: StakingType,
    staked_decimals: u8,
    reward_decimals: u8,
    k: int,
)
    requires
        claim_fits(rounds, stakes, indexes, liquid, staking_type, staked_decimals, reward_decimals),
        0 <= k < rounds.len(),
    ensures
        ({
            let p = claim_progress(rounds, stakes, indexes, liquid, staking_type, staked_decimals, reward_decimals, k);
            let round = rounds[k];
            let locked = locked_claim_sum(stakes, indexes, round, staked_decimals, reward_decimals, stakes.len() as int);
            let qualifies = p.liquid.qualifies_for_rewards_from_spec(round);
            let lq = liquid_claim(p.liquid, round);
            !p.lp_error && round.start_time > 0 ==> {
                &&& p.rewards + locked.0 <= u64::MAX
                &&& p.lm_rewards + locked.1 <= u64::MAX
                &&& p.stake_with_reward_multiplier + locked.2 <= u64::MAX
                &&& p.stake_with_lm_reward_multiplier + locked.3 <= u64::MAX
                &&& round.total_claim + locked.2 <= u64::MAX
                &&& round.lm_total_claim + locked.3 <= u64::MAX
                &&& forall|i: int| 0 <= i < stakes.len() && is_selected(indexes, i)
                    && stakes[i].qualifies_for_rewards_from_spec(round) ==> stakes[i].qualified_for_rewards_in_resolved_round_count
                    + #[trigger] qualified_round_count(rounds, stakes, indexes, i, k) + 1 <= u32::MAX
                &&& qualifies ==> lq.1 >= 0
                &&& qualifies && staking_type == StakingType::LM ==> {
                    &&& p.rewards + locked.0 + liquid_reward(lq.1, round, staked_decimals, reward_decimals) <= u64::MAX
                    &&& p.stake_with_reward_multiplier + locked.2 + lq.1 <= u64::MAX
                    &&& round.total_claim + locked.2 + lq.1 <= u64::MAX
                }
            }
        }),
{
    assert(rounds[k] == rounds[k]);
}

/// Which locked stakes a claim is made for: the positions listed, or every one where none
/// is given.
pub struct ClaimStakesParams {
    pub locked_stake_indexes: Option<Vec<u8>>,
}

/// What a claim asks of the accounts: the user's stakes are well formed and, where the
/// positions `idx` are valid, its genesis part and its rounds fit their types and what it
/// takes from the staking's resolved amounts is there.
pub open spec fn claim_stakes_accepts(
    staking: Staking,
    user_staking: UserStaking,
    idx: Option<Seq<u8>>,
    genesis: Option<GenesisClaim>,
) -> bool {
    let base = stakes_after_genesis(user_staking.locked_stakes@, idx, genesis);
    let rounds = staking.resolved_staking_rounds@;
    let p = claim_progress(rounds, base, idx, user_staking.liquid_stake, staking.staking_type,
        staking.staked_token_decimals, staking.reward_token_decimals, rounds.len() as int);
    &&& user_staking.well_formed()
    &&& indexes_valid(idx, user_staking.locked_stakes@.len() as int) ==> {
        &&& genesis matches Some(g) ==> genesis_fits(user_staking.locked_stakes@, idx, g)
        &&& claim_fits(rounds, base, idx, user_staking.liquid_stake, staking.staking_type,
            staking.staked_token_decimals, staking.reward_token_decimals)
        &&& !p.lp_error ==> {
            &&& staking.current_staking_round.start_time > i64::MIN
            &&& staking.resolved_staked_token_amount >= p.stake_with_reward_multiplier
            &&& staking.resolved_reward_token_amount >= p.rewards
            &&& staking.resolved_lm_staked_token_amount >= p.stake_with_lm_reward_multiplier
            &&& staking.resolved_lm_reward_token_amount >= p.lm_rewards
        }
    }
}

/// What a claim for the positions `idx` answers (`r`), and what it leaves in the accounts,
/// from `staking` and `user_staking` to `staking_after` and `user_after`: `InvalidArgument`
/// where a position names no locked stake, `InvalidStakingState` where an LP staking meets a
/// qualifying liquid stake (see `claim_progress`), and on an error nothing changes; otherwise
/// the rewards of the rounds, the rounds kept, the stakes marked as claimed just before the
/// current round, and the resolved amounts less what was claimed.
pub open spec fn claim_stakes_outcome(
    staking: Staking,
    user_staking: UserStaking,
    idx: Option<Seq<u8>>,
    genesis: Option<GenesisClaim>,
    r: Result<ClaimOutcome, AdrenaError>,
    staking_after: Staking,
    user_after: UserStaking,
) -> bool {
    let base = stakes_after_genesis(user_staking.locked_stakes@, idx, genesis);
    let rounds = staking.resolved_staking_rounds@;
    let p = claim_progress(rounds, base, idx, user_staking.liquid_stake, staking.staking_type,
        staking.staked_token_decimals, staking.reward_token_decimals, rounds.len() as int);
    let claim_time = (staking.current_staking_round.start_time - 1) as i64;
    &&& r is Err ==> staking_after == staking && user_after == user_staking
    &&& !indexes_valid(idx, user_staking.locked_stakes@.len() as int) ==> r == Err::<ClaimOutcome, AdrenaError>(
        AdrenaError::InvalidArgument,
    )
    &&& indexes_valid(idx, user_staking.locked_stakes@.len() as int) && p.lp_error ==> r == Err::<ClaimOutcome, AdrenaError>(
        AdrenaError::InvalidStakingState,
    )
    &&& indexes_valid(idx, user_staking.locked_stakes@.len() as int) && !p.lp_error ==> {
        &&& r == Ok::<ClaimOutcome, AdrenaError>(ClaimOutcome {
            rewards_token_amount: p.rewards as u64,
            lm_rewards_token_amount: p.lm_rewards as u64,
            genesis_lm_rewards_token_amount: match genesis {
                Some(g) => genesis_sum(user_staking.locked_stakes@, idx, g, user_staking.locked_stakes@.len() as int) as u64,
                None => 0,
            },
        })
        &&& staking_after.resolved_staking_rounds@ == p.kept
        &&& user_after.locked_stakes@ == stakes_after_claim(rounds, base, idx, claim_time)
        &&& user_after.liquid_stake == (LiquidStake { claim_time, ..p.liquid })
        &&& user_after.staking_type == (match user_staking.staking_type {
            Some(t) => Some(t),
            None => Some(staking.staking_type),
        })
        &&& user_after.well_formed()
        &&& staking_after.resolved_staked_token_amount == staking.resolved_staked_token_amount - p.stake_with_reward_multiplier
        &&& staking_after.resolved_reward_token_amount == staking.resolved_reward_token_amount - p.rewards
        &&& staking_after.resolved_lm_staked_token_amount == staking.resolved_lm_staked_token_amount - p.stake_with_lm_reward_multiplier
        &&& staking_after.resolved_lm_reward_token_amount == staking.resolved_lm_reward_token_amount - p.lm_rewards
        &&& staking_after.current_staking_round == staking.current_staking_round
        &&& staking_after.next_staking_round == staking.next_staking_round
        &&& staking_after.nb_liquid_tokens == staking.nb_liquid_tokens
        &&& staking_after.nb_locked_tokens == staking.nb_locked_tokens
        &&& staking_after.staking_type == staking.staking_type
        &&& staking_after.staked_token_decimals == staking.staked_token_decimals
        &&& staking_after.reward_token_decimals == staking.reward_token_decimals
        &&& staking_after.current_month_emission_amount_per_round == staking.current_month_emission_amount_per_round
    }
}

/// Claims the rewards of a user's stakes from the resolved rounds (its rewards having to be
/// paid out of the vaults), for the locked stakes at the positions `indexes` (all of them
/// where `None`) and for the liquid stake. Where `genesis` is given, the selected genesis
/// stakes first earn the campaign's rewards. Each locked stake that qualifies for a round
/// earns its weighted amounts times the round's rates; the liquid stake earns for the tokens
/// it held before the round (LM staking only: an LP staking refuses a qualifying liquid stake
/// with `InvalidStakingState`). Every resolved round is gone through, and those left fully
/// claimed are dropped. The claimed stakes then count as claimed up to just before the
/// current round, so that they keep earning from it.
/// `InvalidArgument` where a position names no locked stake. An error changes nothing.
#[verifier::rlimit(80)]
pub fn claim_stakes(
    staking: &mut Staking,
    user_staking: &mut UserStaking,
    params: &ClaimStakesParams,
    genesis: Option<GenesisClaim>,
) -> (r: Result<ClaimOutcome, AdrenaError>)
    requires
        claim_stakes_accepts(*old(staking), *old(user_staking), indexes_view(params.locked_stake_indexes), genesis),
    ensures
        claim_stakes_outcome(*old(staking), *old(user_staking), indexes_view(params.locked_stake_indexes), genesis, r,
            *final(staking), *final(user_staking)),
{
    let indexes = &params.locked_stake_indexes;
    let n_stakes = user_staking.locked_stakes.len();
    if !indexes_all_valid(indexes, n_stakes) {
        return Err(AdrenaError::InvalidArgument);
    }
    let ghost idx = indexes_view(*indexes);
    // The claim works on copies, written back once it has gone through.
    let mut work = UserStaking {
        staking_type: match user_staking.staking_type {
            Some(t) => Some(t),
            None => Some(staking.staking_type),
        },
        liquid_stake: user_staking.liquid_stake,
        locked_stakes: copy_vec(&user_staking.locked_stakes),
    };
    let mut kept_rounds = copy_vec(&staking.resolved_staking_rounds);
    let genesis_total: u64 = match genesis {
        Some(g) => claim_genesis_rewards(&mut work, indexes, &g),
        None => 0,
    };
    let ghost base = work.locked_stakes@;
    proof {
        assert(base =~= stakes_after_genesis(old(user_staking).locked_stakes@, idx, genesis));
    }
    let ghost rounds = staking.resolved_staking_rounds@;
    let ghost liquid0 = work.liquid_stake;
    let ghost user_type = work.staking_type;
    let staked_decimals = staking.staked_token_decimals;
    let reward_decimals = staking.reward_token_decimals;
    let staking_type = staking.staking_type;
    let mut rewards: u64 = 0;
    let mut lm_rewards: u64 = 0;
    let mut with_reward: u64 = 0;
    let mut with_lm_reward: u64 = 0;
    let mut k: usize = 0;
    let ghost mut processed: int = 0;
    proof {
        assert(rounds.skip(0) =~= rounds);
        assert(Seq::<StakingRound>::empty() + rounds =~= rounds);
        assert forall|i: int| 0 <= i < base.len() implies #[trigger] work.locked_stakes@[i] == (LockedStake {
            qualified_for_rewards_in_resolved_round_count: (base[i].qualified_for_rewards_in_resolved_round_count
                + qualified_round_count(rounds, base, idx, i, 0)) as u32,
            ..base[i]
        }) by {}
    }
    while k < kept_rounds.len()
        invariant
            0 <= processed <= rounds.len(),
            idx == indexes_view(*indexes),
            idx == indexes_view(params.locked_stake_indexes),
            n_stakes == old(user_staking).locked_stakes@.len(),
            indexes_valid(idx, n_stakes as int),
            base == stakes_after_genesis(old(user_staking).locked_stakes@, idx, genesis),
            base.len() == n_stakes,
            n_stakes == MAX_LOCKED_STAKES,
            *staking == *old(staking),
            *user_staking == *old(user_staking),
            staked_decimals == staking.staked_token_decimals,
            reward_decimals == staking.reward_token_decimals,
            staking_type == staking.staking_type,
            rounds == old(staking).resolved_staking_rounds@,
            liquid0 == old(user_staking).liquid_stake,
            claim_fits(rounds, base, idx, liquid0, staking_type, staked_decimals, reward_decimals),
            ({
                let p = claim_progress(rounds, base, idx, liquid0, staking_type, staked_decimals, reward_decimals, processed);
                &&& !p.lp_error
                &&& kept_rounds@ == p.kept + rounds.skip(processed)
                &&& k == p.kept.len()
                &&& rewards == p.rewards
                &&& lm_rewards == p.lm_rewards
                &&& with_reward == p.stake_with_reward_multiplier
                &&& with_lm_reward == p.stake_with_lm_reward_multiplier
                &&& work.liquid_stake == p.liquid
            }),
            work.locked_stakes@.len() == n_stakes,
            work.staking_type == user_type,
            forall|i: int| 0 <= i < base.len() ==> #[trigger] work.locked_stakes@[i] == (LockedStake {
                qualified_for_rewards_in_resolved_round_count: (base[i].qualified_for_rewards_in_resolved_round_count
                    + qualified_round_count(rounds, base, idx, i, processed)) as u32,
                ..base[i]
            }),
        decreases rounds.len() - processed,
    {
        let ghost p = claim_progress(rounds, base, idx, liquid0, staking_type, staked_decimals, reward_decimals, processed);
        proof {
            assert(kept_rounds@.len() == p.kept.len() + rounds.len() - processed);
            assert(kept_rounds@[k as int] == rounds[processed]);
        }
        let round = kept_rounds[k];
        if round.start_time > 0 {
            proof {
                assert(rounds[processed] == round);
                lemma_claim_fits_at(rounds, base, idx, liquid0, staking_type, staked_decimals, reward_decimals, processed);
            }
            match claim_round(
                &mut work,
                indexes,
                round,
                staking_type,
                staked_decimals,
                reward_decimals,
                (rewards, lm_rewards, with_reward, with_lm_reward),
                Ghost(base),
                Ghost(p),
                Ghost(rounds),
                Ghost(processed),
            ) {
                Err(()) => {
                    proof {
                        assert(claim_progress(rounds, base, idx, liquid0, staking_type, staked_decimals, reward_decimals, processed + 1)
                            == claim_step(p, round, base, idx, staking_type, staked_decimals, reward_decimals));
                        lemma_lp_error_persists(rounds, base, idx, liquid0, staking_type, staked_decimals, reward_decimals, processed + 1, rounds.len() as int);
                    }
                    return Err(AdrenaError::InvalidStakingState);
                },
                Ok((after, t)) => {
                    rewards = t.0;
                    lm_rewards = t.1;
                    with_reward = t.2;
                    with_lm_reward = t.3;
                    if after.total_claim == after.total_stake && after.lm_total_claim == after.lm_total_stake {
                        kept_rounds.remove(k);
                        proof {
                            assert(kept_rounds@ =~= p.kept + rounds.skip(processed + 1));
                        }
                    } else {
                        kept_rounds.set(k, after);
                        proof {
                            assert(kept_rounds@ =~= p.kept.push(after) + rounds.skip(processed + 1));
                        }
                        k = k + 1;
                    }
                },
            }
        } else {
            proof {
                assert(kept_rounds@ =~= p.kept.push(round) + rounds.skip(processed + 1));
            }
            k = k + 1;
        }
        proof {
            processed = processed + 1;
        }
    }
    let ghost p = claim_progress(rounds, base, idx, liquid0, staking_type, staked_decimals, reward_decimals, processed);
    proof {
        assert(processed == rounds.len());
        assert(rounds.skip(processed) =~= Seq::<StakingRound>::empty());
        assert(kept_rounds@ =~= p.kept);
    }
    let claim_time: i64 = staking.current_staking_round.start_time - 1;
    mark_claimed(&mut work, indexes, claim_time);
    proof {
        assert(work.locked_stakes@ =~= stakes_after_claim(rounds, base, idx, claim_time));
    }
    work.liquid_stake.claim_time = claim_time;
    staking.resolved_staking_rounds = kept_rounds;
    staking.resolved_staked_token_amount = staking.resolved_staked_token_amount - with_reward;
    staking.resolved_reward_token_amount = staking.resolved_reward_token_amount - rewards;
    staking.resolved_lm_staked_token_amount = staking.resolved_lm_staked_token_amount - with_lm_reward;
    staking.resolved_lm_reward_token_amount = staking.resolved_lm_reward_token_amount - lm_rewards;
    *user_staking = work;
    Ok(ClaimOutcome {
        rewards_token_amount: rewards,
        lm_rewards_token_amount: lm_rewards,
        genesis_lm_rewards_token_amount: genesis_total,
    })
}


proof fn lemma_claimed_sum_zero(
    rounds: Seq<StakingRound>,
    base: Seq<LockedStake>,
    indexes: Option<Seq<u8>>,
    claim_time: i64,
    round: StakingRound,
    staked_decimals: u8,
    reward_decimals: u8,
    n: int,
)
    requires
        claim_time != 0,
        round.start_time <= claim_time,
        n <= base.len(),
    ensures
        locked_claim_sum(stakes_after_claim(rounds, base, indexes, claim_time), indexes, round, staked_decimals,
            reward_decimals, n) == (0int, 0int, 0int, 0int),
    decreases n,
{
    if n > 0 {
        lemma_claimed_sum_zero(rounds, base, indexes, claim_time, round, staked_decimals, reward_decimals, n - 1);
        let after = stakes_after_claim(rounds, base, indexes, claim_time);
        if is_selected(indexes, n - 1) {
            assert(after[n - 1].claim_time == claim_time);
            assert(!after[n - 1].qualifies_for_rewards_from_spec(round));
        }
    }
}

/// After a claim that marked its stakes as claimed at `claim_time` (not zero), no selected
/// locked stake and not the liquid stake earns from a round that started no later than
/// `claim_time`.
proof fn lemma_claimed_round_pays_nothing(
    rounds: Seq<StakingRound>,
    base: Seq<LockedStake>,
    indexes: Option<Seq<u8>>,
    liquid: LiquidStake,
    claim_time: i64,
    round: StakingRound,
    staked_decimals: u8,
    reward_decimals: u8,
)
    requires
        claim_time != 0,
        round.start_time <= claim_time,
    ensures
        locked_claim_sum(
            stakes_after_claim(rounds, base, indexes, claim_time),
            indexes,
            round,
            staked_decimals,
            reward_decimals,
            base.len() as int,
        ) == (0int, 0int, 0int, 0int),
        liquid_claim(LiquidStake { claim_time, ..liquid }, round) == (LiquidStake { claim_time, ..liquid }, 0int),
        !(LiquidStake { claim_time, ..liquid }).qualifies_for_rewards_from_spec(round),
{
    lemma_claimed_sum_zero(rounds, base, indexes, claim_time, round, staked_decimals, reward_decimals, base.len() as int);
}

proof fn lemma_reclaim_progress(
    earlier_rounds: Seq<StakingRound>,
    base: Seq<LockedStake>,
    indexes: Option<Seq<u8>>,
    liquid: LiquidStake,
    claim_time: i64,
    rounds: Seq<StakingRound>,
    staking_type: StakingType,
    staked_decimals: u8,
    reward_decimals: u8,
    n: int,
)
    requires
        claim_time != 0,
        0 <= n <= rounds.len(),
        forall|j: int| 0 <= j < rounds.len() ==> #[trigger] rounds[j].start_time <= claim_time,
    ensures
        ({
            let p = claim_progress(
                rounds,
                stakes_after_claim(earlier_rounds, base, indexes, claim_time),
                indexes,
                LiquidStake { claim_time, ..liquid },
                staking_type,
                staked_decimals,
                reward_decimals,
                n,
            );
            &&& !p.lp_error
            &&& p.rewards == 0
            &&& p.lm_rewards == 0
            &&& p.stake_with_reward_multiplier == 0
            &&& p.stake_with_lm_reward_multiplier == 0
            &&& p.liquid == (LiquidStake { claim_time, ..liquid })
        }),
    decreases n,
{
    if n > 0 {
        lemma_reclaim_progress(earlier_rounds, base, indexes, liquid, claim_time, rounds, staking_type,
            staked_decimals, reward_decimals, n - 1);
        assert(rounds[n - 1].start_time <= claim_time);
        lemma_claimed_round_pays_nothing(earlier_rounds, base, indexes, liquid, claim_time, rounds[n - 1],
            staked_decimals, reward_decimals);
    }
}

/// A locked stake whose lock ended before `round` ended is not counted in it.
pub open spec fn lock_ended_before(stake: LockedStake, round: StakingRound) -> bool {
    round.end_time != 0 && stake.end_time < round.end_time
}

/// Locked stakes whose locks ended before a round ended earn nothing from it: where each of
/// the first `n` stakes has such a lock, they earn no reward and no LM reward from the round
/// and claim no weighted amount of it.
pub proof fn lemma_expired_locks_earn_nothing(
    stakes: Seq<LockedStake>,
    indexes: Option<Seq<u8>>,
    round: StakingRound,
    staked_decimals: u8,
    reward_decimals: u8,
    n: int,
)
    requires
        n <= stakes.len(),
        forall|j: int| 0 <= j < n ==> #[trigger] lock_ended_before(stakes[j], round),
    ensures
        locked_claim_sum(stakes, indexes, round, staked_decimals, reward_decimals, n) == (0int, 0int, 0int, 0int),
    decreases n,
{
    if n > 0 {
        lemma_expired_locks_earn_nothing(stakes, indexes, round, staked_decimals, reward_decimals, n - 1);
        assert(lock_ended_before(stakes[n - 1], round));
    }
}

/// A round is not counted for a locked stake whose lock ended before the round ended: where
/// every one of the first `n` resolved rounds ended after the lock of the stake at position
/// `i`, none of them counts for it.
pub proof fn lemma_expired_lock_counts_no_round(
    rounds: Seq<StakingRound>,
    stakes: Seq<LockedStake>,
    indexes: Option<Seq<u8>>,
    i: int,
    n: int,
)
    requires
        0 <= i < stakes.len(),
        n <= rounds.len(),
        forall|k: int| 0 <= k < n ==> #[trigger] lock_ended_before(stakes[i], rounds[k]),
    ensures
        qualified_round_count(rounds, stakes, indexes, i, n) == 0,
    decreases n,
{
    if n > 0 {
        lemma_expired_lock_counts_no_round(rounds, stakes, indexes, i, n - 1);
        assert(lock_ended_before(stakes[i], rounds[n - 1]));
    }
}

/// A claim pays nothing to stakes whose locks ended before the rounds ended: where every
/// locked stake's lock ended before each of the first `n` resolved rounds ended and the
/// liquid stake was never staked, the claim over those rounds owes no reward and no LM
/// reward, claims no weighted amount, is not refused and leaves the liquid stake as it was.
pub proof fn lemma_claim_of_expired_locks_pays_nothing(
    rounds: Seq<StakingRound>,
    stakes: Seq<LockedStake>,
    indexes: Option<Seq<u8>>,
    liquid: LiquidStake,
    staking_type: StakingType,
    staked_decimals: u8,
    reward_decimals: u8,
    n: int,
)
    requires
        0 <= n <= rounds.len(),
        liquid.stake_time == 0,
        forall|k: int, j: int| 0 <= k < n && 0 <= j < stakes.len() ==> #[trigger] lock_ended_before(stakes[j], rounds[k]),
    ensures
        ({
            let p = claim_progress(rounds, stakes, indexes, liquid, staking_type, staked_decimals, reward_decimals, n);
            &&& !p.lp_error
            &&& p.rewards == 0
            &&& p.lm_rewards == 0
            &&& p.stake_with_reward_multiplier == 0
            &&& p.stake_with_lm_reward_multiplier == 0
            &&& p.liquid == liquid
        }),
    decreases n,
{
    if n > 0 {
        lemma_claim_of_expired_locks_pays_nothing(rounds, stakes, indexes, liquid, staking_type, staked_decimals,
            reward_decimals, n - 1);
        let round = rounds[n - 1];
        assert forall|j: int| 0 <= j < stakes.len() implies #[trigger] lock_ended_before(stakes[j], round) by {
            assert(lock_ended_before(stakes[j], rounds[n - 1]));
        }
        lemma_expired_locks_earn_nothing(stakes, indexes, round, staked_decimals, reward_decimals, stakes.len() as int);
    }
}

/// A claim is not paid twice: once a claim has marked its stakes and the liquid stake as
/// claimed at `claim_time` (not zero), the same claim made again over resolved rounds that
/// all started no later than `claim_time` owes no reward and no LM reward, counts no stake
/// as claimed, and is not refused.
pub proof fn lemma_claim_not_paid_twice(
    earlier_rounds: Seq<StakingRound>,
    base: Seq<LockedStake>,
    indexes: Option<Seq<u8>>,
    liquid: LiquidStake,
    claim_time: i64,
    rounds: Seq<StakingRound>,
    staking_type: StakingType,
    staked_decimals: u8,
    reward_decimals: u8,
)
    requires
        claim_time != 0,
        forall|j: int| 0 <= j < rounds.len() ==> #[trigger] rounds[j].start_time <= claim_time,
    ensures
        ({
            let p = claim_progress(
                rounds,
                stakes_after_claim(earlier_rounds, base, indexes, claim_time),
                indexes,
                LiquidStake { claim_time, ..liquid },
                staking_type,
                staked_decimals,
                reward_decimals,
                rounds.len() as int,
            );
            &&& !p.lp_error
            &&& p.rewards == 0
            &&& p.lm_rewards == 0
            &&& p.stake_with_reward_multiplier == 0
            &&& p.stake_with_lm_reward_multiplier == 0
        }),
{
    lemma_reclaim_progress(earlier_rounds, base, indexes, liquid, claim_time, rounds, staking_type,
        staked_decimals, reward_decimals, rounds.len() as int);
}

} // verus!
