use vstd::prelude::*;

use crate::error::AdrenaError;
use crate::key::Key;
use crate::math::{bps_mul_value, checked_bps_mul};
use crate::staking::LockedStake;

verus! {

/// A vesting of LM tokens: the amount granted, the amount claimed so far, its owner and
/// optional delegate.
#[derive(Debug, Clone, Copy, PartialEq, Eq, Structural)]
pub struct Vest {
    pub amount: u64,
    pub claimed_amount: u64,
    pub owner: Key,
    pub delegate: Key,
    pub has_delegate: bool,
    pub last_claim_timestamp: i64,
    pub origin_bucket: u8,
    /// The voting power each vesting token gives, in basis points.
    pub vote_multiplier: u32,
}

/// The registry of the vestings still running, and the LM tokens vesting and vested.
pub struct VestRegistry {
    pub vests: Vec<Key>,
    pub vesting_token_amount: u64,
    pub vested_token_amount: u64,
}

/// The delegate a vesting is given, or `None` to remove it.
#[derive(Debug, Clone, Copy, PartialEq, Eq, Structural)]
pub struct SetVestDelegateParams {
    pub delegate: Option<Key>,
}

/// Sets (or, with `None`, removes) the delegate of a vesting.
pub fn set_vest_delegate(vest: &mut Vest, params: &SetVestDelegateParams)
    ensures
        *final(vest) == (Vest {
            delegate: match params.delegate {
                Some(d) => d,
                None => Key::default_spec(),
            },
            has_delegate: params.delegate is Some,
            ..*old(vest)
        }),
{
    vest.delegate = match params.delegate {
        Some(d) => d,
        None => Key::default_key(),
    };
    vest.has_delegate = params.delegate.is_some();
}

/// The layout version of a vesting account written before delegates existed.
pub const VEST_VERSION_V1: u8 = 0u8;

/// The layout version of a vesting account that may name a delegate.
pub const VEST_VERSION_V2: u8 = 1u8;

/// Moves a vesting account stored at layout `version` to the layout with a delegate: only
/// the first layout can be moved (`InvalidVestVersion` otherwise); the moved vesting has no
/// delegate. Returns the new layout version.
pub fn migrate_vest_from_v1_to_v2(vest: &mut Vest, version: u8) -> (r: Result<u8, AdrenaError>)
    ensures
        version != VEST_VERSION_V1 ==> r == Err::<u8, AdrenaError>(AdrenaError::InvalidVestVersion)
            && *final(vest) == *old(vest),
        version == VEST_VERSION_V1 ==> r == Ok::<u8, AdrenaError>(VEST_VERSION_V2) && *final(vest) == (Vest {
            delegate: Key::default_spec(),
            has_delegate: false,
            ..*old(vest)
        }),
{
    if version != VEST_VERSION_V1 {
        return Err(AdrenaError::InvalidVestVersion);
    }
    vest.delegate = Key::default_key();
    vest.has_delegate = false;
    Ok(VEST_VERSION_V2)
}

/// The position of `key` in a list of keys, if present.
pub fn find_key(keys: &Vec<Key>, key: Key) -> (r: Option<usize>)
    ensures
        r matches Some(i) ==> i < keys@.len() && keys@[i as int] == key && forall|j: int| 0 <= j < i ==> keys@[j] != key,
        r is None ==> forall|j: int| 0 <= j < keys@.len() ==> keys@[j] != key,
{
    let mut i: usize = 0;
    while i < keys.len()
        invariant
            i <= keys@.len(),
            forall|j: int| 0 <= j < i ==> keys@[j] != key,
        decreases keys@.len() - i,
    {
        if keys[i] == key {
            return Some(i);
        }
        i = i + 1;
    }
    None
}

/// Who may claim a vesting: its owner, the admin, or its delegate.
pub open spec fn may_claim_vest(vest: Vest, caller: Key, admin: Key) -> bool {
    caller == vest.owner || caller == admin || (vest.has_delegate && caller == vest.delegate)
}

/// Where the claimed tokens may go: to an account of the owner or of the delegate.
pub open spec fn may_receive_vest(vest: Vest, receiving_owner: Key) -> bool {
    receiving_owner == vest.owner || (vest.has_delegate && receiving_owner == vest.delegate)
}

/// What an accepted claim of a vesting owes outside the vesting accounts: the tokens to mint
/// to the receiver from the vesting's bucket, and the voting power those tokens gave, to take
/// from the owner.
#[derive(Debug, Clone, Copy, PartialEq, Eq, Structural)]
pub struct ClaimedVest {
    pub amount: u64,
    pub voting_power_to_remove: u64,
}

/// Claims the vested tokens of a vesting (`vest_key`) at `current_time`: `claimable_amount` is
/// what its schedule lets be claimed now. The caller must be allowed (`InvalidCaller`) and
/// the tokens must go to the owner or the delegate (`InvalidArgument`). Where nothing is
/// claimable nothing changes. Otherwise the vesting and the registry record the claim, the
/// amount the vesting's bucket reserves for vestings (`bucket_vested_amount`) goes down by it,
/// and a vesting claimed in full leaves the registry (`InvalidVestState` where it is not
/// listed). An error changes nothing.
pub fn claim_vest(
    vest: &mut Vest,
    registry: &mut VestRegistry,
    bucket_vested_amount: &mut u64,
    vest_key: Key,
    caller: Key,
    admin: Key,
    receiving_owner: Key,
    current_time: i64,
    claimable_amount: u64,
) -> (r: Result<ClaimedVest, AdrenaError>)
    requires
        may_claim_vest(*old(vest), caller, admin) && may_receive_vest(*old(vest), receiving_owner) && claimable_amount != 0 ==> {
            &&& old(vest).claimed_amount + claimable_amount <= u64::MAX
            &&& old(registry).vesting_token_amount >= claimable_amount
            &&& old(registry).vested_token_amount + claimable_amount <= u64::MAX
            &&& *old(bucket_vested_amount) >= claimable_amount
            &&& bps_mul_value(claimable_amount as nat, old(vest).vote_multiplier as nat) <= u64::MAX
        },
    ensures
        r is Err ==> *final(vest) == *old(vest) && *final(registry) == *old(registry)
            && *final(bucket_vested_amount) == *old(bucket_vested_amount),
        !may_claim_vest(*old(vest), caller, admin) ==> r == Err::<ClaimedVest, AdrenaError>(AdrenaError::InvalidCaller),
        may_claim_vest(*old(vest), caller, admin) && !may_receive_vest(*old(vest), receiving_owner) ==> r == Err::<ClaimedVest, AdrenaError>(
            AdrenaError::InvalidArgument,
        ),
        may_claim_vest(*old(vest), caller, admin) && may_receive_vest(*old(vest), receiving_owner) && claimable_amount == 0 ==> {
            &&& r == Ok::<ClaimedVest, AdrenaError>(ClaimedVest { amount: 0, voting_power_to_remove: 0 })
            &&& *final(vest) == *old(vest)
            &&& *final(registry) == *old(registry)
            &&& *final(bucket_vested_amount) == *old(bucket_vested_amount)
        },
        may_claim_vest(*old(vest), caller, admin) && may_receive_vest(*old(vest), receiving_owner) && claimable_amount != 0 ==> {
            let completed = old(vest).claimed_amount + claimable_amount == old(vest).amount;
            let listed = old(registry).vests@.contains(vest_key);
            &&& completed && !listed ==> r == Err::<ClaimedVest, AdrenaError>(AdrenaError::InvalidVestState)
            &&& !(completed && !listed) ==> {
                &&& r == Ok::<ClaimedVest, AdrenaError>(ClaimedVest {
                    amount: claimable_amount,
                    voting_power_to_remove: bps_mul_value(claimable_amount as nat, old(vest).vote_multiplier as nat) as u64,
                })
                &&& *final(vest) == (Vest {
                    claimed_amount: (old(vest).claimed_amount + claimable_amount) as u64,
                    last_claim_timestamp: current_time,
                    ..*old(vest)
                })
                &&& *final(bucket_vested_amount) == *old(bucket_vested_amount) - claimable_amount
                &&& final(registry).vesting_token_amount == old(registry).vesting_token_amount - claimable_amount
                &&& final(registry).vested_token_amount == old(registry).vested_token_amount + claimable_amount
                &&& final(registry).vesting_token_amount + final(registry).vested_token_amount
                    == old(registry).vesting_token_amount + old(registry).vested_token_amount
                &&& !completed ==> final(registry).vests@ == old(registry).vests@
                &&& completed ==> exists|i: int| 0 <= i < old(registry).vests@.len() && old(registry).vests@[i] == vest_key
                    && (forall|j: int| 0 <= j < i ==> old(registry).vests@[j] != vest_key)
                    && final(registry).vests@ == old(registry).vests@.remove(i)
            }
        },
{
    if !(caller == vest.owner || caller == admin || (vest.has_delegate && caller == vest.delegate)) {
        return Err(AdrenaError::InvalidCaller);
    }
    if !(receiving_owner == vest.owner || (vest.has_delegate && receiving_owner == vest.delegate)) {
        return Err(AdrenaError::InvalidArgument);
    }
    if claimable_amount == 0 {
        return Ok(ClaimedVest { amount: 0, voting_power_to_remove: 0 });
    }
    let completed = vest.claimed_amount + claimable_amount == vest.amount;
    let mut listed_at: Option<usize> = None;
    if completed {
        match find_key(&registry.vests, vest_key) {
            None => {
                return Err(AdrenaError::InvalidVestState);
            },
            Some(i) => {
                listed_at = Some(i);
            },
        }
    }
    let voting_power_to_remove = checked_bps_mul(claimable_amount, vest.vote_multiplier as u64);
    let voting_power_to_remove: u64 = match voting_power_to_remove {
        Ok(v) => v,
        Err(_) => 0,
    };
    vest.claimed_amount = vest.claimed_amount + claimable_amount;
    vest.last_claim_timestamp = current_time;
    registry.vesting_token_amount = registry.vesting_token_amount - claimable_amount;
    registry.vested_token_amount = registry.vested_token_amount + claimable_amount;
    *bucket_vested_amount = *bucket_vested_amount - claimable_amount;
    if let Some(i) = listed_at {
        registry.vests.remove(i);
    }
    Ok(ClaimedVest { amount: claimable_amount, voting_power_to_remove })
}

/// The voting power of the first `n` locked stakes: each holding tokens gives its amount
/// times its vote multiplier.
pub open spec fn locked_voting_power(stakes: Seq<LockedStake>, n: int) -> int
    decreases n,
{
    if n <= 0 {
        0
    } else {
        locked_voting_power(stakes, n - 1) + if stakes[n - 1].amount > 0 {
            bps_mul_value(stakes[n - 1].vote_multiplier as nat, stakes[n - 1].amount as nat) as int
        } else {
            0
        }
    }
}

/// The voting power of a locked stake fits in a `u64`.
pub open spec fn stake_power_fits(stake: LockedStake) -> bool {
    stake.amount > 0 ==> bps_mul_value(stake.vote_multiplier as nat, stake.amount as nat) <= u64::MAX
}

/// The voting power of every locked stake fits in a `u64`.
pub open spec fn all_stake_powers_fit(stakes: Seq<LockedStake>) -> bool {
    forall|j: int| 0 <= j < stakes.len() ==> #[trigger] stake_power_fits(stakes[j])
}

/// What bringing a user's governance power in line with their stakes takes.
#[derive(Debug, Clone, Copy, PartialEq, Eq, Structural)]
pub enum VotingPowerAction {
    /// The user holds too much: remove this much.
    Remove(u64),
    /// The user holds too little: add this much, first creating their governance record
    /// where `create_record` says so.
    Add { amount: u64, create_record: bool },
    /// The user holds exactly what their stakes give.
    Keep,
}

/// A user's governance power once `action` has been applied to `current`.
pub open spec fn power_after(current: u64, action: VotingPowerAction) -> int {
    match action {
        VotingPowerAction::Remove(a) => current - a,
        VotingPowerAction::Add { amount, .. } => current + amount,
        VotingPowerAction::Keep => current as int,
    }
}

/// What a user's stakes and vesting say about their governance power.
pub struct VotingPowerSources {
    /// The user's locked stakes.
    pub locked_stakes: Vec<LockedStake>,
    /// The voting power of the user's running vesting (its unclaimed tokens with its vote
    /// multiplier), where the user has one.
    pub vest_voting_power: Option<u64>,
    /// The registry lists a vesting of the user (which must then be given).
    pub registry_lists_user_vest: bool,
}

/// The governance power a user's stakes give: their locked stakes, and their vesting.
pub open spec fn real_voting_power(sources: VotingPowerSources) -> int {
    locked_voting_power(sources.locked_stakes@, sources.locked_stakes@.len() as int) + match sources.vest_voting_power {
        Some(v) => v as int,
        None => 0,
    }
}

/// Decides how to bring a user's governance power, `current_voting_power` (zero where the
/// user has no governance record yet, `record_exists`), in line with what their stakes give.
/// `InvalidArgument` where the user has a vesting that is not given; `MathOverflow` where a
/// stake's voting power does not fit.
pub fn sync_user_voting_power(
    sources: &VotingPowerSources,
    current_voting_power: u64,
    record_exists: bool,
    caller_is_owner: bool,
) -> (r: Result<VotingPowerAction, AdrenaError>)
    requires
        forall|k: int| 0 <= k <= sources.locked_stakes@.len() && (forall|j: int| 0 <= j < k ==> #[trigger] stake_power_fits(sources.locked_stakes@[j]))
            ==> locked_voting_power(sources.locked_stakes@, k) <= u64::MAX,
        all_stake_powers_fit(sources.locked_stakes@) ==> real_voting_power(*sources) <= u64::MAX,
    ensures
        !all_stake_powers_fit(sources.locked_stakes@) ==> r == Err::<VotingPowerAction, AdrenaError>(AdrenaError::MathOverflow),
        all_stake_powers_fit(sources.locked_stakes@) && sources.vest_voting_power is None && sources.registry_lists_user_vest
            ==> r == Err::<VotingPowerAction, AdrenaError>(AdrenaError::InvalidArgument),
        all_stake_powers_fit(sources.locked_stakes@) && !(sources.vest_voting_power is None && sources.registry_lists_user_vest) ==> {
            let total_power = real_voting_power(*sources);
            &&& current_voting_power > total_power ==> r == Ok::<VotingPowerAction, AdrenaError>(
                VotingPowerAction::Remove((current_voting_power - total_power) as u64),
            )
            &&& current_voting_power < total_power ==> r == Ok::<VotingPowerAction, AdrenaError>(
                VotingPowerAction::Add { amount: (total_power - current_voting_power) as u64, create_record: !caller_is_owner && !record_exists },
            )
            &&& current_voting_power == total_power ==> r == Ok::<VotingPowerAction, AdrenaError>(VotingPowerAction::Keep)
        },
        r matches Ok(action) ==> power_after(current_voting_power, action) == real_voting_power(*sources),
{
    let mut total_power: u64 = 0;
    let mut i: usize = 0;
    let n = sources.locked_stakes.len();
    while i < n
        invariant
            n == sources.locked_stakes@.len(),
            i <= n,
            total_power == locked_voting_power(sources.locked_stakes@, i as int),
            forall|j: int| 0 <= j < i ==> #[trigger] stake_power_fits(sources.locked_stakes@[j]),
            forall|k: int| 0 <= k <= sources.locked_stakes@.len() && (forall|j: int| 0 <= j < k ==> #[trigger] stake_power_fits(sources.locked_stakes@[j]))
                ==> locked_voting_power(sources.locked_stakes@, k) <= u64::MAX,
            all_stake_powers_fit(sources.locked_stakes@) ==> real_voting_power(*sources) <= u64::MAX,
        decreases n - i,
    {
        let stake = sources.locked_stakes[i];
        if stake.amount > 0 {
            let power = match checked_bps_mul(stake.vote_multiplier as u64, stake.amount) {
                Ok(p) => p,
                Err(e) => {
                    proof {
                        assert(!stake_power_fits(sources.locked_stakes@[i as int]));
                    }
                    return Err(e);
                },
            };
            proof {
                assert(stake_power_fits(sources.locked_stakes@[i as int]));
                assert(locked_voting_power(sources.locked_stakes@, i + 1) <= u64::MAX);
            }
            total_power = total_power + power;
        }
        i = i + 1;
    }
    match sources.vest_voting_power {
        Some(v) => {
            total_power = total_power + v;
        },
        None => {
            if sources.registry_lists_user_vest {
                return Err(AdrenaError::InvalidArgument);
            }
        },
    }
    if current_voting_power > total_power {
        Ok(VotingPowerAction::Remove(current_voting_power - total_power))
    } else if current_voting_power < total_power {
        Ok(VotingPowerAction::Add { amount: total_power - current_voting_power, create_record: !caller_is_owner && !record_exists })
    } else {
        Ok(VotingPowerAction::Keep)
    }
}

} // verus!
