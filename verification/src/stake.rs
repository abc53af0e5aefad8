//! The staking contract: holders stake a cw20 token, earn a reward that
//! grows with the amount staked and the time since they last staked,
//! harvested or reinvested, and may unstake once the lock has passed, or at
//! any time against a fee.
use vstd::prelude::*;
use crate::common::{StdError, OwnershipError, Payout, owner_check, assert_owner, secs, seconds};

verus! {

/// Basis points in one whole.
pub const BASIS_POINTS: u128 = 10000;

/// The reward's divisor: basis points of the yearly rate times the seconds
/// of a year.
pub const REWARD_DIVISOR: u128 = 315_360_000_000;

#[derive(Debug, PartialEq, Eq, Clone)]
pub struct Config {
    pub token_address: String,
    pub stake_paused: bool,
    pub unstake_paused: bool,
    pub emergency_unstake_paused: bool,
    /// The yearly reward rate, in basis points.
    pub interest_rate: u64,
    /// Seconds a stake stays locked.
    pub lock_duration: u64,
    /// A factor on the reward, in basis points.
    pub lock_duration_multiplier: u64,
    /// The fee of an emergency unstake, in basis points.
    pub emergency_unstake_fee_percentage: u64,
    pub fee_address: String,
}

/// The pool's totals: tokens staked, stakers, and tokens set aside for rewards.
#[derive(Debug, PartialEq, Eq, Clone, Copy)]
pub struct Pool {
    pub staked_total: u128,
    pub stakers_total: u128,
    pub reward_balance: u128,
}

/// One staker's stake and when (in nanoseconds) the reward last restarted.
#[derive(Debug, PartialEq, Eq, Clone, Copy)]
pub struct Staker {
    pub balance: u128,
    pub staked_time: Option<u64>,
}

/// The errors of the staking contract.
#[derive(Debug, PartialEq, Eq)]
pub enum ContractError {
    Std(StdError),
    Ownership(OwnershipError),
    QueryError { msg: String },
    InvalidAmount {},
    StakePaused {},
    UnstakePaused {},
    EmergencyUnstakePaused {},
    InvalidCw20 {},
    NothingStaked {},
    Cw20InvariantViolation {},
    ImpossibleUnstake {},
    InvalidLockDuration {},
    InvalidToken { received: String, expected: String },
    LockDurationNotPassed {},
    InvalidInterestRate {},
    NoRewardsToHarvest {},
    NoRewardsToReInvest {},
    InsufficientFunds {},
    InsufficientRewardBalance {},
    /// Arithmetic that the contract cannot carry out (an overflow or an
    /// underflow): the chain aborts the transaction.
    Overflow {},
}

// ---------------------------------------------------------------------
// The reward
// ---------------------------------------------------------------------

/// When the staker's reward last restarted, in seconds; never means zero.
pub open spec fn staked_secs(s: Staker) -> int {
    match s.staked_time {
        Some(t) => secs(t) as int,
        None => 0,
    }
}

/// A product that saturates to zero where it overflows.
pub open spec fn mul_or_zero(a: int, b: int) -> int {
    if a * b > u128::MAX {
        0
    } else {
        a * b
    }
}

/// The reward of `balance` staked for `duration` seconds: the yearly rate
/// pro rata, times the multiplier; a step that overflows gives nothing.
pub open spec fn reward_for(c: Config, balance: int, duration: int) -> int {
    let scaled = mul_or_zero(mul_or_zero(balance, duration), c.interest_rate as int);
    let base = scaled / (REWARD_DIVISOR as int);
    let boosted = mul_or_zero(base, c.lock_duration_multiplier as int);
    boosted / 10000
}

/// The reward of a staker at `now` (in nanoseconds), or `None` where the
/// staker's time lies after `now`.
pub open spec fn reward_at(c: Config, s: Staker, now: u64) -> Option<int> {
    if secs(now) < staked_secs(s) {
        None
    } else {
        Some(reward_for(c, s.balance as int, secs(now) - staked_secs(s)))
    }
}

/// The reward that `staker` has earned at `now` (in nanoseconds).
pub fn query_reward_amount(config: &Config, staker: &Staker, now: u64) -> (r: Result<
    u128,
    ContractError,
>)
    ensures
        match reward_at(*config, *staker, now) {
            None => r == Err::<u128, ContractError>(ContractError::Overflow {}),
            Some(v) => r == Ok::<u128, ContractError>(v as u128) && 0 <= v <= u128::MAX,
        },
{
    let prev = match staker.staked_time {
        Some(t) => seconds(t),
        None => 0,
    };
    let stake_duration = match seconds(now).checked_sub(prev) {
        Some(d) => d,
        None => return Err(ContractError::Overflow {}),
    };
    let p1 = match staker.balance.checked_mul(stake_duration as u128) {
        Some(v) => v,
        None => 0,
    };
    let p2 = match p1.checked_mul(config.interest_rate as u128) {
        Some(v) => v,
        None => 0,
    };
    let base = p2 / REWARD_DIVISOR;
    let boosted = match base.checked_mul(config.lock_duration_multiplier as u128) {
        Some(v) => v,
        None => 0,
    };
    Ok(boosted / BASIS_POINTS)
}

// ---------------------------------------------------------------------
// Messages and responses
// ---------------------------------------------------------------------

#[derive(Debug, PartialEq, Eq, Clone)]
pub struct InstantiateMsg {
    pub owner: Option<String>,
    pub token_address: String,
    pub stake_paused: bool,
    pub unstake_paused: bool,
    pub emergency_unstake_paused: bool,
    pub interest_rate: u64,
    pub lock_duration: u64,
    pub lock_duration_multiplier: u64,
    pub emergency_unstake_fee_percentage: u64,
    pub fee_address: String,
}

/// What a cw20 transfer to the contract asks for.
#[derive(Debug, PartialEq, Eq, Clone)]
pub enum ReceiveMsg {
    Stake {},
    AddTokens {},
}

#[derive(Debug, PartialEq, Eq, Clone)]
pub enum QueryMsg {
    GetStakedBalanceAtHeight { address: String, height: Option<u64> },
    GetTotalStakedAtHeight { height: Option<u64> },
    GetStakedValue { address: String },
    GetStakedTime { address: String },
    GetRewardAmount { address: String },
    GetTotalValue {},
    GetConfig {},
    GetHooks {},
    ListStakers { start_after: Option<String>, limit: Option<u32> },
    Ownership {},
    GetTotalStakersAtHeight { height: Option<u64> },
    GetNextUnlockTime { address: String },
    GetRewardBalance {},
}

#[derive(Debug, PartialEq, Eq, Clone)]
pub enum MigrateMsg {
    FromV1 {},
}

#[derive(Debug, PartialEq, Eq, Clone)]
pub struct GetHooksResponse {
    pub hooks: Vec<String>,
}

#[derive(Debug, PartialEq, Eq, Clone)]
pub struct GetStakedValueResponse {
    pub value: u128,
}

#[derive(Debug, PartialEq, Eq, Clone)]
pub struct GetRewardAmountResponse {
    pub reward_amount: u128,
}

#[derive(Debug, PartialEq, Eq, Clone)]
pub struct GetStakedTimeResponse {
    /// In nanoseconds.
    pub stake_time: u64,
}

#[derive(Debug, PartialEq, Eq, Clone)]
pub struct GetNextUnlockTimeResponse {
    /// In nanoseconds.
    pub next_unlock_time: u64,
}

// ---------------------------------------------------------------------
// Operations
// ---------------------------------------------------------------------

/// Creates the configuration and an empty pool from the message, the token
/// and fee addresses as the chain validated them, and whether the token
/// answered as a cw20 token.
pub fn instantiate(
    msg: InstantiateMsg,
    token_address: Result<String, StdError>,
    token_is_cw20: bool,
    fee_address: Result<String, StdError>,
) -> (r: Result<(Config, Pool), ContractError>)
    ensures
        match token_address {
            Err(e) => r == Err::<(Config, Pool), ContractError>(ContractError::Std(e)),
            Ok(t) => if !token_is_cw20 {
                r == Err::<(Config, Pool), ContractError>(ContractError::InvalidCw20 {})
            } else {
                match fee_address {
                    Err(e) => r == Err::<(Config, Pool), ContractError>(ContractError::Std(e)),
                    Ok(f) => r == Ok::<(Config, Pool), ContractError>(
                        (
                            Config {
                                token_address: t,
                                stake_paused: msg.stake_paused,
                                unstake_paused: msg.unstake_paused,
                                emergency_unstake_paused: msg.emergency_unstake_paused,
                                interest_rate: msg.interest_rate,
                                lock_duration: msg.lock_duration,
                                lock_duration_multiplier: msg.lock_duration_multiplier,
                                emergency_unstake_fee_percentage:
                                    msg.emergency_unstake_fee_percentage,
                                fee_address: f,
                            },
                            Pool { staked_total: 0, stakers_total: 0, reward_balance: 0 },
                        ),
                    ),
                }
            },
        },
{
    let token_address = match token_address {
        Ok(t) => t,
        Err(e) => return Err(ContractError::Std(e)),
    };
    if !token_is_cw20 {
        return Err(ContractError::InvalidCw20 {});
    }
    let fee_address = match fee_address {
        Ok(f) => f,
        Err(e) => return Err(ContractError::Std(e)),
    };
    let config = Config {
        token_address,
        stake_paused: msg.stake_paused,
        unstake_paused: msg.unstake_paused,
        emergency_unstake_paused: msg.emergency_unstake_paused,
        interest_rate: msg.interest_rate,
        lock_duration: msg.lock_duration,
        lock_duration_multiplier: msg.lock_duration_multiplier,
        emergency_unstake_fee_percentage: msg.emergency_unstake_fee_percentage,
        fee_address,
    };
    Ok((config, Pool { staked_total: 0, stakers_total: 0, reward_balance: 0 }))
}

/// Replaces the configuration's terms; only the owner may, the rate may not
/// be zero, and the fee address is taken as the chain validated it.
pub fn execute_update_config(
    owner: &Option<String>,
    sender: &String,
    config: Config,
    stake_paused: bool,
    unstake_paused: bool,
    emergency_unstake_paused: bool,
    interest_rate: u64,
    lock_duration: u64,
    lock_duration_multiplier: u64,
    emergency_unstake_fee_percentage: u64,
    fee_address: Result<String, StdError>,
) -> (r: Result<Config, ContractError>)
    ensures
        match owner_check(*owner, *sender) {
            Err(e) => r == Err::<Config, ContractError>(ContractError::Ownership(e)),
            Ok(_) => if interest_rate == 0 {
                r == Err::<Config, ContractError>(ContractError::InvalidInterestRate {})
            } else {
                match fee_address {
                    Err(e) => r == Err::<Config, ContractError>(ContractError::Std(e)),
                    Ok(f) => r == Ok::<Config, ContractError>(
                        Config {
                            token_address: config.token_address,
                            stake_paused,
                            unstake_paused,
                            emergency_unstake_paused,
                            interest_rate,
                            lock_duration,
                            lock_duration_multiplier,
                            emergency_unstake_fee_percentage,
                            fee_address: f,
                        },
                    ),
                }
            },
        },
{
    if let Err(e) = assert_owner(owner, sender) {
        return Err(ContractError::Ownership(e));
    }
    if interest_rate == 0 {
        return Err(ContractError::InvalidInterestRate {});
    }
    let fee_address = match fee_address {
        Ok(f) => f,
        Err(e) => return Err(ContractError::Std(e)),
    };
    Ok(
        Config {
            token_address: config.token_address,
            stake_paused,
            unstake_paused,
            emergency_unstake_paused,
            interest_rate,
            lock_duration,
            lock_duration_multiplier,
            emergency_unstake_fee_percentage,
            fee_address,
        },
    )
}

/// Only the staked token may be sent to the contract.
pub fn check_received_token(config: &Config, token: &String) -> (r: Result<(), ContractError>)
    ensures
        r == (if token@ == config.token_address@ {
            Ok::<(), ContractError>(())
        } else {
            Err(
                ContractError::InvalidToken {
                    received: *token,
                    expected: config.token_address,
                },
            )
        }),
{
    if token.eq(&config.token_address) {
        Ok(())
    } else {
        Err(
            ContractError::InvalidToken {
                received: token.clone(),
                expected: config.token_address.clone(),
            },
        )
    }
}

/// Adds `amount` received to the tokens set aside for rewards.
pub fn execute_add_tokens(pool: Pool, amount: u128) -> (r: Result<Pool, ContractError>)
    ensures
        r == (if amount == 0 {
            Err::<Pool, ContractError>(ContractError::InvalidAmount {})
        } else if pool.reward_balance + amount > u128::MAX {
            Err(ContractError::Std(StdError::Overflow {}))
        } else {
            Ok(Pool { reward_balance: (pool.reward_balance + amount) as u128, ..pool })
        }),
{
    if amount == 0 {
        return Err(ContractError::InvalidAmount {});
    }
    let mut pool = pool;
    pool.reward_balance = match pool.reward_balance.checked_add(amount) {
        Some(v) => v,
        None => return Err(ContractError::Std(StdError::Overflow {})),
    };
    Ok(pool)
}

/// What staking `amount` at `now` changes: the pool, the staker and the
/// amount staked, which includes the reward earned so far.
pub open spec fn stake_result(c: Config, pool: Pool, s: Staker, amount: u128, now: u64) -> Result<
    (Pool, Staker, int),
    ContractError,
> {
    if c.stake_paused {
        Err(ContractError::StakePaused {})
    } else if amount == 0 {
        Err(ContractError::InvalidAmount {})
    } else {
        let step: Result<(int, int, int), ContractError> = if s.balance > 0 {
            match reward_at(c, s, now) {
                None => Err(ContractError::Overflow {}),
                Some(reward) => if reward > pool.reward_balance {
                    Err(ContractError::InsufficientRewardBalance {})
                } else if amount + reward > u128::MAX {
                    Err(ContractError::Overflow {})
                } else {
                    Ok((amount + reward, pool.reward_balance - reward, pool.stakers_total as int))
                },
            }
        } else if pool.stakers_total + 1 > u128::MAX {
            Err(ContractError::Std(StdError::Overflow {}))
        } else {
            Ok((amount as int, pool.reward_balance as int, pool.stakers_total + 1))
        };
        match step {
            Err(e) => Err(e),
            Ok((staked, rewards, stakers)) => if s.balance + staked > u128::MAX
                || pool.staked_total + staked > u128::MAX {
                Err(ContractError::Std(StdError::Overflow {}))
            } else {
                Ok(
                    (
                        Pool {
                            staked_total: (pool.staked_total + staked) as u128,
                            stakers_total: stakers as u128,
                            reward_balance: rewards as u128,
                        },
                        Staker { balance: (s.balance + staked) as u128, staked_time: Some(now) },
                        staked,
                    ),
                )
            },
        }
    }
}

/// What a successful stake changes.
#[derive(Debug, PartialEq, Eq)]
pub struct StakeOutcome {
    pub pool: Pool,
    pub staker: Staker,
    /// The amount added to the stake: the tokens sent and the reward earned.
    pub amount: u128,
}

/// Stakes `amount` received at `now` (in nanoseconds); a staker who already
/// stakes has the reward earned so far added to the stake, and the reward
/// restarts.
pub fn execute_stake(config: &Config, pool: Pool, staker: Staker, amount: u128, now: u64) -> (r:
    Result<StakeOutcome, ContractError>)
    ensures
        match stake_result(*config, pool, staker, amount, now) {
            Err(e) => r == Err::<StakeOutcome, ContractError>(e),
            Ok((p, s, a)) => r == Ok::<StakeOutcome, ContractError>(
                StakeOutcome { pool: p, staker: s, amount: a as u128 },
            ),
        },
{
    if config.stake_paused {
        return Err(ContractError::StakePaused {});
    }
    if amount == 0 {
        return Err(ContractError::InvalidAmount {});
    }
    let mut pool = pool;
    let mut amount_to_stake = amount;
    if staker.balance > 0 {
        let reward_amount = query_reward_amount(config, &staker, now)?;
        if reward_amount > pool.reward_balance {
            return Err(ContractError::InsufficientRewardBalance {});
        }
        pool.reward_balance = pool.reward_balance - reward_amount;
        amount_to_stake = match amount.checked_add(reward_amount) {
            Some(v) => v,
            None => return Err(ContractError::Overflow {}),
        };
    } else {
        pool.stakers_total = match pool.stakers_total.checked_add(1) {
            Some(v) => v,
            None => return Err(ContractError::Std(StdError::Overflow {})),
        };
    }
    let balance = match staker.balance.checked_add(amount_to_stake) {
        Some(v) => v,
        None => return Err(ContractError::Std(StdError::Overflow {})),
    };
    pool.staked_total = match pool.staked_total.checked_add(amount_to_stake) {
        Some(v) => v,
        None => return Err(ContractError::Std(StdError::Overflow {})),
    };
    Ok(
        StakeOutcome {
            pool,
            staker: Staker { balance, staked_time: Some(now) },
            amount: amount_to_stake,
        },
    )
}

/// The checks on the amount that both kinds of unstake make, in order.
pub open spec fn unstake_refusal(pool: Pool, s: Staker, amount: u128) -> Option<ContractError> {
    if amount == 0 {
        Some(ContractError::InvalidAmount {})
    } else if pool.staked_total == 0 {
        Some(ContractError::NothingStaked {})
    } else if amount > pool.staked_total || amount > s.balance {
        Some(ContractError::ImpossibleUnstake {})
    } else if s.balance == 0 {
        Some(ContractError::NothingStaked {})
    } else {
        None
    }
}

/// What unstaking `amount` at `now` changes: the pool, the staker, the
/// reward paid with it, and the total paid.
pub open spec fn unstake_result(c: Config, pool: Pool, s: Staker, amount: u128, now: u64) -> Result<
    (Pool, Staker, int, int),
    ContractError,
> {
    if c.unstake_paused {
        Err(ContractError::UnstakePaused {})
    } else {
        match unstake_refusal(pool, s, amount) {
            Some(e) => Err(e),
            None => if staked_secs(s) + c.lock_duration > u64::MAX {
                Err(ContractError::Overflow {})
            } else if secs(now) < staked_secs(s) + c.lock_duration {
                Err(ContractError::LockDurationNotPassed {})
            } else if amount == s.balance && pool.stakers_total == 0 {
                Err(ContractError::Std(StdError::Overflow {}))
            } else {
                let staker = Staker { balance: (s.balance - amount) as u128, staked_time: Some(now) };
                let stakers = if amount == s.balance {
                    pool.stakers_total - 1
                } else {
                    pool.stakers_total as int
                };
                match reward_at(c, staker, now) {
                    None => Err(ContractError::Overflow {}),
                    Some(reward) => if reward > pool.reward_balance {
                        Err(ContractError::InsufficientRewardBalance {})
                    } else if amount + reward > u128::MAX {
                        Err(ContractError::Overflow {})
                    } else {
                        Ok(
                            (
                                Pool {
                                    staked_total: (pool.staked_total - amount) as u128,
                                    stakers_total: stakers as u128,
                                    reward_balance: (pool.reward_balance - reward) as u128,
                                },
                                staker,
                                reward,
                                amount + reward,
                            ),
                        )
                    },
                }
            },
        }
    }
}

/// What a successful unstake changes and pays.
#[derive(Debug, PartialEq, Eq)]
pub struct UnstakeOutcome {
    pub pool: Pool,
    pub staker: Staker,
    pub reward_amount: u128,
    pub total_amount: u128,
    pub payouts: Vec<Payout>,
}

/// Unstakes `amount` at `now` (in nanoseconds) once the lock has passed
/// since the reward last restarted, and pays it back with the reward
/// earned after the stake's time is reset.
pub fn execute_unstake(
    config: &Config,
    pool: Pool,
    staker: Staker,
    sender: &String,
    amount: u128,
    now: u64,
) -> (r: Result<UnstakeOutcome, ContractError>)
    ensures
        match unstake_result(*config, pool, staker, amount, now) {
            Err(e) => r == Err::<UnstakeOutcome, ContractError>(e),
            Ok((p, s, reward, total)) => r matches Ok(o) && o.pool == p && o.staker == s
                && o.reward_amount == reward && o.total_amount == total && o.payouts@ == seq![
                Payout::Cw20Transfer {
                    token: config.token_address,
                    recipient: *sender,
                    amount: o.total_amount,
                },
            ],
        },
{
    let prev = match staker.staked_time {
        Some(t) => seconds(t),
        None => 0,
    };
    let user_staked_total = staker.balance;
    if config.unstake_paused {
        return Err(ContractError::UnstakePaused {});
    }
    if amount == 0 {
        return Err(ContractError::InvalidAmount {});
    }
    if pool.staked_total == 0 {
        return Err(ContractError::NothingStaked {});
    }
    if amount > pool.staked_total {
        return Err(ContractError::ImpossibleUnstake {});
    }
    if amount > user_staked_total {
        return Err(ContractError::ImpossibleUnstake {});
    }
    if user_staked_total == 0 {
        return Err(ContractError::NothingStaked {});
    }
    let next_unlock_time = match prev.checked_add(config.lock_duration) {
        Some(v) => v,
        None => return Err(ContractError::Overflow {}),
    };
    if seconds(now) < next_unlock_time {
        return Err(ContractError::LockDurationNotPassed {});
    }
    let mut pool = pool;
    if amount == user_staked_total {
        pool.stakers_total = match pool.stakers_total.checked_sub(1) {
            Some(v) => v,
            None => return Err(ContractError::Std(StdError::Overflow {})),
        };
    }
    let staker = Staker { balance: user_staked_total - amount, staked_time: Some(now) };
    pool.staked_total = pool.staked_total - amount;
    let reward_amount = query_reward_amount(config, &staker, now)?;
    if reward_amount > pool.reward_balance {
        return Err(ContractError::InsufficientRewardBalance {});
    }
    pool.reward_balance = pool.reward_balance - reward_amount;
    let total_amount = match amount.checked_add(reward_amount) {
        Some(v) => v,
        None => return Err(ContractError::Overflow {}),
    };
    let payouts = vec![
        Payout::Cw20Transfer {
            token: config.token_address.clone(),
            recipient: sender.clone(),
            amount: total_amount,
        },
    ];
    Ok(UnstakeOutcome { pool, staker, reward_amount, total_amount, payouts })
}

/// The fee of an emergency unstake of `amount`, or `None` where it
/// overflows.
pub open spec fn emergency_fee(c: Config, amount: u128) -> Option<int> {
    if amount * c.emergency_unstake_fee_percentage > u128::MAX {
        None
    } else {
        Some(amount * c.emergency_unstake_fee_percentage / 10000)
    }
}

/// What an emergency unstake of `amount` changes: the pool, the staker,
/// the fee, and what the staker receives.
pub open spec fn emergency_unstake_result(c: Config, pool: Pool, s: Staker, amount: u128) -> Result<
    (Pool, Staker, int, int),
    ContractError,
> {
    if c.emergency_unstake_paused {
        Err(ContractError::EmergencyUnstakePaused {})
    } else {
        match unstake_refusal(pool, s, amount) {
            Some(e) => Err(e),
            None => if amount == s.balance && pool.stakers_total == 0 {
                Err(ContractError::Std(StdError::Overflow {}))
            } else {
                match emergency_fee(c, amount) {
                    None => Err(ContractError::Overflow {}),
                    Some(fee) => if fee > amount {
                        Err(ContractError::InvalidAmount {})
                    } else {
                        Ok(
                            (
                                Pool {
                                    staked_total: (pool.staked_total - amount) as u128,
                                    stakers_total: (if amount == s.balance {
                                        pool.stakers_total - 1
                                    } else {
                                        pool.stakers_total as int
                                    }) as u128,
                                    ..pool
                                },
                                Staker { balance: (s.balance - amount) as u128, ..s },
                                fee,
                                amount - fee,
                            ),
                        )
                    },
                }
            },
        }
    }
}

/// What a successful emergency unstake changes and pays.
#[derive(Debug, PartialEq, Eq)]
pub struct EmergencyUnstakeOutcome {
    pub pool: Pool,
    pub staker: Staker,
    pub fee_amount: u128,
    pub amount_after_fee: u128,
    pub payouts: Vec<Payout>,
}

/// Unstakes `amount` at once, before the lock has passed and without a
/// reward; the fee goes to the fee address.
pub fn execute_emergency_unstake(
    config: &Config,
    pool: Pool,
    staker: Staker,
    sender: &String,
    amount: u128,
) -> (r: Result<EmergencyUnstakeOutcome, ContractError>)
    ensures
        match emergency_unstake_result(*config, pool, staker, amount) {
            Err(e) => r == Err::<EmergencyUnstakeOutcome, ContractError>(e),
            Ok((p, s, fee, rest)) => r matches Ok(o) && o.pool == p && o.staker == s
                && o.fee_amount == fee && o.amount_after_fee == rest && o.payouts@ == seq![
                Payout::Cw20Transfer {
                    token: config.token_address,
                    recipient: *sender,
                    amount: o.amount_after_fee,
                },
                Payout::Cw20Transfer {
                    token: config.token_address,
                    recipient: config.fee_address,
                    amount: o.fee_amount,
                },
            ],
        },
{
    let user_staked_total = staker.balance;
    if config.emergency_unstake_paused {
        return Err(ContractError::EmergencyUnstakePaused {});
    }
    if amount == 0 {
        return Err(ContractError::InvalidAmount {});
    }
    if pool.staked_total == 0 {
        return Err(ContractError::NothingStaked {});
    }
    if amount > pool.staked_total {
        return Err(ContractError::ImpossibleUnstake {});
    }
    if amount > user_staked_total {
        return Err(ContractError::ImpossibleUnstake {});
    }
    if user_staked_total == 0 {
        return Err(ContractError::NothingStaked {});
    }
    let mut pool = pool;
    if amount == user_staked_total {
        pool.stakers_total = match pool.stakers_total.checked_sub(1) {
            Some(v) => v,
            None => return Err(ContractError::Std(StdError::Overflow {})),
        };
    }
    let fee_amount = match amount.checked_mul(config.emergency_unstake_fee_percentage as u128) {
        Some(v) => v / BASIS_POINTS,
        None => return Err(ContractError::Overflow {}),
    };
    let amount_after_fee = match amount.checked_sub(fee_amount) {
        Some(v) => v,
        None => return Err(ContractError::InvalidAmount {}),
    };
    let staker = Staker { balance: user_staked_total - amount, staked_time: staker.staked_time };
    pool.staked_total = pool.staked_total - amount;
    let payouts = vec![
        Payout::Cw20Transfer {
            token: config.token_address.clone(),
            recipient: sender.clone(),
            amount: amount_after_fee,
        },
        Payout::Cw20Transfer {
            token: config.token_address.clone(),
            recipient: config.fee_address.clone(),
            amount: fee_amount,
        },
    ];
    Ok(EmergencyUnstakeOutcome { pool, staker, fee_amount, amount_after_fee, payouts })
}

/// What harvesting at `now` changes: the pool, the staker and the reward
/// paid.
pub open spec fn harvest_result(c: Config, pool: Pool, s: Staker, now: u64) -> Result<
    (Pool, Staker, int),
    ContractError,
> {
    if s.balance == 0 {
        Err(ContractError::NothingStaked {})
    } else {
        match reward_at(c, s, now) {
            None => Err(ContractError::Overflow {}),
            Some(reward) => if reward == 0 {
                Err(ContractError::NoRewardsToHarvest {})
            } else if pool.reward_balance < reward {
                Err(ContractError::InsufficientRewardBalance {})
            } else {
                Ok(
                    (
                        Pool { reward_balance: (pool.reward_balance - reward) as u128, ..pool },
                        Staker { staked_time: Some(now), ..s },
                        reward,
                    ),
                )
            },
        }
    }
}

/// What a successful harvest changes and pays.
#[derive(Debug, PartialEq, Eq)]
pub struct HarvestOutcome {
    pub pool: Pool,
    pub staker: Staker,
    pub reward_amount: u128,
    pub payouts: Vec<Payout>,
}

/// Pays the staker the reward earned at `now` (in nanoseconds); the reward
/// restarts.
pub fn execute_harvest(config: &Config, pool: Pool, staker: Staker, sender: &String, now: u64) -> (r:
    Result<HarvestOutcome, ContractError>)
    ensures
        match harvest_result(*config, pool, staker, now) {
            Err(e) => r == Err::<HarvestOutcome, ContractError>(e),
            Ok((p, s, reward)) => r matches Ok(o) && o.pool == p && o.staker == s
                && o.reward_amount == reward && o.payouts@ == seq![
                Payout::Cw20Transfer {
                    token: config.token_address,
                    recipient: *sender,
                    amount: o.reward_amount,
                },
            ],
        },
{
    if staker.balance == 0 {
        return Err(ContractError::NothingStaked {});
    }
    let reward_amount = query_reward_amount(config, &staker, now)?;
    if reward_amount == 0 {
        return Err(ContractError::NoRewardsToHarvest {});
    }
    let staker = Staker { balance: staker.balance, staked_time: Some(now) };
    if pool.reward_balance < reward_amount {
        return Err(ContractError::InsufficientRewardBalance {});
    }
    let mut pool = pool;
    pool.reward_balance = pool.reward_balance - reward_amount;
    let payouts = vec![
        Payout::Cw20Transfer {
            token: config.token_address.clone(),
            recipient: sender.clone(),
            amount: reward_amount,
        },
    ];
    Ok(HarvestOutcome { pool, staker, reward_amount, payouts })
}

/// What reinvesting at `now` changes: the pool, the staker and the reward
/// added to the stake.
pub open spec fn reinvest_result(c: Config, pool: Pool, s: Staker, now: u64) -> Result<
    (Pool, Staker, int),
    ContractError,
> {
    if s.balance == 0 {
        Err(ContractError::NothingStaked {})
    } else {
        match reward_at(c, s, now) {
            None => Err(ContractError::Overflow {}),
            Some(reward) => if reward == 0 {
                Err(ContractError::NoRewardsToReInvest {})
            } else if s.balance + reward > u128::MAX || pool.staked_total + reward > u128::MAX
                || pool.reward_balance < reward {
                Err(ContractError::Std(StdError::Overflow {}))
            } else {
                Ok(
                    (
                        Pool {
                            staked_total: (pool.staked_total + reward) as u128,
                            reward_balance: (pool.reward_balance - reward) as u128,
                            ..pool
                        },
                        Staker { balance: (s.balance + reward) as u128, staked_time: Some(now) },
                        reward,
                    ),
                )
            },
        }
    }
}

/// What a successful reinvestment changes.
#[derive(Debug, PartialEq, Eq)]
pub struct ReinvestOutcome {
    pub pool: Pool,
    pub staker: Staker,
    pub reward_amount: u128,
}

/// Adds the reward earned at `now` (in nanoseconds) to the stake; the
/// reward restarts.
pub fn execute_reinvest(config: &Config, pool: Pool, staker: Staker, now: u64) -> (r: Result<
    ReinvestOutcome,
    ContractError,
>)
    ensures
        match reinvest_result(*config, pool, staker, now) {
            Err(e) => r == Err::<ReinvestOutcome, ContractError>(e),
            Ok((p, s, reward)) => r == Ok::<ReinvestOutcome, ContractError>(
                ReinvestOutcome { pool: p, staker: s, reward_amount: reward as u128 },
            ),
        },
{
    if staker.balance == 0 {
        return Err(ContractError::NothingStaked {});
    }
    let reward_amount = query_reward_amount(config, &staker, now)?;
    if reward_amount == 0 {
        return Err(ContractError::NoRewardsToReInvest {});
    }
    let balance = match staker.balance.checked_add(reward_amount) {
        Some(v) => v,
        None => return Err(ContractError::Std(StdError::Overflow {})),
    };
    let mut pool = pool;
    pool.staked_total = match pool.staked_total.checked_add(reward_amount) {
        Some(v) => v,
        None => return Err(ContractError::Std(StdError::Overflow {})),
    };
    pool.reward_balance = match pool.reward_balance.checked_sub(reward_amount) {
        Some(v) => v,
        None => return Err(ContractError::Std(StdError::Overflow {})),
    };
    Ok(
        ReinvestOutcome {
            pool,
            staker: Staker { balance, staked_time: Some(now) },
            reward_amount,
        },
    )
}

/// What a withdrawal pays the owner.
#[derive(Debug, PartialEq, Eq)]
pub struct WithdrawOutcome {
    pub amount: u128,
    pub payouts: Vec<Payout>,
}

/// Pays the owner all tokens the pool holds, staked and set aside for
/// rewards; the pool's records are left as they are.
pub fn execute_withdraw(owner: &Option<String>, sender: &String, config: &Config, pool: &Pool) -> (r:
    Result<WithdrawOutcome, ContractError>)
    ensures
        match owner_check(*owner, *sender) {
            Err(e) => r == Err::<WithdrawOutcome, ContractError>(ContractError::Ownership(e)),
            Ok(_) => if pool.staked_total + pool.reward_balance > u128::MAX {
                r == Err::<WithdrawOutcome, ContractError>(ContractError::Overflow {})
            } else {
                r matches Ok(o) && o.amount == pool.staked_total + pool.reward_balance
                    && o.payouts@ == seq![
                    Payout::Cw20Transfer {
                        token: config.token_address,
                        recipient: *sender,
                        amount: o.amount,
                    },
                ]
            },
        },
{
    if let Err(e) = assert_owner(owner, sender) {
        return Err(ContractError::Ownership(e));
    }
    let amount = match pool.staked_total.checked_add(pool.reward_balance) {
        Some(v) => v,
        None => return Err(ContractError::Overflow {}),
    };
    let payouts = vec![
        Payout::Cw20Transfer {
            token: config.token_address.clone(),
            recipient: sender.clone(),
            amount,
        },
    ];
    Ok(WithdrawOutcome { amount, payouts })
}

/// The value of a stake: nothing while the pool is empty.
pub fn query_staked_value(staked: u128, total: u128) -> (r: GetStakedValueResponse)
    ensures
        r.value == (if staked == 0 || total == 0 {
            0
        } else {
            staked
        }),
{
    if staked == 0 || total == 0 {
        GetStakedValueResponse { value: 0 }
    } else {
        GetStakedValueResponse { value: staked }
    }
}

/// When the reward last restarted, in nanoseconds; `now` for one who never
/// staked.
pub fn query_staked_time(staker: &Staker, now: u64) -> (r: GetStakedTimeResponse)
    ensures
        r.stake_time == (match staker.staked_time {
            Some(t) => t,
            None => now,
        }),
{
    GetStakedTimeResponse { stake_time: staker.staked_time.unwrap_or(now) }
}

/// When the stake unlocks, in nanoseconds: the lock after the reward last
/// restarted, or after `now` for one who never staked.
pub fn query_next_unlock_time(config: &Config, staker: &Staker, now: u64) -> (r: Result<
    GetNextUnlockTimeResponse,
    ContractError,
>)
    ensures
        ({
            let start = match staker.staked_time {
                Some(t) => secs(t),
                None => secs(now),
            };
            let unlock = (start + config.lock_duration) * 1_000_000_000;
            if unlock > u64::MAX {
                r == Err::<GetNextUnlockTimeResponse, ContractError>(ContractError::Overflow {})
            } else {
                r == Ok::<GetNextUnlockTimeResponse, ContractError>(
                    GetNextUnlockTimeResponse { next_unlock_time: unlock as u64 },
                )
            }
        }),
{
    let start = seconds(staker.staked_time.unwrap_or(now));
    let unlock_secs = match start.checked_add(config.lock_duration) {
        Some(v) => v,
        None => return Err(ContractError::Overflow {}),
    };
    match unlock_secs.checked_mul(1_000_000_000) {
        Some(v) => Ok(GetNextUnlockTimeResponse { next_unlock_time: v }),
        None => Err(ContractError::Overflow {}),
    }
}

// ---------------------------------------------------------------------
// Laws
// ---------------------------------------------------------------------

/// Tokens the pool holds: the stakes and the tokens set aside for rewards.
pub open spec fn held(p: Pool) -> int {
    p.staked_total + p.reward_balance
}

proof fn lemma_reward_for_zero_duration(c: Config, balance: int)
    ensures
        reward_for(c, balance, 0) == 0,
{
    assert(balance * 0 == 0) by (nonlinear_arith);
    assert(0 * (c.interest_rate as int) == 0) by (nonlinear_arith);
    assert(0 * (c.lock_duration_multiplier as int) == 0) by (nonlinear_arith);
}

/// Staking moves the staker's stake and the pool's total by the same
/// amount, the tokens sent plus the reward earned; the reward comes out of
/// the tokens set aside, so the pool holds exactly the tokens sent more.
pub proof fn lemma_stake_keeps_books(c: Config, pool: Pool, s: Staker, amount: u128, now: u64)
    requires
        stake_result(c, pool, s, amount, now) is Ok,
    ensures
        ({
            let (p, s2, staked) = stake_result(c, pool, s, amount, now)->Ok_0;
            &&& p.staked_total - s2.balance == pool.staked_total - s.balance
            &&& s2.balance == s.balance + staked
            &&& staked >= amount
            &&& held(p) == held(pool) + amount
        }),
{
}

/// Unstaking never pays a reward: the stake's time is reset before the
/// reward is reckoned, so the staker receives exactly the amount unstaked,
/// and the stake and the pool's total fall by it.
pub proof fn lemma_unstake_pays_no_reward(c: Config, pool: Pool, s: Staker, amount: u128, now: u64)
    requires
        unstake_result(c, pool, s, amount, now) is Ok,
    ensures
        ({
            let (p, s2, reward, total) = unstake_result(c, pool, s, amount, now)->Ok_0;
            &&& reward == 0
            &&& total == amount
            &&& s2.balance == s.balance - amount
            &&& p.staked_total - s2.balance == pool.staked_total - s.balance
            &&& held(p) == held(pool) - total
        }),
{
    lemma_reward_for_zero_duration(c, s.balance - amount);
}

/// An emergency unstake takes the amount out of the stake and the pool's
/// total; what the staker receives and the fee together make the amount.
pub proof fn lemma_emergency_unstake_keeps_books(c: Config, pool: Pool, s: Staker, amount: u128)
    requires
        emergency_unstake_result(c, pool, s, amount) is Ok,
    ensures
        ({
            let (p, s2, fee, rest) = emergency_unstake_result(c, pool, s, amount)->Ok_0;
            &&& s2.balance == s.balance - amount
            &&& p.staked_total - s2.balance == pool.staked_total - s.balance
            &&& fee + rest == amount
            &&& 0 <= fee
            &&& held(p) == held(pool) - (fee + rest)
        }),
{
    assert(amount * c.emergency_unstake_fee_percentage >= 0) by (nonlinear_arith);
}

/// A harvest pays out exactly what leaves the tokens set aside; the stake
/// does not change.
pub proof fn lemma_harvest_keeps_books(c: Config, pool: Pool, s: Staker, now: u64)
    requires
        harvest_result(c, pool, s, now) is Ok,
    ensures
        ({
            let (p, s2, reward) = harvest_result(c, pool, s, now)->Ok_0;
            &&& s2.balance == s.balance
            &&& p.staked_total == pool.staked_total
            &&& held(p) == held(pool) - reward
        }),
{
}

/// Reinvesting moves the reward from the tokens set aside into the stake:
/// the pool holds as much as before.
pub proof fn lemma_reinvest_keeps_books(c: Config, pool: Pool, s: Staker, now: u64)
    requires
        reinvest_result(c, pool, s, now) is Ok,
    ensures
        ({
            let (p, s2, reward) = reinvest_result(c, pool, s, now)->Ok_0;
            &&& s2.balance == s.balance + reward
            &&& p.staked_total - s2.balance == pool.staked_total - s.balance
            &&& held(p) == held(pool)
        }),
{
}

/// A harvest restarts the reward: harvesting again at the same moment finds
/// nothing to harvest.
pub proof fn lemma_harvest_restarts_reward(c: Config, pool: Pool, s: Staker, now: u64)
    requires
        harvest_result(c, pool, s, now) is Ok,
    ensures
        ({
            let (p, s2, reward) = harvest_result(c, pool, s, now)->Ok_0;
            harvest_result(c, p, s2, now) == Err::<(Pool, Staker, int), ContractError>(
                ContractError::NoRewardsToHarvest {},
            )
        }),
{
    lemma_reward_for_zero_duration(c, s.balance as int);
}

/// Reinvesting restarts the reward: reinvesting again at the same moment
/// finds nothing to reinvest.
pub proof fn lemma_reinvest_restarts_reward(c: Config, pool: Pool, s: Staker, now: u64)
    requires
        reinvest_result(c, pool, s, now) is Ok,
    ensures
        ({
            let (p, s2, reward) = reinvest_result(c, pool, s, now)->Ok_0;
            reinvest_result(c, p, s2, now) == Err::<(Pool, Staker, int), ContractError>(
                ContractError::NoRewardsToReInvest {},
            )
        }),
{
    let (p, s2, reward) = reinvest_result(c, pool, s, now)->Ok_0;
    lemma_reward_for_zero_duration(c, s2.balance as int);
}

/// The reward grows with the time staked and with the stake: as long as
/// the larger of two rewards is reckoned without overflow, a smaller stake
/// held for a shorter time earns no more.
pub proof fn lemma_reward_grows(c: Config, b1: int, d1: int, b2: int, d2: int)
    requires
        0 <= b1 <= b2,
        0 <= d1 <= d2,
        b2 * d2 * c.interest_rate <= u128::MAX,
        (b2 * d2 * c.interest_rate / (REWARD_DIVISOR as int)) * c.lock_duration_multiplier
            <= u128::MAX,
    ensures
        0 <= reward_for(c, b1, d1) <= reward_for(c, b2, d2),
{
    let r = c.interest_rate as int;
    let m = c.lock_duration_multiplier as int;
    assert(0 <= b1 * d1 <= b2 * d2) by (nonlinear_arith)
        requires
            0 <= b1 <= b2,
            0 <= d1 <= d2,
    ;
    if r == 0 {
        // nothing accrues at a zero rate
        assert(mul_or_zero(b1, d1) * r == 0) by (nonlinear_arith)
            requires
                r == 0,
        ;
        assert(mul_or_zero(b2, d2) * r == 0) by (nonlinear_arith)
            requires
                r == 0,
        ;
        assert(0 * m == 0) by (nonlinear_arith);
    } else {
        assert(0 <= b1 * d1 * r <= b2 * d2 * r) by (nonlinear_arith)
            requires
                0 <= b1 * d1 <= b2 * d2,
                r >= 0,
        ;
        assert(b2 * d2 <= b2 * d2 * r) by (nonlinear_arith)
            requires
                b2 * d2 >= 0,
                r >= 1,
        ;
        let base1 = b1 * d1 * r / (REWARD_DIVISOR as int);
        let base2 = b2 * d2 * r / (REWARD_DIVISOR as int);
        vstd::arithmetic::div_mod::lemma_div_is_ordered(
            b1 * d1 * r,
            b2 * d2 * r,
            REWARD_DIVISOR as int,
        );
        vstd::arithmetic::div_mod::lemma_div_pos_is_pos(b1 * d1 * r, REWARD_DIVISOR as int);
        assert(0 <= base1 * m <= base2 * m) by (nonlinear_arith)
            requires
                0 <= base1 <= base2,
                m >= 0,
        ;
        vstd::arithmetic::div_mod::lemma_div_is_ordered(base1 * m, base2 * m, 10000);
        vstd::arithmetic::div_mod::lemma_div_pos_is_pos(base1 * m, 10000);
        assert(mul_or_zero(b1, d1) == b1 * d1);
        assert(mul_or_zero(b2, d2) == b2 * d2);
        assert(mul_or_zero(b1 * d1, r) == b1 * d1 * r);
        assert(mul_or_zero(b2 * d2, r) == b2 * d2 * r);
    }
}

/// A stake adds the tokens sent to the staker's stake and the pool's total;
/// a staker who already stakes also has the reward earned since the stake
/// last restarted compounded into the stake, and that reward leaves the
/// tokens set aside for rewards; a new staker is counted once more. Either
/// way the reward restarts at the moment of staking.
pub proof fn lemma_stake_compounds_reward(c: Config, pool: Pool, s: Staker, amount: u128, now: u64)
    requires
        stake_result(c, pool, s, amount, now) is Ok,
    ensures
        ({
            let (p, s2, staked) = stake_result(c, pool, s, amount, now)->Ok_0;
            let earned = reward_for(c, s.balance as int, secs(now) - staked_secs(s));
            &&& s.balance > 0 ==> secs(now) >= staked_secs(s) && staked == amount + earned
                && p.reward_balance == pool.reward_balance - earned && p.stakers_total
                == pool.stakers_total
            &&& s.balance == 0 ==> staked == amount && p.reward_balance == pool.reward_balance
                && p.stakers_total == pool.stakers_total + 1
            &&& s2.balance == s.balance + staked
            &&& p.staked_total == pool.staked_total + staked
            &&& s2.staked_time == Some(now)
        }),
{
}

/// An unstake after the lock takes the amount out of the stake and the
/// pool's total, and stops counting the staker exactly when nothing is left
/// of its stake; a partial unstake leaves the count of stakers alone.
pub proof fn lemma_unstake_counts_stakers(c: Config, pool: Pool, s: Staker, amount: u128, now: u64)
    requires
        unstake_result(c, pool, s, amount, now) is Ok,
    ensures
        ({
            let (p, s2, reward, total) = unstake_result(c, pool, s, amount, now)->Ok_0;
            &&& 0 < amount <= s.balance
            &&& secs(now) >= staked_secs(s) + c.lock_duration
            &&& s2.balance == s.balance - amount
            &&& p.staked_total == pool.staked_total - amount
            &&& p.stakers_total == pool.stakers_total - (if amount == s.balance {
                1int
            } else {
                0int
            })
            &&& (amount < s.balance ==> p.stakers_total == pool.stakers_total)
            &&& p.reward_balance == pool.reward_balance - reward
            &&& total == amount + reward
        }),
{
}

/// An emergency unstake takes the amount out of the stake and the pool's
/// total, keeps the fee (the fee percentage of the amount, in basis points)
/// and stops counting the staker exactly when nothing is left of its
/// stake.
pub proof fn lemma_emergency_unstake_counts_stakers(c: Config, pool: Pool, s: Staker, amount: u128)
    requires
        emergency_unstake_result(c, pool, s, amount) is Ok,
    ensures
        ({
            let (p, s2, fee, rest) = emergency_unstake_result(c, pool, s, amount)->Ok_0;
            &&& 0 < amount <= s.balance
            &&& s2.balance == s.balance - amount
            &&& s2.staked_time == s.staked_time
            &&& p.staked_total == pool.staked_total - amount
            &&& p.stakers_total == pool.stakers_total - (if amount == s.balance {
                1int
            } else {
                0int
            })
            &&& p.reward_balance == pool.reward_balance
            &&& fee == amount * c.emergency_unstake_fee_percentage / 10000
            &&& rest == amount - fee
        }),
{
}

/// A harvest pays exactly the reward earned since the stake last
/// restarted, which leaves the tokens set aside for rewards; nothing is
/// harvested when nothing was earned.
pub proof fn lemma_harvest_pays_earned_reward(c: Config, pool: Pool, s: Staker, now: u64)
    requires
        harvest_result(c, pool, s, now) is Ok,
    ensures
        ({
            let (p, s2, reward) = harvest_result(c, pool, s, now)->Ok_0;
            &&& s.balance > 0
            &&& secs(now) >= staked_secs(s)
            &&& reward == reward_for(c, s.balance as int, secs(now) - staked_secs(s))
            &&& reward > 0
            &&& p.reward_balance == pool.reward_balance - reward
            &&& p.stakers_total == pool.stakers_total
            &&& s2.staked_time == Some(now)
        }),
{
}

/// Reinvesting adds exactly the reward earned since the stake last
/// restarted to the stake and the pool's total, out of the tokens set
/// aside for rewards.
pub proof fn lemma_reinvest_adds_earned_reward(c: Config, pool: Pool, s: Staker, now: u64)
    requires
        reinvest_result(c, pool, s, now) is Ok,
    ensures
        ({
            let (p, s2, reward) = reinvest_result(c, pool, s, now)->Ok_0;
            &&& s.balance > 0
            &&& secs(now) >= staked_secs(s)
            &&& reward == reward_for(c, s.balance as int, secs(now) - staked_secs(s))
            &&& reward > 0
            &&& s2.balance == s.balance + reward
            &&& p.staked_total == pool.staked_total + reward
            &&& p.reward_balance == pool.reward_balance - reward
            &&& p.stakers_total == pool.stakers_total
            &&& s2.staked_time == Some(now)
        }),
{
}

} // verus!
