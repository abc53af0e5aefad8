//! The vesting contract: buyers of a sale are whitelisted with the tokens
//! they bought, may ask for a refund during a grace period, and claim their
//! tokens as they vest: a share unlocks at the start, the rest in equal
//! steps after the cliff.
use vstd::prelude::*;
use crate::common::{StdError, OwnershipError, Payout, Coin, copy_std_error, owner_check, assert_owner, pow_spec, checked_pow10};

verus! {

/// Basis points in one whole: percentages are kept in hundredths of a percent.
pub const BASIS_POINTS: u128 = 10000;

/// The vesting schedule and the sale's terms.
#[derive(Debug, PartialEq, Eq, Clone)]
pub struct Config {
    /// The native denomination of the vested token.
    pub denom: String,
    pub fee_address: String,
    pub total_token_on_sale: u128,
    /// Seconds after `start` during which a buyer may ask for a refund.
    pub grace_period: u64,
    /// The platform's fee, scaled by `10^decimals`.
    pub platform_fee: u128,
    pub decimals: u8,
    /// Vesting start, in seconds.
    pub start: u64,
    /// End of the cliff, in seconds.
    pub cliff: u64,
    /// Seconds between two unlocks.
    pub duration: u64,
    /// The share that unlocks at the start, in basis points.
    pub initial_unlock_percent: u16,
    /// The number of unlocks after the cliff.
    pub linear_vesting_count: u16,
}

/// What a wallet is owed and what it has received.
#[derive(Debug, PartialEq, Eq, Clone)]
pub struct WhitelistInfo {
    pub wallet: String,
    pub join_date: u64,
    pub amount: u128,
    pub distributed_amount: u128,
}

/// A wallet's purchase under one sale tag.
#[derive(Debug, PartialEq, Eq, Clone)]
pub struct UserInfo {
    pub refunded: bool,
    pub refund_date: Option<u64>,
    pub payment_amount: u128,
    pub token_amount: u128,
    /// The refund fee, scaled by `10^decimals`.
    pub refund_fee: u128,
}

#[derive(Debug, PartialEq, Eq, Clone)]
pub struct Statistics {
    pub total_vested_token: u128,
    pub total_returned_token: u128,
}

impl Default for Config {
    fn default() -> (r: Self)
        ensures
            r.denom@ == Seq::<char>::empty(),
            r.fee_address@ == Seq::<char>::empty(),
            r.total_token_on_sale == 0,
            r.grace_period == 0,
            r.platform_fee == 0,
            r.decimals == 0,
            r.start == 0,
            r.cliff == 0,
            r.duration == 0,
            r.initial_unlock_percent == 0,
            r.linear_vesting_count == 0,
    {
        Config {
            denom: String::new(),
            fee_address: String::new(),
            total_token_on_sale: 0,
            grace_period: 0,
            platform_fee: 0,
            decimals: 0,
            start: 0,
            cliff: 0,
            duration: 0,
            initial_unlock_percent: 0,
            linear_vesting_count: 0,
        }
    }
}

impl Default for WhitelistInfo {
    fn default() -> (r: Self)
        ensures
            r.wallet@ == Seq::<char>::empty(),
            r.join_date == 0,
            r.amount == 0,
            r.distributed_amount == 0,
    {
        WhitelistInfo { wallet: String::new(), join_date: 0, amount: 0, distributed_amount: 0 }
    }
}

impl Default for UserInfo {
    fn default() -> (r: Self)
        ensures
            !r.refunded,
            r.refund_date is None,
            r.payment_amount == 0,
            r.token_amount == 0,
            r.refund_fee == 0,
    {
        UserInfo {
            refunded: false,
            refund_date: None,
            payment_amount: 0,
            token_amount: 0,
            refund_fee: 0,
        }
    }
}

impl Default for Statistics {
    fn default() -> (r: Self)
        ensures
            r.total_vested_token == 0,
            r.total_returned_token == 0,
    {
        Statistics { total_vested_token: 0, total_returned_token: 0 }
    }
}

/// The errors of the vesting contract.
#[derive(Debug, PartialEq, Eq)]
pub enum ContractError {
    Std(StdError),
    Ownership(OwnershipError),
    QueryError { msg: String },
    Unauthorized {},
    VestingAlreadyStarted {},
    InvalidToken {},
    NotInGracePeriod {},
    UserAlreadyRefunded {},
    UserAlreadyClaimed {},
    GracePeriodInProgress {},
    NoTokensToClaim {},
    MismatchedArrayLengths {},
    CustomError { val: String },
    InvalidVestingSchedule {},
    InsufficientFunds {},
    VestingNotStarted {},
    VestingPeriodEnded {},
    InvalidWhitelistEntry {},
    UserNotWhitelisted {},
    AmountExceedsAllowance {},
    InvalidPaymentToken {},
    RefundPeriodEnded {},
    InvalidRefundFee {},
    ContractPaused {},
    InvalidClaimAmount {},
    HookAlreadyExists {},
    HookDoesNotExist {},
    NoFundsToClaim {},
    CliffPeriodNotEnded {},
    InvalidDenom {},
    /// Arithmetic that the contract cannot carry out (an overflow, an
    /// underflow or a division by zero): the chain aborts the transaction.
    Overflow {},
}

// ---------------------------------------------------------------------
// The schedule
// ---------------------------------------------------------------------

/// The share of `total` that unlocks at the start.
pub open spec fn initial_of(c: Config, total: int) -> int {
    total * c.initial_unlock_percent / 10000
}

/// Where the linear part of the schedule starts: the later of start and cliff.
pub open spec fn vesting_start_of(c: Config) -> int {
    if c.cliff > c.start {
        c.cliff as int
    } else {
        c.start as int
    }
}

/// The length of the linear part.
pub open spec fn span_of(c: Config) -> int {
    c.duration * c.linear_vesting_count
}

pub open spec fn vesting_end_of(c: Config) -> int {
    vesting_start_of(c) + span_of(c)
}

/// Whole unlock steps completed at time `t` of the linear part.
pub open spec fn steps_of(c: Config, t: int) -> int {
    (t - vesting_start_of(c)) / (c.duration as int)
}

/// The part of the linear schedule vested at `t`: nothing more unlocks
/// between two steps.
pub open spec fn linear_vested(c: Config, total: int, t: int) -> int {
    let initial = initial_of(c, total);
    let remaining = total - initial;
    if t >= vesting_end_of(c) {
        total
    } else if t <= vesting_start_of(c) {
        initial
    } else {
        let vested = initial + remaining * (c.duration * steps_of(c, t)) / span_of(c);
        if vested < total {
            vested
        } else {
            total
        }
    }
}

/// The linear schedule can be computed at `t` without overflow.
pub open spec fn linear_fits(c: Config, total: int, t: int) -> bool {
    let initial = initial_of(c, total);
    &&& total * c.initial_unlock_percent <= u128::MAX
    &&& initial <= total
    &&& span_of(c) <= u64::MAX
    &&& vesting_end_of(c) <= u64::MAX
    &&& (vesting_start_of(c) < t < vesting_end_of(c) ==> (total - initial) * (c.duration * steps_of(
        c,
        t,
    )) <= u128::MAX)
}

/// The tokens out of `total` vested at time `t` (in seconds).
pub open spec fn vested(c: Config, total: int, t: int) -> int {
    if t < c.start {
        0
    } else if c.cliff <= c.start || t >= c.cliff {
        linear_vested(c, total, t)
    } else {
        initial_of(c, total)
    }
}

/// The vested amount can be computed at `t` without overflow.
pub open spec fn vested_fits(c: Config, total: int, t: int) -> bool {
    &&& total * c.initial_unlock_percent <= u128::MAX
    &&& (t >= c.start && (c.cliff <= c.start || t >= c.cliff)) ==> linear_fits(c, total, t)
}

proof fn lemma_div_mul_bounds(a: int, x: int, y: int)
    requires
        a >= 0,
        0 <= x <= y,
        y > 0,
    ensures
        0 <= a * x / y <= a,
{
    assert(a * x <= a * y) by (nonlinear_arith)
        requires
            a >= 0,
            0 <= x <= y,
    ;
    assert(a * y / y == a) by (nonlinear_arith)
        requires
            y > 0,
    ;
    assert(0 <= a * x) by (nonlinear_arith)
        requires
            a >= 0,
            x >= 0,
    ;
    vstd::arithmetic::div_mod::lemma_div_is_ordered(a * x, a * y, y);
    vstd::arithmetic::div_mod::lemma_div_pos_is_pos(a * x, y);
}

/// Vested amount of the linear part of the schedule (the cliff has passed).
pub fn calculate_linear_vesting(config: &Config, total_amount: u128, current_time: u64) -> (r: Result<
    u128,
    ContractError,
>)
    ensures
        r == (if linear_fits(*config, total_amount as int, current_time as int) {
            Ok::<u128, ContractError>(
                linear_vested(*config, total_amount as int, current_time as int) as u128,
            )
        } else {
            Err(ContractError::Overflow {})
        }),
{
    let ghost c = *config;
    let ghost total = total_amount as int;
    let ghost t = current_time as int;
    let scaled = match total_amount.checked_mul(config.initial_unlock_percent as u128) {
        Some(v) => v,
        None => return Err(ContractError::Overflow {}),
    };
    let initial = scaled / BASIS_POINTS;
    assert(initial as int == initial_of(c, total));
    if initial > total_amount {
        return Err(ContractError::Overflow {});
    }
    let remaining = total_amount - initial;
    let vesting_start = if config.cliff > config.start {
        config.cliff
    } else {
        config.start
    };
    let span = match config.duration.checked_mul(config.linear_vesting_count as u64) {
        Some(v) => v,
        None => return Err(ContractError::Overflow {}),
    };
    let vesting_end = match vesting_start.checked_add(span) {
        Some(v) => v,
        None => return Err(ContractError::Overflow {}),
    };
    assert(span as int == span_of(c));
    assert(vesting_end as int == vesting_end_of(c));
    if current_time >= vesting_end {
        Ok(total_amount)
    } else if current_time <= vesting_start {
        Ok(initial)
    } else {
        let time_passed = current_time - vesting_start;
        let total_vesting_time = vesting_end - vesting_start;
        let step_duration = config.duration;
        // The linear part is not empty, so neither is a step.
        assert(step_duration > 0) by {
            if step_duration == 0 {
                assert(span_of(c) == 0) by (nonlinear_arith)
                    requires
                        c.duration == 0,
                ;
            }
        }
        let steps_passed = time_passed / step_duration;
        assert(steps_passed as int == steps_of(c, t));
        // `time_passed < span`, so fewer steps than unlocks have passed.
        assert(step_duration * steps_passed <= time_passed) by (nonlinear_arith)
            requires
                steps_passed == time_passed / step_duration,
                step_duration > 0,
        ;
        assert(time_passed < step_duration * (steps_passed + 1)) by (nonlinear_arith)
            requires
                steps_passed == time_passed / step_duration,
                step_duration > 0,
        ;
        assert(step_duration * (steps_passed + 1) <= span) by (nonlinear_arith)
            requires
                step_duration * steps_passed <= time_passed,
                time_passed < span,
                span == step_duration * config.linear_vesting_count,
                step_duration > 0,
                steps_passed >= 0,
        ;
        assert(step_duration * (steps_passed + 1) == step_duration * steps_passed + step_duration)
            by (nonlinear_arith);
        let elapsed_steps = step_duration * steps_passed;
        let next_step = step_duration * steps_passed + step_duration;
        if current_time < vesting_start + next_step {
            let previous_time = vesting_start + elapsed_steps;
            let product = match remaining.checked_mul((previous_time - vesting_start) as u128) {
                Some(v) => v,
                None => return Err(ContractError::Overflow {}),
            };
            let previous_vested_remaining = product / (total_vesting_time as u128);
            proof {
                lemma_div_mul_bounds(
                    remaining as int,
                    elapsed_steps as int,
                    total_vesting_time as int,
                );
            }
            let vested = initial + previous_vested_remaining;
            Ok(
                if vested < total_amount {
                    vested
                } else {
                    total_amount
                },
            )
        } else {
            // Unreachable: `current_time` lies before the end of its step.
            assert(false);
            Err(ContractError::Overflow {})
        }
    }
}

/// Tokens of `whitelist` vested at `current_time` (in seconds): nothing
/// before the start, the initial share until the cliff, then the linear
/// schedule.
pub fn calculate_vested_amount(config: &Config, whitelist: &WhitelistInfo, current_time: u64) -> (r:
    Result<u128, ContractError>)
    ensures
        r == (if vested_fits(*config, whitelist.amount as int, current_time as int) {
            Ok::<u128, ContractError>(
                vested(*config, whitelist.amount as int, current_time as int) as u128,
            )
        } else {
            Err(ContractError::Overflow {})
        }),
{
    let total_amount = whitelist.amount;
    let initial_amount = match total_amount.checked_mul(config.initial_unlock_percent as u128) {
        Some(v) => v / BASIS_POINTS,
        None => return Err(ContractError::Overflow {}),
    };
    if current_time < config.start {
        Ok(0)
    } else if config.cliff <= config.start || current_time >= config.cliff {
        calculate_linear_vesting(config, total_amount, current_time)
    } else {
        Ok(initial_amount)
    }
}

/// Tokens vested at `t` and not yet distributed.
pub open spec fn claimable(c: Config, w: WhitelistInfo, t: int) -> int {
    vested(c, w.amount as int, t) - w.distributed_amount
}

/// Tokens of `whitelist` vested at `current_time` and not yet distributed.
pub fn calculate_claimable_amount(config: &Config, whitelist: &WhitelistInfo, current_time: u64) -> (r:
    Result<u128, ContractError>)
    ensures
        r == (if vested_fits(*config, whitelist.amount as int, current_time as int) && claimable(
            *config,
            *whitelist,
            current_time as int,
        ) >= 0 {
            Ok::<u128, ContractError>(claimable(*config, *whitelist, current_time as int) as u128)
        } else {
            Err(ContractError::Overflow {})
        }),
{
    let vested_amount = calculate_vested_amount(config, whitelist, current_time)?;
    match vested_amount.checked_sub(whitelist.distributed_amount) {
        Some(v) => Ok(v),
        None => Err(ContractError::Overflow {}),
    }
}

/// The next time at or after which more tokens unlock, seen at `t`.
pub open spec fn next_unlock(c: Config, t: int) -> int {
    let vs = vesting_start_of(c);
    let ve = vesting_end_of(c);
    if t < c.cliff {
        c.cliff as int
    } else if t >= ve {
        ve
    } else if c.linear_vesting_count == 0 {
        c.cliff as int
    } else if t < vs {
        vs + c.duration
    } else {
        vs + c.duration * ((t - vs) / (c.duration as int) + 1)
    }
}

/// The next unlock can be computed at `t` without overflow.
pub open spec fn next_unlock_fits(c: Config, t: int) -> bool {
    t >= c.cliff ==> span_of(c) <= u64::MAX && vesting_end_of(c) <= u64::MAX
}

#[derive(Debug, PartialEq, Eq)]
pub struct NextUnlockDateResponse {
    pub next_unlock_date: u64,
}

/// The next unlock date seen at `current_time` (in seconds): the cliff
/// before it, then the end of the current step, and the end of the
/// schedule once it has passed.
pub fn query_next_unlock_date(config: &Config, current_time: u64) -> (r: Result<
    NextUnlockDateResponse,
    ContractError,
>)
    ensures
        r == (if next_unlock_fits(*config, current_time as int) {
            Ok::<NextUnlockDateResponse, ContractError>(
                NextUnlockDateResponse {
                    next_unlock_date: next_unlock(*config, current_time as int) as u64,
                },
            )
        } else {
            Err(ContractError::Overflow {})
        }),
{
    let ghost c = *config;
    let ghost t = current_time as int;
    let mut next_unlock_date = config.cliff;
    if current_time >= config.cliff {
        let vesting_start = if config.cliff > config.start {
            config.cliff
        } else {
            config.start
        };
        let span = match config.duration.checked_mul(config.linear_vesting_count as u64) {
            Some(v) => v,
            None => return Err(ContractError::Overflow {}),
        };
        let vesting_end = match vesting_start.checked_add(span) {
            Some(v) => v,
            None => return Err(ContractError::Overflow {}),
        };
        assert(span as int == span_of(c));
        if current_time >= vesting_end {
            next_unlock_date = vesting_end;
        } else {
            let step_duration = config.duration;
            let count = config.linear_vesting_count;
            if count > 0 {
                // The step that holds `current_time`.
                let ghost k: int = if t < vesting_start {
                    1
                } else {
                    (t - vesting_start) / (step_duration as int) + 1
                };
                assert(1 <= k <= count && vesting_start + step_duration * k > t && (k > 1
                    ==> vesting_start + step_duration * (k - 1) <= t)) by {
                    if t >= vesting_start {
                        assert(step_duration > 0) by {
                            if step_duration == 0 {
                                assert(span_of(c) == 0) by (nonlinear_arith)
                                    requires
                                        c.duration == 0,
                                ;
                            }
                        }
                        let q = (t - vesting_start) / (step_duration as int);
                        assert(step_duration * q <= t - vesting_start < step_duration * (q + 1))
                            by (nonlinear_arith)
                            requires
                                q == (t - vesting_start) / (step_duration as int),
                                step_duration > 0,
                                t >= vesting_start,
                        ;
                        assert(q + 1 <= count) by (nonlinear_arith)
                            requires
                                step_duration * q <= t - vesting_start,
                                t - vesting_start < span,
                                span == step_duration * count,
                                step_duration > 0,
                                q >= 0,
                        ;
                    } else {
                        assert(step_duration * 1 == step_duration) by (nonlinear_arith);
                    }
                }
                let mut unlock_time = vesting_start;
                let mut i: u16 = 0;
                let mut found = false;
                while i < count && !found
                    invariant
                        t == current_time as int,
                        0 <= i <= count,
                        count == c.linear_vesting_count,
                        step_duration == c.duration,
                        vesting_end == vesting_start + step_duration * count,
                        vesting_end <= u64::MAX,
                        1 <= k <= count,
                        vesting_start + step_duration * k > t,
                        k > 1 ==> vesting_start + step_duration * (k - 1) <= t,
                        found ==> i == k && next_unlock_date == vesting_start + step_duration * k,
                        !found ==> i < k && unlock_time == vesting_start + step_duration * i,
                    decreases count - i,
                {
                    assert(step_duration * (i + 1) <= step_duration * count) by (nonlinear_arith)
                        requires
                            i + 1 <= count,
                    ;
                    assert(step_duration * (i + 1) == step_duration * i + step_duration)
                        by (nonlinear_arith);
                    unlock_time = unlock_time + step_duration;
                    i = i + 1;
                    assert(unlock_time == vesting_start + step_duration * i);
                    if unlock_time > current_time {
                        assert(i == k) by {
                            if i < k {
                                assert(false) by (nonlinear_arith)
                                    requires
                                        i <= k - 1,
                                        k > 1,
                                        vesting_start + step_duration * (k - 1) <= t,
                                        unlock_time == vesting_start + step_duration * i,
                                        unlock_time > t,
                                ;
                            }
                        }
                        next_unlock_date = unlock_time;
                        found = true;
                    } else {
                        assert(i < k) by {
                            if i >= k {
                                assert(false) by (nonlinear_arith)
                                    requires
                                        k <= i,
                                        vesting_start + step_duration * k > t,
                                        unlock_time == vesting_start + step_duration * i,
                                        unlock_time <= t,
                                ;
                            }
                        }
                    }
                }
                assert(found);
                assert(next_unlock_date == next_unlock(c, t)) by {
                    if t < vesting_start {
                        assert(step_duration * 1 == step_duration) by (nonlinear_arith);
                    }
                }
            }
        }
    }
    Ok(NextUnlockDateResponse { next_unlock_date })
}

// ---------------------------------------------------------------------
// Laws of the schedule
// ---------------------------------------------------------------------

proof fn lemma_linear_at_least_initial(c: Config, total: int, t: int)
    requires
        total >= 0,
        initial_of(c, total) <= total,
    ensures
        0 <= initial_of(c, total) <= linear_vested(c, total, t) <= total,
{
    let initial = initial_of(c, total);
    assert(initial >= 0) by (nonlinear_arith)
        requires
            initial == total * c.initial_unlock_percent / 10000,
            total >= 0,
    ;
    if vesting_start_of(c) < t < vesting_end_of(c) {
        let x = c.duration * steps_of(c, t);
        assert(c.duration > 0) by {
            if c.duration == 0 {
                assert(span_of(c) == 0) by (nonlinear_arith)
                    requires
                        c.duration == 0,
                ;
            }
        }
        vstd::arithmetic::div_mod::lemma_div_pos_is_pos(t - vesting_start_of(c), c.duration as int);
        assert(x >= 0) by (nonlinear_arith)
            requires
                x == c.duration * steps_of(c, t),
                steps_of(c, t) >= 0,
        ;
        assert(span_of(c) > 0);
        assert((total - initial) * x >= 0) by (nonlinear_arith)
            requires
                total - initial >= 0,
                x >= 0,
        ;
        vstd::arithmetic::div_mod::lemma_div_pos_is_pos((total - initial) * x, span_of(c));
    }
}

/// The vested amount never decreases as time passes: for any two times
/// `t1 <= t2` at which the schedule can be computed, what has vested at
/// `t1` has vested at `t2`.
pub proof fn lemma_vested_monotonic(c: Config, total: int, t1: int, t2: int)
    requires
        total >= 0,
        t1 <= t2,
        vested_fits(c, total, t1),
        vested_fits(c, total, t2),
    ensures
        vested(c, total, t1) <= vested(c, total, t2),
{
    let initial = initial_of(c, total);
    assert(initial >= 0) by (nonlinear_arith)
        requires
            initial == total * c.initial_unlock_percent / 10000,
            total >= 0,
    ;
    if t2 >= c.start && (c.cliff <= c.start || t2 >= c.cliff) {
        lemma_linear_at_least_initial(c, total, t2);
    }
    if t1 >= c.start && (c.cliff <= c.start || t1 >= c.cliff) {
        lemma_linear_at_least_initial(c, total, t1);
        // both times lie in the linear part
        let vs = vesting_start_of(c);
        let ve = vesting_end_of(c);
        if vs < t1 < ve && vs < t2 < ve {
            let d = c.duration as int;
            assert(d > 0) by {
                if d == 0 {
                    assert(span_of(c) == 0) by (nonlinear_arith)
                        requires
                            c.duration == 0,
                    ;
                }
            }
            vstd::arithmetic::div_mod::lemma_div_is_ordered(t1 - vs, t2 - vs, d);
            let s1 = steps_of(c, t1);
            let s2 = steps_of(c, t2);
            vstd::arithmetic::div_mod::lemma_div_pos_is_pos(t1 - vs, d);
            assert(0 <= d * s1 <= d * s2) by (nonlinear_arith)
                requires
                    0 <= s1 <= s2,
                    d > 0,
            ;
            let rem = total - initial;
            assert(rem * (d * s1) <= rem * (d * s2)) by (nonlinear_arith)
                requires
                    rem >= 0,
                    0 <= d * s1 <= d * s2,
            ;
            vstd::arithmetic::div_mod::lemma_div_is_ordered(
                rem * (d * s1),
                rem * (d * s2),
                span_of(c),
            );
        }
    }
}

/// Nothing vests beyond the total, as long as the initial share is at most
/// the whole.
pub proof fn lemma_vested_bounded(c: Config, total: int, t: int)
    requires
        total >= 0,
        c.initial_unlock_percent <= 10000,
        vested_fits(c, total, t),
    ensures
        0 <= vested(c, total, t) <= total,
{
    let initial = initial_of(c, total);
    assert(0 <= initial <= total) by (nonlinear_arith)
        requires
            initial == total * c.initial_unlock_percent / 10000,
            total >= 0,
            c.initial_unlock_percent <= 10000,
    ;
    if t >= c.start && (c.cliff <= c.start || t >= c.cliff) {
        lemma_linear_at_least_initial(c, total, t);
    }
}

/// Once the schedule has ended everything has vested.
pub proof fn lemma_fully_vested_at_end(c: Config, total: int, t: int)
    requires
        total >= 0,
        t >= vesting_end_of(c),
        vested_fits(c, total, t),
    ensures
        vested(c, total, t) == total,
{
    assert(span_of(c) >= 0) by (nonlinear_arith)
        requires
            span_of(c) == c.duration * c.linear_vesting_count,
    ;
}

// ---------------------------------------------------------------------
// Messages and responses
// ---------------------------------------------------------------------

/// The terms a vesting contract is created with.
#[derive(Debug, PartialEq, Eq, Clone)]
pub struct InstantiateMsg {
    pub owner: Option<String>,
    pub denom: String,
    pub fee_address: String,
    pub total_token_on_sale: u128,
    pub grace_period: u64,
    pub platform_fee: u128,
    pub decimals: u8,
    pub start: u64,
    pub cliff: u64,
    pub duration: u64,
    pub initial_unlock_percent: u16,
    pub linear_vesting_count: u16,
}

#[derive(Debug, PartialEq, Eq, Clone)]
pub enum QueryMsg {
    GetConfig {},
    GetStatistics {},
    GetWhitelistInfo { wallet: String },
    GetVestedAmount { wallet: String },
    GetClaimableAmount { wallet: String },
    GetWhitelistBatch { start: u64, limit: u32 },
    GetVestingDetails {},
    IsWhitelisted { wallet: String },
    GetWhitelistIndex { wallet: String },
    GetUserInfo { tag_id: String, wallet: String },
    GetPaymentDenom { tag_id: String },
    GetNextUnlockDate {},
    GetHooks {},
    Ownership {},
}

#[derive(Debug, PartialEq, Eq, Clone)]
pub enum MigrateMsg {
    FromV1 {},
}

#[derive(Debug, PartialEq, Eq, Clone)]
pub struct ConfigResponse {
    pub config: Config,
}

#[derive(Debug, PartialEq, Eq, Clone)]
pub struct StatisticsResponse {
    pub statistics: Statistics,
}

#[derive(Debug, PartialEq, Eq, Clone)]
pub struct WhitelistInfoResponse {
    pub info: WhitelistInfo,
}

#[derive(Debug, PartialEq, Eq, Clone)]
pub struct VestedAmountResponse {
    pub amount: u128,
}

#[derive(Debug, PartialEq, Eq, Clone)]
pub struct ClaimableAmountResponse {
    pub amount: u128,
}

#[derive(Debug, PartialEq, Eq, Clone)]
pub struct WhitelistBatchResponse {
    pub whitelist: Vec<(String, WhitelistInfo)>,
}

#[derive(Debug, PartialEq, Eq, Clone)]
pub struct VestingDetailsResponse {
    pub start: u64,
    pub cliff: u64,
    pub duration: u64,
    pub initial_unlock_percent: u16,
    pub linear_vesting_count: u16,
}

#[derive(Debug, PartialEq, Eq, Clone)]
pub struct IsWhitelistedResponse {
    pub is_whitelisted: bool,
}

#[derive(Debug, PartialEq, Eq, Clone)]
pub struct WhitelistIndexResponse {
    pub index: u64,
}

#[derive(Debug, PartialEq, Eq, Clone)]
pub struct UserInfoResponse {
    pub info: UserInfo,
}

#[derive(Debug, PartialEq, Eq, Clone)]
pub struct PaymentDenomResponse {
    pub denom: String,
}

#[derive(Debug, PartialEq, Eq, Clone)]
pub struct GetHooksResponse {
    pub hooks: Vec<String>,
}

// ---------------------------------------------------------------------
// Operations
// ---------------------------------------------------------------------

/// Creates the contract's configuration, with the fee address as the
/// chain validated it, and empty statistics.
pub fn instantiate(msg: InstantiateMsg, fee_address: Result<String, StdError>) -> (r: Result<
    (Config, Statistics),
    ContractError,
>)
    ensures
        match fee_address {
            Err(e) => r == Err::<(Config, Statistics), ContractError>(ContractError::Std(e)),
            Ok(a) => r == Ok::<(Config, Statistics), ContractError>(
                (
                    Config {
                        denom: msg.denom,
                        fee_address: a,
                        total_token_on_sale: msg.total_token_on_sale,
                        grace_period: msg.grace_period,
                        platform_fee: msg.platform_fee,
                        decimals: msg.decimals,
                        start: msg.start,
                        cliff: msg.cliff,
                        duration: msg.duration,
                        initial_unlock_percent: msg.initial_unlock_percent,
                        linear_vesting_count: msg.linear_vesting_count,
                    },
                    Statistics { total_vested_token: 0, total_returned_token: 0 },
                ),
            ),
        },
{
    let fee_address = match fee_address {
        Ok(a) => a,
        Err(e) => return Err(ContractError::Std(e)),
    };
    let config = Config {
        denom: msg.denom,
        fee_address,
        total_token_on_sale: msg.total_token_on_sale,
        grace_period: msg.grace_period,
        platform_fee: msg.platform_fee,
        decimals: msg.decimals,
        start: msg.start,
        cliff: msg.cliff,
        duration: msg.duration,
        initial_unlock_percent: msg.initial_unlock_percent,
        linear_vesting_count: msg.linear_vesting_count,
    };
    Ok((config, Statistics { total_vested_token: 0, total_returned_token: 0 }))
}

/// Moves the vesting start to `new_start`, keeping the cliff as far after
/// it as before; only the owner may, and only before vesting starts.
pub fn execute_set_vesting_start(
    owner: &Option<String>,
    sender: &String,
    config: Config,
    new_start: u64,
    now: u64,
) -> (r: Result<Config, ContractError>)
    ensures
        match owner_check(*owner, *sender) {
            Err(e) => r == Err::<Config, ContractError>(ContractError::Ownership(e)),
            Ok(_) => if now >= config.start {
                r == Err::<Config, ContractError>(ContractError::VestingAlreadyStarted {})
            } else if config.cliff < config.start || new_start + (config.cliff - config.start)
                > u64::MAX {
                r == Err::<Config, ContractError>(ContractError::Overflow {})
            } else {
                r == Ok::<Config, ContractError>(
                    Config {
                        start: new_start,
                        cliff: (new_start + (config.cliff - config.start)) as u64,
                        ..config
                    },
                )
            },
        },
{
    if let Err(e) = assert_owner(owner, sender) {
        return Err(ContractError::Ownership(e));
    }
    let mut config = config;
    if now >= config.start {
        return Err(ContractError::VestingAlreadyStarted {});
    }
    let cliff_duration = match config.cliff.checked_sub(config.start) {
        Some(v) => v,
        None => return Err(ContractError::Overflow {}),
    };
    let cliff = match new_start.checked_add(cliff_duration) {
        Some(v) => v,
        None => return Err(ContractError::Overflow {}),
    };
    config.start = new_start;
    config.cliff = cliff;
    Ok(config)
}

/// Replaces the vested token's denomination; only the owner may, and only
/// before vesting starts.
pub fn execute_update_denom(
    owner: &Option<String>,
    sender: &String,
    config: Config,
    new_denom: String,
    now: u64,
) -> (r: Result<Config, ContractError>)
    ensures
        match owner_check(*owner, *sender) {
            Err(e) => r == Err::<Config, ContractError>(ContractError::Ownership(e)),
            Ok(_) => if now >= config.start {
                r == Err::<Config, ContractError>(ContractError::VestingAlreadyStarted {})
            } else {
                r == Ok::<Config, ContractError>(Config { denom: new_denom, ..config })
            },
        },
{
    if let Err(e) = assert_owner(owner, sender) {
        return Err(ContractError::Ownership(e));
    }
    let mut config = config;
    if now >= config.start {
        return Err(ContractError::VestingAlreadyStarted {});
    }
    config.denom = new_denom;
    Ok(config)
}

/// What a successful claim of vested tokens changes and pays.
#[derive(Debug, PartialEq, Eq)]
pub struct ClaimOutcome {
    pub whitelist: WhitelistInfo,
    pub amount: u128,
    pub payouts: Vec<Payout>,
}

/// Pays `sender` the tokens of `whitelist` vested at `now` (in seconds) and
/// not yet distributed.
pub fn execute_claim_vested_tokens(
    config: &Config,
    whitelist: WhitelistInfo,
    sender: &String,
    now: u64,
) -> (r: Result<ClaimOutcome, ContractError>)
    ensures
        ({
            let v = vested(*config, whitelist.amount as int, now as int);
            if !vested_fits(*config, whitelist.amount as int, now as int) {
                r == Err::<ClaimOutcome, ContractError>(ContractError::Overflow {})
            } else if v <= whitelist.distributed_amount {
                r == Err::<ClaimOutcome, ContractError>(ContractError::NoTokensToClaim {})
            } else {
                r matches Ok(o) && o.whitelist == (WhitelistInfo {
                    distributed_amount: v as u128,
                    ..whitelist
                }) && o.amount == v - whitelist.distributed_amount && o.payouts@ == seq![
                    Payout::BankSend {
                        to_address: *sender,
                        denom: config.denom,
                        amount: o.amount,
                    },
                ]
            }
        }),
{
    let mut whitelist = whitelist;
    let vested_amount = calculate_vested_amount(config, &whitelist, now)?;
    let claimable_amount = vested_amount.saturating_sub(whitelist.distributed_amount);
    if claimable_amount == 0 {
        return Err(ContractError::NoTokensToClaim {});
    }
    whitelist.distributed_amount = whitelist.distributed_amount + claimable_amount;
    let payouts = vec![
        Payout::BankSend {
            to_address: sender.clone(),
            denom: config.denom.clone(),
            amount: claimable_amount,
        },
    ];
    Ok(ClaimOutcome { whitelist, amount: claimable_amount, payouts })
}

/// The fee kept out of a refund of `payment`, or `None` where it cannot
/// be computed.
pub open spec fn refund_fee_of(c: Config, u: UserInfo) -> Option<int> {
    let scale = pow_spec(10, c.decimals as nat);
    if scale > u128::MAX || u.payment_amount * u.refund_fee > u128::MAX {
        None
    } else {
        Some(u.payment_amount * u.refund_fee / scale)
    }
}

/// What a refund changes: the purchase, the wallet's holdings, the
/// statistics, the amount refunded and the fee kept.
pub open spec fn refund_result(
    c: Config,
    u: UserInfo,
    w: WhitelistInfo,
    denom: Result<String, StdError>,
    st: Statistics,
    now: int,
) -> Result<(UserInfo, WhitelistInfo, Statistics, int, int, String), ContractError> {
    if now < c.start {
        Err(ContractError::NotInGracePeriod {})
    } else if c.start + c.grace_period > u64::MAX {
        Err(ContractError::Overflow {})
    } else if now >= c.start + c.grace_period {
        Err(ContractError::NotInGracePeriod {})
    } else if u.refunded {
        Err(ContractError::UserAlreadyRefunded {})
    } else if w.distributed_amount != 0 {
        Err(ContractError::UserAlreadyClaimed {})
    } else {
        match refund_fee_of(c, u) {
            None => Err(ContractError::Overflow {}),
            Some(fee) => if fee > u.payment_amount {
                Err(ContractError::Overflow {})
            } else {
                match denom {
                    Err(e) => Err(ContractError::Std(e)),
                    Ok(d) => if st.total_returned_token + u.token_amount > u128::MAX
                        || w.amount < u.token_amount {
                        Err(ContractError::Overflow {})
                    } else {
                        Ok(
                            (
                                UserInfo { refunded: true, refund_date: Some(now as u64), ..u },
                                WhitelistInfo { amount: (w.amount - u.token_amount) as u128, ..w },
                                Statistics {
                                    total_returned_token: (st.total_returned_token
                                        + u.token_amount) as u128,
                                    ..st
                                },
                                u.payment_amount - fee,
                                fee,
                                d,
                            ),
                        )
                    },
                }
            },
        }
    }
}

/// What a successful refund changes and pays.
#[derive(Debug, PartialEq, Eq)]
pub struct RefundOutcome {
    pub user_info: UserInfo,
    pub whitelist: WhitelistInfo,
    pub statistics: Statistics,
    pub refund_amount: u128,
    pub fee: u128,
    pub payouts: Vec<Payout>,
}

/// Refunds `sender`'s purchase under a tag during the grace period, less
/// the refund fee, which goes to the fee address; the tokens bought return
/// to the sale.
pub fn execute_request_refund(
    config: &Config,
    user_info: UserInfo,
    whitelist: WhitelistInfo,
    payment_denom: Result<String, StdError>,
    statistics: Statistics,
    sender: &String,
    now: u64,
) -> (r: Result<RefundOutcome, ContractError>)
    ensures
        match refund_result(*config, user_info, whitelist, payment_denom, statistics, now as int) {
            Err(e) => r == Err::<RefundOutcome, ContractError>(e),
            Ok((u, w, st, refund, fee, d)) => r matches Ok(o) && o.user_info == u && o.whitelist
                == w && o.statistics == st && o.refund_amount == refund && o.fee == fee
                && o.payouts@ == seq![
                Payout::BankSend { to_address: *sender, denom: d, amount: o.refund_amount },
                Payout::BankSend { to_address: config.fee_address, denom: d, amount: o.fee },
            ],
        },
{
    let mut user_info = user_info;
    let mut whitelist = whitelist;
    let mut statistics = statistics;
    if now < config.start {
        return Err(ContractError::NotInGracePeriod {});
    }
    let grace_end = match config.start.checked_add(config.grace_period) {
        Some(v) => v,
        None => return Err(ContractError::Overflow {}),
    };
    if now >= grace_end {
        return Err(ContractError::NotInGracePeriod {});
    }
    if user_info.refunded {
        return Err(ContractError::UserAlreadyRefunded {});
    }
    if whitelist.distributed_amount != 0 {
        return Err(ContractError::UserAlreadyClaimed {});
    }
    let scale = match checked_pow10(config.decimals as u32) {
        Some(v) => v,
        None => return Err(ContractError::Overflow {}),
    };
    let fee = match user_info.payment_amount.checked_mul(user_info.refund_fee) {
        Some(v) => v / scale,
        None => return Err(ContractError::Overflow {}),
    };
    let refund_amount = match user_info.payment_amount.checked_sub(fee) {
        Some(v) => v,
        None => return Err(ContractError::Overflow {}),
    };
    user_info.refunded = true;
    user_info.refund_date = Some(now);
    let denom = match payment_denom {
        Ok(d) => d,
        Err(e) => return Err(ContractError::Std(e)),
    };
    statistics.total_returned_token = match statistics.total_returned_token.checked_add(
        user_info.token_amount,
    ) {
        Some(v) => v,
        None => return Err(ContractError::Overflow {}),
    };
    whitelist.amount = match whitelist.amount.checked_sub(user_info.token_amount) {
        Some(v) => v,
        None => return Err(ContractError::Overflow {}),
    };
    let payouts = vec![
        Payout::BankSend {
            to_address: sender.clone(),
            denom: denom.clone(),
            amount: refund_amount,
        },
        Payout::BankSend {
            to_address: config.fee_address.clone(),
            denom: denom,
            amount: fee,
        },
    ];
    Ok(RefundOutcome { user_info, whitelist, statistics, refund_amount, fee, payouts })
}

/// What claiming the sale's proceeds changes: the statistics, the amount
/// paid to the owner and the platform's fee; or why it is refused.
pub open spec fn claim_funds_result(c: Config, st: Statistics, denom: String, now: int) -> Result<
    (Statistics, int, int),
    ContractError,
> {
    if c.grace_period + c.start > u64::MAX {
        Err(ContractError::Overflow {})
    } else if now <= c.grace_period + c.start {
        Err(ContractError::GracePeriodInProgress {})
    } else if denom@ != c.denom@ {
        Err(ContractError::InvalidDenom {})
    } else if st.total_vested_token < st.total_returned_token {
        Err(ContractError::Overflow {})
    } else {
        let claimable = st.total_vested_token - st.total_returned_token;
        let scale = pow_spec(10, c.decimals as nat);
        if claimable == 0 {
            Err(ContractError::NoFundsToClaim {})
        } else if scale > u128::MAX || claimable * c.platform_fee > u128::MAX {
            Err(ContractError::Overflow {})
        } else {
            let fee = claimable * c.platform_fee / scale;
            if fee > claimable {
                Err(ContractError::Overflow {})
            } else {
                Ok(
                    (
                        Statistics {
                            total_vested_token: (st.total_vested_token - claimable) as u128,
                            ..st
                        },
                        claimable - fee,
                        fee,
                    ),
                )
            }
        }
    }
}

/// What a successful claim of the proceeds changes and pays.
#[derive(Debug, PartialEq, Eq)]
pub struct ClaimFundsOutcome {
    pub statistics: Statistics,
    pub amount: u128,
    pub platform_fee: u128,
    pub payouts: Vec<Payout>,
}

/// Pays the owner the tokens sold and not returned once the grace period
/// is over, less the platform's fee, which goes to the fee address.
pub fn execute_claim_funds(
    owner: &Option<String>,
    sender: &String,
    config: &Config,
    statistics: Statistics,
    denom: &String,
    now: u64,
) -> (r: Result<ClaimFundsOutcome, ContractError>)
    ensures
        match owner_check(*owner, *sender) {
            Err(e) => r == Err::<ClaimFundsOutcome, ContractError>(ContractError::Ownership(e)),
            Ok(_) => match claim_funds_result(*config, statistics, *denom, now as int) {
                Err(e) => r == Err::<ClaimFundsOutcome, ContractError>(e),
                Ok((st, amount, fee)) => r matches Ok(o) && o.statistics == st && o.amount
                    == amount && o.platform_fee == fee && o.payouts@ == (if fee > 0 {
                    seq![
                        Payout::BankSend {
                            to_address: *sender,
                            denom: config.denom,
                            amount: o.amount,
                        },
                        Payout::BankSend {
                            to_address: config.fee_address,
                            denom: config.denom,
                            amount: o.platform_fee,
                        },
                    ]
                } else {
                    seq![
                        Payout::BankSend {
                            to_address: *sender,
                            denom: config.denom,
                            amount: o.amount,
                        },
                    ]
                }),
            },
        },
{
    if let Err(e) = assert_owner(owner, sender) {
        return Err(ContractError::Ownership(e));
    }
    let mut statistics = statistics;
    let grace_end = match config.grace_period.checked_add(config.start) {
        Some(v) => v,
        None => return Err(ContractError::Overflow {}),
    };
    if now <= grace_end {
        return Err(ContractError::GracePeriodInProgress {});
    }
    if !denom.eq(&config.denom) {
        return Err(ContractError::InvalidDenom {});
    }
    let claimable_amount = match statistics.total_vested_token.checked_sub(
        statistics.total_returned_token,
    ) {
        Some(v) => v,
        None => return Err(ContractError::Overflow {}),
    };
    if claimable_amount > 0 {
        let scale = match checked_pow10(config.decimals as u32) {
            Some(v) => v,
            None => return Err(ContractError::Overflow {}),
        };
        let platform_fee = match claimable_amount.checked_mul(config.platform_fee) {
            Some(v) => v / scale,
            None => return Err(ContractError::Overflow {}),
        };
        let final_claimable_amount = match claimable_amount.checked_sub(platform_fee) {
            Some(v) => v,
            None => return Err(ContractError::Overflow {}),
        };
        let mut payouts = vec![
            Payout::BankSend {
                to_address: sender.clone(),
                denom: config.denom.clone(),
                amount: final_claimable_amount,
            },
        ];
        if platform_fee > 0 {
            payouts.push(
                Payout::BankSend {
                    to_address: config.fee_address.clone(),
                    denom: config.denom.clone(),
                    amount: platform_fee,
                },
            );
        }
        statistics.total_vested_token = statistics.total_vested_token - claimable_amount;
        Ok(
            ClaimFundsOutcome {
                statistics,
                amount: final_claimable_amount,
                platform_fee,
                payouts,
            },
        )
    } else {
        Err(ContractError::NoFundsToClaim {})
    }
}

/// Sends the owner the contract's whole balance of the vested token and of
/// a tag's payment denomination, as the chain reported them; empty
/// balances are not sent.
pub fn execute_emergency_withdraw(
    owner: &Option<String>,
    sender: &String,
    denom_balance: Result<Coin, StdError>,
    payment_balance: Option<Result<Coin, StdError>>,
) -> (r: Result<Vec<Payout>, ContractError>)
    ensures
        match owner_check(*owner, *sender) {
            Err(e) => r == Err::<Vec<Payout>, ContractError>(ContractError::Ownership(e)),
            Ok(_) => match denom_balance {
                Err(e) => r == Err::<Vec<Payout>, ContractError>(ContractError::Std(e)),
                Ok(b) => {
                    let first: Seq<Payout> = if b.amount != 0 {
                        seq![
                            Payout::BankSend {
                                to_address: *sender,
                                denom: b.denom,
                                amount: b.amount,
                            },
                        ]
                    } else {
                        seq![]
                    };
                    match payment_balance {
                        None => r matches Ok(v) && v@ == first,
                        Some(Err(e)) => r == Err::<Vec<Payout>, ContractError>(
                            ContractError::Std(e),
                        ),
                        Some(Ok(p)) => r matches Ok(v) && v@ == (if p.amount != 0 {
                            first.push(
                                Payout::BankSend {
                                    to_address: *sender,
                                    denom: p.denom,
                                    amount: p.amount,
                                },
                            )
                        } else {
                            first
                        }),
                    }
                },
            },
        },
{
    if let Err(e) = assert_owner(owner, sender) {
        return Err(ContractError::Ownership(e));
    }
    let mut payouts: Vec<Payout> = Vec::new();
    let balance = match denom_balance {
        Ok(b) => b,
        Err(e) => return Err(ContractError::Std(e)),
    };
    if balance.amount != 0 {
        payouts.push(
            Payout::BankSend { to_address: sender.clone(), denom: balance.denom, amount: balance.amount },
        );
    }
    match payment_balance {
        None => {},
        Some(Err(e)) => return Err(ContractError::Std(e)),
        Some(Ok(p)) => {
            if p.amount != 0 {
                payouts.push(
                    Payout::BankSend { to_address: sender.clone(), denom: p.denom, amount: p.amount },
                );
            }
        },
    }
    Ok(payouts)
}

/// The vesting schedule of the configuration.
pub fn query_vesting_details(config: &Config) -> (r: VestingDetailsResponse)
    ensures
        r == (VestingDetailsResponse {
            start: config.start,
            cliff: config.cliff,
            duration: config.duration,
            initial_unlock_percent: config.initial_unlock_percent,
            linear_vesting_count: config.linear_vesting_count,
        }),
{
    VestingDetailsResponse {
        start: config.start,
        cliff: config.cliff,
        duration: config.duration,
        initial_unlock_percent: config.initial_unlock_percent,
        linear_vesting_count: config.linear_vesting_count,
    }
}

/// Whether a wallet is whitelisted, from its stored flag: never
/// whitelisted when none is stored.
pub fn query_is_whitelisted(stored: Option<bool>) -> (r: IsWhitelistedResponse)
    ensures
        r.is_whitelisted == (stored == Some(true)),
{
    IsWhitelistedResponse { is_whitelisted: stored.unwrap_or(false) }
}

/// How many times a wallet was whitelisted, from its stored count.
pub fn query_whitelist_index(stored: Option<u64>) -> (r: WhitelistIndexResponse)
    ensures
        r.index == (match stored {
            Some(i) => i,
            None => 0,
        }),
{
    WhitelistIndexResponse { index: stored.unwrap_or(0) }
}

/// Tokens of `whitelist` vested at `now` (in seconds).
pub fn query_vested_amount(config: &Config, whitelist: &WhitelistInfo, now: u64) -> (r: Result<
    VestedAmountResponse,
    ContractError,
>)
    ensures
        r == (if vested_fits(*config, whitelist.amount as int, now as int) {
            Ok::<VestedAmountResponse, ContractError>(
                VestedAmountResponse {
                    amount: vested(*config, whitelist.amount as int, now as int) as u128,
                },
            )
        } else {
            Err(ContractError::Overflow {})
        }),
{
    let amount = calculate_vested_amount(config, whitelist, now)?;
    Ok(VestedAmountResponse { amount })
}

/// Tokens of `whitelist` vested at `now` (in seconds) and not yet claimed.
pub fn query_claimable_amount(config: &Config, whitelist: &WhitelistInfo, now: u64) -> (r: Result<
    ClaimableAmountResponse,
    ContractError,
>)
    ensures
        r == (if vested_fits(*config, whitelist.amount as int, now as int) && claimable(
            *config,
            *whitelist,
            now as int,
        ) >= 0 {
            Ok::<ClaimableAmountResponse, ContractError>(
                ClaimableAmountResponse {
                    amount: claimable(*config, *whitelist, now as int) as u128,
                },
            )
        } else {
            Err(ContractError::Overflow {})
        }),
{
    let amount = calculate_claimable_amount(config, whitelist, now)?;
    Ok(ClaimableAmountResponse { amount })
}

// ---------------------------------------------------------------------
// Whitelisting
// ---------------------------------------------------------------------

/// What is stored for one wallet: its purchase under the tag being
/// whitelisted, its holdings, how many times it was whitelisted, and
/// whether it is.
#[derive(Debug, PartialEq, Eq, Clone)]
pub struct WhitelistEntry {
    pub wallet: String,
    pub user_info: UserInfo,
    pub whitelist: WhitelistInfo,
    pub index: u64,
    pub is_whitelisted: bool,
}

/// The records of a wallet of which nothing is stored.
pub open spec fn default_entry(wallet: String) -> WhitelistEntry {
    WhitelistEntry {
        wallet: wallet,
        user_info: UserInfo {
            refunded: false,
            refund_date: None,
            payment_amount: 0,
            token_amount: 0,
            refund_fee: 0,
        },
        whitelist: WhitelistInfo { wallet: wallet, join_date: 0, amount: 0, distributed_amount: 0 },
        index: 0,
        is_whitelisted: false,
    }
}

/// The first position of `key` in `book` at or after `i`, or `-1`.
pub open spec fn find_entry(book: Seq<WhitelistEntry>, key: Seq<char>, i: int) -> int
    decreases book.len() - i,
{
    if i < 0 || i >= book.len() {
        -1
    } else if book[i].wallet@ == key {
        i
    } else {
        find_entry(book, key, i + 1)
    }
}

proof fn lemma_find_entry_range(book: Seq<WhitelistEntry>, key: Seq<char>, i: int)
    requires
        0 <= i,
    ensures
        find_entry(book, key, i) == -1 || (i <= find_entry(book, key, i) < book.len()
            && book[find_entry(book, key, i)].wallet@ == key),
        find_entry(book, key, i) == -1 ==> forall|j: int|
            i <= j < book.len() ==> book[j].wallet@ != key,
    decreases book.len() - i,
{
    if i < book.len() && book[i].wallet@ != key {
        lemma_find_entry_range(book, key, i + 1);
    }
}

/// The records of `wallet` in `book`.
pub open spec fn entry_of(book: Seq<WhitelistEntry>, wallet: String) -> WhitelistEntry {
    let j = find_entry(book, wallet@, 0);
    if j >= 0 {
        book[j]
    } else {
        default_entry(wallet)
    }
}

/// `book` with the records of `e.wallet` replaced by `e`.
pub open spec fn put_entry(book: Seq<WhitelistEntry>, e: WhitelistEntry) -> Seq<WhitelistEntry> {
    let j = find_entry(book, e.wallet@, 0);
    if j >= 0 {
        book.update(j, e)
    } else {
        book.push(e)
    }
}

/// Whitelisting `wallet` for `payment` and `tokens` once more, or `None`
/// where a count overflows.
pub open spec fn whitelist_step(
    book: Seq<WhitelistEntry>,
    st: Statistics,
    wallet: String,
    payment: u128,
    tokens: u128,
    refund_fee: u128,
    now: u64,
) -> Option<(Seq<WhitelistEntry>, Statistics)> {
    let e = entry_of(book, wallet);
    if e.user_info.payment_amount + payment > u128::MAX || e.user_info.token_amount + tokens
        > u128::MAX || e.whitelist.amount + tokens > u128::MAX || e.index + 1 > u64::MAX
        || st.total_vested_token + tokens > u128::MAX {
        None
    } else {
        let updated = WhitelistEntry {
            wallet: wallet,
            user_info: UserInfo {
                payment_amount: (e.user_info.payment_amount + payment) as u128,
                token_amount: (e.user_info.token_amount + tokens) as u128,
                refund_fee: refund_fee,
                ..e.user_info
            },
            whitelist: WhitelistInfo {
                wallet: wallet,
                amount: (e.whitelist.amount + tokens) as u128,
                join_date: now,
                ..e.whitelist
            },
            index: (e.index + 1) as u64,
            is_whitelisted: true,
        };
        Some(
            (
                put_entry(book, updated),
                Statistics {
                    total_vested_token: (st.total_vested_token + tokens) as u128,
                    ..st
                },
            ),
        )
    }
}

/// The records and statistics after whitelisting the first `n` wallets in
/// order; the first wallet the chain refused or the first overflow stops it.
pub open spec fn whitelist_fold(
    book: Seq<WhitelistEntry>,
    st: Statistics,
    wallets: Seq<Result<String, StdError>>,
    payments: Seq<u128>,
    tokens: Seq<u128>,
    refund_fee: u128,
    now: u64,
    n: nat,
) -> Result<(Seq<WhitelistEntry>, Statistics), ContractError>
    decreases n,
{
    if n == 0 {
        Ok((book, st))
    } else {
        match whitelist_fold(book, st, wallets, payments, tokens, refund_fee, now, (n - 1) as nat) {
            Err(e) => Err(e),
            Ok((b, s)) => match wallets[n - 1] {
                Err(e) => Err(ContractError::Std(e)),
                Ok(w) => match whitelist_step(
                    b,
                    s,
                    w,
                    payments[n - 1],
                    tokens[n - 1],
                    refund_fee,
                    now,
                ) {
                    None => Err(ContractError::Overflow {}),
                    Some(x) => Ok(x),
                },
            },
        }
    }
}

proof fn lemma_whitelist_fold_error_persists(
    book: Seq<WhitelistEntry>,
    st: Statistics,
    wallets: Seq<Result<String, StdError>>,
    payments: Seq<u128>,
    tokens: Seq<u128>,
    refund_fee: u128,
    now: u64,
    k: nat,
    n: nat,
)
    requires
        k <= n,
        whitelist_fold(book, st, wallets, payments, tokens, refund_fee, now, k) is Err,
    ensures
        whitelist_fold(book, st, wallets, payments, tokens, refund_fee, now, n) == whitelist_fold(
            book,
            st,
            wallets,
            payments,
            tokens,
            refund_fee,
            now,
            k,
        ),
    decreases n - k,
{
    if k < n {
        lemma_whitelist_fold_error_persists(
            book,
            st,
            wallets,
            payments,
            tokens,
            refund_fee,
            now,
            k,
            (n - 1) as nat,
        );
    }
}

/// The first position of `key` in `book`, or `None`.
fn find_entry_index(book: &Vec<WhitelistEntry>, key: &String) -> (r: Option<usize>)
    ensures
        match r {
            Some(j) => find_entry(book@, key@, 0) == j as int,
            None => find_entry(book@, key@, 0) == -1,
        },
{
    let mut i: usize = 0;
    while i < book.len()
        invariant
            i <= book.len(),
            find_entry(book@, key@, 0) == find_entry(book@, key@, i as int),
        decreases book.len() - i,
    {
        if book[i].wallet.eq(key) {
            return Some(i);
        }
        i = i + 1;
    }
    None
}

/// What whitelisting a batch of wallets stores.
#[derive(Debug, PartialEq, Eq)]
pub struct SetWhitelistOutcome {
    pub book: Vec<WhitelistEntry>,
    pub statistics: Statistics,
}

/// Whitelists each wallet in turn for its payment and tokens under a tag,
/// as the owner asks: each adds to the wallet's purchase, to its holdings
/// and to the tokens vested. `book` holds what is stored of the wallets;
/// a wallet it lacks starts from nothing, and a wallet named twice is
/// whitelisted twice. `wallets` holds each wallet as the chain validated it.
#[verifier::loop_isolation(false)]
pub fn execute_set_whitelist(
    owner: &Option<String>,
    sender: &String,
    now: u64,
    wallets: &Vec<Result<String, StdError>>,
    payment_amounts: &Vec<u128>,
    token_amounts: &Vec<u128>,
    refund_fee: u128,
    statistics: Statistics,
    book: Vec<WhitelistEntry>,
) -> (r: Result<SetWhitelistOutcome, ContractError>)
    ensures
        match owner_check(*owner, *sender) {
            Err(e) => r == Err::<SetWhitelistOutcome, ContractError>(ContractError::Ownership(e)),
            Ok(_) => if wallets.len() != payment_amounts.len() || wallets.len()
                != token_amounts.len() {
                r == Err::<SetWhitelistOutcome, ContractError>(
                    ContractError::MismatchedArrayLengths {},
                )
            } else {
                match whitelist_fold(
                    book@,
                    statistics,
                    wallets@,
                    payment_amounts@,
                    token_amounts@,
                    refund_fee,
                    now,
                    wallets.len() as nat,
                ) {
                    Err(e) => r == Err::<SetWhitelistOutcome, ContractError>(e),
                    Ok((b, st)) => r matches Ok(o) && o.book@ == b && o.statistics == st,
                }
            },
        },
{
    if let Err(e) = assert_owner(owner, sender) {
        return Err(ContractError::Ownership(e));
    }
    if wallets.len() != payment_amounts.len() || wallets.len() != token_amounts.len() {
        return Err(ContractError::MismatchedArrayLengths {});
    }
    let ghost book0 = book@;
    let ghost st0 = statistics;
    let mut book = book;
    let mut statistics = statistics;
    let mut i: usize = 0;
    while i < wallets.len()
        invariant
            owner_check(*owner, *sender) is Ok,
            i <= wallets.len(),
            wallets.len() == payment_amounts.len(),
            wallets.len() == token_amounts.len(),
            whitelist_fold(
                book0,
                st0,
                wallets@,
                payment_amounts@,
                token_amounts@,
                refund_fee,
                now,
                i as nat,
            ) == Ok::<(Seq<WhitelistEntry>, Statistics), ContractError>((book@, statistics)),
        decreases wallets.len() - i,
    {
        let wallet = match &wallets[i] {
            Ok(w) => w.clone(),
            Err(e) => {
                let err = copy_std_error(e);
                proof {
                    lemma_whitelist_fold_error_persists(
                        book0,
                        st0,
                        wallets@,
                        payment_amounts@,
                        token_amounts@,
                        refund_fee,
                        now,
                        (i + 1) as nat,
                        wallets.len() as nat,
                    );
                }
                assert(err == *e);
                assert(whitelist_fold(
                    book0,
                    st0,
                    wallets@,
                    payment_amounts@,
                    token_amounts@,
                    refund_fee,
                    now,
                    (i + 1) as nat,
                ) == Err::<(Seq<WhitelistEntry>, Statistics), ContractError>(ContractError::Std(err)));
                return Err(ContractError::Std(err));
            },
        };
        let payment = payment_amounts[i];
        let tokens = token_amounts[i];
        let found = find_entry_index(&book, &wallet);
        proof {
            lemma_find_entry_range(book@, wallet@, 0);
        }
        let (old_user, old_wl, old_index) = match found {
            Some(j) => {
                let e = &book[j];
                (
                    UserInfo {
                        refunded: e.user_info.refunded,
                        refund_date: e.user_info.refund_date,
                        payment_amount: e.user_info.payment_amount,
                        token_amount: e.user_info.token_amount,
                        refund_fee: e.user_info.refund_fee,
                    },
                    WhitelistInfo {
                        wallet: e.whitelist.wallet.clone(),
                        join_date: e.whitelist.join_date,
                        amount: e.whitelist.amount,
                        distributed_amount: e.whitelist.distributed_amount,
                    },
                    e.index,
                )
            },
            None => (
                UserInfo {
                    refunded: false,
                    refund_date: None,
                    payment_amount: 0,
                    token_amount: 0,
                    refund_fee: 0,
                },
                WhitelistInfo {
                    wallet: wallet.clone(),
                    join_date: 0,
                    amount: 0,
                    distributed_amount: 0,
                },
                0,
            ),
        };
        assert(old_user == entry_of(book@, wallet).user_info);
        assert(old_wl == entry_of(book@, wallet).whitelist);
        assert(old_index == entry_of(book@, wallet).index);
        let payment_total = match old_user.payment_amount.checked_add(payment) {
            Some(v) => v,
            None => {
                proof {
                    lemma_whitelist_fold_error_persists(
                        book0,
                        st0,
                        wallets@,
                        payment_amounts@,
                        token_amounts@,
                        refund_fee,
                        now,
                        (i + 1) as nat,
                        wallets.len() as nat,
                    );
                }
                return Err(ContractError::Overflow {});
            },
        };
        let token_total = match old_user.token_amount.checked_add(tokens) {
            Some(v) => v,
            None => {
                proof {
                    lemma_whitelist_fold_error_persists(
                        book0,
                        st0,
                        wallets@,
                        payment_amounts@,
                        token_amounts@,
                        refund_fee,
                        now,
                        (i + 1) as nat,
                        wallets.len() as nat,
                    );
                }
                return Err(ContractError::Overflow {});
            },
        };
        let amount = match old_wl.amount.checked_add(tokens) {
            Some(v) => v,
            None => {
                proof {
                    lemma_whitelist_fold_error_persists(
                        book0,
                        st0,
                        wallets@,
                        payment_amounts@,
                        token_amounts@,
                        refund_fee,
                        now,
                        (i + 1) as nat,
                        wallets.len() as nat,
                    );
                }
                return Err(ContractError::Overflow {});
            },
        };
        let index = match old_index.checked_add(1) {
            Some(v) => v,
            None => {
                proof {
                    lemma_whitelist_fold_error_persists(
                        book0,
                        st0,
                        wallets@,
                        payment_amounts@,
                        token_amounts@,
                        refund_fee,
                        now,
                        (i + 1) as nat,
                        wallets.len() as nat,
                    );
                }
                return Err(ContractError::Overflow {});
            },
        };
        let vested_total = match statistics.total_vested_token.checked_add(tokens) {
            Some(v) => v,
            None => {
                proof {
                    lemma_whitelist_fold_error_persists(
                        book0,
                        st0,
                        wallets@,
                        payment_amounts@,
                        token_amounts@,
                        refund_fee,
                        now,
                        (i + 1) as nat,
                        wallets.len() as nat,
                    );
                }
                return Err(ContractError::Overflow {});
            },
        };
        let updated = WhitelistEntry {
            wallet: wallet.clone(),
            user_info: UserInfo {
                refunded: old_user.refunded,
                refund_date: old_user.refund_date,
                payment_amount: payment_total,
                token_amount: token_total,
                refund_fee,
            },
            whitelist: WhitelistInfo {
                wallet: wallet,
                join_date: now,
                amount,
                distributed_amount: old_wl.distributed_amount,
            },
            index,
            is_whitelisted: true,
        };
        match found {
            Some(j) => {
                book.set(j, updated);
            },
            None => {
                book.push(updated);
            },
        }
        statistics.total_vested_token = vested_total;
        i = i + 1;
    }
    Ok(SetWhitelistOutcome { book, statistics })
}

// ---------------------------------------------------------------------
// Laws over several calls
// ---------------------------------------------------------------------

/// A claim leaves nothing to claim until more vests: after a successful
/// claim at `t1` records what has vested, a claim at any `t2 <= t1` is
/// refused for want of tokens.
pub proof fn lemma_no_claim_until_more_vests(c: Config, w: WhitelistInfo, t1: int, t2: int)
    requires
        t2 <= t1,
        vested_fits(c, w.amount as int, t1),
        vested_fits(c, w.amount as int, t2),
        vested(c, w.amount as int, t1) > w.distributed_amount,
    ensures
        vested(c, w.amount as int, t2) <= (WhitelistInfo {
            distributed_amount: vested(c, w.amount as int, t1) as u128,
            ..w
        }).distributed_amount,
{
    lemma_vested_monotonic(c, w.amount as int, t2, t1);
}

/// What claims hand out never exceeds the wallet's tokens: a claim records
/// as distributed what has vested, which is at most the wallet's amount.
pub proof fn lemma_claims_stay_within_amount(c: Config, w: WhitelistInfo, t: int)
    requires
        c.initial_unlock_percent <= 10000,
        vested_fits(c, w.amount as int, t),
    ensures
        vested(c, w.amount as int, t) <= w.amount,
{
    lemma_vested_bounded(c, w.amount as int, t);
}

/// A purchase is refunded at most once: once a refund went through, every
/// later request for it is refused.
pub proof fn lemma_refund_once(
    c: Config,
    u: UserInfo,
    w: WhitelistInfo,
    denom: Result<String, StdError>,
    st: Statistics,
    now: int,
    w2: WhitelistInfo,
    denom2: Result<String, StdError>,
    st2: Statistics,
    later: int,
)
    requires
        refund_result(c, u, w, denom, st, now) is Ok,
    ensures
        refund_result(c, refund_result(c, u, w, denom, st, now)->Ok_0.0, w2, denom2, st2, later) is Err,
{
}

/// The sale's proceeds are claimed once: after a claim, nothing is left to
/// claim until more tokens are whitelisted.
pub proof fn lemma_claim_funds_once(c: Config, st: Statistics, denom: String, now: int, later: int)
    requires
        claim_funds_result(c, st, denom, now) is Ok,
        later > c.grace_period + c.start,
        denom@ == c.denom@,
    ensures
        claim_funds_result(c, claim_funds_result(c, st, denom, now)->Ok_0.0, denom, later)
            == Err::<(Statistics, int, int), ContractError>(ContractError::NoFundsToClaim {}),
{
}

/// While the schedule runs, the next unlock date lies ahead, and never
/// after the schedule's end.
pub proof fn lemma_next_unlock_ahead(c: Config, t: int)
    requires
        t < vesting_end_of(c),
        c.duration > 0,
        c.linear_vesting_count > 0,
    ensures
        t < next_unlock(c, t) <= vesting_end_of(c),
{
    let vs = vesting_start_of(c);
    let d = c.duration as int;
    let n = c.linear_vesting_count as int;
    assert(span_of(c) == d * n);
    assert(d <= d * n) by (nonlinear_arith)
        requires
            d > 0,
            n >= 1,
    ;
    if t >= c.cliff && t >= vs {
        let k = (t - vs) / d;
        vstd::arithmetic::div_mod::lemma_fundamental_div_mod(t - vs, d);
        assert(t - vs < d * (k + 1)) by (nonlinear_arith)
            requires
                t - vs == d * k + (t - vs) % d,
                0 <= (t - vs) % d < d,
        ;
        assert(k < n) by (nonlinear_arith)
            requires
                t - vs == d * k + (t - vs) % d,
                0 <= (t - vs) % d,
                t - vs < d * n,
                d > 0,
        ;
        assert(d * (k + 1) <= d * n) by (nonlinear_arith)
            requires
                k + 1 <= n,
                d > 0,
        ;
    }
}

proof fn lemma_find_entry_after_update(
    book: Seq<WhitelistEntry>,
    j: int,
    x: WhitelistEntry,
    key: Seq<char>,
    i: int,
)
    requires
        0 <= j < book.len(),
        x.wallet@ == book[j].wallet@,
        0 <= i,
    ensures
        find_entry(book.update(j, x), key, i) == find_entry(book, key, i),
    decreases book.len() - i,
{
    if i < book.len() && book.update(j, x)[i].wallet@ != key {
        lemma_find_entry_after_update(book, j, x, key, i + 1);
    }
}

proof fn lemma_find_entry_after_push(book: Seq<WhitelistEntry>, x: WhitelistEntry, key: Seq<char>, i: int)
    requires
        0 <= i <= book.len(),
    ensures
        find_entry(book.push(x), key, i) == (if find_entry(book, key, i) >= 0 {
            find_entry(book, key, i)
        } else if x.wallet@ == key {
            book.len() as int
        } else {
            -1
        }),
    decreases book.len() - i,
{
    if i < book.len() {
        assert(book.push(x)[i] == book[i]);
        if book[i].wallet@ != key {
            lemma_find_entry_after_push(book, x, key, i + 1);
        }
    } else {
        assert(book.push(x)[i] == x);
        assert(find_entry(book.push(x), key, i + 1) == -1);
        assert(find_entry(book, key, i) == -1);
    }
}

/// Putting the records `e` gives `e`'s wallet those records and leaves
/// every other wallet's as they were.
proof fn lemma_put_entry(book: Seq<WhitelistEntry>, e: WhitelistEntry, wallet: String)
    ensures
        wallet@ == e.wallet@ ==> entry_of(put_entry(book, e), wallet) == e,
        wallet@ != e.wallet@ ==> entry_of(put_entry(book, e), wallet) == entry_of(book, wallet),
{
    let j = find_entry(book, e.wallet@, 0);
    lemma_find_entry_range(book, e.wallet@, 0);
    lemma_find_entry_range(book, wallet@, 0);
    if j >= 0 {
        lemma_find_entry_after_update(book, j, e, wallet@, 0);
        if wallet@ == e.wallet@ {
            assert(find_entry(book, wallet@, 0) == j);
        } else {
            let k = find_entry(book, wallet@, 0);
            if k >= 0 {
                assert(k != j);
            }
        }
    } else {
        lemma_find_entry_after_push(book, e, wallet@, 0);
        if wallet@ == e.wallet@ {
            assert(find_entry(book, wallet@, 0) == -1);
        }
    }
}

/// The first `n` amounts added up.
pub open spec fn amounts_sum(amounts: Seq<u128>, n: nat) -> int
    decreases n,
{
    if n == 0 {
        0
    } else {
        amounts_sum(amounts, (n - 1) as nat) + amounts[n - 1]
    }
}

/// Whitelisting adds exactly the tokens whitelisted to the tokens vested,
/// and every wallet whitelisted is recorded as whitelisted.
pub proof fn lemma_whitelist_adds_tokens(
    book: Seq<WhitelistEntry>,
    st: Statistics,
    wallets: Seq<Result<String, StdError>>,
    payments: Seq<u128>,
    tokens: Seq<u128>,
    refund_fee: u128,
    now: u64,
    n: nat,
)
    requires
        n <= wallets.len(),
        n <= tokens.len(),
        whitelist_fold(book, st, wallets, payments, tokens, refund_fee, now, n) is Ok,
    ensures
        ({
            let (b, s) = whitelist_fold(book, st, wallets, payments, tokens, refund_fee, now, n)->Ok_0;
            &&& s.total_vested_token == st.total_vested_token + amounts_sum(tokens, n)
            &&& s.total_returned_token == st.total_returned_token
            &&& forall|i: int|
                0 <= i < n ==> entry_of(b, #[trigger] wallets[i]->Ok_0).is_whitelisted
        }),
    decreases n,
{
    if n > 0 {
        let m = (n - 1) as nat;
        if whitelist_fold(book, st, wallets, payments, tokens, refund_fee, now, m) is Err {
            lemma_whitelist_fold_error_persists(book, st, wallets, payments, tokens, refund_fee, now, m, n);
        }
        lemma_whitelist_adds_tokens(book, st, wallets, payments, tokens, refund_fee, now, m);
        let (b0, s0) = whitelist_fold(book, st, wallets, payments, tokens, refund_fee, now, m)->Ok_0;
        let w = wallets[m as int]->Ok_0;
        let (b1, s1) = whitelist_fold(book, st, wallets, payments, tokens, refund_fee, now, n)->Ok_0;
        let e = entry_of(b0, w);
        let updated = WhitelistEntry {
            wallet: w,
            user_info: UserInfo {
                payment_amount: (e.user_info.payment_amount + payments[m as int]) as u128,
                token_amount: (e.user_info.token_amount + tokens[m as int]) as u128,
                refund_fee: refund_fee,
                ..e.user_info
            },
            whitelist: WhitelistInfo {
                wallet: w,
                amount: (e.whitelist.amount + tokens[m as int]) as u128,
                join_date: now,
                ..e.whitelist
            },
            index: (e.index + 1) as u64,
            is_whitelisted: true,
        };
        assert(b1 == put_entry(b0, updated));
        assert forall|i: int| 0 <= i < n implies entry_of(b1, #[trigger] wallets[i]->Ok_0).is_whitelisted by {
            lemma_put_entry(b0, updated, wallets[i]->Ok_0);
        }
    }
}

/// The linear part of the schedule never vests less than the initial share
/// nor more than the total, as long as the initial share is at most the
/// whole.
pub proof fn lemma_linear_vested_bounded(c: Config, total: int, t: int)
    requires
        total >= 0,
        c.initial_unlock_percent <= 10000,
    ensures
        0 <= initial_of(c, total) <= linear_vested(c, total, t) <= total,
{
    assert(initial_of(c, total) <= total) by (nonlinear_arith)
        requires
            initial_of(c, total) == total * c.initial_unlock_percent / 10000,
            total >= 0,
            c.initial_unlock_percent <= 10000,
    ;
    lemma_linear_at_least_initial(c, total, t);
}

/// Between two unlocks the linear part stands still: two times in the
/// same step of the linear part have vested the same.
pub proof fn lemma_linear_vested_constant_within_step(c: Config, total: int, t1: int, t2: int)
    requires
        vesting_start_of(c) < t1 < vesting_end_of(c),
        vesting_start_of(c) < t2 < vesting_end_of(c),
        steps_of(c, t1) == steps_of(c, t2),
    ensures
        linear_vested(c, total, t1) == linear_vested(c, total, t2),
{
}

/// The linear part of the schedule never decreases as time passes, as long
/// as the initial share is at most the whole.
pub proof fn lemma_linear_vested_monotonic(c: Config, total: int, t1: int, t2: int)
    requires
        total >= 0,
        c.initial_unlock_percent <= 10000,
        t1 <= t2,
    ensures
        linear_vested(c, total, t1) <= linear_vested(c, total, t2),
{
    lemma_linear_vested_bounded(c, total, t1);
    lemma_linear_vested_bounded(c, total, t2);
    let initial = initial_of(c, total);
    let vs = vesting_start_of(c);
    let ve = vesting_end_of(c);
    if vs < t1 < ve && vs < t2 < ve {
        let d = c.duration as int;
        assert(d > 0) by {
            if d == 0 {
                assert(span_of(c) == 0) by (nonlinear_arith)
                    requires
                        c.duration == 0,
                ;
            }
        }
        vstd::arithmetic::div_mod::lemma_div_is_ordered(t1 - vs, t2 - vs, d);
        let s1 = steps_of(c, t1);
        let s2 = steps_of(c, t2);
        vstd::arithmetic::div_mod::lemma_div_pos_is_pos(t1 - vs, d);
        assert(0 <= d * s1 <= d * s2) by (nonlinear_arith)
            requires
                0 <= s1 <= s2,
                d > 0,
        ;
        let rem = total - initial;
        assert(rem * (d * s1) <= rem * (d * s2)) by (nonlinear_arith)
            requires
                rem >= 0,
                0 <= d * s1 <= d * s2,
        ;
        vstd::arithmetic::div_mod::lemma_div_is_ordered(rem * (d * s1), rem * (d * s2), span_of(c));
    }
}

/// A refund returns the wallet's tokens to the sale: the tokens returned
/// grow by exactly the purchase's tokens, which leave the wallet's
/// holdings, the tokens vested stay, and the payment is split between the
/// refund and the fee (the payment times the refund fee, scaled by
/// `10^decimals`). The purchase is marked refunded at `now`.
pub proof fn lemma_refund_returns_tokens(
    c: Config,
    u: UserInfo,
    w: WhitelistInfo,
    denom: Result<String, StdError>,
    st: Statistics,
    now: int,
)
    requires
        refund_result(c, u, w, denom, st, now) is Ok,
    ensures
        ({
            let (u2, w2, st2, refund, fee, d) = refund_result(c, u, w, denom, st, now)->Ok_0;
            &&& c.start <= now < c.start + c.grace_period
            &&& st2.total_returned_token == st.total_returned_token + u.token_amount
            &&& st2.total_vested_token == st.total_vested_token
            &&& w2.amount == w.amount - u.token_amount
            &&& w2.distributed_amount == w.distributed_amount
            &&& w2.wallet == w.wallet
            &&& fee == u.payment_amount * u.refund_fee / pow_spec(10, c.decimals as nat)
            &&& refund + fee == u.payment_amount
            &&& u2.refunded && u2.refund_date == Some(now as u64)
            &&& u2.payment_amount == u.payment_amount && u2.token_amount == u.token_amount
            &&& denom == Ok::<String, StdError>(d)
        }),
{
}

/// After the grace period the owner is paid the tokens sold and not
/// returned, less the platform's fee (that amount times the platform fee,
/// scaled by `10^decimals`); what is claimed leaves the tokens vested.
pub proof fn lemma_claim_funds_pays_sold_tokens(c: Config, st: Statistics, denom: String, now: int)
    requires
        claim_funds_result(c, st, denom, now) is Ok,
    ensures
        ({
            let (st2, amount, fee) = claim_funds_result(c, st, denom, now)->Ok_0;
            let sold = st.total_vested_token - st.total_returned_token;
            &&& now > c.start + c.grace_period
            &&& denom@ == c.denom@
            &&& sold > 0
            &&& fee == sold * c.platform_fee / pow_spec(10, c.decimals as nat)
            &&& amount + fee == sold
            &&& st2.total_vested_token == st.total_returned_token
            &&& st2.total_returned_token == st.total_returned_token
        }),
{
}

/// Whitelisting a wallet once more adds the tokens to its holdings and to
/// its purchase under the tag, adds the payment to the purchase, counts one
/// more whitelisting of it, records the refund fee and the date, and leaves
/// every other wallet's records as they were.
pub proof fn lemma_whitelist_step_adds_to_wallet(
    book: Seq<WhitelistEntry>,
    st: Statistics,
    wallet: String,
    payment: u128,
    tokens: u128,
    refund_fee: u128,
    now: u64,
    other: String,
)
    requires
        whitelist_step(book, st, wallet, payment, tokens, refund_fee, now) is Some,
    ensures
        ({
            let (b2, st2) = whitelist_step(book, st, wallet, payment, tokens, refund_fee, now)->Some_0;
            let before = entry_of(book, wallet);
            let after = entry_of(b2, wallet);
            &&& after.whitelist.amount == before.whitelist.amount + tokens
            &&& after.whitelist.distributed_amount == before.whitelist.distributed_amount
            &&& after.whitelist.join_date == now
            &&& after.user_info.payment_amount == before.user_info.payment_amount + payment
            &&& after.user_info.token_amount == before.user_info.token_amount + tokens
            &&& after.user_info.refund_fee == refund_fee
            &&& after.user_info.refunded == before.user_info.refunded
            &&& after.index == before.index + 1
            &&& after.is_whitelisted
            &&& st2.total_vested_token == st.total_vested_token + tokens
            &&& (other@ != wallet@ ==> entry_of(b2, other) == entry_of(book, other))
        }),
{
    let (b2, st2) = whitelist_step(book, st, wallet, payment, tokens, refund_fee, now)->Some_0;
    let e = entry_of(book, wallet);
    let updated = WhitelistEntry {
        wallet: wallet,
        user_info: UserInfo {
            payment_amount: (e.user_info.payment_amount + payment) as u128,
            token_amount: (e.user_info.token_amount + tokens) as u128,
            refund_fee: refund_fee,
            ..e.user_info
        },
        whitelist: WhitelistInfo {
            wallet: wallet,
            amount: (e.whitelist.amount + tokens) as u128,
            join_date: now,
            ..e.whitelist
        },
        index: (e.index + 1) as u64,
        is_whitelisted: true,
    };
    assert(b2 == put_entry(book, updated));
    lemma_put_entry(book, updated, wallet);
    lemma_put_entry(book, updated, other);
}

} // verus!
