//! The token sale: stakers register during the registration window and
//! then buy in the stakers' round up to an allocation in proportion to
//! their stake (or the whitelisted allocation, shown by a merkle_proof); anyone
//! buys in the first-come-first-served round that follows.
use vstd::prelude::*;
use crate::common::{StdError, OwnershipError, Coin, Payout, owner_check, assert_owner, pow_spec, checked_pow10, lemma_pow10_positive};
use crate::merkle::{HexError, proof_verifies, verify_proof};

verus! {

/// Which phases of the sale are paused.
#[derive(Debug, PartialEq, Eq, Clone, Copy)]
pub struct Status {
    pub register_paused: bool,
    pub staker_paused: bool,
    pub fcfs_paused: bool,
}

impl Default for Status {
    fn default() -> (r: Self)
        ensures
            !r.register_paused && !r.staker_paused && !r.fcfs_paused,
    {
        Status { register_paused: false, staker_paused: false, fcfs_paused: false }
    }
}

/// The windows of the sale's phases, in seconds.
#[derive(Debug, PartialEq, Eq, Clone, Copy)]
pub struct Dates {
    pub register_start: u64,
    pub register_end: u64,
    pub staker_start: u64,
    pub staker_end: u64,
    pub fcfs_start: u64,
    pub fcfs_end: u64,
}

/// The whitelist: the root of its hash tree, how many wallets it holds,
/// and the allocation of each.
#[derive(Debug, PartialEq, Eq, Clone)]
pub struct WhitelistProperties {
    pub whitelist_merkle_root: String,
    pub whitelisted_user_count: u128,
    pub whitelisted_user_allocation: u128,
}

#[derive(Debug, PartialEq, Eq, Clone)]
pub struct Config {
    pub owner: String,
    pub stake_controller: String,
    pub payment_denom: String,
    pub sale_token_decimals: u64,
    /// The price of one sale token, in the payment denomination.
    pub sale_token_price: u128,
    pub min_allocation: u128,
    pub total_allocation: u128,
    /// Each buyer's allocation in the open round; zero means what is left.
    pub fcfs_allocation: u128,
    pub status: Status,
    pub dates: Dates,
    pub whitelist_properties: WhitelistProperties,
}

/// One buyer's registration and purchases.
#[derive(Debug, PartialEq, Eq, Clone)]
pub struct UserInfo {
    pub address: String,
    pub registered: bool,
    pub tier: u64,
    pub total_staked: u128,
    pub total_payment_amount: u128,
    pub total_sale_token_amount: u128,
    pub joined_staker_round: bool,
    pub joined_fcfs_round: bool,
}

#[derive(Debug, PartialEq, Eq, Clone, Copy)]
pub struct Statistics {
    pub total_registered_users: u128,
    pub total_staker_round_participants: u128,
    pub total_fcfs_round_participants: u128,
    pub total_participants: u128,
    pub total_staked: u128,
    pub total_payment_amount: u128,
}

/// What the staking-tier controller reports of a wallet.
#[derive(Debug, PartialEq, Eq, Clone, Copy)]
pub struct GetUserTierResponse {
    pub tier: u64,
    pub total_staked: u128,
}

impl Default for Dates {
    fn default() -> (r: Self)
        ensures
            r.register_start == 0 && r.register_end == 0,
            r.staker_start == 0 && r.staker_end == 0,
            r.fcfs_start == 0 && r.fcfs_end == 0,
    {
        Dates {
            register_start: 0,
            register_end: 0,
            staker_start: 0,
            staker_end: 0,
            fcfs_start: 0,
            fcfs_end: 0,
        }
    }
}

impl Default for WhitelistProperties {
    fn default() -> (r: Self)
        ensures
            r.whitelist_merkle_root@ == Seq::<char>::empty(),
            r.whitelisted_user_count == 0,
            r.whitelisted_user_allocation == 0,
    {
        WhitelistProperties {
            whitelist_merkle_root: String::new(),
            whitelisted_user_count: 0,
            whitelisted_user_allocation: 0,
        }
    }
}

impl Default for Config {
    fn default() -> (r: Self)
        ensures
            r.owner@ == Seq::<char>::empty(),
            r.stake_controller@ == Seq::<char>::empty(),
            r.payment_denom@ == Seq::<char>::empty(),
            r.sale_token_decimals == 0,
            r.sale_token_price == 0,
            r.min_allocation == 0,
            r.total_allocation == 0,
            r.fcfs_allocation == 0,
            !r.status.register_paused && !r.status.staker_paused && !r.status.fcfs_paused,
            r.dates.register_start == 0 && r.dates.register_end == 0,
            r.dates.staker_start == 0 && r.dates.staker_end == 0,
            r.dates.fcfs_start == 0 && r.dates.fcfs_end == 0,
            r.whitelist_properties.whitelist_merkle_root@ == Seq::<char>::empty(),
            r.whitelist_properties.whitelisted_user_count == 0,
            r.whitelist_properties.whitelisted_user_allocation == 0,
    {
        Config {
            owner: String::new(),
            stake_controller: String::new(),
            payment_denom: String::new(),
            sale_token_decimals: 0,
            sale_token_price: 0,
            min_allocation: 0,
            total_allocation: 0,
            fcfs_allocation: 0,
            status: Status::default(),
            dates: Dates::default(),
            whitelist_properties: WhitelistProperties::default(),
        }
    }
}

impl Default for UserInfo {
    fn default() -> (r: Self)
        ensures
            r.address@ == Seq::<char>::empty(),
            !r.registered,
            r.tier == 0,
            r.total_staked == 0,
            r.total_payment_amount == 0,
            r.total_sale_token_amount == 0,
            !r.joined_staker_round,
            !r.joined_fcfs_round,
    {
        UserInfo {
            address: String::new(),
            registered: false,
            tier: 0,
            total_staked: 0,
            total_payment_amount: 0,
            total_sale_token_amount: 0,
            joined_staker_round: false,
            joined_fcfs_round: false,
        }
    }
}

impl Default for Statistics {
    fn default() -> (r: Self)
        ensures
            r == zero_stats(),
    {
        Statistics {
            total_registered_users: 0,
            total_staker_round_participants: 0,
            total_fcfs_round_participants: 0,
            total_participants: 0,
            total_staked: 0,
            total_payment_amount: 0,
        }
    }
}

/// The errors of the sale contract.
#[derive(Debug, PartialEq, Eq)]
pub enum ContractError {
    Std(StdError),
    Hex(HexError),
    Ownership(OwnershipError),
    QueryError { msg: String },
    InvalidAmount {},
    MinAllocationNotReached {},
    InvalidCw20 {},
    AlreadyRegistered {},
    RegistrationPaused {},
    RegistrationNotStarted {},
    RegistrationClosed {},
    NotStaker {},
    StakerRoundPaused {},
    StakerRoundNotStarted {},
    StakerRoundClosed {},
    NotRegistered {},
    NoAllocation {},
    ExceedUserAllocation {},
    ExceedTotalAllocation {},
    FcfsRoundPaused {},
    FcfsRoundNotStarted {},
    FcfsRoundClosed {},
    WrongLength {},
    WhitelistError {},
    CannotRegister {},
    InvalidDenom {},
    /// Arithmetic that the contract cannot carry out (an overflow, an
    /// underflow or a division by zero): the chain aborts the transaction.
    Overflow {},
}

pub open spec fn zero_stats() -> Statistics {
    Statistics {
        total_registered_users: 0,
        total_staker_round_participants: 0,
        total_fcfs_round_participants: 0,
        total_participants: 0,
        total_staked: 0,
        total_payment_amount: 0,
    }
}

/// The statistics stored, or empty ones.
pub open spec fn stats_or_zero(s: Option<Statistics>) -> Statistics {
    match s {
        Some(v) => v,
        None => zero_stats(),
    }
}

fn stats_or_default(s: Option<Statistics>) -> (r: Statistics)
    ensures
        r == stats_or_zero(s),
{
    match s {
        Some(v) => v,
        None => Statistics {
            total_registered_users: 0,
            total_staker_round_participants: 0,
            total_fcfs_round_participants: 0,
            total_participants: 0,
            total_staked: 0,
            total_payment_amount: 0,
        },
    }
}

/// The proof entries given, or none.
pub open spec fn proof_entries(merkle_proof: Option<Vec<String>>) -> Seq<String> {
    match merkle_proof {
        Some(p) => p.view(),
        None => Seq::empty(),
    }
}

/// Whether `sender` is whitelisted: never while the whitelist has no root;
/// otherwise as the merkle_proof shows, and a merkle_proof that does not decode is
/// refused.
pub open spec fn whitelist_result(c: Config, sender: String, merkle_proof: Seq<String>) -> Result<
    bool,
    ContractError,
> {
    if c.whitelist_properties.whitelist_merkle_root@.len() > 0 {
        match proof_verifies(
            sender,
            c.whitelist_properties.whitelisted_user_allocation,
            merkle_proof,
            c.whitelist_properties.whitelist_merkle_root,
        ) {
            Ok(b) => Ok(b),
            Err(_) => Err(ContractError::WhitelistError {}),
        }
    } else {
        Ok(false)
    }
}

/// Checks a whitelist merkle_proof of `sender` against the configuration.
pub fn query_verify_proof(config: &Config, sender: &String, merkle_proof: &Vec<String>) -> (r: Result<
    bool,
    ContractError,
>)
    ensures
        r == (match proof_verifies(
            *sender,
            config.whitelist_properties.whitelisted_user_allocation,
            merkle_proof@,
            config.whitelist_properties.whitelist_merkle_root,
        ) {
            Ok(b) => Ok::<bool, ContractError>(b),
            Err(e) => Err(ContractError::Hex(e)),
        }),
{
    match verify_proof(
        sender,
        config.whitelist_properties.whitelisted_user_allocation,
        merkle_proof,
        &config.whitelist_properties.whitelist_merkle_root,
    ) {
        Ok(b) => Ok(b),
        Err(e) => Err(ContractError::Hex(e)),
    }
}

fn check_whitelist(config: &Config, sender: &String, merkle_proof: &Option<Vec<String>>) -> (r: Result<
    bool,
    ContractError,
>)
    ensures
        r == whitelist_result(*config, *sender, proof_entries(*merkle_proof)),
{
    if config.whitelist_properties.whitelist_merkle_root.as_str().is_empty() {
        return Ok(false);
    }
    let empty: Vec<String> = Vec::new();
    let entries = match merkle_proof {
        Some(p) => p,
        None => &empty,
    };
    assert(entries@ == proof_entries(*merkle_proof));
    match query_verify_proof(config, sender, entries) {
        Ok(b) => Ok(b),
        Err(_) => Err(ContractError::WhitelistError {}),
    }
}

/// A buyer's allocation in the stakers' round: nothing without a stake;
/// otherwise its share of the total allocation in proportion to its stake,
/// or, while there is a whitelist, the allocation left to stakers scaled by
/// the ratio of all stakes to its stake; a whitelisted buyer gets the
/// whitelisted allocation.
pub open spec fn staker_allocation(
    c: Config,
    st: Statistics,
    staked: u128,
    sender: String,
    merkle_proof: Seq<String>,
) -> Result<int, ContractError> {
    if staked == 0 {
        Ok(0)
    } else if c.total_allocation * staked > u128::MAX || st.total_staked == 0 {
        Err(ContractError::Overflow {})
    } else if c.whitelist_properties.whitelist_merkle_root@.len() > 0 {
        match proof_verifies(
            sender,
            c.whitelist_properties.whitelisted_user_allocation,
            merkle_proof,
            c.whitelist_properties.whitelist_merkle_root,
        ) {
            Err(_) => Err(ContractError::WhitelistError {}),
            Ok(w) => {
                let reserved = c.whitelist_properties.whitelisted_user_allocation
                    * c.whitelist_properties.whitelisted_user_count;
                if reserved > u128::MAX || reserved > c.total_allocation || (c.total_allocation
                    - reserved) * st.total_staked > u128::MAX {
                    Err(ContractError::Overflow {})
                } else if w {
                    Ok(c.whitelist_properties.whitelisted_user_allocation as int)
                } else {
                    Ok((c.total_allocation - reserved) * st.total_staked / (staked as int))
                }
            },
        }
    } else {
        Ok(c.total_allocation * staked / (st.total_staked as int))
    }
}

/// A buyer's allocation in the stakers' round, from the stored statistics
/// and the buyer's stake recorded at registration.
pub fn query_user_staker_allocation(
    config: &Config,
    statistics: Option<Statistics>,
    user_total_staked: u128,
    sender: &String,
    merkle_proof: &Option<Vec<String>>,
) -> (r: Result<u128, ContractError>)
    ensures
        match staker_allocation(
            *config,
            stats_or_zero(statistics),
            user_total_staked,
            *sender,
            proof_entries(*merkle_proof),
        ) {
            Err(e) => r == Err::<u128, ContractError>(e),
            Ok(a) => r == Ok::<u128, ContractError>(a as u128) && 0 <= a <= u128::MAX,
        },
{
    let statistics = stats_or_default(statistics);
    if user_total_staked == 0 {
        return Ok(0);
    }
    let product = match config.total_allocation.checked_mul(user_total_staked) {
        Some(v) => v,
        None => return Err(ContractError::Overflow {}),
    };
    if statistics.total_staked == 0 {
        return Err(ContractError::Overflow {});
    }
    let mut user_allocation = product / statistics.total_staked;
    let mut is_whitelisted = false;
    if !config.whitelist_properties.whitelist_merkle_root.as_str().is_empty() {
        is_whitelisted = check_whitelist(config, sender, merkle_proof)?;
        let reserved = match config.whitelist_properties.whitelisted_user_allocation.checked_mul(
            config.whitelist_properties.whitelisted_user_count,
        ) {
            Some(v) => v,
            None => return Err(ContractError::Overflow {}),
        };
        let left = match config.total_allocation.checked_sub(reserved) {
            Some(v) => v,
            None => return Err(ContractError::Overflow {}),
        };
        let scaled = match left.checked_mul(statistics.total_staked) {
            Some(v) => v,
            None => return Err(ContractError::Overflow {}),
        };
        user_allocation = scaled / user_total_staked;
        proof {
            vstd::arithmetic::div_mod::lemma_div_is_ordered_by_denominator(
                scaled as int,
                1,
                user_total_staked as int,
            );
        }
    }
    if is_whitelisted {
        user_allocation = config.whitelist_properties.whitelisted_user_allocation;
    }
    Ok(user_allocation)
}

/// Each buyer's allocation in the open round: what is left of the total,
/// or the configured allocation where there is one; what is left is
/// reckoned first either way.
pub open spec fn fcfs_allocation_of(c: Config, st: Statistics) -> Result<int, ContractError> {
    if st.total_payment_amount > c.total_allocation {
        Err(ContractError::Overflow {})
    } else if c.fcfs_allocation > 0 {
        Ok(c.fcfs_allocation as int)
    } else {
        Ok(c.total_allocation - st.total_payment_amount)
    }
}

/// Each buyer's allocation in the open round, from the stored statistics.
pub fn query_user_fcfs_allocation(config: &Config, statistics: Option<Statistics>) -> (r: Result<
    u128,
    ContractError,
>)
    ensures
        match fcfs_allocation_of(*config, stats_or_zero(statistics)) {
            Err(e) => r == Err::<u128, ContractError>(e),
            Ok(a) => r == Ok::<u128, ContractError>(a as u128),
        },
{
    let statistics = stats_or_default(statistics);
    let mut user_allocation = match config.total_allocation.checked_sub(
        statistics.total_payment_amount,
    ) {
        Some(v) => v,
        None => return Err(ContractError::Overflow {}),
    };
    if config.fcfs_allocation > 0 {
        user_allocation = config.fcfs_allocation;
    }
    Ok(user_allocation)
}

/// A buyer of whom nothing is stored.
pub open spec fn new_user(address: String) -> UserInfo {
    UserInfo {
        address: address,
        registered: false,
        tier: 0,
        total_staked: 0,
        total_payment_amount: 0,
        total_sale_token_amount: 0,
        joined_staker_round: false,
        joined_fcfs_round: false,
    }
}

/// Why an operation of the sale is refused: an error, or a generic error
/// with the message given.
pub enum Refusal {
    Error(ContractError),
    Message(Seq<char>),
}

/// `r` is the refusal `refusal`.
pub open spec fn refused_with<T>(r: Result<T, ContractError>, refusal: Refusal) -> bool {
    match refusal {
        Refusal::Error(e) => r == Err::<T, ContractError>(e),
        Refusal::Message(m) => r matches Err(ContractError::Std(StdError::GenericErr { msg }))
            && msg@ == m,
    }
}

fn generic_err(msg: &str) -> (r: ContractError)
    ensures
        r matches ContractError::Std(StdError::GenericErr { msg: m }) && m@ == msg@,
{
    ContractError::Std(StdError::GenericErr { msg: msg.to_owned() })
}

/// What registering changes: the buyer, the statistics, and the tier and
/// stake recorded.
pub open spec fn register_result(
    c: Config,
    sender: String,
    merkle_proof: Seq<String>,
    now: u64,
    tier: Result<GetUserTierResponse, StdError>,
    user: Option<UserInfo>,
    stats: Statistics,
) -> Result<(UserInfo, Statistics, GetUserTierResponse), Refusal> {
    if c.status.register_paused {
        Err(Refusal::Error(ContractError::RegistrationPaused {}))
    } else {
        match whitelist_result(c, sender, merkle_proof) {
            Err(e) => Err(Refusal::Error(e)),
            Ok(true) => Err(Refusal::Error(ContractError::CannotRegister {})),
            Ok(false) => if now < c.dates.register_start {
                Err(Refusal::Error(ContractError::RegistrationNotStarted {}))
            } else if now > c.dates.register_end {
                Err(Refusal::Error(ContractError::RegistrationClosed {}))
            } else {
                match tier {
                    Err(e) => Err(Refusal::Error(ContractError::Std(e))),
                    Ok(t) => if t.total_staked == 0 {
                        Err(Refusal::Error(ContractError::NotStaker {}))
                    } else if user matches Some(u) && u.registered {
                        Err(Refusal::Message("Already registered"@))
                    } else if stats.total_registered_users + 1 > u128::MAX || stats.total_staked
                        + t.total_staked > u128::MAX {
                        Err(Refusal::Error(ContractError::Overflow {}))
                    } else {
                        let base = match user {
                            Some(u) => u,
                            None => new_user(sender),
                        };
                        Ok(
                            (
                                UserInfo {
                                    address: sender,
                                    registered: true,
                                    tier: t.tier,
                                    total_staked: t.total_staked,
                                    ..base
                                },
                                Statistics {
                                    total_registered_users: (stats.total_registered_users
                                        + 1) as u128,
                                    total_staked: (stats.total_staked + t.total_staked) as u128,
                                    ..stats
                                },
                                t,
                            ),
                        )
                    },
                }
            },
        }
    }
}

/// What a successful registration stores.
#[derive(Debug, PartialEq, Eq)]
pub struct RegisterOutcome {
    pub user_info: UserInfo,
    pub statistics: Statistics,
    pub tier: GetUserTierResponse,
}

/// Registers `sender` for the stakers' round during the registration
/// window, with the tier and stake that the staking-tier controller
/// reported; whitelisted wallets and wallets without a stake may not
/// register, nor may a wallet register twice.
pub fn execute_register(
    config: &Config,
    sender: &String,
    merkle_proof: &Option<Vec<String>>,
    now: u64,
    tier: Result<GetUserTierResponse, StdError>,
    user: Option<UserInfo>,
    statistics: Option<Statistics>,
) -> (r: Result<RegisterOutcome, ContractError>)
    ensures
        match register_result(
            *config,
            *sender,
            proof_entries(*merkle_proof),
            now,
            tier,
            user,
            stats_or_zero(statistics),
        ) {
            Err(refusal) => refused_with(r, refusal),
            Ok((u, st, t)) => r == Ok::<RegisterOutcome, ContractError>(
                RegisterOutcome { user_info: u, statistics: st, tier: t },
            ),
        },
{
    if config.status.register_paused {
        return Err(ContractError::RegistrationPaused {});
    }
    let is_whitelisted = check_whitelist(config, sender, merkle_proof)?;
    if is_whitelisted {
        return Err(ContractError::CannotRegister {});
    }
    if now < config.dates.register_start {
        return Err(ContractError::RegistrationNotStarted {});
    }
    if now > config.dates.register_end {
        return Err(ContractError::RegistrationClosed {});
    }
    let tier = match tier {
        Ok(t) => t,
        Err(e) => return Err(ContractError::Std(e)),
    };
    if tier.total_staked == 0 {
        return Err(ContractError::NotStaker {});
    }
    let mut updated = match user {
        Some(u) => u,
        None => UserInfo {
            address: sender.clone(),
            registered: false,
            tier: 0,
            total_staked: 0,
            total_payment_amount: 0,
            total_sale_token_amount: 0,
            joined_staker_round: false,
            joined_fcfs_round: false,
        },
    };
    if updated.registered {
        return Err(generic_err("Already registered"));
    }
    updated.address = sender.clone();
    updated.registered = true;
    updated.tier = tier.tier;
    updated.total_staked = tier.total_staked;
    let mut statistics = stats_or_default(statistics);
    statistics.total_registered_users = match statistics.total_registered_users.checked_add(1) {
        Some(v) => v,
        None => return Err(ContractError::Overflow {}),
    };
    statistics.total_staked = match statistics.total_staked.checked_add(tier.total_staked) {
        Some(v) => v,
        None => return Err(ContractError::Overflow {}),
    };
    Ok(RegisterOutcome { user_info: updated, statistics, tier })
}

/// The sale tokens bought for `payment`, or `None` where the price cannot
/// be applied.
pub open spec fn sale_tokens_for(c: Config, payment: u128) -> Option<int> {
    let scale = pow_spec(10, (c.sale_token_decimals as u32) as nat);
    if scale > u128::MAX || payment * scale > u128::MAX || c.sale_token_price == 0 {
        None
    } else {
        Some(payment * scale / (c.sale_token_price as int))
    }
}

fn sale_token_amount(config: &Config, payment: u128) -> (r: Result<u128, ContractError>)
    ensures
        match sale_tokens_for(*config, payment) {
            None => r == Err::<u128, ContractError>(ContractError::Overflow {}),
            Some(v) => r == Ok::<u128, ContractError>(v as u128) && 0 <= v <= u128::MAX,
        },
{
    let scale = match checked_pow10(config.sale_token_decimals as u32) {
        Some(v) => v,
        None => return Err(ContractError::Overflow {}),
    };
    let product = match payment.checked_mul(scale) {
        Some(v) => v,
        None => return Err(ContractError::Overflow {}),
    };
    if config.sale_token_price == 0 {
        return Err(ContractError::Overflow {});
    }
    proof {
        vstd::arithmetic::div_mod::lemma_div_is_ordered_by_denominator(
            product as int,
            1,
            config.sale_token_price as int,
        );
    }
    Ok(product / config.sale_token_price)
}

/// The stake recorded of a buyer, or none.
pub open spec fn staked_of(user: Option<UserInfo>) -> u128 {
    match user {
        Some(u) => u.total_staked,
        None => 0,
    }
}

/// The checks on the payment and the window that both rounds make, in
/// order.
pub open spec fn payment_refusal(
    c: Config,
    funds: Seq<Coin>,
    paused: bool,
    paused_error: ContractError,
    start: u64,
    not_started: ContractError,
    end: u64,
    closed: ContractError,
    now: u64,
) -> Option<ContractError> {
    if funds.len() != 1 || funds[0].denom@ != c.payment_denom@ {
        Some(ContractError::InvalidDenom {})
    } else if paused {
        Some(paused_error)
    } else if funds[0].amount == 0 {
        Some(ContractError::InvalidAmount {})
    } else if funds[0].amount < c.min_allocation {
        Some(ContractError::MinAllocationNotReached {})
    } else if now < start {
        Some(not_started)
    } else if now > end {
        Some(closed)
    } else {
        None
    }
}

/// The statistics after a buyer who had joined the stakers' round
/// (`in_staker`) or the open round (`in_fcfs`) pays `payment` in the round
/// that `staker_round` names.
pub open spec fn stats_after_join(
    st: Statistics,
    prev: UserInfo,
    staker_round: bool,
    payment: u128,
) -> Option<Statistics> {
    let first_purchase = !prev.joined_staker_round && !prev.joined_fcfs_round;
    let participants = if first_purchase {
        st.total_participants + 1
    } else {
        st.total_participants as int
    };
    let stakers = if staker_round && !prev.joined_staker_round {
        st.total_staker_round_participants + 1
    } else {
        st.total_staker_round_participants as int
    };
    let fcfs = if !staker_round && !prev.joined_fcfs_round {
        st.total_fcfs_round_participants + 1
    } else {
        st.total_fcfs_round_participants as int
    };
    let paid = st.total_payment_amount + payment;
    if participants > u128::MAX || stakers > u128::MAX || fcfs > u128::MAX || paid > u128::MAX {
        None
    } else {
        Some(
            Statistics {
                total_participants: participants as u128,
                total_staker_round_participants: stakers as u128,
                total_fcfs_round_participants: fcfs as u128,
                total_payment_amount: paid as u128,
                ..st
            },
        )
    }
}

/// The stored buyer, or the buyer as it was before, or a new one.
pub open spec fn user_or_new(user: Option<UserInfo>, sender: String) -> UserInfo {
    match user {
        Some(u) => u,
        None => new_user(sender),
    }
}

/// The buyer after paying `payment` for `tokens` within `allocation`; a
/// buyer must be registered with a stake unless `exempt`.
pub open spec fn user_after_join(
    u: UserInfo,
    exempt: bool,
    staker_round: bool,
    payment: u128,
    tokens: int,
    allocation: int,
    total_allocation: u128,
) -> Result<UserInfo, Refusal> {
    if !exempt && (u.total_staked == 0 || !u.registered) {
        Err(Refusal::Message("Not registered"@))
    } else if u.total_payment_amount + payment > u128::MAX || u.total_sale_token_amount + tokens
        > u128::MAX {
        Err(Refusal::Error(ContractError::Overflow {}))
    } else if u.total_payment_amount + payment > allocation {
        Err(Refusal::Message("Exceed user allocation"@))
    } else if u.total_payment_amount + payment > total_allocation {
        Err(Refusal::Message("Exceed total allocation"@))
    } else {
        Ok(
            UserInfo {
                total_payment_amount: (u.total_payment_amount + payment) as u128,
                total_sale_token_amount: (u.total_sale_token_amount + tokens) as u128,
                joined_staker_round: if staker_round {
                    true
                } else {
                    u.joined_staker_round
                },
                joined_fcfs_round: if staker_round {
                    u.joined_fcfs_round
                } else {
                    true
                },
                ..u
            },
        )
    }
}

/// What joining a round with `allocation` known changes: the buyer, the
/// statistics, the contract's balance and the sale tokens bought.
pub open spec fn join_tail(
    c: Config,
    balance: u128,
    payment: u128,
    sender: String,
    exempt: bool,
    staker_round: bool,
    allocation: int,
    user: Option<UserInfo>,
    stats: Statistics,
) -> Result<(UserInfo, Statistics, int, int), Refusal> {
    if allocation == 0 {
        Err(Refusal::Error(ContractError::NoAllocation {}))
    } else if balance + payment > u128::MAX {
        Err(Refusal::Error(ContractError::Overflow {}))
    } else if balance + payment > c.total_allocation {
        Err(Refusal::Error(ContractError::ExceedTotalAllocation {}))
    } else {
        match sale_tokens_for(c, payment) {
            None => Err(Refusal::Error(ContractError::Overflow {})),
            Some(tokens) => match stats_after_join(
                stats,
                user_or_new(user, sender),
                staker_round,
                payment,
            ) {
                None => Err(Refusal::Error(ContractError::Overflow {})),
                Some(st) => match user_after_join(
                    user_or_new(user, sender),
                    exempt,
                    staker_round,
                    payment,
                    tokens,
                    allocation,
                    c.total_allocation,
                ) {
                    Err(e) => Err(e),
                    Ok(u) => Ok((u, st, balance + payment, tokens)),
                },
            },
        }
    }
}

/// What joining the stakers' round changes.
pub open spec fn join_staker_result(
    c: Config,
    balance: u128,
    funds: Seq<Coin>,
    sender: String,
    merkle_proof: Seq<String>,
    now: u64,
    user: Option<UserInfo>,
    stats: Statistics,
) -> Result<(UserInfo, Statistics, int, int), Refusal> {
    match payment_refusal(
        c,
        funds,
        c.status.staker_paused,
        ContractError::StakerRoundPaused {},
        c.dates.staker_start,
        ContractError::StakerRoundNotStarted {},
        c.dates.staker_end,
        ContractError::StakerRoundClosed {},
        now,
    ) {
        Some(e) => Err(Refusal::Error(e)),
        None => match whitelist_result(c, sender, merkle_proof) {
            Err(e) => Err(Refusal::Error(e)),
            Ok(whitelisted) => match staker_allocation(
                c,
                stats,
                staked_of(user),
                sender,
                merkle_proof,
            ) {
                Err(e) => Err(Refusal::Error(e)),
                Ok(allocation) => join_tail(
                    c,
                    balance,
                    funds[0].amount,
                    sender,
                    whitelisted,
                    true,
                    allocation,
                    user,
                    stats,
                ),
            },
        },
    }
}

/// What joining the open round changes.
pub open spec fn join_fcfs_result(
    c: Config,
    balance: u128,
    funds: Seq<Coin>,
    sender: String,
    now: u64,
    user: Option<UserInfo>,
    stats: Statistics,
) -> Result<(UserInfo, Statistics, int, int), Refusal> {
    match payment_refusal(
        c,
        funds,
        c.status.fcfs_paused,
        ContractError::FcfsRoundPaused {},
        c.dates.fcfs_start,
        ContractError::FcfsRoundNotStarted {},
        c.dates.fcfs_end,
        ContractError::FcfsRoundClosed {},
        now,
    ) {
        Some(e) => Err(Refusal::Error(e)),
        None => match fcfs_allocation_of(c, stats) {
            Err(e) => Err(Refusal::Error(e)),
            Ok(allocation) => join_tail(
                c,
                balance,
                funds[0].amount,
                sender,
                true,
                false,
                allocation,
                user,
                stats,
            ),
        },
    }
}

/// What a successful purchase stores.
#[derive(Debug, PartialEq, Eq)]
pub struct JoinOutcome {
    pub user_info: UserInfo,
    pub statistics: Statistics,
    pub balance: u128,
    pub payment_amount: u128,
    pub sale_token_amount: u128,
}

/// The part of a purchase after the round's own checks: the allocation,
/// the contract's balance, the price, the statistics and the buyer.
fn join_round(
    config: &Config,
    balance: u128,
    payment: u128,
    sender: &String,
    exempt: bool,
    staker_round: bool,
    allocation: u128,
    user: Option<UserInfo>,
    statistics: Statistics,
) -> (r: Result<JoinOutcome, ContractError>)
    ensures
        match join_tail(
            *config,
            balance,
            payment,
            *sender,
            exempt,
            staker_round,
            allocation as int,
            user,
            statistics,
        ) {
            Err(refusal) => refused_with(r, refusal),
            Ok((u, st, b, tokens)) => r == Ok::<JoinOutcome, ContractError>(
                JoinOutcome {
                    user_info: u,
                    statistics: st,
                    balance: b as u128,
                    payment_amount: payment,
                    sale_token_amount: tokens as u128,
                },
            ),
        },
{
    if allocation == 0 {
        return Err(ContractError::NoAllocation {});
    }
    let new_balance = match balance.checked_add(payment) {
        Some(v) => v,
        None => return Err(ContractError::Overflow {}),
    };
    if new_balance > config.total_allocation {
        return Err(ContractError::ExceedTotalAllocation {});
    }
    let tokens = sale_token_amount(config, payment)?;
    let mut updated = match user {
        Some(u) => u,
        None => UserInfo {
            address: sender.clone(),
            registered: false,
            tier: 0,
            total_staked: 0,
            total_payment_amount: 0,
            total_sale_token_amount: 0,
            joined_staker_round: false,
            joined_fcfs_round: false,
        },
    };
    let mut statistics = statistics;
    if !updated.joined_staker_round && !updated.joined_fcfs_round {
        statistics.total_participants = match statistics.total_participants.checked_add(1) {
            Some(v) => v,
            None => return Err(ContractError::Overflow {}),
        };
    }
    if staker_round && !updated.joined_staker_round {
        statistics.total_staker_round_participants = match statistics.total_staker_round_participants.checked_add(
            1,
        ) {
            Some(v) => v,
            None => return Err(ContractError::Overflow {}),
        };
    }
    if !staker_round && !updated.joined_fcfs_round {
        statistics.total_fcfs_round_participants = match statistics.total_fcfs_round_participants.checked_add(
            1,
        ) {
            Some(v) => v,
            None => return Err(ContractError::Overflow {}),
        };
    }
    statistics.total_payment_amount = match statistics.total_payment_amount.checked_add(payment) {
        Some(v) => v,
        None => return Err(ContractError::Overflow {}),
    };
    if !exempt {
        if updated.total_staked == 0 {
            return Err(generic_err("Not registered"));
        }
        if !updated.registered {
            return Err(generic_err("Not registered"));
        }
    }
    updated.total_payment_amount = match updated.total_payment_amount.checked_add(payment) {
        Some(v) => v,
        None => return Err(ContractError::Overflow {}),
    };
    updated.total_sale_token_amount = match updated.total_sale_token_amount.checked_add(tokens) {
        Some(v) => v,
        None => return Err(ContractError::Overflow {}),
    };
    if updated.total_payment_amount > allocation {
        return Err(generic_err("Exceed user allocation"));
    }
    if updated.total_payment_amount > config.total_allocation {
        return Err(generic_err("Exceed total allocation"));
    }
    if staker_round {
        updated.joined_staker_round = true;
    } else {
        updated.joined_fcfs_round = true;
    }
    Ok(
        JoinOutcome {
            user_info: updated,
            statistics,
            balance: new_balance,
            payment_amount: payment,
            sale_token_amount: tokens,
        },
    )
}

/// Buys in the stakers' round with the single coin sent: the payment must
/// be in the payment denomination, reach the minimum, fall in the round's
/// window and stay within the buyer's allocation and the total; the buyer
/// must have registered, unless whitelisted.
pub fn execute_join_staker_round(
    config: &Config,
    balance: u128,
    funds: &Vec<Coin>,
    sender: &String,
    merkle_proof: &Option<Vec<String>>,
    now: u64,
    user: Option<UserInfo>,
    statistics: Option<Statistics>,
) -> (r: Result<JoinOutcome, ContractError>)
    requires
        funds.len() >= 1,
    ensures
        match join_staker_result(
            *config,
            balance,
            funds@,
            *sender,
            proof_entries(*merkle_proof),
            now,
            user,
            stats_or_zero(statistics),
        ) {
            Err(refusal) => refused_with(r, refusal),
            Ok((u, st, b, tokens)) => r == Ok::<JoinOutcome, ContractError>(
                JoinOutcome {
                    user_info: u,
                    statistics: st,
                    balance: b as u128,
                    payment_amount: funds@[0].amount,
                    sale_token_amount: tokens as u128,
                },
            ),
        },
{
    let payment_amount = funds[0].amount;
    if funds.len() != 1 || !funds[0].denom.eq(&config.payment_denom) {
        return Err(ContractError::InvalidDenom {});
    }
    if config.status.staker_paused {
        return Err(ContractError::StakerRoundPaused {});
    }
    if payment_amount == 0 {
        return Err(ContractError::InvalidAmount {});
    }
    if payment_amount < config.min_allocation {
        return Err(ContractError::MinAllocationNotReached {});
    }
    if now < config.dates.staker_start {
        return Err(ContractError::StakerRoundNotStarted {});
    }
    if now > config.dates.staker_end {
        return Err(ContractError::StakerRoundClosed {});
    }
    let is_whitelisted = check_whitelist(config, sender, merkle_proof)?;
    let statistics = stats_or_default(statistics);
    let staked = match &user {
        Some(u) => u.total_staked,
        None => 0,
    };
    let allocation = query_user_staker_allocation(
        config,
        Some(statistics),
        staked,
        sender,
        merkle_proof,
    )?;
    join_round(
        config,
        balance,
        payment_amount,
        sender,
        is_whitelisted,
        true,
        allocation,
        user,
        statistics,
    )
}

/// Buys in the open round with the single coin sent: the payment must be
/// in the payment denomination, reach the minimum, fall in the round's
/// window and stay within each buyer's allocation and the total.
pub fn execute_join_fcfs_round(
    config: &Config,
    balance: u128,
    funds: &Vec<Coin>,
    sender: &String,
    now: u64,
    user: Option<UserInfo>,
    statistics: Option<Statistics>,
) -> (r: Result<JoinOutcome, ContractError>)
    requires
        funds.len() >= 1,
    ensures
        match join_fcfs_result(
            *config,
            balance,
            funds@,
            *sender,
            now,
            user,
            stats_or_zero(statistics),
        ) {
            Err(refusal) => refused_with(r, refusal),
            Ok((u, st, b, tokens)) => r == Ok::<JoinOutcome, ContractError>(
                JoinOutcome {
                    user_info: u,
                    statistics: st,
                    balance: b as u128,
                    payment_amount: funds@[0].amount,
                    sale_token_amount: tokens as u128,
                },
            ),
        },
{
    let payment_amount = funds[0].amount;
    if funds.len() != 1 || !funds[0].denom.eq(&config.payment_denom) {
        return Err(ContractError::InvalidDenom {});
    }
    if config.status.fcfs_paused {
        return Err(ContractError::FcfsRoundPaused {});
    }
    if payment_amount == 0 {
        return Err(ContractError::InvalidAmount {});
    }
    if payment_amount < config.min_allocation {
        return Err(ContractError::MinAllocationNotReached {});
    }
    if now < config.dates.fcfs_start {
        return Err(ContractError::FcfsRoundNotStarted {});
    }
    if now > config.dates.fcfs_end {
        return Err(ContractError::FcfsRoundClosed {});
    }
    let statistics = stats_or_default(statistics);
    let allocation = query_user_fcfs_allocation(config, Some(statistics))?;
    join_round(
        config,
        balance,
        payment_amount,
        sender,
        true,
        false,
        allocation,
        user,
        statistics,
    )
}

/// The terms a sale is created with.
#[derive(Debug, PartialEq, Eq, Clone)]
pub struct InstantiateMsg {
    pub owner: Option<String>,
    pub stake_controller: String,
    pub payment_denom: String,
    pub sale_token_decimals: u64,
    pub sale_token_price: u128,
    pub min_allocation: u128,
    pub total_allocation: u128,
    pub fcfs_allocation: u128,
    pub status: Status,
    pub dates: Dates,
    pub whitelist_properties: WhitelistProperties,
}

#[derive(Debug, PartialEq, Eq, Clone)]
pub enum QueryMsg {
    GetConfig {},
    GetUserTierIndex { address: String },
    Ownership {},
    GetHooks {},
    GetBalance {},
    GetStatistics { height: Option<u64> },
    GetUserInfoAtHeight { address: String, height: Option<u64> },
    GetAllUserInfoAtHeight { start_after: Option<String>, limit: Option<u32>, height: Option<u64> },
    GetUserStakerAllocation { address: String, merkle_proof: Option<Vec<String>> },
    GetUserFCFSAllocation {},
    VerifyProof { address: String, merkle_proof: Vec<String> },
}

#[derive(Debug, PartialEq, Eq, Clone)]
pub enum MigrateMsg {
    FromV1 {},
}

#[derive(Debug, PartialEq, Eq, Clone)]
pub struct GetHooksResponse {
    pub hooks: Vec<String>,
}

/// Creates the sale's configuration, owned by the sender, with the
/// staking-tier controller's address as the chain validated it.
pub fn instantiate(
    sender: String,
    msg: InstantiateMsg,
    stake_controller: Result<String, StdError>,
) -> (r: Result<Config, ContractError>)
    ensures
        match stake_controller {
            Err(e) => r == Err::<Config, ContractError>(ContractError::Std(e)),
            Ok(a) => r == Ok::<Config, ContractError>(
                Config {
                    owner: sender,
                    stake_controller: a,
                    payment_denom: msg.payment_denom,
                    sale_token_decimals: msg.sale_token_decimals,
                    sale_token_price: msg.sale_token_price,
                    min_allocation: msg.min_allocation,
                    total_allocation: msg.total_allocation,
                    fcfs_allocation: msg.fcfs_allocation,
                    status: msg.status,
                    dates: msg.dates,
                    whitelist_properties: msg.whitelist_properties,
                },
            ),
        },
{
    let stake_controller = match stake_controller {
        Ok(a) => a,
        Err(e) => return Err(ContractError::Std(e)),
    };
    Ok(
        Config {
            owner: sender,
            stake_controller,
            payment_denom: msg.payment_denom,
            sale_token_decimals: msg.sale_token_decimals,
            sale_token_price: msg.sale_token_price,
            min_allocation: msg.min_allocation,
            total_allocation: msg.total_allocation,
            fcfs_allocation: msg.fcfs_allocation,
            status: msg.status,
            dates: msg.dates,
            whitelist_properties: msg.whitelist_properties,
        },
    )
}

/// Replaces the sale's terms; only the owner may. The configuration's
/// owner stays.
pub fn execute_update_config(
    owner: &Option<String>,
    sender: &String,
    config: Config,
    stake_controller: Result<String, StdError>,
    payment_denom: String,
    sale_token_decimals: u64,
    sale_token_price: u128,
    min_allocation: u128,
    total_allocation: u128,
    fcfs_allocation: u128,
    status: Status,
    dates: Dates,
    whitelist_properties: WhitelistProperties,
) -> (r: Result<Config, ContractError>)
    ensures
        match owner_check(*owner, *sender) {
            Err(e) => r == Err::<Config, ContractError>(ContractError::Ownership(e)),
            Ok(_) => match stake_controller {
                Err(e) => r == Err::<Config, ContractError>(ContractError::Std(e)),
                Ok(a) => r == Ok::<Config, ContractError>(
                    Config {
                        owner: config.owner,
                        stake_controller: a,
                        payment_denom,
                        sale_token_decimals,
                        sale_token_price,
                        min_allocation,
                        total_allocation,
                        fcfs_allocation,
                        status,
                        dates,
                        whitelist_properties,
                    },
                ),
            },
        },
{
    if let Err(e) = assert_owner(owner, sender) {
        return Err(ContractError::Ownership(e));
    }
    let stake_controller = match stake_controller {
        Ok(a) => a,
        Err(e) => return Err(ContractError::Std(e)),
    };
    Ok(
        Config {
            owner: config.owner,
            stake_controller,
            payment_denom,
            sale_token_decimals,
            sale_token_price,
            min_allocation,
            total_allocation,
            fcfs_allocation,
            status,
            dates,
            whitelist_properties,
        },
    )
}

/// Pays the owner the contract's recorded balance of the payment
/// denomination; the record is left as it is.
pub fn execute_withdraw(owner: &Option<String>, sender: &String, config: &Config, balance: u128) -> (r:
    Result<Vec<Payout>, ContractError>)
    ensures
        match owner_check(*owner, *sender) {
            Err(e) => r == Err::<Vec<Payout>, ContractError>(ContractError::Ownership(e)),
            Ok(_) => r matches Ok(v) && v@ == seq![
                Payout::BankSend {
                    to_address: *sender,
                    denom: config.payment_denom,
                    amount: balance,
                },
            ],
        },
{
    if let Err(e) = assert_owner(owner, sender) {
        return Err(ContractError::Ownership(e));
    }
    Ok(
        vec![
            Payout::BankSend {
                to_address: sender.clone(),
                denom: config.payment_denom.clone(),
                amount: balance,
            },
        ],
    )
}

// ---------------------------------------------------------------------
// Laws
// ---------------------------------------------------------------------

/// A purchase in either round keeps the sale within its terms: the
/// contract's balance grows by the payment and stays within the total
/// allocation, the buyer's payments stay within the buyer's allocation and
/// the total, and the statistics record the payment.
pub proof fn lemma_join_stays_within_allocation(
    c: Config,
    balance: u128,
    payment: u128,
    sender: String,
    exempt: bool,
    staker_round: bool,
    allocation: int,
    user: Option<UserInfo>,
    stats: Statistics,
)
    requires
        join_tail(c, balance, payment, sender, exempt, staker_round, allocation, user, stats) is Ok,
    ensures
        ({
            let (u, st, b, tokens) = join_tail(
                c,
                balance,
                payment,
                sender,
                exempt,
                staker_round,
                allocation,
                user,
                stats,
            )->Ok_0;
            &&& b == balance + payment
            &&& b <= c.total_allocation
            &&& u.total_payment_amount == user_or_new(user, sender).total_payment_amount + payment
            &&& u.total_payment_amount <= allocation
            &&& u.total_payment_amount <= c.total_allocation
            &&& st.total_payment_amount == stats.total_payment_amount + payment
            &&& if staker_round {
                u.joined_staker_round
            } else {
                u.joined_fcfs_round
            }
        }),
{
}

/// Only a registered buyer with a stake, or a whitelisted one, buys in the
/// stakers' round.
pub proof fn lemma_staker_round_needs_registration(
    c: Config,
    balance: u128,
    funds: Seq<Coin>,
    sender: String,
    merkle_proof: Seq<String>,
    now: u64,
    user: Option<UserInfo>,
    stats: Statistics,
)
    requires
        join_staker_result(c, balance, funds, sender, merkle_proof, now, user, stats) is Ok,
    ensures
        whitelist_result(c, sender, merkle_proof) == Ok::<bool, ContractError>(true) || (
        user matches Some(u) && u.registered && u.total_staked > 0),
{
}

/// A wallet registers once: after a registration went through, every
/// later registration of the stored buyer is refused.
pub proof fn lemma_register_once(
    c: Config,
    sender: String,
    merkle_proof: Seq<String>,
    now: u64,
    tier: Result<GetUserTierResponse, StdError>,
    user: Option<UserInfo>,
    stats: Statistics,
    later_proof: Seq<String>,
    later: u64,
    later_tier: Result<GetUserTierResponse, StdError>,
    later_stats: Statistics,
)
    requires
        register_result(c, sender, merkle_proof, now, tier, user, stats) is Ok,
    ensures
        register_result(
            c,
            sender,
            later_proof,
            later,
            later_tier,
            Some(register_result(c, sender, merkle_proof, now, tier, user, stats)->Ok_0.0),
            later_stats,
        ) is Err,
{
}

/// The contract's balance and the payments recorded move together: where
/// they agree before a purchase, they agree after it.
pub proof fn lemma_join_keeps_balance_with_payments(
    c: Config,
    balance: u128,
    payment: u128,
    sender: String,
    exempt: bool,
    staker_round: bool,
    allocation: int,
    user: Option<UserInfo>,
    stats: Statistics,
)
    requires
        join_tail(c, balance, payment, sender, exempt, staker_round, allocation, user, stats) is Ok,
        balance == stats.total_payment_amount,
    ensures
        ({
            let (u, st, b, tokens) = join_tail(
                c,
                balance,
                payment,
                sender,
                exempt,
                staker_round,
                allocation,
                user,
                stats,
            )->Ok_0;
            b == st.total_payment_amount
        }),
{
}

/// The stakes added up.
pub open spec fn stake_sum(stakes: Seq<u128>) -> int
    decreases stakes.len(),
{
    if stakes.len() == 0 {
        0
    } else {
        stake_sum(stakes.drop_last()) + stakes.last()
    }
}

/// The stakers' round allocations of stakers with the given stakes, added
/// up.
pub open spec fn allocation_total(
    c: Config,
    st: Statistics,
    stakes: Seq<u128>,
    sender: String,
    merkle_proof: Seq<String>,
) -> int
    decreases stakes.len(),
{
    if stakes.len() == 0 {
        0
    } else {
        allocation_total(c, st, stakes.drop_last(), sender, merkle_proof) + staker_allocation(
            c,
            st,
            stakes.last(),
            sender,
            merkle_proof,
        )->Ok_0
    }
}

proof fn lemma_div_add_le(a: int, b: int, d: int)
    requires
        a >= 0,
        b >= 0,
        d > 0,
    ensures
        a / d + b / d <= (a + b) / d,
{
    vstd::arithmetic::div_mod::lemma_fundamental_div_mod(a, d);
    vstd::arithmetic::div_mod::lemma_fundamental_div_mod(b, d);
    vstd::arithmetic::div_mod::lemma_fundamental_div_mod(a + b, d);
    let qa = a / d;
    let qb = b / d;
    let q = (a + b) / d;
    assert(qa + qb <= q) by (nonlinear_arith)
        requires
            a == d * qa + a % d,
            b == d * qb + b % d,
            a + b == d * q + (a + b) % d,
            0 <= a % d < d,
            0 <= b % d < d,
            0 <= (a + b) % d < d,
            d > 0,
    ;
}

proof fn lemma_allocation_total_bound(
    c: Config,
    st: Statistics,
    stakes: Seq<u128>,
    sender: String,
    merkle_proof: Seq<String>,
)
    requires
        c.whitelist_properties.whitelist_merkle_root@.len() == 0,
        st.total_staked > 0,
        forall|i: int| 0 <= i < stakes.len() ==> c.total_allocation * #[trigger] stakes[i] <= u128::MAX,
    ensures
        stake_sum(stakes) >= 0,
        0 <= allocation_total(c, st, stakes, sender, merkle_proof) <= c.total_allocation * stake_sum(
            stakes,
        ) / (st.total_staked as int),
    decreases stakes.len(),
{
    if stakes.len() > 0 {
        let rest = stakes.drop_last();
        let x = stakes.last();
        assert(forall|i: int| 0 <= i < rest.len() ==> rest[i] == stakes[i]);
        lemma_allocation_total_bound(c, st, rest, sender, merkle_proof);
        let t = c.total_allocation as int;
        let d = st.total_staked as int;
        assert(c.total_allocation * x <= u128::MAX) by {
            assert(stakes[stakes.len() - 1] == x);
        }
        assert(staker_allocation(c, st, x, sender, merkle_proof)->Ok_0 == t * x / d);
        assert(t * stake_sum(rest) >= 0 && t * x >= 0) by (nonlinear_arith)
            requires
                t >= 0,
                stake_sum(rest) >= 0,
                x >= 0,
        ;
        lemma_div_add_le(t * stake_sum(rest), t * x, d);
        vstd::arithmetic::div_mod::lemma_div_pos_is_pos(t * x, d);
        assert(t * stake_sum(rest) + t * x == t * stake_sum(stakes)) by (nonlinear_arith)
            requires
                stake_sum(stakes) == stake_sum(rest) + x,
        ;
    }
}

/// The stakers' round shares out no more than the total allocation: where
/// there is no whitelist and the statistics record the stakes of all
/// registered stakers, their allocations together stay within the total.
pub proof fn lemma_staker_allocations_within_total(
    c: Config,
    st: Statistics,
    stakes: Seq<u128>,
    sender: String,
    merkle_proof: Seq<String>,
)
    requires
        c.whitelist_properties.whitelist_merkle_root@.len() == 0,
        st.total_staked == stake_sum(stakes),
        st.total_staked > 0,
        forall|i: int| 0 <= i < stakes.len() ==> c.total_allocation * #[trigger] stakes[i] <= u128::MAX,
    ensures
        allocation_total(c, st, stakes, sender, merkle_proof) <= c.total_allocation,
{
    lemma_allocation_total_bound(c, st, stakes, sender, merkle_proof);
    let t = c.total_allocation as int;
    let d = st.total_staked as int;
    assert(t * d / d == t) by {
        vstd::arithmetic::div_mod::lemma_div_by_multiple(t, d);
    }
}

/// A fresh sale after the first `n` of `senders`, each new to the sale,
/// join the open round once each with `coin`: the contract's balance, the
/// statistics and the buyers in order, or the first refusal.
pub open spec fn fcfs_run(c: Config, coin: Coin, senders: Seq<String>, now: u64, n: nat) -> Result<
    (int, Statistics, Seq<UserInfo>),
    Refusal,
>
    decreases n,
{
    if n == 0 {
        Ok((0, zero_stats(), Seq::empty()))
    } else {
        match fcfs_run(c, coin, senders, now, (n - 1) as nat) {
            Err(e) => Err(e),
            Ok((b, st, users)) => if 0 <= b <= u128::MAX {
                match join_fcfs_result(c, b as u128, seq![coin], senders[n - 1], now, None, st) {
                    Err(e) => Err(e),
                    Ok((u, st2, b2, tokens)) => Ok((b2, st2, users.push(u))),
                }
            } else {
                Err(Refusal::Error(ContractError::Overflow {}))
            },
        }
    }
}

/// Buyers new to the sale who each pay `coin` in the open round all get
/// through as long as their payments together stay within the total
/// allocation: after `n` of them the contract holds `n` payments, the
/// statistics count `n` participants in the open round and `n` payments,
/// and each buyer is recorded with its one payment.
pub proof fn lemma_fcfs_joins_add_up(c: Config, coin: Coin, senders: Seq<String>, now: u64, n: nat)
    requires
        n <= senders.len(),
        coin.denom@ == c.payment_denom@,
        !c.status.fcfs_paused,
        coin.amount > 0,
        coin.amount >= c.min_allocation,
        c.dates.fcfs_start <= now <= c.dates.fcfs_end,
        c.fcfs_allocation == 0 || coin.amount <= c.fcfs_allocation,
        n * coin.amount <= c.total_allocation,
        sale_tokens_for(c, coin.amount) is Some,
    ensures
        fcfs_run(c, coin, senders, now, n) is Ok,
        ({
            let (b, st, users) = fcfs_run(c, coin, senders, now, n)->Ok_0;
            &&& b == n * coin.amount
            &&& st.total_payment_amount == b
            &&& st.total_fcfs_round_participants == n
            &&& st.total_participants == n
            &&& st.total_staker_round_participants == 0
            &&& st.total_registered_users == 0
            &&& st.total_staked == 0
            &&& users.len() == n
            &&& forall|i: int|
                0 <= i < n ==> (#[trigger] users[i]).joined_fcfs_round && !users[i].joined_staker_round
                    && users[i].total_payment_amount == coin.amount && users[i].address
                    == senders[i]
        }),
    decreases n,
{
    if n == 0 {
        assert(0 * coin.amount == 0) by (nonlinear_arith);
    } else {
        let m = (n - 1) as nat;
        let a = coin.amount as int;
        assert(m * a + a == n * a) by (nonlinear_arith)
            requires
                n == m + 1,
        ;
        assert(0 <= m * a) by (nonlinear_arith)
            requires
                a >= 0,
        ;
        assert(n <= n * a) by (nonlinear_arith)
            requires
                a >= 1,
        ;
        lemma_fcfs_joins_add_up(c, coin, senders, now, m);
        let (b, st, users) = fcfs_run(c, coin, senders, now, m)->Ok_0;
        let funds = seq![coin];
        assert(funds.len() == 1 && funds[0] == coin);
        assert(payment_refusal(
            c,
            funds,
            c.status.fcfs_paused,
            ContractError::FcfsRoundPaused {},
            c.dates.fcfs_start,
            ContractError::FcfsRoundNotStarted {},
            c.dates.fcfs_end,
            ContractError::FcfsRoundClosed {},
            now,
        ) is None);
        let allocation = fcfs_allocation_of(c, st)->Ok_0;
        assert(allocation >= a);
        let sender = senders[m as int];
        let tokens = sale_tokens_for(c, coin.amount)->Some_0;
        let scale = pow_spec(10, (c.sale_token_decimals as u32) as nat);
        assert(0 <= a * scale) by {
            lemma_pow10_positive((c.sale_token_decimals as u32) as nat);
            assert(0 <= a * scale) by (nonlinear_arith)
                requires
                    a >= 0,
                    scale >= 1,
            ;
        }
        vstd::arithmetic::div_mod::lemma_div_is_ordered_by_denominator(
            a * scale,
            1,
            c.sale_token_price as int,
        );
        vstd::arithmetic::div_mod::lemma_div_pos_is_pos(a * scale, c.sale_token_price as int);
        assert(0 <= tokens <= u128::MAX);
        assert(stats_after_join(st, new_user(sender), false, coin.amount) is Some);
        assert(user_after_join(
            new_user(sender),
            true,
            false,
            coin.amount,
            tokens,
            allocation,
            c.total_allocation,
        ) is Ok);
        let (b1, st1, users1) = fcfs_run(c, coin, senders, now, n)->Ok_0;
        assert(users1 == users.push(users1[m as int]));
        assert forall|i: int| 0 <= i < n implies (#[trigger] users1[i]).joined_fcfs_round
            && !users1[i].joined_staker_round && users1[i].total_payment_amount == coin.amount
            && users1[i].address == senders[i] by {
            if i < m {
                assert(users1[i] == users[i]);
            }
        }
    }
}

/// A purchase in the stakers' round counts the buyer as a participant
/// exactly when it had joined neither round before, and as a stakers' round
/// participant exactly when it had not joined that round; it adds the
/// payment to the buyer, the statistics and the contract's balance, and
/// credits the sale tokens the payment buys at the price.
pub proof fn lemma_staker_join_counts_participants(
    c: Config,
    balance: u128,
    funds: Seq<Coin>,
    sender: String,
    merkle_proof: Seq<String>,
    now: u64,
    user: Option<UserInfo>,
    stats: Statistics,
)
    requires
        join_staker_result(c, balance, funds, sender, merkle_proof, now, user, stats) is Ok,
    ensures
        ({
            let (u, st, b, tokens) = join_staker_result(
                c,
                balance,
                funds,
                sender,
                merkle_proof,
                now,
                user,
                stats,
            )->Ok_0;
            let prev = user_or_new(user, sender);
            let paid = funds[0].amount;
            &&& st.total_participants == stats.total_participants + (if !prev.joined_staker_round
                && !prev.joined_fcfs_round {
                1int
            } else {
                0int
            })
            &&& st.total_staker_round_participants == stats.total_staker_round_participants + (
            if !prev.joined_staker_round {
                1int
            } else {
                0int
            })
            &&& st.total_fcfs_round_participants == stats.total_fcfs_round_participants
            &&& st.total_payment_amount == stats.total_payment_amount + paid
            &&& st.total_registered_users == stats.total_registered_users
            &&& st.total_staked == stats.total_staked
            &&& b == balance + paid
            &&& tokens == paid * pow_spec(10, (c.sale_token_decimals as u32) as nat) / (
            c.sale_token_price as int)
            &&& u.joined_staker_round
            &&& u.joined_fcfs_round == prev.joined_fcfs_round
            &&& u.registered == prev.registered
            &&& u.total_payment_amount == prev.total_payment_amount + paid
            &&& u.total_sale_token_amount == prev.total_sale_token_amount + tokens
        }),
{
    let paid = funds[0].amount as int;
    let e = (c.sale_token_decimals as u32) as nat;
    lemma_pow10_positive(e);
    let scale = pow_spec(10, e);
    assert(paid * scale >= 0) by (nonlinear_arith)
        requires
            paid >= 0,
            scale >= 1,
    ;
    if c.sale_token_price > 0 {
        vstd::arithmetic::div_mod::lemma_div_pos_is_pos(paid * scale, c.sale_token_price as int);
    }
}

/// A purchase in the open round counts the buyer as a participant exactly
/// when it had joined neither round before, and as an open round
/// participant exactly when it had not joined that round; it adds the
/// payment to the buyer, the statistics and the contract's balance, and
/// credits the sale tokens the payment buys at the price.
pub proof fn lemma_fcfs_join_counts_participants(
    c: Config,
    balance: u128,
    funds: Seq<Coin>,
    sender: String,
    now: u64,
    user: Option<UserInfo>,
    stats: Statistics,
)
    requires
        join_fcfs_result(c, balance, funds, sender, now, user, stats) is Ok,
    ensures
        ({
            let (u, st, b, tokens) = join_fcfs_result(c, balance, funds, sender, now, user, stats)->Ok_0;
            let prev = user_or_new(user, sender);
            let paid = funds[0].amount;
            &&& st.total_participants == stats.total_participants + (if !prev.joined_staker_round
                && !prev.joined_fcfs_round {
                1int
            } else {
                0int
            })
            &&& st.total_fcfs_round_participants == stats.total_fcfs_round_participants + (
            if !prev.joined_fcfs_round {
                1int
            } else {
                0int
            })
            &&& st.total_staker_round_participants == stats.total_staker_round_participants
            &&& st.total_payment_amount == stats.total_payment_amount + paid
            &&& st.total_registered_users == stats.total_registered_users
            &&& st.total_staked == stats.total_staked
            &&& b == balance + paid
            &&& tokens == paid * pow_spec(10, (c.sale_token_decimals as u32) as nat) / (
            c.sale_token_price as int)
            &&& u.joined_fcfs_round
            &&& u.joined_staker_round == prev.joined_staker_round
            &&& u.registered == prev.registered
            &&& u.total_payment_amount == prev.total_payment_amount + paid
            &&& u.total_sale_token_amount == prev.total_sale_token_amount + tokens
        }),
{
    let paid = funds[0].amount as int;
    let e = (c.sale_token_decimals as u32) as nat;
    lemma_pow10_positive(e);
    let scale = pow_spec(10, e);
    assert(paid * scale >= 0) by (nonlinear_arith)
        requires
            paid >= 0,
            scale >= 1,
    ;
    if c.sale_token_price > 0 {
        vstd::arithmetic::div_mod::lemma_div_pos_is_pos(paid * scale, c.sale_token_price as int);
    }
}

/// A registration counts one more registered buyer and adds the stake the
/// controller reported to the total staked; the buyer is recorded
/// registered, at `sender`, with that tier and stake, and nothing else of
/// it or of the statistics changes.
pub proof fn lemma_register_records_stake(
    c: Config,
    sender: String,
    merkle_proof: Seq<String>,
    now: u64,
    tier: Result<GetUserTierResponse, StdError>,
    user: Option<UserInfo>,
    stats: Statistics,
)
    requires
        register_result(c, sender, merkle_proof, now, tier, user, stats) is Ok,
    ensures
        ({
            let (u, st, t) = register_result(c, sender, merkle_proof, now, tier, user, stats)->Ok_0;
            let prev = user_or_new(user, sender);
            &&& tier == Ok::<GetUserTierResponse, StdError>(t)
            &&& t.total_staked > 0
            &&& c.dates.register_start <= now <= c.dates.register_end
            &&& !prev.registered
            &&& st.total_registered_users == stats.total_registered_users + 1
            &&& st.total_staked == stats.total_staked + t.total_staked
            &&& st.total_participants == stats.total_participants
            &&& st.total_payment_amount == stats.total_payment_amount
            &&& u.registered && u.address == sender && u.tier == t.tier
            &&& u.total_staked == t.total_staked
            &&& u.total_payment_amount == prev.total_payment_amount
            &&& u.joined_staker_round == prev.joined_staker_round
            &&& u.joined_fcfs_round == prev.joined_fcfs_round
        }),
{
}

/// A buyer without a stake has no stakers' round allocation; without a
/// whitelist a staker's allocation is its share of the total allocation in
/// proportion to its stake among all stakes; a whitelisted buyer gets the
/// whitelisted allocation.
pub proof fn lemma_staker_allocation_shares(
    c: Config,
    st: Statistics,
    staked: u128,
    sender: String,
    merkle_proof: Seq<String>,
)
    requires
        staker_allocation(c, st, staked, sender, merkle_proof) is Ok,
    ensures
        ({
            let a = staker_allocation(c, st, staked, sender, merkle_proof)->Ok_0;
            &&& staked == 0 ==> a == 0
            &&& (staked > 0 && c.whitelist_properties.whitelist_merkle_root@.len() == 0) ==> a
                == c.total_allocation * staked / (st.total_staked as int)
            &&& (staked > 0 && whitelist_result(c, sender, merkle_proof) == Ok::<
                bool,
                ContractError,
            >(true)) ==> a == c.whitelist_properties.whitelisted_user_allocation
        }),
{
}

} // verus!
