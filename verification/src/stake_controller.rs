//! The staking-tier controller: a wallet's total stake is the sum over the
//! staking contracts of its stake there, each weighted by the contract's
//! multiplier; its tier is the number of tier thresholds the total
//! reaches, unless the owner set a custom tier for it.
use vstd::prelude::*;
use crate::common::{StdError, OwnershipError, owner_check, assert_owner, validated_all, collect_validated, copy_std_error};

verus! {

#[derive(Debug, PartialEq, Eq, Clone)]
pub struct Config {
    pub token_address: String,
    pub stake_contracts: Vec<String>,
    /// The weight of each staking contract, in basis points.
    pub stake_contract_multipliers: Vec<u64>,
    /// The totals each tier needs, lowest tier first.
    pub tier_thresholds: Vec<u128>,
}

/// The errors of the staking-tier controller.
#[derive(Debug, PartialEq, Eq)]
pub enum ContractError {
    Std(StdError),
    Ownership(OwnershipError),
    InvalidCw20 {},
    InvalidInputLength {},
    /// Arithmetic that the contract cannot carry out: the chain aborts the
    /// transaction.
    Overflow {},
}

#[derive(Debug, PartialEq, Eq, Clone)]
pub struct InstantiateMsg {
    pub owner: Option<String>,
    pub token_address: String,
    pub stake_contracts: Vec<String>,
    pub stake_contract_multipliers: Vec<u64>,
    pub tier_thresholds: Vec<u128>,
}

#[derive(Debug, PartialEq, Eq, Clone)]
pub enum QueryMsg {
    GetConfig {},
    Ownership {},
    GetUserTierIndex { address: String },
    GetTotalStaked { address: String },
    GetStakedValue { address: String },
    GetUserCustomTier { address: String },
}

#[derive(Debug, PartialEq, Eq, Clone)]
pub enum MigrateMsg {
    FromV1 {},
}

#[derive(Debug, PartialEq, Eq, Clone, Copy)]
pub struct GetUserTierResponse {
    pub tier: u64,
    pub total_staked: u128,
}

#[derive(Debug, PartialEq, Eq, Clone, Copy)]
pub struct GetStakedValueResponse {
    pub value: u128,
}

/// The weighted stake over the first `n` staking contracts, each stake as
/// the contract reported it; the first failed report or overflow stops it.
pub open spec fn weighted_total(
    staked: Seq<Result<u128, StdError>>,
    multipliers: Seq<u64>,
    n: nat,
) -> Result<int, ContractError>
    decreases n,
{
    if n == 0 {
        Ok(0)
    } else {
        match weighted_total(staked, multipliers, (n - 1) as nat) {
            Err(e) => Err(e),
            Ok(acc) => match staked[n - 1] {
                Err(e) => Err(ContractError::Std(e)),
                Ok(s) => if s * multipliers[n - 1] > u128::MAX || acc + s * multipliers[n - 1]
                    / 10000 > u128::MAX {
                    Err(ContractError::Overflow {})
                } else {
                    Ok(acc + s * multipliers[n - 1] / 10000)
                },
            },
        }
    }
}

proof fn lemma_weighted_total_error_persists(
    staked: Seq<Result<u128, StdError>>,
    multipliers: Seq<u64>,
    k: nat,
    n: nat,
)
    requires
        k <= n,
        weighted_total(staked, multipliers, k) is Err,
    ensures
        weighted_total(staked, multipliers, n) == weighted_total(staked, multipliers, k),
    decreases n - k,
{
    if k < n {
        lemma_weighted_total_error_persists(staked, multipliers, k, (n - 1) as nat);
    }
}

/// A wallet's weighted total stake, from its stake in each staking
/// contract as the contract reported it.
#[verifier::loop_isolation(false)]
pub fn query_total_staked(config: &Config, staked: &Vec<Result<u128, StdError>>) -> (r: Result<
    u128,
    ContractError,
>)
    requires
        staked.len() == config.stake_contracts.len(),
        config.stake_contract_multipliers.len() >= config.stake_contracts.len(),
    ensures
        match weighted_total(staked@, config.stake_contract_multipliers@, staked.len() as nat) {
            Err(e) => r == Err::<u128, ContractError>(e),
            Ok(t) => r == Ok::<u128, ContractError>(t as u128),
        },
{
    let mut total: u128 = 0;
    let mut i: usize = 0;
    while i < staked.len()
        invariant
            i <= staked.len(),
            weighted_total(staked@, config.stake_contract_multipliers@, i as nat) == Ok::<
                int,
                ContractError,
            >(total as int),
        decreases staked.len() - i,
    {
        let amount = match &staked[i] {
            Ok(a) => *a,
            Err(e) => {
                proof {
                    lemma_weighted_total_error_persists(
                        staked@,
                        config.stake_contract_multipliers@,
                        (i + 1) as nat,
                        staked.len() as nat,
                    );
                }
                return Err(ContractError::Std(copy_std_error(e)));
            },
        };
        let multiplier = config.stake_contract_multipliers[i];
        let weighted = match amount.checked_mul(multiplier as u128) {
            Some(v) => v / 10000,
            None => {
                proof {
                    lemma_weighted_total_error_persists(
                        staked@,
                        config.stake_contract_multipliers@,
                        (i + 1) as nat,
                        staked.len() as nat,
                    );
                }
                return Err(ContractError::Overflow {});
            },
        };
        total = match total.checked_add(weighted) {
            Some(v) => v,
            None => {
                proof {
                    lemma_weighted_total_error_persists(
                        staked@,
                        config.stake_contract_multipliers@,
                        (i + 1) as nat,
                        staked.len() as nat,
                    );
                }
                return Err(ContractError::Overflow {});
            },
        };
        i = i + 1;
    }
    Ok(total)
}

/// The number of leading thresholds, from position `i` on, that `total`
/// reaches.
pub open spec fn tier_from(thresholds: Seq<u128>, total: u128, i: int) -> int
    decreases thresholds.len() - i,
{
    if i < 0 || i >= thresholds.len() {
        i
    } else if total < thresholds[i] {
        i
    } else {
        tier_from(thresholds, total, i + 1)
    }
}

/// The tier of `total`: the number of leading thresholds it reaches.
pub open spec fn tier_of(thresholds: Seq<u128>, total: u128) -> int {
    tier_from(thresholds, total, 0)
}

proof fn lemma_tier_from_range(thresholds: Seq<u128>, total: u128, i: int)
    requires
        0 <= i <= thresholds.len(),
    ensures
        i <= tier_from(thresholds, total, i) <= thresholds.len(),
    decreases thresholds.len() - i,
{
    if i < thresholds.len() && total >= thresholds[i] {
        lemma_tier_from_range(thresholds, total, i + 1);
    }
}

/// A wallet's tier and weighted total stake: the custom tier the owner set
/// for it, with no stake reckoned, or else the tier its total reaches.
pub fn query_user_tier_index(
    config: &Config,
    custom_tier: Option<u64>,
    staked: &Vec<Result<u128, StdError>>,
) -> (r: Result<GetUserTierResponse, ContractError>)
    requires
        staked.len() == config.stake_contracts.len(),
        config.stake_contract_multipliers.len() >= config.stake_contracts.len(),
        config.tier_thresholds.len() < u64::MAX,
    ensures
        match custom_tier {
            Some(t) => r == Ok::<GetUserTierResponse, ContractError>(
                GetUserTierResponse { tier: t, total_staked: 0 },
            ),
            None => match weighted_total(
                staked@,
                config.stake_contract_multipliers@,
                staked.len() as nat,
            ) {
                Err(e) => r == Err::<GetUserTierResponse, ContractError>(e),
                Ok(t) => r == Ok::<GetUserTierResponse, ContractError>(
                    GetUserTierResponse {
                        tier: tier_of(config.tier_thresholds@, t as u128) as u64,
                        total_staked: t as u128,
                    },
                ),
            },
        },
{
    if let Some(t) = custom_tier {
        return Ok(GetUserTierResponse { tier: t, total_staked: 0 });
    }
    let total_staked = query_total_staked(config, staked)?;
    let mut tier: u64 = 0;
    let mut i: usize = 0;
    proof {
        lemma_tier_from_range(config.tier_thresholds@, total_staked, 0);
    }
    while i < config.tier_thresholds.len() && total_staked >= config.tier_thresholds[i]
        invariant
            i <= config.tier_thresholds.len(),
            config.tier_thresholds.len() < u64::MAX,
            tier == i,
            tier_of(config.tier_thresholds@, total_staked) == tier_from(
                config.tier_thresholds@,
                total_staked,
                i as int,
            ),
        decreases config.tier_thresholds.len() - i,
    {
        tier = i as u64 + 1;
        i = i + 1;
    }
    Ok(GetUserTierResponse { tier, total_staked })
}

/// A wallet's custom tier; a wallet without one is reported missing.
pub fn query_user_custom_tier(stored: Option<u64>) -> (r: Result<u64, ContractError>)
    ensures
        match stored {
            Some(t) => r == Ok::<u64, ContractError>(t),
            None => r matches Err(ContractError::Std(StdError::NotFound { kind }))
                && kind@ == "custom_tiers"@,
        },
{
    match stored {
        Some(t) => Ok(t),
        None => Err(ContractError::Std(StdError::NotFound { kind: "custom_tiers".to_owned() })),
    }
}

/// Creates the configuration from the message, the token's and the
/// staking contracts' addresses as the chain validated them, and whether
/// the token answered as a cw20 token; there must be one multiplier per
/// staking contract.
pub fn instantiate(
    msg: InstantiateMsg,
    token_address: Result<String, StdError>,
    token_is_cw20: bool,
    stake_contracts: &Vec<Result<String, StdError>>,
) -> (r: Result<Config, ContractError>)
    ensures
        match token_address {
            Err(e) => r == Err::<Config, ContractError>(ContractError::Std(e)),
            Ok(t) => if !token_is_cw20 {
                r == Err::<Config, ContractError>(ContractError::InvalidCw20 {})
            } else {
                match validated_all(stake_contracts@) {
                    Err(e) => r == Err::<Config, ContractError>(ContractError::Std(e)),
                    Ok(contracts) => if contracts.len() != msg.stake_contract_multipliers.len() {
                        r == Err::<Config, ContractError>(ContractError::InvalidInputLength {})
                    } else {
                        r matches Ok(c) && c.token_address == t && c.stake_contracts@ == contracts
                            && c.stake_contract_multipliers == msg.stake_contract_multipliers
                            && c.tier_thresholds == msg.tier_thresholds
                    },
                }
            },
        },
{
    let token_address = match token_address {
        Ok(t) => t,
        Err(e) => return Err(ContractError::Std(e)),
    };
    if !token_is_cw20 {
        return Err(ContractError::InvalidCw20 {});
    }
    let stake_contracts = match collect_validated(stake_contracts) {
        Ok(v) => v,
        Err(e) => return Err(ContractError::Std(e)),
    };
    if stake_contracts.len() != msg.stake_contract_multipliers.len() {
        return Err(ContractError::InvalidInputLength {});
    }
    Ok(
        Config {
            token_address,
            stake_contracts,
            stake_contract_multipliers: msg.stake_contract_multipliers,
            tier_thresholds: msg.tier_thresholds,
        },
    )
}

/// Replaces the staking contracts, their multipliers and the thresholds;
/// only the owner may, and there must be one multiplier per contract.
pub fn execute_update_config(
    owner: &Option<String>,
    sender: &String,
    config: Config,
    stake_contracts: &Vec<Result<String, StdError>>,
    stake_contract_multipliers: Vec<u64>,
    tier_thresholds: Vec<u128>,
) -> (r: Result<Config, ContractError>)
    ensures
        match owner_check(*owner, *sender) {
            Err(e) => r == Err::<Config, ContractError>(ContractError::Ownership(e)),
            Ok(_) => if stake_contracts.len() != stake_contract_multipliers.len() {
                r == Err::<Config, ContractError>(ContractError::InvalidInputLength {})
            } else {
                match validated_all(stake_contracts@) {
                    Err(e) => r == Err::<Config, ContractError>(ContractError::Std(e)),
                    Ok(contracts) => r matches Ok(c) && c.token_address == config.token_address
                        && c.stake_contracts@ == contracts && c.stake_contract_multipliers
                        == stake_contract_multipliers && c.tier_thresholds == tier_thresholds,
                }
            },
        },
{
    if let Err(e) = assert_owner(owner, sender) {
        return Err(ContractError::Ownership(e));
    }
    if stake_contracts.len() != stake_contract_multipliers.len() {
        return Err(ContractError::InvalidInputLength {});
    }
    let stake_contracts = match collect_validated(stake_contracts) {
        Ok(v) => v,
        Err(e) => return Err(ContractError::Std(e)),
    };
    Ok(
        Config {
            token_address: config.token_address,
            stake_contracts,
            stake_contract_multipliers,
            tier_thresholds,
        },
    )
}

/// Sets a wallet's custom tier; only the owner may, and the wallet's
/// address is taken as the chain validated it.
pub fn execute_update_custom_tiers(
    owner: &Option<String>,
    sender: &String,
    address: Result<String, StdError>,
    tier_index: u64,
) -> (r: Result<(String, u64), ContractError>)
    ensures
        match owner_check(*owner, *sender) {
            Err(e) => r == Err::<(String, u64), ContractError>(ContractError::Ownership(e)),
            Ok(_) => match address {
                Err(e) => r == Err::<(String, u64), ContractError>(ContractError::Std(e)),
                Ok(a) => r == Ok::<(String, u64), ContractError>((a, tier_index)),
            },
        },
{
    if let Err(e) = assert_owner(owner, sender) {
        return Err(ContractError::Ownership(e));
    }
    match address {
        Ok(a) => Ok((a, tier_index)),
        Err(e) => Err(ContractError::Std(e)),
    }
}

// ---------------------------------------------------------------------
// Laws
// ---------------------------------------------------------------------

/// A larger weighted total never lands in a lower tier, whatever the
/// thresholds.
pub proof fn lemma_tier_monotonic(thresholds: Seq<u128>, a: u128, b: u128)
    requires
        a <= b,
    ensures
        tier_of(thresholds, a) <= tier_of(thresholds, b),
{
    lemma_tier_monotonic_from(thresholds, a, b, 0);
}

proof fn lemma_tier_monotonic_from(thresholds: Seq<u128>, a: u128, b: u128, i: int)
    requires
        a <= b,
        0 <= i <= thresholds.len(),
    ensures
        tier_from(thresholds, a, i) <= tier_from(thresholds, b, i),
    decreases thresholds.len() - i,
{
    if i < thresholds.len() {
        if a >= thresholds[i] {
            lemma_tier_monotonic_from(thresholds, a, b, i + 1);
        } else {
            lemma_tier_from_range(thresholds, b, i);
        }
    }
}

/// A wallet's tier is the number of thresholds its total reaches when the
/// thresholds rise: it reaches each threshold below its tier and none from
/// its tier on.
pub proof fn lemma_tier_counts_thresholds(thresholds: Seq<u128>, total: u128)
    requires
        forall|i: int, j: int| 0 <= i <= j < thresholds.len() ==> thresholds[i] <= thresholds[j],
    ensures
        0 <= tier_of(thresholds, total) <= thresholds.len(),
        forall|i: int| 0 <= i < tier_of(thresholds, total) ==> thresholds[i] <= total,
        forall|i: int| tier_of(thresholds, total) <= i < thresholds.len() ==> total < thresholds[i],
{
    lemma_tier_counts_from(thresholds, total, 0);
}

proof fn lemma_tier_counts_from(thresholds: Seq<u128>, total: u128, i: int)
    requires
        0 <= i <= thresholds.len(),
        forall|k: int| 0 <= k < i ==> thresholds[k] <= total,
        forall|k: int, j: int| 0 <= k <= j < thresholds.len() ==> thresholds[k] <= thresholds[j],
    ensures
        i <= tier_from(thresholds, total, i) <= thresholds.len(),
        forall|k: int| 0 <= k < tier_from(thresholds, total, i) ==> thresholds[k] <= total,
        forall|k: int| tier_from(thresholds, total, i) <= k < thresholds.len() ==> total < thresholds[k],
    decreases thresholds.len() - i,
{
    if i < thresholds.len() && total >= thresholds[i] {
        lemma_tier_counts_from(thresholds, total, i + 1);
    }
}

/// The terms added up.
pub open spec fn int_sum(terms: Seq<int>) -> int
    decreases terms.len(),
{
    if terms.len() == 0 {
        0
    } else {
        int_sum(terms.drop_last()) + terms.last()
    }
}

/// The weighted stakes of the first `n` staking contracts: each contract's
/// stake weighted by the multiplier at the same position, in basis points.
pub open spec fn weighted_terms(stakes: Seq<Result<u128, StdError>>, multipliers: Seq<u64>, n: nat) -> Seq<
    int,
> {
    Seq::new(n, |i: int| stakes[i]->Ok_0 * multipliers[i] / 10000)
}

/// A wallet's weighted total is the sum over the staking contracts of its
/// stake in each, weighted by that contract's own multiplier (in basis
/// points, rounded down per contract); a total is reported only when every
/// contract reported a stake.
pub proof fn lemma_weighted_total_is_sum(
    stakes: Seq<Result<u128, StdError>>,
    multipliers: Seq<u64>,
    n: nat,
)
    requires
        n <= stakes.len(),
        n <= multipliers.len(),
        weighted_total(stakes, multipliers, n) is Ok,
    ensures
        forall|i: int| 0 <= i < n ==> (#[trigger] stakes[i]) is Ok,
        weighted_total(stakes, multipliers, n)->Ok_0 == int_sum(weighted_terms(stakes, multipliers, n)),
    decreases n,
{
    if n > 0 {
        let m = (n - 1) as nat;
        if weighted_total(stakes, multipliers, m) is Err {
            lemma_weighted_total_error_persists(stakes, multipliers, m, n);
        }
        lemma_weighted_total_is_sum(stakes, multipliers, m);
        assert(weighted_terms(stakes, multipliers, n).drop_last() =~= weighted_terms(
            stakes,
            multipliers,
            m,
        ));
    }
}

} // verus!
