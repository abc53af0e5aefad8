use launchpad::common::{OwnershipError, Payout};
use launchpad::stake::{
    execute_add_tokens, execute_emergency_unstake, execute_harvest, execute_reinvest,
    execute_stake, execute_unstake, execute_update_config, instantiate, query_reward_amount,
    Config, ContractError, InstantiateMsg, Pool, Staker,
};

const ADDR1: &str = "addr0001";
const OWNER: &str = "owner";
const TOKEN: &str = "contract0";
const DAY: u64 = 24 * 60 * 60;
const NANOS: u64 = 1_000_000_000;

/// A staking contract and a staker, with the chain's clock and the
/// staker's cw20 balance.
struct Chain {
    config: Config,
    pool: Pool,
    staker: Staker,
    wallet: u128,
    time: u64,
}

impl Chain {
    fn new() -> Chain {
        let msg = InstantiateMsg {
            owner: Some(OWNER.to_string()),
            token_address: TOKEN.to_string(),
            stake_paused: false,
            unstake_paused: false,
            emergency_unstake_paused: false,
            interest_rate: 500,
            lock_duration: 14 * DAY,
            lock_duration_multiplier: 10000,
            emergency_unstake_fee_percentage: 500,
            fee_address: OWNER.to_string(),
        };
        let (config, pool) = instantiate(msg, Ok(TOKEN.to_string()), true, Ok(OWNER.to_string())).unwrap();
        Chain {
            config,
            pool,
            staker: Staker { balance: 0, staked_time: None },
            wallet: 1100 * 1_000_000,
            time: 1_571_797_419_879_305_533,
        }
    }

    fn next_block(&mut self) {
        self.time += 5 * NANOS;
    }

    fn add_tokens(&mut self, amount: u128) {
        self.wallet -= amount;
        self.pool = execute_add_tokens(self.pool, amount).unwrap();
    }

    fn stake(&mut self, amount: u128) {
        self.wallet -= amount;
        let out = execute_stake(&self.config, self.pool, self.staker, amount, self.time).unwrap();
        self.pool = out.pool;
        self.staker = out.staker;
    }

    fn receive(&mut self, payouts: &[Payout]) {
        for p in payouts {
            if let Payout::Cw20Transfer { token, recipient, amount } = p {
                assert_eq!(token, TOKEN);
                if recipient == ADDR1 {
                    self.wallet += amount;
                }
            }
        }
    }
}

#[test]
fn test_update_config() {
    let chain = Chain::new();
    let owner = Some(OWNER.to_string());
    let config = execute_update_config(
        &owner,
        &OWNER.to_string(),
        chain.config.clone(),
        false,
        true,
        false,
        500,
        14 * DAY,
        10000,
        500,
        Ok(ADDR1.to_string()),
    )
    .unwrap();
    assert_eq!(config.interest_rate, 500);
    assert!(config.unstake_paused);

    let err = execute_update_config(
        &owner,
        &ADDR1.to_string(),
        config.clone(),
        true,
        false,
        false,
        500,
        14 * DAY,
        10000,
        500,
        Ok(ADDR1.to_string()),
    )
    .unwrap_err();
    assert_eq!(err, ContractError::Ownership(OwnershipError::NotOwner {}));

    let err = execute_update_config(
        &owner,
        &OWNER.to_string(),
        config,
        false,
        false,
        false,
        0,
        14 * DAY,
        10000,
        500,
        Ok(ADDR1.to_string()),
    )
    .unwrap_err();
    assert_eq!(err, ContractError::InvalidInterestRate {});
}

#[test]
fn test_stake() {
    let mut chain = Chain::new();
    chain.add_tokens(1000 * 1_000_000);
    chain.next_block();
    chain.stake(50 * 1_000_000);
    chain.next_block();
    assert_eq!(chain.staker.balance, 50 * 1_000_000);
    assert_eq!(chain.pool.staked_total, 50 * 1_000_000);
    assert_eq!(chain.wallet, 50 * 1_000_000);

    // the reward earned over the five seconds since is added to the stake
    chain.stake(50 * 1_000_000);
    chain.next_block();
    assert_eq!(chain.staker.balance, 100 * 1_000_000);
    assert_eq!(chain.pool.staked_total, 100 * 1_000_000);
    assert_eq!(chain.wallet, 0);
}

#[test]
fn test_unstake() {
    let mut chain = Chain::new();
    chain.add_tokens(1000 * 1_000_000);
    chain.next_block();
    chain.stake(50 * 1_000_000);
    chain.next_block();
    chain.stake(50 * 1_000_000);
    chain.next_block();
    assert_eq!(chain.staker.balance, 100 * 1_000_000);
    assert_eq!(chain.wallet, 0);

    chain.time += 15 * DAY * NANOS;
    let out = execute_unstake(
        &chain.config,
        chain.pool,
        chain.staker,
        &ADDR1.to_string(),
        10 * 1_000_000,
        chain.time,
    )
    .unwrap();
    chain.pool = out.pool;
    chain.staker = out.staker;
    chain.receive(&out.payouts);
    chain.next_block();
    assert_eq!(chain.staker.balance, 90 * 1_000_000);
    assert_eq!(out.reward_amount, 0);
    assert_eq!(chain.wallet, 10 * 1_000_000);
}

#[test]
fn test_emergency_unstake() {
    let mut chain = Chain::new();
    chain.add_tokens(1000 * 1_000_000);
    chain.next_block();
    chain.stake(50 * 1_000_000);
    chain.next_block();

    let unstake_amount = 30 * 1_000_000u128;
    let out = execute_emergency_unstake(
        &chain.config,
        chain.pool,
        chain.staker,
        &ADDR1.to_string(),
        unstake_amount,
    )
    .unwrap();
    chain.pool = out.pool;
    chain.staker = out.staker;
    chain.receive(&out.payouts);
    chain.next_block();

    assert_eq!(chain.staker.balance, 20 * 1_000_000);
    assert_eq!(chain.pool.staked_total, 20 * 1_000_000);
    let fee_amount = unstake_amount * 500 / 10000;
    let expected_balance = 100 * 1_000_000 - 50 * 1_000_000 + (unstake_amount - fee_amount);
    assert_eq!(chain.wallet, expected_balance);
}

#[test]
fn test_harvest() {
    let mut chain = Chain::new();
    chain.add_tokens(1000 * 1_000_000);
    chain.next_block();
    chain.stake(50 * 1_000_000);
    chain.next_block();
    chain.time += 15 * DAY * NANOS;

    let reward_amount = query_reward_amount(&chain.config, &chain.staker, chain.time).unwrap();
    let out = execute_harvest(&chain.config, chain.pool, chain.staker, &ADDR1.to_string(), chain.time)
        .unwrap();
    chain.pool = out.pool;
    chain.staker = out.staker;
    chain.receive(&out.payouts);
    chain.next_block();

    assert_eq!(chain.staker.balance, 50 * 1_000_000);
    assert_eq!(chain.wallet, 50 * 1_000_000 + reward_amount);
}

#[test]
fn test_reinvest() {
    let mut chain = Chain::new();
    chain.add_tokens(1000 * 1_000_000);
    chain.next_block();
    chain.stake(50 * 1_000_000);
    chain.next_block();
    chain.time += 15 * DAY * NANOS;

    let reward_amount = query_reward_amount(&chain.config, &chain.staker, chain.time).unwrap();
    let out = execute_reinvest(&chain.config, chain.pool, chain.staker, chain.time).unwrap();
    chain.pool = out.pool;
    chain.staker = out.staker;
    chain.next_block();

    assert_eq!(chain.staker.balance, 50 * 1_000_000 + reward_amount);
    assert_eq!(chain.wallet, 50 * 1_000_000);
}

#[test]
fn reward_of_fifteen_days() {
    let chain = Chain::new();
    let staker = Staker { balance: 50 * 1_000_000, staked_time: Some(chain.time) };
    let later = chain.time + (15 * DAY + 5) * NANOS;
    // 50e6 * 1296005 s * 500 / 315360000000, times 10000 / 10000
    assert_eq!(query_reward_amount(&chain.config, &staker, later).unwrap(), 102740);
}

#[test]
fn reward_before_stake_time_is_refused() {
    let chain = Chain::new();
    let staker = Staker { balance: 1, staked_time: Some(chain.time + 10 * NANOS) };
    assert_eq!(
        query_reward_amount(&chain.config, &staker, chain.time),
        Err(ContractError::Overflow {})
    );
}

#[test]
fn unstake_before_lock_is_refused() {
    let mut chain = Chain::new();
    chain.add_tokens(1000 * 1_000_000);
    chain.stake(50 * 1_000_000);
    chain.time += DAY * NANOS;
    let err = execute_unstake(&chain.config, chain.pool, chain.staker, &ADDR1.to_string(), 1, chain.time)
        .unwrap_err();
    assert_eq!(err, ContractError::LockDurationNotPassed {});
}

#[test]
fn unstake_more_than_staked_is_refused() {
    let mut chain = Chain::new();
    chain.add_tokens(1000 * 1_000_000);
    chain.stake(50 * 1_000_000);
    chain.time += 20 * DAY * NANOS;
    let err = execute_unstake(
        &chain.config,
        chain.pool,
        chain.staker,
        &ADDR1.to_string(),
        51 * 1_000_000,
        chain.time,
    )
    .unwrap_err();
    assert_eq!(err, ContractError::ImpossibleUnstake {});
}

#[test]
fn stakers_count_follows_full_unstake() {
    let mut chain = Chain::new();
    chain.add_tokens(1000 * 1_000_000);
    chain.stake(50 * 1_000_000);
    assert_eq!(chain.pool.stakers_total, 1);
    let out = execute_emergency_unstake(
        &chain.config,
        chain.pool,
        chain.staker,
        &ADDR1.to_string(),
        50 * 1_000_000,
    )
    .unwrap();
    assert_eq!(out.pool.stakers_total, 0);
    assert_eq!(out.pool.staked_total, 0);
}

#[test]
fn harvest_without_stake_is_refused() {
    let chain = Chain::new();
    let err = execute_harvest(&chain.config, chain.pool, chain.staker, &ADDR1.to_string(), chain.time)
        .unwrap_err();
    assert_eq!(err, ContractError::NothingStaked {});
}

#[test]
fn harvest_and_reinvest_restart_the_reward() {
    let mut chain = Chain::new();
    chain.add_tokens(1000 * 1_000_000);
    chain.stake(50 * 1_000_000);
    chain.time += 15 * DAY * NANOS;
    let out = execute_harvest(&chain.config, chain.pool, chain.staker, &ADDR1.to_string(), chain.time)
        .unwrap();
    assert_eq!(out.staker.staked_time, Some(chain.time));
    let again = execute_harvest(&chain.config, out.pool, out.staker, &ADDR1.to_string(), chain.time);
    assert_eq!(again.unwrap_err(), ContractError::NoRewardsToHarvest {});

    chain.time += 15 * DAY * NANOS;
    let out = execute_reinvest(&chain.config, out.pool, out.staker, chain.time).unwrap();
    let again = execute_reinvest(&chain.config, out.pool, out.staker, chain.time);
    assert_eq!(again.unwrap_err(), ContractError::NoRewardsToReInvest {});
}

#[test]
fn reward_grows_with_time_and_stake() {
    let chain = Chain::new();
    let small = Staker { balance: 50 * 1_000_000, staked_time: Some(chain.time) };
    let large = Staker { balance: 80 * 1_000_000, staked_time: Some(chain.time) };
    let mut last = 0;
    for days in [1u64, 7, 15, 30, 365] {
        let later = chain.time + days * DAY * NANOS;
        let r_small = query_reward_amount(&chain.config, &small, later).unwrap();
        let r_large = query_reward_amount(&chain.config, &large, later).unwrap();
        assert!(r_small >= last);
        assert!(r_large >= r_small);
        last = r_small;
    }
    // a year at 5% on 50 tokens
    assert_eq!(last, 2_500_000);
}
