use std::collections::HashMap;

use launchpad::common::{Coin, OwnershipError, Payout, StdError};
use launchpad::merkle::{verify_proof, HexError};
use launchpad::sale::{
    execute_join_fcfs_round, execute_join_staker_round, execute_register, execute_update_config,
    execute_withdraw, instantiate, query_user_fcfs_allocation, query_user_staker_allocation,
    query_verify_proof, Config, ContractError, Dates, GetUserTierResponse, InstantiateMsg,
    Statistics, Status, UserInfo, WhitelistProperties,
};
use sha2::{Digest, Sha256};

const ADDR1: &str = "addr0001";
const OWNER: &str = "owner";
const PAYMENT_DENOM: &str = "uusd";
const STAKE_CONTROLLER: &str = "contract0";
/// The block time of the test chain's first block, in seconds.
const GENESIS: u64 = 1_571_797_419;
/// Seconds between two blocks of the test chain.
const BLOCK: u64 = 5;

/// A sale contract on a test chain: its state, the bank's balances, the
/// stakes that the staking-tier controller reports, and the clock.
struct Chain {
    owner: Option<String>,
    config: Config,
    users: HashMap<String, UserInfo>,
    statistics: Option<Statistics>,
    contract_balance: u128,
    bank: HashMap<String, u128>,
    stakes: HashMap<String, u128>,
    time: u64,
}

impl Chain {
    fn new() -> Chain {
        let msg = InstantiateMsg {
            owner: Some(OWNER.to_string()),
            stake_controller: STAKE_CONTROLLER.to_string(),
            payment_denom: PAYMENT_DENOM.to_string(),
            sale_token_decimals: 6,
            sale_token_price: 10u128.pow(5),
            min_allocation: 10 * 10u128.pow(6),
            total_allocation: 100_000_000 * 10u128.pow(6),
            fcfs_allocation: 0,
            status: Status { register_paused: false, staker_paused: false, fcfs_paused: false },
            dates: Dates {
                register_start: GENESIS,
                register_end: GENESIS + 10000,
                staker_start: GENESIS + 20000,
                staker_end: GENESIS + 30000,
                fcfs_start: GENESIS + 40000,
                fcfs_end: GENESIS + 50000,
            },
            whitelist_properties: WhitelistProperties {
                whitelist_merkle_root: String::new(),
                whitelisted_user_count: 100,
                whitelisted_user_allocation: 100 * 10u128.pow(6),
            },
        };
        let owner = msg.owner.clone();
        let config =
            instantiate(ADDR1.to_string(), msg, Ok(STAKE_CONTROLLER.to_string())).unwrap();
        let mut bank = HashMap::new();
        bank.insert(ADDR1.to_string(), 1_000_000_000u128);
        Chain {
            owner,
            config,
            users: HashMap::new(),
            statistics: None,
            contract_balance: 0,
            bank,
            stakes: HashMap::new(),
            // two blocks: the controller's and the sale's
            time: GENESIS + 2 * BLOCK,
        }
    }

    fn next_block(&mut self) {
        self.time += BLOCK;
    }

    fn statistics(&self) -> Statistics {
        self.statistics.unwrap_or(Statistics {
            total_registered_users: 0,
            total_staker_round_participants: 0,
            total_fcfs_round_participants: 0,
            total_participants: 0,
            total_staked: 0,
            total_payment_amount: 0,
        })
    }

    fn mint(&mut self, to: &str, amount: u128) {
        *self.bank.entry(to.to_string()).or_insert(0) += amount;
    }

    fn balance(&self, who: &str) -> u128 {
        self.bank.get(who).copied().unwrap_or(0)
    }

    fn register(&mut self, sender: &str) -> Result<(), ContractError> {
        let stake = self.stakes.get(sender).copied().unwrap_or(0);
        let tier = Ok(GetUserTierResponse { tier: 1, total_staked: stake });
        let out = execute_register(
            &self.config,
            &sender.to_string(),
            &Some(vec![]),
            self.time,
            tier,
            self.users.get(sender).cloned(),
            self.statistics,
        )?;
        self.users.insert(sender.to_string(), out.user_info);
        self.statistics = Some(out.statistics);
        Ok(())
    }

    fn pay(&mut self, sender: &str, amount: u128) {
        let b = self.balance(sender);
        assert!(b >= amount, "insufficient funds");
        self.bank.insert(sender.to_string(), b - amount);
    }

    fn join_staker_round(&mut self, sender: &str, amount: u128) -> Result<(), ContractError> {
        let funds = vec![Coin { denom: PAYMENT_DENOM.to_string(), amount }];
        let out = execute_join_staker_round(
            &self.config,
            self.contract_balance,
            &funds,
            &sender.to_string(),
            &None,
            self.time,
            self.users.get(sender).cloned(),
            self.statistics,
        )?;
        self.pay(sender, amount);
        self.users.insert(sender.to_string(), out.user_info);
        self.statistics = Some(out.statistics);
        self.contract_balance = out.balance;
        Ok(())
    }

    fn join_fcfs_round(&mut self, sender: &str, amount: u128) -> Result<(), ContractError> {
        let funds = vec![Coin { denom: PAYMENT_DENOM.to_string(), amount }];
        let out = execute_join_fcfs_round(
            &self.config,
            self.contract_balance,
            &funds,
            &sender.to_string(),
            self.time,
            self.users.get(sender).cloned(),
            self.statistics,
        )?;
        self.pay(sender, amount);
        self.users.insert(sender.to_string(), out.user_info);
        self.statistics = Some(out.statistics);
        self.contract_balance = out.balance;
        Ok(())
    }

    fn user(&self, who: &str) -> UserInfo {
        self.users.get(who).cloned().unwrap()
    }
}

#[test]
fn test_register_user() {
    let mut chain = Chain::new();
    chain.stakes.insert(ADDR1.to_string(), 100 * 10u128.pow(6));
    chain.register(ADDR1).unwrap();
    chain.next_block();
    assert!(chain.user(ADDR1).registered);
}

#[test]
fn test_join_staker_round() {
    let mut chain = Chain::new();
    let initial_balance = chain.balance(ADDR1);
    let initial_config = chain.config.clone();
    let initial_statistics = chain.statistics();

    let stake_amount = 100 * 10u128.pow(6);
    chain.stakes.insert(ADDR1.to_string(), stake_amount);
    chain.register(ADDR1).unwrap();
    chain.next_block();

    assert!(chain.user(ADDR1).registered, "User should be registered");
    assert_eq!(
        chain.statistics().total_registered_users,
        initial_statistics.total_registered_users + 1,
        "Total registered users should increase by 1"
    );

    chain.time += 20000;
    let amount = 100 * 10u128.pow(6);
    chain.join_staker_round(ADDR1, amount).unwrap();
    chain.next_block();

    let user = chain.user(ADDR1);
    assert!(user.joined_staker_round, "User should have joined staker round");
    assert_eq!(user.total_payment_amount, amount, "User's total payment amount should match");
    let expected_sale_token_amount = (amount
        * 10u128.pow(initial_config.sale_token_decimals as u32))
        / initial_config.sale_token_price;
    assert_eq!(
        user.total_sale_token_amount, expected_sale_token_amount,
        "User's total sale token amount should match expected amount"
    );
    assert_eq!(
        chain.balance(ADDR1),
        initial_balance - amount,
        "User balance should be reduced after joining staker round"
    );
    assert_eq!(chain.contract_balance, amount, "Contract balance should match the joined amount");

    let st = chain.statistics();
    assert_eq!(
        st.total_staker_round_participants,
        initial_statistics.total_staker_round_participants + 1,
        "Total staker round participants should increase by 1"
    );
    assert_eq!(
        st.total_participants,
        initial_statistics.total_participants + 1,
        "Total participants should increase by 1"
    );
    assert_eq!(
        st.total_payment_amount,
        initial_statistics.total_payment_amount + amount,
        "Total payment amount should increase by the joined amount"
    );
    assert_eq!(chain.config, initial_config, "Config should not change after joining staker round");
}

#[test]
fn test_join_fcfs_round() {
    let mut chain = Chain::new();
    let initial_balance = chain.balance(ADDR1);
    let initial_config = chain.config.clone();
    let initial_statistics = chain.statistics();

    chain.time += 40000;
    let amount = 100_000_000u128;
    chain.join_fcfs_round(ADDR1, amount).unwrap();
    chain.next_block();

    let first = chain.user(ADDR1);
    assert!(first.joined_fcfs_round, "User should have joined FCFS round");
    assert_eq!(first.total_payment_amount, amount, "User's total payment amount should match");
    let expected_sale_token_amount = (amount
        * 10u128.pow(initial_config.sale_token_decimals as u32))
        / initial_config.sale_token_price;
    assert_eq!(
        first.total_sale_token_amount, expected_sale_token_amount,
        "User's total sale token amount should match expected amount"
    );

    chain.join_fcfs_round(ADDR1, amount).unwrap();
    chain.next_block();

    let second = chain.user(ADDR1);
    assert_eq!(second.total_payment_amount, amount * 2, "User's total payment amount should double");
    assert_eq!(
        second.total_sale_token_amount,
        expected_sale_token_amount * 2,
        "User's total sale token amount should double"
    );
    assert_eq!(
        chain.balance(ADDR1),
        initial_balance - amount * 2,
        "User balance should be reduced after joining FCFS round twice"
    );
    assert_eq!(chain.contract_balance, amount * 2, "Contract balance should match the total joined amount");

    let st = chain.statistics();
    assert_eq!(
        st.total_fcfs_round_participants,
        initial_statistics.total_fcfs_round_participants + 1,
        "Total FCFS round participants should increase by 1"
    );
    assert_eq!(
        st.total_participants,
        initial_statistics.total_participants + 1,
        "Total participants should increase by 1"
    );
    assert_eq!(
        st.total_payment_amount,
        initial_statistics.total_payment_amount + amount * 2,
        "Total payment amount should increase by the total joined amount"
    );
    assert_eq!(chain.config, initial_config, "Config should not change after joining FCFS round");
}

#[test]
fn test_join_fcfs_round_with_high_concurrency() {
    let mut chain = Chain::new();
    chain.time += 40000;
    let total_participants: u128 = 1000;
    let amount_per_participant = 10 * 10u128.pow(6);
    let initial_config = chain.config.clone();
    let initial_statistics = chain.statistics();

    for i in 0..total_participants {
        let participant = format!("participant{}", i);
        chain.mint(&participant, amount_per_participant);
        let join_result = chain.join_fcfs_round(&participant, amount_per_participant);
        assert!(
            join_result.is_ok(),
            "Failed to join FCFS round for participant {}: {:?}",
            i,
            join_result.err()
        );
        if i % 100 == 0 {
            chain.next_block();
        }
    }
    chain.next_block();

    let mut total_participants_joined: u128 = 0;
    let mut total_amount_collected: u128 = 0;
    for i in 0..total_participants {
        let participant = format!("participant{}", i);
        let user = chain.user(&participant);
        assert!(user.joined_fcfs_round, "Participant {} should have joined FCFS round", i);
        total_participants_joined += 1;
        total_amount_collected += user.total_payment_amount;
        assert_eq!(chain.balance(&participant), 0, "Participant {} should have spent all their balance", i);
    }
    assert_eq!(total_participants_joined, total_participants, "All participants should have joined");
    assert_eq!(
        total_amount_collected,
        amount_per_participant * total_participants,
        "Total collected amount should match"
    );
    assert_eq!(
        chain.contract_balance, total_amount_collected,
        "Contract balance should match total collected amount"
    );

    let st = chain.statistics();
    assert_eq!(
        st.total_fcfs_round_participants,
        initial_statistics.total_fcfs_round_participants + total_participants,
        "Total FCFS round participants should increase by the number of participants"
    );
    assert_eq!(
        st.total_participants,
        initial_statistics.total_participants + total_participants,
        "Total participants should increase by the number of participants"
    );
    assert_eq!(
        st.total_payment_amount,
        initial_statistics.total_payment_amount + total_amount_collected,
        "Total payment amount should increase by the total collected amount"
    );
    assert_eq!(chain.config, initial_config, "Config should not change after FCFS round");
    assert!(
        total_amount_collected <= initial_config.total_allocation,
        "Total collected amount should not exceed total allocation"
    );
}

#[test]
fn test_staker_round_with_100_users() {
    let mut chain = Chain::new();
    let mut config = chain.config.clone();
    let total_participants: u128 = 100;
    let total_allocation: u128 = 100_000_000_000;
    config.dates.register_end += 100000;
    config.dates.staker_end += 100000;
    config.total_allocation = total_allocation;

    chain.config = execute_update_config(
        &chain.owner,
        &OWNER.to_string(),
        chain.config.clone(),
        Ok(config.stake_controller.clone()),
        config.payment_denom.clone(),
        config.sale_token_decimals,
        config.sale_token_price,
        config.min_allocation,
        total_allocation,
        config.fcfs_allocation,
        config.status,
        config.dates,
        config.whitelist_properties.clone(),
    )
    .unwrap();

    let mut total_tokens_distributed: u128 = 0;
    let mut total_staked: u128 = 0;
    let base_stake: u128 = 1_000_000_000;

    for i in 0..total_participants {
        let participant = format!("participant{}", i);
        let stake_amount = base_stake * (i + 1);
        total_staked += stake_amount;
        chain.mint(&participant, stake_amount);
        chain.time = config.dates.register_start;
        chain.stakes.insert(participant.clone(), stake_amount);
        chain.register(&participant).unwrap();
        chain.next_block();
    }

    for i in 0..total_participants {
        let participant = format!("participant{}", i);
        let stake_amount = base_stake * (i + 1);
        let user_allocation = (total_allocation * stake_amount) / total_staked;
        chain.time = config.dates.staker_start;
        chain.join_staker_round(&participant, user_allocation).unwrap();
        chain.next_block();
        total_tokens_distributed += chain.user(&participant).total_payment_amount;
    }

    assert!(
        total_tokens_distributed <= total_allocation,
        "Distributed tokens should not exceed total allocation"
    );
    assert!(
        total_tokens_distributed >= total_allocation - 100,
        "At least 99.9999999% of tokens should be distributed"
    );
    let st = chain.statistics();
    assert_eq!(
        st.total_staker_round_participants, total_participants,
        "Incorrect number of staker round participants"
    );
    assert_eq!(st.total_payment_amount, total_tokens_distributed, "Incorrect total payment amount");
}

// ---------------------------------------------------------------------
// Refusals and edge cases
// ---------------------------------------------------------------------

#[test]
fn register_refusals() {
    let mut chain = Chain::new();
    // no stake
    assert_eq!(chain.register(ADDR1), Err(ContractError::NotStaker {}));
    chain.stakes.insert(ADDR1.to_string(), 5);
    chain.register(ADDR1).unwrap();
    // twice
    match chain.register(ADDR1) {
        Err(ContractError::Std(StdError::GenericErr { msg })) => {
            assert_eq!(msg, "Already registered")
        },
        other => panic!("unexpected {:?}", other),
    }
    // outside the window
    chain.time = GENESIS + 10001;
    chain.stakes.insert("late".to_string(), 5);
    assert_eq!(chain.register("late"), Err(ContractError::RegistrationClosed {}));
    chain.time = GENESIS - 1;
    assert_eq!(chain.register("late"), Err(ContractError::RegistrationNotStarted {}));
    // paused
    chain.time = GENESIS + 100;
    chain.config.status.register_paused = true;
    assert_eq!(chain.register("late"), Err(ContractError::RegistrationPaused {}));
    // the controller's query failed
    chain.config.status.register_paused = false;
    let r = execute_register(
        &chain.config,
        &"late".to_string(),
        &None,
        chain.time,
        Err(StdError::GenericErr { msg: "no".to_string() }),
        None,
        None,
    );
    assert_eq!(r, Err(ContractError::Std(StdError::GenericErr { msg: "no".to_string() })));
}

#[test]
fn join_refusals() {
    let mut chain = Chain::new();
    chain.time = GENESIS + 20000;
    let sender = ADDR1.to_string();
    let coins = |denom: &str, amount: u128| vec![Coin { denom: denom.to_string(), amount }];
    let join = |chain: &Chain, funds: Vec<Coin>| {
        execute_join_staker_round(
            &chain.config,
            chain.contract_balance,
            &funds,
            &sender,
            &None,
            chain.time,
            chain.users.get(ADDR1).cloned(),
            chain.statistics,
        )
    };
    assert_eq!(join(&chain, coins("uluna", 20_000_000)), Err(ContractError::InvalidDenom {}));
    let two = vec![
        Coin { denom: PAYMENT_DENOM.to_string(), amount: 20_000_000 },
        Coin { denom: PAYMENT_DENOM.to_string(), amount: 1 },
    ];
    assert_eq!(join(&chain, two), Err(ContractError::InvalidDenom {}));
    assert_eq!(join(&chain, coins(PAYMENT_DENOM, 0)), Err(ContractError::InvalidAmount {}));
    assert_eq!(join(&chain, coins(PAYMENT_DENOM, 9)), Err(ContractError::MinAllocationNotReached {}));
    // without a stake there is no allocation
    assert_eq!(join(&chain, coins(PAYMENT_DENOM, 20_000_000)), Err(ContractError::NoAllocation {}));
    chain.time = GENESIS + 30001;
    assert_eq!(join(&chain, coins(PAYMENT_DENOM, 20_000_000)), Err(ContractError::StakerRoundClosed {}));
    chain.time = GENESIS + 19999;
    assert_eq!(
        join(&chain, coins(PAYMENT_DENOM, 20_000_000)),
        Err(ContractError::StakerRoundNotStarted {})
    );
    chain.config.status.staker_paused = true;
    assert_eq!(join(&chain, coins(PAYMENT_DENOM, 20_000_000)), Err(ContractError::StakerRoundPaused {}));

    // the open round
    let mut chain = Chain::new();
    chain.time = GENESIS + 39999;
    assert_eq!(chain.join_fcfs_round(ADDR1, 20_000_000), Err(ContractError::FcfsRoundNotStarted {}));
    chain.time = GENESIS + 50001;
    assert_eq!(chain.join_fcfs_round(ADDR1, 20_000_000), Err(ContractError::FcfsRoundClosed {}));
    chain.time = GENESIS + 40000;
    chain.config.status.fcfs_paused = true;
    assert_eq!(chain.join_fcfs_round(ADDR1, 20_000_000), Err(ContractError::FcfsRoundPaused {}));
}

#[test]
fn allocations_are_kept() {
    // a stakers' round buyer may not pay more than the allocation
    let mut chain = Chain::new();
    chain.config.total_allocation = 1_000_000_000;
    chain.stakes.insert("a".to_string(), 1);
    chain.stakes.insert("b".to_string(), 3);
    chain.register("a").unwrap();
    chain.register("b").unwrap();
    assert_eq!(
        query_user_staker_allocation(&chain.config, chain.statistics, 1, &"a".to_string(), &None),
        Ok(250_000_000)
    );
    chain.time = GENESIS + 20000;
    chain.mint("a", 1_000_000_000);
    match chain.join_staker_round("a", 250_000_001) {
        Err(ContractError::Std(StdError::GenericErr { msg })) => {
            assert_eq!(msg, "Exceed user allocation")
        },
        other => panic!("unexpected {:?}", other),
    }
    chain.join_staker_round("a", 250_000_000).unwrap();
    // an unregistered buyer with no stake gets no allocation
    assert_eq!(chain.join_staker_round("c", 20_000_000), Err(ContractError::NoAllocation {}));

    // the open round: what is left, then the total is reached
    chain.time = GENESIS + 40000;
    assert_eq!(query_user_fcfs_allocation(&chain.config, chain.statistics), Ok(750_000_000));
    chain.mint("d", 1_000_000_000);
    assert_eq!(
        chain.join_fcfs_round("d", 750_000_001),
        Err(ContractError::ExceedTotalAllocation {})
    );
    chain.join_fcfs_round("d", 750_000_000).unwrap();
    assert_eq!(chain.contract_balance, 1_000_000_000);
    assert_eq!(query_user_fcfs_allocation(&chain.config, chain.statistics), Ok(0));
    // a configured open-round allocation applies to each buyer
    chain.config.fcfs_allocation = 10;
    assert_eq!(query_user_fcfs_allocation(&chain.config, chain.statistics), Ok(10));
}

#[test]
fn owner_operations() {
    let chain = Chain::new();
    let stranger = ADDR1.to_string();
    assert_eq!(
        execute_withdraw(&chain.owner, &stranger, &chain.config, 7),
        Err(ContractError::Ownership(OwnershipError::NotOwner {}))
    );
    assert_eq!(
        execute_withdraw(&None, &stranger, &chain.config, 7),
        Err(ContractError::Ownership(OwnershipError::NoOwner {}))
    );
    assert_eq!(
        execute_withdraw(&chain.owner, &OWNER.to_string(), &chain.config, 7),
        Ok(vec![Payout::BankSend {
            to_address: OWNER.to_string(),
            denom: PAYMENT_DENOM.to_string(),
            amount: 7,
        }])
    );
    let c = chain.config.clone();
    let r = execute_update_config(
        &chain.owner,
        &stranger,
        chain.config.clone(),
        Ok(c.stake_controller.clone()),
        c.payment_denom.clone(),
        c.sale_token_decimals,
        c.sale_token_price,
        c.min_allocation,
        c.total_allocation,
        c.fcfs_allocation,
        c.status,
        c.dates,
        c.whitelist_properties.clone(),
    );
    assert_eq!(r, Err(ContractError::Ownership(OwnershipError::NotOwner {})));
    let bad = instantiate(
        ADDR1.to_string(),
        InstantiateMsg {
            owner: None,
            stake_controller: "X".to_string(),
            payment_denom: c.payment_denom.clone(),
            sale_token_decimals: 6,
            sale_token_price: 1,
            min_allocation: 1,
            total_allocation: 1,
            fcfs_allocation: 0,
            status: c.status,
            dates: c.dates,
            whitelist_properties: c.whitelist_properties.clone(),
        },
        Err(StdError::GenericErr { msg: "Invalid input".to_string() }),
    );
    assert_eq!(
        bad,
        Err(ContractError::Std(StdError::GenericErr { msg: "Invalid input".to_string() }))
    );
}

// ---------------------------------------------------------------------
// Whitelist proofs
// ---------------------------------------------------------------------

fn sha256(data: &[u8]) -> Vec<u8> {
    Sha256::digest(data).to_vec()
}

fn node(a: &[u8], b: &[u8]) -> Vec<u8> {
    let mut joined = Vec::new();
    if a <= b {
        joined.extend_from_slice(a);
        joined.extend_from_slice(b);
    } else {
        joined.extend_from_slice(b);
        joined.extend_from_slice(a);
    }
    sha256(&joined)
}

#[test]
fn whitelist_proof_is_checked() {
    let allocation: u128 = 100_000_000;
    let leaf = sha256(format!("{}{}", ADDR1, allocation).as_bytes());
    let sibling = sha256(b"someone else");
    let root = node(&leaf, &sibling);
    let proof = vec![hex::encode(&sibling)];
    let root_hex = hex::encode(&root);

    assert_eq!(verify_proof(&ADDR1.to_string(), allocation, &proof, &root_hex), Ok(true));
    assert_eq!(verify_proof(&ADDR1.to_string(), allocation + 1, &proof, &root_hex), Ok(false));
    assert_eq!(verify_proof(&"addr0002".to_string(), allocation, &proof, &root_hex), Ok(false));
    // upper-case digits decode as well
    let upper = vec![hex::encode_upper(&sibling)];
    assert_eq!(verify_proof(&ADDR1.to_string(), allocation, &upper, &root_hex), Ok(true));
    // with no proof entries the leaf itself is the root
    let leaf_hex = hex::encode(&leaf);
    assert_eq!(verify_proof(&ADDR1.to_string(), allocation, &vec![], &leaf_hex), Ok(true));

    // entries that do not decode
    assert_eq!(
        verify_proof(&ADDR1.to_string(), allocation, &vec!["abc".to_string()], &root_hex),
        Err(HexError::OddLength)
    );
    assert_eq!(
        verify_proof(&ADDR1.to_string(), allocation, &vec!["abcd".to_string()], &root_hex),
        Err(HexError::InvalidStringLength)
    );
    let mut bad = hex::encode(&sibling);
    bad.replace_range(3..4, "z");
    assert_eq!(
        verify_proof(&ADDR1.to_string(), allocation, &vec![bad], &root_hex),
        Err(HexError::InvalidHexCharacter { c: 'z', index: 3 })
    );
    assert_eq!(
        verify_proof(&ADDR1.to_string(), allocation, &proof, &"00".to_string()),
        Err(HexError::InvalidStringLength)
    );

    // through the sale's configuration
    let mut chain = Chain::new();
    chain.config.whitelist_properties.whitelist_merkle_root = root_hex.clone();
    chain.config.whitelist_properties.whitelisted_user_allocation = allocation;
    assert_eq!(query_verify_proof(&chain.config, &ADDR1.to_string(), &proof), Ok(true));
    assert_eq!(
        query_verify_proof(&chain.config, &ADDR1.to_string(), &vec!["abc".to_string()]),
        Err(ContractError::Hex(HexError::OddLength))
    );
    // a whitelisted wallet may not register, and buys without registering
    chain.stakes.insert(ADDR1.to_string(), 10);
    let r = execute_register(
        &chain.config,
        &ADDR1.to_string(),
        &Some(proof.clone()),
        chain.time,
        Ok(GetUserTierResponse { tier: 1, total_staked: 10 }),
        None,
        None,
    );
    assert_eq!(r, Err(ContractError::CannotRegister {}));
    let r = execute_register(
        &chain.config,
        &ADDR1.to_string(),
        &Some(vec!["abc".to_string()]),
        chain.time,
        Ok(GetUserTierResponse { tier: 1, total_staked: 10 }),
        None,
        None,
    );
    assert_eq!(r, Err(ContractError::WhitelistError {}));
}

#[test]
fn both_children_verify_under_their_parent() {
    let allocation: u128 = 5;
    let leaf_a = sha256(format!("{}{}", "walleta", allocation).as_bytes());
    let leaf_b = sha256(format!("{}{}", "walletb", allocation).as_bytes());
    let root = hex::encode(node(&leaf_a, &leaf_b));
    assert_eq!(verify_proof(&"walleta".to_string(), allocation, &vec![hex::encode(&leaf_b)], &root), Ok(true));
    assert_eq!(verify_proof(&"walletb".to_string(), allocation, &vec![hex::encode(&leaf_a)], &root), Ok(true));
    assert_eq!(verify_proof(&"walletc".to_string(), allocation, &vec![hex::encode(&leaf_a)], &root), Ok(false));
}

#[test]
fn zero_allocation_leaf_is_the_wallet_and_a_zero() {
    let leaf = sha256(b"addr00010");
    assert_eq!(verify_proof(&ADDR1.to_string(), 0, &vec![], &hex::encode(&leaf)), Ok(true));
    let leaf = sha256("wället340282366920938463463374607431768211455".as_bytes());
    assert_eq!(verify_proof(&"wället".to_string(), u128::MAX, &vec![], &hex::encode(&leaf)), Ok(true));
}
