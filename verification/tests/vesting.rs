use launchpad::common::Payout;
use launchpad::vesting::{
    calculate_claimable_amount, calculate_linear_vesting, calculate_vested_amount, execute_claim_funds,
    execute_claim_vested_tokens, execute_request_refund, execute_set_whitelist, instantiate,
    query_next_unlock_date, Config, ContractError, InstantiateMsg, Statistics, WhitelistEntry,
    WhitelistInfo,
};

const OWNER: &str = "owner";
const USER1: &str = "user1";
const USER2: &str = "user2";
const DENOM: &str = "utoken";
const SCALE: u128 = 1_000_000;
const MOCK_TIME: u64 = 1_571_797_419;

fn mock_instantiate() -> (Config, Statistics) {
    let msg = InstantiateMsg {
        owner: Some(OWNER.to_string()),
        denom: DENOM.to_string(),
        fee_address: OWNER.to_string(),
        total_token_on_sale: 1_000_000 * SCALE,
        grace_period: 86400,
        platform_fee: 100,
        decimals: 6,
        start: 1625097600,
        cliff: 1625097600 + 2592000,
        duration: 2592000,
        initial_unlock_percent: 1750,
        linear_vesting_count: 12,
    };
    instantiate(msg, Ok(OWNER.to_string())).unwrap()
}

fn whitelist(
    stats: Statistics,
    book: Vec<WhitelistEntry>,
    wallets: &[&str],
    payments: Vec<u128>,
    tokens: Vec<u128>,
) -> (Vec<WhitelistEntry>, Statistics) {
    let wallets: Vec<_> = wallets.iter().map(|w| Ok(w.to_string())).collect();
    let out = execute_set_whitelist(
        &Some(OWNER.to_string()),
        &OWNER.to_string(),
        MOCK_TIME,
        &wallets,
        &payments,
        &tokens,
        50,
        stats,
        book,
    )
    .unwrap();
    (out.book, out.statistics)
}

fn entry<'a>(book: &'a [WhitelistEntry], wallet: &str) -> &'a WhitelistEntry {
    book.iter().find(|e| e.wallet == wallet).unwrap()
}

fn user1_whitelisted() -> (Config, WhitelistInfo) {
    let (config, stats) = mock_instantiate();
    let (book, _) = whitelist(stats, vec![], &[USER1], vec![1000 * SCALE], vec![10_000 * SCALE]);
    let wl = entry(&book, USER1).whitelist.clone();
    (config, wl)
}

#[test]
fn proper_initialization() {
    let (config, _) = mock_instantiate();
    assert_eq!(config.denom, DENOM);
    assert_eq!(config.fee_address, OWNER);
    assert_eq!(config.total_token_on_sale, 1_000_000 * SCALE);
}

#[test]
fn test_set_whitelist() {
    let (_, stats) = mock_instantiate();
    let (book, stats) = whitelist(
        stats,
        vec![],
        &[USER1, USER2],
        vec![1000 * SCALE, 2000 * SCALE],
        vec![10_000 * SCALE, 20_000 * SCALE],
    );
    assert_eq!(entry(&book, USER1).whitelist.amount, 10_000 * SCALE);
    assert_eq!(entry(&book, USER2).whitelist.amount, 20_000 * SCALE);
    assert_eq!(stats.total_vested_token, 30_000 * SCALE);
}

#[test]
fn test_vesting_calculation() {
    let (config, wl) = user1_whitelisted();
    let check = |t: u64, expected: u128| {
        assert_eq!(calculate_vested_amount(&config, &wl, t).unwrap(), expected, "Time: {}", t);
    };
    check(1625097600, 1750000000);
    check(1627689600, 1750000000);
    check(1627689601, 1750000000);
    check(1630281600, 2437500000);
    check(1640865600, 5187500000);
    check(1658793600, 10000000000);
}

#[test]
fn test_vesting_with_cliff() {
    let (config, wl) = user1_whitelisted();
    let check = |t: u64, vested: u128, claimable: u128| {
        assert_eq!(calculate_vested_amount(&config, &wl, t).unwrap(), vested, "Time: {}, Vested", t);
        assert_eq!(
            calculate_claimable_amount(&config, &wl, t).unwrap(),
            claimable,
            "Time: {}, Claimable",
            t
        );
    };
    check(1625097600, 1750000000, 1750000000);
    check(1627689600, 1750000000, 1750000000);
    check(1630281600, 2437500000, 2437500000);
    check(1640865600, 5187500000, 5187500000);
    check(1658793600, 10000000000, 10000000000);
}

#[test]
fn test_multiple_vesting_claims() {
    let (config, mut wl) = user1_whitelisted();
    let mut total_claimed = 0u128;
    let mut claim = |wl: &mut WhitelistInfo, t: u64, expected: u128| -> Result<u128, ContractError> {
        let out = execute_claim_vested_tokens(&config, wl.clone(), &USER1.to_string(), t)?;
        match &out.payouts[0] {
            Payout::BankSend { to_address, denom, amount } => {
                assert_eq!(to_address, USER1);
                assert_eq!(denom, DENOM);
                assert_eq!(*amount, expected, "Time: {}, Expected: {}, Actual: {}", t, expected, amount);
            }
            _ => panic!("Unexpected message type"),
        }
        *wl = out.whitelist;
        Ok(out.amount)
    };
    total_claimed += claim(&mut wl, 1627689600, 1750000000).unwrap();
    total_claimed += claim(&mut wl, 1630281600, 687500000).unwrap();
    total_claimed += claim(&mut wl, 1640865600, 2750000000).unwrap();
    total_claimed += claim(&mut wl, 1658793600, 4812500000).unwrap();
    assert_eq!(total_claimed, 10000000000, "Total claimed: {}", total_claimed);
    let result = claim(&mut wl, 1658793600, 0);
    assert!(matches!(result, Err(ContractError::NoTokensToClaim {})));
}

#[test]
fn test_claim_vested_tokens() {
    let (config, wl) = user1_whitelisted();
    let out = execute_claim_vested_tokens(&config, wl, &USER1.to_string(), 1640865600).unwrap();
    assert_eq!(1, out.payouts.len());
    assert_eq!(
        out.payouts[0],
        Payout::BankSend {
            to_address: USER1.to_string(),
            denom: DENOM.to_string(),
            amount: 5187500000
        }
    );
}

#[test]
fn test_next_unlock_date() {
    let (config, _) = mock_instantiate();
    let next = |t: u64| query_next_unlock_date(&config, t).unwrap().next_unlock_date;
    assert_eq!(next(1625097600), 1627689600);
    assert_eq!(next(1627689600), 1630281600);
    assert_eq!(next(1630281600), 1632873600);
    assert_eq!(next(1658793600), 1658793600);
}


#[test]
fn whitelisting_adds_batches() {
    let (_, stats) = mock_instantiate();
    let (book, stats) = whitelist(stats, vec![], &[USER1], vec![1000 * SCALE], vec![10_000 * SCALE]);
    let (book, stats) = whitelist(stats, book, &[USER2], vec![2000 * SCALE], vec![20_000 * SCALE]);
    assert!(entry(&book, USER1).is_whitelisted && entry(&book, USER2).is_whitelisted);
    assert_eq!(entry(&book, USER1).index, 1);
    // whitelisting a wallet again adds to it
    let (again, _) = whitelist(stats.clone(), book.clone(), &[USER1], vec![1], vec![2]);
    assert_eq!(entry(&again, USER1).whitelist.amount, 10_000 * SCALE + 2);
    assert_eq!(entry(&again, USER1).user_info.payment_amount, 1000 * SCALE + 1);
    assert_eq!(entry(&again, USER1).index, 2);
    assert_eq!(entry(&book, USER1).whitelist.amount, 10_000 * SCALE);
    assert_eq!(entry(&book, USER2).whitelist.amount, 20_000 * SCALE);
    assert_eq!(stats.total_vested_token, 30_000 * SCALE);
}

#[test]
fn claims_at_each_unlock_add_up_to_the_total() {
    let (config, mut wl) = user1_whitelisted();
    let total: u128 = 10_000 * SCALE;
    let mut claimed: u128 = 0;
    let mut last_vested: u128 = 0;
    for i in 0..=(config.linear_vesting_count as u64 + 1) {
        let now = config.start + i * config.duration;
        let vested = calculate_vested_amount(&config, &wl, now).unwrap();
        assert!(vested >= last_vested && vested <= total);
        last_vested = vested;
        match execute_claim_vested_tokens(&config, wl.clone(), &USER1.to_string(), now) {
            Ok(out) => {
                assert_eq!(out.whitelist.distributed_amount, vested);
                claimed += out.amount;
                wl = out.whitelist;
            }
            Err(e) => assert_eq!(e, ContractError::NoTokensToClaim {}),
        }
        // a second claim at the same moment finds nothing
        let again = execute_claim_vested_tokens(&config, wl.clone(), &USER1.to_string(), now);
        assert!(matches!(again, Err(ContractError::NoTokensToClaim {})));
    }
    assert_eq!(claimed, total);
}

#[test]
fn refund_is_granted_once_within_the_grace_period() {
    let (config, stats) = mock_instantiate();
    let (book, stats) = whitelist(stats, vec![], &[USER1], vec![1000 * SCALE], vec![10_000 * SCALE]);
    let e = entry(&book, USER1);
    let now = config.start + 10;
    let out = execute_request_refund(
        &config,
        e.user_info.clone(),
        e.whitelist.clone(),
        Ok("uusd".to_string()),
        stats.clone(),
        &USER1.to_string(),
        now,
    )
    .unwrap();
    // the fee is payment * refund_fee / 10^decimals
    let fee = 1000 * SCALE * 50 / SCALE;
    assert_eq!(out.fee, fee);
    assert_eq!(out.refund_amount, 1000 * SCALE - fee);
    assert_eq!(
        out.payouts,
        vec![
            Payout::BankSend { to_address: USER1.to_string(), denom: "uusd".to_string(), amount: 1000 * SCALE - fee },
            Payout::BankSend { to_address: OWNER.to_string(), denom: "uusd".to_string(), amount: fee },
        ]
    );
    assert!(out.user_info.refunded);
    assert_eq!(out.user_info.refund_date, Some(now));
    assert_eq!(out.whitelist.amount, 0);
    assert_eq!(out.statistics.total_returned_token, 10_000 * SCALE);
    let again = execute_request_refund(
        &config,
        out.user_info,
        out.whitelist,
        Ok("uusd".to_string()),
        out.statistics,
        &USER1.to_string(),
        now + 1,
    );
    assert_eq!(again.unwrap_err(), ContractError::UserAlreadyRefunded {});
    // outside the grace period
    let late = execute_request_refund(
        &config,
        e.user_info.clone(),
        e.whitelist.clone(),
        Ok("uusd".to_string()),
        stats,
        &USER1.to_string(),
        config.start + config.grace_period,
    );
    assert_eq!(late.unwrap_err(), ContractError::NotInGracePeriod {});
}

#[test]
fn proceeds_are_claimed_once_after_the_grace_period() {
    let (config, stats) = mock_instantiate();
    let (_, stats) = whitelist(stats, vec![], &[USER1], vec![1000 * SCALE], vec![10_000 * SCALE]);
    let owner = Some(OWNER.to_string());
    let during = config.start + config.grace_period;
    let err = execute_claim_funds(&owner, &OWNER.to_string(), &config, stats.clone(), &DENOM.to_string(), during);
    assert_eq!(err.unwrap_err(), ContractError::GracePeriodInProgress {});
    let after = during + 1;
    let out = execute_claim_funds(&owner, &OWNER.to_string(), &config, stats, &DENOM.to_string(), after).unwrap();
    // the platform takes platform_fee / 10^decimals of the tokens sold
    let fee = 10_000 * SCALE * 100 / SCALE;
    assert_eq!(out.platform_fee, fee);
    assert_eq!(out.amount, 10_000 * SCALE - fee);
    let again = execute_claim_funds(&owner, &OWNER.to_string(), &config, out.statistics, &DENOM.to_string(), after + 1);
    assert_eq!(again.unwrap_err(), ContractError::NoFundsToClaim {});
}

#[test]
fn linear_part_stays_between_initial_and_total() {
    let (config, _) = mock_instantiate();
    let total: u128 = 10_000 * SCALE;
    let initial = total * config.initial_unlock_percent as u128 / 10000;
    let mut last = 0;
    let mut t = config.start - 10;
    while t <= config.cliff + 13 * config.duration {
        let v = calculate_linear_vesting(&config, total, t).unwrap();
        assert!(initial <= v && v <= total, "Time: {}", t);
        assert!(v >= last, "Time: {}", t);
        last = v;
        t += config.duration / 7;
    }
    // constant within a step
    let vs = config.cliff;
    assert_eq!(
        calculate_linear_vesting(&config, total, vs + 1).unwrap(),
        calculate_linear_vesting(&config, total, vs + config.duration - 1).unwrap()
    );
    assert_eq!(calculate_linear_vesting(&config, total, vs + 12 * config.duration).unwrap(), total);
}
