use launchpad::common::{Coin, OwnershipError, Payout};
use launchpad::faucet::{
    execute_add_native_tokens, execute_add_tokens, execute_claim, execute_update_config,
    execute_withdraw, instantiate, CheckedToken, Config, ContractError, InstantiateMsg,
    NativeCoinConfig, TokenBalance, TokenConfig,
};

const OWNER: &str = "owner";
const USER1: &str = "user1";
const TOKEN1: &str = "contract0";
const TOKEN2: &str = "contract1";
const T1: u128 = 1_000_000;
const T2: u128 = 1_000_000_000_000_000_000;
const START: u64 = 1_571_797_419_879_305_533;
const NANOS: u64 = 1_000_000_000;

struct Faucet {
    config: Config,
    balances: Vec<TokenBalance>,
    native: u128,
    last_claim: Option<u64>,
    total_claims: Option<u128>,
}

fn owner() -> Option<String> {
    Some(OWNER.to_string())
}

fn setup_test_case() -> Faucet {
    let msg = InstantiateMsg {
        owner: owner(),
        tokens: vec![
            TokenConfig { address: TOKEN1.to_string(), amount: 100 * T1 },
            TokenConfig { address: TOKEN2.to_string(), amount: 100 * T2 },
        ],
        native_coin: NativeCoinConfig { denom: "uusd".to_string(), amount: 100_000 },
        claim_interval: 24 * 60 * 60,
    };
    let addresses = vec![Ok(TOKEN1.to_string()), Ok(TOKEN2.to_string())];
    let (config, mut balances) = instantiate(OWNER.to_string(), msg, addresses).unwrap();
    balances[0].balance = execute_add_tokens(Some(balances[0].balance), 10_000 * T1).unwrap();
    balances[1].balance = execute_add_tokens(Some(balances[1].balance), 10_000 * T2).unwrap();
    let funds = vec![Coin { denom: "uusd".to_string(), amount: 1000 * 1_000_000 }];
    let native = execute_add_native_tokens(&config, &funds, 0).unwrap();
    Faucet { config, balances, native, last_claim: None, total_claims: None }
}

fn claim(f: &mut Faucet, now: u64) -> Result<Vec<Payout>, ContractError> {
    let out = execute_claim(
        &f.config,
        &USER1.to_string(),
        f.last_claim,
        now,
        f.balances.clone(),
        f.native,
        f.total_claims,
    )?;
    f.balances = out.balances;
    f.native = out.native_balance;
    f.last_claim = Some(out.last_claim_time);
    f.total_claims = Some(out.total_claims);
    Ok(out.payouts)
}

fn received(payouts: &[Payout], what: &str) -> u128 {
    payouts
        .iter()
        .map(|p| match p {
            Payout::Cw20Transfer { token, recipient, amount } if token == what && recipient == USER1 => *amount,
            Payout::BankSend { denom, to_address, amount } if denom == what && to_address == USER1 => *amount,
            _ => 0,
        })
        .sum()
}

#[test]
fn tests_test_update_config() {
    let f = setup_test_case();
    let config = execute_update_config(
        &owner(),
        &OWNER.to_string(),
        f.config.clone(),
        Some(vec![
            CheckedToken { address: Ok(TOKEN1.to_string()), amount: 500 * T1 },
            CheckedToken { address: Ok(TOKEN2.to_string()), amount: 750 * T2 },
        ]),
        Some(NativeCoinConfig { denom: "uusd".to_string(), amount: 50 * 1_000_000 }),
        Some(43200),
    )
    .unwrap();
    assert_eq!(config.tokens[0].amount, 500 * T1);
    assert_eq!(config.tokens[1].amount, 750 * T2);
    assert_eq!(config.native_coin.amount, 50 * 1_000_000);
    assert_eq!(config.claim_interval, 43200);

    let err = execute_update_config(
        &owner(),
        &USER1.to_string(),
        config.clone(),
        None,
        Some(NativeCoinConfig { denom: "uusd".to_string(), amount: 60 * 1_000_000 }),
        None,
    )
    .unwrap_err();
    assert_eq!(err, ContractError::Ownable(OwnershipError::NotOwner {}));

    let err = execute_update_config(&owner(), &OWNER.to_string(), config.clone(), None, None, Some(0))
        .unwrap_err();
    assert_eq!(err, ContractError::InvalidClaimInterval {});

    let err = execute_update_config(
        &owner(),
        &OWNER.to_string(),
        config.clone(),
        Some(vec![CheckedToken { address: Ok(TOKEN1.to_string()), amount: 0 }]),
        None,
        None,
    )
    .unwrap_err();
    assert_eq!(err, ContractError::InvalidTokenAmount {});

    let err = execute_update_config(
        &owner(),
        &OWNER.to_string(),
        config.clone(),
        None,
        Some(NativeCoinConfig { denom: "".to_string(), amount: 100 }),
        None,
    )
    .unwrap_err();
    assert_eq!(err, ContractError::InvalidNativeCoinDenom {});

    let err = execute_update_config(
        &owner(),
        &OWNER.to_string(),
        config,
        None,
        Some(NativeCoinConfig { denom: "uusd".to_string(), amount: 0 }),
        None,
    )
    .unwrap_err();
    assert_eq!(err, ContractError::InvalidNativeCoinAmount {});
}

#[test]
fn test_execute_claim() {
    let mut f = setup_test_case();
    let first = claim(&mut f, START).unwrap();
    assert_eq!(received(&first, TOKEN1), 100 * T1);
    assert_eq!(received(&first, TOKEN2), 100 * T2);
    assert_eq!(received(&first, "uusd"), 100_000);

    let err = claim(&mut f, START).unwrap_err();
    assert_eq!(err, ContractError::ClaimTooEarly {});

    let second = claim(&mut f, START + 24 * 60 * 60 * NANOS).unwrap();
    assert_eq!(received(&first, TOKEN1) + received(&second, TOKEN1), 2 * 100 * T1);
    assert_eq!(received(&first, TOKEN2) + received(&second, TOKEN2), 2 * 100 * T2);
    assert_eq!(received(&first, "uusd") + received(&second, "uusd"), 2 * 100_000);
    assert!(f.last_claim.is_some());
    assert_eq!(f.total_claims, Some(2));
    assert_eq!(f.balances[0].balance, 10_000 * T1 - 200 * T1);
    assert_eq!(f.native, 1000 * 1_000_000 - 200_000);
}

#[test]
fn test_withdraw() {
    let f = setup_test_case();
    let token1 = f.balances[0].balance;
    let token2 = f.balances[1].balance;
    let native = f.native;
    let out = execute_withdraw(&owner(), &OWNER.to_string(), &f.config, f.balances.clone(), f.native)
        .unwrap();
    assert_eq!(
        out.payouts,
        vec![
            Payout::Cw20Transfer { token: TOKEN1.to_string(), recipient: OWNER.to_string(), amount: token1 },
            Payout::Cw20Transfer { token: TOKEN2.to_string(), recipient: OWNER.to_string(), amount: token2 },
            Payout::BankSend { to_address: OWNER.to_string(), denom: "uusd".to_string(), amount: native },
        ]
    );
    assert!(out.balances.iter().all(|b| b.balance == 0));
    assert_eq!(out.native_balance, 0);

    let err = execute_withdraw(&owner(), &USER1.to_string(), &f.config, f.balances, f.native).unwrap_err();
    assert_eq!(err, ContractError::Ownable(OwnershipError::NotOwner {}));
}

#[test]
fn claim_with_unfunded_token_is_refused() {
    let mut f = setup_test_case();
    f.balances[1].balance = 10;
    assert_eq!(claim(&mut f, START).unwrap_err(), ContractError::InsufficientFunds {});
}

#[test]
fn claim_with_unrecorded_token_is_not_found() {
    let mut f = setup_test_case();
    f.balances.pop();
    assert!(matches!(claim(&mut f, START), Err(ContractError::Std(_))));
}

#[test]
fn native_coin_of_other_denomination_is_refused() {
    let f = setup_test_case();
    let funds = vec![Coin { denom: "uatom".to_string(), amount: 5 }];
    assert_eq!(execute_add_native_tokens(&f.config, &funds, 0), Err(ContractError::InvalidDenom {}));
    assert_eq!(execute_add_native_tokens(&f.config, &vec![], 0), Err(ContractError::NoFunds {}));
}

#[test]
fn zero_and_overflowing_token_additions_are_refused() {
    assert_eq!(execute_add_tokens(Some(1), 0), Err(ContractError::InvalidAmount {}));
    assert_eq!(execute_add_tokens(Some(u128::MAX), 1), Err(ContractError::TokenBalanceOverflow {}));
    assert_eq!(execute_add_tokens(None, 7), Ok(7));
}
