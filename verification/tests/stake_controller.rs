use launchpad::common::{OwnershipError, StdError};
use launchpad::stake_controller::{
    execute_update_custom_tiers, instantiate, query_total_staked, query_user_custom_tier,
    query_user_tier_index, Config, ContractError, InstantiateMsg,
};

const OWNER: &str = "owner0000";

fn setup_test_case() -> Config {
    let msg = InstantiateMsg {
        owner: Some(OWNER.to_string()),
        token_address: "contract0".to_string(),
        stake_contracts: vec!["contract1".to_string(), "contract2".to_string()],
        stake_contract_multipliers: vec![10000, 20000],
        tier_thresholds: vec![100 * 1_000_000, 200 * 1_000_000],
    };
    let contracts = vec![Ok("contract1".to_string()), Ok("contract2".to_string())];
    instantiate(msg, Ok("contract0".to_string()), true, &contracts).unwrap()
}

/// Each staking contract reports a stake of 100 tokens.
fn reported() -> Vec<Result<u128, StdError>> {
    vec![Ok(100 * 1_000_000), Ok(100 * 1_000_000)]
}

#[test]
fn test_query_user_tier_index() {
    let config = setup_test_case();
    let res = query_user_tier_index(&config, None, &reported()).unwrap();
    assert_eq!(res.tier, 2);
    assert_eq!(res.total_staked, 300 * 1_000_000);
}

#[test]
fn test_query_total_staked() {
    let config = setup_test_case();
    assert_eq!(query_total_staked(&config, &reported()).unwrap(), 300 * 1_000_000);
}

#[test]
fn test_update_custom_tiers() {
    let config = setup_test_case();
    let (address, tier) = execute_update_custom_tiers(
        &Some(OWNER.to_string()),
        &OWNER.to_string(),
        Ok("user0001".to_string()),
        2,
    )
    .unwrap();
    assert_eq!(address, "user0001");
    let res = query_user_tier_index(&config, Some(tier), &reported()).unwrap();
    assert_eq!(res.tier, 2);
    assert_eq!(res.total_staked, 0);
}

#[test]
fn tier_below_first_threshold_is_zero() {
    let config = setup_test_case();
    let low = vec![Ok(10), Ok(10)];
    let res = query_user_tier_index(&config, None, &low).unwrap();
    assert_eq!(res.tier, 0);
    assert_eq!(res.total_staked, 30);
}

#[test]
fn custom_tier_needs_owner() {
    let err = execute_update_custom_tiers(
        &Some(OWNER.to_string()),
        &"user0001".to_string(),
        Ok("user0001".to_string()),
        2,
    )
    .unwrap_err();
    assert_eq!(err, ContractError::Ownership(OwnershipError::NotOwner {}));
}

#[test]
fn mismatched_multipliers_are_refused() {
    let msg = InstantiateMsg {
        owner: None,
        token_address: "contract0".to_string(),
        stake_contracts: vec!["contract1".to_string()],
        stake_contract_multipliers: vec![],
        tier_thresholds: vec![],
    };
    let contracts = vec![Ok("contract1".to_string())];
    let err = instantiate(msg, Ok("contract0".to_string()), true, &contracts).unwrap_err();
    assert_eq!(err, ContractError::InvalidInputLength {});
}

#[test]
fn failed_report_is_passed_on() {
    let config = setup_test_case();
    let reports = vec![Ok(1), Err(StdError::GenericErr { msg: "down".to_string() })];
    let err = query_total_staked(&config, &reports).unwrap_err();
    assert_eq!(err, ContractError::Std(StdError::GenericErr { msg: "down".to_string() }));
}

#[test]
fn missing_custom_tier_is_not_found() {
    assert!(matches!(
        query_user_custom_tier(None),
        Err(ContractError::Std(StdError::NotFound { .. }))
    ));
    assert_eq!(query_user_custom_tier(Some(3)), Ok(3));
}
