//! The faucet: anyone may claim a fixed amount of each configured cw20
//! token and of a native coin, once per claim interval, from balances the
//! faucet is funded with.
use vstd::prelude::*;
use crate::common::{StdError, OwnershipError, Coin, Payout, owner_check, assert_owner, secs, seconds, copy_std_error};

verus! {

/// A token the faucet hands out, and how much of it per claim.
#[derive(Debug, PartialEq, Eq, Clone)]
pub struct TokenConfig {
    pub address: String,
    pub amount: u128,
}

/// The native coin the faucet hands out, and how much of it per claim.
#[derive(Debug, PartialEq, Eq, Clone)]
pub struct NativeCoinConfig {
    pub denom: String,
    pub amount: u128,
}

#[derive(Debug, PartialEq, Eq, Clone)]
pub struct Config {
    pub owner: String,
    pub tokens: Vec<TokenConfig>,
    pub native_coin: NativeCoinConfig,
    /// Seconds between two claims of one claimer.
    pub claim_interval: u64,
}

/// A claimer's record: when it last claimed (in nanoseconds), and how often.
#[derive(Debug, PartialEq, Eq, Clone)]
pub struct ClaimerInfo {
    pub address: String,
    pub last_claim_time: Option<u64>,
    pub total_claims: u128,
}

/// The faucet's balance of one cw20 token.
#[derive(Debug, PartialEq, Eq, Clone)]
pub struct TokenBalance {
    pub address: String,
    pub balance: u128,
}

/// The faucet's balance of the native coin.
#[derive(Debug, PartialEq, Eq, Clone)]
pub struct NativeCoinBalance {
    pub denom: String,
    pub balance: u128,
}

impl Default for TokenConfig {
    fn default() -> (r: Self)
        ensures
            r.address@ == Seq::<char>::empty(),
            r.amount == 0,
    {
        TokenConfig { address: String::new(), amount: 0 }
    }
}

impl Default for NativeCoinConfig {
    fn default() -> (r: Self)
        ensures
            r.denom@ == Seq::<char>::empty(),
            r.amount == 0,
    {
        NativeCoinConfig { denom: String::new(), amount: 0 }
    }
}

impl Default for Config {
    fn default() -> (r: Self)
        ensures
            r.owner@ == Seq::<char>::empty(),
            r.tokens@ == Seq::<TokenConfig>::empty(),
            r.native_coin.denom@ == Seq::<char>::empty(),
            r.native_coin.amount == 0,
            r.claim_interval == 0,
    {
        Config {
            owner: String::new(),
            tokens: Vec::new(),
            native_coin: NativeCoinConfig::default(),
            claim_interval: 0,
        }
    }
}

impl Default for ClaimerInfo {
    fn default() -> (r: Self)
        ensures
            r.address@ == Seq::<char>::empty(),
            r.last_claim_time is None,
            r.total_claims == 0,
    {
        ClaimerInfo { address: String::new(), last_claim_time: None, total_claims: 0 }
    }
}

impl Default for TokenBalance {
    fn default() -> (r: Self)
        ensures
            r.address@ == Seq::<char>::empty(),
            r.balance == 0,
    {
        TokenBalance { address: String::new(), balance: 0 }
    }
}

impl Default for NativeCoinBalance {
    fn default() -> (r: Self)
        ensures
            r.denom@ == Seq::<char>::empty(),
            r.balance == 0,
    {
        NativeCoinBalance { denom: String::new(), balance: 0 }
    }
}

/// The errors of the faucet.
#[derive(Debug, PartialEq, Eq)]
pub enum ContractError {
    Std(StdError),
    Ownable(OwnershipError),
    QueryError { msg: String },
    InvalidAmount {},
    InvalidCw20 {},
    ClaimTooEarly {},
    ClaimLimitReached {},
    InsufficientFunds {},
    InvalidTokenConfig {},
    InvalidNativeCoinConfig {},
    InvalidClaimInterval {},
    InvalidToken {},
    InvalidDenom {},
    NoFunds {},
    /// Arithmetic that the contract cannot carry out: the chain aborts the
    /// transaction.
    Overflow {},
    InvalidNativeCoinDenom {},
    InvalidTokenAmount {},
    InvalidNativeCoinAmount {},
    TokenBalanceNotFound {},
    TokenBalanceOverflow {},
    Unauthorized {},
}

#[derive(Debug, PartialEq, Eq, Clone)]
pub struct InstantiateMsg {
    pub owner: Option<String>,
    pub tokens: Vec<TokenConfig>,
    pub native_coin: NativeCoinConfig,
    pub claim_interval: u64,
}

/// What a cw20 transfer to the faucet asks for.
#[derive(Debug, PartialEq, Eq, Clone)]
pub enum ReceiveMsg {
    AddTokens {},
}

#[derive(Debug, PartialEq, Eq, Clone)]
pub enum QueryMsg {
    GetLastClaim { address: String },
    GetTotalClaims { address: String },
    GetConfig {},
    GetHooks {},
    ListClaimers { start_after: Option<String>, limit: Option<u32> },
    Ownership {},
    GetClaimBalances {},
    GetTokenBalance { address: String },
    GetNativeBalance {},
}

#[derive(Debug, PartialEq, Eq, Clone)]
pub struct GetHooksResponse {
    pub hooks: Vec<String>,
}

#[derive(Debug, PartialEq, Eq, Clone)]
pub struct GetClaimBalancesResponse {
    pub tokens: Vec<TokenBalance>,
    pub native_coin: NativeCoinBalance,
}

/// The error of a token balance that is not stored: the chain reports the
/// kind of value it misses.
pub open spec fn is_missing_balance(e: ContractError) -> bool {
    e matches ContractError::Std(StdError::NotFound { kind })
        && kind@ == "cosmwasm_std::math::uint128::Uint128"@
}

fn balance_not_found() -> (r: ContractError)
    ensures
        is_missing_balance(r),
{
    ContractError::Std(StdError::NotFound { kind: "cosmwasm_std::math::uint128::Uint128".to_owned() })
}

// ---------------------------------------------------------------------
// Balances
// ---------------------------------------------------------------------

/// The first position at or after `i` of the balance of `token`, or `-1`.
pub open spec fn find_balance(book: Seq<TokenBalance>, token: Seq<char>, i: int) -> int
    decreases book.len() - i,
{
    if i < 0 || i >= book.len() {
        -1
    } else if book[i].address@ == token {
        i
    } else {
        find_balance(book, token, i + 1)
    }
}

proof fn lemma_find_balance(book: Seq<TokenBalance>, token: Seq<char>, i: int)
    requires
        0 <= i,
    ensures
        find_balance(book, token, i) == -1 || (i <= find_balance(book, token, i) < book.len()
            && book[find_balance(book, token, i)].address@ == token),
    decreases book.len() - i,
{
    if i < book.len() && book[i].address@ != token {
        lemma_find_balance(book, token, i + 1);
    }
}

/// The stored balance of `token`, if any.
pub open spec fn balance_of(book: Seq<TokenBalance>, token: Seq<char>) -> Option<u128> {
    let j = find_balance(book, token, 0);
    if j >= 0 {
        Some(book[j].balance)
    } else {
        None
    }
}

/// `book` with the balance of `token` set to `v`.
pub open spec fn set_balance(book: Seq<TokenBalance>, token: String, v: u128) -> Seq<TokenBalance> {
    let j = find_balance(book, token@, 0);
    if j >= 0 {
        book.update(j, TokenBalance { address: book[j].address, balance: v })
    } else {
        book.push(TokenBalance { address: token, balance: v })
    }
}

fn find_balance_index(book: &Vec<TokenBalance>, token: &String) -> (r: Option<usize>)
    ensures
        match r {
            Some(j) => find_balance(book@, token@, 0) == j as int && j < book.len()
                && book@[j as int].address@ == token@,
            None => find_balance(book@, token@, 0) == -1,
        },
{
    let mut i: usize = 0;
    while i < book.len()
        invariant
            i <= book.len(),
            find_balance(book@, token@, 0) == find_balance(book@, token@, i as int),
        decreases book.len() - i,
    {
        if book[i].address.eq(token) {
            return Some(i);
        }
        i = i + 1;
    }
    None
}

fn put_balance(book: &mut Vec<TokenBalance>, token: &String, v: u128)
    ensures
        final(book)@ == set_balance(old(book)@, *token, v),
{
    match find_balance_index(book, token) {
        Some(j) => {
            let address = book[j].address.clone();
            book.set(j, TokenBalance { address, balance: v });
        },
        None => {
            book.push(TokenBalance { address: token.clone(), balance: v });
        },
    }
}

/// Whether `token` is one the faucet hands out.
pub open spec fn is_configured(tokens: Seq<TokenConfig>, token: Seq<char>) -> bool {
    exists|i: int| 0 <= i < tokens.len() && tokens[i].address@ == token
}

/// Only a configured token may fund the faucet.
pub fn check_received_token(config: &Config, token: &String) -> (r: Result<(), ContractError>)
    ensures
        r == (if is_configured(config.tokens@, token@) {
            Ok::<(), ContractError>(())
        } else {
            Err(ContractError::InvalidToken {})
        }),
{
    let mut i: usize = 0;
    while i < config.tokens.len()
        invariant
            i <= config.tokens.len(),
            forall|k: int| 0 <= k < i ==> config.tokens@[k].address@ != token@,
        decreases config.tokens.len() - i,
    {
        if config.tokens[i].address.eq(token) {
            return Ok(());
        }
        i = i + 1;
    }
    Err(ContractError::InvalidToken {})
}

/// Adds `amount` of a configured token received to the faucet's balance of
/// it; a token without a balance starts from nothing.
pub fn execute_add_tokens(balance: Option<u128>, amount: u128) -> (r: Result<u128, ContractError>)
    ensures
        ({
            let b = match balance {
                Some(v) => v as int,
                None => 0,
            };
            r == (if amount == 0 {
                Err::<u128, ContractError>(ContractError::InvalidAmount {})
            } else if b + amount > u128::MAX {
                Err(ContractError::TokenBalanceOverflow {})
            } else {
                Ok((b + amount) as u128)
            })
        }),
{
    if amount == 0 {
        return Err(ContractError::InvalidAmount {});
    }
    match balance.unwrap_or(0).checked_add(amount) {
        Some(v) => Ok(v),
        None => Err(ContractError::TokenBalanceOverflow {}),
    }
}

/// Adds the native coins sent to the faucet's balance; all must be of the
/// configured denomination, and the first is the one counted.
pub fn execute_add_native_tokens(config: &Config, funds: &Vec<Coin>, balance: u128) -> (r: Result<
    u128,
    ContractError,
>)
    ensures
        r == (if funds.len() == 0 {
            Err::<u128, ContractError>(ContractError::NoFunds {})
        } else if exists|i: int|
            0 <= i < funds.len() && funds@[i].denom@ != config.native_coin.denom@ {
            Err(ContractError::InvalidDenom {})
        } else if balance + funds@[0].amount > u128::MAX {
            Err(ContractError::TokenBalanceOverflow {})
        } else {
            Ok((balance + funds@[0].amount) as u128)
        }),
{
    if funds.len() == 0 {
        return Err(ContractError::NoFunds {});
    }
    let mut i: usize = 0;
    while i < funds.len()
        invariant
            i <= funds.len(),
            forall|k: int| 0 <= k < i ==> funds@[k].denom@ == config.native_coin.denom@,
        decreases funds.len() - i,
    {
        if !funds[i].denom.eq(&config.native_coin.denom) {
            return Err(ContractError::InvalidDenom {});
        }
        i = i + 1;
    }
    match balance.checked_add(funds[0].amount) {
        Some(v) => Ok(v),
        None => Err(ContractError::TokenBalanceOverflow {}),
    }
}

// ---------------------------------------------------------------------
// Claims
// ---------------------------------------------------------------------

/// The balances after handing out the first `n` configured tokens; `None`
/// stands for a token whose balance is not stored.
pub open spec fn claim_tokens_fold(book: Seq<TokenBalance>, tokens: Seq<TokenConfig>, n: nat) -> Result<
    Seq<TokenBalance>,
    Option<ContractError>,
>
    decreases n,
{
    if n == 0 {
        Ok(book)
    } else {
        match claim_tokens_fold(book, tokens, (n - 1) as nat) {
            Err(e) => Err(e),
            Ok(b) => {
                let t = tokens[n - 1];
                match balance_of(b, t.address@) {
                    None => Err(None),
                    Some(v) => if v < t.amount {
                        Err(Some(ContractError::InsufficientFunds {}))
                    } else {
                        Ok(set_balance(b, t.address, (v - t.amount) as u128))
                    },
                }
            },
        }
    }
}

proof fn lemma_claim_fold_error_persists(
    book: Seq<TokenBalance>,
    tokens: Seq<TokenConfig>,
    k: nat,
    n: nat,
)
    requires
        k <= n,
        claim_tokens_fold(book, tokens, k) is Err,
    ensures
        claim_tokens_fold(book, tokens, n) == claim_tokens_fold(book, tokens, k),
    decreases n - k,
{
    if k < n {
        lemma_claim_fold_error_persists(book, tokens, k, (n - 1) as nat);
    }
}

/// What a claim at `now` changes: the token balances, the native balance
/// and the claimer's count of claims; `None` stands for a token whose
/// balance is not stored.
pub open spec fn claim_result(
    c: Config,
    last_claim: Option<u64>,
    now: u64,
    book: Seq<TokenBalance>,
    native: u128,
    total_claims: Option<u128>,
) -> Result<(Seq<TokenBalance>, u128, u128), Option<ContractError>> {
    let too_early: Option<ContractError> = match last_claim {
        None => None,
        Some(t) => if secs(t) + c.claim_interval > u64::MAX {
            Some(ContractError::Overflow {})
        } else if secs(now) < secs(t) + c.claim_interval {
            Some(ContractError::ClaimTooEarly {})
        } else {
            None
        },
    };
    match too_early {
        Some(e) => Err(Some(e)),
        None => match claim_tokens_fold(book, c.tokens@, c.tokens@.len()) {
            Err(e) => Err(e),
            Ok(b) => if c.native_coin.amount != 0 && native < c.native_coin.amount {
                Err(Some(ContractError::InsufficientFunds {}))
            } else {
                let claims = match total_claims {
                    Some(k) => k + 1,
                    None => 1,
                };
                if claims > u128::MAX {
                    Err(Some(ContractError::Overflow {}))
                } else {
                    Ok(
                        (
                            b,
                            (if c.native_coin.amount != 0 {
                                native - c.native_coin.amount
                            } else {
                                native as int
                            }) as u128,
                            claims as u128,
                        ),
                    )
                }
            },
        },
    }
}

/// The transfers of the first `n` configured tokens to `claimer`.
pub open spec fn token_payouts(tokens: Seq<TokenConfig>, claimer: String, n: nat) -> Seq<Payout> {
    Seq::new(
        n,
        |i: int|
            Payout::Cw20Transfer {
                token: tokens[i].address,
                recipient: claimer,
                amount: tokens[i].amount,
            },
    )
}

/// Everything a claim pays `claimer`.
pub open spec fn claim_payouts(c: Config, claimer: String) -> Seq<Payout> {
    let tokens = token_payouts(c.tokens@, claimer, c.tokens@.len());
    if c.native_coin.amount != 0 {
        tokens.push(
            Payout::BankSend {
                to_address: claimer,
                denom: c.native_coin.denom,
                amount: c.native_coin.amount,
            },
        )
    } else {
        tokens
    }
}

/// What a successful claim stores and pays.
#[derive(Debug, PartialEq, Eq)]
pub struct ClaimOutcome {
    pub balances: Vec<TokenBalance>,
    pub native_balance: u128,
    pub last_claim_time: u64,
    pub total_claims: u128,
    pub payouts: Vec<Payout>,
}

/// Hands `claimer` the configured amount of each token and of the native
/// coin at `now` (in nanoseconds), once the claim interval has passed since
/// its last claim; each balance must cover its amount. `balances` holds
/// the stored token balances.
#[verifier::loop_isolation(false)]
pub fn execute_claim(
    config: &Config,
    claimer: &String,
    last_claim: Option<u64>,
    now: u64,
    balances: Vec<TokenBalance>,
    native_balance: u128,
    total_claims: Option<u128>,
) -> (r: Result<ClaimOutcome, ContractError>)
    ensures
        match claim_result(*config, last_claim, now, balances@, native_balance, total_claims) {
            Err(None) => r matches Err(e) && is_missing_balance(e),
            Err(Some(e)) => r == Err::<ClaimOutcome, ContractError>(e),
            Ok((b, native, claims)) => r matches Ok(o) && o.balances@ == b && o.native_balance
                == native && o.total_claims == claims && o.last_claim_time == now
                && o.payouts@ == claim_payouts(*config, *claimer),
        },
{
    if let Some(last) = last_claim {
        let next_claim_time = match seconds(last).checked_add(config.claim_interval) {
            Some(v) => v,
            None => return Err(ContractError::Overflow {}),
        };
        if seconds(now) < next_claim_time {
            return Err(ContractError::ClaimTooEarly {});
        }
    }
    let ghost book0 = balances@;
    let mut balances = balances;
    let mut payouts: Vec<Payout> = Vec::new();
    let mut i: usize = 0;
    while i < config.tokens.len()
        invariant
            i <= config.tokens.len(),
            claim_tokens_fold(book0, config.tokens@, i as nat) == Ok::<
                Seq<TokenBalance>,
                Option<ContractError>,
            >(balances@),
            payouts@ == token_payouts(config.tokens@, *claimer, i as nat),
        decreases config.tokens.len() - i,
    {
        let token = &config.tokens[i];
        let balance = match find_balance_index(&balances, &token.address) {
            Some(j) => balances[j].balance,
            None => {
                proof {
                    lemma_claim_fold_error_persists(
                        book0,
                        config.tokens@,
                        (i + 1) as nat,
                        config.tokens@.len(),
                    );
                }
                return Err(balance_not_found());
            },
        };
        if balance < token.amount {
            proof {
                lemma_claim_fold_error_persists(
                    book0,
                    config.tokens@,
                    (i + 1) as nat,
                    config.tokens@.len(),
                );
            }
            return Err(ContractError::InsufficientFunds {});
        }
        put_balance(&mut balances, &token.address, balance - token.amount);
        payouts.push(
            Payout::Cw20Transfer {
                token: token.address.clone(),
                recipient: claimer.clone(),
                amount: token.amount,
            },
        );
        assert(payouts@ =~= token_payouts(config.tokens@, *claimer, (i + 1) as nat));
        i = i + 1;
    }
    let mut native_balance = native_balance;
    if config.native_coin.amount != 0 {
        if native_balance < config.native_coin.amount {
            return Err(ContractError::InsufficientFunds {});
        }
        native_balance = native_balance - config.native_coin.amount;
        payouts.push(
            Payout::BankSend {
                to_address: claimer.clone(),
                denom: config.native_coin.denom.clone(),
                amount: config.native_coin.amount,
            },
        );
    }
    let total_claims = match total_claims.unwrap_or(0).checked_add(1) {
        Some(v) => v,
        None => return Err(ContractError::Overflow {}),
    };
    Ok(ClaimOutcome { balances, native_balance, last_claim_time: now, total_claims, payouts })
}

// ---------------------------------------------------------------------
// The owner's operations
// ---------------------------------------------------------------------

/// The balances and transfers after emptying the first `n` configured
/// tokens' balances; `Err` stands for a token whose balance is not stored.
pub open spec fn withdraw_fold(
    book: Seq<TokenBalance>,
    tokens: Seq<TokenConfig>,
    owner: String,
    n: nat,
) -> Result<(Seq<TokenBalance>, Seq<Payout>), ()>
    decreases n,
{
    if n == 0 {
        Ok((book, Seq::empty()))
    } else {
        match withdraw_fold(book, tokens, owner, (n - 1) as nat) {
            Err(e) => Err(e),
            Ok((b, ps)) => {
                let t = tokens[n - 1];
                match balance_of(b, t.address@) {
                    None => Err(()),
                    Some(v) => if v != 0 {
                        Ok(
                            (
                                set_balance(b, t.address, 0),
                                ps.push(
                                    Payout::Cw20Transfer {
                                        token: t.address,
                                        recipient: owner,
                                        amount: v,
                                    },
                                ),
                            ),
                        )
                    } else {
                        Ok((b, ps))
                    },
                }
            },
        }
    }
}

proof fn lemma_withdraw_fold_error_persists(
    book: Seq<TokenBalance>,
    tokens: Seq<TokenConfig>,
    owner: String,
    k: nat,
    n: nat,
)
    requires
        k <= n,
        withdraw_fold(book, tokens, owner, k) is Err,
    ensures
        withdraw_fold(book, tokens, owner, n) is Err,
    decreases n - k,
{
    if k < n {
        lemma_withdraw_fold_error_persists(book, tokens, owner, k, (n - 1) as nat);
    }
}

/// What a withdrawal stores and pays.
#[derive(Debug, PartialEq, Eq)]
pub struct WithdrawOutcome {
    pub balances: Vec<TokenBalance>,
    pub native_balance: u128,
    pub payouts: Vec<Payout>,
}

/// Pays the owner the faucet's whole balance of each configured token and
/// of the native coin; empty balances are not sent.
#[verifier::loop_isolation(false)]
pub fn execute_withdraw(
    owner: &Option<String>,
    sender: &String,
    config: &Config,
    balances: Vec<TokenBalance>,
    native_balance: u128,
) -> (r: Result<WithdrawOutcome, ContractError>)
    ensures
        match owner_check(*owner, *sender) {
            Err(e) => r == Err::<WithdrawOutcome, ContractError>(ContractError::Ownable(e)),
            Ok(_) => match withdraw_fold(balances@, config.tokens@, *sender, config.tokens@.len()) {
                Err(_) => r matches Err(e) && is_missing_balance(e),
                Ok((b, ps)) => r matches Ok(o) && o.balances@ == b && o.native_balance == 0
                    && o.payouts@ == (if native_balance != 0 {
                    ps.push(
                        Payout::BankSend {
                            to_address: *sender,
                            denom: config.native_coin.denom,
                            amount: native_balance,
                        },
                    )
                } else {
                    ps
                }),
            },
        },
{
    if let Err(e) = assert_owner(owner, sender) {
        return Err(ContractError::Ownable(e));
    }
    let ghost book0 = balances@;
    let mut balances = balances;
    let mut payouts: Vec<Payout> = Vec::new();
    let mut i: usize = 0;
    while i < config.tokens.len()
        invariant
            i <= config.tokens.len(),
            withdraw_fold(book0, config.tokens@, *sender, i as nat) == Ok::<
                (Seq<TokenBalance>, Seq<Payout>),
                (),
            >((balances@, payouts@)),
        decreases config.tokens.len() - i,
    {
        let token = &config.tokens[i];
        let balance = match find_balance_index(&balances, &token.address) {
            Some(j) => balances[j].balance,
            None => {
                proof {
                    lemma_withdraw_fold_error_persists(
                        book0,
                        config.tokens@,
                        *sender,
                        (i + 1) as nat,
                        config.tokens@.len(),
                    );
                }
                return Err(balance_not_found());
            },
        };
        if balance != 0 {
            put_balance(&mut balances, &token.address, 0);
            payouts.push(
                Payout::Cw20Transfer {
                    token: token.address.clone(),
                    recipient: sender.clone(),
                    amount: balance,
                },
            );
        }
        i = i + 1;
    }
    if native_balance != 0 {
        payouts.push(
            Payout::BankSend {
                to_address: sender.clone(),
                denom: config.native_coin.denom.clone(),
                amount: native_balance,
            },
        );
    }
    Ok(WithdrawOutcome { balances, native_balance: 0, payouts })
}

/// A token of a new configuration, with its address as the chain
/// validated it.
#[derive(Debug, PartialEq, Eq)]
pub struct CheckedToken {
    pub address: Result<String, StdError>,
    pub amount: u128,
}

/// The first `n` new tokens, each with a valid address and an amount.
pub open spec fn checked_tokens(ts: Seq<CheckedToken>, n: nat) -> Result<Seq<TokenConfig>, ContractError>
    decreases n,
{
    if n == 0 {
        Ok(Seq::empty())
    } else {
        match checked_tokens(ts, (n - 1) as nat) {
            Err(e) => Err(e),
            Ok(acc) => match ts[n - 1].address {
                Err(e) => Err(ContractError::Std(e)),
                Ok(a) => if ts[n - 1].amount == 0 {
                    Err(ContractError::InvalidTokenAmount {})
                } else {
                    Ok(acc.push(TokenConfig { address: a, amount: ts[n - 1].amount }))
                },
            },
        }
    }
}

proof fn lemma_checked_tokens_error_persists(ts: Seq<CheckedToken>, k: nat, n: nat)
    requires
        k <= n,
        checked_tokens(ts, k) is Err,
    ensures
        checked_tokens(ts, n) == checked_tokens(ts, k),
    decreases n - k,
{
    if k < n {
        lemma_checked_tokens_error_persists(ts, k, (n - 1) as nat);
    }
}

#[verifier::loop_isolation(false)]
fn check_tokens(ts: &Vec<CheckedToken>) -> (r: Result<Vec<TokenConfig>, ContractError>)
    ensures
        match checked_tokens(ts@, ts@.len()) {
            Err(e) => r == Err::<Vec<TokenConfig>, ContractError>(e),
            Ok(v) => r matches Ok(w) && w@ == v,
        },
{
    let mut validated: Vec<TokenConfig> = Vec::new();
    let mut i: usize = 0;
    while i < ts.len()
        invariant
            i <= ts.len(),
            checked_tokens(ts@, i as nat) == Ok::<Seq<TokenConfig>, ContractError>(validated@),
        decreases ts.len() - i,
    {
        let address = match &ts[i].address {
            Ok(a) => a.clone(),
            Err(e) => {
                proof {
                    lemma_checked_tokens_error_persists(ts@, (i + 1) as nat, ts@.len());
                }
                return Err(ContractError::Std(copy_std_error(e)));
            },
        };
        if ts[i].amount == 0 {
            proof {
                lemma_checked_tokens_error_persists(ts@, (i + 1) as nat, ts@.len());
            }
            return Err(ContractError::InvalidTokenAmount {});
        }
        validated.push(TokenConfig { address, amount: ts[i].amount });
        i = i + 1;
    }
    Ok(validated)
}

/// The configuration after an update: new tokens, each with a valid
/// address and an amount; a new native coin with a denomination and an
/// amount; a claim interval that is not zero.
pub open spec fn update_config_result(
    c: Config,
    tokens: Option<Seq<CheckedToken>>,
    native_coin: Option<NativeCoinConfig>,
    claim_interval: Option<u64>,
) -> Result<(Option<Seq<TokenConfig>>, NativeCoinConfig, u64), ContractError> {
    let new_tokens: Result<Option<Seq<TokenConfig>>, ContractError> = match tokens {
        None => Ok(None),
        Some(ts) => match checked_tokens(ts, ts.len()) {
            Err(e) => Err(e),
            Ok(v) => Ok(Some(v)),
        },
    };
    match new_tokens {
        Err(e) => Err(e),
        Ok(t) => match native_coin {
            Some(n) if n.denom@.len() == 0 => Err(ContractError::InvalidNativeCoinDenom {}),
            Some(n) if n.amount == 0 => Err(ContractError::InvalidNativeCoinAmount {}),
            _ => match claim_interval {
                Some(i) if i == 0 => Err(ContractError::InvalidClaimInterval {}),
                _ => Ok(
                    (
                        t,
                        match native_coin {
                            Some(n) => n,
                            None => c.native_coin,
                        },
                        match claim_interval {
                            Some(i) => i,
                            None => c.claim_interval,
                        },
                    ),
                ),
            },
        },
    }
}

/// Replaces what the owner asks of the configuration: the tokens, the
/// native coin and the claim interval.
pub fn execute_update_config(
    owner: &Option<String>,
    sender: &String,
    config: Config,
    tokens: Option<Vec<CheckedToken>>,
    native_coin: Option<NativeCoinConfig>,
    claim_interval: Option<u64>,
) -> (r: Result<Config, ContractError>)
    ensures
        match owner_check(*owner, *sender) {
            Err(e) => r == Err::<Config, ContractError>(ContractError::Ownable(e)),
            Ok(_) => match update_config_result(
                config,
                match tokens {
                    Some(ts) => Some(ts@),
                    None => None,
                },
                native_coin,
                claim_interval,
            ) {
                Err(e) => r == Err::<Config, ContractError>(e),
                Ok((t, n, i)) => r matches Ok(c) && c.owner == config.owner && c.tokens@ == (
                match t {
                    Some(v) => v,
                    None => config.tokens@,
                }) && c.native_coin == n && c.claim_interval == i,
            },
        },
{
    if let Err(e) = assert_owner(owner, sender) {
        return Err(ContractError::Ownable(e));
    }
    let validated = match &tokens {
        Some(ts) => Some(check_tokens(ts)?),
        None => None,
    };
    let mut config = config;
    if let Some(new_tokens) = validated {
        config.tokens = new_tokens;
    }
    if let Some(new_native_coin) = native_coin {
        if new_native_coin.denom.as_str().is_empty() {
            return Err(ContractError::InvalidNativeCoinDenom {});
        }
        if new_native_coin.amount == 0 {
            return Err(ContractError::InvalidNativeCoinAmount {});
        }
        config.native_coin = new_native_coin;
    }
    if let Some(new_claim_interval) = claim_interval {
        if new_claim_interval == 0 {
            return Err(ContractError::InvalidClaimInterval {});
        }
        config.claim_interval = new_claim_interval;
    }
    Ok(config)
}

/// Creates the configuration, owned by the sender, with each token's
/// address as the chain validated it (the first refused address is
/// reported), and a zero balance for each token.
#[verifier::loop_isolation(false)]
pub fn instantiate(
    sender: String,
    msg: InstantiateMsg,
    token_addresses: Vec<Result<String, StdError>>,
) -> (r: Result<(Config, Vec<TokenBalance>), ContractError>)
    requires
        token_addresses.len() == msg.tokens.len(),
    ensures
        (exists|i: int| 0 <= i < token_addresses.len() && token_addresses@[i] is Err) ==> r is Err
            && exists|i: int|
            0 <= i < token_addresses.len() && r == Err::<(Config, Vec<TokenBalance>), ContractError>(
                ContractError::Std(token_addresses@[i]->Err_0),
            ) && forall|k: int| 0 <= k < i ==> token_addresses@[k] is Ok,
        (forall|i: int| 0 <= i < token_addresses.len() ==> token_addresses@[i] is Ok) ==> (r matches Ok(
            (c, b),
        ) && c.owner == sender && c.native_coin == msg.native_coin && c.claim_interval
            == msg.claim_interval && c.tokens@.len() == msg.tokens@.len() && b@.len()
            == msg.tokens@.len() && forall|i: int|
            0 <= i < msg.tokens@.len() ==> c.tokens@[i] == (TokenConfig {
                address: token_addresses@[i]->Ok_0,
                amount: msg.tokens@[i].amount,
            }) && b@[i] == (TokenBalance { address: token_addresses@[i]->Ok_0, balance: 0 })),
{
    let mut tokens: Vec<TokenConfig> = Vec::new();
    let mut balances: Vec<TokenBalance> = Vec::new();
    let mut i: usize = 0;
    while i < token_addresses.len()
        invariant
            i <= token_addresses.len(),
            tokens@.len() == i,
            balances@.len() == i,
            forall|k: int| 0 <= k < i ==> token_addresses@[k] is Ok,
            forall|k: int|
                0 <= k < i ==> tokens@[k] == (TokenConfig {
                    address: token_addresses@[k]->Ok_0,
                    amount: msg.tokens@[k].amount,
                }) && balances@[k] == (TokenBalance {
                    address: token_addresses@[k]->Ok_0,
                    balance: 0,
                }),
        decreases token_addresses.len() - i,
    {
        let address = match &token_addresses[i] {
            Ok(a) => a.clone(),
            Err(e) => return Err(ContractError::Std(copy_std_error(e))),
        };
        tokens.push(TokenConfig { address: address.clone(), amount: msg.tokens[i].amount });
        balances.push(TokenBalance { address, balance: 0 });
        i = i + 1;
    }
    let config = Config {
        owner: sender,
        tokens,
        native_coin: msg.native_coin,
        claim_interval: msg.claim_interval,
    };
    Ok((config, balances))
}

/// The faucet's balances of each configured token and of the native coin;
/// a token whose balance is not stored is reported missing.
pub fn query_claim_balances(config: &Config, balances: &Vec<TokenBalance>, native_balance: u128) -> (r:
    Result<GetClaimBalancesResponse, ContractError>)
    ensures
        (forall|i: int|
            0 <= i < config.tokens@.len() ==> balance_of(balances@, config.tokens@[i].address@)
                is Some) ==> (r matches Ok(resp) && resp.native_coin == (NativeCoinBalance {
            denom: config.native_coin.denom,
            balance: native_balance,
        }) && resp.tokens@.len() == config.tokens@.len() && forall|i: int|
            0 <= i < config.tokens@.len() ==> resp.tokens@[i] == (TokenBalance {
                address: config.tokens@[i].address,
                balance: balance_of(balances@, config.tokens@[i].address@)->Some_0,
            })),
        (exists|i: int|
            0 <= i < config.tokens@.len() && balance_of(balances@, config.tokens@[i].address@)
                is None) ==> (r matches Err(e) && is_missing_balance(e)),
{
    let mut tokens: Vec<TokenBalance> = Vec::new();
    let mut i: usize = 0;
    while i < config.tokens.len()
        invariant
            i <= config.tokens.len(),
            tokens@.len() == i,
            forall|k: int|
                #![trigger config.tokens@[k]]
                0 <= k < i ==> balance_of(balances@, config.tokens@[k].address@) is Some
                    && tokens@[k] == (TokenBalance {
                    address: config.tokens@[k].address,
                    balance: balance_of(balances@, config.tokens@[k].address@)->Some_0,
                }),
        decreases config.tokens.len() - i,
    {
        let token = &config.tokens[i];
        match find_balance_index(balances, &token.address) {
            Some(j) => {
                assert(balance_of(balances@, config.tokens@[i as int].address@) == Some(
                    balances@[j as int].balance,
                ));
                tokens.push(
                    TokenBalance { address: token.address.clone(), balance: balances[j].balance },
                );
            },
            None => {
                return Err(balance_not_found());
            },
        }
        i = i + 1;
    }
    Ok(
        GetClaimBalancesResponse {
            tokens,
            native_coin: NativeCoinBalance {
                denom: config.native_coin.denom.clone(),
                balance: native_balance,
            },
        },
    )
}

// ---------------------------------------------------------------------
// Laws
// ---------------------------------------------------------------------

proof fn lemma_find_after_update(book: Seq<TokenBalance>, j: int, x: TokenBalance, key: Seq<char>, i: int)
    requires
        0 <= j < book.len(),
        x.address == book[j].address,
        0 <= i,
    ensures
        find_balance(book.update(j, x), key, i) == find_balance(book, key, i),
    decreases book.len() - i,
{
    if i < book.len() && book.update(j, x)[i].address@ != key {
        lemma_find_after_update(book, j, x, key, i + 1);
    }
}

proof fn lemma_find_after_push(book: Seq<TokenBalance>, x: TokenBalance, key: Seq<char>, i: int)
    requires
        0 <= i <= book.len(),
    ensures
        find_balance(book.push(x), key, i) == (if find_balance(book, key, i) >= 0 {
            find_balance(book, key, i)
        } else if x.address@ == key {
            book.len() as int
        } else {
            -1
        }),
    decreases book.len() - i,
{
    if i < book.len() {
        assert(book.push(x)[i] == book[i]);
        if book[i].address@ != key {
            lemma_find_after_push(book, x, key, i + 1);
        }
    } else {
        assert(book.push(x)[i] == x);
        assert(find_balance(book.push(x), key, i + 1) == -1);
        assert(find_balance(book, key, i) == -1);
    }
}

/// Setting the balance of `token` gives it that balance and leaves the
/// balance of every other token as it was.
proof fn lemma_set_balance(book: Seq<TokenBalance>, token: String, v: u128, key: Seq<char>)
    ensures
        balance_of(set_balance(book, token, v), key) == (if key == token@ {
            Some(v)
        } else {
            balance_of(book, key)
        }),
{
    let j = find_balance(book, token@, 0);
    lemma_find_balance(book, token@, 0);
    lemma_find_balance(book, key, 0);
    if j >= 0 {
        let x = TokenBalance { address: book[j].address, balance: v };
        lemma_find_after_update(book, j, x, key, 0);
        if key == token@ {
            assert(find_balance(book, key, 0) == j);
        } else {
            let k = find_balance(book, key, 0);
            if k >= 0 {
                assert(k != j);
            }
        }
    } else {
        let x = TokenBalance { address: token, balance: v };
        lemma_find_after_push(book, x, key, 0);
        if key == token@ {
            assert(find_balance(book, key, 0) == -1);
        }
    }
}

/// The configured tokens are told apart by their addresses.
pub open spec fn distinct_tokens(tokens: Seq<TokenConfig>) -> bool {
    forall|i: int, j: int|
        0 <= i < j < tokens.len() ==> #[trigger] tokens[i].address@ != #[trigger] tokens[j].address@
}

/// Whether `key` is the address of one of the first `n` configured tokens.
pub open spec fn among_first(tokens: Seq<TokenConfig>, key: Seq<char>, n: int) -> bool {
    exists|i: int| 0 <= i < n && #[trigger] tokens[i].address@ == key
}

/// A claim takes from the faucet exactly what it hands out: with distinct
/// configured tokens, each configured token's balance falls by its amount
/// per claim, and no other balance changes.
pub proof fn lemma_claim_takes_what_it_pays(book: Seq<TokenBalance>, tokens: Seq<TokenConfig>, n: nat)
    requires
        n <= tokens.len(),
        distinct_tokens(tokens),
        claim_tokens_fold(book, tokens, n) is Ok,
    ensures
        forall|i: int|
            0 <= i < n ==> balance_of(book, #[trigger] tokens[i].address@) is Some
                && balance_of(claim_tokens_fold(book, tokens, n)->Ok_0, tokens[i].address@)
                == Some((balance_of(book, tokens[i].address@)->Some_0 - tokens[i].amount) as u128)
                && balance_of(book, tokens[i].address@)->Some_0 >= tokens[i].amount,
        forall|key: Seq<char>|
            !among_first(tokens, key, n as int) ==> #[trigger] balance_of(
                claim_tokens_fold(book, tokens, n)->Ok_0,
                key,
            ) == balance_of(book, key),
    decreases n,
{
    if n > 0 {
        let m = (n - 1) as nat;
        if claim_tokens_fold(book, tokens, m) is Err {
            lemma_claim_fold_error_persists(book, tokens, m, n);
        }
        lemma_claim_takes_what_it_pays(book, tokens, m);
        let b = claim_tokens_fold(book, tokens, m)->Ok_0;
        let t = tokens[m as int];
        let v = balance_of(b, t.address@)->Some_0;
        let after = claim_tokens_fold(book, tokens, n)->Ok_0;
        assert(after == set_balance(b, t.address, (v - t.amount) as u128));
        assert(!among_first(tokens, t.address@, m as int)) by {
            if among_first(tokens, t.address@, m as int) {
                let i = choose|i: int| 0 <= i < m && #[trigger] tokens[i].address@ == t.address@;
                assert(tokens[i].address@ != tokens[m as int].address@);
            }
        }
        assert forall|i: int| 0 <= i < n implies balance_of(book, #[trigger] tokens[i].address@)
            is Some && balance_of(after, tokens[i].address@) == Some(
            (balance_of(book, tokens[i].address@)->Some_0 - tokens[i].amount) as u128,
        ) && balance_of(book, tokens[i].address@)->Some_0 >= tokens[i].amount by {
            lemma_set_balance(b, t.address, (v - t.amount) as u128, tokens[i].address@);
            if i < m {
                assert(tokens[i].address@ != tokens[m as int].address@);
            }
        }
        assert forall|key: Seq<char>| !among_first(tokens, key, n as int) implies #[trigger] balance_of(
            after,
            key,
        ) == balance_of(book, key) by {
            lemma_set_balance(b, t.address, (v - t.amount) as u128, key);
            assert(!among_first(tokens, key, m as int)) by {
                if among_first(tokens, key, m as int) {
                    let i = choose|i: int| 0 <= i < m && #[trigger] tokens[i].address@ == key;
                    assert(0 <= i < n && tokens[i].address@ == key);
                }
            }
            assert(key != t.address@) by {
                if key == t.address@ {
                    assert(0 <= m < n && tokens[m as int].address@ == key);
                }
            }
        }
    }
}

/// A claimer claims once per claim interval: after a claim at `now`, a
/// claim at any moment less than the interval later is refused as too
/// early, whatever the balances.
pub proof fn lemma_claim_once_per_interval(
    c: Config,
    now: u64,
    later: u64,
    book: Seq<TokenBalance>,
    native: u128,
    total_claims: Option<u128>,
)
    requires
        secs(now) + c.claim_interval <= u64::MAX,
        secs(later) < secs(now) + c.claim_interval,
    ensures
        claim_result(c, Some(now), later, book, native, total_claims) == Err::<
            (Seq<TokenBalance>, u128, u128),
            Option<ContractError>,
        >(Some(ContractError::ClaimTooEarly {})),
{
}

/// A claim counts one more claim of the claimer.
pub proof fn lemma_claim_counts_one_more(
    c: Config,
    last_claim: Option<u64>,
    now: u64,
    book: Seq<TokenBalance>,
    native: u128,
    total_claims: Option<u128>,
)
    requires
        claim_result(c, last_claim, now, book, native, total_claims) is Ok,
    ensures
        claim_result(c, last_claim, now, book, native, total_claims)->Ok_0.2 == (match total_claims {
            Some(k) => k + 1,
            None => 1,
        }),
{
}

/// A withdrawal empties the balance of every configured token and leaves
/// the balances of other tokens as they were.
pub proof fn lemma_withdraw_empties_balances(
    book: Seq<TokenBalance>,
    tokens: Seq<TokenConfig>,
    owner: String,
    n: nat,
)
    requires
        n <= tokens.len(),
        withdraw_fold(book, tokens, owner, n) is Ok,
    ensures
        forall|i: int|
            0 <= i < n ==> balance_of(withdraw_fold(book, tokens, owner, n)->Ok_0.0, #[trigger] tokens[i].address@)
                == Some(0u128),
        forall|key: Seq<char>|
            !among_first(tokens, key, n as int) ==> #[trigger] balance_of(
                withdraw_fold(book, tokens, owner, n)->Ok_0.0,
                key,
            ) == balance_of(book, key),
    decreases n,
{
    if n > 0 {
        let m = (n - 1) as nat;
        if withdraw_fold(book, tokens, owner, m) is Err {
            lemma_withdraw_fold_error_persists(book, tokens, owner, m, n);
        }
        lemma_withdraw_empties_balances(book, tokens, owner, m);
        let b = withdraw_fold(book, tokens, owner, m)->Ok_0.0;
        let t = tokens[m as int];
        let after = withdraw_fold(book, tokens, owner, n)->Ok_0.0;
        assert forall|i: int| 0 <= i < n implies balance_of(after, #[trigger] tokens[i].address@)
            == Some(0u128) by {
            lemma_set_balance(b, t.address, 0, tokens[i].address@);
        }
        assert forall|key: Seq<char>| !among_first(tokens, key, n as int) implies #[trigger] balance_of(
            after,
            key,
        ) == balance_of(book, key) by {
            lemma_set_balance(b, t.address, 0, key);
            assert(!among_first(tokens, key, m as int)) by {
                if among_first(tokens, key, m as int) {
                    let i = choose|i: int| 0 <= i < m && #[trigger] tokens[i].address@ == key;
                    assert(0 <= i < n && tokens[i].address@ == key);
                }
            }
            assert(key != t.address@) by {
                if key == t.address@ {
                    assert(0 <= m < n && tokens[m as int].address@ == key);
                }
            }
        }
    }
}

proof fn lemma_checked_tokens_valid(ts: Seq<CheckedToken>, n: nat)
    requires
        n <= ts.len(),
        checked_tokens(ts, n) is Ok,
    ensures
        checked_tokens(ts, n)->Ok_0.len() == n,
        forall|k: int|
            0 <= k < n ==> (#[trigger] ts[k]).address is Ok && ts[k].amount > 0 && checked_tokens(
                ts,
                n,
            )->Ok_0[k] == (TokenConfig { address: ts[k].address->Ok_0, amount: ts[k].amount }),
    decreases n,
{
    if n > 0 {
        let m = (n - 1) as nat;
        if checked_tokens(ts, m) is Err {
            lemma_checked_tokens_error_persists(ts, m, n);
        }
        lemma_checked_tokens_valid(ts, m);
    }
}

/// An update never leaves a zero claim interval, a native coin without a
/// denomination or amount, or a token without an amount: what it installs
/// is what the owner asked for, each token at the address the chain
/// validated, and what the owner did not touch stays.
pub proof fn lemma_update_config_valid(
    c: Config,
    tokens: Option<Seq<CheckedToken>>,
    native_coin: Option<NativeCoinConfig>,
    claim_interval: Option<u64>,
)
    requires
        update_config_result(c, tokens, native_coin, claim_interval) is Ok,
    ensures
        ({
            let (t, n, i) = update_config_result(c, tokens, native_coin, claim_interval)->Ok_0;
            &&& (claim_interval matches Some(v) ==> i == v && v > 0)
            &&& (claim_interval is None ==> i == c.claim_interval)
            &&& (native_coin matches Some(v) ==> n == v && v.amount > 0 && v.denom@.len() > 0)
            &&& (native_coin is None ==> n == c.native_coin)
            &&& (tokens is None ==> t is None)
            &&& (tokens matches Some(ts) ==> t matches Some(v) && v.len() == ts.len() && forall|k: int|
                0 <= k < ts.len() ==> (#[trigger] ts[k]).address is Ok && ts[k].amount > 0
                    && v[k] == (TokenConfig { address: ts[k].address->Ok_0, amount: ts[k].amount }))
        }),
{
    if let Some(ts) = tokens {
        lemma_checked_tokens_valid(ts, ts.len());
    }
}

/// A claim hands out the configured native coin amount from the native
/// balance, which must cover it; without a native amount configured the
/// native balance stays.
pub proof fn lemma_claim_takes_native_coin(
    c: Config,
    last_claim: Option<u64>,
    now: u64,
    book: Seq<TokenBalance>,
    native: u128,
    total_claims: Option<u128>,
)
    requires
        claim_result(c, last_claim, now, book, native, total_claims) is Ok,
    ensures
        ({
            let (b, n, k) = claim_result(c, last_claim, now, book, native, total_claims)->Ok_0;
            &&& c.native_coin.amount <= native ==> n == native - c.native_coin.amount
            &&& c.native_coin.amount != 0 ==> native >= c.native_coin.amount
            &&& c.native_coin.amount == 0 ==> n == native
            &&& (last_claim matches Some(t) ==> secs(now) >= secs(t) + c.claim_interval)
        }),
{
}

} // verus!
