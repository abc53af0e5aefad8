use vstd::prelude::*;

verus! {

/// Nanoseconds in one second: block times are kept in nanoseconds.
pub const NANOS_PER_SECOND: u64 = 1_000_000_000;

/// Whole seconds of a block time given in nanoseconds.
pub open spec fn secs(nanos: u64) -> u64 {
    (nanos / NANOS_PER_SECOND) as u64
}

/// Whole seconds of a block time given in nanoseconds.
pub fn seconds(nanos: u64) -> (r: u64)
    ensures
        r == secs(nanos),
{
    nanos / NANOS_PER_SECOND
}

/// The errors of the chain's standard library that the contracts pass on.
#[derive(Debug, PartialEq, Eq)]
pub enum StdError {
    /// An error with a free-form message.
    GenericErr { msg: String },
    /// A stored value that an operation needs is missing.
    NotFound { kind: String },
    /// A checked arithmetic operation overflowed.
    Overflow {},
}

/// A copy of `e`.
pub fn copy_std_error(e: &StdError) -> (r: StdError)
    ensures
        r == *e,
{
    match e {
        StdError::GenericErr { msg } => StdError::GenericErr { msg: msg.clone() },
        StdError::NotFound { kind } => StdError::NotFound { kind: kind.clone() },
        StdError::Overflow {} => StdError::Overflow {},
    }
}

/// Why a sender may not act as the contract's owner.
#[derive(Debug, PartialEq, Eq)]
pub enum OwnershipError {
    /// The contract's ownership has been renounced.
    NoOwner {},
    /// The sender is not the contract's current owner.
    NotOwner {},
}

/// The outcome of checking `sender` against the recorded `owner`.
pub open spec fn owner_check(owner: Option<String>, sender: String) -> Result<(), OwnershipError> {
    match owner {
        None => Err(OwnershipError::NoOwner {}),
        Some(o) => if o@ == sender@ {
            Ok(())
        } else {
            Err(OwnershipError::NotOwner {})
        },
    }
}

/// Checks that `sender` is the contract's owner: a contract whose
/// ownership was renounced has none, and any other sender is refused.
pub fn assert_owner(owner: &Option<String>, sender: &String) -> (r: Result<(), OwnershipError>)
    ensures
        r == owner_check(*owner, *sender),
{
    match owner {
        None => Err(OwnershipError::NoOwner {}),
        Some(o) => if o.eq(sender) {
            Ok(())
        } else {
            Err(OwnershipError::NotOwner {})
        },
    }
}

/// An amount of a native denomination.
#[derive(Debug, PartialEq, Eq, Clone)]
pub struct Coin {
    pub denom: String,
    pub amount: u128,
}

/// A payment that an operation asks the chain to make.
#[derive(Debug, PartialEq, Eq, Clone)]
pub enum Payout {
    /// A transfer of `amount` of the cw20 token at `token` to `recipient`.
    Cw20Transfer { token: String, recipient: String, amount: u128 },
    /// A bank transfer of `amount` of `denom` to `to_address`.
    BankSend { to_address: String, denom: String, amount: u128 },
}

/// `base` raised to `exp`.
pub open spec fn pow_spec(base: int, exp: nat) -> int
    decreases exp,
{
    if exp == 0 {
        1
    } else {
        base * pow_spec(base, (exp - 1) as nat)
    }
}

proof fn lemma_pow10_grows(e: nat)
    ensures
        pow_spec(10, e) >= 1,
        pow_spec(10, e + 1) >= pow_spec(10, e),
    decreases e,
{
    if e > 0 {
        lemma_pow10_grows((e - 1) as nat);
    }
}

/// Every power of ten is positive.
pub proof fn lemma_pow10_positive(e: nat)
    ensures
        pow_spec(10, e) >= 1,
{
    lemma_pow10_grows(e);
}

/// `10` raised to `exp`, or `None` where the power exceeds `u128::MAX`.
pub fn checked_pow10(exp: u32) -> (r: Option<u128>)
    ensures
        pow_spec(10, exp as nat) >= 1,
        match r {
            Some(v) => v as int == pow_spec(10, exp as nat),
            None => pow_spec(10, exp as nat) > u128::MAX,
        },
{
    let mut acc: u128 = 1;
    let mut i: u32 = 0;
    while i < exp
        invariant
            i <= exp,
            acc as int == pow_spec(10, i as nat),
        decreases exp - i,
    {
        proof {
            lemma_pow10_grows(i as nat);
        }
        match acc.checked_mul(10) {
            Some(v) => {
                acc = v;
            },
            None => {
                proof {
                    lemma_pow10_grows_from(i as nat, exp as nat);
                }
                return None;
            },
        }
        i = i + 1;
    }
    proof {
        lemma_pow10_grows(exp as nat);
    }
    Some(acc)
}

proof fn lemma_pow10_grows_from(a: nat, b: nat)
    requires
        a < b,
    ensures
        pow_spec(10, b) >= pow_spec(10, a + 1),
        pow_spec(10, a) >= 1,
    decreases b - a,
{
    lemma_pow10_grows(a);
    if a + 1 < b {
        lemma_pow10_grows_from(a + 1, b);
    }
}

/// The position of the first refused address at or after `i`, or `-1`.
pub open spec fn first_refused(v: Seq<Result<String, StdError>>, i: int) -> int
    decreases v.len() - i,
{
    if i < 0 || i >= v.len() {
        -1
    } else if v[i] is Err {
        i
    } else {
        first_refused(v, i + 1)
    }
}

/// The addresses as the chain validated them, or the first it refused.
pub open spec fn validated_all(v: Seq<Result<String, StdError>>) -> Result<Seq<String>, StdError> {
    let j = first_refused(v, 0);
    if j >= 0 {
        Err(v[j]->Err_0)
    } else {
        Ok(Seq::new(v.len(), |i: int| v[i]->Ok_0))
    }
}

proof fn lemma_first_refused(v: Seq<Result<String, StdError>>, i: int)
    requires
        0 <= i,
    ensures
        first_refused(v, i) == -1 ==> forall|k: int| i <= k < v.len() ==> v[k] is Ok,
        first_refused(v, i) != -1 ==> i <= first_refused(v, i) < v.len() && v[first_refused(v, i)] is Err,
    decreases v.len() - i,
{
    if 0 <= i < v.len() && v[i] is Ok {
        lemma_first_refused(v, i + 1);
    }
}

/// Collects addresses as the chain validated them, stopping at the first
/// it refused.
pub fn collect_validated(v: &Vec<Result<String, StdError>>) -> (r: Result<Vec<String>, StdError>)
    ensures
        match validated_all(v@) {
            Err(e) => r == Err::<Vec<String>, StdError>(e),
            Ok(s) => r matches Ok(w) && w@ == s,
        },
{
    let mut out: Vec<String> = Vec::new();
    let mut i: usize = 0;
    while i < v.len()
        invariant
            i <= v.len(),
            first_refused(v@, 0) == first_refused(v@, i as int),
            out@.len() == i,
            forall|k: int| 0 <= k < i ==> (#[trigger] v@[k]) is Ok,
            forall|k: int| 0 <= k < i ==> #[trigger] out@[k] == v@[k]->Ok_0,
        decreases v.len() - i,
    {
        match &v[i] {
            Ok(a) => {
                let c = a.clone();
                assert(v@[i as int] == Ok::<String, StdError>(c));
                out.push(c);
            },
            Err(e) => return Err(copy_std_error(e)),
        }
        i = i + 1;
    }
    proof {
        lemma_first_refused(v@, v@.len() as int);
    }
    assert(out@ =~= Seq::new(v@.len(), |k: int| v@[k]->Ok_0));
    Ok(out)
}

} // verus!
