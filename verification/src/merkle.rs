//! Whitelist proofs: a wallet is whitelisted for an allocation when the
//! SHA-256 hash of the wallet's address followed by the allocation, folded
//! with the hex-encoded hashes of its proof, gives the whitelist's root.
use vstd::prelude::*;
use vstd::utf8::encode_utf8;

verus! {

/// What `sha2::Sha256::digest` returns for `data`.
pub uninterp spec fn sha256_of(data: Seq<u8>) -> Seq<u8>;

/// `sha2::Sha256::digest`: the SHA-256 digest of `data`, which is 32 bytes
/// long; its value is named, not stated.
#[verifier::external_body]
fn sha256(data: &[u8]) -> (r: Vec<u8>)
    ensures
        r@ == sha256_of(data@),
        r@.len() == 32,
{
    <sha2::Sha256 as sha2::Digest>::digest(data).to_vec()
}

/// Why a string does not decode as 32 hex-encoded bytes.
#[derive(Debug, PartialEq, Eq, Clone, Copy)]
pub enum HexError {
    InvalidHexCharacter { c: char, index: usize },
    OddLength,
    InvalidStringLength,
}

/// The value of a hex digit, either case.
pub open spec fn hex_digit(b: u8) -> Option<int> {
    if 48 <= b <= 57 {
        Some(b - 48)
    } else if 65 <= b <= 70 {
        Some(b - 65 + 10)
    } else if 97 <= b <= 102 {
        Some(b - 97 + 10)
    } else {
        None
    }
}

/// The first position at or after `i` that holds no hex digit, or `-1`.
pub open spec fn first_non_hex(data: Seq<u8>, i: int) -> int
    decreases data.len() - i,
{
    if i < 0 || i >= data.len() {
        -1
    } else if hex_digit(data[i]) is None {
        i
    } else {
        first_non_hex(data, i + 1)
    }
}

/// `data` decoded as 32 hex-encoded bytes, or why it does not decode.
pub open spec fn hex_decode32(data: Seq<u8>) -> Result<Seq<u8>, HexError> {
    if data.len() % 2 != 0 {
        Err(HexError::OddLength)
    } else if data.len() / 2 != 32 {
        Err(HexError::InvalidStringLength)
    } else {
        let j = first_non_hex(data, 0);
        if j >= 0 {
            Err(HexError::InvalidHexCharacter { c: data[j] as char, index: j as usize })
        } else {
            Ok(
                Seq::new(
                    32,
                    |i: int|
                        (hex_digit(data[2 * i])->Some_0 * 16 + hex_digit(
                            data[2 * i + 1],
                        )->Some_0) as u8,
                ),
            )
        }
    }
}

/// `hex::decode_to_slice` into 32 bytes: an odd length, then a length
/// other than 64, then the first character that is not a hex digit is
/// refused; otherwise each pair of digits gives a byte.
#[verifier::external_body]
fn decode_hex32(data: &[u8]) -> (r: Result<Vec<u8>, HexError>)
    ensures
        match r {
            Ok(v) => hex_decode32(data@) == Ok::<Seq<u8>, HexError>(v@),
            Err(e) => hex_decode32(data@) == Err::<Seq<u8>, HexError>(e),
        },
{
    let mut buf = [0u8; 32];
    match hex::decode_to_slice(data, &mut buf) {
        Ok(()) => Ok(buf.to_vec()),
        Err(hex::FromHexError::InvalidHexCharacter { c, index }) => Err(
            HexError::InvalidHexCharacter { c, index },
        ),
        Err(hex::FromHexError::OddLength) => Err(HexError::OddLength),
        Err(hex::FromHexError::InvalidStringLength) => Err(HexError::InvalidStringLength),
    }
}

/// The decimal digits of `n`, as ASCII bytes.
pub open spec fn decimal_bytes(n: nat) -> Seq<u8>
    decreases n,
{
    if n < 10 {
        seq![(48 + n) as u8]
    } else {
        decimal_bytes(n / 10).push((48 + n % 10) as u8)
    }
}

/// The decimal digits of `n`, as ASCII bytes.
fn decimal_digits(n: u128) -> (r: Vec<u8>)
    ensures
        r@ == decimal_bytes(n as nat),
    decreases n,
{
    if n < 10 {
        let d = n as u8;
        vec![48 + d]
    } else {
        let mut v = decimal_digits(n / 10);
        let d = (n % 10) as u8;
        v.push(48 + d);
        v
    }
}

/// What the leaf of a wallet hashes: the wallet's UTF-8 bytes followed by
/// the allocation's decimal digits.
fn leaf_preimage(wallet: &String, allocation: u128) -> (r: Vec<u8>)
    ensures
        r@ == encode_utf8(wallet@) + decimal_bytes(allocation as nat),
{
    let bytes = wallet.as_str().as_bytes();
    let digits = decimal_digits(allocation);
    let mut out: Vec<u8> = Vec::new();
    let mut i: usize = 0;
    while i < bytes.len()
        invariant
            i <= bytes@.len(),
            out@ == bytes@.subrange(0, i as int),
        decreases bytes.len() - i,
    {
        out.push(bytes[i]);
        i = i + 1;
    }
    let mut j: usize = 0;
    while j < digits.len()
        invariant
            j <= digits@.len(),
            out@ == bytes@ + digits@.subrange(0, j as int),
        decreases digits.len() - j,
    {
        out.push(digits[j]);
        j = j + 1;
    }
    assert(bytes@.subrange(0, bytes@.len() as int) == bytes@);
    assert(digits@.subrange(0, digits@.len() as int) == digits@);
    out
}

/// `a` is at most `b` in lexicographic order, from position `i` on.
pub open spec fn lex_le(a: Seq<u8>, b: Seq<u8>, i: int) -> bool
    decreases a.len() - i,
{
    if i < 0 || i >= a.len() || i >= b.len() {
        true
    } else if a[i] < b[i] {
        true
    } else if a[i] > b[i] {
        false
    } else {
        lex_le(a, b, i + 1)
    }
}

/// Whether `a` sorts before or with `b`, as arrays of equal length sort.
fn bytes_le(a: &Vec<u8>, b: &Vec<u8>) -> (r: bool)
    requires
        a.len() == b.len(),
    ensures
        r == lex_le(a@, b@, 0),
{
    let mut i: usize = 0;
    while i < a.len()
        invariant
            a.len() == b.len(),
            i <= a.len(),
            lex_le(a@, b@, 0) == lex_le(a@, b@, i as int),
        decreases a.len() - i,
    {
        if a[i] < b[i] {
            return true;
        }
        if a[i] > b[i] {
            return false;
        }
        i = i + 1;
    }
    true
}

/// One step up the tree: the hash of the two nodes, smaller first.
pub open spec fn merkle_step(node: Seq<u8>, sibling: Seq<u8>) -> Seq<u8> {
    if lex_le(node, sibling, 0) {
        sha256_of(node + sibling)
    } else {
        sha256_of(sibling + node)
    }
}

/// The node reached from `leaf` through the first `n` proof entries, or
/// the first entry that does not decode.
pub open spec fn merkle_fold(leaf: Seq<u8>, merkle_proof: Seq<String>, n: nat) -> Result<
    Seq<u8>,
    HexError,
>
    decreases n,
{
    if n == 0 {
        Ok(leaf)
    } else {
        match merkle_fold(leaf, merkle_proof, (n - 1) as nat) {
            Err(e) => Err(e),
            Ok(node) => match hex_decode32(encode_utf8(merkle_proof[n - 1]@)) {
                Err(e) => Err(e),
                Ok(sibling) => Ok(merkle_step(node, sibling)),
            },
        }
    }
}

/// The leaf of `wallet` whitelisted for `allocation`.
pub open spec fn leaf_of(wallet: String, allocation: u128) -> Seq<u8> {
    sha256_of(encode_utf8(wallet@) + decimal_bytes(allocation as nat))
}

/// Whether `merkle_proof` shows `wallet` whitelisted for `allocation` under
/// `root`, or the entry that does not decode.
pub open spec fn proof_verifies(wallet: String, allocation: u128, merkle_proof: Seq<String>, root: String) -> Result<
    bool,
    HexError,
> {
    match merkle_fold(leaf_of(wallet, allocation), merkle_proof, merkle_proof.len()) {
        Err(e) => Err(e),
        Ok(node) => match hex_decode32(encode_utf8(root@)) {
            Err(e) => Err(e),
            Ok(r) => Ok(r == node),
        },
    }
}

proof fn lemma_merkle_fold_error_persists(leaf: Seq<u8>, merkle_proof: Seq<String>, k: nat, n: nat)
    requires
        k <= n,
        merkle_fold(leaf, merkle_proof, k) is Err,
    ensures
        merkle_fold(leaf, merkle_proof, n) == merkle_fold(leaf, merkle_proof, k),
    decreases n - k,
{
    if k < n {
        lemma_merkle_fold_error_persists(leaf, merkle_proof, k, (n - 1) as nat);
    }
}

/// Checks a whitelist merkle_proof: hashes the wallet and allocation, folds in
/// each merkle_proof entry, and compares with the root.
pub fn verify_proof(wallet: &String, allocation: u128, merkle_proof: &Vec<String>, root: &String) -> (r:
    Result<bool, HexError>)
    ensures
        r == proof_verifies(*wallet, allocation, merkle_proof@, *root),
{
    let preimage = leaf_preimage(wallet, allocation);
    let mut hash = sha256(preimage.as_slice());
    let mut i: usize = 0;
    while i < merkle_proof.len()
        invariant
            i <= merkle_proof.len(),
            hash@.len() == 32,
            merkle_fold(leaf_of(*wallet, allocation), merkle_proof@, i as nat) == Ok::<
                Seq<u8>,
                HexError,
            >(hash@),
        decreases merkle_proof.len() - i,
    {
        let sibling = match decode_hex32(merkle_proof[i].as_str().as_bytes()) {
            Ok(b) => b,
            Err(e) => {
                proof {
                    lemma_merkle_fold_error_persists(
                        leaf_of(*wallet, allocation),
                        merkle_proof@,
                        (i + 1) as nat,
                        merkle_proof.len() as nat,
                    );
                }
                return Err(e);
            },
        };
        let mut joined: Vec<u8> = Vec::new();
        let (first, second) = if bytes_le(&hash, &sibling) {
            (&hash, &sibling)
        } else {
            (&sibling, &hash)
        };
        let mut j: usize = 0;
        while j < first.len()
            invariant
                j <= first.len(),
                joined@ == first@.subrange(0, j as int),
            decreases first.len() - j,
        {
            joined.push(first[j]);
            j = j + 1;
        }
        let mut j: usize = 0;
        while j < second.len()
            invariant
                j <= second.len(),
                joined@ == first@ + second@.subrange(0, j as int),
            decreases second.len() - j,
        {
            joined.push(second[j]);
            j = j + 1;
        }
        assert(first@.subrange(0, first@.len() as int) == first@);
        assert(second@.subrange(0, second@.len() as int) == second@);
        hash = sha256(joined.as_slice());
        i = i + 1;
    }
    let root_bytes = decode_hex32(root.as_str().as_bytes())?;
    Ok(vec_eq(&root_bytes, &hash))
}

/// Whether two byte strings are equal.
fn vec_eq(a: &Vec<u8>, b: &Vec<u8>) -> (r: bool)
    ensures
        r == (a@ == b@),
{
    if a.len() != b.len() {
        return false;
    }
    let mut i: usize = 0;
    while i < a.len()
        invariant
            a.len() == b.len(),
            i <= a.len(),
            forall|k: int| 0 <= k < i ==> a@[k] == b@[k],
        decreases a.len() - i,
    {
        if a[i] != b[i] {
            return false;
        }
        i = i + 1;
    }
    assert(a@ =~= b@);
    true
}

proof fn lemma_lex_total(a: Seq<u8>, b: Seq<u8>, i: int)
    requires
        0 <= i,
    ensures
        lex_le(a, b, i) || lex_le(b, a, i),
    decreases a.len() - i,
{
    if i < a.len() && i < b.len() && a[i] == b[i] {
        lemma_lex_total(a, b, i + 1);
    }
}

proof fn lemma_lex_antisymmetric(a: Seq<u8>, b: Seq<u8>, i: int)
    requires
        0 <= i <= a.len(),
        a.len() == b.len(),
        lex_le(a, b, i),
        lex_le(b, a, i),
    ensures
        forall|k: int| i <= k < a.len() ==> a[k] == b[k],
    decreases a.len() - i,
{
    if i < a.len() {
        lemma_lex_antisymmetric(a, b, i + 1);
    }
}

/// A proof entry may stand on either side of the node it joins: the two
/// children of a node are hashed in sorted order, so the step does not
/// depend on which of them is the entry.
pub proof fn lemma_merkle_step_symmetric(a: Seq<u8>, b: Seq<u8>)
    requires
        a.len() == b.len(),
    ensures
        merkle_step(a, b) == merkle_step(b, a),
{
    lemma_lex_total(a, b, 0);
    if lex_le(a, b, 0) && lex_le(b, a, 0) {
        lemma_lex_antisymmetric(a, b, 0);
        assert(a =~= b);
    }
}

} // verus!
