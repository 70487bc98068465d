//! The next free nonce of a wallet, given the confirmed nonce and the
//! transactions of the wallet that still wait in the node's mempools.
use vstd::prelude::*;

verus! {

/// A transaction in the node's `/mempool` answer.
#[derive(Clone, Debug)]
pub struct MempoolTxRpcResponse {
    pub signer: Option<String>,
    pub from: Option<String>,
    pub nonce: u64,
}

/// A transaction in the node's `/qcash/mempool` answer.
#[derive(Clone, Debug)]
pub struct QCashMempoolTxRpcResponse {
    pub signer: String,
    pub nonce: u64,
}

impl MempoolTxRpcResponse {
    /// The signer of the transaction, as a view: `signer`, else `from`.
    pub open spec fn signer_view(&self) -> Option<Seq<char>> {
        match self.signer {
            Some(s) => Some(s@),
            None => match self.from {
                Some(f) => Some(f@),
                None => None,
            },
        }
    }

    /// The signer of the transaction: `signer`, else `from`.
    pub fn signer(&self) -> (r: Option<&str>)
        ensures
            match self.signer_view() {
                Some(s) => r is Some && r->Some_0@ == s,
                None => r is None,
            },
    {
        match &self.signer {
            Some(s) => Some(s.as_str()),
            None => match &self.from {
                Some(f) => Some(f.as_str()),
                None => None,
            },
        }
    }
}

/// The nonces that `address` already uses in the two mempools.
pub open spec fn pending_nonces(
    address: Seq<char>,
    mempool: Seq<MempoolTxRpcResponse>,
    qcash: Seq<QCashMempoolTxRpcResponse>,
) -> Set<u64> {
    Set::new(
        |n: u64|
            (exists|i: int|
                0 <= i < mempool.len() && #[trigger] mempool[i].signer_view() == Some(address)
                    && mempool[i].nonce == n) || (exists|i: int|
                0 <= i < qcash.len() && #[trigger] qcash[i].signer@ == address && qcash[i].nonce
                    == n),
    )
}

/// `next` is the first nonce from `start` on that is not in `used`
/// (or `u64::MAX`, when every nonce from `start` on is used).
pub open spec fn first_free_nonce(start: u64, used: Set<u64>, next: u64) -> bool {
    &&& start <= next
    &&& (!used.contains(next) || next == u64::MAX)
    &&& forall|n: u64| start <= n < next ==> #[trigger] used.contains(n)
}

/// Whether `n` is in `used`.
fn nonce_used(
    address: &str,
    mempool: &[MempoolTxRpcResponse],
    qcash: &[QCashMempoolTxRpcResponse],
    n: u64,
) -> (r: bool)
    ensures
        r == pending_nonces(address@, mempool@, qcash@).contains(n),
{
    let mut i: usize = 0;
    while i < mempool.len()
        invariant
            i <= mempool@.len(),
            forall|k: int|
                0 <= k < i ==> !(#[trigger] mempool@[k].signer_view() == Some(address@)
                    && mempool@[k].nonce == n),
        decreases mempool@.len() - i,
    {
        let tx = &mempool[i];
        if tx.nonce == n {
            match tx.signer() {
                Some(s) => {
                    if crate::chars::str_eq(s, address) {
                        return true;
                    }
                },
                None => {},
            }
        }
        i = i + 1;
    }
    let mut j: usize = 0;
    while j < qcash.len()
        invariant
            j <= qcash@.len(),
            forall|k: int|
                0 <= k < mempool@.len() ==> !(#[trigger] mempool@[k].signer_view() == Some(
                    address@,
                ) && mempool@[k].nonce == n),
            forall|k: int|
                0 <= k < j ==> !(#[trigger] qcash@[k].signer@ == address@ && qcash@[k].nonce
                    == n),
        decreases qcash@.len() - j,
    {
        let tx = &qcash[j];
        if tx.nonce == n && crate::chars::str_eq(tx.signer.as_str(), address) {
            return true;
        }
        j = j + 1;
    }
    false
}

/// The nonce for the wallet's next transaction: from the confirmed nonce
/// (0 when the account has none), step over every nonce that a transaction of
/// `address` in either mempool already uses.
pub fn next_wallet_nonce(
    confirmed: Option<u64>,
    address: &str,
    mempool: &[MempoolTxRpcResponse],
    qcash: &[QCashMempoolTxRpcResponse],
) -> (next: u64)
    ensures
        first_free_nonce(
            match confirmed {
                Some(n) => n,
                None => 0,
            },
            pending_nonces(address@, mempool@, qcash@),
            next,
        ),
{
    let ghost used = pending_nonces(address@, mempool@, qcash@);
    let start = match confirmed {
        Some(n) => n,
        None => 0,
    };
    let mut next = start;
    while next < u64::MAX && nonce_used(address, mempool, qcash, next)
        invariant
            start <= next,
            used == pending_nonces(address@, mempool@, qcash@),
            forall|n: u64| start <= n < next ==> #[trigger] used.contains(n),
        decreases u64::MAX - next,
    {
        next = next + 1;
    }
    next
}

} // verus!
