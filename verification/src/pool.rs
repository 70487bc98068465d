//! Paying out mining-pool rounds: which worker payouts are due, and the keys
//! that keep a payout from being sent twice.
use vstd::prelude::*;
use crate::decimal::{decimal, push_decimal};
use crate::tally::{count_of, lemma_count_of_bound, lemma_count_of_push, lemma_sum_of_push, sum_of};

verus! {

/// One worker's share of a round.
#[derive(Clone, Debug)]
pub struct PoolWorkerPayout {
    pub worker: String,
    pub address: String,
    pub amount: u64,
}

/// A round of the pool's accounting ledger: a block that the pool mined and
/// how its reward is shared.
#[derive(Clone, Debug)]
pub struct PoolAccountingRound {
    pub pool_address: String,
    pub height: u64,
    pub block_hash: String,
    pub maturity_height: u64,
    pub gross_reward: u64,
    pub payouts: Vec<PoolWorkerPayout>,
}

/// The record of a payout that the node accepted.
#[derive(Clone, Debug)]
pub struct PoolPayoutReceipt {
    pub round_block_hash: String,
    pub round_height: u64,
    pub worker: String,
    pub address: String,
    pub amount: u64,
    pub fee: u64,
    pub nonce: u64,
    pub tx_hash: String,
    pub submitted_at_height: u64,
}

/// `block_hash:worker:address:amount`, the key under which a payout is
/// recorded as paid.
pub open spec fn key_text(
    block_hash: Seq<char>,
    worker: Seq<char>,
    address: Seq<char>,
    amount: u64,
) -> Seq<char> {
    block_hash + seq![':'] + worker + seq![':'] + address + seq![':'] + decimal(amount as nat)
}

/// The key of a worker's payout in a round.
pub open spec fn payout_key_of(round: PoolAccountingRound, payout: PoolWorkerPayout) -> Seq<char> {
    key_text(round.block_hash@, payout.worker@, payout.address@, payout.amount)
}

/// The key of a receipt.
pub open spec fn receipt_key_of(receipt: PoolPayoutReceipt) -> Seq<char> {
    key_text(receipt.round_block_hash@, receipt.worker@, receipt.address@, receipt.amount)
}

fn push_key(s: &mut String, block_hash: &str, worker: &str, address: &str, amount: u64)
    ensures
        final(s)@ == old(s)@ + key_text(block_hash@, worker@, address@, amount),
{
    s.append(block_hash);
    s.append(":");
    s.append(worker);
    s.append(":");
    s.append(address);
    s.append(":");
    push_decimal(s, amount);
    proof {
        reveal_strlit(":");
    }
    assert(s@ =~= old(s)@ + key_text(block_hash@, worker@, address@, amount));
}

/// The key of a worker's payout in a round; see `key_text`.
pub fn payout_key(round: &PoolAccountingRound, payout: &PoolWorkerPayout) -> (k: String)
    ensures
        k@ == payout_key_of(*round, *payout),
{
    let mut s = String::new();
    push_key(&mut s, round.block_hash.as_str(), payout.worker.as_str(), payout.address.as_str(), payout.amount);
    assert(s@ =~= payout_key_of(*round, *payout));
    s
}

/// The key of a receipt; see `key_text`.
pub fn receipt_key(receipt: &PoolPayoutReceipt) -> (k: String)
    ensures
        k@ == receipt_key_of(*receipt),
{
    let mut s = String::new();
    push_key(
        &mut s,
        receipt.round_block_hash.as_str(),
        receipt.worker.as_str(),
        receipt.address.as_str(),
        receipt.amount,
    );
    assert(s@ =~= receipt_key_of(*receipt));
    s
}

/// The receipt for a worker's payout of a round, sent with `fee` and `nonce`
/// as the transaction `tx_hash` at chain height `height`.
pub fn payout_receipt(
    round: &PoolAccountingRound,
    payout: &PoolWorkerPayout,
    fee: u64,
    nonce: u64,
    tx_hash: String,
    height: u64,
) -> (r: PoolPayoutReceipt)
    ensures
        r.round_block_hash == round.block_hash,
        r.round_height == round.height,
        r.worker == payout.worker,
        r.address == payout.address,
        r.amount == payout.amount,
        r.fee == fee,
        r.nonce == nonce,
        r.tx_hash == tx_hash,
        r.submitted_at_height == height,
{
    PoolPayoutReceipt {
        round_block_hash: round.block_hash.clone(),
        round_height: round.height,
        worker: payout.worker.clone(),
        address: payout.address.clone(),
        amount: payout.amount,
        fee,
        nonce,
        tx_hash,
        submitted_at_height: height,
    }
}

/// Why a round stops the payout.
#[derive(Clone, Copy, Debug, PartialEq, Eq, Structural)]
pub enum PayoutPlanError {
    /// The round (by index) belongs to another pool than the wallet's.
    WrongPool { round: usize },
    /// The payouts of a round add up to more than `u64::MAX`.
    PayoutTotalOverflow,
    /// The fees for a round's payouts exceed `u64::MAX`.
    FeeOverflow,
    /// What is left of the round's reward after the payouts does not cover their fees.
    InsufficientReserve { round: usize, required: u64, reserve: u64 },
}

/// The sum of a round's payouts.
pub open spec fn payout_total(payouts: Seq<PoolWorkerPayout>) -> int {
    sum_of(payouts, |p: PoolWorkerPayout| p.amount as int)
}

/// How many of a round's payouts move a non-zero amount (each costs a fee).
pub open spec fn paying_count(payouts: Seq<PoolWorkerPayout>) -> int {
    count_of(payouts, |p: PoolWorkerPayout| p.amount > 0)
}

/// The check of a mature round (at index `ri`) before its payouts are made.
pub open spec fn round_check(
    ri: usize,
    round: PoolAccountingRound,
    wallet: Seq<char>,
    fee: u64,
) -> Option<PayoutPlanError> {
    let total = payout_total(round.payouts@);
    let required = fee * paying_count(round.payouts@);
    let reserve = if round.gross_reward >= total {
        round.gross_reward - total
    } else {
        0
    };
    if round.pool_address@ != wallet {
        Some(PayoutPlanError::WrongPool { round: ri })
    } else if total > u64::MAX {
        Some(PayoutPlanError::PayoutTotalOverflow)
    } else if required > u64::MAX {
        Some(PayoutPlanError::FeeOverflow)
    } else if required > reserve {
        Some(
            PayoutPlanError::InsufficientReserve {
                round: ri,
                required: required as u64,
                reserve: reserve as u64,
            },
        )
    } else {
        None
    }
}

/// The payouts (as `(round, payout)` indices) among the first `n` of round
/// `ri` that move a non-zero amount and whose key is not yet in `paid`.
pub open spec fn round_due(
    ri: usize,
    round: PoolAccountingRound,
    n: int,
    paid: Set<Seq<char>>,
) -> Seq<(usize, usize)>
    decreases n,
{
    if n <= 0 {
        Seq::empty()
    } else {
        let p = round.payouts@[n - 1];
        round_due(ri, round, n - 1, paid) + if p.amount > 0 && !paid.contains(
            payout_key_of(round, p),
        ) {
            seq![(ri, (n - 1) as usize)]
        } else {
            Seq::empty()
        }
    }
}

/// The payouts due over the first `k` rounds, with the error that stops the
/// payout, if any: rounds that are not mature at `height` are passed over;
/// each mature round must pass `round_check` before its due payouts are taken.
pub open spec fn plan_upto(
    rounds: Seq<PoolAccountingRound>,
    k: int,
    paid: Set<Seq<char>>,
    wallet: Seq<char>,
    fee: u64,
    height: u64,
) -> (Seq<(usize, usize)>, Option<PayoutPlanError>)
    decreases k,
{
    if k <= 0 {
        (Seq::empty(), None)
    } else {
        let (due, err) = plan_upto(rounds, k - 1, paid, wallet, fee, height);
        let r = rounds[k - 1];
        if err is Some || r.maturity_height > height {
            (due, err)
        } else {
            match round_check((k - 1) as usize, r, wallet, fee) {
                Some(e) => (due, Some(e)),
                None => (due + round_due((k - 1) as usize, r, r.payouts@.len() as int, paid), None),
            }
        }
    }
}

/// The keys that the receipts record as paid.
pub open spec fn paid_keys(receipts: Seq<PoolPayoutReceipt>) -> Set<Seq<char>> {
    Set::new(|k: Seq<char>| exists|i: int| 0 <= i < receipts.len() && receipt_key_of(#[trigger] receipts[i]) == k)
}

/// The result of planning a payout: the payouts due, in ledger order, up to
/// the round that stopped the plan, and the reason it stopped, if it did.
pub struct PayoutPlan {
    pub due: Vec<(usize, usize)>,
    pub error: Option<PayoutPlanError>,
}

/// Whether `key` is one of `keys`.
fn key_listed(keys: &Vec<String>, key: &String) -> (r: bool)
    ensures
        r == exists|i: int| 0 <= i < keys@.len() && (#[trigger] keys@[i])@ == key@,
{
    let mut i: usize = 0;
    while i < keys.len()
        invariant
            i <= keys@.len(),
            forall|k: int| 0 <= k < i ==> (#[trigger] keys@[k])@ != key@,
        decreases keys@.len() - i,
    {
        if keys[i] == *key {
            return true;
        }
        i = i + 1;
    }
    false
}

/// The sum of the payouts of a round, or `None` when it exceeds `u64::MAX`.
fn checked_payout_total(payouts: &Vec<PoolWorkerPayout>) -> (r: Option<u64>)
    ensures
        match r {
            Some(t) => t == payout_total(payouts@),
            None => payout_total(payouts@) > u64::MAX,
        },
{
    let ghost ps = payouts@;
    let ghost f = |p: PoolWorkerPayout| p.amount as int;
    let mut total: u64 = 0;
    let mut i: usize = 0;
    while i < payouts.len()
        invariant
            i <= ps.len(),
            ps == payouts@,
            f == (|p: PoolWorkerPayout| p.amount as int),
            total == sum_of(ps.take(i as int), f),
        decreases ps.len() - i,
    {
        proof {
            lemma_sum_of_push(ps, i as int, f);
        }
        match total.checked_add(payouts[i].amount) {
            Some(t) => {
                total = t;
            },
            None => {
                proof {
                    lemma_sum_prefix_le(ps, i + 1, f);
                }
                return None;
            },
        }
        i = i + 1;
    }
    assert(ps.take(ps.len() as int) =~= ps);
    Some(total)
}

/// A sum of non-negative terms over a prefix is at most the sum over the whole.
proof fn lemma_sum_prefix_le(s: Seq<PoolWorkerPayout>, i: int, f: spec_fn(PoolWorkerPayout) -> int)
    requires
        0 <= i <= s.len(),
        f == (|p: PoolWorkerPayout| p.amount as int),
    ensures
        sum_of(s.take(i), f) <= sum_of(s, f),
    decreases s.len() - i,
{
    if i < s.len() {
        lemma_sum_prefix_le(s.drop_last(), i, f);
        assert(s.drop_last().take(i) =~= s.take(i));
    } else {
        assert(s.take(i) =~= s);
    }
}

/// How many payouts of a round move a non-zero amount.
fn count_paying(payouts: &Vec<PoolWorkerPayout>) -> (r: u64)
    ensures
        r == paying_count(payouts@),
{
    let ghost ps = payouts@;
    let ghost p = |x: PoolWorkerPayout| x.amount > 0;
    let mut n: u64 = 0;
    let mut i: usize = 0;
    while i < payouts.len()
        invariant
            i <= ps.len(),
            ps == payouts@,
            p == (|x: PoolWorkerPayout| x.amount > 0),
            n == count_of(ps.take(i as int), p),
        decreases ps.len() - i,
    {
        proof {
            lemma_count_of_push(ps, i as int, p);
            lemma_count_of_bound(ps.take(i as int), p);
        }
        if payouts[i].amount > 0 {
            n = n + 1;
        }
        i = i + 1;
    }
    assert(ps.take(ps.len() as int) =~= ps);
    n
}

/// `round_check` for round `ri`.
fn check_round(ri: usize, round: &PoolAccountingRound, wallet: &str, fee: u64) -> (r: Option<
    PayoutPlanError,
>)
    ensures
        r == round_check(ri, *round, wallet@, fee),
{
    if !crate::chars::str_eq(round.pool_address.as_str(), wallet) {
        return Some(PayoutPlanError::WrongPool { round: ri });
    }
    let total = match checked_payout_total(&round.payouts) {
        Some(t) => t,
        None => {
            return Some(PayoutPlanError::PayoutTotalOverflow);
        },
    };
    let count = count_paying(&round.payouts);
    let required = match fee.checked_mul(count) {
        Some(r) => r,
        None => {
            return Some(PayoutPlanError::FeeOverflow);
        },
    };
    let reserve = round.gross_reward.saturating_sub(total);
    if required > reserve {
        return Some(PayoutPlanError::InsufficientReserve { round: ri, required, reserve });
    }
    None
}

/// The payouts of mature rounds that are due and not yet paid: rounds that
/// are not mature at `height` are passed over; a mature round of another pool,
/// or whose payouts or fees overflow, or whose reserve does not cover its fees,
/// stops the plan. See `plan_upto`.
pub fn plan_pool_payouts(
    rounds: &[PoolAccountingRound],
    receipts: &[PoolPayoutReceipt],
    wallet: &str,
    fee: u64,
    height: u64,
) -> (plan: PayoutPlan)
    ensures
        (plan.due@, plan.error) == plan_upto(
            rounds@,
            rounds@.len() as int,
            paid_keys(receipts@),
            wallet@,
            fee,
            height,
        ),
{
    let ghost paid = paid_keys(receipts@);
    let mut keys: Vec<String> = Vec::new();
    let mut q: usize = 0;
    while q < receipts.len()
        invariant
            q <= receipts@.len(),
            keys@.len() == q,
            forall|i: int| 0 <= i < q ==> (#[trigger] keys@[i])@ == receipt_key_of(receipts@[i]),
        decreases receipts@.len() - q,
    {
        keys.push(receipt_key(&receipts[q]));
        q = q + 1;
    }
    let mut due: Vec<(usize, usize)> = Vec::new();
    let mut k: usize = 0;
    while k < rounds.len()
        invariant
            k <= rounds@.len(),
            paid == paid_keys(receipts@),
            keys@.len() == receipts@.len(),
            forall|i: int| 0 <= i < keys@.len() ==> (#[trigger] keys@[i])@ == receipt_key_of(receipts@[i]),
            (due@, None::<PayoutPlanError>) == plan_upto(rounds@, k as int, paid, wallet@, fee, height),
        decreases rounds@.len() - k,
    {
        let round = &rounds[k];
        if round.maturity_height <= height {
            match check_round(k, round, wallet, fee) {
                Some(e) => {
                    proof {
                        lemma_plan_stops(rounds@, k as int + 1, paid, wallet@, fee, height);
                    }
                    return PayoutPlan { due, error: Some(e) };
                },
                None => {},
            }
            let ghost before = due@;
            let mut j: usize = 0;
            while j < round.payouts.len()
                invariant
                    j <= round.payouts@.len(),
                    k < rounds@.len(),
                    *round == rounds@[k as int],
                    paid == paid_keys(receipts@),
                    keys@.len() == receipts@.len(),
                    forall|i: int| 0 <= i < keys@.len() ==> (#[trigger] keys@[i])@ == receipt_key_of(receipts@[i]),
                    due@ == before + round_due(k, *round, j as int, paid),
                decreases round.payouts@.len() - j,
            {
                let payout = &round.payouts[j];
                if payout.amount > 0 {
                    let key = payout_key(round, payout);
                    let listed = key_listed(&keys, &key);
                    proof {
                        if listed {
                            let i = choose|i: int| 0 <= i < keys@.len() && (#[trigger] keys@[i])@ == key@;
                            assert(receipt_key_of(receipts@[i]) == key@);
                            assert(paid.contains(key@));
                        } else {
                            if paid.contains(key@) {
                                let i = choose|i: int| 0 <= i < receipts@.len() && receipt_key_of(#[trigger] receipts@[i]) == key@;
                                assert((keys@[i])@ == key@);
                            }
                        }
                    }
                    if !listed {
                        due.push((k, j));
                    }
                }
                assert(due@ =~= before + round_due(k, *round, j as int + 1, paid));
                j = j + 1;
            }
        }
        k = k + 1;
    }
    PayoutPlan { due, error: None }
}

/// Once the plan has stopped at a round, later rounds change nothing.
proof fn lemma_plan_stops(
    rounds: Seq<PoolAccountingRound>,
    k: int,
    paid: Set<Seq<char>>,
    wallet: Seq<char>,
    fee: u64,
    height: u64,
)
    requires
        0 <= k <= rounds.len(),
        plan_upto(rounds, k, paid, wallet, fee, height).1 is Some,
    ensures
        plan_upto(rounds, rounds.len() as int, paid, wallet, fee, height) == plan_upto(
            rounds,
            k,
            paid,
            wallet,
            fee,
            height,
        ),
    decreases rounds.len() - k,
{
    if k < rounds.len() {
        lemma_plan_stops(rounds, k + 1, paid, wallet, fee, height);
    }
}

/// The fees that `count` payouts at `fee` each cost, capped at `u64::MAX`.
pub fn due_fee_total(fee: u64, count: usize) -> (r: u64)
    ensures
        r == crate::tally::sat_u64(fee * count),
{
    match fee.checked_mul(count as u64) {
        Some(x) => x,
        None => u64::MAX,
    }
}

} // verus!
