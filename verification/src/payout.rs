//! The `pool-payout` command over a planned payout: the preview it reports,
//! and one step of paying it.
use vstd::prelude::*;
use crate::laws::{
    due_key, law_planned_payouts_are_payable, law_recorded_payouts_are_not_due_again, payable,
    pool_plan,
};
use crate::pool::{
    PayoutPlanError, PoolAccountingRound, PoolPayoutReceipt, PoolWorkerPayout, due_fee_total,
    paid_keys, payout_receipt, plan_pool_payouts, receipt_key_of,
};
use crate::tally::{lemma_sum_of_push, sat_u64, sum_of};

verus! {

/// The amount of the payout that a `(round, payout)` index pair points at.
pub open spec fn due_payout_amount(rounds: Seq<PoolAccountingRound>, d: (usize, usize)) -> int {
    rounds[d.0 as int].payouts@[d.1 as int].amount as int
}

/// Why a payout preview is not given.
#[derive(Clone, Copy, Debug, PartialEq, Eq, Structural)]
pub enum PreviewError {
    /// A mature round stops the plan.
    Plan(PayoutPlanError),
    /// The due payouts add up to more than `u64::MAX`.
    AmountOverflow,
}

/// What `pool-payout` reports without `--execute`: how many payouts are due,
/// their total amount, and the fees they cost (capped at `u64::MAX`); or the
/// error that stops the plan; or an overflowing total.
pub open spec fn preview_of(
    rounds: Seq<PoolAccountingRound>,
    receipts: Seq<PoolPayoutReceipt>,
    wallet: Seq<char>,
    fee: u64,
    height: u64,
) -> Result<(usize, u64, u64), PreviewError> {
    let (due, err) = pool_plan(rounds, receipts, wallet, fee, height);
    match err {
        Some(e) => Err(PreviewError::Plan(e)),
        None => {
            let total = sum_of(due, |d: (usize, usize)| due_payout_amount(rounds, d));
            if total > u64::MAX {
                Err(PreviewError::AmountOverflow)
            } else {
                Ok((due.len() as usize, total as u64, sat_u64(fee * due.len())))
            }
        },
    }
}

proof fn lemma_due_sum_prefix_le(
    s: Seq<(usize, usize)>,
    i: int,
    f: spec_fn((usize, usize)) -> int,
)
    requires
        0 <= i <= s.len(),
        forall|d: (usize, usize)| #[trigger] f(d) >= 0,
    ensures
        sum_of(s.take(i), f) <= sum_of(s, f),
    decreases s.len() - i,
{
    if i < s.len() {
        lemma_due_sum_prefix_le(s.drop_last(), i, f);
        assert(s.drop_last().take(i) =~= s.take(i));
    } else {
        assert(s.take(i) =~= s);
    }
}

/// The preview of `pool-payout`; see `preview_of`. Nothing is paid.
pub fn pool_payout_preview(
    rounds: &[PoolAccountingRound],
    receipts: &[PoolPayoutReceipt],
    wallet: &str,
    fee: u64,
    height: u64,
) -> (r: Result<(usize, u64, u64), PreviewError>)
    ensures
        r == preview_of(rounds@, receipts@, wallet@, fee, height),
{
    let plan = plan_pool_payouts(rounds, receipts, wallet, fee, height);
    if let Some(e) = plan.error {
        return Err(PreviewError::Plan(e));
    }
    let ghost rs = rounds@;
    let ghost paid = paid_keys(receipts@);
    let ghost pp = pool_plan(rounds@, receipts@, wallet@, fee, height);
    let ghost f = |d: (usize, usize)| due_payout_amount(rs, d);
    assert(rounds@.len() == rounds.len());
    proof {
        law_planned_payouts_are_payable(rounds@, receipts@, wallet@, fee, height);
        assert forall|k: int| 0 <= k < plan.due@.len() implies payable(
            rs,
            #[trigger] plan.due@[k],
            paid,
            wallet@,
            height,
        ) by {
            assert(pp.0[k] == plan.due@[k]);
        }
    }
    let mut total: u64 = 0;
    let mut i: usize = 0;
    while i < plan.due.len()
        invariant
            i <= plan.due@.len(),
            rs == rounds@,
            plan.error is None,
            pp == pool_plan(rounds@, receipts@, wallet@, fee, height),
            (plan.due@, plan.error) == pp,
            f == (|d: (usize, usize)| due_payout_amount(rs, d)),
            forall|k: int| 0 <= k < plan.due@.len() ==> payable(rs, #[trigger] plan.due@[k], paid, wallet@, height),
            total == sum_of(plan.due@.take(i as int), f),
        decreases plan.due@.len() - i,
    {
        let (ri, pi) = plan.due[i];
        assert(payable(rs, plan.due@[i as int], paid, wallet@, height));
        proof {
            lemma_sum_of_push(plan.due@, i as int, f);
        }
        match total.checked_add(rounds[ri].payouts[pi].amount) {
            Some(t) => {
                total = t;
            },
            None => {
                proof {
                    lemma_due_sum_prefix_le(plan.due@, i + 1, f);
                    assert(f(plan.due@[i as int]) == rounds@[ri as int].payouts@[pi as int].amount);
                    assert(sum_of(plan.due@, f) > u64::MAX);
                }
                return Err(PreviewError::AmountOverflow);
            },
        }
        i = i + 1;
    }
    assert(plan.due@.take(plan.due@.len() as int) =~= plan.due@);
    let n = plan.due.len();
    Ok((n, total, due_fee_total(fee, n)))
}

/// Whether `receipt` records the payout that `d` points at (its round's hash,
/// the worker, the address and the amount), as `payout_step` makes it.
pub open spec fn records(rounds: Seq<PoolAccountingRound>, d: (usize, usize), receipt: PoolPayoutReceipt) -> bool {
    let round = rounds[d.0 as int];
    let payout = round.payouts@[d.1 as int];
    &&& receipt.round_block_hash == round.block_hash
    &&& receipt.worker == payout.worker
    &&& receipt.address == payout.address
    &&& receipt.amount == payout.amount
}

/// What paying one due payout comes to, once the node has answered.
pub enum PayoutOutcome {
    /// The node refused the transaction: the run stops, nothing is recorded.
    Rejected,
    /// The node took it: the receipt to append, then the nonce for the next
    /// payout (`None` when the nonce cannot grow: the run stops after the
    /// receipt is appended).
    Paid { receipt: PoolPayoutReceipt, next_nonce: Option<u64> },
}

/// One step of `pool-payout --execute`: the payout `payout` of `round` was
/// sent as `tx_hash` with `fee` and `nonce` at chain height `height`, and the
/// node `accepted` it or not.
pub fn payout_step(
    round: &PoolAccountingRound,
    payout: &PoolWorkerPayout,
    fee: u64,
    nonce: u64,
    tx_hash: String,
    height: u64,
    accepted: bool,
) -> (r: PayoutOutcome)
    ensures
        !accepted ==> r is Rejected,
        accepted ==> (r matches PayoutOutcome::Paid { receipt, next_nonce } && {
            &&& receipt.round_block_hash == round.block_hash
            &&& receipt.round_height == round.height
            &&& receipt.worker == payout.worker
            &&& receipt.address == payout.address
            &&& receipt.amount == payout.amount
            &&& receipt.fee == fee
            &&& receipt.nonce == nonce
            &&& receipt.tx_hash == tx_hash
            &&& receipt.submitted_at_height == height
            &&& next_nonce == (if nonce < u64::MAX {
                Some((nonce + 1) as u64)
            } else {
                None::<u64>
            })
        }),
{
    if !accepted {
        return PayoutOutcome::Rejected;
    }
    let receipt = payout_receipt(round, payout, fee, nonce, tx_hash, height);
    let next_nonce = nonce.checked_add(1);
    PayoutOutcome::Paid { receipt, next_nonce }
}

/// A payout run that went through pays nothing when it is run again: when a
/// plan stopped at no round and a receipt was appended for each of its
/// payouts, as `payout_step` makes them, the next run with those receipts is
/// due nothing, and its preview reports no payout, no amount and no fee.
pub proof fn law_paid_run_pays_nothing_again(
    rounds: Seq<PoolAccountingRound>,
    receipts: Seq<PoolPayoutReceipt>,
    appended: Seq<PoolPayoutReceipt>,
    wallet: Seq<char>,
    fee: u64,
    height: u64,
)
    requires
        rounds.len() <= usize::MAX,
        pool_plan(rounds, receipts, wallet, fee, height).1 is None,
        appended.len() == pool_plan(rounds, receipts, wallet, fee, height).0.len(),
        forall|i: int|
            0 <= i < appended.len() ==> records(
                rounds,
                pool_plan(rounds, receipts, wallet, fee, height).0[i],
                #[trigger] appended[i],
            ),
    ensures
        pool_plan(rounds, receipts + appended, wallet, fee, height).0.len() == 0,
        preview_of(rounds, receipts + appended, wallet, fee, height) == Ok::<
            (usize, u64, u64),
            PreviewError,
        >((0, 0, 0)),
{
    let due = pool_plan(rounds, receipts, wallet, fee, height).0;
    assert forall|i: int| 0 <= i < appended.len() implies receipt_key_of(#[trigger] appended[i])
        == due_key(rounds, due[i]) by {
        assert(records(rounds, due[i], appended[i]));
    }
    law_recorded_payouts_are_not_due_again(rounds, receipts, appended, wallet, fee, height);
    let again = pool_plan(rounds, receipts + appended, wallet, fee, height).0;
    assert(sum_of(again, |d: (usize, usize)| due_payout_amount(rounds, d)) == 0);
}

} // verus!
