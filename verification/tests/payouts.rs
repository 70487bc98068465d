use paqus_wallet::payout::{payout_step, pool_payout_preview, PayoutOutcome, PreviewError};
use paqus_wallet::pool::{
    due_fee_total, payout_key, payout_receipt, plan_pool_payouts, receipt_key,
    PayoutPlanError, PoolAccountingRound, PoolPayoutReceipt, PoolWorkerPayout,
};

fn payout(worker: &str, address: &str, amount: u64) -> PoolWorkerPayout {
    PoolWorkerPayout { worker: worker.to_string(), address: address.to_string(), amount }
}

fn round(pool: &str, hash: &str, maturity: u64, gross: u64, payouts: Vec<PoolWorkerPayout>) -> PoolAccountingRound {
    PoolAccountingRound {
        pool_address: pool.to_string(),
        height: maturity.saturating_sub(10),
        block_hash: hash.to_string(),
        maturity_height: maturity,
        gross_reward: gross,
        payouts,
    }
}

fn ledger() -> Vec<PoolAccountingRound> {
    vec![
        round("pool", "h1", 100, 1_000, vec![payout("w1", "a1", 400), payout("w2", "a2", 0), payout("w3", "a3", 500)]),
        round("pool", "h2", 500, 1_000, vec![payout("w1", "a1", 900)]),
        round("pool", "h3", 120, 300, vec![payout("w2", "a2", 250)]),
    ]
}

#[test]
fn keys_of_payouts_and_receipts() {
    let r = &ledger()[0];
    assert_eq!(payout_key(r, &r.payouts[0]), "h1:w1:a1:400");
    let receipt = payout_receipt(r, &r.payouts[0], 3, 7, "tx".to_string(), 150);
    assert_eq!(receipt.nonce, 7);
    assert_eq!(receipt.submitted_at_height, 150);
    assert_eq!(receipt_key(&receipt), payout_key(r, &r.payouts[0]));
}

#[test]
fn plan_skips_immature_zero_and_paid() {
    let rounds = ledger();
    let plan = plan_pool_payouts(&rounds, &[], "pool", 10, 200);
    assert_eq!(plan.due, vec![(0, 0), (0, 2), (2, 0)]);
    assert_eq!(plan.error, None);
    assert_eq!(due_fee_total(10, plan.due.len()), 30);
    assert_eq!(due_fee_total(u64::MAX, 2), u64::MAX);
}

#[test]
fn recorded_payouts_are_not_due_again() {
    let rounds = ledger();
    let plan = plan_pool_payouts(&rounds, &[], "pool", 10, 200);
    let receipts: Vec<PoolPayoutReceipt> = plan
        .due
        .iter()
        .map(|&(r, p)| payout_receipt(&rounds[r], &rounds[r].payouts[p], 10, 0, "t".to_string(), 200))
        .collect();
    let again = plan_pool_payouts(&rounds, &receipts, "pool", 10, 200);
    assert!(again.due.is_empty());
    assert_eq!(again.error, plan.error);
    let partial = plan_pool_payouts(&rounds, &receipts[..1], "pool", 10, 200);
    assert_eq!(partial.due, vec![(0, 2), (2, 0)]);
}

#[test]
fn plan_stops_at_a_bad_round() {
    let mut rounds = ledger();
    rounds[2].pool_address = "other".to_string();
    let plan = plan_pool_payouts(&rounds, &[], "pool", 10, 200);
    assert_eq!(plan.due, vec![(0, 0), (0, 2)]);
    assert_eq!(plan.error, Some(PayoutPlanError::WrongPool { round: 2 }));

    let rounds = ledger();
    let plan = plan_pool_payouts(&rounds, &[], "pool", 60, 200);
    assert_eq!(plan.due, vec![]);
    assert_eq!(
        plan.error,
        Some(PayoutPlanError::InsufficientReserve { round: 0, required: 120, reserve: 100 })
    );

    let rounds = vec![round("pool", "h", 1, u64::MAX, vec![payout("a", "b", u64::MAX), payout("c", "d", 1)])];
    let plan = plan_pool_payouts(&rounds, &[], "pool", 0, 5);
    assert_eq!(plan.error, Some(PayoutPlanError::PayoutTotalOverflow));

    let rounds = vec![round("pool", "h", 1, 10, vec![payout("a", "b", 1), payout("c", "d", 1)])];
    let plan = plan_pool_payouts(&rounds, &[], "pool", u64::MAX, 5);
    assert_eq!(plan.error, Some(PayoutPlanError::FeeOverflow));
}

#[test]
fn immature_rounds_do_not_stop_the_plan() {
    let mut rounds = ledger();
    rounds[1].pool_address = "other".to_string();
    let plan = plan_pool_payouts(&rounds, &[], "pool", 10, 200);
    assert_eq!(plan.error, None);
    assert_eq!(plan.due.len(), 3);
}

#[test]
fn due_total_overflow() {
    let rounds = vec![
        round("pool", "h", 1, u64::MAX, vec![payout("a", "b", u64::MAX)]),
        round("pool", "i", 1, u64::MAX, vec![payout("a", "b", 1)]),
    ];
    let plan = plan_pool_payouts(&rounds, &[], "pool", 0, 5);
    assert_eq!(plan.due, vec![(0, 0), (1, 0)]);
    assert_eq!(pool_payout_preview(&rounds, &[], "pool", 0, 5), Err(PreviewError::AmountOverflow));
}

#[test]
fn planned_payouts_are_payable() {
    let rounds = ledger();
    let first = payout_receipt(&rounds[0], &rounds[0].payouts[0], 10, 0, "t".to_string(), 150);
    let receipts = vec![first];
    let paid: Vec<String> = receipts.iter().map(receipt_key).collect();
    for height in [0u64, 100, 119, 120, 499, 500, 10_000] {
        let plan = plan_pool_payouts(&rounds, &receipts, "pool", 10, height);
        for &(r, p) in &plan.due {
            let round = &rounds[r];
            assert!(round.maturity_height <= height);
            assert_eq!(round.pool_address, "pool");
            assert!(round.payouts[p].amount > 0);
            assert!(!paid.contains(&payout_key(round, &round.payouts[p])));
        }
    }
}

#[test]
fn preview_of_a_one_round_ledger() {
    let rounds = vec![round("A", "h1", 100, 1000, vec![payout("w1", "A", 500)])];
    assert_eq!(pool_payout_preview(&rounds, &[], "A", 1, 100), Ok((1, 500, 1)));
    assert_eq!(pool_payout_preview(&rounds, &[], "A", 1, 99), Ok((0, 0, 0)));
    assert_eq!(
        pool_payout_preview(&rounds, &[], "B", 1, 100),
        Err(PreviewError::Plan(PayoutPlanError::WrongPool { round: 0 }))
    );
}

#[test]
fn preview_counts_mature_unpaid_nonzero_payouts() {
    let rounds = ledger();
    assert_eq!(pool_payout_preview(&rounds, &[], "pool", 10, 200), Ok((3, 1_150, 30)));
    let big = vec![
        round("pool", "h", 1, u64::MAX, vec![payout("a", "b", u64::MAX)]),
        round("pool", "i", 1, u64::MAX, vec![payout("a", "b", 1)]),
    ];
    assert_eq!(pool_payout_preview(&big, &[], "pool", 0, 5), Err(PreviewError::AmountOverflow));
}

#[test]
fn a_paid_run_pays_nothing_again() {
    let rounds = ledger();
    let plan = plan_pool_payouts(&rounds, &[], "pool", 10, 200);
    let mut receipts = Vec::new();
    let mut nonce = 7u64;
    for &(r, p) in &plan.due {
        match payout_step(&rounds[r], &rounds[r].payouts[p], 10, nonce, "tx".to_string(), 200, true) {
            PayoutOutcome::Paid { receipt, next_nonce } => {
                assert_eq!(receipt.nonce, nonce);
                receipts.push(receipt);
                nonce = next_nonce.unwrap();
            }
            PayoutOutcome::Rejected => panic!("accepted payout expected"),
        }
    }
    assert_eq!(nonce, 10);
    assert_eq!(pool_payout_preview(&rounds, &receipts, "pool", 10, 200), Ok((0, 0, 0)));
    assert!(plan_pool_payouts(&rounds, &receipts, "pool", 10, 200).due.is_empty());
}

#[test]
fn payout_steps() {
    let rounds = ledger();
    let r = &rounds[0];
    assert!(matches!(
        payout_step(r, &r.payouts[0], 1, 3, "t".to_string(), 9, false),
        PayoutOutcome::Rejected
    ));
    match payout_step(r, &r.payouts[0], 1, u64::MAX, "t".to_string(), 9, true) {
        PayoutOutcome::Paid { receipt, next_nonce } => {
            assert_eq!(next_nonce, None);
            assert_eq!(receipt_key(&receipt), payout_key(r, &r.payouts[0]));
        }
        PayoutOutcome::Rejected => panic!(),
    }
}
