use paqus_wallet::qcash::{backup_start, deposit_hash, recovery_start, BackupRefusal, RecoveryRefusal, RecoveryStart};
use paqus_wallet::qcash::{
    ledger_lifecycle, node_accepted, status_height, sync_coin_status, vault_coin_status,
    wallet_cash_list, QCashVaultTotals, StatusError, VaultCoin,
};
use paqus_wallet::stats::{
    default_block_reward_maturity, AddressBalanceRpcResponse, AddressRpcResponse,
    MinedBlockRpcResponse, TransactionRpcResponse, WalletStats,
};
use paqus_wallet::nonce::{next_wallet_nonce, MempoolTxRpcResponse, QCashMempoolTxRpcResponse};

fn block(maturity_height: u64, matured: bool, fees: u64, total: u64) -> MinedBlockRpcResponse {
    MinedBlockRpcResponse { maturity_height, matured, fees, total }
}

fn tx(from: &str, to: &str, amount: u64, fee: u64, status: &str) -> TransactionRpcResponse {
    TransactionRpcResponse {
        from: from.to_string(),
        to: to.to_string(),
        amount,
        fee,
        status: status.to_string(),
    }
}

fn response(blocks: Vec<MinedBlockRpcResponse>, txs: Vec<TransactionRpcResponse>) -> AddressRpcResponse {
    AddressRpcResponse {
        address: "me".to_string(),
        balance: AddressBalanceRpcResponse {
            height: 10,
            confirmed: 0,
            available: 0,
            pending_incoming: 0,
            pending_outgoing: 0,
            nonce: None,
            unspendable: 0,
        },
        mined_blocks: blocks,
        transactions: txs,
    }
}

#[test]
fn wallet_stats_of_an_address() {
    let r = response(
        vec![block(50, true, 2, 100), block(90, false, 3, 200), block(70, false, 1, 300)],
        vec![
            tx("me", "you", 40, 1, "confirmed"),
            tx("you", "me", 60, 2, "pending"),
            tx("me", "me", 5, 1, "confirmed"),
        ],
    );
    let s = WalletStats::from_response(&r);
    assert_eq!(s.mined_blocks, 3);
    assert_eq!(s.mined_total, 600);
    assert_eq!(s.matured_mined, 100);
    assert_eq!(s.immature_mined, 500);
    assert_eq!(s.matured_mined + s.immature_mined, s.mined_total);
    assert_eq!(s.mining_fees, 6);
    assert_eq!(s.next_maturity_height, Some(70));
    assert_eq!(s.total_transactions, 3);
    assert_eq!(s.received_transactions, 2);
    assert_eq!(s.sent_transactions, 2);
    assert_eq!(s.received_total, 65);
    assert_eq!(s.sent_total, 45);
    assert_eq!(s.sent_fees, 2);
    assert_eq!(s.pending_transactions, 1);
    assert!(!default_block_reward_maturity());
}

#[test]
fn wallet_stats_saturate() {
    let r = response(vec![block(1, true, u64::MAX, u64::MAX), block(2, true, 1, 1)], vec![]);
    let s = WalletStats::from_response(&r);
    assert_eq!(s.mined_total, u64::MAX);
    assert_eq!(s.mining_fees, u64::MAX);
    assert_eq!(s.next_maturity_height, None);
}

fn coin(amount: u64, status: &str) -> VaultCoin {
    VaultCoin { amount, status: status.to_string() }
}

#[test]
fn vault_totals_partition() {
    let coins = vec![coin(100, "spendable"), coin(20, "pending"), coin(3, "spent_or_unknown"), coin(4, "weird")];
    let t = QCashVaultTotals::of_coins(&coins);
    assert_eq!(t.files, 4);
    assert_eq!(t.spendable, 100);
    assert_eq!(t.pending, 20);
    assert_eq!(t.known, 120);
    assert_eq!(t.spent_or_unknown, 7);
    assert_eq!(t.known, t.spendable + t.pending);
    assert_eq!(t.total_ready(5), 105);
    assert_eq!(t.total_known(1), 121);
    assert_eq!(t.total_ready(u64::MAX), u64::MAX);
    let e = QCashVaultTotals::empty();
    assert_eq!((e.files, e.known, e.spendable, e.pending, e.spent_or_unknown), (0, 0, 0, 0, 0));
}

#[test]
fn cash_list_totals() {
    assert_eq!(wallet_cash_list(&[]), (0, 0));
    assert_eq!(wallet_cash_list(&[1, 2, 3]), (3, 6));
    assert_eq!(wallet_cash_list(&[u64::MAX, 1]), (2, u64::MAX));
}

#[test]
fn ledger_statuses() {
    assert_eq!(ledger_lifecycle("pending"), "ledger-pending");
    assert_eq!(ledger_lifecycle("spendable"), "ready");
    assert_eq!(ledger_lifecycle("spent_or_unknown"), "spent-or-unissued");
    assert_eq!(ledger_lifecycle("other"), "unknown");
    assert_eq!(vault_coin_status("{\"status\":\"pending\"}"), "pending");
    assert_eq!(vault_coin_status("{\"status\":1}"), "spent_or_unknown");
    assert_eq!(vault_coin_status("not json"), "spent_or_unknown");
    assert_eq!(sync_coin_status("{\"status\":\"spendable\"}"), "spendable");
    assert_eq!(sync_coin_status("{}"), "unknown");
}

#[test]
fn node_answers() {
    assert!(node_accepted("{\"accepted\":true,\"hash\":\"ab\"}"));
    assert!(!node_accepted("{\"accepted\":false}"));
    assert!(!node_accepted("{\"accepted\":\"true\"}"));
    assert!(!node_accepted("garbage"));
    assert_eq!(status_height("{\"height\":42}").ok(), Some(42));
    assert!(matches!(status_height("{\"height\":-1}"), Err(StatusError::NoHeight)));
    assert!(matches!(status_height("{}"), Err(StatusError::NoHeight)));
    assert!(matches!(status_height("{"), Err(StatusError::NotJson(_))));
}

#[test]
fn next_nonce_steps_over_pending_ones() {
    let mempool = vec![
        MempoolTxRpcResponse { signer: Some("me".to_string()), from: None, nonce: 5 },
        MempoolTxRpcResponse { signer: None, from: Some("me".to_string()), nonce: 6 },
        MempoolTxRpcResponse { signer: Some("you".to_string()), from: Some("me".to_string()), nonce: 7 },
        MempoolTxRpcResponse { signer: Some("me".to_string()), from: None, nonce: 9 },
    ];
    let qcash = vec![QCashMempoolTxRpcResponse { signer: "me".to_string(), nonce: 7 }];
    assert_eq!(next_wallet_nonce(Some(5), "me", &mempool, &qcash), 8);
    assert_eq!(next_wallet_nonce(None, "me", &mempool, &qcash), 0);
    assert_eq!(next_wallet_nonce(Some(4), "me", &mempool, &qcash), 4);
    assert_eq!(next_wallet_nonce(Some(7), "you", &mempool, &qcash), 8);
    assert_eq!(mempool[2].signer(), Some("you"));
    assert_eq!(mempool[1].signer(), Some("me"));
    let none = MempoolTxRpcResponse { signer: None, from: None, nonce: 0 };
    assert_eq!(none.signer(), None);
}

#[test]
fn recovery_refusals_in_order() {
    assert_eq!(recovery_start(&[], false, false), Err(RecoveryRefusal::NoFiles));
    assert_eq!(recovery_start(&[], true, true), Err(RecoveryRefusal::NoFiles));
    assert_eq!(recovery_start(&[false, true], true, true), Err(RecoveryRefusal::WouldOverwrite(1)));
    assert_eq!(recovery_start(&[true, true], true, false), Err(RecoveryRefusal::WouldOverwrite(0)));
    assert_eq!(recovery_start(&[false, false], false, false), Ok(RecoveryStart::CreateDirectory));
    assert_eq!(recovery_start(&[false], true, true), Ok(RecoveryStart::IntoDirectory));
    assert_eq!(recovery_start(&[false], true, false), Err(RecoveryRefusal::NotADirectory));
}

#[test]
fn recovering_twice_is_refused() {
    // the first recovery goes into a new directory; afterwards every name is taken there
    assert_eq!(recovery_start(&[false], false, false), Ok(RecoveryStart::CreateDirectory));
    assert_eq!(recovery_start(&[true], true, true), Err(RecoveryRefusal::WouldOverwrite(0)));
}

#[test]
fn backup_refusals_in_order() {
    assert_eq!(backup_start(0, true), Err(BackupRefusal::NoFiles));
    assert_eq!(backup_start(2, true), Err(BackupRefusal::DestinationExists));
    assert_eq!(backup_start(2, false), Ok(()));
}

#[test]
fn deposit_hashes() {
    assert_eq!(deposit_hash("{\"accepted\":true,\"hash\":\"ab12\"}"), Some("ab12".to_string()));
    assert_eq!(deposit_hash("{\"accepted\":true,\"hash\":7}"), None);
    assert_eq!(deposit_hash("{\"accepted\":true}"), None);
    assert_eq!(deposit_hash("nope"), None);
}
