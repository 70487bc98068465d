use paqus_wallet::amount::{AmountError, DEFAULT_TRANSACTION_FEE, XPQ};
use paqus_wallet::cli::{ArgError, Flag};
use paqus_wallet::commands::{
    is_short_send, required_option, wallet_address_stats, wallet_balance, wallet_cash_deposit,
    wallet_cash_sync, wallet_cash_track, wallet_cash_withdraw, wallet_global_stats,
    wallet_hashrate, wallet_new, wallet_pay, wallet_pool_payout, wallet_send, wallet_send_short,
    SendLine,
};
use paqus_wallet::decimal::IntErrorKind;
use paqus_wallet::names::LookupError;

fn args(items: &[&str]) -> Vec<String> {
    items.iter().map(|s| s.to_string()).collect()
}

#[test]
fn balance_reads_address_and_options() {
    let a = args(&["addr1", "--wallet", "w.json", "--rpc-addr", "1.2.3.4:5", "--cash", "vault"]);
    let (o, e) = wallet_balance(&a);
    assert_eq!(e, None);
    assert_eq!(o.address, Some(0));
    assert_eq!(o.address_args, vec![0]);
    assert_eq!(o.wallet_path(&a), "w.json");
    assert_eq!(o.rpc_addr(&a), Some("1.2.3.4:5".to_string()));
    assert_eq!(o.cash_dir_path(&a), "vault");
}

#[test]
fn balance_defaults() {
    let a = args(&[]);
    let (o, e) = wallet_balance(&a);
    assert_eq!(e, None);
    assert_eq!(o.address, None);
    assert_eq!(o.wallet_path(&a), "wallet.json");
    assert_eq!(o.rpc_addr(&a), None);
    assert_eq!(o.cash_dir_path(&a), "./cash");
}

#[test]
fn balance_refuses_a_second_address_and_unknown_options() {
    let a = args(&["one", "two"]);
    let (o, e) = wallet_balance(&a);
    assert_eq!(e, Some(ArgError::UnknownOption(1)));
    assert_eq!(o.address_args, vec![0]);
    let (_, e) = wallet_balance(&args(&["--fee", "1"]));
    assert_eq!(e, Some(ArgError::UnknownOption(0)));
    let (_, e) = wallet_balance(&args(&["--wallet"]));
    assert_eq!(e, Some(ArgError::MissingValue(Flag::Wallet)));
    let (_, e) = wallet_balance(&args(&["--cash-dir"]));
    assert_eq!(e, Some(ArgError::MissingValue(Flag::CashDir)));
}

#[test]
fn the_last_option_counts() {
    let a = args(&["--rpc", "a:1", "--rpc", "b:2"]);
    let (o, e) = wallet_global_stats(&a);
    assert_eq!(e, None);
    assert_eq!(o.rpc_addr(&a), Some("b:2".to_string()));
}

#[test]
fn stats_and_hashrate_take_only_the_node() {
    let (_, e) = wallet_global_stats(&args(&["--rpc"]));
    assert_eq!(e, Some(ArgError::MissingValue(Flag::Rpc)));
    let (_, e) = wallet_hashrate(&args(&["addr"]));
    assert_eq!(e, Some(ArgError::UnknownOption(0)));
    let (o, e) = wallet_hashrate(&args(&["--rpc-addr", "x:1"]));
    assert_eq!(e, None);
    assert_eq!(o.rpc, Some(1));
}

#[test]
fn address_stats_reads_address_wallet_and_node() {
    let a = args(&["--wallet", "w", "abc"]);
    let (o, e) = wallet_address_stats(&a);
    assert_eq!(e, None);
    assert_eq!(o.address, Some(2));
    assert_eq!(o.wallet_path(&a), "w");
    let (_, e) = wallet_address_stats(&args(&["--cash", "x"]));
    assert_eq!(e, Some(ArgError::UnknownOption(0)));
}

#[test]
fn pay_reads_amount_then_options() {
    let a = args(&["addr", "1.5", "--fee", "0.000010", "--wallet", "w"]);
    let (amount, o) = wallet_pay(&a).unwrap();
    assert_eq!(amount, 1_500_000);
    assert_eq!(o.fee_or_default(), 10);
    assert!(o.fee_explicit());
    assert_eq!(o.wallet_path(&a), "w");
    assert_eq!(wallet_pay(&args(&["addr"])).unwrap_err(), ArgError::MissingAmount);
    assert_eq!(
        wallet_pay(&args(&["addr", "x"])).unwrap_err(),
        ArgError::InvalidAmountArg(AmountError::WholeNotDigits)
    );
    assert_eq!(
        wallet_pay(&args(&["addr", "1", "--nonce", "3"])).unwrap_err(),
        ArgError::UnknownOption(2)
    );
    assert_eq!(
        wallet_pay(&args(&["addr", "1", "--fee", "-2"])).unwrap_err(),
        ArgError::InvalidFee(AmountError::Negative)
    );
    assert_eq!(
        wallet_pay(&args(&["addr", "1", "--fee"])).unwrap_err(),
        ArgError::MissingValue(Flag::Fee)
    );
}

#[test]
fn fee_defaults_and_auto() {
    let (_, o) = wallet_pay(&args(&["addr", "1"])).unwrap();
    assert_eq!(o.fee_or_default(), DEFAULT_TRANSACTION_FEE);
    assert!(!o.fee_explicit());
    let (_, o) = wallet_pay(&args(&["addr", "1", "--fee", "AUTO"])).unwrap();
    assert_eq!(o.fee, Some(DEFAULT_TRANSACTION_FEE));
    assert!(!o.fee_explicit());
    let (_, o) = wallet_pay(&args(&["addr", "1", "--fee", "0.000001"])).unwrap();
    assert!(!o.fee_explicit());
}

#[test]
fn send_short_form_takes_a_nonce() {
    let a = args(&["addr", "2", "--nonce", "9", "--rpc", "n:1"]);
    assert!(is_short_send(&a));
    let (amount, o) = wallet_send_short(&a).unwrap();
    assert_eq!(amount, 2 * XPQ);
    assert_eq!(o.nonce, Some(9));
    assert_eq!(
        wallet_send_short(&args(&["addr", "2", "--nonce", "x"])).unwrap_err(),
        ArgError::InvalidNonce(IntErrorKind::InvalidDigit)
    );
    assert_eq!(
        wallet_send_short(&args(&["addr", "2", "--nonce"])).unwrap_err(),
        ArgError::MissingValue(Flag::Nonce)
    );
}

#[test]
fn send_chooses_its_form() {
    match wallet_send(&args(&["addr", "3"])) {
        SendLine::Short(Ok((amount, _))) => assert_eq!(amount, 3 * XPQ),
        _ => panic!("short form expected"),
    }
    assert!(!is_short_send(&args(&["addr"])));
    assert!(!is_short_send(&args(&["--to", "addr"])));
    assert!(!is_short_send(&args(&["addr", "--amount"])));
    let a = args(&["--to", "addr", "--amount", "0.5", "--submit", "--fee", "auto"]);
    match wallet_send(&a) {
        SendLine::Long(o, e) => {
            assert_eq!(e, None);
            assert_eq!(o.to, Some(1));
            assert_eq!(o.address_args, vec![1]);
            assert_eq!(o.amount, Some(500_000));
            assert!(o.submit);
        }
        _ => panic!("long form expected"),
    }
}

#[test]
fn long_send_errors_in_order() {
    match wallet_send(&args(&["--amount", "1"])) {
        SendLine::Long(_, e) => assert_eq!(e, Some(ArgError::MissingTo)),
        _ => panic!(),
    }
    match wallet_send(&args(&["--to", "a"])) {
        SendLine::Long(_, e) => assert_eq!(e, Some(ArgError::MissingAmountOption)),
        _ => panic!(),
    }
    match wallet_send(&args(&["--to"])) {
        SendLine::Long(_, e) => assert_eq!(e, Some(ArgError::MissingAddress)),
        _ => panic!(),
    }
    match wallet_send(&args(&["--to", "a", "--amount", "1.0000001"])) {
        SendLine::Long(o, e) => {
            assert_eq!(e, Some(ArgError::InvalidAmount(AmountError::TooManyDecimals)));
            assert_eq!(o.address_args, vec![1]);
        }
        _ => panic!(),
    }
    match wallet_send(&args(&["--to", "a", "--amount"])) {
        SendLine::Long(_, e) => assert_eq!(e, Some(ArgError::MissingValue(Flag::Amount))),
        _ => panic!(),
    }
    match wallet_send(&args(&["--to", "a", "--amount", "1", "--execute"])) {
        SendLine::Long(_, e) => assert_eq!(e, Some(ArgError::UnknownOption(4))),
        _ => panic!(),
    }
}

#[test]
fn pool_payout_options() {
    let a = args(&["--ledger", "l.jsonl", "--execute", "--receipts", "r.jsonl"]);
    let (o, e) = wallet_pool_payout(&a);
    assert_eq!(e, None);
    assert!(o.execute);
    assert_eq!(o.ledger_path(&a), "l.jsonl");
    assert_eq!(o.receipts_path(&a), "r.jsonl");
    let b = args(&[]);
    let (o, _) = wallet_pool_payout(&b);
    assert_eq!(o.ledger_path(&b), "pool-accounting.jsonl");
    assert_eq!(o.receipts_path(&b), "pool-payout-receipts.jsonl");
    assert!(!o.execute);
    let (_, e) = wallet_pool_payout(&args(&["--receipts"]));
    assert_eq!(e, Some(ArgError::MissingValue(Flag::Receipts)));
    let (_, e) = wallet_pool_payout(&args(&["--ledger"]));
    assert_eq!(e, Some(ArgError::MissingValue(Flag::Ledger)));
}

#[test]
fn cash_withdraw_options() {
    let a = args(&["100", "--out", "dir", "--nonce", "4"]);
    let (amount, o) = wallet_cash_withdraw(&a).unwrap();
    assert_eq!(amount, 100 * XPQ);
    assert_eq!(o.out_dir_path(&a), "dir");
    assert_eq!(o.nonce, Some(4));
    let b = args(&["1"]);
    let (_, o) = wallet_cash_withdraw(&b).unwrap();
    assert_eq!(o.out_dir_path(&b), "./cash");
    assert_eq!(wallet_cash_withdraw(&args(&[])).unwrap_err(), ArgError::MissingAmount);
    assert_eq!(
        wallet_cash_withdraw(&args(&["1", "--output-dir"])).unwrap_err(),
        ArgError::MissingValue(Flag::Out)
    );
}

#[test]
fn cash_deposit_options() {
    let a = args(&["coin.XPQ", "--to", "addr", "--fee", "2"]);
    let (o, e) = wallet_cash_deposit(&a);
    assert_eq!(e, None);
    assert_eq!(o.to, Some(2));
    assert_eq!(o.fee, Some(2 * XPQ));
    assert!(o.fee_explicit());
    let (_, e) = wallet_cash_deposit(&args(&["coin.XPQ"]));
    assert_eq!(e, Some(ArgError::MissingTo));
    let (_, e) = wallet_cash_deposit(&args(&["--to", "a"]));
    assert_eq!(e, Some(ArgError::MissingOperand));
    let (_, e) = wallet_cash_deposit(&args(&[]));
    assert_eq!(e, Some(ArgError::MissingOperand));
}

#[test]
fn cash_sync_and_track_find_the_node() {
    assert_eq!(wallet_cash_sync(&args(&[])), Err(ArgError::MissingOperand));
    assert_eq!(wallet_cash_sync(&args(&["./cash"])), Ok(None));
    assert_eq!(
        wallet_cash_sync(&args(&["./cash", "x", "--rpc-addr", "n:1", "--rpc", "m:2"])),
        Ok(Some("n:1".to_string()))
    );
    assert_eq!(
        wallet_cash_sync(&args(&["./cash", "--rpc"])),
        Err(ArgError::MissingValue(Flag::Rpc))
    );
    assert_eq!(
        wallet_cash_track(&args(&["./cash/1_AB.XPQ", "--rpc", "n:1"])),
        Ok(("1_AB.XPQ".to_string(), Some("n:1".to_string())))
    );
    assert_eq!(
        wallet_cash_track(&args(&["a?b"])),
        Err(ArgError::Lookup(LookupError::UnsupportedCharacters))
    );
    assert_eq!(
        wallet_cash_track(&args(&["a?b", "--rpc"])),
        Err(ArgError::MissingValue(Flag::Rpc))
    );
    assert_eq!(wallet_cash_track(&args(&[])), Err(ArgError::MissingOperand));
}

#[test]
fn required_option_gives_the_value_or_the_flag() {
    let a = args(&["--ledger", "x"]);
    assert_eq!(required_option(&a, 1, Flag::Ledger), Ok("x".to_string()));
    assert_eq!(required_option(&a, 2, Flag::Ledger), Err(ArgError::MissingValue(Flag::Ledger)));
}

#[test]
fn new_wallet_path_and_secret() {
    assert_eq!(wallet_new(&args(&[])), (false, "wallet.json".to_string()));
    assert_eq!(
        wallet_new(&args(&["--show-secret", "my.json", "other.json"])),
        (true, "my.json".to_string())
    );
    assert_eq!(wallet_new(&args(&["-x", "--show"])), (false, "wallet.json".to_string()));
}
