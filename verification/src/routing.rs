//! Laws on the wallet's tables: which command each name runs, which entry
//! each menu answer selects, how each node path is shown, which options each
//! command reads. Each is stated over the names of the commands, entries,
//! paths and options themselves.
use vstd::prelude::*;
use crate::amount::xpq_amount;
use crate::cli::{ArgError, ScanState, empty_state, fee_value, is_auto, is_dashed, scan};
use crate::commands::{
    address_stats_syntax, balance_syntax, deposit_syntax, pay_syntax, pool_payout_syntax,
    rpc_syntax, send_short_syntax, send_syntax, withdraw_syntax,
};
use crate::chars::{trim, trim_end, trim_start};
use crate::decimal::parse_unsigned;
use crate::menus::{
    CashCommand, Command, MenuAction, QCashAction, ResponseView, cash_command_of, command_of,
    fixed_path_of, lookup_path_of, menu_action_of, qcash_action_of, view_of,
};

verus! {

/// `args` is the two-argument line `flag value`.
pub open spec fn option_line(args: Seq<String>, flag: Seq<char>, value: Seq<char>) -> bool {
    args.len() == 2 && args[0]@ == flag && args[1]@ == value
}

/// The option names that have the same length differ.
proof fn lemma_option_names_differ()
    ensures
        "--rpc"@ != "--fee"@,
        "--rpc"@ != "--out"@,
        "--fee"@ != "--out"@,
        "--wallet"@ != "--ledger"@,
        "--wallet"@ != "--amount"@,
        "--wallet"@ != "--submit"@,
        "--ledger"@ != "--amount"@,
        "--ledger"@ != "--submit"@,
        "--amount"@ != "--submit"@,
        "--receipts"@ != "--rpc-addr"@,
        "--receipts"@ != "--cash-dir"@,
        "--rpc-addr"@ != "--cash-dir"@,
{
    reveal_strlit("--rpc");
    reveal_strlit("--fee");
    reveal_strlit("--out");
    reveal_strlit("--wallet");
    reveal_strlit("--ledger");
    reveal_strlit("--amount");
    reveal_strlit("--submit");
    reveal_strlit("--receipts");
    reveal_strlit("--rpc-addr");
    reveal_strlit("--cash-dir");
    assert("--rpc"@[2] != "--fee"@[2]);
    assert("--rpc"@[2] != "--out"@[2]);
    assert("--fee"@[2] != "--out"@[2]);
    assert("--wallet"@[2] != "--ledger"@[2]);
    assert("--wallet"@[2] != "--amount"@[2]);
    assert("--wallet"@[2] != "--submit"@[2]);
    assert("--ledger"@[2] != "--amount"@[2]);
    assert("--ledger"@[2] != "--submit"@[2]);
    assert("--amount"@[2] != "--submit"@[2]);
    assert("--receipts"@[3] != "--rpc-addr"@[3]);
    assert("--receipts"@[2] != "--cash-dir"@[2]);
    assert("--rpc-addr"@[2] != "--cash-dir"@[2]);
}

/// Every option name starts with `-`.
proof fn lemma_option_names_dashed()
    ensures
        is_dashed("--wallet"@),
        is_dashed("--rpc"@),
        is_dashed("--rpc-addr"@),
        is_dashed("--cash-dir"@),
        is_dashed("--cash"@),
{
    reveal_strlit("--wallet");
    reveal_strlit("--rpc");
    reveal_strlit("--rpc-addr");
    reveal_strlit("--cash-dir");
    reveal_strlit("--cash");
}

/// Reveals every option name.
proof fn lemma_option_names()
    ensures
        "--rpc"@ != "--fee"@,
        "--rpc"@ != "--out"@,
        "--fee"@ != "--out"@,
        "--wallet"@ != "--ledger"@,
        "--wallet"@ != "--amount"@,
        "--wallet"@ != "--submit"@,
        "--ledger"@ != "--amount"@,
        "--ledger"@ != "--submit"@,
        "--amount"@ != "--submit"@,
        "--receipts"@ != "--rpc-addr"@,
        "--receipts"@ != "--cash-dir"@,
        "--rpc-addr"@ != "--cash-dir"@,
        "--to"@.len() == 4,
        "--rpc"@.len() == 5,
        "--fee"@.len() == 5,
        "--out"@.len() == 5,
        "--cash"@.len() == 6,
        "--nonce"@.len() == 7,
        "--wallet"@.len() == 8,
        "--ledger"@.len() == 8,
        "--amount"@.len() == 8,
        "--submit"@.len() == 8,
        "--execute"@.len() == 9,
        "--receipts"@.len() == 10,
        "--rpc-addr"@.len() == 10,
        "--cash-dir"@.len() == 10,
        "--output-dir"@.len() == 12,
{
    lemma_option_names_differ();
    reveal_strlit("--to");
    reveal_strlit("--rpc");
    reveal_strlit("--fee");
    reveal_strlit("--out");
    reveal_strlit("--cash");
    reveal_strlit("--nonce");
    reveal_strlit("--wallet");
    reveal_strlit("--ledger");
    reveal_strlit("--amount");
    reveal_strlit("--submit");
    reveal_strlit("--execute");
    reveal_strlit("--receipts");
    reveal_strlit("--rpc-addr");
    reveal_strlit("--cash-dir");
    reveal_strlit("--output-dir");
}

/// `balance` reads its options: `--wallet`, `--rpc` (or `--rpc-addr`), `--cash-dir` (or `--cash`) with their value, and an address given without an option: a line of one such option gives exactly that option, and no error.
pub proof fn law_balance_options(args: Seq<String>, value: Seq<char>)
    ensures
        option_line(args, "--wallet"@, value) ==> scan(args, balance_syntax(), 0, empty_state()) == (
            ScanState { wallet: Some(1usize), ..empty_state() },
            None::<ArgError>,
        ),
        option_line(args, "--rpc"@, value) ==> scan(args, balance_syntax(), 0, empty_state()) == (
            ScanState { rpc: Some(1usize), ..empty_state() },
            None::<ArgError>,
        ),
        option_line(args, "--rpc-addr"@, value) ==> scan(args, balance_syntax(), 0, empty_state()) == (
            ScanState { rpc: Some(1usize), ..empty_state() },
            None::<ArgError>,
        ),
        option_line(args, "--cash-dir"@, value) ==> scan(args, balance_syntax(), 0, empty_state()) == (
            ScanState { cash_dir: Some(1usize), ..empty_state() },
            None::<ArgError>,
        ),
        option_line(args, "--cash"@, value) ==> scan(args, balance_syntax(), 0, empty_state()) == (
            ScanState { cash_dir: Some(1usize), ..empty_state() },
            None::<ArgError>,
        ),
        args.len() == 1 && !is_dashed(args[0]@) ==> scan(args, balance_syntax(), 0, empty_state()) == (
            ScanState { address: Some(0usize), address_args: seq![0usize], ..empty_state() },
            None::<ArgError>,
        ),
{
    reveal_with_fuel(scan, 3);
    lemma_option_names();
    lemma_option_names_dashed();
    assert(Seq::<usize>::empty().push(0usize) =~= seq![0usize]);
}

/// `stats` and `hashrate` read the node address: `--rpc` or `--rpc-addr` with its value: a line of one such option gives exactly that option, and no error.
pub proof fn law_stats_options(args: Seq<String>, value: Seq<char>)
    ensures
        option_line(args, "--rpc"@, value) ==> scan(args, rpc_syntax(), 0, empty_state()) == (
            ScanState { rpc: Some(1usize), ..empty_state() },
            None::<ArgError>,
        ),
        option_line(args, "--rpc-addr"@, value) ==> scan(args, rpc_syntax(), 0, empty_state()) == (
            ScanState { rpc: Some(1usize), ..empty_state() },
            None::<ArgError>,
        ),
{
    reveal_with_fuel(scan, 3);
    lemma_option_names();
}

/// `address-stats` reads `--wallet`, `--rpc` (or `--rpc-addr`) with their value, and an address given without an option: a line of one such option gives exactly that option, and no error.
pub proof fn law_address_stats_options(args: Seq<String>, value: Seq<char>)
    ensures
        option_line(args, "--wallet"@, value) ==> scan(args, address_stats_syntax(), 0, empty_state()) == (
            ScanState { wallet: Some(1usize), ..empty_state() },
            None::<ArgError>,
        ),
        option_line(args, "--rpc"@, value) ==> scan(args, address_stats_syntax(), 0, empty_state()) == (
            ScanState { rpc: Some(1usize), ..empty_state() },
            None::<ArgError>,
        ),
        option_line(args, "--rpc-addr"@, value) ==> scan(args, address_stats_syntax(), 0, empty_state()) == (
            ScanState { rpc: Some(1usize), ..empty_state() },
            None::<ArgError>,
        ),
        args.len() == 1 && !is_dashed(args[0]@) ==> scan(args, address_stats_syntax(), 0, empty_state()) == (
            ScanState { address: Some(0usize), address_args: seq![0usize], ..empty_state() },
            None::<ArgError>,
        ),
{
    reveal_with_fuel(scan, 3);
    lemma_option_names();
    lemma_option_names_dashed();
    assert(Seq::<usize>::empty().push(0usize) =~= seq![0usize]);
}

/// `pay <address> <amount>` reads its options `--wallet`, `--rpc` (or `--rpc-addr`) with their value and `--fee` with an amount (or `auto`): a line of one such option gives exactly that option, and no error.
pub proof fn law_pay_options(args: Seq<String>, value: Seq<char>)
    ensures
        option_line(args, "--wallet"@, value) ==> scan(args, pay_syntax(), 0, empty_state()) == (
            ScanState { wallet: Some(1usize), ..empty_state() },
            None::<ArgError>,
        ),
        option_line(args, "--rpc"@, value) ==> scan(args, pay_syntax(), 0, empty_state()) == (
            ScanState { rpc: Some(1usize), ..empty_state() },
            None::<ArgError>,
        ),
        option_line(args, "--rpc-addr"@, value) ==> scan(args, pay_syntax(), 0, empty_state()) == (
            ScanState { rpc: Some(1usize), ..empty_state() },
            None::<ArgError>,
        ),
        option_line(args, "--fee"@, value) && fee_value(value) is Ok ==> scan(args, pay_syntax(), 0, empty_state())
            == (ScanState { fee: Some(fee_value(value)->Ok_0), ..empty_state() }, None::<ArgError>),
{
    reveal_with_fuel(scan, 3);
    lemma_option_names();
}

/// `send <address> <amount>` reads the options of `pay` and `--nonce` with a `u64`: a line of one such option gives exactly that option, and no error.
pub proof fn law_send_short_options(args: Seq<String>, value: Seq<char>)
    ensures
        option_line(args, "--wallet"@, value) ==> scan(args, send_short_syntax(), 0, empty_state()) == (
            ScanState { wallet: Some(1usize), ..empty_state() },
            None::<ArgError>,
        ),
        option_line(args, "--rpc"@, value) ==> scan(args, send_short_syntax(), 0, empty_state()) == (
            ScanState { rpc: Some(1usize), ..empty_state() },
            None::<ArgError>,
        ),
        option_line(args, "--rpc-addr"@, value) ==> scan(args, send_short_syntax(), 0, empty_state()) == (
            ScanState { rpc: Some(1usize), ..empty_state() },
            None::<ArgError>,
        ),
        option_line(args, "--fee"@, value) && fee_value(value) is Ok ==> scan(args, send_short_syntax(), 0, empty_state())
            == (ScanState { fee: Some(fee_value(value)->Ok_0), ..empty_state() }, None::<ArgError>),
        option_line(args, "--nonce"@, value) && parse_unsigned(value, u64::MAX as nat) is Ok ==> scan(
            args,
            send_short_syntax(),
            0,
            empty_state(),
        ) == (
            ScanState { nonce: Some(parse_unsigned(value, u64::MAX as nat)->Ok_0 as u64), ..empty_state() },
            None::<ArgError>,
        ),
{
    reveal_with_fuel(scan, 3);
    lemma_option_names();
}

/// `send --to a --amount n` reads `--wallet`, `--rpc` (or `--rpc-addr`) with their value, `--to` with its address, `--amount` and `--fee` with an amount, `--nonce` with a `u64`, and `--submit`: a line of one such option gives exactly that option, and no error.
pub proof fn law_send_options(args: Seq<String>, value: Seq<char>)
    ensures
        option_line(args, "--wallet"@, value) ==> scan(args, send_syntax(), 0, empty_state()) == (
            ScanState { wallet: Some(1usize), ..empty_state() },
            None::<ArgError>,
        ),
        option_line(args, "--rpc"@, value) ==> scan(args, send_syntax(), 0, empty_state()) == (
            ScanState { rpc: Some(1usize), ..empty_state() },
            None::<ArgError>,
        ),
        option_line(args, "--rpc-addr"@, value) ==> scan(args, send_syntax(), 0, empty_state()) == (
            ScanState { rpc: Some(1usize), ..empty_state() },
            None::<ArgError>,
        ),
        option_line(args, "--to"@, value) ==> scan(args, send_syntax(), 0, empty_state()) == (
            ScanState { to: Some(1usize), address_args: seq![1usize], ..empty_state() },
            None::<ArgError>,
        ),
        option_line(args, "--amount"@, value) && xpq_amount(value) is Ok ==> scan(args, send_syntax(), 0, empty_state())
            == (ScanState { amount: Some(xpq_amount(value)->Ok_0), ..empty_state() }, None::<ArgError>),
        option_line(args, "--fee"@, value) && fee_value(value) is Ok ==> scan(args, send_syntax(), 0, empty_state())
            == (ScanState { fee: Some(fee_value(value)->Ok_0), ..empty_state() }, None::<ArgError>),
        option_line(args, "--nonce"@, value) && parse_unsigned(value, u64::MAX as nat) is Ok ==> scan(
            args,
            send_syntax(),
            0,
            empty_state(),
        ) == (
            ScanState { nonce: Some(parse_unsigned(value, u64::MAX as nat)->Ok_0 as u64), ..empty_state() },
            None::<ArgError>,
        ),
        args.len() == 1 && args[0]@ == "--submit"@ ==> scan(args, send_syntax(), 0, empty_state()) == (
            ScanState { submit: true, ..empty_state() },
            None::<ArgError>,
        ),
{
    reveal_with_fuel(scan, 3);
    lemma_option_names();
}

/// `pool-payout` reads `--ledger`, `--receipts`, `--wallet`, `--rpc` (or `--rpc-addr`) with their value, `--fee` with an amount (or `auto`), and `--execute`: a line of one such option gives exactly that option, and no error.
pub proof fn law_pool_payout_options(args: Seq<String>, value: Seq<char>)
    ensures
        option_line(args, "--ledger"@, value) ==> scan(args, pool_payout_syntax(), 0, empty_state()) == (
            ScanState { ledger: Some(1usize), ..empty_state() },
            None::<ArgError>,
        ),
        option_line(args, "--receipts"@, value) ==> scan(args, pool_payout_syntax(), 0, empty_state()) == (
            ScanState { receipts: Some(1usize), ..empty_state() },
            None::<ArgError>,
        ),
        option_line(args, "--wallet"@, value) ==> scan(args, pool_payout_syntax(), 0, empty_state()) == (
            ScanState { wallet: Some(1usize), ..empty_state() },
            None::<ArgError>,
        ),
        option_line(args, "--rpc"@, value) ==> scan(args, pool_payout_syntax(), 0, empty_state()) == (
            ScanState { rpc: Some(1usize), ..empty_state() },
            None::<ArgError>,
        ),
        option_line(args, "--rpc-addr"@, value) ==> scan(args, pool_payout_syntax(), 0, empty_state()) == (
            ScanState { rpc: Some(1usize), ..empty_state() },
            None::<ArgError>,
        ),
        option_line(args, "--fee"@, value) && fee_value(value) is Ok ==> scan(args, pool_payout_syntax(), 0, empty_state())
            == (ScanState { fee: Some(fee_value(value)->Ok_0), ..empty_state() }, None::<ArgError>),
        option_line(args, "--fee"@, value) && !is_auto(value) && xpq_amount(value) is Ok ==> scan(
            args,
            pool_payout_syntax(),
            0,
            empty_state(),
        ) == (ScanState { fee: Some(xpq_amount(value)->Ok_0), ..empty_state() }, None::<ArgError>),
        args.len() == 1 && args[0]@ == "--execute"@ ==> scan(args, pool_payout_syntax(), 0, empty_state()) == (
            ScanState { execute: true, ..empty_state() },
            None::<ArgError>,
        ),
{
    reveal_with_fuel(scan, 3);
    lemma_option_names();
}

/// `cash withdraw <amount>` reads `--wallet`, `--rpc` (or `--rpc-addr`), `--out` (or `--output-dir`) with their value, `--fee` with an amount and `--nonce` with a `u64`: a line of one such option gives exactly that option, and no error.
pub proof fn law_cash_withdraw_options(args: Seq<String>, value: Seq<char>)
    ensures
        option_line(args, "--wallet"@, value) ==> scan(args, withdraw_syntax(), 0, empty_state()) == (
            ScanState { wallet: Some(1usize), ..empty_state() },
            None::<ArgError>,
        ),
        option_line(args, "--rpc"@, value) ==> scan(args, withdraw_syntax(), 0, empty_state()) == (
            ScanState { rpc: Some(1usize), ..empty_state() },
            None::<ArgError>,
        ),
        option_line(args, "--rpc-addr"@, value) ==> scan(args, withdraw_syntax(), 0, empty_state()) == (
            ScanState { rpc: Some(1usize), ..empty_state() },
            None::<ArgError>,
        ),
        option_line(args, "--out"@, value) ==> scan(args, withdraw_syntax(), 0, empty_state()) == (
            ScanState { out: Some(1usize), ..empty_state() },
            None::<ArgError>,
        ),
        option_line(args, "--output-dir"@, value) ==> scan(args, withdraw_syntax(), 0, empty_state()) == (
            ScanState { out: Some(1usize), ..empty_state() },
            None::<ArgError>,
        ),
        option_line(args, "--fee"@, value) && fee_value(value) is Ok ==> scan(args, withdraw_syntax(), 0, empty_state())
            == (ScanState { fee: Some(fee_value(value)->Ok_0), ..empty_state() }, None::<ArgError>),
        option_line(args, "--nonce"@, value) && parse_unsigned(value, u64::MAX as nat) is Ok ==> scan(
            args,
            withdraw_syntax(),
            0,
            empty_state(),
        ) == (
            ScanState { nonce: Some(parse_unsigned(value, u64::MAX as nat)->Ok_0 as u64), ..empty_state() },
            None::<ArgError>,
        ),
{
    reveal_with_fuel(scan, 3);
    lemma_option_names();
}

/// `cash deposit <file>` reads `--to` with its address, `--wallet`, `--rpc` (or `--rpc-addr`) with their value, `--fee` with an amount and `--nonce` with a `u64`: a line of one such option gives exactly that option, and no error.
pub proof fn law_cash_deposit_options(args: Seq<String>, value: Seq<char>)
    ensures
        option_line(args, "--to"@, value) ==> scan(args, deposit_syntax(), 0, empty_state()) == (
            ScanState { to: Some(1usize), address_args: seq![1usize], ..empty_state() },
            None::<ArgError>,
        ),
        option_line(args, "--wallet"@, value) ==> scan(args, deposit_syntax(), 0, empty_state()) == (
            ScanState { wallet: Some(1usize), ..empty_state() },
            None::<ArgError>,
        ),
        option_line(args, "--rpc"@, value) ==> scan(args, deposit_syntax(), 0, empty_state()) == (
            ScanState { rpc: Some(1usize), ..empty_state() },
            None::<ArgError>,
        ),
        option_line(args, "--rpc-addr"@, value) ==> scan(args, deposit_syntax(), 0, empty_state()) == (
            ScanState { rpc: Some(1usize), ..empty_state() },
            None::<ArgError>,
        ),
        option_line(args, "--fee"@, value) && fee_value(value) is Ok ==> scan(args, deposit_syntax(), 0, empty_state())
            == (ScanState { fee: Some(fee_value(value)->Ok_0), ..empty_state() }, None::<ArgError>),
        option_line(args, "--nonce"@, value) && parse_unsigned(value, u64::MAX as nat) is Ok ==> scan(
            args,
            deposit_syntax(),
            0,
            empty_state(),
        ) == (
            ScanState { nonce: Some(parse_unsigned(value, u64::MAX as nat)->Ok_0 as u64), ..empty_state() },
            None::<ArgError>,
        ),
{
    reveal_with_fuel(scan, 3);
    lemma_option_names();
}

/// The command words differ from one another.
proof fn lemma_command_words_differ()
    ensures
        "menu"@ != "help"@,
        "menu"@ != "version"@,
        "menu"@ != "new"@,
        "menu"@ != "address"@,
        "menu"@ != "balance"@,
        "menu"@ != "stats"@,
        "menu"@ != "address-stats"@,
        "menu"@ != "hashrate"@,
        "menu"@ != "pay"@,
        "menu"@ != "send"@,
        "menu"@ != "pool-payout"@,
        "menu"@ != "cash"@,
        "menu"@ != "cli"@,
        "menu"@ != "-h"@,
        "menu"@ != "--help"@,
        "menu"@ != "-V"@,
        "menu"@ != "--version"@,
        "menu"@ != "tracking"@,
        "menu"@ != "address-tracking"@,
        "menu"@ != "qcash"@,
        "help"@ != "version"@,
        "help"@ != "new"@,
        "help"@ != "address"@,
        "help"@ != "balance"@,
        "help"@ != "stats"@,
        "help"@ != "address-stats"@,
        "help"@ != "hashrate"@,
        "help"@ != "pay"@,
        "help"@ != "send"@,
        "help"@ != "pool-payout"@,
        "help"@ != "cash"@,
        "help"@ != "cli"@,
        "help"@ != "-h"@,
        "help"@ != "--help"@,
        "help"@ != "-V"@,
        "help"@ != "--version"@,
        "help"@ != "tracking"@,
        "help"@ != "address-tracking"@,
        "help"@ != "qcash"@,
        "version"@ != "new"@,
        "version"@ != "address"@,
        "version"@ != "balance"@,
        "version"@ != "stats"@,
        "version"@ != "address-stats"@,
        "version"@ != "hashrate"@,
        "version"@ != "pay"@,
        "version"@ != "send"@,
        "version"@ != "pool-payout"@,
        "version"@ != "cash"@,
        "version"@ != "cli"@,
        "version"@ != "-h"@,
        "version"@ != "--help"@,
        "version"@ != "-V"@,
        "version"@ != "--version"@,
        "version"@ != "tracking"@,
        "version"@ != "address-tracking"@,
        "version"@ != "qcash"@,
        "new"@ != "address"@,
        "new"@ != "balance"@,
        "new"@ != "stats"@,
        "new"@ != "address-stats"@,
        "new"@ != "hashrate"@,
        "new"@ != "pay"@,
        "new"@ != "send"@,
        "new"@ != "pool-payout"@,
        "new"@ != "cash"@,
        "new"@ != "cli"@,
        "new"@ != "-h"@,
        "new"@ != "--help"@,
        "new"@ != "-V"@,
        "new"@ != "--version"@,
        "new"@ != "tracking"@,
        "new"@ != "address-tracking"@,
        "new"@ != "qcash"@,
        "address"@ != "balance"@,
        "address"@ != "stats"@,
        "address"@ != "address-stats"@,
        "address"@ != "hashrate"@,
        "address"@ != "pay"@,
        "address"@ != "send"@,
        "address"@ != "pool-payout"@,
        "address"@ != "cash"@,
        "address"@ != "cli"@,
        "address"@ != "-h"@,
        "address"@ != "--help"@,
        "address"@ != "-V"@,
        "address"@ != "--version"@,
        "address"@ != "tracking"@,
        "address"@ != "address-tracking"@,
        "address"@ != "qcash"@,
        "balance"@ != "stats"@,
        "balance"@ != "address-stats"@,
        "balance"@ != "hashrate"@,
        "balance"@ != "pay"@,
        "balance"@ != "send"@,
        "balance"@ != "pool-payout"@,
        "balance"@ != "cash"@,
        "balance"@ != "cli"@,
        "balance"@ != "-h"@,
        "balance"@ != "--help"@,
        "balance"@ != "-V"@,
        "balance"@ != "--version"@,
        "balance"@ != "tracking"@,
        "balance"@ != "address-tracking"@,
        "balance"@ != "qcash"@,
        "stats"@ != "address-stats"@,
        "stats"@ != "hashrate"@,
        "stats"@ != "pay"@,
        "stats"@ != "send"@,
        "stats"@ != "pool-payout"@,
        "stats"@ != "cash"@,
        "stats"@ != "cli"@,
        "stats"@ != "-h"@,
        "stats"@ != "--help"@,
        "stats"@ != "-V"@,
        "stats"@ != "--version"@,
        "stats"@ != "tracking"@,
        "stats"@ != "address-tracking"@,
        "stats"@ != "qcash"@,
        "address-stats"@ != "hashrate"@,
        "address-stats"@ != "pay"@,
        "address-stats"@ != "send"@,
        "address-stats"@ != "pool-payout"@,
        "address-stats"@ != "cash"@,
        "address-stats"@ != "cli"@,
        "address-stats"@ != "-h"@,
        "address-stats"@ != "--help"@,
        "address-stats"@ != "-V"@,
        "address-stats"@ != "--version"@,
        "address-stats"@ != "tracking"@,
        "address-stats"@ != "address-tracking"@,
        "address-stats"@ != "qcash"@,
        "hashrate"@ != "pay"@,
        "hashrate"@ != "send"@,
        "hashrate"@ != "pool-payout"@,
        "hashrate"@ != "cash"@,
        "hashrate"@ != "cli"@,
        "hashrate"@ != "-h"@,
        "hashrate"@ != "--help"@,
        "hashrate"@ != "-V"@,
        "hashrate"@ != "--version"@,
        "hashrate"@ != "tracking"@,
        "hashrate"@ != "address-tracking"@,
        "hashrate"@ != "qcash"@,
        "pay"@ != "send"@,
        "pay"@ != "pool-payout"@,
        "pay"@ != "cash"@,
        "pay"@ != "cli"@,
        "pay"@ != "-h"@,
        "pay"@ != "--help"@,
        "pay"@ != "-V"@,
        "pay"@ != "--version"@,
        "pay"@ != "tracking"@,
        "pay"@ != "address-tracking"@,
        "pay"@ != "qcash"@,
        "send"@ != "pool-payout"@,
        "send"@ != "cash"@,
        "send"@ != "cli"@,
        "send"@ != "-h"@,
        "send"@ != "--help"@,
        "send"@ != "-V"@,
        "send"@ != "--version"@,
        "send"@ != "tracking"@,
        "send"@ != "address-tracking"@,
        "send"@ != "qcash"@,
        "pool-payout"@ != "cash"@,
        "pool-payout"@ != "cli"@,
        "pool-payout"@ != "-h"@,
        "pool-payout"@ != "--help"@,
        "pool-payout"@ != "-V"@,
        "pool-payout"@ != "--version"@,
        "pool-payout"@ != "tracking"@,
        "pool-payout"@ != "address-tracking"@,
        "pool-payout"@ != "qcash"@,
        "cash"@ != "cli"@,
        "cash"@ != "-h"@,
        "cash"@ != "--help"@,
        "cash"@ != "-V"@,
        "cash"@ != "--version"@,
        "cash"@ != "tracking"@,
        "cash"@ != "address-tracking"@,
        "cash"@ != "qcash"@,
        "cli"@ != "-h"@,
        "cli"@ != "--help"@,
        "cli"@ != "-V"@,
        "cli"@ != "--version"@,
        "cli"@ != "tracking"@,
        "cli"@ != "address-tracking"@,
        "cli"@ != "qcash"@,
        "-h"@ != "--help"@,
        "-h"@ != "-V"@,
        "-h"@ != "--version"@,
        "-h"@ != "tracking"@,
        "-h"@ != "address-tracking"@,
        "-h"@ != "qcash"@,
        "--help"@ != "-V"@,
        "--help"@ != "--version"@,
        "--help"@ != "tracking"@,
        "--help"@ != "address-tracking"@,
        "--help"@ != "qcash"@,
        "-V"@ != "--version"@,
        "-V"@ != "tracking"@,
        "-V"@ != "address-tracking"@,
        "-V"@ != "qcash"@,
        "--version"@ != "tracking"@,
        "--version"@ != "address-tracking"@,
        "--version"@ != "qcash"@,
        "tracking"@ != "address-tracking"@,
        "tracking"@ != "qcash"@,
        "address-tracking"@ != "qcash"@,
{
    reveal_strlit("menu");
    reveal_strlit("help");
    reveal_strlit("version");
    reveal_strlit("new");
    reveal_strlit("address");
    reveal_strlit("balance");
    reveal_strlit("stats");
    reveal_strlit("address-stats");
    reveal_strlit("hashrate");
    reveal_strlit("pay");
    reveal_strlit("send");
    reveal_strlit("pool-payout");
    reveal_strlit("cash");
    reveal_strlit("cli");
    reveal_strlit("-h");
    reveal_strlit("--help");
    reveal_strlit("-V");
    reveal_strlit("--version");
    reveal_strlit("tracking");
    reveal_strlit("address-tracking");
    reveal_strlit("qcash");
    assert("menu"@.len() == 4);
    assert("help"@.len() == 4);
    assert("version"@.len() == 7);
    assert("new"@.len() == 3);
    assert("address"@.len() == 7);
    assert("balance"@.len() == 7);
    assert("stats"@.len() == 5);
    assert("address-stats"@.len() == 13);
    assert("hashrate"@.len() == 8);
    assert("pay"@.len() == 3);
    assert("send"@.len() == 4);
    assert("pool-payout"@.len() == 11);
    assert("cash"@.len() == 4);
    assert("cli"@.len() == 3);
    assert("-h"@.len() == 2);
    assert("--help"@.len() == 6);
    assert("-V"@.len() == 2);
    assert("--version"@.len() == 9);
    assert("tracking"@.len() == 8);
    assert("address-tracking"@.len() == 16);
    assert("qcash"@.len() == 5);
    assert("menu"@[0] != "help"@[0]);
    assert("menu"@[0] != "send"@[0]);
    assert("menu"@[0] != "cash"@[0]);
    assert("help"@[0] != "send"@[0]);
    assert("help"@[0] != "cash"@[0]);
    assert("version"@[0] != "address"@[0]);
    assert("version"@[0] != "balance"@[0]);
    assert("new"@[0] != "pay"@[0]);
    assert("new"@[0] != "cli"@[0]);
    assert("address"@[0] != "balance"@[0]);
    assert("stats"@[0] != "qcash"@[0]);
    assert("hashrate"@[0] != "tracking"@[0]);
    assert("pay"@[0] != "cli"@[0]);
    assert("send"@[0] != "cash"@[0]);
    assert("-h"@[1] != "-V"@[1]);
}

/// The cash command words differ from one another.
proof fn lemma_cash_command_words_differ()
    ensures
        "inspect"@ != "withdraw"@,
        "inspect"@ != "deposit"@,
        "inspect"@ != "sync"@,
        "inspect"@ != "track"@,
        "inspect"@ != "list"@,
        "inspect"@ != "backup"@,
        "inspect"@ != "recover"@,
        "inspect"@ != "status"@,
        "withdraw"@ != "deposit"@,
        "withdraw"@ != "sync"@,
        "withdraw"@ != "track"@,
        "withdraw"@ != "list"@,
        "withdraw"@ != "backup"@,
        "withdraw"@ != "recover"@,
        "withdraw"@ != "status"@,
        "deposit"@ != "sync"@,
        "deposit"@ != "track"@,
        "deposit"@ != "list"@,
        "deposit"@ != "backup"@,
        "deposit"@ != "recover"@,
        "deposit"@ != "status"@,
        "sync"@ != "track"@,
        "sync"@ != "list"@,
        "sync"@ != "backup"@,
        "sync"@ != "recover"@,
        "sync"@ != "status"@,
        "track"@ != "list"@,
        "track"@ != "backup"@,
        "track"@ != "recover"@,
        "track"@ != "status"@,
        "list"@ != "backup"@,
        "list"@ != "recover"@,
        "list"@ != "status"@,
        "backup"@ != "recover"@,
        "backup"@ != "status"@,
        "recover"@ != "status"@,
{
    reveal_strlit("inspect");
    reveal_strlit("withdraw");
    reveal_strlit("deposit");
    reveal_strlit("sync");
    reveal_strlit("track");
    reveal_strlit("list");
    reveal_strlit("backup");
    reveal_strlit("recover");
    reveal_strlit("status");
    assert("inspect"@.len() == 7);
    assert("withdraw"@.len() == 8);
    assert("deposit"@.len() == 7);
    assert("sync"@.len() == 4);
    assert("track"@.len() == 5);
    assert("list"@.len() == 4);
    assert("backup"@.len() == 6);
    assert("recover"@.len() == 7);
    assert("status"@.len() == 6);
    assert("inspect"@[0] != "deposit"@[0]);
    assert("inspect"@[0] != "recover"@[0]);
    assert("deposit"@[0] != "recover"@[0]);
    assert("sync"@[0] != "list"@[0]);
    assert("backup"@[0] != "status"@[0]);
}

/// The menu words differ from one another.
proof fn lemma_menu_words_differ()
    ensures
        "b"@ != "back"@,
        "b"@ != "1"@,
        "b"@ != "2"@,
        "b"@ != "3"@,
        "b"@ != "4"@,
        "b"@ != "5"@,
        "b"@ != "6"@,
        "b"@ != "7"@,
        "b"@ != "8"@,
        "b"@ != "9"@,
        "b"@ != "10"@,
        "b"@ != "11"@,
        "b"@ != "12"@,
        "b"@ != "13"@,
        "b"@ != "14"@,
        "b"@ != "15"@,
        "b"@ != "16"@,
        "b"@ != "17"@,
        "b"@ != "18"@,
        "b"@ != "19"@,
        "back"@ != "1"@,
        "back"@ != "2"@,
        "back"@ != "3"@,
        "back"@ != "4"@,
        "back"@ != "5"@,
        "back"@ != "6"@,
        "back"@ != "7"@,
        "back"@ != "8"@,
        "back"@ != "9"@,
        "back"@ != "10"@,
        "back"@ != "11"@,
        "back"@ != "12"@,
        "back"@ != "13"@,
        "back"@ != "14"@,
        "back"@ != "15"@,
        "back"@ != "16"@,
        "back"@ != "17"@,
        "back"@ != "18"@,
        "back"@ != "19"@,
        "1"@ != "2"@,
        "1"@ != "3"@,
        "1"@ != "4"@,
        "1"@ != "5"@,
        "1"@ != "6"@,
        "1"@ != "7"@,
        "1"@ != "8"@,
        "1"@ != "9"@,
        "1"@ != "10"@,
        "1"@ != "11"@,
        "1"@ != "12"@,
        "1"@ != "13"@,
        "1"@ != "14"@,
        "1"@ != "15"@,
        "1"@ != "16"@,
        "1"@ != "17"@,
        "1"@ != "18"@,
        "1"@ != "19"@,
        "2"@ != "3"@,
        "2"@ != "4"@,
        "2"@ != "5"@,
        "2"@ != "6"@,
        "2"@ != "7"@,
        "2"@ != "8"@,
        "2"@ != "9"@,
        "2"@ != "10"@,
        "2"@ != "11"@,
        "2"@ != "12"@,
        "2"@ != "13"@,
        "2"@ != "14"@,
        "2"@ != "15"@,
        "2"@ != "16"@,
        "2"@ != "17"@,
        "2"@ != "18"@,
        "2"@ != "19"@,
        "3"@ != "4"@,
        "3"@ != "5"@,
        "3"@ != "6"@,
        "3"@ != "7"@,
        "3"@ != "8"@,
        "3"@ != "9"@,
        "3"@ != "10"@,
        "3"@ != "11"@,
        "3"@ != "12"@,
        "3"@ != "13"@,
        "3"@ != "14"@,
        "3"@ != "15"@,
        "3"@ != "16"@,
        "3"@ != "17"@,
        "3"@ != "18"@,
        "3"@ != "19"@,
        "4"@ != "5"@,
        "4"@ != "6"@,
        "4"@ != "7"@,
        "4"@ != "8"@,
        "4"@ != "9"@,
        "4"@ != "10"@,
        "4"@ != "11"@,
        "4"@ != "12"@,
        "4"@ != "13"@,
        "4"@ != "14"@,
        "4"@ != "15"@,
        "4"@ != "16"@,
        "4"@ != "17"@,
        "4"@ != "18"@,
        "4"@ != "19"@,
        "5"@ != "6"@,
        "5"@ != "7"@,
        "5"@ != "8"@,
        "5"@ != "9"@,
        "5"@ != "10"@,
        "5"@ != "11"@,
        "5"@ != "12"@,
        "5"@ != "13"@,
        "5"@ != "14"@,
        "5"@ != "15"@,
        "5"@ != "16"@,
        "5"@ != "17"@,
        "5"@ != "18"@,
        "5"@ != "19"@,
        "6"@ != "7"@,
        "6"@ != "8"@,
        "6"@ != "9"@,
        "6"@ != "10"@,
        "6"@ != "11"@,
        "6"@ != "12"@,
        "6"@ != "13"@,
        "6"@ != "14"@,
        "6"@ != "15"@,
        "6"@ != "16"@,
        "6"@ != "17"@,
        "6"@ != "18"@,
        "6"@ != "19"@,
        "7"@ != "8"@,
        "7"@ != "9"@,
        "7"@ != "10"@,
        "7"@ != "11"@,
        "7"@ != "12"@,
        "7"@ != "13"@,
        "7"@ != "14"@,
        "7"@ != "15"@,
        "7"@ != "16"@,
        "7"@ != "17"@,
        "7"@ != "18"@,
        "7"@ != "19"@,
        "8"@ != "9"@,
        "8"@ != "10"@,
        "8"@ != "11"@,
        "8"@ != "12"@,
        "8"@ != "13"@,
        "8"@ != "14"@,
        "8"@ != "15"@,
        "8"@ != "16"@,
        "8"@ != "17"@,
        "8"@ != "18"@,
        "8"@ != "19"@,
        "9"@ != "10"@,
        "9"@ != "11"@,
        "9"@ != "12"@,
        "9"@ != "13"@,
        "9"@ != "14"@,
        "9"@ != "15"@,
        "9"@ != "16"@,
        "9"@ != "17"@,
        "9"@ != "18"@,
        "9"@ != "19"@,
        "10"@ != "11"@,
        "10"@ != "12"@,
        "10"@ != "13"@,
        "10"@ != "14"@,
        "10"@ != "15"@,
        "10"@ != "16"@,
        "10"@ != "17"@,
        "10"@ != "18"@,
        "10"@ != "19"@,
        "11"@ != "12"@,
        "11"@ != "13"@,
        "11"@ != "14"@,
        "11"@ != "15"@,
        "11"@ != "16"@,
        "11"@ != "17"@,
        "11"@ != "18"@,
        "11"@ != "19"@,
        "12"@ != "13"@,
        "12"@ != "14"@,
        "12"@ != "15"@,
        "12"@ != "16"@,
        "12"@ != "17"@,
        "12"@ != "18"@,
        "12"@ != "19"@,
        "13"@ != "14"@,
        "13"@ != "15"@,
        "13"@ != "16"@,
        "13"@ != "17"@,
        "13"@ != "18"@,
        "13"@ != "19"@,
        "14"@ != "15"@,
        "14"@ != "16"@,
        "14"@ != "17"@,
        "14"@ != "18"@,
        "14"@ != "19"@,
        "15"@ != "16"@,
        "15"@ != "17"@,
        "15"@ != "18"@,
        "15"@ != "19"@,
        "16"@ != "17"@,
        "16"@ != "18"@,
        "16"@ != "19"@,
        "17"@ != "18"@,
        "17"@ != "19"@,
        "18"@ != "19"@,
{
    reveal_strlit("b");
    reveal_strlit("back");
    reveal_strlit("1");
    reveal_strlit("2");
    reveal_strlit("3");
    reveal_strlit("4");
    reveal_strlit("5");
    reveal_strlit("6");
    reveal_strlit("7");
    reveal_strlit("8");
    reveal_strlit("9");
    reveal_strlit("10");
    reveal_strlit("11");
    reveal_strlit("12");
    reveal_strlit("13");
    reveal_strlit("14");
    reveal_strlit("15");
    reveal_strlit("16");
    reveal_strlit("17");
    reveal_strlit("18");
    reveal_strlit("19");
    assert("b"@.len() == 1);
    assert("back"@.len() == 4);
    assert("1"@.len() == 1);
    assert("2"@.len() == 1);
    assert("3"@.len() == 1);
    assert("4"@.len() == 1);
    assert("5"@.len() == 1);
    assert("6"@.len() == 1);
    assert("7"@.len() == 1);
    assert("8"@.len() == 1);
    assert("9"@.len() == 1);
    assert("10"@.len() == 2);
    assert("11"@.len() == 2);
    assert("12"@.len() == 2);
    assert("13"@.len() == 2);
    assert("14"@.len() == 2);
    assert("15"@.len() == 2);
    assert("16"@.len() == 2);
    assert("17"@.len() == 2);
    assert("18"@.len() == 2);
    assert("19"@.len() == 2);
    assert("b"@[0] != "1"@[0]);
    assert("b"@[0] != "2"@[0]);
    assert("b"@[0] != "3"@[0]);
    assert("b"@[0] != "4"@[0]);
    assert("b"@[0] != "5"@[0]);
    assert("b"@[0] != "6"@[0]);
    assert("b"@[0] != "7"@[0]);
    assert("b"@[0] != "8"@[0]);
    assert("b"@[0] != "9"@[0]);
    assert("1"@[0] != "2"@[0]);
    assert("1"@[0] != "3"@[0]);
    assert("1"@[0] != "4"@[0]);
    assert("1"@[0] != "5"@[0]);
    assert("1"@[0] != "6"@[0]);
    assert("1"@[0] != "7"@[0]);
    assert("1"@[0] != "8"@[0]);
    assert("1"@[0] != "9"@[0]);
    assert("2"@[0] != "3"@[0]);
    assert("2"@[0] != "4"@[0]);
    assert("2"@[0] != "5"@[0]);
    assert("2"@[0] != "6"@[0]);
    assert("2"@[0] != "7"@[0]);
    assert("2"@[0] != "8"@[0]);
    assert("2"@[0] != "9"@[0]);
    assert("3"@[0] != "4"@[0]);
    assert("3"@[0] != "5"@[0]);
    assert("3"@[0] != "6"@[0]);
    assert("3"@[0] != "7"@[0]);
    assert("3"@[0] != "8"@[0]);
    assert("3"@[0] != "9"@[0]);
    assert("4"@[0] != "5"@[0]);
    assert("4"@[0] != "6"@[0]);
    assert("4"@[0] != "7"@[0]);
    assert("4"@[0] != "8"@[0]);
    assert("4"@[0] != "9"@[0]);
    assert("5"@[0] != "6"@[0]);
    assert("5"@[0] != "7"@[0]);
    assert("5"@[0] != "8"@[0]);
    assert("5"@[0] != "9"@[0]);
    assert("6"@[0] != "7"@[0]);
    assert("6"@[0] != "8"@[0]);
    assert("6"@[0] != "9"@[0]);
    assert("7"@[0] != "8"@[0]);
    assert("7"@[0] != "9"@[0]);
    assert("8"@[0] != "9"@[0]);
    assert("10"@[1] != "11"@[1]);
    assert("10"@[1] != "12"@[1]);
    assert("10"@[1] != "13"@[1]);
    assert("10"@[1] != "14"@[1]);
    assert("10"@[1] != "15"@[1]);
    assert("10"@[1] != "16"@[1]);
    assert("10"@[1] != "17"@[1]);
    assert("10"@[1] != "18"@[1]);
    assert("10"@[1] != "19"@[1]);
    assert("11"@[1] != "12"@[1]);
    assert("11"@[1] != "13"@[1]);
    assert("11"@[1] != "14"@[1]);
    assert("11"@[1] != "15"@[1]);
    assert("11"@[1] != "16"@[1]);
    assert("11"@[1] != "17"@[1]);
    assert("11"@[1] != "18"@[1]);
    assert("11"@[1] != "19"@[1]);
    assert("12"@[1] != "13"@[1]);
    assert("12"@[1] != "14"@[1]);
    assert("12"@[1] != "15"@[1]);
    assert("12"@[1] != "16"@[1]);
    assert("12"@[1] != "17"@[1]);
    assert("12"@[1] != "18"@[1]);
    assert("12"@[1] != "19"@[1]);
    assert("13"@[1] != "14"@[1]);
    assert("13"@[1] != "15"@[1]);
    assert("13"@[1] != "16"@[1]);
    assert("13"@[1] != "17"@[1]);
    assert("13"@[1] != "18"@[1]);
    assert("13"@[1] != "19"@[1]);
    assert("14"@[1] != "15"@[1]);
    assert("14"@[1] != "16"@[1]);
    assert("14"@[1] != "17"@[1]);
    assert("14"@[1] != "18"@[1]);
    assert("14"@[1] != "19"@[1]);
    assert("15"@[1] != "16"@[1]);
    assert("15"@[1] != "17"@[1]);
    assert("15"@[1] != "18"@[1]);
    assert("15"@[1] != "19"@[1]);
    assert("16"@[1] != "17"@[1]);
    assert("16"@[1] != "18"@[1]);
    assert("16"@[1] != "19"@[1]);
    assert("17"@[1] != "18"@[1]);
    assert("17"@[1] != "19"@[1]);
    assert("18"@[1] != "19"@[1]);
}

/// The qcash words differ from one another.
proof fn lemma_qcash_words_differ()
    ensures
        "1"@ != "2"@,
        "1"@ != "3"@,
        "1"@ != "4"@,
        "1"@ != "5"@,
        "1"@ != "6"@,
        "1"@ != "7"@,
        "1"@ != "8"@,
        "2"@ != "3"@,
        "2"@ != "4"@,
        "2"@ != "5"@,
        "2"@ != "6"@,
        "2"@ != "7"@,
        "2"@ != "8"@,
        "3"@ != "4"@,
        "3"@ != "5"@,
        "3"@ != "6"@,
        "3"@ != "7"@,
        "3"@ != "8"@,
        "4"@ != "5"@,
        "4"@ != "6"@,
        "4"@ != "7"@,
        "4"@ != "8"@,
        "5"@ != "6"@,
        "5"@ != "7"@,
        "5"@ != "8"@,
        "6"@ != "7"@,
        "6"@ != "8"@,
        "7"@ != "8"@,
{
    reveal_strlit("1");
    reveal_strlit("2");
    reveal_strlit("3");
    reveal_strlit("4");
    reveal_strlit("5");
    reveal_strlit("6");
    reveal_strlit("7");
    reveal_strlit("8");
    assert("1"@.len() == 1);
    assert("2"@.len() == 1);
    assert("3"@.len() == 1);
    assert("4"@.len() == 1);
    assert("5"@.len() == 1);
    assert("6"@.len() == 1);
    assert("7"@.len() == 1);
    assert("8"@.len() == 1);
    assert("1"@[0] != "2"@[0]);
    assert("1"@[0] != "3"@[0]);
    assert("1"@[0] != "4"@[0]);
    assert("1"@[0] != "5"@[0]);
    assert("1"@[0] != "6"@[0]);
    assert("1"@[0] != "7"@[0]);
    assert("1"@[0] != "8"@[0]);
    assert("2"@[0] != "3"@[0]);
    assert("2"@[0] != "4"@[0]);
    assert("2"@[0] != "5"@[0]);
    assert("2"@[0] != "6"@[0]);
    assert("2"@[0] != "7"@[0]);
    assert("2"@[0] != "8"@[0]);
    assert("3"@[0] != "4"@[0]);
    assert("3"@[0] != "5"@[0]);
    assert("3"@[0] != "6"@[0]);
    assert("3"@[0] != "7"@[0]);
    assert("3"@[0] != "8"@[0]);
    assert("4"@[0] != "5"@[0]);
    assert("4"@[0] != "6"@[0]);
    assert("4"@[0] != "7"@[0]);
    assert("4"@[0] != "8"@[0]);
    assert("5"@[0] != "6"@[0]);
    assert("5"@[0] != "7"@[0]);
    assert("5"@[0] != "8"@[0]);
    assert("6"@[0] != "7"@[0]);
    assert("6"@[0] != "8"@[0]);
    assert("7"@[0] != "8"@[0]);
}

/// The name of each command.
pub open spec fn command_name(c: Command) -> Seq<char> {
    match c {
        Command::Menu => "menu"@,
        Command::Help => "help"@,
        Command::Version => "version"@,
        Command::New => "new"@,
        Command::Address => "address"@,
        Command::Balance => "balance"@,
        Command::Stats => "stats"@,
        Command::AddressStats => "address-stats"@,
        Command::Hashrate => "hashrate"@,
        Command::Pay => "pay"@,
        Command::Send => "send"@,
        Command::PoolPayout => "pool-payout"@,
        Command::Cash => "cash"@,
        _ => Seq::empty(),
    }
}

/// The name of each `cash` subcommand.
pub open spec fn cash_command_name(c: CashCommand) -> Seq<char> {
    match c {
        CashCommand::Inspect => "inspect"@,
        CashCommand::Withdraw => "withdraw"@,
        CashCommand::Deposit => "deposit"@,
        CashCommand::Sync => "sync"@,
        CashCommand::Track => "track"@,
        CashCommand::List => "list"@,
        CashCommand::Backup => "backup"@,
        CashCommand::Recover => "recover"@,
        _ => Seq::empty(),
    }
}

/// The name of each menu entry (its number; `b` for going back).
pub open spec fn menu_answer(c: MenuAction) -> Seq<char> {
    match c {
        MenuAction::Back => "b"@,
        MenuAction::CreateWallet => "1"@,
        MenuAction::ShowAddress => "2"@,
        MenuAction::CheckBalance => "3"@,
        MenuAction::GlobalStats => "4"@,
        MenuAction::SendCoin => "5"@,
        MenuAction::QCash => "6"@,
        MenuAction::Health => "7"@,
        MenuAction::Status => "8"@,
        MenuAction::Peers => "9"@,
        MenuAction::Chain => "10"@,
        MenuAction::LatestBlocks => "11"@,
        MenuAction::BlockByHeight => "12"@,
        MenuAction::BlockByHash => "13"@,
        MenuAction::TransactionByHash => "14"@,
        MenuAction::AddressExplorer => "15"@,
        MenuAction::Accounts => "16"@,
        MenuAction::Mempool => "17"@,
        MenuAction::Hashrate => "18"@,
        MenuAction::ChangeRpc => "19"@,
        _ => Seq::empty(),
    }
}

/// The name of each QCash menu entry (its number).
pub open spec fn qcash_answer(c: QCashAction) -> Seq<char> {
    match c {
        QCashAction::Withdraw => "1"@,
        QCashAction::Deposit => "2"@,
        QCashAction::Inspect => "3"@,
        QCashAction::Sync => "4"@,
        QCashAction::List => "5"@,
        QCashAction::Backup => "6"@,
        QCashAction::Recover => "7"@,
        QCashAction::Track => "8"@,
        _ => Seq::empty(),
    }
}

/// Each command runs when it is named: a command line whose first argument is
/// a command's name selects that command, whatever follows it; the aliases
/// select theirs, and an empty line opens the menu.
pub proof fn law_command_names(args: Seq<String>, c: Command)
    ensures
        args.len() >= 1 && c != Command::Unknown && args[0]@ == command_name(c) ==> command_of(args)
            == c,
        args.len() == 0 ==> command_of(args) == Command::Menu,
        args.len() >= 1 && args[0]@ == "cli"@ ==> command_of(args) == Command::Menu,
        args.len() >= 1 && args[0]@ == "-h"@ ==> command_of(args) == Command::Help,
        args.len() >= 1 && args[0]@ == "--help"@ ==> command_of(args) == Command::Help,
        args.len() >= 1 && args[0]@ == "-V"@ ==> command_of(args) == Command::Version,
        args.len() >= 1 && args[0]@ == "--version"@ ==> command_of(args) == Command::Version,
        args.len() >= 1 && args[0]@ == "tracking"@ ==> command_of(args) == Command::Stats,
        args.len() >= 1 && args[0]@ == "address-tracking"@ ==> command_of(args) == Command::AddressStats,
        args.len() >= 1 && args[0]@ == "qcash"@ ==> command_of(args) == Command::Cash,
{
    lemma_command_words_differ();
}

/// Each `cash` subcommand runs when it is named (and `status` is `track`).
pub proof fn law_cash_command_names(args: Seq<String>, c: CashCommand)
    ensures
        args.len() >= 1 && c != CashCommand::Unknown && c != CashCommand::Missing && args[0]@
            == cash_command_name(c) ==> cash_command_of(args) == c,
        args.len() >= 1 && args[0]@ == "status"@ ==> cash_command_of(args) == CashCommand::Track,
        args.len() == 0 ==> cash_command_of(args) == CashCommand::Missing,
{
    lemma_cash_command_words_differ();
}

/// Each entry of the menu is selected by its number (and going back by `b` or
/// `back`).
pub proof fn law_menu_answers(a: MenuAction)
    ensures
        a != MenuAction::Unknown ==> menu_action_of(menu_answer(a)) == a,
        menu_action_of("back"@) == MenuAction::Back,
{
    lemma_menu_words_differ();
}

/// Each entry of the QCash menu is selected by its number.
pub proof fn law_qcash_answers(a: QCashAction)
    ensures
        a != QCashAction::Unknown && a != QCashAction::Back ==> qcash_action_of(qcash_answer(a)) == a,
{
    lemma_qcash_words_differ();
    if a != QCashAction::Unknown && a != QCashAction::Back {
        reveal_strlit("1");
        reveal_strlit("2");
        reveal_strlit("3");
        reveal_strlit("4");
        reveal_strlit("5");
        reveal_strlit("6");
        reveal_strlit("7");
        reveal_strlit("8");
        let w = qcash_answer(a);
        assert(w.len() == 1 && '1' <= w[0] && w[0] <= '8');
        assert(trim_start(w) == w);
        assert(trim_end(w) == w);
        assert(trim(w) == w);
    }
}

/// The view in which each menu entry that asks the node for a fixed path
/// shows the answer.
pub open spec fn entry_view(a: MenuAction) -> Option<ResponseView> {
    match a {
        MenuAction::Health => Some(ResponseView::Health),
        MenuAction::Status => Some(ResponseView::Status),
        MenuAction::Peers => Some(ResponseView::Peers),
        MenuAction::Chain => Some(ResponseView::Chain),
        MenuAction::LatestBlocks => Some(ResponseView::LatestBlocks),
        MenuAction::Accounts => Some(ResponseView::Accounts),
        MenuAction::Mempool => Some(ResponseView::Mempool),
        _ => None,
    }
}

/// The fixed node paths differ from each other and from the lookup prefixes.
proof fn lemma_fixed_paths()
    ensures
        "/health"@.len() == 7,
        "/status"@.len() == 7,
        "/chain"@.len() == 6,
        "/stats"@.len() == 6,
        "/chain/stats"@.len() == 12,
        "/peers"@.len() == 6,
        "/balance/"@.len() == 9,
        "/blocks/latest"@.len() == 14,
        "/blocks/"@.len() == 8,
        "/tx/"@.len() == 4,
        "/address/"@.len() == 9,
        "/accounts"@.len() == 9,
        "/mempool"@.len() == 8,
        "/health"@ != "/status"@,
        "/chain"@ != "/stats"@,
        "/chain"@ != "/peers"@,
        "/stats"@ != "/peers"@,
        "/accounts"@ != "/balance/"@,
        "/accounts"@ != "/address/"@,
        "/mempool"@ != "/blocks/"@,
        !"/balance/"@.is_prefix_of("/accounts"@),
        !"/address/"@.is_prefix_of("/accounts"@),
        !"/blocks/"@.is_prefix_of("/mempool"@),
        "/blocks/"@.is_prefix_of("/blocks/latest"@),
{
    reveal_strlit("/health");
    reveal_strlit("/status");
    reveal_strlit("/chain");
    reveal_strlit("/stats");
    reveal_strlit("/chain/stats");
    reveal_strlit("/peers");
    reveal_strlit("/balance/");
    reveal_strlit("/blocks/latest");
    reveal_strlit("/blocks/");
    reveal_strlit("/tx/");
    reveal_strlit("/address/");
    reveal_strlit("/accounts");
    reveal_strlit("/mempool");
    assert("/health"@[1] != "/status"@[1]);
    assert("/chain"@[1] != "/stats"@[1]);
    assert("/chain"@[1] != "/peers"@[1]);
    assert("/stats"@[1] != "/peers"@[1]);
    assert("/accounts"@[1] != "/balance/"@[1]);
    assert("/accounts"@[2] != "/address/"@[2]);
    assert("/mempool"@[1] != "/blocks/"@[1]);
    assert("/accounts"@[1] != "/balance/"@[1]);
    assert("/accounts"@[2] != "/address/"@[2]);
    assert("/mempool"@[1] != "/blocks/"@[1]);
    assert forall|k: int| 0 <= k < 8 implies "/blocks/latest"@[k] == "/blocks/"@[k] by {}
}

/// Each menu entry that asks the node for a fixed path shows the answer in
/// that entry's own view: the status in the status view, the chain in the
/// chain view, and so on; both statistics paths are shown as statistics.
pub proof fn law_fixed_paths_shown_in_their_view(a: MenuAction)
    ensures
        fixed_path_of(a) is Some <==> entry_view(a) is Some,
        fixed_path_of(a) is Some ==> Some(view_of(fixed_path_of(a)->Some_0)) == entry_view(a),
        view_of("/stats"@) == ResponseView::ChainStats,
        view_of("/chain/stats"@) == ResponseView::ChainStats,
{
    lemma_fixed_paths();
    reveal_strlit("/health");
    reveal_strlit("/status");
    reveal_strlit("/chain");
    reveal_strlit("/peers");
    reveal_strlit("/balance/");
    reveal_strlit("/blocks/latest");
    reveal_strlit("/blocks/");
    reveal_strlit("/tx/");
    reveal_strlit("/address/");
    reveal_strlit("/accounts");
    reveal_strlit("/mempool");
    match a {
        MenuAction::Health => {
            lemma_not_prefix("/tx/"@, "/health"@, 1);
        },
        MenuAction::Status => {
            lemma_not_prefix("/tx/"@, "/status"@, 1);
        },
        MenuAction::Chain => {
            lemma_not_prefix("/tx/"@, "/chain"@, 1);
        },
        MenuAction::Peers => {
            lemma_not_prefix("/tx/"@, "/peers"@, 1);
        },
        MenuAction::LatestBlocks => {
            lemma_not_prefix("/balance/"@, "/blocks/latest"@, 2);
        },
        MenuAction::Accounts => {
            lemma_not_prefix("/balance/"@, "/accounts"@, 1);
            lemma_not_prefix("/blocks/"@, "/accounts"@, 1);
            lemma_not_prefix("/tx/"@, "/accounts"@, 1);
            lemma_not_prefix("/address/"@, "/accounts"@, 2);
        },
        MenuAction::Mempool => {
            lemma_not_prefix("/blocks/"@, "/mempool"@, 1);
            lemma_not_prefix("/tx/"@, "/mempool"@, 1);
        },
        _ => {},
    }
}

/// A sequence that differs from `q` at a position inside `q` does not start
/// with `q`.
proof fn lemma_not_prefix(q: Seq<char>, p: Seq<char>, k: int)
    requires
        0 <= k < q.len(),
        k < p.len(),
        q[k] != p[k],
    ensures
        !q.is_prefix_of(p),
{
    if q.is_prefix_of(p) {
        assert(p.subrange(0, q.len() as int)[k] == p[k]);
    }
}

/// The view in which each menu entry that looks up a prompted `value` shows
/// the answer: a block (the latest blocks for the height `latest`), a
/// transaction, an address.
pub open spec fn lookup_view(a: MenuAction, value: Seq<char>) -> ResponseView {
    match a {
        MenuAction::BlockByHeight => if value == "latest"@ {
            ResponseView::LatestBlocks
        } else {
            ResponseView::Block
        },
        MenuAction::BlockByHash => ResponseView::Block,
        MenuAction::TransactionByHash => ResponseView::Transaction,
        MenuAction::AddressExplorer => ResponseView::Address,
        _ => ResponseView::Pretty,
    }
}

/// Two sequences that differ at a position inside both differ.
proof fn lemma_differ_at(p: Seq<char>, q: Seq<char>, k: int)
    requires
        0 <= k < p.len(),
        k < q.len(),
        p[k] != q[k],
    ensures
        p != q,
{
}

/// `prefix + value` starts with `prefix` and agrees with it on its positions.
proof fn lemma_joined(prefix: Seq<char>, value: Seq<char>)
    ensures
        prefix.is_prefix_of(prefix + value),
        (prefix + value).len() == prefix.len() + value.len(),
        forall|k: int| 0 <= k < prefix.len() ==> #[trigger] (prefix + value)[k] == prefix[k],
{
    assert((prefix + value).subrange(0, prefix.len() as int) =~= prefix);
}

/// Each menu entry that looks up a prompted value shows the node's answer
/// in that entry's own view, whatever the value: a block by height or hash
/// as a block (the height `latest` as the latest blocks), a transaction as
/// a transaction, an address as an address; a balance path is shown as a
/// balance.
pub proof fn law_lookup_paths_shown_in_their_view(a: MenuAction, value: Seq<char>)
    ensures
        lookup_path_of(a, value) is Some ==> view_of(lookup_path_of(a, value)->Some_0) == lookup_view(a, value),
        view_of("/balance/"@ + value) == ResponseView::Balance,
{
    lemma_fixed_paths();
    reveal_strlit("/health");
    reveal_strlit("/status");
    reveal_strlit("/chain");
    reveal_strlit("/stats");
    reveal_strlit("/chain/stats");
    reveal_strlit("/peers");
    reveal_strlit("/balance/");
    reveal_strlit("/blocks/latest");
    reveal_strlit("/blocks/");
    reveal_strlit("/blocks/hash/");
    reveal_strlit("/tx/");
    reveal_strlit("/address/");
    reveal_strlit("/accounts");
    reveal_strlit("/mempool");
    reveal_strlit("latest");
    let b = "/balance/"@ + value;
    lemma_joined("/balance/"@, value);
    lemma_differ_at(b, "/health"@, 1);
    lemma_differ_at(b, "/status"@, 1);
    lemma_differ_at(b, "/chain"@, 1);
    lemma_differ_at(b, "/stats"@, 1);
    lemma_differ_at(b, "/chain/stats"@, 1);
    lemma_differ_at(b, "/peers"@, 1);
    match a {
        MenuAction::BlockByHeight => {
            let p = "/blocks/"@ + value;
            lemma_joined("/blocks/"@, value);
            lemma_differ_at(p, "/health"@, 1);
            lemma_differ_at(p, "/status"@, 1);
            lemma_differ_at(p, "/chain"@, 1);
            lemma_differ_at(p, "/stats"@, 1);
            lemma_differ_at(p, "/chain/stats"@, 1);
            lemma_differ_at(p, "/peers"@, 1);
            lemma_not_prefix("/balance/"@, p, 2);
            if value == "latest"@ {
                assert(p =~= "/blocks/latest"@);
            } else if p == "/blocks/latest"@ {
                assert(value =~= p.subrange(8, 14));
                assert(value =~= "latest"@);
            }
        },
        MenuAction::BlockByHash => {
            let p = "/blocks/hash/"@ + value;
            lemma_joined("/blocks/hash/"@, value);
            lemma_differ_at(p, "/health"@, 1);
            lemma_differ_at(p, "/status"@, 1);
            lemma_differ_at(p, "/chain"@, 1);
            lemma_differ_at(p, "/stats"@, 1);
            lemma_differ_at(p, "/chain/stats"@, 1);
            lemma_differ_at(p, "/peers"@, 1);
            lemma_not_prefix("/balance/"@, p, 2);
            lemma_differ_at(p, "/blocks/latest"@, 8);
            assert("/blocks/"@.is_prefix_of(p)) by {
                assert(p.subrange(0, 8) =~= "/blocks/"@);
            }
        },
        MenuAction::TransactionByHash => {
            let p = "/tx/"@ + value;
            lemma_joined("/tx/"@, value);
            lemma_differ_at(p, "/health"@, 1);
            lemma_differ_at(p, "/status"@, 1);
            lemma_differ_at(p, "/chain"@, 1);
            lemma_differ_at(p, "/stats"@, 1);
            lemma_differ_at(p, "/chain/stats"@, 1);
            lemma_differ_at(p, "/peers"@, 1);
            lemma_differ_at(p, "/blocks/latest"@, 1);
            if p.len() > 2 {
                lemma_not_prefix("/balance/"@, p, 1);
                lemma_not_prefix("/blocks/"@, p, 1);
            }
        },
        MenuAction::AddressExplorer => {
            if value.len() > 0 {
                let p = "/address/"@ + value;
                lemma_joined("/address/"@, value);
                lemma_differ_at(p, "/health"@, 1);
                lemma_differ_at(p, "/status"@, 1);
                lemma_differ_at(p, "/chain"@, 1);
                lemma_differ_at(p, "/stats"@, 1);
                lemma_differ_at(p, "/chain/stats"@, 1);
                lemma_differ_at(p, "/peers"@, 1);
                lemma_differ_at(p, "/blocks/latest"@, 1);
                lemma_not_prefix("/balance/"@, p, 1);
                lemma_not_prefix("/blocks/"@, p, 1);
                lemma_not_prefix("/tx/"@, p, 1);
            }
        },
        _ => {},
    }
}

} // verus!
